use movy::flash::{FlashProvider, FlashWrapper, ObjectInput};
use movy::value::{MoveAddress, MoveStructTag, MoveTypeTag, U256};

fn addr(n: u128) -> MoveAddress {
    MoveAddress(U256 { lo: n, hi: 0 })
}

fn hex(n: u128) -> String {
    format!("0x{:064x}", n)
}

fn object(n: u128) -> ObjectInput {
    ObjectInput { id: addr(n), version: 1, mutable: true }
}

fn sui() -> MoveStructTag {
    MoveStructTag { address: addr(2), module: "sui".to_string(), name: "SUI".to_string(), tys: vec![] }
}

#[test]
fn flash_provider_text() {
    let cetus = FlashProvider::Cetus {
        package: addr(0xc),
        coin_a: MoveTypeTag::Struct(Box::new(sui())),
        coin_b: MoveTypeTag::U64,
        global_config: object(5),
        pool: object(6),
        clock: object(7),
    };
    assert_eq!(
        cetus.describe(),
        format!(
            "Cetus(package={}, coins={}::sui::SUI/u64, config={}, pool={})",
            hex(0xc),
            hex(2),
            hex(5),
            hex(6)
        )
    );
    assert_eq!(cetus.package(), addr(0xc));
    let nemo = FlashProvider::Nemo {
        package: addr(0xe),
        coin: MoveTypeTag::Vector(Box::new(MoveTypeTag::U8)),
        version: object(8),
        py_state: object(9),
        clock: object(7),
    };
    assert_eq!(
        nemo.describe(),
        format!("Nemo(package={}, coin=vector<u8>, version={}, py_state={})", hex(0xe), hex(8), hex(9))
    );
    let wrapper = FlashWrapper {
        provider: nemo,
        flash_coin: MoveStructTag {
            address: addr(2),
            module: "coin".to_string(),
            name: "Coin".to_string(),
            tys: vec![MoveTypeTag::Struct(Box::new(sui())), MoveTypeTag::Bool],
        },
        initial_flash_amount: 1_000_000,
    };
    let text = wrapper.describe();
    assert!(text.starts_with("Flash(source=Nemo(package="));
    assert!(text.ends_with(&format!(
        "coin={}::coin::Coin<{}::sui::SUI, bool>, initial_amount=1000000)",
        hex(2),
        hex(2)
    )));
}
