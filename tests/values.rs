use movy::codec::{decode_le, encode_le};
use movy::mutation::{fixed_width, MagicNumberMutator, MutableValue};
use movy::rand::{FuzzContext, MutationResult};
use movy::value::{commit, sync, InputArgument, MoveAddress, MoveTypeTag, U256};

fn ctx() -> FuzzContext {
    FuzzContext::new(7, vec![MoveAddress(U256 { lo: 0xabc, hi: 0 })])
}

#[test]
fn encode_and_decode_little_endian() {
    assert_eq!(encode_le(0x1234, 2), vec![0x34, 0x12]);
    assert_eq!(encode_le(1, 4), vec![1, 0, 0, 0]);
    assert_eq!(decode_le(&[0x78, 0x56, 0x34, 0x12]), 0x1234_5678);
    assert_eq!(decode_le(&[]), 0);
}

#[test]
fn sync_gives_little_endian_bytes_at_width() {
    assert_eq!(sync(&InputArgument::U16(0x1234)), vec![0x34, 0x12]);
    assert_eq!(sync(&InputArgument::U8(9)), vec![9]);
    assert_eq!(sync(&InputArgument::U64(1)).len(), 8);
    assert_eq!(sync(&InputArgument::U128(u128::MAX)), vec![0xff; 16]);
    let big = InputArgument::U256(U256 { lo: 1, hi: 2 });
    let bytes = sync(&big);
    assert_eq!(bytes.len(), 32);
    assert_eq!(bytes[0], 1);
    assert_eq!(bytes[16], 2);
    let v = InputArgument::Vector(MoveTypeTag::U16, vec![InputArgument::U16(1), InputArgument::U16(0x0203)]);
    assert_eq!(sync(&v), vec![1, 0, 3, 2]);
}

#[test]
fn commit_of_sync_round_trips() {
    let values = vec![
        InputArgument::U8(200),
        InputArgument::U16(65535),
        InputArgument::U32(0xdead_beef),
        InputArgument::U64(u64::MAX - 3),
        InputArgument::U128(0x1234_5678_9abc_def0_1122_3344_5566_7788),
        InputArgument::U256(U256 { lo: u128::MAX, hi: 77 }),
        InputArgument::Vector(MoveTypeTag::U32, vec![InputArgument::U32(5), InputArgument::U32(u32::MAX)]),
        InputArgument::Vector(MoveTypeTag::U8, vec![]),
    ];
    for v in values {
        let bytes = sync(&v);
        assert_eq!(commit(&bytes, &v), v);
    }
}

#[test]
fn commit_reads_new_bytes_at_the_same_type() {
    let v = InputArgument::U32(0);
    assert_eq!(commit(&[1, 0, 0, 0], &v), InputArgument::U32(1));
    let vec_arg = InputArgument::Vector(MoveTypeTag::U16, vec![InputArgument::U16(0), InputArgument::U16(0)]);
    assert_eq!(
        commit(&[1, 0, 0, 1], &vec_arg),
        InputArgument::Vector(MoveTypeTag::U16, vec![InputArgument::U16(1), InputArgument::U16(256)])
    );
}

#[test]
fn fixed_width_shapes() {
    assert!(fixed_width(&InputArgument::U64(1)));
    assert!(!fixed_width(&InputArgument::Bool(true)));
    assert!(!fixed_width(&InputArgument::Address(MoveAddress(U256 { lo: 1, hi: 0 }))));
    assert!(!fixed_width(&InputArgument::Vector(MoveTypeTag::U8, vec![InputArgument::U16(1)])));
    assert!(!fixed_width(&InputArgument::Vector(MoveTypeTag::Bool, vec![])));
}

#[test]
fn magic_number_mutator_skips_on_empty_pool() {
    let m = MagicNumberMutator::new(vec![]);
    let mut c = ctx();
    let mut input = vec![1, 2, 3, 4];
    assert_eq!(m.mutate(&mut c, &mut input), MutationResult::Skipped);
    assert_eq!(input, vec![1, 2, 3, 4]);
}

#[test]
fn magic_number_mutator_skips_without_matching_length() {
    let m = MagicNumberMutator::new(vec![vec![9, 9], vec![1, 2, 3, 4, 5, 6, 7, 8]]);
    let mut c = ctx();
    let mut input = vec![1, 2, 3, 4];
    assert_eq!(m.mutate(&mut c, &mut input), MutationResult::Skipped);
    assert_eq!(input, vec![1, 2, 3, 4]);
}

#[test]
fn magic_number_mutator_overwrites_with_matching_entry() {
    let m = MagicNumberMutator::new(vec![vec![9, 9], vec![7, 7, 7, 7]]);
    let mut c = ctx();
    let mut input = vec![1, 2, 3, 4];
    assert_eq!(m.mutate(&mut c, &mut input), MutationResult::Mutated);
    assert_eq!(input, vec![7, 7, 7, 7]);
}

#[test]
fn sample_magic_number_respects_width() {
    let mut c = ctx();
    let pool = vec![vec![0x10, 0x27, 0, 0, 0, 0, 0, 0]];
    let mut v = MutableValue::new(InputArgument::U64(5));
    assert_eq!(v.sample_magic_number(&mut c, &pool), MutationResult::Mutated);
    assert_eq!(v.value, InputArgument::U64(10_000));

    let mut w = MutableValue::new(InputArgument::U32(5));
    assert_eq!(w.sample_magic_number(&mut c, &pool), MutationResult::Skipped);
    assert_eq!(w.value, InputArgument::U32(5));

    let mut e = MutableValue::new(InputArgument::U64(5));
    assert_eq!(e.sample_magic_number(&mut c, &vec![]), MutationResult::Skipped);
    assert_eq!(e.value, InputArgument::U64(5));

    let mut b = MutableValue::new(InputArgument::Bool(true));
    assert_eq!(b.sample_magic_number(&mut c, &pool), MutationResult::Skipped);

    let mut vec_arg = MutableValue::new(InputArgument::Vector(
        MoveTypeTag::U32,
        vec![InputArgument::U32(0), InputArgument::U32(0)],
    ));
    assert_eq!(vec_arg.sample_magic_number(&mut c, &pool), MutationResult::Mutated);
    assert_eq!(
        vec_arg.value,
        InputArgument::Vector(MoveTypeTag::U32, vec![InputArgument::U32(10_000), InputArgument::U32(0)])
    );
}

#[test]
fn mutate_u8_always_changes_value() {
    let mut c = ctx();
    for start in [0u8, 1, 128, 254, 255] {
        for _ in 0..50 {
            let mut v = MutableValue::new(InputArgument::U8(start));
            assert_eq!(v.mutate(&mut c, &vec![], false), MutationResult::Mutated);
            match v.value {
                InputArgument::U8(n) => assert_ne!(n, start),
                other => panic!("kind changed: {:?}", other),
            }
        }
    }
}

#[test]
fn mutate_keeps_kind_and_width() {
    let mut c = ctx();
    let pool = vec![vec![1, 2]];
    for _ in 0..50 {
        let mut b = MutableValue::new(InputArgument::Bool(false));
        assert_eq!(b.mutate(&mut c, &pool, false), MutationResult::Mutated);
        assert!(matches!(b.value, InputArgument::Bool(_)));

        let mut x = MutableValue::new(InputArgument::U64(3));
        x.mutate(&mut c, &pool, false);
        assert!(matches!(x.value, InputArgument::U64(_)));

        let mut y = MutableValue::new(InputArgument::U16(3));
        y.mutate(&mut c, &pool, true);
        assert!(matches!(y.value, InputArgument::U16(_)));

        let mut z = MutableValue::new(InputArgument::U256(U256 { lo: 1, hi: 1 }));
        z.mutate(&mut c, &vec![], true);
        assert!(matches!(z.value, InputArgument::U256(_)));

        let mut a = MutableValue::new(InputArgument::Address(MoveAddress(U256 { lo: 5, hi: 0 })));
        assert_eq!(a.mutate(&mut c, &pool, false), MutationResult::Mutated);
        assert!(matches!(a.value, InputArgument::Address(_)));
    }
}

#[test]
fn mutate_skips_vectors() {
    let mut c = ctx();
    let initial = InputArgument::Vector(MoveTypeTag::U8, vec![InputArgument::U8(1)]);
    let mut v = MutableValue::new(initial.clone());
    assert_eq!(v.mutate(&mut c, &vec![vec![1]], false), MutationResult::Skipped);
    assert_eq!(v.value, initial);
}

#[test]
fn rand_caller_picks_a_known_caller() {
    let callers = vec![MoveAddress(U256 { lo: 1, hi: 0 }), MoveAddress(U256 { lo: 2, hi: 0 })];
    let mut c = FuzzContext::new(3, callers.clone());
    for _ in 0..20 {
        assert!(callers.contains(&c.rand_caller()));
    }
    for n in [1usize, 2, 10, 1000] {
        assert!(c.below_or_zero(n) < n);
    }
    assert_eq!(c.below_or_zero(0), 0);
}

#[test]
fn interesting_dword_keeps_length() {
    let mut c = ctx();
    let mut bytes = vec![0u8; 8];
    let mut changed = false;
    for _ in 0..20 {
        assert!(c.interesting_dword(&mut bytes));
        assert_eq!(bytes.len(), 8);
        changed |= bytes != vec![0u8; 8];
    }
    assert!(changed);
    let mut short = vec![1u8, 2, 3];
    assert!(!c.interesting_dword(&mut short));
    assert_eq!(short, vec![1, 2, 3]);
}

#[test]
fn magic_pool_keeps_distinct_entries() {
    let m = MagicNumberMutator::new(vec![vec![1, 2], vec![3], vec![1, 2], vec![3], vec![4]]);
    assert_eq!(m.magic_number_pool, vec![vec![1, 2], vec![3], vec![4]]);
}

#[test]
fn mutate_with_matching_pool_entry_always_mutates() {
    let mut c = ctx();
    for _ in 0..20 {
        let mut v = MutableValue::new(InputArgument::U16(7));
        assert_eq!(v.mutate(&mut c, &vec![vec![9, 9]], false), MutationResult::Mutated);
        let mut w = MutableValue::new(InputArgument::U256(U256 { lo: 1, hi: 0 }));
        assert_eq!(w.mutate(&mut c, &vec![], false), MutationResult::Mutated);
    }
}
