//! Verified core of a semantics-aware fuzzer for Move smart-contract call sequences:
//! argument values and their mutation, call sequences and their reversible
//! post-processing, the static oracles, the metadata index, the call graph and the
//! feedback loop's decisions.

pub mod abi;
pub mod call_graph;
pub mod codec;
pub mod flash;
pub mod meta;
pub mod mutation;
pub mod object;
pub mod onchain;
pub mod oracles;
pub mod post;
pub mod rand;
pub mod sched;
pub mod sequence;
pub mod store;
pub mod text;
pub mod tracer;
pub mod value;
