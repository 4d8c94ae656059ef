//! Oracles that classify bytecode or a finished run into findings.

pub mod bool_judgement;
pub mod bytecode;
pub mod finding;
pub mod infinite_loop;
pub mod precision_loss;
pub mod report;
pub mod unused;
pub mod unused_const;
pub mod unused_private_fun;
pub mod unused_report;
pub mod unused_struct;
pub mod all;
pub mod common;
