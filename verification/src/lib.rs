//! Transaction-execution and block-assembly engine for a rollup operator.
//!
//! The crate is organised leaf-first:
//! - `bytes`: big-endian integer/byte-string conversions shared by the codec;
//! - `params`: protocol constants (chunk size, field widths, opcodes);
//! - `packing`: the lossy exponent/mantissa representation of amounts;
//! - `tx`: transactions and priority operations as plain data;
//! - `operations`: the per-kind fixed-width binary operation codec;
//! - `block`: executed operations, pending and sealed blocks, size classes;
//! - `ledger`: the authoritative account state and per-operation application;
//! - `keeper`: the sequential state keeper driving ledger and block assembly;
//! - `records`: append-only stores for executed-operation records;
//! - `prover`: proof payload shapes and the explicit setup cache;
//! - `testkit`: identifiers and helpers used by test harnesses.

pub mod block;
pub mod bytes;
pub mod keeper;
pub mod ledger;
pub mod operations;
pub mod packing;
pub mod params;
pub mod prover;
pub mod records;
pub mod testkit;
pub mod tx;
