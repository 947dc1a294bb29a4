//! Canonical binary codec for arbitrary-precision protocol integers and
//! manager operation contents.

pub mod arith;
pub mod bits;
pub mod coder;
pub mod consumable;
pub mod encoded;
pub mod error;
pub mod integer;
pub mod mutez;
pub mod natural;
pub mod operation;
pub mod parameters;
pub mod rpc;
pub mod text;
pub mod zarith;
