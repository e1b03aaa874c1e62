//! Interpreter core for a stack-based 256-bit virtual machine running
//! Ethereum-style bytecode.

pub mod word;
pub mod arith;
pub mod program;
pub mod fault;
pub mod stack;
pub mod memory;
pub mod context;
pub mod digest;
pub mod interp;
pub mod machine;
pub mod laws;

pub use context::{Block, Txn};
pub use fault::Failure;
pub use interp::EvmResult;
pub use machine::{evm, run};
