//! A register/stack bytecode virtual machine for the Silicon scripting
//! language, with its value model, nominal types and string interning.

pub mod chunk;
pub mod display;
pub mod engine;
pub mod fault;
pub mod frame;
pub mod heap;
pub mod instance;
pub mod math;
pub mod number;
pub mod operators;
pub mod parse;
pub mod register;
pub mod semantics;
pub mod string_pool;
pub mod token;
pub mod types;
pub mod vm;

pub use chunk::{Chunk, Function, OpCode};
pub use fault::{Fault, FaultKind};
pub use frame::CallFrame;
pub use instance::Instance;
pub use register::{Register, Variable};
pub use string_pool::StringPool;
pub use types::{Type, TypeRegistry};
pub use vm::{InstructionResult, VM};
