//! Analysis core of the emulator plugins: the branch model, basic blocks and
//! the terminator detector, the trace assembler and its JSON text, the
//! call-stack renderer, the capture filter, the debug bridge's state machine
//! with its register banks, and the monitor sublanguage.

pub mod block;
pub mod branch;
pub mod bridge;
pub mod callstack;
pub mod capture;
pub mod detect;
pub mod ir;
pub mod json;
pub mod monitor;
pub mod registers;
pub mod text;
pub mod trace;

pub use block::BasicBlock;
pub use branch::Branch;
pub use bridge::PandaTarget;
pub use trace::BasicBlockList;
