pub mod regs;
pub mod types;
