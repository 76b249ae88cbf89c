pub mod error;
pub mod heap;
pub mod stack;
pub mod vm;
