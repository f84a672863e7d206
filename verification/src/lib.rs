pub mod display;
pub mod emulator;
pub mod error;
pub mod execute;
pub mod file_io;
pub mod instruction;
pub mod interface;
pub mod laws;
pub mod machine;
pub mod schedule;
