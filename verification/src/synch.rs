pub mod channel;
pub mod process;
