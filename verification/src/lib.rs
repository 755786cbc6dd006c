pub mod access;
pub mod buffer;
pub mod cli;
pub mod disk;
pub mod page;
pub mod storage;
pub mod text;
