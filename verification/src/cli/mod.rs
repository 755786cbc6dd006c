pub mod executor;
