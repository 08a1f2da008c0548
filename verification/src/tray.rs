pub mod eventstream;
pub mod service;
