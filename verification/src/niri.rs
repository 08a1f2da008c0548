pub mod laws;
pub mod monitors;
pub mod state;
pub mod stream;
