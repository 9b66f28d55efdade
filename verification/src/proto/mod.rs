//! What the server and its clients say to each other.
pub mod codec;
pub mod filters;
pub mod frame;
pub mod grid;
pub mod messages;
pub mod radio;
pub mod wire;
