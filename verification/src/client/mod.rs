//! The operator's side: what is shown, what is kept, and what is asked of the
//! server.
pub mod display;
pub mod link;
pub mod panel;
pub mod params;
pub mod ring;
pub mod status;
pub mod tuning;
pub mod waterfall;
