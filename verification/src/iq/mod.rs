//! Sources of IQ samples: what each can do, and how the FDM-DUO speaks.
pub mod error;
pub mod fdm_duo;
pub mod source;
