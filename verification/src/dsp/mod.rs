//! Signal processing around the arithmetic: what is decided, counted and
//! read.
pub mod audio_dsp;
pub mod audio_if;
pub mod blocks;
pub mod demod;
pub mod drm;
pub mod drm_file;
pub mod error;
pub mod nb;
pub mod spectrum;
