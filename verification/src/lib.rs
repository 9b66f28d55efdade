//! The logic of a software-defined radio station around an Elad FDM-DUO, and
//! of the window through which an operator uses it.
//!
//! - [`proto`]: what server and client say to each other, and its bytes.
//! - [`cat`]: the radio's command channel, and the `rigctld` protocol that
//!   other programs speak.
//! - [`audio`]: sound devices and recordings.
//! - [`iq`]: the sources of IQ samples.
//! - [`dsp`]: what is decided, counted and read around signal processing.
//! - [`client`]: what the operator sees, and what a click does.
//! - [`text`]: numbers, words and white space in text.
//!
//! Every function states what it does as a contract over mathematical models:
//! text is a sequence of characters, messages have models of their own, and
//! floating-point numbers are carried by their bits. Devices, processes and
//! connections stand outside; they hand in what they have read and do what the
//! library decides.
pub mod audio;
pub mod cat;
pub mod client;
pub mod dsp;
pub mod iq;
pub mod proto;
pub mod text;
