//! Client-side decoding of the live observation stream of Easee chargers.

pub mod api;
pub mod decode;
pub mod double;
pub mod json;
pub mod observation;
pub mod signalr;
pub mod stream;
pub mod text;
