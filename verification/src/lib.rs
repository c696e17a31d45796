//! A unified streaming-compression facade: a tolerant key/value parameter
//! mini-language, a case-insensitive codec registry, and per-codec stream
//! adapters with a verified finalization and retry protocol.

pub mod errors;
pub mod text;
pub mod params;
pub mod codec;
pub mod liblz4;
pub mod liblzo;

pub use codec::{CompressionType, WriterPlan};
pub use errors::{ConfigError, StreamError};
pub use params::ParamSet;
