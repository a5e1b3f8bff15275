//! Binary codec for the message family of a peak-detection instrument.
//!
//! The crate covers three record types and one framing layer:
//! a bit-packed 12-byte sensor-native peak record, canonical fixed-width
//! big-endian encodings for peaks, filter configurations and status
//! signals, and a one-byte-tag message envelope that multiplexes the
//! three over a single byte stream with precise handling of truncated
//! input.

pub mod be_bytes;
pub mod codec;
pub mod config;
pub mod error;
pub mod hexfmt;
pub mod message;
pub mod peak;
pub mod status;

pub use codec::Deserialize;
pub use codec::Serialize;
pub use config::FilterConfig;
pub use error::DeserializeError;
pub use message::Message;
pub use peak::MeasuredPeak;
pub use status::Status;
