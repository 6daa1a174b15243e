//! A self-describing binary request/response protocol for a fungible-token
//! service: a fixed 16-byte protocol tag, a one-byte operation discriminant,
//! and a fixed-shape payload per operation, composed into a single byte
//! buffer that is produced and parsed losslessly and rejected safely when
//! malformed or foreign.

pub mod codec;
pub mod message;
pub mod prefix;
pub mod processor;

pub use codec::Codec;
pub use codec::DecodeError;
pub use codec::decode;
pub use codec::decode_fallible;
pub use codec::encode;
pub use codec::Address;
pub use codec::U256;
pub use prefix::Prefix;
pub use prefix::PREFIX;
pub use message::Request;
pub use message::Response;
pub use message::Event;
pub use message::RequestCall;
pub use processor::Error;
pub use processor::Sealed;
pub use processor::Vrc20;
pub use processor::Vrc20Processor;
