//! Codec for the opening handshake of an XML-streaming instant-messaging
//! protocol: stream headers, the server's feature advertisement, the
//! starttls negotiation and the mechanism list, rendered to and parsed from
//! exact wire text.

pub mod chars;
pub mod codec;
pub mod error;
pub mod events;
pub mod features;
pub mod header;
pub mod inversion;
pub mod laws;
pub mod mechanisms;
pub mod reader;
pub mod starttls;

pub use error::CodecError;
pub use features::StreamFeatures;
pub use header::{StreamHeader, StreamHeaderResponse};
pub use mechanisms::{Mechanism, Mechanisms};
pub use starttls::{StartTls, StartTlsFailure, StartTlsProceed, StartTlsResponse};
