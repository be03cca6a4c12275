//! A DNS message codec and forwarding engine.
//!
//! Bytes are decoded into a [`DnsMessage`], the forwarding logic adds answers
//! to it, and the message is encoded back into a fixed 512-byte datagram.
//! Every decoder here is proved against a mathematical description of the
//! wire format, and every encoder is proved to produce exactly that format.

pub mod answer;
pub mod buffer;
pub mod forward;
pub mod header;
pub mod message;
pub mod name;
pub mod question;
pub mod wire;

pub use answer::Answer;
pub use buffer::BytePacketBuffer;
pub use forward::Forwarder;
pub use header::{
    DnsHeader, DnsHeaderFlag, OperationCode, QueryResponseIndicator, Reserved, ResponseCode,
};
pub use message::DnsMessage;
pub use name::DomainName;
pub use question::{Question, ResourceClass, ResourceType};
pub use wire::DnsError;
