//! A minimal DNS stub-resolver library: the RFC 1035 wire-format codec for
//! headers, bit-packed flags, domain-name labels, questions and resource
//! records, together with the pure parts of the resolver configuration and
//! display logic. The UDP exchange itself lives outside this crate.

pub mod answer;
pub mod error;
pub mod flags;
pub mod header;
pub mod message;
pub mod name;
pub mod question;
pub mod records;
pub mod resolv;
pub mod text;
pub mod wire;
