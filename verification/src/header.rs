//! The fixed 12-byte DNS message header (RFC 1035 4.1.1): transaction id,
//! flags word and the four section counters, all 16-bit big-endian fields.

use vstd::prelude::*;

use crate::error::DnsError;
use crate::flags::HeaderFlags;
use crate::wire::{concat16, push_u16_be, read_u16_be, u16_bytes};

verus! {

/// The number of bytes of an encoded header.
pub const HDR_SIZE: usize = 12;

/// The DNS message header.
#[derive(Debug, Clone, Copy, PartialEq, Eq, Structural)]
pub struct Header {
    /// The transaction id correlating a query with its response.
    pub id: u16,
    /// The bit-packed flags word.
    pub flags: HeaderFlags,
    /// The number of questions in the message.
    pub qd_count: u16,
    /// The number of answer records in the message.
    pub an_count: u16,
    /// The number of authority records in the message.
    pub ns_count: u16,
    /// The number of additional records in the message.
    pub ar_count: u16,
}

/// The 12 transmission-order bytes of a header.
pub open spec fn header_bytes(h: Header) -> Seq<u8> {
    u16_bytes(h.id) + u16_bytes(h.flags.word) + u16_bytes(h.qd_count) + u16_bytes(h.an_count)
        + u16_bytes(h.ns_count) + u16_bytes(h.ar_count)
}

/// The header held by the first 12 bytes of a buffer.
pub open spec fn header_of_bytes(b: Seq<u8>) -> Header
    recommends
        b.len() >= 12,
{
    Header {
        id: concat16(b[0], b[1]),
        flags: HeaderFlags { word: concat16(b[2], b[3]) },
        qd_count: concat16(b[4], b[5]),
        an_count: concat16(b[6], b[7]),
        ns_count: concat16(b[8], b[9]),
        ar_count: concat16(b[10], b[11]),
    }
}

/// Relies on rand::random: draws a fresh value from the thread-local
/// generator. Nothing can be promised of the value drawn.
#[verifier::external_body]
fn random_u16() -> u16 {
    rand::random()
}

impl Header {
    /// A query header: the given transaction id, or a random one when none
    /// is supplied; one question; no flags set and every other counter zero.
    pub fn new(id: Option<u16>) -> (r: Header)
        ensures
            id is Some ==> r.id == id.unwrap(),
            r.flags.word == 0,
            r.qd_count == 1,
            r.an_count == 0,
            r.ns_count == 0,
            r.ar_count == 0,
    {
        let id_val: u16 = match id {
            Some(n) => n,
            None => random_u16(),
        };
        Header {
            id: id_val,
            flags: HeaderFlags::new(),
            // de facto fixed: resolvers reject messages whose question count
            // is not one
            qd_count: 1,
            an_count: 0,
            ns_count: 0,
            ar_count: 0,
        }
    }

    /// Encode this header as its 12 transmission-order bytes.
    pub fn to_bytes(&self) -> (r: Vec<u8>)
        ensures
            r@ == header_bytes(*self),
            r@.len() == 12,
    {
        let mut out: Vec<u8> = Vec::new();
        push_u16_be(&mut out, self.id);
        push_u16_be(&mut out, self.flags.word);
        push_u16_be(&mut out, self.qd_count);
        push_u16_be(&mut out, self.an_count);
        push_u16_be(&mut out, self.ns_count);
        push_u16_be(&mut out, self.ar_count);
        proof {
            assert(out@ =~= header_bytes(*self));
        }
        out
    }

    /// Decode the header held by the first 12 bytes of a buffer; a buffer
    /// shorter than 12 bytes is rejected, never padded.
    pub fn from_bytes(bytes: &Vec<u8>) -> (r: Result<Header, DnsError>)
        ensures
            bytes@.len() >= 12 ==> r == Ok::<Header, DnsError>(header_of_bytes(bytes@)),
            bytes@.len() < 12 ==> r == Err::<Header, DnsError>(DnsError::Truncated),
    {
        if bytes.len() < HDR_SIZE {
            return Err(DnsError::Truncated);
        }
        Ok(Header {
            id: read_u16_be(bytes, 0),
            flags: HeaderFlags::from_u16(read_u16_be(bytes, 2)),
            qd_count: read_u16_be(bytes, 4),
            an_count: read_u16_be(bytes, 6),
            ns_count: read_u16_be(bytes, 8),
            ar_count: read_u16_be(bytes, 10),
        })
    }
}

/// Decoding the bytes of an encoded header yields the header back.
pub proof fn lemma_header_round_trip(h: Header)
    ensures
        header_of_bytes(header_bytes(h)) == h,
{
    crate::wire::lemma_u16_bytes_concat(h.id);
    crate::wire::lemma_u16_bytes_concat(h.flags.word);
    crate::wire::lemma_u16_bytes_concat(h.qd_count);
    crate::wire::lemma_u16_bytes_concat(h.an_count);
    crate::wire::lemma_u16_bytes_concat(h.ns_count);
    crate::wire::lemma_u16_bytes_concat(h.ar_count);
}

} // verus!
