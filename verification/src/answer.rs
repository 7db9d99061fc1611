//! The answer section's resource records (RFC 1035 4.1.3): a 16-bit name
//! reference, TYPE, CLASS, a 32-bit TTL, and a length-prefixed RDATA
//! payload.

use vstd::prelude::*;

use crate::error::DnsError;
use crate::records::{class_of_code, class_str, type_of_code, type_str, RecordClass, RecordType};
use crate::text::{dec_digits, push_char, push_dec_u32};
use crate::wire::{byte_range, concat16, concat32, read_u16_be, read_u32_be};
use vstd::string::StringExecFns;

verus! {

/// The number of fixed bytes of a resource record, before its RDATA.
pub const RESP_DATA_SIZE: usize = 12;

/// One resource record of a response.
#[derive(Debug, PartialEq)]
pub struct Answer {
    /// The name field as it stands on the wire, usually a compression
    /// pointer back into the message; it is carried, not re-validated.
    pub domain: u16,
    /// The record type of the payload.
    pub rtype: RecordType,
    /// The record class of the payload.
    pub rclass: RecordClass,
    /// How many seconds the record may be cached.
    pub ttl: u32,
    /// The declared byte length of the payload.
    pub len: u16,
    /// The payload, exactly `len` bytes.
    pub data: Vec<u8>,
}

/// The mathematical model of a resource record.
pub ghost struct AnswerModel {
    /// The wire name field.
    pub domain: u16,
    /// The record type of the payload.
    pub rtype: RecordType,
    /// The record class of the payload.
    pub rclass: RecordClass,
    /// How many seconds the record may be cached.
    pub ttl: u32,
    /// The declared byte length of the payload.
    pub len: u16,
    /// The payload bytes.
    pub data: Seq<u8>,
}

impl View for Answer {
    type V = AnswerModel;

    open spec fn view(&self) -> AnswerModel {
        AnswerModel {
            domain: self.domain,
            rtype: self.rtype,
            rclass: self.rclass,
            ttl: self.ttl,
            len: self.len,
            data: self.data@,
        }
    }
}

/// Decode the resource record at the start of a buffer: in strict order the
/// name field, TYPE, CLASS, TTL and RDLENGTH, then exactly RDLENGTH bytes of
/// RDATA. Yields the record and the number of bytes it occupied - 12 plus
/// RDLENGTH - or the first error the fields give.
pub open spec fn answer_scan(b: Seq<u8>) -> Result<(AnswerModel, int), DnsError> {
    if b.len() < 4 {
        Err(DnsError::Truncated)
    } else {
        let tv = concat16(b[2], b[3]);
        if !(1 <= tv <= 16) {
            Err(DnsError::BadType)
        } else if b.len() < 6 {
            Err(DnsError::Truncated)
        } else {
            let cv = concat16(b[4], b[5]);
            if !(1 <= cv <= 4) {
                Err(DnsError::BadClass)
            } else if b.len() < 12 {
                Err(DnsError::Truncated)
            } else {
                let dlen = concat16(b[10], b[11]);
                if 12 + dlen > b.len() {
                    Err(DnsError::Truncated)
                } else {
                    Ok(
                        (
                            AnswerModel {
                                domain: concat16(b[0], b[1]),
                                rtype: type_of_code(tv),
                                rclass: class_of_code(cv),
                                ttl: concat32(b[6], b[7], b[8], b[9]),
                                len: dlen,
                                data: b.subrange(12, 12 + dlen),
                            },
                            12 + dlen,
                        ),
                    )
                }
            }
        }
    }
}

/// A decoded record occupies at least its twelve fixed bytes and lies
/// inside the buffer.
pub proof fn lemma_answer_scan_len(b: Seq<u8>)
    ensures
        answer_scan(b) matches Ok(m) ==> 12 <= m.1 <= b.len(),
{
}

/// The display line of a four-byte (IPv4 address) record: the dotted
/// address, the TTL in seconds, and the class and type strings, separated
/// by single spaces.
pub open spec fn answer_line(a: AnswerModel) -> Seq<char> {
    dec_digits(a.data[0] as int) + seq!['.'] + dec_digits(a.data[1] as int) + seq!['.']
        + dec_digits(a.data[2] as int) + seq!['.'] + dec_digits(a.data[3] as int) + seq![' ']
        + dec_digits(a.ttl as int) + seq![' '] + class_str(a.rclass) + seq![' '] + type_str(
        a.rtype,
    )
}

impl Answer {
    /// Render this record for display, where its payload is a four-byte
    /// IPv4 address; records with any other payload length give nothing.
    pub fn render(&self) -> (r: Option<String>)
        requires
            self.len == 4 ==> self.data@.len() == 4,
        ensures
            r is Some <==> self.len == 4,
            r is Some ==> r.unwrap()@ == answer_line(self@),
    {
        if self.len != 4 {
            return None;
        }
        let mut out = String::new();
        push_dec_u32(&mut out, self.data[0] as u32);
        push_char(&mut out, '.');
        push_dec_u32(&mut out, self.data[1] as u32);
        push_char(&mut out, '.');
        push_dec_u32(&mut out, self.data[2] as u32);
        push_char(&mut out, '.');
        push_dec_u32(&mut out, self.data[3] as u32);
        push_char(&mut out, ' ');
        push_dec_u32(&mut out, self.ttl);
        push_char(&mut out, ' ');
        out.append(self.rclass.get_str());
        push_char(&mut out, ' ');
        out.append(self.rtype.get_str());
        proof {
            assert(out@ =~= answer_line(self@));
        }
        Some(out)
    }

    /// Decode the resource record at the start of `bytes`, returning it
    /// together with the number of bytes it occupied.
    pub fn from_bytes(bytes: Vec<u8>) -> (r: Result<(Answer, usize), DnsError>)
        ensures
            (match r {
                Ok(p) => {
                    &&& answer_scan(bytes@) matches Ok(m)
                    &&& p.0@ == answer_scan(bytes@).unwrap().0
                    &&& p.1 == answer_scan(bytes@).unwrap().1
                },
                Err(e) => answer_scan(bytes@) == Err::<(AnswerModel, int), DnsError>(e),
            }),
    {
        let n: usize = bytes.len();
        if n < 4 {
            return Err(DnsError::Truncated);
        }
        let rtype = match RecordType::from_u16(read_u16_be(&bytes, 2)) {
            Ok(t) => t,
            Err(e) => {
                return Err(e);
            },
        };
        if n < 6 {
            return Err(DnsError::Truncated);
        }
        let rclass = match RecordClass::from_u16(read_u16_be(&bytes, 4)) {
            Ok(c) => c,
            Err(e) => {
                return Err(e);
            },
        };
        if n < RESP_DATA_SIZE {
            return Err(DnsError::Truncated);
        }
        let domain = read_u16_be(&bytes, 0);
        let ttl = read_u32_be(&bytes, 6);
        let dlen = read_u16_be(&bytes, 10);
        if dlen as usize > n - RESP_DATA_SIZE {
            return Err(DnsError::Truncated);
        }
        let data = byte_range(&bytes, RESP_DATA_SIZE, RESP_DATA_SIZE + dlen as usize);
        Ok(
            (
                Answer { domain, rtype, rclass, ttl, len: dlen, data },
                RESP_DATA_SIZE + dlen as usize,
            ),
        )
    }
}

} // verus!
