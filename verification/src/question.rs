//! The question section of a DNS message (RFC 1035 4.1.2): a wire-encoded
//! name followed by 16-bit TYPE and CLASS fields.

use vstd::prelude::*;
use vstd::string::StrSliceExecFns;

use crate::error::DnsError;
use crate::name::{
    ascii_bytes, chars_of, get_name, encode_labels, host_bytes, label_encoding, name_scan,
    lemma_name_scan_end, segments_ok,
};
use crate::records::{class_of_code, type_of_code, RecordClass, RecordType};
use crate::wire::{byte_range, concat16, read_u16_be};

verus! {

/// One question: who is asked what.
#[derive(Debug, PartialEq)]
pub struct Question {
    /// The name asked about, as its wire-encoded label bytes.
    pub name: Vec<u8>,
    /// The record type asked for.
    pub rtype: RecordType,
    /// The record class asked for.
    pub rclass: RecordClass,
}

/// The mathematical model of a question.
pub ghost struct QuestionModel {
    /// The wire-encoded label bytes of the name.
    pub name: Seq<u8>,
    /// The record type asked for.
    pub rtype: RecordType,
    /// The record class asked for.
    pub rclass: RecordClass,
}

impl View for Question {
    type V = QuestionModel;

    open spec fn view(&self) -> QuestionModel {
        QuestionModel { name: self.name@, rtype: self.rtype, rclass: self.rclass }
    }
}

/// The name bytes of the question decode to an ASCII dotted name.
pub open spec fn question_wf(q: QuestionModel) -> bool {
    &&& name_scan(q.name, 0) is Some
    &&& ascii_bytes(name_scan(q.name, 0).unwrap().0)
}

/// Decode the question at the start of a buffer: the name walk, then the
/// TYPE and CLASS fields right after it. Yields the question and the number
/// of bytes it occupied, or the first error the fields give.
pub open spec fn question_scan(b: Seq<u8>) -> Result<(QuestionModel, int), DnsError> {
    match name_scan(b, 0) {
        None => Err(DnsError::Truncated),
        Some(sp) => {
            if !ascii_bytes(sp.0) {
                Err(DnsError::BadName)
            } else {
                let end = sp.1;
                if end + 2 > b.len() {
                    Err(DnsError::Truncated)
                } else {
                    let tv = concat16(b[end], b[end + 1]);
                    if !(1 <= tv <= 16) {
                        Err(DnsError::BadType)
                    } else if end + 4 > b.len() {
                        Err(DnsError::Truncated)
                    } else {
                        let cv = concat16(b[end + 2], b[end + 3]);
                        if !(1 <= cv <= 4) {
                            Err(DnsError::BadClass)
                        } else {
                            Ok(
                                (
                                    QuestionModel {
                                        name: b.subrange(0, end),
                                        rtype: type_of_code(tv),
                                        rclass: class_of_code(cv),
                                    },
                                    end + 4,
                                ),
                            )
                        }
                    }
                }
            }
        },
    }
}

/// A decoded question occupies at least its four fixed bytes and lies
/// inside the buffer.
pub proof fn lemma_question_scan_len(b: Seq<u8>)
    ensures
        question_scan(b) matches Ok(m) ==> 4 < m.1 <= b.len(),
{
    lemma_name_scan_end(b, 0);
}

impl Question {
    /// The dotted name this question asks about, with a trailing dot after
    /// every label.
    pub fn get_name_str(&self) -> (r: String)
        requires
            question_wf(self@),
        ensures
            r@ == chars_of(name_scan(self@.name, 0).unwrap().0),
    {
        match get_name(&self.name) {
            Ok(p) => p.0,
            Err(_) => vstd::pervasive::unreached(),
        }
    }

    /// Encode a dotted hostname as its wire label bytes: a length byte and
    /// the segment bytes for each non-empty dot-separated segment, then a
    /// terminating zero.
    pub fn generate_label(hostname: String) -> (r: Vec<u8>)
        requires
            segments_ok(host_bytes(hostname@)),
        ensures
            r@ == label_encoding(host_bytes(hostname@)),
    {
        let bv: Vec<u8> = hostname.as_str().as_bytes_vec();
        encode_labels(&bv)
    }

    /// Decode the question at the start of `bytes`, returning it together
    /// with the number of bytes it occupied.
    pub fn from_bytes(bytes: Vec<u8>) -> (r: Result<(Question, usize), DnsError>)
        ensures
            (match r {
                Ok(p) => {
                    &&& question_scan(bytes@) matches Ok(m)
                    &&& p.0@ == question_scan(bytes@).unwrap().0
                    &&& p.1 == question_scan(bytes@).unwrap().1
                },
                Err(e) => question_scan(bytes@) == Err::<(QuestionModel, int), DnsError>(e),
            }),
    {
        let walk = match get_name(&bytes) {
            Ok(p) => p,
            Err(e) => {
                return Err(e);
            },
        };
        let ptr: usize = walk.1;
        proof {
            lemma_name_scan_end(bytes@, 0);
        }
        if bytes.len() - ptr < 2 {
            return Err(DnsError::Truncated);
        }
        let rtype = match RecordType::from_u16(read_u16_be(&bytes, ptr)) {
            Ok(t) => t,
            Err(e) => {
                return Err(e);
            },
        };
        if bytes.len() - ptr < 4 {
            return Err(DnsError::Truncated);
        }
        let rclass = match RecordClass::from_u16(read_u16_be(&bytes, ptr + 2)) {
            Ok(c) => c,
            Err(e) => {
                return Err(e);
            },
        };
        let name = byte_range(&bytes, 0, ptr);
        Ok((Question { name, rtype, rclass }, ptr + 4))
    }

    /// A question for the given hostname, type and class; the hostname is
    /// encoded as wire label bytes.
    pub fn new(hostname: String, rtype: RecordType, rclass: RecordClass) -> (r: Question)
        requires
            segments_ok(host_bytes(hostname@)),
        ensures
            r@ == (QuestionModel {
                name: label_encoding(host_bytes(hostname@)),
                rtype,
                rclass,
            }),
    {
        Question { name: Self::generate_label(hostname), rtype, rclass }
    }
}

} // verus!
