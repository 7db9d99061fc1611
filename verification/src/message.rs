//! The query and response messages: a query assembles a header and one
//! question and serializes them; a response is decoded from a reply buffer
//! as header, echoed question, and as many records as the header announces.

use vstd::prelude::*;

use crate::answer::{answer_scan, lemma_answer_scan_len, Answer, AnswerModel};
use crate::error::DnsError;
use crate::flags;
use crate::header::{header_bytes, header_of_bytes, Header};
use crate::name::{host_bytes, label_encoding, segments_ok};
use crate::question::{lemma_question_scan_len, question_scan, Question, QuestionModel};
use crate::records::{class_code, type_code, RecordClass, RecordType};
use crate::wire::{byte_suffix, push_u16_be, u16_bytes};

verus! {

/// A query message: its header and its single question.
#[derive(Debug, PartialEq)]
pub struct Query {
    /// The message header; its question count is one.
    pub header: Header,
    /// The single question asked.
    pub question: Question,
}

/// The mathematical model of a query.
pub ghost struct QueryModel {
    /// The message header.
    pub header: Header,
    /// The single question asked.
    pub question: QuestionModel,
}

impl View for Query {
    type V = QueryModel;

    open spec fn view(&self) -> QueryModel {
        QueryModel { header: self.header, question: self.question@ }
    }
}

/// The transmission-order bytes of a query: the 12 header bytes, the
/// question's name labels, and the question's TYPE and CLASS fields.
pub open spec fn query_wire(q: QueryModel) -> Seq<u8> {
    header_bytes(q.header) + q.question.name + u16_bytes(type_code(q.question.rtype))
        + u16_bytes(class_code(q.question.rclass))
}

impl Query {
    /// A standard query for the given hostname, type and class, under the
    /// given transaction id: question count one, every other counter zero,
    /// and only the RD and AD flags set - the flags word 0x0120.
    pub fn new_with_id(hostname: String, rtype: RecordType, rclass: RecordClass, id: u16) -> (r:
        Query)
        requires
            segments_ok(host_bytes(hostname@)),
        ensures
            r@ == (QueryModel {
                header: Header {
                    id,
                    flags: flags::HeaderFlags { word: 0x0120 },
                    qd_count: 1,
                    an_count: 0,
                    ns_count: 0,
                    ar_count: 0,
                },
                question: QuestionModel {
                    name: label_encoding(host_bytes(hostname@)),
                    rtype,
                    rclass,
                },
            }),
    {
        Self::assemble(Header::new(Some(id)), hostname, rtype, rclass)
    }

    /// A standard query as `new_with_id` builds it, under a random
    /// transaction id.
    pub fn new(hostname: String, rtype: RecordType, rclass: RecordClass) -> (r: Query)
        requires
            segments_ok(host_bytes(hostname@)),
        ensures
            r.header.flags.word == 0x0120,
            r.header.qd_count == 1,
            r.header.an_count == 0,
            r.header.ns_count == 0,
            r.header.ar_count == 0,
            r.question@ == (QuestionModel {
                name: label_encoding(host_bytes(hostname@)),
                rtype,
                rclass,
            }),
    {
        Self::assemble(Header::new(None), hostname, rtype, rclass)
    }

    /// Set the standard-query flag bits in a fresh header and attach the
    /// question.
    fn assemble(header: Header, hostname: String, rtype: RecordType, rclass: RecordClass) -> (r:
        Query)
        requires
            segments_ok(host_bytes(hostname@)),
            header.flags.word == 0,
            header.qd_count == 1,
            header.an_count == 0,
            header.ns_count == 0,
            header.ar_count == 0,
        ensures
            r.header == (Header { flags: flags::HeaderFlags { word: 0x0120 }, ..header }),
            r.question@ == (QuestionModel {
                name: label_encoding(host_bytes(hostname@)),
                rtype,
                rclass,
            }),
    {
        let mut header = header;
        // enable the "standard query" bits
        header.flags.set_rd(true);
        header.flags.set_ad(true);
        proof {
            flags::lemma_zero_word();
            flags::lemma_standard_query_word();
            flags::lemma_word_determined(header.flags.word, 0x0120);
        }
        Query { header, question: Question::new(hostname, rtype, rclass) }
    }

    /// Serialize this query into its transmission-order bytes.
    pub fn query_serialize(&self) -> (r: Vec<u8>)
        ensures
            r@ == query_wire(self@),
    {
        let mut out = self.header.to_bytes();
        let m: usize = self.question.name.len();
        let ghost out0 = out@;
        let mut i: usize = 0;
        while i < m
            invariant
                m == self.question.name@.len(),
                0 <= i <= m,
                out@ == out0 + self.question.name@.take(i as int),
            decreases m - i,
        {
            out.push(self.question.name[i]);
            i = i + 1;
            proof {
                assert(out@ =~= out0 + self.question.name@.take(i as int));
            }
        }
        push_u16_be(&mut out, self.question.rtype.to_u16());
        push_u16_be(&mut out, self.question.rclass.to_u16());
        proof {
            assert(self.question.name@.take(m as int) =~= self.question.name@);
            assert(out@ =~= query_wire(self@));
        }
        out
    }
}

/// A response message: the header, the echoed question, and the records of
/// the answer section in wire order.
#[derive(Debug, PartialEq)]
pub struct Response {
    /// The decoded message header.
    pub header: Header,
    /// The question echoed back from the wire.
    pub question: Question,
    /// The answer records, in wire order.
    pub answer: Vec<Answer>,
}

/// The mathematical model of a response.
pub ghost struct ResponseModel {
    /// The decoded message header.
    pub header: Header,
    /// The question echoed back from the wire.
    pub question: QuestionModel,
    /// The answer records, in wire order.
    pub answer: Seq<AnswerModel>,
}

/// The models of a sequence of answer records.
pub open spec fn answers_view(s: Seq<Answer>) -> Seq<AnswerModel> {
    s.map(|i: int, a: Answer| a@)
}

impl View for Response {
    type V = ResponseModel;

    open spec fn view(&self) -> ResponseModel {
        ResponseModel {
            header: self.header,
            question: self.question@,
            answer: answers_view(self.answer@),
        }
    }
}

/// Decode `n` answer records standing back to back at the start of a
/// buffer. Yields their models and the total bytes they occupied, or the
/// first error a record gives.
pub open spec fn answers_scan(b: Seq<u8>, n: nat) -> Result<(Seq<AnswerModel>, int), DnsError>
    decreases n,
{
    if n == 0 {
        Ok((Seq::empty(), 0))
    } else {
        match answer_scan(b) {
            Err(e) => Err(e),
            Ok(m) => match answers_scan(b.skip(m.1), (n - 1) as nat) {
                Err(e) => Err(e),
                Ok(rest) => Ok((seq![m.0] + rest.0, m.1 + rest.1)),
            },
        }
    }
}

/// A successful scan of `n` records yields exactly `n` of them.
pub proof fn lemma_answers_scan_count(b: Seq<u8>, n: nat)
    ensures
        answers_scan(b, n) matches Ok(m) ==> m.0.len() == n,
    decreases n,
{
    if n > 0 {
        match answer_scan(b) {
            Err(_) => {},
            Ok(m) => {
                lemma_answers_scan_count(b.skip(m.1), (n - 1) as nat);
            },
        }
    }
}

/// Decode a response buffer: at least the 12 header bytes - a shorter
/// buffer is rejected, never padded - then one question, then exactly as
/// many answer records as the header's answer count announces. Bytes past
/// the announced records are ignored.
pub open spec fn response_scan(b: Seq<u8>) -> Result<ResponseModel, DnsError> {
    if b.len() < 12 {
        Err(DnsError::Truncated)
    } else {
        let h = header_of_bytes(b);
        match question_scan(b.skip(12)) {
            Err(e) => Err(e),
            Ok(q) => match answers_scan(b.skip(12 + q.1), h.an_count as nat) {
                Err(e) => Err(e),
                Ok(a) => Ok(ResponseModel { header: h, question: q.0, answer: a.0 }),
            },
        }
    }
}

impl Response {
    /// Decode a reply buffer into a response.
    pub fn from_bytes(bytes: Vec<u8>) -> (r: Result<Response, DnsError>)
        ensures
            (match r {
                Ok(resp) => {
                    &&& response_scan(bytes@) matches Ok(m)
                    &&& resp@ == response_scan(bytes@).unwrap()
                },
                Err(e) => response_scan(bytes@) == Err::<ResponseModel, DnsError>(e),
            }),
            r matches Ok(resp) ==> resp@.answer.len() == resp@.header.an_count,
            bytes@.len() < 12 ==> r == Err::<Response, DnsError>(DnsError::Truncated),
    {
        let n: usize = bytes.len();
        let header = match Header::from_bytes(&bytes) {
            Ok(h) => h,
            Err(e) => {
                return Err(e);
            },
        };
        let tail = byte_suffix(&bytes, crate::header::HDR_SIZE);
        proof {
            lemma_question_scan_len(tail@);
        }
        let qpair = match Question::from_bytes(tail) {
            Ok(p) => p,
            Err(e) => {
                return Err(e);
            },
        };
        let question = qpair.0;
        let ghost qm = question@;
        let mut ptr: usize = crate::header::HDR_SIZE + qpair.1;
        let mut answers: Vec<Answer> = Vec::new();
        let mut i: u16 = 0;
        proof {
            assert(answers_view(answers@) =~= Seq::<AnswerModel>::empty());
            match answers_scan(bytes@.skip(ptr as int), header.an_count as nat) {
                Err(e) => {},
                Ok(rest) => {
                    assert(Seq::<AnswerModel>::empty() + rest.0 =~= rest.0);
                },
            }
        }
        while i < header.an_count
            invariant
                n == bytes@.len(),
                i <= header.an_count,
                ptr <= n,
                response_scan(bytes@) == (match answers_scan(
                    bytes@.skip(ptr as int),
                    (header.an_count - i) as nat,
                ) {
                    Err(e) => Err::<ResponseModel, DnsError>(e),
                    Ok(rest) => Ok(
                        ResponseModel {
                            header,
                            question: qm,
                            answer: answers_view(answers@) + rest.0,
                        },
                    ),
                }),
            decreases header.an_count - i,
        {
            let tail_i = byte_suffix(&bytes, ptr);
            proof {
                lemma_answer_scan_len(tail_i@);
            }
            let apair = match Answer::from_bytes(tail_i) {
                Ok(p) => p,
                Err(e) => {
                    return Err(e);
                },
            };
            let ghost prev = answers@;
            let ghost consumed = apair.1 as int;
            answers.push(apair.0);
            ptr = ptr + apair.1;
            i = i + 1;
            proof {
                assert(bytes@.skip(ptr as int - consumed).skip(consumed) =~= bytes@.skip(
                    ptr as int,
                ));
                assert(answers_view(answers@) =~= answers_view(prev).push(apair.0@));
                match answers_scan(bytes@.skip(ptr as int), (header.an_count - i) as nat) {
                    Err(e) => {},
                    Ok(rest) => {
                        assert(answers_view(prev) + (seq![apair.0@] + rest.0) =~= answers_view(
                            answers@,
                        ) + rest.0);
                    },
                }
            }
        }
        proof {
            assert(answers_scan(bytes@.skip(ptr as int), 0) == Ok::<(Seq<AnswerModel>, int),
                DnsError>((Seq::empty(), 0)));
            assert(answers_view(answers@) + Seq::<AnswerModel>::empty() =~= answers_view(
                answers@,
            ));
            match question_scan(bytes@.skip(12)) {
                Err(_) => {},
                Ok(q) => {
                    lemma_answers_scan_count(
                        bytes@.skip(12 + q.1),
                        header_of_bytes(bytes@).an_count as nat,
                    );
                },
            }
        }
        Ok(Response { header, question, answer: answers })
    }
}

} // verus!
