//! The bit-packed 16-bit flags word of the DNS header (RFC 1035 4.1.1),
//! read and written most-significant-bit first: bit 0 is QR, bits 1-4 the
//! OPCODE, bit 5 AA, bit 6 TC, bit 7 RD, bit 8 RA, bit 9 Z, bit 10 AD,
//! bit 11 the authentication bit and bits 12-15 the RCODE.
//!
//! Only QR, OPCODE, RD and AD are ever written by this crate; the other
//! fields are read-only observations taken from a decoded response.

use vstd::prelude::*;

verus! {

/// QR (bit 0): false for a query, true for a response.
pub open spec fn qr_of(w: u16) -> bool {
    w & 0x8000 != 0
}

/// OPCODE (bits 1-4): the kind of query.
pub open spec fn opcode_of(w: u16) -> u8 {
    ((w >> 11) & 0xf) as u8
}

/// AA (bit 5): authoritative answer.
pub open spec fn aa_of(w: u16) -> bool {
    w & 0x0400 != 0
}

/// TC (bit 6): truncation.
pub open spec fn tc_of(w: u16) -> bool {
    w & 0x0200 != 0
}

/// RD (bit 7): recursion desired.
pub open spec fn rd_of(w: u16) -> bool {
    w & 0x0100 != 0
}

/// RA (bit 8): recursion available.
pub open spec fn ra_of(w: u16) -> bool {
    w & 0x0080 != 0
}

/// Z (bit 9): reserved.
pub open spec fn z_of(w: u16) -> bool {
    w & 0x0040 != 0
}

/// AD (bit 10): authenticated data.
pub open spec fn ad_of(w: u16) -> bool {
    w & 0x0020 != 0
}

/// Authentication bit (bit 11).
pub open spec fn auth_of(w: u16) -> bool {
    w & 0x0010 != 0
}

/// RCODE (bits 12-15): the response code.
pub open spec fn rcode_of(w: u16) -> u8 {
    (w & 0xf) as u8
}

/// All sub-fields of the word but RD are as in `v`.
pub open spec fn same_but_rd(v: u16, w: u16) -> bool {
    &&& qr_of(w) == qr_of(v)
    &&& opcode_of(w) == opcode_of(v)
    &&& aa_of(w) == aa_of(v)
    &&& tc_of(w) == tc_of(v)
    &&& ra_of(w) == ra_of(v)
    &&& z_of(w) == z_of(v)
    &&& ad_of(w) == ad_of(v)
    &&& auth_of(w) == auth_of(v)
    &&& rcode_of(w) == rcode_of(v)
}

/// All sub-fields of the word but AD are as in `v`.
pub open spec fn same_but_ad(v: u16, w: u16) -> bool {
    &&& qr_of(w) == qr_of(v)
    &&& opcode_of(w) == opcode_of(v)
    &&& aa_of(w) == aa_of(v)
    &&& tc_of(w) == tc_of(v)
    &&& rd_of(w) == rd_of(v)
    &&& ra_of(w) == ra_of(v)
    &&& z_of(w) == z_of(v)
    &&& auth_of(w) == auth_of(v)
    &&& rcode_of(w) == rcode_of(v)
}

/// All sub-fields of the word but QR are as in `v`.
pub open spec fn same_but_qr(v: u16, w: u16) -> bool {
    &&& opcode_of(w) == opcode_of(v)
    &&& aa_of(w) == aa_of(v)
    &&& tc_of(w) == tc_of(v)
    &&& rd_of(w) == rd_of(v)
    &&& ra_of(w) == ra_of(v)
    &&& z_of(w) == z_of(v)
    &&& ad_of(w) == ad_of(v)
    &&& auth_of(w) == auth_of(v)
    &&& rcode_of(w) == rcode_of(v)
}

/// All sub-fields of the word but OPCODE are as in `v`.
pub open spec fn same_but_opcode(v: u16, w: u16) -> bool {
    &&& qr_of(w) == qr_of(v)
    &&& aa_of(w) == aa_of(v)
    &&& tc_of(w) == tc_of(v)
    &&& rd_of(w) == rd_of(v)
    &&& ra_of(w) == ra_of(v)
    &&& z_of(w) == z_of(v)
    &&& ad_of(w) == ad_of(v)
    &&& auth_of(w) == auth_of(v)
    &&& rcode_of(w) == rcode_of(v)
}

/// The DNS header flags word.
#[derive(Debug, Clone, Copy, PartialEq, Eq, Structural)]
pub struct HeaderFlags {
    /// The packed 16-bit word, most-significant-bit first.
    pub word: u16,
}

impl HeaderFlags {
    /// A flags word with every field zero.
    pub fn new() -> (r: HeaderFlags)
        ensures
            r.word == 0,
    {
        HeaderFlags { word: 0 }
    }

    /// Wrap a packed word taken from the wire.
    pub fn from_u16(word: u16) -> (r: HeaderFlags)
        ensures
            r.word == word,
    {
        HeaderFlags { word }
    }

    /// The packed word, as it is transmitted.
    pub fn to_u16(&self) -> (r: u16)
        ensures
            r == self.word,
    {
        self.word
    }

    /// QR: false for a query, true for a response.
    pub fn qr(&self) -> (r: bool)
        ensures
            r == qr_of(self.word),
    {
        self.word & 0x8000 != 0
    }

    /// The OPCODE field.
    pub fn opcode(&self) -> (r: u8)
        ensures
            r == opcode_of(self.word),
    {
        ((self.word >> 11) & 0xf) as u8
    }

    /// AA: authoritative answer.
    pub fn aa(&self) -> (r: bool)
        ensures
            r == aa_of(self.word),
    {
        self.word & 0x0400 != 0
    }

    /// TC: truncation.
    pub fn tc(&self) -> (r: bool)
        ensures
            r == tc_of(self.word),
    {
        self.word & 0x0200 != 0
    }

    /// RD: recursion desired.
    pub fn rd(&self) -> (r: bool)
        ensures
            r == rd_of(self.word),
    {
        self.word & 0x0100 != 0
    }

    /// RA: recursion available.
    pub fn ra(&self) -> (r: bool)
        ensures
            r == ra_of(self.word),
    {
        self.word & 0x0080 != 0
    }

    /// Z: the reserved bit.
    pub fn z(&self) -> (r: bool)
        ensures
            r == z_of(self.word),
    {
        self.word & 0x0040 != 0
    }

    /// AD: authenticated data.
    pub fn ad(&self) -> (r: bool)
        ensures
            r == ad_of(self.word),
    {
        self.word & 0x0020 != 0
    }

    /// The authentication bit.
    pub fn auth(&self) -> (r: bool)
        ensures
            r == auth_of(self.word),
    {
        self.word & 0x0010 != 0
    }

    /// The RCODE field.
    pub fn rcode(&self) -> (r: u8)
        ensures
            r == rcode_of(self.word),
    {
        (self.word & 0xf) as u8
    }

    /// Set or clear QR, leaving every other field unchanged.
    pub fn set_qr(&mut self, v: bool)
        ensures
            qr_of(final(self).word) == v,
            same_but_qr(old(self).word, final(self).word),
    {
        let w = self.word;
        if v {
            self.word = w | 0x8000;
        } else {
            self.word = w & 0x7fff;
        }
        proof {
            lemma_set_qr(w, self.word, v);
        }
    }

    /// Set the OPCODE field, leaving every other field unchanged.
    pub fn set_opcode(&mut self, v: u8)
        requires
            v < 16,
        ensures
            opcode_of(final(self).word) == v,
            same_but_opcode(old(self).word, final(self).word),
    {
        let w = self.word;
        self.word = (w & 0x87ff) | ((v as u16) << 11);
        proof {
            lemma_set_opcode(w, self.word, v);
        }
    }

    /// Set or clear RD, leaving every other field unchanged.
    pub fn set_rd(&mut self, v: bool)
        ensures
            rd_of(final(self).word) == v,
            same_but_rd(old(self).word, final(self).word),
    {
        let w = self.word;
        if v {
            self.word = w | 0x0100;
        } else {
            self.word = w & 0xfeff;
        }
        proof {
            lemma_set_rd(w, self.word, v);
        }
    }

    /// Set or clear AD, leaving every other field unchanged.
    pub fn set_ad(&mut self, v: bool)
        ensures
            ad_of(final(self).word) == v,
            same_but_ad(old(self).word, final(self).word),
    {
        let w = self.word;
        if v {
            self.word = w | 0x0020;
        } else {
            self.word = w & 0xffdf;
        }
        proof {
            lemma_set_ad(w, self.word, v);
        }
    }
}

proof fn lemma_set_qr(v: u16, w: u16, b: bool)
    requires
        w == if b { v | 0x8000 } else { v & 0x7fff },
    ensures
        qr_of(w) == b,
        same_but_qr(v, w),
{
    assert(qr_of(w) == b && same_but_qr(v, w)) by (bit_vector)
        requires
            w == if b { v | 0x8000 } else { v & 0x7fff },
    ;
}

proof fn lemma_set_opcode(v: u16, w: u16, c: u8)
    requires
        c < 16,
        w == (v & 0x87ff) | ((c as u16) << 11),
    ensures
        opcode_of(w) == c,
        same_but_opcode(v, w),
{
    assert(opcode_of(w) == c && same_but_opcode(v, w)) by (bit_vector)
        requires
            c < 16 && w == (v & 0x87ff) | ((c as u16) << 11),
    ;
}

proof fn lemma_set_rd(v: u16, w: u16, b: bool)
    requires
        w == if b { v | 0x0100 } else { v & 0xfeff },
    ensures
        rd_of(w) == b,
        same_but_rd(v, w),
{
    assert(rd_of(w) == b && same_but_rd(v, w)) by (bit_vector)
        requires
            w == if b { v | 0x0100 } else { v & 0xfeff },
    ;
}

proof fn lemma_set_ad(v: u16, w: u16, b: bool)
    requires
        w == if b { v | 0x0020 } else { v & 0xffdf },
    ensures
        ad_of(w) == b,
        same_but_ad(v, w),
{
    assert(ad_of(w) == b && same_but_ad(v, w)) by (bit_vector)
        requires
            w == if b { v | 0x0020 } else { v & 0xffdf },
    ;
}

/// Every field of the zero word is zero or clear, and its transmission-order
/// flag bytes are 0x00 and 0x00.
pub proof fn lemma_zero_word()
    ensures
        !qr_of(0) && opcode_of(0) == 0 && !aa_of(0) && !tc_of(0) && !rd_of(0),
        !ra_of(0) && !z_of(0) && !ad_of(0) && !auth_of(0) && rcode_of(0) == 0,
        crate::wire::u16_bytes(0) == seq![0u8, 0u8],
{
    assert(crate::wire::u16_bytes(0) =~= seq![0u8, 0u8]);
    assert(!qr_of(0) && opcode_of(0) == 0 && !aa_of(0) && !tc_of(0) && !rd_of(0) && !ra_of(0)
        && !z_of(0) && !ad_of(0) && !auth_of(0) && rcode_of(0) == 0) by (bit_vector);
}

/// The ten sub-fields cover all sixteen bits: words agreeing on every field
/// are equal.
pub proof fn lemma_word_determined(v: u16, w: u16)
    requires
        qr_of(v) == qr_of(w),
        opcode_of(v) == opcode_of(w),
        aa_of(v) == aa_of(w),
        tc_of(v) == tc_of(w),
        rd_of(v) == rd_of(w),
        ra_of(v) == ra_of(w),
        z_of(v) == z_of(w),
        ad_of(v) == ad_of(w),
        auth_of(v) == auth_of(w),
        rcode_of(v) == rcode_of(w),
    ensures
        v == w,
{
    assert(v == w) by (bit_vector)
        requires
            (v & 0x8000 != 0) == (w & 0x8000 != 0),
            ((v >> 11) & 0xf) as u8 == ((w >> 11) & 0xf) as u8,
            (v & 0x0400 != 0) == (w & 0x0400 != 0),
            (v & 0x0200 != 0) == (w & 0x0200 != 0),
            (v & 0x0100 != 0) == (w & 0x0100 != 0),
            (v & 0x0080 != 0) == (w & 0x0080 != 0),
            (v & 0x0040 != 0) == (w & 0x0040 != 0),
            (v & 0x0020 != 0) == (w & 0x0020 != 0),
            (v & 0x0010 != 0) == (w & 0x0010 != 0),
            (v & 0xf) as u8 == (w & 0xf) as u8,
    ;
}

/// Setting RD and AD in a zero word yields the "standard query" word 0x0120,
/// whose transmission-order flag bytes are 0x01 and 0x20.
pub proof fn lemma_standard_query_word()
    ensures
        rd_of(0x0120) && ad_of(0x0120),
        !qr_of(0x0120) && opcode_of(0x0120) == 0 && !aa_of(0x0120) && !tc_of(0x0120),
        !ra_of(0x0120) && !z_of(0x0120) && !auth_of(0x0120) && rcode_of(0x0120) == 0,
        (0u16 | 0x0100) | 0x0020 == 0x0120,
        crate::wire::u16_bytes(0x0120) == seq![0x01u8, 0x20u8],
{
    assert(rd_of(0x0120) && ad_of(0x0120) && !qr_of(0x0120) && opcode_of(0x0120) == 0
        && !aa_of(0x0120) && !tc_of(0x0120) && !ra_of(0x0120) && !z_of(0x0120)
        && !auth_of(0x0120) && rcode_of(0x0120) == 0 && ((0u16 | 0x0100) | 0x0020 == 0x0120))
        by (bit_vector);
    assert(crate::wire::u16_bytes(0x0120) =~= seq![0x01u8, 0x20u8]);
}

} // verus!
