//! The domain-name codec: a dotted hostname is encoded as the RFC 1035
//! length-prefixed label sequence, and a label sequence is walked back into
//! a dotted name.
//!
//! The decode walk deliberately mirrors a quirk of this resolver: a length
//! byte that happens to be an ASCII alphanumeric code is skipped without
//! contributing a label, and compression pointers are not followed. The
//! round-trip law below is therefore stated for names whose segment lengths
//! are not alphanumeric codes.

use vstd::prelude::*;

use crate::error::DnsError;
use crate::text::push_char;

verus! {

/// An ASCII alphanumeric byte: a digit or a letter.
pub open spec fn is_alnum_byte(b: u8) -> bool {
    (48 <= b && b <= 57) || (65 <= b && b <= 90) || (97 <= b && b <= 122)
}

/// Every byte of the sequence is an ASCII code.
pub open spec fn ascii_bytes(b: Seq<u8>) -> bool {
    forall|i: int| 0 <= i < b.len() ==> b[i] < 128
}

/// The characters spelled by a sequence of ASCII bytes.
pub open spec fn chars_of(b: Seq<u8>) -> Seq<char> {
    b.map(|i: int, c: u8| c as char)
}

/// The label walk, starting at position `p` of the buffer.
///
/// A zero length byte ends the name. An alphanumeric length byte is skipped.
/// Any other length byte `t` contributes the next `t` bytes and a dot to the
/// decoded name. The walk fails - `None` - where the buffer ends under it;
/// on success it yields the decoded name bytes and the position just past
/// the terminating zero.
pub open spec fn name_scan(b: Seq<u8>, p: int) -> Option<(Seq<u8>, int)>
    decreases b.len() - p,
{
    if p < 0 || p >= b.len() {
        None
    } else {
        let t = b[p];
        if t == 0 {
            Some((Seq::empty(), p + 1))
        } else if p + t as int + 1 < b.len() {
            if is_alnum_byte(t) {
                name_scan(b, p + t as int + 1)
            } else {
                match name_scan(b, p + t as int + 1) {
                    None => None,
                    Some(sp) => Some(
                        (b.subrange(p + 1, p + 1 + t as int) + seq![46u8] + sp.0, sp.1),
                    ),
                }
            }
        } else {
            None
        }
    }
}

/// The UTF-8 bytes of a hostname string; for an ASCII hostname these are
/// its characters, byte for byte.
pub open spec fn host_bytes(h: Seq<char>) -> Seq<u8> {
    vstd::utf8::encode_utf8(h)
}

/// The position of the first dot of the sequence, or its length where it
/// holds none.
pub open spec fn first_dot(s: Seq<u8>) -> int
    decreases s.len(),
{
    if s.len() == 0 {
        0
    } else if s[0] == 46 {
        0
    } else {
        1 + first_dot(s.drop_first())
    }
}

/// `first_dot` points at the first dot: nothing before it is a dot, and it
/// stays inside the sequence.
pub proof fn lemma_first_dot(s: Seq<u8>)
    ensures
        0 <= first_dot(s) <= s.len(),
        first_dot(s) < s.len() ==> s[first_dot(s)] == 46,
        forall|i: int| 0 <= i < first_dot(s) ==> s[i] != 46,
    decreases s.len(),
{
    if s.len() == 0 {
    } else if s[0] == 46 {
    } else {
        lemma_first_dot(s.drop_first());
        assert forall|i: int| 0 <= i < first_dot(s) implies s[i] != 46 by {
            if i > 0 {
                assert(s.drop_first()[i - 1] != 46);
            }
        }
    }
}

/// A position before which there is no dot, and which holds a dot or is the
/// end, is `first_dot`.
pub proof fn lemma_first_dot_is(s: Seq<u8>, k: int)
    requires
        0 <= k <= s.len(),
        forall|i: int| 0 <= i < k ==> s[i] != 46,
        k < s.len() ==> s[k] == 46,
    ensures
        first_dot(s) == k,
    decreases s.len(),
{
    if s.len() == 0 {
    } else if s[0] == 46 {
    } else {
        assert(k >= 1);
        let d = s.drop_first();
        assert forall|i: int| 0 <= i < k - 1 implies d[i] != 46 by {
            assert(s[i + 1] != 46);
        }
        lemma_first_dot_is(d, k - 1);
    }
}

/// The label sequence of a dotted name, without the terminating zero: each
/// non-empty dot-separated segment as a length byte followed by its bytes.
pub open spec fn label_segments(s: Seq<u8>) -> Seq<u8>
    decreases s.len(),
{
    let i = first_dot(s);
    let enc = if i == 0 {
        Seq::<u8>::empty()
    } else {
        seq![i as u8] + s.take(i)
    };
    if i < s.len() {
        proof {
            lemma_first_dot(s);
        }
        enc + label_segments(s.skip(i + 1))
    } else {
        enc
    }
}

/// The full label encoding of a dotted name: its segments and the
/// terminating zero byte.
pub open spec fn label_encoding(s: Seq<u8>) -> Seq<u8> {
    label_segments(s) + seq![0u8]
}

/// Every dot-separated segment of the name is at most 255 bytes long, so
/// each fits behind a one-byte length field.
pub open spec fn segments_ok(s: Seq<u8>) -> bool
    decreases s.len(),
{
    let i = first_dot(s);
    if i < s.len() {
        proof {
            lemma_first_dot(s);
        }
        i <= 255 && segments_ok(s.skip(i + 1))
    } else {
        i <= 255
    }
}

/// Build the label encoding of the dotted name held by `host`.
pub fn encode_labels(host: &Vec<u8>) -> (r: Vec<u8>)
    requires
        segments_ok(host@),
    ensures
        r@ == label_encoding(host@),
{
    let n: usize = host.len();
    let mut out: Vec<u8> = Vec::new();
    let mut pos: usize = 0;
    proof {
        assert(host@.skip(0) =~= host@);
        assert(Seq::<u8>::empty() + label_segments(host@) =~= label_segments(host@));
    }
    loop
        invariant_except_break
            out@ + label_segments(host@.skip(pos as int)) == label_segments(host@),
        invariant
            n == host@.len(),
            pos <= n,
            segments_ok(host@.skip(pos as int)),
        ensures
            out@ == label_segments(host@),
        decreases n - pos,
    {
        let ghost rest = host@.skip(pos as int);
        let ghost out_prev = out@;
        let mut j: usize = pos;
        while j < n && host[j] != 46
            invariant
                n == host@.len(),
                pos <= j <= n,
                forall|i: int| pos <= i < j ==> host@[i] != 46,
            decreases n - j,
        {
            j = j + 1;
        }
        proof {
            assert forall|i: int| 0 <= i < j - pos implies rest[i] != 46 by {
                assert(host@[pos + i] != 46);
            }
            if j < n {
                assert(rest[j - pos] == host@[j as int]);
            }
            lemma_first_dot_is(rest, j - pos);
        }
        let seg_len: usize = j - pos;
        let ghost i = first_dot(rest);
        if seg_len > 0 {
            proof {
                assert(i <= 255);
            }
            out.push(seg_len as u8);
            let ghost out0 = out@;
            let mut k: usize = pos;
            while k < j
                invariant
                    n == host@.len(),
                    pos <= k <= j <= n,
                    out@ == out0 + host@.subrange(pos as int, k as int),
                decreases j - k,
            {
                out.push(host[k]);
                k = k + 1;
                proof {
                    assert(out@ =~= out0 + host@.subrange(pos as int, k as int));
                }
            }
            proof {
                assert(rest.take(i) =~= host@.subrange(pos as int, j as int));
                assert(out@ =~= out_prev + (seq![i as u8] + rest.take(i)));
            }
        } else {
            proof {
                assert(out@ =~= out_prev + Seq::<u8>::empty());
            }
        }
        if j < n {
            proof {
                assert(rest.skip(i + 1) =~= host@.skip(j + 1));
                if seg_len > 0 {
                    assert(label_segments(rest) == (seq![i as u8] + rest.take(i))
                        + label_segments(rest.skip(i + 1)));
                } else {
                    assert(label_segments(rest) == Seq::<u8>::empty() + label_segments(
                        rest.skip(i + 1),
                    ));
                }
                assert(out@ + label_segments(host@.skip(j + 1)) =~= out_prev + label_segments(
                    rest,
                ));
            }
            pos = j + 1;
        } else {
            proof {
                if seg_len > 0 {
                    assert(label_segments(rest) == seq![i as u8] + rest.take(i));
                } else {
                    assert(label_segments(rest) == Seq::<u8>::empty());
                }
                assert(out@ =~= out_prev + label_segments(rest));
            }
            break;
        }
    }
    out.push(0);
    proof {
        assert(out@ =~= label_encoding(host@));
    }
    out
}

/// The round-trip law at the level of hostname strings: for an ASCII
/// hostname whose byte form is well-formed, the decoded characters of the
/// walked encoding are the hostname with a trailing dot.
pub proof fn lemma_host_round_trip(h: Seq<char>)
    requires
        vstd::utf8::is_ascii_chars(h),
        good_host(host_bytes(h)),
    ensures
        name_scan(label_encoding(host_bytes(h)), 0) == Some(
            (host_bytes(h) + seq![46u8], label_encoding(host_bytes(h)).len() as int),
        ),
        chars_of(host_bytes(h) + seq![46u8]) == h + seq!['.'],
{
    lemma_name_round_trip(host_bytes(h));
    vstd::utf8::is_ascii_chars_encode_utf8(h);
    let b = host_bytes(h) + seq![46u8];
    assert forall|i: int| 0 <= i < b.len() implies chars_of(b)[i] == (h + seq!['.'])[i] by {
        if i < h.len() {
            assert(b[i] == h[i] as u8);
            vstd::utf8::is_ascii_chars_nat_bound(h);
            assert((h[i] as nat) < 128);
            assert((h[i] as u8) as char == h[i]) by {
                vstd::utf8::char_u32_cast(h[i], h[i] as u32);
            }
        } else {
            assert(b[i] == 46u8);
            assert((46u8) as char == '.');
        }
    }
    assert(chars_of(b) =~= h + seq!['.']);
}

/// A successful walk ends past its starting position and inside the buffer.
pub proof fn lemma_name_scan_end(b: Seq<u8>, p: int)
    ensures
        name_scan(b, p) matches Some(sp) ==> p < sp.1 <= b.len(),
    decreases b.len() - p,
{
    if 0 <= p < b.len() {
        let t = b[p];
        if t != 0 && p + t as int + 1 < b.len() {
            lemma_name_scan_end(b, p + t as int + 1);
        }
    }
}

/// A hostname on which the walk inverts the encoding: one or more non-empty
/// dot-separated segments, every segment byte alphanumeric, and no segment
/// length that is itself an alphanumeric code (such a length byte would be
/// skipped by the walk).
pub open spec fn good_host(s: Seq<u8>) -> bool
    decreases s.len(),
{
    let i = first_dot(s);
    if i < s.len() {
        proof {
            lemma_first_dot(s);
        }
        &&& 0 < i <= 255
        &&& !is_alnum_byte(i as u8)
        &&& (forall|k: int| 0 <= k < i ==> is_alnum_byte(s[k]))
        &&& i + 1 < s.len()
        &&& good_host(s.skip(i + 1))
    } else {
        &&& 0 < i <= 255
        &&& !is_alnum_byte(i as u8)
        &&& (forall|k: int| 0 <= k < i ==> is_alnum_byte(s[k]))
    }
}

/// A well-formed hostname has no over-long segment.
pub proof fn lemma_good_host_segments_ok(s: Seq<u8>)
    requires
        good_host(s),
    ensures
        segments_ok(s),
    decreases s.len(),
{
    let i = first_dot(s);
    lemma_first_dot(s);
    if i < s.len() {
        lemma_good_host_segments_ok(s.skip(i + 1));
    }
}

/// The walk is insensitive to what stands before its starting position.
proof fn lemma_name_scan_shift(pre: Seq<u8>, suf: Seq<u8>, p: int)
    requires
        0 <= p,
    ensures
        name_scan(pre + suf, pre.len() + p) == (match name_scan(suf, p) {
            None => None::<(Seq<u8>, int)>,
            Some(sp) => Some((sp.0, sp.1 + pre.len())),
        }),
    decreases suf.len() - p,
{
    let b = pre + suf;
    let q = pre.len() + p;
    if p >= suf.len() {
        assert(name_scan(b, q) is None);
    } else {
        let t = suf[p];
        assert(b[q] == t);
        if t == 0 {
        } else if p + t as int + 1 < suf.len() {
            lemma_name_scan_shift(pre, suf, p + t as int + 1);
            if !is_alnum_byte(t) {
                assert(b.subrange(q + 1, q + 1 + t as int) =~= suf.subrange(
                    p + 1,
                    p + 1 + t as int,
                ));
            }
        } else {
            assert(name_scan(b, q) is None);
            assert(name_scan(suf, p) is None);
        }
    }
}

/// The round-trip law of the name codec: walking the label encoding of a
/// well-formed hostname yields the hostname with a trailing dot, consuming
/// exactly the encoded bytes, and the decoded bytes are ASCII.
pub proof fn lemma_name_round_trip(s: Seq<u8>)
    requires
        good_host(s),
    ensures
        name_scan(label_encoding(s), 0) == Some(
            (s + seq![46u8], label_encoding(s).len() as int),
        ),
        ascii_bytes(s + seq![46u8]),
    decreases s.len(),
{
    let i = first_dot(s);
    lemma_first_dot(s);
    let enc = label_encoding(s);
    let t = i as u8;
    assert(t as int == i);
    if i == s.len() {
        assert(label_segments(s) == seq![i as u8] + s.take(i));
        assert(s.take(i) =~= s);
        assert(enc =~= seq![t] + s + seq![0u8]);
        assert(enc[0] == t);
        assert(enc.len() == i + 2);
        assert(enc[i + 1] == 0);
        assert(name_scan(enc, i + 1) == Some((Seq::<u8>::empty(), i + 2)));
        assert(enc.subrange(1, 1 + i) =~= s);
        assert(name_scan(enc, 0) == Some((s + seq![46u8] + Seq::<u8>::empty(), i + 2)));
        assert(s + seq![46u8] + Seq::<u8>::empty() =~= s + seq![46u8]);
        assert forall|j: int| 0 <= j < (s + seq![46u8]).len() implies (s + seq![46u8])[j]
            < 128 by {
            if j < i {
                assert(is_alnum_byte(s[j]));
            }
        }
    } else {
        let rest = s.skip(i + 1);
        lemma_name_round_trip(rest);
        let pre = seq![t] + s.take(i);
        let enc_rest = label_encoding(rest);
        assert(label_segments(s) == (seq![i as u8] + s.take(i)) + label_segments(rest));
        assert(enc =~= pre + enc_rest);
        assert(pre.len() == i + 1);
        lemma_name_scan_shift(pre, enc_rest, 0);
        assert(name_scan(pre + enc_rest, i + 1) == Some(
            (rest + seq![46u8], enc_rest.len() + i + 1),
        ));
        assert(enc[0] == t);
        assert(enc.len() == i + 1 + enc_rest.len());
        assert(enc_rest.len() >= 1);
        assert(enc.subrange(1, 1 + i) =~= s.take(i));
        assert(name_scan(enc, 0) == Some(
            (s.take(i) + seq![46u8] + (rest + seq![46u8]), enc_rest.len() + i + 1),
        ));
        assert(s.take(i) + seq![46u8] + (rest + seq![46u8]) =~= s + seq![46u8]);
        assert forall|j: int| 0 <= j < (s + seq![46u8]).len() implies (s + seq![46u8])[j]
            < 128 by {
            if j < i {
                assert(is_alnum_byte(s[j]));
            } else if j > i {
                assert(ascii_bytes(rest + seq![46u8]));
                assert((rest + seq![46u8])[j - i - 1] < 128);
            }
        }
    }
}

/// Walk the label sequence at the start of `bytes` and reassemble the dotted
/// name. Returns the name - with a trailing dot after every label - and the
/// number of bytes the name occupied, including the terminating zero.
///
/// The walk fails with `Truncated` where the buffer ends under it, and with
/// `BadName` where the collected name bytes are not ASCII.
pub fn get_name(bytes: &Vec<u8>) -> (r: Result<(String, usize), DnsError>)
    ensures
        (match r {
            Ok(p) => {
                &&& name_scan(bytes@, 0) matches Some(sp)
                &&& ascii_bytes(name_scan(bytes@, 0).unwrap().0)
                &&& p.0@ == chars_of(name_scan(bytes@, 0).unwrap().0)
                &&& p.1 == name_scan(bytes@, 0).unwrap().1
            },
            Err(e) => (match e {
                DnsError::Truncated => name_scan(bytes@, 0) is None,
                DnsError::BadName => name_scan(bytes@, 0) matches Some(sp) && !ascii_bytes(
                    name_scan(bytes@, 0).unwrap().0,
                ),
                _ => false,
            }),
        }),
{
    let n: usize = bytes.len();
    let mut ptr: usize = 0;
    let mut label: Vec<u8> = Vec::new();
    loop
        invariant
            n == bytes@.len(),
            ptr <= n,
            name_scan(bytes@, 0) == (match name_scan(bytes@, ptr as int) {
                None => None::<(Seq<u8>, int)>,
                Some(sp) => Some((label@ + sp.0, sp.1)),
            }),
        ensures
            ptr < n,
            name_scan(bytes@, 0) == Some((label@, ptr + 1)),
        decreases n - ptr,
    {
        if ptr >= n {
            proof {
                assert(name_scan(bytes@, ptr as int) is None);
            }
            return Err(DnsError::Truncated);
        }
        let t = bytes[ptr];
        let ghost label0 = label@;
        let ghost p = ptr as int;
        if t == 0 {
            proof {
                assert(name_scan(bytes@, p) == Some((Seq::<u8>::empty(), p + 1)));
                assert(label@ + Seq::<u8>::empty() =~= label@);
            }
            break;
        }
        let t_us: usize = t as usize;
        if t_us + 1 >= n - ptr {
            proof {
                assert(name_scan(bytes@, p) is None);
            }
            return Err(DnsError::Truncated);
        }
        if !(t >= 48 && t <= 57 || t >= 65 && t <= 90 || t >= 97 && t <= 122) {
            let end: usize = ptr + 1 + t_us;
            let mut k: usize = ptr + 1;
            while k < end
                invariant
                    n == bytes@.len(),
                    0 <= p,
                    p + 1 <= k <= end,
                    end == p + 1 + t as int,
                    end < n,
                    label@ == label0 + bytes@.subrange(p + 1, k as int),
                decreases end - k,
            {
                label.push(bytes[k]);
                k = k + 1;
                proof {
                    assert(bytes@.subrange(p + 1, k as int) =~= bytes@.subrange(
                        p + 1,
                        k as int - 1,
                    ) + seq![bytes@[k as int - 1]]);
                    assert(label@ =~= label0 + bytes@.subrange(p + 1, k as int));
                }
            }
            label.push(46);
            proof {
                let seg = bytes@.subrange(p + 1, p + 1 + t as int);
                assert(label@ =~= label0 + seg + seq![46u8]);
                match name_scan(bytes@, p + t as int + 1) {
                    None => {
                        assert(name_scan(bytes@, p) is None);
                    },
                    Some(sp) => {
                        assert(name_scan(bytes@, p) == Some((seg + seq![46u8] + sp.0, sp.1)));
                        assert(label0 + (seg + seq![46u8] + sp.0) =~= label@ + sp.0);
                    },
                }
            }
        } else {
            proof {
                assert(name_scan(bytes@, p) == name_scan(bytes@, p + t as int + 1));
            }
        }
        ptr = ptr + t_us + 1;
    }
    let m: usize = label.len();
    let mut name = String::new();
    let mut i: usize = 0;
    while i < m
        invariant
            m == label@.len(),
            0 <= i <= m,
            name_scan(bytes@, 0) == Some((label@, ptr + 1)),
            name@ == chars_of(label@.take(i as int)),
            forall|j: int| 0 <= j < i ==> label@[j] < 128,
        decreases m - i,
    {
        let b = label[i];
        if b >= 128 {
            return Err(DnsError::BadName);
        }
        push_char(&mut name, b as char);
        i = i + 1;
        proof {
            assert(name@ =~= chars_of(label@.take(i as int)));
        }
    }
    proof {
        assert(label@.take(m as int) =~= label@);
    }
    Ok((name, ptr + 1))
}

} // verus!
