//! The pure part of reading the resolver configuration: given the lines of
//! the configuration file, pick the nameserver address. The file itself is
//! read by the caller outside this crate.

use vstd::prelude::*;
use vstd::string::StrSliceExecFns;
use vstd::string::StringExecFns;

verus! {

/// An ASCII whitespace character, as the configuration line is split on.
pub open spec fn is_ascii_ws(c: char) -> bool {
    c == ' ' || c == '\t' || c == '\n' || c == '\u{c}' || c == '\r'
}

/// The trailing run of non-whitespace characters of a line.
pub open spec fn trailing_run(l: Seq<char>) -> Seq<char>
    decreases l.len(),
{
    if l.len() == 0 || is_ascii_ws(l.last()) {
        Seq::empty()
    } else {
        trailing_run(l.drop_last()) + seq![l.last()]
    }
}

/// The last whitespace-separated token of a line; empty where the line
/// holds only whitespace.
pub open spec fn last_token(l: Seq<char>) -> Seq<char>
    decreases l.len(),
{
    if l.len() == 0 {
        Seq::empty()
    } else if is_ascii_ws(l.last()) {
        last_token(l.drop_last())
    } else {
        trailing_run(l)
    }
}

/// A line that names the resolver: it starts with `nameserver`.
pub open spec fn is_nameserver_line(l: Seq<char>) -> bool {
    l.len() >= 10 && l.subrange(0, 10) == "nameserver"@
}

/// The first nameserver line among the configuration lines, if any.
pub open spec fn first_nameserver(lines: Seq<Seq<char>>) -> Option<Seq<char>>
    decreases lines.len(),
{
    if lines.len() == 0 {
        None
    } else if is_nameserver_line(lines[0]) {
        Some(lines[0])
    } else {
        first_nameserver(lines.drop_first())
    }
}

/// The nameserver the configuration lines pick: the last token of the first
/// `nameserver` line, or the loopback address where no such line exists.
pub open spec fn resolv_nameserver(lines: Seq<Seq<char>>) -> Seq<char> {
    match first_nameserver(lines) {
        Some(l) => last_token(l),
        None => "127.0.0.1"@,
    }
}

/// Does the line start with `nameserver`?
fn starts_with_nameserver(line: &String) -> (r: bool)
    ensures
        r == is_nameserver_line(line@),
{
    let s = line.as_str();
    let n: usize = s.unicode_len();
    proof {
        reveal_strlit("nameserver");
    }
    if n < 10 {
        return false;
    }
    let needle = "nameserver";
    let mut j: usize = 0;
    while j < 10
        invariant
            0 <= j <= 10,
            10 <= n == line@.len(),
            needle@ == "nameserver"@,
            needle@.len() == 10,
            s@ == line@,
            forall|k: int| 0 <= k < j ==> line@[k] == needle@[k],
        decreases 10 - j,
    {
        if s.get_char(j) != needle.get_char(j) {
            proof {
                if is_nameserver_line(line@) {
                    assert(line@.subrange(0, 10)[j as int] == line@[j as int]);
                }
            }
            return false;
        }
        j = j + 1;
    }
    proof {
        assert(line@.subrange(0, 10) =~= needle@);
    }
    true
}

/// Is this an ASCII whitespace character?
fn is_ws_char(c: char) -> (r: bool)
    ensures
        r == is_ascii_ws(c),
{
    c == ' ' || c == '\t' || c == '\n' || c == '\u{c}' || c == '\r'
}

/// The last whitespace-separated token of the line.
fn extract_last_token(line: &String) -> (r: String)
    ensures
        r@ == last_token(line@),
{
    let s = line.as_str();
    let n: usize = s.unicode_len();
    proof {
        assert(line@.take(n as int) =~= line@);
    }
    let mut e: usize = n;
    while e > 0 && is_ws_char(s.get_char(e - 1))
        invariant
            0 <= e <= n == line@.len(),
            s@ == line@,
            last_token(line@) == last_token(line@.take(e as int)),
        decreases e,
    {
        proof {
            assert(line@.take(e as int).drop_last() =~= line@.take(e as int - 1));
        }
        e = e - 1;
    }
    if e == 0 {
        proof {
            reveal_strlit("");
            assert(""@ =~= Seq::<char>::empty());
        }
        return String::from_str("");
    }
    let ghost kept = line@.take(e as int);
    proof {
        assert(last_token(kept) == trailing_run(kept));
        assert(trailing_run(kept) + Seq::<char>::empty() =~= trailing_run(kept));
    }
    let mut st: usize = e;
    proof {
        assert(line@.subrange(e as int, e as int) =~= Seq::<char>::empty());
        assert(trailing_run(line@.take(e as int)) + Seq::<char>::empty() =~= trailing_run(
            line@.take(e as int),
        ));
    }
    while st > 0 && !is_ws_char(s.get_char(st - 1))
        invariant
            0 <= st <= e <= n == line@.len(),
            s@ == line@,
            kept == line@.take(e as int),
            trailing_run(kept) == trailing_run(line@.take(st as int)) + line@.subrange(
                st as int,
                e as int,
            ),
        decreases st,
    {
        proof {
            let st1 = st as int - 1;
            assert(line@.take(st as int).drop_last() =~= line@.take(st1));
            assert(line@.take(st as int).last() == line@[st1]);
            assert(trailing_run(line@.take(st as int)) == trailing_run(line@.take(st1)) + seq![
                line@[st1],
            ]);
            assert((trailing_run(line@.take(st1)) + seq![line@[st1]]) + line@.subrange(
                st as int,
                e as int,
            ) =~= trailing_run(line@.take(st1)) + line@.subrange(st1, e as int));
        }
        st = st - 1;
    }
    proof {
        assert(trailing_run(line@.take(st as int)) == Seq::<char>::empty());
        assert(Seq::<char>::empty() + line@.subrange(st as int, e as int) =~= line@.subrange(
            st as int,
            e as int,
        ));
    }
    let token = s.substring_char(st, e);
    String::from_str(token)
}

/// Pick the nameserver address from the lines of a resolver-configuration
/// file: the last whitespace-separated token of the first line starting
/// with `nameserver`, or `127.0.0.1` where no line does.
pub fn parse_resolvconf_nameserver(lines: &Vec<String>) -> (r: String)
    ensures
        r@ == resolv_nameserver(lines.deep_view()),
{
    let n: usize = lines.len();
    let mut li: usize = 0;
    proof {
        assert(lines.deep_view().skip(0) =~= lines.deep_view());
    }
    while li < n
        invariant
            0 <= li <= n == lines@.len(),
            first_nameserver(lines.deep_view()) == first_nameserver(
                lines.deep_view().skip(li as int),
            ),
        decreases n - li,
    {
        let line = &lines[li];
        proof {
            assert(lines.deep_view()[li as int] == line@);
            assert(lines.deep_view().skip(li as int)[0] == lines.deep_view()[li as int]);
        }
        if starts_with_nameserver(line) {
            return extract_last_token(line);
        }
        proof {
            assert(lines.deep_view().skip(li as int).drop_first() =~= lines.deep_view().skip(
                li as int + 1,
            ));
        }
        li = li + 1;
    }
    proof {
        assert(first_nameserver(lines.deep_view()) is None);
        reveal_strlit("127.0.0.1");
    }
    String::from_str("127.0.0.1")
}

} // verus!
