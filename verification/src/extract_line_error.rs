//! The source-span excerpt behind every diagnostic: given the full
//! source and a half-open byte span, find the lines the span touches
//! and present them under a line-numbered heading. Lines are numbered
//! from 1 in user output.

use vstd::prelude::*;
use vstd::string::StringSliceAdditionalSpecFns;
use vstd::utf8::{encode_utf8, valid_utf8};

verus! {

/// A byte range of the source: the start of the first touched line to
/// the end of the last one.
pub struct Token {
    pub begin: usize,
    pub end: usize,
}

impl Token {
    /// An empty range.
    pub fn new() -> (r: Self)
        ensures
            r.begin == 0 && r.end == 0,
    {
        Self { begin: 0, end: 0 }
    }

    /// Move the start of the range.
    pub fn set_begin(&mut self, b: usize)
        ensures
            final (self).begin == b,
            final (self).end == old(self).end,
    {
        self.begin = b;
    }

    /// Move the end of the range.
    pub fn set_end(&mut self, e: usize)
        ensures
            final (self).end == e,
            final (self).begin == old(self).begin,
    {
        self.end = e;
    }
}

/// Whether the span sits on one line or runs over several.
pub enum WrongLines {
    Single(usize),
    Multiple(usize, usize),
}

/// The end of the line starting at or containing `cur`: the next
/// newline at or after `cur`, or the end of the source.
pub open spec fn line_end_from(b: Seq<u8>, cur: int) -> int
    decreases b.len() - cur,
{
    if cur < 0 || cur >= b.len() {
        cur
    } else if b[cur] == 10 {
        cur
    } else {
        line_end_from(b, cur + 1)
    }
}

/// The line end never lies before its start nor past the source.
pub proof fn lemma_line_end_bounds(b: Seq<u8>, cur: int)
    requires
        0 <= cur <= b.len(),
    ensures
        cur <= line_end_from(b, cur) <= b.len(),
    decreases b.len() - cur,
{
    if cur < b.len() && b[cur] != 10 {
        lemma_line_end_bounds(b, cur + 1);
    }
}

/// The first line, counting from line `n` at offset `cur`, whose end
/// reaches `begin`: its number and its start offset.
pub open spec fn find_begin_line(b: Seq<u8>, cur: int, n: int, begin: int) -> Option<(int, int)>
    decreases b.len() - cur + 1,
    via find_begin_line_dec
{
    if cur < 0 || cur >= b.len() {
        None
    } else {
        let e = line_end_from(b, cur);
        if e >= begin {
            Some((n, cur))
        } else {
            find_begin_line(b, e + 1, n + 1, begin)
        }
    }
}

#[via_fn]
proof fn find_begin_line_dec(b: Seq<u8>, cur: int, n: int, begin: int) {
    if 0 <= cur < b.len() {
        lemma_line_end_bounds(b, cur);
    }
}

/// The first line, counting from line `n` at offset `cur`, whose end
/// reaches `end`: its number and its end offset.
pub open spec fn find_end_line(b: Seq<u8>, cur: int, n: int, end: int) -> Option<(int, int)>
    decreases b.len() - cur + 1,
    via find_end_line_dec
{
    if cur < 0 || cur >= b.len() {
        None
    } else {
        let e = line_end_from(b, cur);
        if e >= end {
            Some((n, e))
        } else {
            find_end_line(b, e + 1, n + 1, end)
        }
    }
}

#[via_fn]
proof fn find_end_line_dec(b: Seq<u8>, cur: int, n: int, end: int) {
    if 0 <= cur < b.len() {
        lemma_line_end_bounds(b, cur);
    }
}

/// The whole walk: the lines the span `[begin, end)` touches and the
/// byte range that covers them. With no line reaching `begin`, all
/// zeros; with no line reaching `end`, the end parts stay zero.
pub open spec fn spec_find_wrong(b: Seq<u8>, begin: int, end: int) -> (int, int, int, int) {
    match find_begin_line(b, 0, 0, begin) {
        None => (0, 0, 0, 0),
        Some((bl, tb)) => match find_end_line(b, tb, bl, end) {
            None => (bl, 0, tb, 0),
            Some((el, te)) => (bl, el, tb, te),
        },
    }
}

/// Scan forward to the end of the current line.
fn line_end(bytes: &[u8], cur: usize) -> (r: usize)
    requires
        cur <= bytes@.len(),
    ensures
        r == line_end_from(bytes@, cur as int),
        cur <= r <= bytes@.len(),
{
    let ghost b = bytes@;
    let n = bytes.len();
    let mut i = cur;
    loop
        invariant
            cur <= i <= n,
            n == b.len(),
            b == bytes@,
            line_end_from(b, cur as int) == line_end_from(b, i as int),
        ensures
            i as int == line_end_from(b, cur as int),
            cur <= i <= n,
        decreases n - i,
    {
        if i >= n {
            break ;
        }
        if bytes[i] == 10 {
            break ;
        }
        i = i + 1;
    }
    i
}

/// Find the lines the span touches, and the byte range that covers
/// them, exactly as `spec_find_wrong` describes.
pub fn find_wrong_code(code: &str, begin: usize, end: usize) -> (r: (WrongLines, Token))
    ensures
        ({
            let (bl, el, tb, te) = spec_find_wrong(code.spec_bytes(), begin as int, end as int);
            &&& 0 <= bl && 0 <= el
            &&& (bl == 0 || bl < code.spec_bytes().len())
            &&& (el == 0 || el < code.spec_bytes().len())
            &&& r.1.begin == tb
            &&& r.1.end == te
            &&& (bl == el ==> (r.0 matches WrongLines::Single(s) && s == bl))
            &&& (bl != el ==> (r.0 matches WrongLines::Multiple(s, t) && s == bl && t == el))
        }),
{
    let ghost b = code.spec_bytes();
    let bytes = code.as_bytes();
    let blen = bytes.len();
    let mut token = Token::new();
    let mut begin_line: usize = 0;
    let mut end_line: usize = 0;
    let mut cur: usize = 0;
    let mut n: usize = 0;
    let mut found_begin = false;
    loop
        invariant_except_break
            !found_begin,
        invariant
            n <= cur,
            cur <= blen + 1,
            blen == b.len(),
            b == bytes@,
            bytes@ == code.spec_bytes(),
            find_begin_line(b, 0, 0, begin as int) == find_begin_line(
                b,
                cur as int,
                n as int,
                begin as int,
            ),
        ensures
            n <= cur <= blen + 1,
            b == bytes@ && blen == b.len() && bytes@ == code.spec_bytes(),
            found_begin ==> (find_begin_line(b, 0, 0, begin as int) matches Some(p) && p.0
                == n as int && p.1 == cur as int && cur < blen),
            !found_begin ==> find_begin_line(b, 0, 0, begin as int) is None,
        decreases blen + 1 - cur,
    {
        if cur >= blen {
            proof {
                assert(find_begin_line(b, cur as int, n as int, begin as int) is None);
            }
            break ;
        }
        let e = line_end(bytes, cur);
        if e >= begin {
            proof {
                assert(find_begin_line(b, cur as int, n as int, begin as int) == Some(
                    (n as int, cur as int),
                ));
            }
            found_begin = true;
            break ;
        }
        cur = e + 1;
        n = n + 1;
    }
    if !found_begin {
        proof {
            assert(spec_find_wrong(b, begin as int, end as int) == (0int, 0int, 0int, 0int));
        }
        return (WrongLines::Single(0), token);
    }
    token.set_begin(cur);
    begin_line = n;
    let mut found_end = false;
    loop
        invariant_except_break
            !found_end,
            end_line == 0,
            token.end == 0,
        invariant
            blen == b.len(),
            b == bytes@,
            bytes@ == code.spec_bytes(),
            n <= cur,
            cur <= blen + 1,
            token.begin <= blen,
            begin_line == 0 || (begin_line as int) < b.len(),
            find_begin_line(b, 0, 0, begin as int) == Some(
                (begin_line as int, token.begin as int),
            ),
            find_end_line(b, token.begin as int, begin_line as int, end as int) == find_end_line(
                b,
                cur as int,
                n as int,
                end as int,
            ),
        ensures
            n <= cur <= blen + 1,
            token.begin <= blen,
            found_end ==> (find_end_line(b, token.begin as int, begin_line as int, end as int)
                matches Some(p) && p.0 == end_line as int && p.1 == token.end as int && (end_line
                == 0 || (end_line as int) < b.len())),
            !found_end ==> (find_end_line(b, token.begin as int, begin_line as int, end as int)
                is None && end_line == 0 && token.end == 0),
        decreases blen + 1 - cur,
    {
        if cur >= blen {
            proof {
                assert(find_end_line(b, cur as int, n as int, end as int) is None);
            }
            break ;
        }
        let e = line_end(bytes, cur);
        if e >= end {
            proof {
                assert(find_end_line(b, cur as int, n as int, end as int) == Some(
                    (n as int, e as int),
                ));
            }
            end_line = n;
            token.set_end(e);
            found_end = true;
            break ;
        }
        cur = e + 1;
        n = n + 1;
    }
    if begin_line == end_line {
        (WrongLines::Single(begin_line), token)
    } else {
        (WrongLines::Multiple(begin_line, end_line), token)
    }
}

/// The decimal digits of a number, most significant first.
pub open spec fn dec_bytes(n: int) -> Seq<u8>
    decreases n,
{
    if n < 10 {
        seq![(48 + if n < 0 {
            0int
        } else {
            n
        }) as u8]
    } else {
        dec_bytes(n / 10) + seq![(48 + n % 10) as u8]
    }
}

/// Write a number in decimal.
pub fn push_dec(out: &mut Vec<u8>, n: usize)
    ensures
        final (out)@ == old(out)@ + dec_bytes(n as int),
    decreases n,
{
    if n < 10 {
        out.push(48 + n as u8);
        proof {
            assert(out@ =~= old(out)@ + dec_bytes(n as int));
        }
    } else {
        push_dec(out, n / 10);
        out.push(48 + (n % 10) as u8);
        proof {
            assert(out@ =~= old(out)@ + dec_bytes(n as int));
        }
    }
}

/// Append the bytes of a fixed piece of text.
pub fn push_lit(out: &mut Vec<u8>, lit: &str)
    ensures
        final (out)@ == old(out)@ + lit.spec_bytes(),
{
    let bytes = lit.as_bytes();
    let n = bytes.len();
    for i in 0..n
        invariant
            n == bytes@.len(),
            bytes@ == lit.spec_bytes(),
            out@ == old(out)@ + bytes@.take(i as int),
    {
        out.push(bytes[i]);
        proof {
            assert(out@ =~= old(out)@ + bytes@.take(i as int + 1));
        }
    }
    proof {
        assert(bytes@.take(n as int) =~= bytes@);
    }
}

/// The byte form of the excerpt: the heading naming the line or lines,
/// a line break, then the touched lines themselves (empty if the range
/// does not sit inside the source).
pub open spec fn message_bytes(b: Seq<u8>, begin: int, end: int) -> Seq<u8> {
    let (bl, el, tb, te) = spec_find_wrong(b, begin, end);
    let descr = if bl == el {
        "Error on line: ".spec_bytes() + dec_bytes(bl + 1)
    } else {
        "Error from line: ".spec_bytes() + dec_bytes(bl + 1) + " to line: ".spec_bytes()
            + dec_bytes(el + 1)
    };
    let block = if 0 <= tb <= te <= b.len() {
        b.subrange(tb, te)
    } else {
        Seq::empty()
    };
    descr + seq![10u8] + block
}

/// Relies on String::from_utf8: on bytes that are valid UTF-8 it
/// returns the string of exactly those bytes; on others this falls
/// back to the empty string.
#[verifier::external_body]
pub fn string_from_bytes(v: Vec<u8>) -> (r: String)
    ensures
        valid_utf8(v@) ==> encode_utf8(r@) == v@,
        !valid_utf8(v@) ==> r@ == Seq::<char>::empty(),
{
    match String::from_utf8(v) {
        Ok(s) => s,
        Err(_) => String::new(),
    }
}

/// Present the lines a span touches, under a heading that names them,
/// numbered from 1: exactly the bytes of `message_bytes`.
pub fn extract_error_code(code: &str, begin: usize, end: usize) -> (r: String)
    ensures
        valid_utf8(message_bytes(code.spec_bytes(), begin as int, end as int)) ==> encode_utf8(r@)
            == message_bytes(code.spec_bytes(), begin as int, end as int),
        !valid_utf8(message_bytes(code.spec_bytes(), begin as int, end as int)) ==> r@ == Seq::<
            char,
        >::empty(),
{
    string_from_bytes(excerpt_bytes(code, begin, end))
}

/// The same excerpt, as raw bytes.
pub fn excerpt_bytes(code: &str, begin: usize, end: usize) -> (r: Vec<u8>)
    ensures
        r@ == message_bytes(code.spec_bytes(), begin as int, end as int),
{
    let ghost b = code.spec_bytes();
    let (lines, token) = find_wrong_code(code, begin, end);
    let bytes = code.as_bytes();
    let blen = bytes.len();
    let mut msg: Vec<u8> = Vec::new();
    match &lines {
        WrongLines::Single(l) => {
            push_lit(&mut msg, "Error on line: ");
            push_dec(&mut msg, *l + 1);
        },
        WrongLines::Multiple(f, t) => {
            push_lit(&mut msg, "Error from line: ");
            push_dec(&mut msg, *f + 1);
            push_lit(&mut msg, " to line: ");
            push_dec(&mut msg, *t + 1);
        },
    }
    msg.push(10);
    let ghost head = msg@;
    if token.begin <= token.end && token.end <= bytes.len() {
        let mut i = token.begin;
        while i < token.end
            invariant
                token.begin <= i <= token.end,
                token.end <= bytes@.len(),
                b == bytes@,
                msg@ == head + b.subrange(token.begin as int, i as int),
            decreases token.end - i,
        {
            msg.push(bytes[i]);
            proof {
                assert(msg@ =~= head + b.subrange(token.begin as int, i as int + 1));
            }
            i = i + 1;
        }
    }
    proof {
        if token.begin <= token.end && token.end <= b.len() {
        } else {
            assert(msg@ =~= head + Seq::<u8>::empty());
        }
        assert(msg@ =~= message_bytes(b, begin as int, end as int));
    }
    msg
}

} // verus!
