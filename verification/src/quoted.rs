//! Quoted-string literals: `"…"` with backslash escaping any character.
use vstd::prelude::*;
use vstd::slice::{slice_subrange, slice_to_vec};
use crate::bytes::{trim_start, trimmed_start};
use crate::errors::ErrorKind;

verus! {

/// Result of scanning a quote body from index `i`: the unescaped content up
/// to the closing quote, the index just past it, and whether it was found.
pub struct QuotedBody {
    pub content: Seq<u8>,
    pub end: int,
    pub closed: bool,
}

/// Scans from `i` to the first unescaped `"`. A backslash only prevents the
/// following byte from closing the quote: escape processing is deferred to
/// the consumer of the span (the regex engine, mostly), so both the
/// backslash and the escaped byte stay in the content verbatim.
pub open spec fn quoted_body(s: Seq<u8>, i: int) -> QuotedBody
    decreases s.len() - i,
{
    if i < 0 || i >= s.len() {
        QuotedBody { content: Seq::empty(), end: s.len() as int, closed: false }
    } else if s[i] == 34 {
        QuotedBody { content: Seq::empty(), end: i + 1, closed: true }
    } else if s[i] == 92 {
        if i + 1 < s.len() {
            let q = quoted_body(s, i + 2);
            QuotedBody {
                content: seq![s[i], s[i + 1]] + q.content,
                end: q.end,
                closed: q.closed,
            }
        } else {
            QuotedBody { content: Seq::empty(), end: s.len() as int, closed: false }
        }
    } else {
        let q = quoted_body(s, i + 1);
        QuotedBody { content: seq![s[i]] + q.content, end: q.end, closed: q.closed }
    }
}

/// What parsing a quoted string yields: the raw span strictly between the
/// opening quote and the first unescaped closing quote (backslashes kept),
/// the rest of the line with leading whitespace removed, and the error if
/// the text did not start with `"` or the quote never closed (the original
/// text then stands in for the content, as the callers expect).
pub open spec fn spec_parse_quoted(s: Seq<u8>) -> (Seq<u8>, Seq<u8>, Option<ErrorKind>) {
    if s.len() == 0 {
        (s, Seq::empty(), Some(ErrorKind::ExpectedQuotedString))
    } else if s[0] != 34 {
        (s, Seq::empty(), Some(ErrorKind::ExpectedQuote))
    } else {
        let q = quoted_body(s, 1);
        if q.closed {
            (q.content, trimmed_start(s.skip(q.end)), None)
        } else {
            (s.skip(1), Seq::empty(), Some(ErrorKind::NoClosingQuote))
        }
    }
}

/// Parses a quoted string at the start of `s`.
pub fn parse_quoted<'a>(s: &'a [u8]) -> (r: (Vec<u8>, &'a [u8], Option<ErrorKind>))
    ensures
        (r.0@, r.1@, r.2) == spec_parse_quoted(s@),
{
    let empty = slice_subrange(s, 0, 0);
    if s.len() == 0 {
        return (slice_to_vec(s), empty, Some(ErrorKind::ExpectedQuotedString));
    }
    if s[0] != 34 {
        return (slice_to_vec(s), empty, Some(ErrorKind::ExpectedQuote));
    }
    let ghost full = quoted_body(s@, 1);
    let mut out: Vec<u8> = Vec::new();
    let mut i: usize = 1;
    loop
        invariant
            1 <= i <= s@.len(),
            s@.len() > 0,
            s@[0] == 34,
            full == quoted_body(s@, 1),
            full.content == out@ + quoted_body(s@, i as int).content,
            full.end == quoted_body(s@, i as int).end,
            full.closed == quoted_body(s@, i as int).closed,
        ensures
            !full.closed,
        decreases s@.len() - i,
    {
        if i >= s.len() {
            proof {
                assert(!quoted_body(s@, i as int).closed);
            }
            break ;
        }
        let b = s[i];
        if b == 34 {
            proof {
                assert(quoted_body(s@, i as int).end == i + 1);
                assert(quoted_body(s@, i as int).closed);
                assert(full.content =~= out@);
                assert(full.end == i + 1);
                assert(full.closed);
            }
            let rest = trim_start(slice_subrange(s, i + 1, s.len()));
            proof {
                assert(s@.subrange(i + 1, s@.len() as int) =~= s@.skip(i + 1));
                assert(rest@ == trimmed_start(s@.skip(full.end)));
            }
            return (out, rest, None);
        } else if b == 92 {
            if i + 1 < s.len() {
                let c = s[i + 1];
                out.push(b);
                out.push(c);
                proof {
                    let q2 = quoted_body(s@, i + 2);
                    assert(quoted_body(s@, i as int).content =~= seq![b, c] + q2.content);
                    assert(full.content =~= out@ + q2.content);
                }
                i += 2;
            } else {
                proof {
                    assert(!quoted_body(s@, i as int).closed);
                }
                break ;
            }
        } else {
            out.push(b);
            proof {
                let q1 = quoted_body(s@, i + 1);
                assert(quoted_body(s@, i as int).content =~= seq![b] + q1.content);
                assert(full.content =~= out@ + q1.content);
            }
            i += 1;
        }
    }
    proof {
        assert(!full.closed);
        assert(s@.subrange(1, s@.len() as int) =~= s@.skip(1));
    }
    (slice_to_vec(slice_subrange(s, 1, s.len())), empty, Some(ErrorKind::NoClosingQuote))
}

} // verus!
