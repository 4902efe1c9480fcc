//! Message patterns: literal substrings and regular expressions.
use vstd::prelude::*;
use vstd::slice::{slice_subrange, slice_to_vec};
use crate::bytes::bytes_eq;
use crate::errors::{err_at, err_with, push_err, push_err_with, ErrorKind, ParseError, ParseErrorV};
use crate::foreign::{regex_error, regex_match, regex_valid, CompiledRegex};
use crate::level::Level;

verus! {

/// A pattern to look for in diagnostic text: either a literal substring or a
/// compiled regular expression.
#[derive(Debug)]
pub enum Pattern {
    SubString(Vec<u8>),
    Regex(CompiledRegex),
}

/// Mathematical image of a `Pattern`; a regex is represented by its pattern
/// text.
pub enum PatternV {
    SubString(Seq<u8>),
    Regex(Seq<u8>),
}

impl View for Pattern {
    type V = PatternV;

    open spec fn view(&self) -> PatternV {
        match self {
            Pattern::SubString(s) => PatternV::SubString(s@),
            Pattern::Regex(r) => PatternV::Regex(r.pattern()),
        }
    }
}

impl DeepView for Pattern {
    type V = PatternV;

    open spec fn deep_view(&self) -> PatternV {
        self.view()
    }
}

/// `needle` occurs contiguously somewhere in `hay`.
pub open spec fn contains_sub(hay: Seq<u8>, needle: Seq<u8>) -> bool {
    exists|i: int|
        0 <= i && i + needle.len() <= hay.len() && #[trigger] hay.subrange(i, i + needle.len())
            == needle
}

/// What it means for a pattern to match a message.
pub open spec fn pattern_matches(p: PatternV, text: Seq<u8>) -> bool {
    match p {
        PatternV::SubString(s) => contains_sub(text, s),
        PatternV::Regex(pat) => regex_match(pat, text),
    }
}

/// Literal substring search.
pub fn contains_bytes(hay: &[u8], needle: &[u8]) -> (r: bool)
    ensures
        r == contains_sub(hay@, needle@),
{
    if needle.len() > hay.len() {
        assert(!contains_sub(hay@, needle@));
        return false;
    }
    if needle.len() == 0 {
        assert(contains_sub(hay@, needle@)) by {
            assert(hay@.subrange(0, 0 + needle@.len() as int) =~= needle@);
        }
        return true;
    }
    let bound = hay.len() - needle.len();
    let mut i: usize = 0;
    while i <= bound
        invariant
            0 <= i <= bound + 1,
            0 < needle@.len() <= hay@.len(),
            hay@.len() <= usize::MAX,
            bound == hay@.len() - needle@.len(),
            forall|j: int|
                0 <= j < i ==> #[trigger] hay@.subrange(j, j + needle@.len()) != needle@,
        decreases bound + 1 - i,
    {
        if bytes_eq(slice_subrange(hay, i, i + needle.len()), needle) {
            assert(contains_sub(hay@, needle@));
            return true;
        }
        i += 1;
    }
    assert(!contains_sub(hay@, needle@));
    false
}

impl Pattern {
    /// Whether the pattern matches anywhere in `message`.
    pub fn matches(&self, message: &[u8]) -> (r: bool)
        ensures
            r == pattern_matches(self@, message@),
    {
        match self {
            Pattern::SubString(s) => contains_bytes(message, s.as_slice()),
            Pattern::Regex(r) => r.is_match(message),
        }
    }
}

/// How pattern text is read: `/…/` is compiled as a regex; on a compile
/// failure (reported with the engine's message) or a missing closing slash
/// the whole text (slashes included) falls back to a literal substring, with
/// the error still reported; anything else is a literal substring.
pub open spec fn spec_parse_error_pattern(line: usize, s: Seq<u8>) -> (PatternV, Seq<ParseErrorV>) {
    if s.len() > 0 && s[0] == 47 {
        let rest = s.skip(1);
        if rest.len() > 0 && rest.last() == 47 {
            let interior = rest.drop_last();
            if regex_valid(interior) {
                (PatternV::Regex(interior), Seq::empty())
            } else {
                (
                    PatternV::SubString(s),
                    seq![
                        err_with(line, ErrorKind::InvalidRegex, regex_error(interior).unwrap()),
                    ],
                )
            }
        } else {
            (
                PatternV::SubString(s),
                seq![err_at(line, ErrorKind::RegexMissingClosingSlash)],
            )
        }
    } else {
        (PatternV::SubString(s), Seq::empty())
    }
}

/// Parses pattern text, recording its error at `line` if there is one; the
/// returned pattern is still usable as a literal on the error paths.
pub fn parse_error_pattern(errors: &mut Vec<ParseError>, line: usize, s: &[u8]) -> (p: Pattern)
    ensures
        ({
            let r = spec_parse_error_pattern(line, s@);
            p@ == r.0 && final(errors).deep_view() == old(errors).deep_view() + r.1
        }),
{
    let ghost pre = errors.deep_view();
    if s.len() > 0 && s[0] == 47 {
        proof {
            assert(s@.skip(1) =~= s@.subrange(1, s@.len() as int));
        }
        if s.len() >= 2 && s[s.len() - 1] == 47 {
            let interior = slice_subrange(s, 1, s.len() - 1);
            proof {
                assert(interior@ =~= s@.skip(1).drop_last());
            }
            match CompiledRegex::compile(interior) {
                Ok(re) => {
                    proof {
                        assert(errors.deep_view() =~= pre + Seq::<ParseErrorV>::empty());
                    }
                    Pattern::Regex(re)
                },
                Err(msg) => {
                    let ghost m = msg@;
                    push_err_with(errors, line, ErrorKind::InvalidRegex, msg);
                    proof {
                        assert(errors.deep_view() =~= pre + seq![
                            err_with(line, ErrorKind::InvalidRegex, m),
                        ]);
                    }
                    Pattern::SubString(slice_to_vec(s))
                },
            }
        } else {
            push_err(errors, line, ErrorKind::RegexMissingClosingSlash);
            proof {
                assert(errors.deep_view() =~= pre + seq![
                    err_at(line, ErrorKind::RegexMissingClosingSlash),
                ]);
            }
            Pattern::SubString(slice_to_vec(s))
        }
    } else {
        proof {
            assert(errors.deep_view() =~= pre + Seq::<ParseErrorV>::empty());
        }
        Pattern::SubString(slice_to_vec(s))
    }
}

/// One diagnostic expectation: a pattern, its severity, the line the
/// annotation was written on, and the line it claims a diagnostic for.
#[derive(Debug)]
pub struct ErrorMatch {
    pub pattern: Pattern,
    pub level: Level,
    /// The line where this annotation was written.
    pub definition_line: usize,
    /// The line the expected diagnostic must point at.
    pub line: usize,
}

/// Mathematical image of an `ErrorMatch`.
pub struct ErrorMatchV {
    pub pattern: PatternV,
    pub level: Level,
    pub definition_line: usize,
    pub line: usize,
}

impl View for ErrorMatch {
    type V = ErrorMatchV;

    open spec fn view(&self) -> ErrorMatchV {
        ErrorMatchV {
            pattern: self.pattern@,
            level: self.level,
            definition_line: self.definition_line,
            line: self.line,
        }
    }
}

impl DeepView for ErrorMatch {
    type V = ErrorMatchV;

    open spec fn deep_view(&self) -> ErrorMatchV {
        self.view()
    }
}

} // verus!
