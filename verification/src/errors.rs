//! Line-numbered parse errors. Every problem found while scanning a file is
//! recorded as one `ParseError`; the scan itself never stops early.
use vstd::prelude::*;

verus! {

/// What went wrong on a line. Kinds that need to carry text (a suggestion, a
/// revision name) put it in the `detail` field of `ParseError`.
#[derive(Debug, Clone, Copy, PartialEq, Eq, Structural)]
pub enum ErrorKind {
    /// A directive or annotation line is not valid UTF-8.
    NotUtf8,
    /// A plain comment parses cleanly as a directive but lacks the `//@` sigil.
    CompiletestStyle,
    /// A plain comment starts with a byte that strongly suggests a mistyped sigil.
    SuspiciousComment,
    /// A directive name is not separated from its arguments by `:` or a
    /// single space.
    MissingColon,
    /// `revisions` was declared inside a revision bracket.
    RevisionsUnderRevision,
    /// `revisions` was declared a second time.
    RevisionsTwice,
    /// `compile-flags` arguments contain an unclosed quotation mark;
    /// `detail` holds the argument text.
    UnclosedQuotationMark,
    /// A `rustc-env` token has no `=`.
    EnvVarNotKeyValue,
    /// `normalize-stderr-test` lacks the `->` separator.
    NormalizeMissingArrow,
    /// Trailing text after the replacement of `normalize-stderr-test`;
    /// `detail` holds that text.
    TrailingAfterReplacement,
    /// A regular expression failed to compile; `detail` holds the engine's
    /// message.
    InvalidRegex,
    /// The retired `error-pattern` directive was used.
    ErrorPatternRenamed,
    /// `stderr-per-bitwidth` was set twice in one bucket.
    StderrPerBitwidthTwice,
    /// The run mode was set twice in one bucket.
    ModeTwice,
    /// `needs-asm-support` was set twice in one bucket.
    NeedsAsmSupportTwice,
    /// `edition` was set twice in one bucket.
    EditionTwice,
    /// Two different applicable buckets both set an edition.
    EditionTwiceAcrossRevisions,
    /// `require-annotations-for-level` was set twice in one bucket.
    RequireAnnotationsTwice,
    /// A severity level was not one of the known labels.
    InvalidLevel,
    /// The `run` exit code does not parse as an integer; `detail` holds the
    /// text that was given.
    InvalidExitCode,
    /// An `ignore-`/`only-` filter ends in `bit` without a valid bit width.
    InvalidBitwidth,
    /// An `ignore-`/`only-` filter is not one of the accepted forms.
    InvalidCondition,
    /// The directive name is unknown; `detail` holds the closest known name.
    UnknownCommand,
    /// A revision bracket `[` has no closing `]`.
    BracketUnclosed,
    /// `//~|` without a preceding annotation to chain to.
    FallthroughWithoutParent,
    /// `//~^` refers to more lines than exist above the annotation.
    OffsetOutOfRange,
    /// An annotation has no pattern text.
    NoPattern,
    /// An annotation has no severity level before the pattern.
    PatternWithoutLevel,
    /// An annotation level is not followed by `:`.
    NoColonAfterLevel,
    /// A quoted string does not start with `"`.
    ExpectedQuote,
    /// A quoted string was expected but the line ended.
    ExpectedQuotedString,
    /// A quoted string has no closing `"`.
    NoClosingQuote,
    /// A pattern starting with `/` has no closing `/`.
    RegexMissingClosingSlash,
    /// A revision bracket names a revision that was never declared; `detail`
    /// holds the name.
    UnknownRevision,
    /// A revision bracket was used although no revisions were declared.
    NoRevisionsDeclared,
}

/// One recorded problem: the kind, the 1-indexed line it is attributed to,
/// and, for some kinds, the text it concerns.
#[derive(Debug, PartialEq, Eq)]
pub struct ParseError {
    pub line: usize,
    pub kind: ErrorKind,
    pub detail: Option<Vec<u8>>,
}

/// Mathematical image of a `ParseError`.
pub struct ParseErrorV {
    pub line: usize,
    pub kind: ErrorKind,
    pub detail: Option<Seq<u8>>,
}

impl View for ParseError {
    type V = ParseErrorV;

    open spec fn view(&self) -> ParseErrorV {
        ParseErrorV {
            line: self.line,
            kind: self.kind,
            detail: match self.detail {
                Some(d) => Some(d@),
                None => None,
            },
        }
    }
}

impl DeepView for ParseError {
    type V = ParseErrorV;

    open spec fn deep_view(&self) -> ParseErrorV {
        self.view()
    }
}

/// Builds the error value for `kind` at `line` with no detail text.
pub open spec fn err_at(line: usize, kind: ErrorKind) -> ParseErrorV {
    ParseErrorV { line, kind, detail: None }
}

/// Builds the error value for `kind` at `line` carrying `detail`.
pub open spec fn err_with(line: usize, kind: ErrorKind, detail: Seq<u8>) -> ParseErrorV {
    ParseErrorV { line, kind, detail: Some(detail) }
}

/// Appends the error for `kind` at `line` with no detail text.
pub fn push_err(errors: &mut Vec<ParseError>, line: usize, kind: ErrorKind)
    ensures
        final(errors)@ == old(errors)@.push(ParseError { line, kind, detail: None }),
        final(errors).deep_view() == old(errors).deep_view().push(err_at(line, kind)),
{
    errors.push(ParseError { line, kind, detail: None });
    proof {
        assert(errors.deep_view() =~= old(errors).deep_view().push(err_at(line, kind)));
    }
}

/// Appends the error for `kind` at `line` carrying `detail`.
pub fn push_err_with(errors: &mut Vec<ParseError>, line: usize, kind: ErrorKind, detail: Vec<u8>)
    ensures
        final(errors).deep_view() == old(errors).deep_view().push(
            err_with(line, kind, detail@),
        ),
{
    let ghost d = detail@;
    errors.push(ParseError { line, kind, detail: Some(detail) });
    proof {
        assert(errors.deep_view() =~= old(errors).deep_view().push(
            err_with(line, kind, d),
        ));
    }
}

} // verus!
