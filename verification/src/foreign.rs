//! The trusted boundary to the outside crates.
//!
//! Each function here is `external_body`: its contract is believed, not
//! proved. Results that are functions of the arguments alone but too complex
//! to state are given uninterpreted names (`regex_match`, `shell_tokens`,
//! `edit_distance`, `utf8_valid`); everything the verified code concludes
//! about them goes through these contracts.
use vstd::prelude::*;

verus! {

/// Whether a byte sequence is valid UTF-8.
pub uninterp spec fn utf8_valid(s: Seq<u8>) -> bool;

/// Relies on std's str::from_utf8, which succeeds exactly on valid UTF-8;
/// its documentation also gives that any all-ASCII sequence is valid.
#[verifier::external_body]
pub fn check_utf8(s: &[u8]) -> (r: bool)
    ensures
        r == utf8_valid(s@),
        (forall|k: int| 0 <= k < s@.len() ==> s@[k] < 0x80) ==> r,
{
    core::str::from_utf8(s).is_ok()
}

#[verifier::external_type_specification]
#[verifier::external_body]
pub struct ExRegex(regex::bytes::Regex);

/// What compiling this pattern text yields: `None` when the engine accepts
/// it, else the message text of the compile error (for non-UTF-8 pattern
/// bytes, which the engine never sees, the message of the UTF-8 error).
pub uninterp spec fn regex_error(pat: Seq<u8>) -> Option<Seq<u8>>;

/// Whether the regex engine accepts this pattern text (compilation succeeds).
pub open spec fn regex_valid(pat: Seq<u8>) -> bool {
    regex_error(pat) is None
}

/// Whether the regex compiled from `pat` matches somewhere in `text`.
pub uninterp spec fn regex_match(pat: Seq<u8>, text: Seq<u8>) -> bool;

/// A compiled regular expression together with the pattern text it was
/// compiled from. The only constructor is `compile`, so the two fields always
/// belong together.
#[derive(Debug)]
pub struct CompiledRegex {
    re: regex::bytes::Regex,
    pat: Vec<u8>,
}

impl CompiledRegex {
    /// The pattern text this value was compiled from.
    pub closed spec fn pattern(&self) -> Seq<u8> {
        self.pat@
    }

    /// Relies on regex::bytes::Regex::new: whether a pattern compiles, and
    /// the message of its compile error, are functions of the pattern text
    /// alone (a non-UTF-8 pattern never compiles and yields the UTF-8
    /// error's message).
    #[verifier::external_body]
    pub fn compile(pat: &[u8]) -> (r: Result<CompiledRegex, Vec<u8>>)
        ensures
            (r is Ok) == regex_valid(pat@),
            r is Ok ==> r.unwrap().pattern() == pat@,
            r is Err ==> Some(r.unwrap_err()@) == regex_error(pat@),
    {
        let txt = match core::str::from_utf8(pat) {
            Ok(t) => t,
            Err(e) => return Err(e.to_string().into_bytes()),
        };
        match regex::bytes::Regex::new(txt) {
            Ok(re) => Ok(CompiledRegex { re, pat: pat.to_vec() }),
            Err(e) => Err(e.to_string().into_bytes()),
        }
    }

    /// The pattern text, as given to `compile`.
    pub fn pattern_bytes(&self) -> (r: &Vec<u8>)
        ensures
            r@ == self.pattern(),
    {
        &self.pat
    }

    /// Relies on regex::bytes::Regex::is_match: whether a compiled pattern
    /// matches is a function of the pattern and the text alone.
    #[verifier::external_body]
    pub fn is_match(&self, text: &[u8]) -> (r: bool)
        ensures
            r == regex_match(self.pattern(), text@),
    {
        self.re.is_match(text)
    }
}

/// The token list that shell-like splitting yields for this argument text,
/// `None` on an unclosed quotation mark (or non-UTF-8 input).
pub uninterp spec fn shell_tokens(s: Seq<u8>) -> Option<Seq<Seq<u8>>>;

/// Relies on comma::parse_command: whitespace splitting with single or double
/// quotes and backslash escapes; a function of the input text alone.
#[verifier::external_body]
pub fn parse_shell_tokens(s: &[u8]) -> (r: Option<Vec<Vec<u8>>>)
    ensures
        (r is Some) == (shell_tokens(s@) is Some),
        r is Some ==> r.unwrap().deep_view() == shell_tokens(s@).unwrap(),
{
    let txt = core::str::from_utf8(s).ok()?;
    let toks = comma::parse_command(txt)?;
    Some(toks.into_iter().map(|t| t.into_bytes()).collect())
}

/// The Damerau-Levenshtein distance between two texts.
pub uninterp spec fn edit_distance(a: Seq<u8>, b: Seq<u8>) -> nat;

/// Relies on distance::damerau_levenshtein: the edit distance is a function
/// of the two texts alone (invalid UTF-8 is replaced the same way each call).
#[verifier::external_body]
pub fn damerau_levenshtein(a: &[u8], b: &[u8]) -> (r: usize)
    ensures
        r as nat == edit_distance(a@, b@),
{
    let a = String::from_utf8_lossy(a);
    let b = String::from_utf8_lossy(b);
    distance::damerau_levenshtein(&a, &b)
}

} // verus!
