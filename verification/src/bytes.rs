//! Byte-level scanning primitives shared by every sub-parser.
//!
//! All directive text is handled as raw bytes; the specification functions
//! here describe index arithmetic over a fixed byte sequence, and the
//! executable scanners are proved to compute exactly those indices.
use vstd::prelude::*;
use vstd::slice::{slice_index_get, slice_subrange};
use vstd::string::StringSliceAdditionalSpecFns;

verus! {

/// ASCII whitespace: space, tab, line feed, vertical tab, form feed, carriage return.
pub open spec fn is_ws(b: u8) -> bool {
    b == 32 || b == 9 || b == 10 || b == 11 || b == 12 || b == 13
}

/// ASCII decimal digit.
pub open spec fn is_digit(b: u8) -> bool {
    48 <= b <= 57
}

/// ASCII alphabetic character.
pub open spec fn is_alpha(b: u8) -> bool {
    (65 <= b <= 90) || (97 <= b <= 122)
}

/// Characters a directive name may consist of: ASCII alphanumerics, `-` and `_`.
pub open spec fn is_cmd_char(b: u8) -> bool {
    is_alpha(b) || is_digit(b) || b == 45 || b == 95
}

/// A first-order byte predicate, so that scanning specifications stay
/// quantifier-friendly.
pub enum ScanFor {
    NonWs,
    Ws,
    Byte(u8),
    NotByte(u8),
    NonCmd,
    NonAlpha,
}

/// Whether byte `b` is what the scan is looking for.
pub open spec fn scan_hit(p: ScanFor, b: u8) -> bool {
    match p {
        ScanFor::NonWs => !is_ws(b),
        ScanFor::Ws => is_ws(b),
        ScanFor::Byte(c) => b == c,
        ScanFor::NotByte(c) => b != c,
        ScanFor::NonCmd => !is_cmd_char(b),
        ScanFor::NonAlpha => !is_alpha(b),
    }
}

/// Index of the first position at or after `i` whose byte satisfies `p`,
/// or the length of `s` if no such position exists.
pub open spec fn scan_until(s: Seq<u8>, i: int, p: ScanFor) -> int
    decreases s.len() - i,
{
    if i >= s.len() {
        s.len() as int
    } else if scan_hit(p, s[i]) {
        i
    } else {
        scan_until(s, i + 1, p)
    }
}

/// What `scan_until` returns: the first index at or after `i` satisfying `p`.
pub proof fn scan_until_props(s: Seq<u8>, i: int, p: ScanFor)
    requires
        0 <= i <= s.len(),
    ensures
        i <= scan_until(s, i, p) <= s.len(),
        forall|k: int| i <= k < scan_until(s, i, p) ==> !scan_hit(p, s[k]),
        scan_until(s, i, p) < s.len() ==> scan_hit(p, s[scan_until(s, i, p)]),
    decreases s.len() - i,
{
    if i < s.len() && !scan_hit(p, s[i]) {
        scan_until_props(s, i + 1, p);
    }
}

/// One past the last position before `j` whose byte is not whitespace,
/// or 0 if all of `s[..j]` is whitespace.
pub open spec fn trim_end_idx(s: Seq<u8>, j: int) -> int
    decreases j,
{
    if j <= 0 {
        0
    } else if is_ws(s[j - 1]) {
        trim_end_idx(s, j - 1)
    } else {
        j
    }
}

pub proof fn trim_end_idx_props(s: Seq<u8>, j: int)
    requires
        0 <= j <= s.len(),
    ensures
        0 <= trim_end_idx(s, j) <= j,
        forall|k: int| trim_end_idx(s, j) <= k < j ==> is_ws(s[k]),
        trim_end_idx(s, j) > 0 ==> !is_ws(s[trim_end_idx(s, j) - 1]),
    decreases j,
{
    if j > 0 && is_ws(s[j - 1]) {
        trim_end_idx_props(s, j - 1);
    }
}

/// `s` with leading whitespace removed.
pub open spec fn trimmed_start(s: Seq<u8>) -> Seq<u8> {
    s.skip(scan_until(s, 0, ScanFor::NonWs))
}

/// `s` with leading and trailing whitespace removed.
pub open spec fn trimmed(s: Seq<u8>) -> Seq<u8> {
    let a = scan_until(s, 0, ScanFor::NonWs);
    let b = trim_end_idx(s, s.len() as int);
    if a < b {
        s.subrange(a, b)
    } else {
        Seq::empty()
    }
}

/// Compares two byte slices for equality of their contents.
pub fn bytes_eq(a: &[u8], b: &[u8]) -> (r: bool)
    ensures
        r == (a@ == b@),
{
    if a.len() != b.len() {
        assert(a@.len() != b@.len());
        return false;
    }
    let mut i: usize = 0;
    while i < a.len()
        invariant
            0 <= i <= a@.len(),
            a@.len() == b@.len(),
            forall|j: int| 0 <= j < i ==> a@[j] == b@[j],
        decreases a@.len() - i,
    {
        if a[i] != b[i] {
            return false;
        }
        i += 1;
    }
    proof {
        assert(a@ =~= b@);
    }
    true
}

/// Compares a byte slice against the bytes of a string literal.
pub fn bytes_eq_str(a: &[u8], s: &str) -> (r: bool)
    ensures
        r == (a@ == s.spec_bytes()),
{
    bytes_eq(a, s.as_bytes())
}

/// True when `p` is a prefix of `s`.
pub fn starts_with(s: &[u8], p: &[u8]) -> (r: bool)
    ensures
        r == p@.is_prefix_of(s@),
{
    if p.len() > s.len() {
        assert(!p@.is_prefix_of(s@));
        return false;
    }
    let head = slice_subrange(s, 0, p.len());
    let r = bytes_eq(head, p);
    proof {
        if head@ == p@ {
            assert(p@.is_prefix_of(s@));
        } else {
            assert(!p@.is_prefix_of(s@)) by {
                if p@.is_prefix_of(s@) {
                    assert(head@ =~= p@);
                }
            }
        }
    }
    r
}

/// Runs the scan described by `p` from index `from`.
pub fn scan(s: &[u8], from: usize, p: ScanFor) -> (r: usize)
    requires
        from <= s@.len(),
    ensures
        r == scan_until(s@, from as int, p),
        from <= r <= s@.len(),
        forall|k: int| from <= k < r ==> !scan_hit(p, s@[k]),
        r < s@.len() ==> scan_hit(p, s@[r as int]),
{
    let mut i: usize = from;
    loop
        invariant
            from <= i <= s@.len(),
            forall|k: int| from <= k < i ==> !scan_hit(p, s@[k]),
        ensures
            from <= i <= s@.len(),
            forall|k: int| from <= k < i ==> !scan_hit(p, s@[k]),
            i == s@.len() || scan_hit(p, s@[i as int]),
        decreases s@.len() - i,
    {
        if i >= s.len() {
            break ;
        }
        let b = *slice_index_get(s, i);
        let hit = match p {
            ScanFor::NonWs => !(b == 32 || b == 9 || b == 10 || b == 11 || b == 12 || b == 13),
            ScanFor::Ws => (b == 32 || b == 9 || b == 10 || b == 11 || b == 12 || b == 13),
            ScanFor::Byte(c) => b == c,
            ScanFor::NotByte(c) => b != c,
            ScanFor::NonCmd => !((65 <= b && b <= 90) || (97 <= b && b <= 122) || (48 <= b && b
                <= 57) || b == 45 || b == 95),
            ScanFor::NonAlpha => !((65 <= b && b <= 90) || (97 <= b && b <= 122)),
        };
        assert(hit == scan_hit(p, s@[i as int]));
        if hit {
            break ;
        }
        i += 1;
    }
    proof {
        scan_until_props(s@, from as int, p);
        let r = scan_until(s@, from as int, p);
        if r < i {
            assert(scan_hit(p, s@[r]));
            assert(false);
        }
        if i < r {
            assert(!scan_hit(p, s@[i as int]));
            assert(false);
        }
    }
    i
}

/// One past the last non-whitespace byte of `s[..j]`.
pub fn scan_trim_end(s: &[u8], j: usize) -> (r: usize)
    requires
        j <= s@.len(),
    ensures
        r == trim_end_idx(s@, j as int),
        r <= j,
{
    proof {
        trim_end_idx_props(s@, j as int);
    }
    let mut i: usize = j;
    while i > 0 && (s[i - 1] == 32 || s[i - 1] == 9 || s[i - 1] == 10 || s[i - 1] == 11 || s[i - 1]
        == 12 || s[i - 1] == 13)
        invariant
            0 <= i <= j <= s@.len(),
            trim_end_idx(s@, j as int) == trim_end_idx(s@, i as int),
        decreases i,
    {
        i -= 1;
    }
    i
}

/// The sub-slice of `s` with leading and trailing whitespace removed.
pub fn trim(s: &[u8]) -> (r: &[u8])
    ensures
        r@ == trimmed(s@),
{
    let a = scan(s, 0, ScanFor::NonWs);
    let b = scan_trim_end(s, s.len());
    if a < b {
        slice_subrange(s, a, b)
    } else {
        let r = slice_subrange(s, 0, 0);
        proof {
            assert(r@ =~= trimmed(s@));
        }
        r
    }
}

/// The sub-slice of `s` with leading whitespace removed.
pub fn trim_start(s: &[u8]) -> (r: &[u8])
    ensures
        r@ == trimmed_start(s@),
{
    let a = scan(s, 0, ScanFor::NonWs);
    let r = slice_subrange(s, a, s.len());
    proof {
        assert(r@ =~= trimmed_start(s@));
    }
    r
}

} // verus!
