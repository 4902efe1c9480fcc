//! Splitting byte text into lines, whitespace-separated tokens, and
//! comma-separated revision names.
use vstd::prelude::*;
use vstd::slice::{slice_subrange, slice_to_vec};
use crate::bytes::{is_ws, scan, scan_until, scan_until_props, trim, trimmed, ScanFor};

verus! {

/// The whitespace-separated tokens of `s[i..]`, no empties.
pub open spec fn split_ws_from(s: Seq<u8>, i: int) -> Seq<Seq<u8>>
    decreases s.len() - i,
    when 0 <= i <= s.len()
    via split_ws_from_decreases
{
    if i >= s.len() {
        Seq::empty()
    } else if is_ws(s[i]) {
        split_ws_from(s, i + 1)
    } else {
        let j = scan_until(s, i, ScanFor::Ws);
        seq![s.subrange(i, j)] + split_ws_from(s, j)
    }
}

#[via_fn]
proof fn split_ws_from_decreases(s: Seq<u8>, i: int) {
    if 0 <= i < s.len() {
        scan_until_props(s, i, ScanFor::Ws);
    }
}

/// The whitespace-separated tokens of `s`.
pub open spec fn split_ws_spec(s: Seq<u8>) -> Seq<Seq<u8>> {
    split_ws_from(s, 0)
}

/// Splits `s` on whitespace runs, dropping empties.
pub fn split_ws(s: &[u8]) -> (r: Vec<Vec<u8>>)
    ensures
        r.deep_view() == split_ws_spec(s@),
{
    let mut out: Vec<Vec<u8>> = Vec::new();
    let mut i: usize = 0;
    proof {
        assert(out.deep_view() =~~= Seq::<Seq<u8>>::empty());
    }
    loop
        invariant
            0 <= i <= s@.len(),
            split_ws_spec(s@) == out.deep_view() + split_ws_from(s@, i as int),
        ensures
            i == s@.len(),
            split_ws_spec(s@) == out.deep_view() + split_ws_from(s@, i as int),
        decreases s@.len() - i,
    {
        if i >= s.len() {
            break ;
        }
        let b = s[i];
        if b == 32 || b == 9 || b == 10 || b == 11 || b == 12 || b == 13 {
            i += 1;
        } else {
            let j = scan(s, i, ScanFor::Ws);
            let tok = slice_to_vec(slice_subrange(s, i, j));
            let ghost pre = out.deep_view();
            out.push(tok);
            proof {
                assert(out.deep_view() =~~= pre.push(s@.subrange(i as int, j as int)));
                assert(split_ws_from(s@, i as int) == seq![s@.subrange(i as int, j as int)]
                    + split_ws_from(s@, j as int));
                assert(out.deep_view() + split_ws_from(s@, j as int) =~~= pre + split_ws_from(
                    s@,
                    i as int,
                ));
            }
            i = j;
        }
    }
    proof {
        assert(split_ws_spec(s@) =~~= out.deep_view());
    }
    out
}

/// The comma-separated, whitespace-trimmed parts of `s[i..]` (empties kept).
pub open spec fn split_revs_from(s: Seq<u8>, i: int) -> Seq<Seq<u8>>
    decreases s.len() - i,
    when 0 <= i <= s.len()
    via split_revs_from_decreases
{
    let j = scan_until(s, i, ScanFor::Byte(44));
    let part = trimmed(s.subrange(i, j));
    if j >= s.len() {
        seq![part]
    } else {
        seq![part] + split_revs_from(s, j + 1)
    }
}

#[via_fn]
proof fn split_revs_from_decreases(s: Seq<u8>, i: int) {
    if 0 <= i <= s.len() {
        scan_until_props(s, i, ScanFor::Byte(44));
    }
}

/// The comma-separated, trimmed parts of `s`; an input without commas yields
/// one part (possibly empty).
pub open spec fn split_revs_spec(s: Seq<u8>) -> Seq<Seq<u8>> {
    split_revs_from(s, 0)
}

/// Splits revision-bracket contents on commas, trimming each part.
pub fn split_revs(s: &[u8]) -> (r: Vec<Vec<u8>>)
    ensures
        r.deep_view() == split_revs_spec(s@),
{
    let mut out: Vec<Vec<u8>> = Vec::new();
    let mut i: usize = 0;
    proof {
        assert(out.deep_view() + split_revs_from(s@, 0) =~~= split_revs_spec(s@));
    }
    loop
        invariant_except_break
            split_revs_spec(s@) == out.deep_view() + split_revs_from(s@, i as int),
        invariant
            0 <= i <= s@.len(),
        ensures
            split_revs_spec(s@) == out.deep_view(),
        decreases s@.len() - i,
    {
        let j = scan(s, i, ScanFor::Byte(44));
        let part = slice_to_vec(trim(slice_subrange(s, i, j)));
        let ghost pre = out.deep_view();
        out.push(part);
        proof {
            assert(out.deep_view() =~~= pre.push(trimmed(s@.subrange(i as int, j as int))));
        }
        if j >= s.len() {
            proof {
                assert(split_revs_from(s@, i as int) == seq![
                    trimmed(s@.subrange(i as int, j as int)),
                ]);
                assert(out.deep_view() =~~= pre + split_revs_from(s@, i as int));
                assert(out.deep_view() =~~= split_revs_spec(s@));
            }
            break ;
        }
        proof {
            assert(split_revs_from(s@, i as int) == seq![trimmed(s@.subrange(i as int, j as int))]
                + split_revs_from(s@, j + 1));
            assert(out.deep_view() + split_revs_from(s@, j + 1) =~~= pre + split_revs_from(
                s@,
                i as int,
            ));
        }
        i = j + 1;
    }
    out
}

/// Strips one trailing carriage return, as a `\r\n` terminator leaves one.
pub open spec fn strip_cr(t: Seq<u8>) -> Seq<u8> {
    if t.len() > 0 && t.last() == 13 {
        t.drop_last()
    } else {
        t
    }
}

/// The lines of `s[i..]`: terminated by `\n` or `\r\n` (terminator dropped);
/// a final line without terminator is kept as it stands.
pub open spec fn split_lines_from(s: Seq<u8>, i: int) -> Seq<Seq<u8>>
    decreases s.len() - i,
    when 0 <= i <= s.len()
    via split_lines_from_decreases
{
    if i >= s.len() {
        Seq::empty()
    } else {
        let j = scan_until(s, i, ScanFor::Byte(10));
        if j >= s.len() {
            seq![s.subrange(i, s.len() as int)]
        } else {
            seq![strip_cr(s.subrange(i, j))] + split_lines_from(s, j + 1)
        }
    }
}

#[via_fn]
proof fn split_lines_from_decreases(s: Seq<u8>, i: int) {
    if 0 <= i < s.len() {
        scan_until_props(s, i, ScanFor::Byte(10));
    }
}

/// The physical lines of a file's content.
pub open spec fn spec_lines(s: Seq<u8>) -> Seq<Seq<u8>> {
    split_lines_from(s, 0)
}

/// Splits file content into lines.
pub fn split_lines(s: &[u8]) -> (r: Vec<Vec<u8>>)
    ensures
        r.deep_view() == spec_lines(s@),
{
    let mut out: Vec<Vec<u8>> = Vec::new();
    let mut i: usize = 0;
    proof {
        assert(out.deep_view() + split_lines_from(s@, 0) =~~= spec_lines(s@));
    }
    loop
        invariant
            0 <= i <= s@.len(),
            spec_lines(s@) == out.deep_view() + split_lines_from(s@, i as int),
        ensures
            spec_lines(s@) == out.deep_view(),
        decreases s@.len() - i,
    {
        if i >= s.len() {
            proof {
                assert(out.deep_view() + split_lines_from(s@, i as int) =~~= out.deep_view());
            }
            break ;
        }
        let j = scan(s, i, ScanFor::Byte(10));
        if j >= s.len() {
            let part = slice_to_vec(slice_subrange(s, i, s.len()));
            let ghost pre = out.deep_view();
            out.push(part);
            proof {
                assert(out.deep_view() =~~= pre.push(s@.subrange(i as int, s@.len() as int)));
                assert(split_lines_from(s@, i as int) == seq![
                    s@.subrange(i as int, s@.len() as int),
                ]);
                assert(out.deep_view() =~~= pre + split_lines_from(s@, i as int));
            }
            i = s.len();
        } else {
            let endidx = if j > i && s[j - 1] == 13 {
                j - 1
            } else {
                j
            };
            let part = slice_to_vec(slice_subrange(s, i, endidx));
            let ghost pre = out.deep_view();
            out.push(part);
            proof {
                assert(s@.subrange(i as int, j as int).len() == j - i);
                if j > i && s@[j - 1] == 13 {
                    assert(s@.subrange(i as int, endidx as int) =~= strip_cr(
                        s@.subrange(i as int, j as int),
                    ));
                } else {
                    assert(s@.subrange(i as int, endidx as int) =~= strip_cr(
                        s@.subrange(i as int, j as int),
                    ));
                }
                assert(out.deep_view() =~~= pre.push(strip_cr(s@.subrange(i as int, j as int))));
                assert(split_lines_from(s@, i as int) == seq![
                    strip_cr(s@.subrange(i as int, j as int)),
                ] + split_lines_from(s@, j + 1));
                assert(out.deep_view() + split_lines_from(s@, j + 1) =~~= pre + split_lines_from(
                    s@,
                    i as int,
                ));
            }
            i = j + 1;
        }
    }
    out
}

/// The non-overlapping occurrences of `//` in `s`, scanning left to right.
pub open spec fn double_slash_positions(s: Seq<u8>, i: int) -> Seq<int>
    decreases s.len() - i,
    when 0 <= i
{
    if i + 2 > s.len() {
        Seq::empty()
    } else if s[i] == 47 && s[i + 1] == 47 {
        seq![i] + double_slash_positions(s, i + 2)
    } else {
        double_slash_positions(s, i + 1)
    }
}

/// First index at or after `i` where `//~` occurs, or the length of `s`.
pub open spec fn find_tilde_sigil(s: Seq<u8>, i: int) -> int
    decreases s.len() - i,
    when 0 <= i
{
    if i + 3 > s.len() {
        s.len() as int
    } else if s[i] == 47 && s[i + 1] == 47 && s[i + 2] == 126 {
        i
    } else {
        find_tilde_sigil(s, i + 1)
    }
}

/// Looks for the `//~` sigil; returns its index, or the length of `s`.
pub fn scan_tilde_sigil(s: &[u8]) -> (r: usize)
    ensures
        r == find_tilde_sigil(s@, 0),
        r <= s@.len(),
        r < s@.len() ==> r + 3 <= s@.len() && s@[r as int] == 47 && s@[r + 1] == 47 && s@[r + 2]
            == 126,
{
    if s.len() < 3 {
        assert(find_tilde_sigil(s@, 0) == s@.len());
        return s.len();
    }
    let mut i: usize = 0;
    loop
        invariant
            0 <= i <= s@.len(),
            s@.len() >= 3,
            find_tilde_sigil(s@, 0) == find_tilde_sigil(s@, i as int),
        ensures
            0 <= i <= s@.len(),
            find_tilde_sigil(s@, 0) == find_tilde_sigil(s@, i as int),
            i + 3 > s@.len() || (s@[i as int] == 47 && s@[i + 1] == 47 && s@[i + 2] == 126),
        decreases s@.len() - i,
    {
        if i > s.len() - 3 {
            break ;
        }
        if s[i] == 47 && s[i + 1] == 47 && s[i + 2] == 126 {
            break ;
        }
        i += 1;
    }
    if i > s.len() - 3 {
        proof {
            assert(find_tilde_sigil(s@, i as int) == s@.len());
        }
        s.len()
    } else {
        proof {
            assert(find_tilde_sigil(s@, i as int) == i);
        }
        i
    }
}

} // verus!
