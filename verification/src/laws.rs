//! Properties of the parser that hold for every input, stated and proved
//! over the specification functions the executable contracts use.
use vstd::prelude::*;
use vstd::string::StringSliceAdditionalSpecFns;
use crate::comments::{CommentsV, RevEntryV, RevisionedV};
use crate::errors::{err_with, ErrorKind, ParseErrorV};
use crate::foreign::shell_tokens;
use crate::parse::{
    key_errors, revision_check_errors, spec_apply_command, spec_parse,
};

verus! {

/// Every name of `key[k..]` is declared: the per-key check reports nothing.
proof fn key_errors_empty(key: Seq<Seq<u8>>, rv: Seq<Seq<u8>>, bline: usize, k: int)
    requires
        0 <= k,
        forall|j: int| 0 <= j < key.len() ==> rv.contains(#[trigger] key[j]),
    ensures
        key_errors(key, rv, bline, k) == Seq::<ParseErrorV>::empty(),
    decreases key.len() - k,
{
    if k < key.len() {
        key_errors_empty(key, rv, bline, k + 1);
        assert(key_errors(key, rv, bline, k) =~= Seq::<ParseErrorV>::empty());
    }
}

/// A file whose buckets only ever name declared revisions passes the
/// end-of-scan consistency check: scoping directives to declared revisions
/// is never an error by itself.
pub proof fn lemma_declared_revisions_pass(
    bs: Seq<RevEntryV>,
    rv: Seq<Seq<u8>>,
    i: int,
)
    requires
        0 <= i,
        forall|b: int, j: int|
            0 <= b < bs.len() && 0 <= j < bs[b].key.len() ==> rv.contains(#[trigger] bs[b].key[j]),
    ensures
        revision_check_errors(bs, Some(rv), i) == Seq::<ParseErrorV>::empty(),
    decreases bs.len() - i,
{
    if i < bs.len() {
        key_errors_empty(bs[i].key, rv, bs[i].data.line, 0);
        lemma_declared_revisions_pass(bs, rv, i + 1);
        assert(revision_check_errors(bs, Some(rv), i) =~= Seq::<ParseErrorV>::empty());
    }
}

/// The per-key check reports an undeclared name of `key[j]`.
proof fn key_errors_report(key: Seq<Seq<u8>>, rv: Seq<Seq<u8>>, bline: usize, k: int, j: int)
    requires
        0 <= k <= j < key.len(),
        !rv.contains(key[j]),
    ensures
        key_errors(key, rv, bline, k).contains(
            err_with(bline, ErrorKind::UnknownRevision, key[j]),
        ),
    decreases j - k,
{
    let e = err_with(bline, ErrorKind::UnknownRevision, key[j]);
    let rest = key_errors(key, rv, bline, k + 1);
    if k == j {
        let here = seq![e];
        assert(key_errors(key, rv, bline, k) == here + rest);
        assert((here + rest)[0] == e);
    } else {
        key_errors_report(key, rv, bline, k + 1, j);
        let here = key_errors(key, rv, bline, k) ;
        let lead = if rv.contains(key[k]) {
            Seq::<ParseErrorV>::empty()
        } else {
            seq![err_with(bline, ErrorKind::UnknownRevision, key[k])]
        };
        assert(here == lead + rest);
        let idx = choose|x: int| 0 <= x < rest.len() && rest[x] == e;
        assert(here[lead.len() + idx] == e);
    }
}

/// A bucket key that names a revision never declared is reported: the
/// consistency check contains an `unknown revision` error carrying that name,
/// attributed to the line the bucket was first created on.
pub proof fn lemma_unknown_revision_reported(
    bs: Seq<RevEntryV>,
    rv: Seq<Seq<u8>>,
    i: int,
    b: int,
    j: int,
)
    requires
        0 <= i <= b < bs.len(),
        0 <= j < bs[b].key.len(),
        !rv.contains(bs[b].key[j]),
    ensures
        revision_check_errors(bs, Some(rv), i).contains(
            err_with(bs[b].data.line, ErrorKind::UnknownRevision, bs[b].key[j]),
        ),
    decreases b - i,
{
    let e = err_with(bs[b].data.line, ErrorKind::UnknownRevision, bs[b].key[j]);
    let here = key_errors(bs[i].key, rv, bs[i].data.line, 0);
    let rest = revision_check_errors(bs, Some(rv), i + 1);
    assert(revision_check_errors(bs, Some(rv), i) == here + rest);
    if i == b {
        key_errors_report(bs[b].key, rv, bs[b].data.line, 0, j);
        let idx = choose|x: int| 0 <= x < here.len() && here[x] == e;
        assert((here + rest)[idx] == e);
    } else {
        lemma_unknown_revision_reported(bs, rv, i + 1, b, j);
        let idx = choose|x: int| 0 <= x < rest.len() && rest[x] == e;
        assert((here + rest)[here.len() + idx] == e);
    }
}

/// Parsing is deterministic: the parse of a file's content is a function of
/// the bytes alone, so two parses of equal content agree exactly, errors and
/// all.
pub proof fn lemma_parse_deterministic(
    a: Seq<u8>,
    b: Seq<u8>,
    r1: (CommentsV, Seq<ParseErrorV>),
    r2: (CommentsV, Seq<ParseErrorV>),
)
    requires
        a == b,
        r1 == spec_parse(a),
        r2 == spec_parse(b),
    ensures
        r1 == r2,
{
}

/// `compile-flags` is a plural directive: a second occurrence in the same
/// bucket is no error, and the new tokens follow the old ones in order.
pub proof fn lemma_compile_flags_accumulate(d: RevisionedV, line: usize, args: Seq<u8>)
    requires
        shell_tokens(args) is Some,
    ensures
        ({
            let r = spec_apply_command(d, line, "compile-flags".spec_bytes(), args);
            r.0 == (RevisionedV {
                compile_flags: d.compile_flags + shell_tokens(args).unwrap(),
                ..d
            }) && r.1 == Seq::<ParseErrorV>::empty()
        }),
{
    reveal(spec_apply_command);
}

} // verus!
