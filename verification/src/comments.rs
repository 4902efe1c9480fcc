//! The parse result for one file: revision declarations and the per-revision
//! buckets of accumulated directives.
use vstd::prelude::*;
use vstd::slice::{slice_to_vec};
use crate::bytes::bytes_eq;
use crate::condition::{Condition, ConditionV};
use crate::errors::{err_at, ErrorKind, ParseError, ParseErrorV};
use crate::level::{Level, Mode};
use crate::pattern::{ErrorMatch, ErrorMatchV, Pattern, PatternV};
use crate::foreign::CompiledRegex;

verus! {

/// One stderr normalization rule: occurrences of the pattern are replaced by
/// the literal replacement.
#[derive(Debug)]
pub struct NormRule {
    pub pattern: CompiledRegex,
    pub replacement: Vec<u8>,
}

/// Mathematical image of a `NormRule`: the regex is its pattern text.
pub struct NormRuleV {
    pub pattern: Seq<u8>,
    pub replacement: Seq<u8>,
}

impl View for NormRule {
    type V = NormRuleV;

    open spec fn view(&self) -> NormRuleV {
        NormRuleV { pattern: self.pattern.pattern(), replacement: self.replacement@ }
    }
}

impl DeepView for NormRule {
    type V = NormRuleV;

    open spec fn deep_view(&self) -> NormRuleV {
        self.view()
    }
}

/// Directives accumulated for one revision-set key.
#[derive(Debug)]
pub struct Revisioned {
    /// The line on which this bucket was first created, for error reports.
    pub line: usize,
    /// Do not run the test if any of these conditions holds.
    pub ignore: Vec<Condition>,
    /// Run the test only if all of these conditions hold.
    pub only: Vec<Condition>,
    /// Expect one stderr file per pointer width.
    pub stderr_per_bitwidth: bool,
    /// Extra flags for the build.
    pub compile_flags: Vec<Vec<u8>>,
    /// Extra environment variables, as key/value pairs.
    pub env_vars: Vec<(Vec<u8>, Vec<u8>)>,
    /// Normalizations applied to stderr before comparing it.
    pub normalize_stderr: Vec<NormRule>,
    /// Patterns expected to be reported in another file, with the line that
    /// asked for them.
    pub error_in_other_files: Vec<(Pattern, usize)>,
    /// In-file diagnostic expectations.
    pub error_matches: Vec<ErrorMatch>,
    /// Ignore diagnostics below this level.
    pub require_annotations_for_level: Option<Level>,
    /// Auxiliary builds: path, crate kind, declaring line.
    pub aux_builds: Vec<(Vec<u8>, Vec<u8>, usize)>,
    /// Edition override and the line that set it.
    pub edition: Option<(Vec<u8>, usize)>,
    /// Run-mode override and the line that set it.
    pub mode: Option<(Mode, usize)>,
    /// The test needs assembly support.
    pub needs_asm_support: bool,
}

/// Mathematical image of a `Revisioned` bucket.
pub struct RevisionedV {
    pub line: usize,
    pub ignore: Seq<ConditionV>,
    pub only: Seq<ConditionV>,
    pub stderr_per_bitwidth: bool,
    pub compile_flags: Seq<Seq<u8>>,
    pub env_vars: Seq<(Seq<u8>, Seq<u8>)>,
    pub normalize_stderr: Seq<NormRuleV>,
    pub error_in_other_files: Seq<(PatternV, usize)>,
    pub error_matches: Seq<ErrorMatchV>,
    pub require_annotations_for_level: Option<Level>,
    pub aux_builds: Seq<(Seq<u8>, Seq<u8>, usize)>,
    pub edition: Option<(Seq<u8>, usize)>,
    pub mode: Option<(Mode, usize)>,
    pub needs_asm_support: bool,
}

impl View for Revisioned {
    type V = RevisionedV;

    open spec fn view(&self) -> RevisionedV {
        RevisionedV {
            line: self.line,
            ignore: self.ignore.deep_view(),
            only: self.only.deep_view(),
            stderr_per_bitwidth: self.stderr_per_bitwidth,
            compile_flags: self.compile_flags.deep_view(),
            env_vars: self.env_vars.deep_view(),
            normalize_stderr: self.normalize_stderr.deep_view(),
            error_in_other_files: self.error_in_other_files.deep_view(),
            error_matches: self.error_matches.deep_view(),
            require_annotations_for_level: self.require_annotations_for_level,
            aux_builds: self.aux_builds.deep_view(),
            edition: self.edition.deep_view(),
            mode: self.mode.deep_view(),
            needs_asm_support: self.needs_asm_support,
        }
    }
}

impl DeepView for Revisioned {
    type V = RevisionedV;

    open spec fn deep_view(&self) -> RevisionedV {
        self.view()
    }
}

/// The fresh bucket made when a revision-set key is first used on `line`.
pub open spec fn empty_revisioned(line: usize) -> RevisionedV {
    RevisionedV {
        line,
        ignore: Seq::empty(),
        only: Seq::empty(),
        stderr_per_bitwidth: false,
        compile_flags: Seq::empty(),
        env_vars: Seq::empty(),
        normalize_stderr: Seq::empty(),
        error_in_other_files: Seq::empty(),
        error_matches: Seq::empty(),
        require_annotations_for_level: None,
        aux_builds: Seq::empty(),
        edition: None,
        mode: None,
        needs_asm_support: false,
    }
}

impl Revisioned {
    /// A bucket with nothing in it yet, stamped with its creation line.
    pub fn new(line: usize) -> (r: Revisioned)
        ensures
            r@ == empty_revisioned(line),
    {
        let r = Revisioned {
            line,
            ignore: Vec::new(),
            only: Vec::new(),
            stderr_per_bitwidth: false,
            compile_flags: Vec::new(),
            env_vars: Vec::new(),
            normalize_stderr: Vec::new(),
            error_in_other_files: Vec::new(),
            error_matches: Vec::new(),
            require_annotations_for_level: None,
            aux_builds: Vec::new(),
            edition: None,
            mode: None,
            needs_asm_support: false,
        };
        proof {
            assert(r.ignore.deep_view() =~= Seq::<ConditionV>::empty());
            assert(r.only.deep_view() =~= Seq::<ConditionV>::empty());
            assert(r.compile_flags.deep_view() =~= Seq::<Seq<u8>>::empty());
            assert(r.env_vars.deep_view() =~= Seq::<(Seq<u8>, Seq<u8>)>::empty());
            assert(r.normalize_stderr.deep_view() =~= Seq::<NormRuleV>::empty());
            assert(r.error_in_other_files.deep_view() =~= Seq::<(PatternV, usize)>::empty());
            assert(r.error_matches.deep_view() =~= Seq::<ErrorMatchV>::empty());
            assert(r.aux_builds.deep_view() =~= Seq::<(Seq<u8>, Seq<u8>, usize)>::empty());
        }
        r
    }
}

/// One bucket together with its revision-set key. The empty key is the
/// default bucket that applies to every revision.
#[derive(Debug)]
pub struct RevEntry {
    pub key: Vec<Vec<u8>>,
    pub data: Revisioned,
}

/// Mathematical image of a `RevEntry`.
pub struct RevEntryV {
    pub key: Seq<Seq<u8>>,
    pub data: RevisionedV,
}

impl View for RevEntry {
    type V = RevEntryV;

    open spec fn view(&self) -> RevEntryV {
        RevEntryV { key: self.key.deep_view(), data: self.data@ }
    }
}

impl DeepView for RevEntry {
    type V = RevEntryV;

    open spec fn deep_view(&self) -> RevEntryV {
        self.view()
    }
}

/// The parse result for one file: the declared revision names (at most one
/// declaration per file) and the buckets, keyed by the literal revision list
/// that introduced them, in order of first use.
#[derive(Debug)]
pub struct Comments {
    pub revisions: Option<Vec<Vec<u8>>>,
    pub revisioned: Vec<RevEntry>,
}

/// Mathematical image of a `Comments` value.
pub struct CommentsV {
    pub revisions: Option<Seq<Seq<u8>>>,
    pub revisioned: Seq<RevEntryV>,
}

impl View for Comments {
    type V = CommentsV;

    open spec fn view(&self) -> CommentsV {
        CommentsV { revisions: self.revisions.deep_view(), revisioned: self.revisioned.deep_view() }
    }
}

/// First index whose bucket has exactly this key, or the number of buckets.
pub open spec fn find_bucket_from(bs: Seq<RevEntryV>, key: Seq<Seq<u8>>, i: int) -> int
    decreases bs.len() - i,
    when 0 <= i
{
    if i >= bs.len() {
        bs.len() as int
    } else if bs[i].key == key {
        i
    } else {
        find_bucket_from(bs, key, i + 1)
    }
}

/// Bucket lookup-or-create: the buckets afterwards, and the index of the one
/// for `key`. A fresh bucket is appended and stamped with `line`.
pub open spec fn spec_upsert(bs: Seq<RevEntryV>, key: Seq<Seq<u8>>, line: usize) -> (
    Seq<RevEntryV>,
    int,
) {
    let i = find_bucket_from(bs, key, 0);
    if i < bs.len() {
        (bs, i)
    } else {
        (bs.push(RevEntryV { key, data: empty_revisioned(line) }), bs.len() as int)
    }
}

/// Whether two revision-name lists are equal, element for element.
pub fn key_eq(a: &Vec<Vec<u8>>, b: &Vec<Vec<u8>>) -> (r: bool)
    ensures
        r == (a.deep_view() == b.deep_view()),
{
    if a.len() != b.len() {
        assert(a.deep_view().len() != b.deep_view().len());
        return false;
    }
    let mut i: usize = 0;
    while i < a.len()
        invariant
            0 <= i <= a@.len(),
            a@.len() == b@.len(),
            forall|j: int| 0 <= j < i ==> a.deep_view()[j] == b.deep_view()[j],
        decreases a@.len() - i,
    {
        let same = bytes_eq(a[i].as_slice(), b[i].as_slice());
        proof {
            assert(a.deep_view()[i as int] =~= a@[i as int]@);
            assert(b.deep_view()[i as int] =~= b@[i as int]@);
        }
        if !same {
            assert(a.deep_view()[i as int] != b.deep_view()[i as int]);
            return false;
        }
        assert(a.deep_view()[i as int] == b.deep_view()[i as int]);
        i += 1;
    }
    proof {
        assert(a.deep_view() =~= b.deep_view());
    }
    true
}

/// Whether a bucket keyed by `key` applies to revision `rev`: the empty key
/// applies to everything, a non-empty key only where it names the revision.
pub open spec fn key_matches(key: Seq<Seq<u8>>, rev: Seq<u8>) -> bool {
    key.len() == 0 || exists|k: int| 0 <= k < key.len() && key[k] == rev
}

/// Decides `key_matches`.
pub fn key_matches_exec(key: &Vec<Vec<u8>>, rev: &[u8]) -> (r: bool)
    ensures
        r == key_matches(key.deep_view(), rev@),
{
    if key.len() == 0 {
        return true;
    }
    let mut i: usize = 0;
    while i < key.len()
        invariant
            0 <= i <= key@.len(),
            forall|k: int| 0 <= k < i ==> key.deep_view()[k] != rev@,
        decreases key@.len() - i,
    {
        let same = bytes_eq(key[i].as_slice(), rev);
        proof {
            assert(key.deep_view()[i as int] =~= key@[i as int]@);
        }
        if same {
            assert(key.deep_view()[i as int] == rev@);
            return true;
        }
        assert(key.deep_view()[i as int] != rev@);
        i += 1;
    }
    assert(!key_matches(key.deep_view(), rev@));
    false
}

/// The indices of the buckets that apply to `rev`, from position `i` on.
pub open spec fn matching_idxs(bs: Seq<RevEntryV>, rev: Seq<u8>, i: int) -> Seq<int>
    decreases bs.len() - i,
    when 0 <= i
{
    if i >= bs.len() {
        Seq::empty()
    } else {
        let rest = matching_idxs(bs, rev, i + 1);
        if key_matches(bs[i].key, rev) {
            seq![i] + rest
        } else {
            rest
        }
    }
}

/// The `edition` values of the buckets that apply to `rev`, in bucket order,
/// from position `i` on.
pub open spec fn editions_of(bs: Seq<RevEntryV>, rev: Seq<u8>, i: int) -> Seq<(Seq<u8>, usize)>
    decreases bs.len() - i,
    when 0 <= i
{
    if i >= bs.len() {
        Seq::empty()
    } else {
        let rest = editions_of(bs, rev, i + 1);
        if key_matches(bs[i].key, rev) && bs[i].data.edition is Some {
            seq![bs[i].data.edition.unwrap()] + rest
        } else {
            rest
        }
    }
}

impl Comments {
    /// A parse result with nothing in it.
    pub fn new() -> (r: Comments)
        ensures
            r@.revisions is None,
            r@.revisioned == Seq::<RevEntryV>::empty(),
    {
        let r = Comments { revisions: None, revisioned: Vec::new() };
        proof {
            assert(r.revisioned.deep_view() =~= Seq::<RevEntryV>::empty());
        }
        r
    }

    /// The index of the bucket for `key`, creating it (stamped with `line`)
    /// on first use.
    pub fn bucket_index(&mut self, key: Vec<Vec<u8>>, line: usize) -> (idx: usize)
        ensures
            final(self)@.revisions == old(self)@.revisions,
            (final(self)@.revisioned, idx as int) == spec_upsert(
                old(self)@.revisioned,
                key.deep_view(),
                line,
            ),
            idx < final(self)@.revisioned.len(),
    {
        let ghost bs = self@.revisioned;
        let ghost keyv = key.deep_view();
        let mut i: usize = 0;
        while i < self.revisioned.len()
            invariant
                0 <= i <= self.revisioned@.len(),
                bs == self@.revisioned,
                keyv == key.deep_view(),
                find_bucket_from(bs, keyv, 0) == find_bucket_from(bs, keyv, i as int),
            decreases self.revisioned@.len() - i,
        {
            if key_eq(&self.revisioned[i].key, &key) {
                proof {
                    assert(bs[i as int].key == keyv);
                    assert(find_bucket_from(bs, keyv, i as int) == i);
                }
                return i;
            }
            proof {
                assert(bs[i as int].key != keyv);
            }
            i += 1;
        }
        proof {
            assert(find_bucket_from(bs, keyv, i as int) == bs.len());
        }
        let idx = self.revisioned.len();
        let ghost pre = self.revisioned.deep_view();
        self.revisioned.push(RevEntry { key, data: Revisioned::new(line) });
        proof {
            assert(self.revisioned.deep_view() =~= pre.push(
                RevEntryV { key: keyv, data: empty_revisioned(line) },
            ));
        }
        idx
    }

    /// The indices of the buckets whose key is empty or names `revision`, in
    /// order of first use.
    pub fn for_revision(&self, revision: &[u8]) -> (r: Vec<usize>)
        ensures
            ({
                let idxs = matching_idxs(self@.revisioned, revision@, 0);
                r@.len() == idxs.len() && (forall|j: int|
                    0 <= j < idxs.len() ==> r@[j] == idxs[j])
            }),
    {
        let ghost bs = self@.revisioned;
        let ghost full = matching_idxs(bs, revision@, 0);
        let ghost mut accm: Seq<int> = Seq::empty();
        let mut out: Vec<usize> = Vec::new();
        let mut i: usize = 0;
        proof {
            assert(full =~= accm + matching_idxs(bs, revision@, 0));
        }
        while i < self.revisioned.len()
            invariant
                0 <= i <= self.revisioned@.len(),
                bs == self@.revisioned,
                full == matching_idxs(bs, revision@, 0),
                full == accm + matching_idxs(bs, revision@, i as int),
                accm.len() == out@.len(),
                forall|j: int| 0 <= j < out@.len() ==> accm[j] == out@[j],
            decreases self.revisioned@.len() - i,
        {
            let m = key_matches_exec(&self.revisioned[i].key, revision);
            proof {
                assert(bs[i as int] == self.revisioned@[i as int].deep_view());
                assert(bs[i as int].key == self.revisioned@[i as int].key.deep_view());
            }
            if m {
                out.push(i);
                proof {
                    assert(matching_idxs(bs, revision@, i as int) == seq![i as int]
                        + matching_idxs(bs, revision@, i + 1));
                    accm = accm.push(i as int);
                    assert(full =~= accm + matching_idxs(bs, revision@, i + 1));
                }
            } else {
                proof {
                    assert(matching_idxs(bs, revision@, i as int) == matching_idxs(
                        bs,
                        revision@,
                        i + 1,
                    ));
                }
            }
            i += 1;
        }
        proof {
            assert(matching_idxs(bs, revision@, i as int).len() == 0);
            assert(full =~= accm);
        }
        out
    }

    /// The edition for `revision`: the first one set by an applicable bucket,
    /// else the given default (attributed to line 0). A second applicable
    /// bucket that also sets one is reported as an error at its line.
    pub fn edition(
        &self,
        errors: &mut Vec<ParseError>,
        revision: &[u8],
        default_edition: Option<Vec<u8>>,
    ) -> (r: Option<(Vec<u8>, usize)>)
        ensures
            ({
                let eds = editions_of(self@.revisioned, revision@, 0);
                &&& (match r {
                    Some(e) => eds.len() >= 1 && (e.0@, e.1) == eds[0] || (eds.len() == 0
                        && default_edition is Some && e.0@ == default_edition.unwrap()@ && e.1
                        == 0),
                    None => eds.len() == 0 && default_edition is None,
                })
                &&& final(errors).deep_view() == old(errors).deep_view() + (if eds.len() >= 2 {
                    seq![err_at(eds[1].1, ErrorKind::EditionTwiceAcrossRevisions)]
                } else {
                    Seq::<ParseErrorV>::empty()
                })
            }),
    {
        let ghost bs = self@.revisioned;
        let ghost eds = editions_of(bs, revision@, 0);
        let ghost mut seen: Seq<(Seq<u8>, usize)> = Seq::empty();
        let mut first: Option<(Vec<u8>, usize)> = None;
        let mut reported = false;
        let ghost pre_errors = errors.deep_view();
        let mut i: usize = 0;
        proof {
            assert(eds =~= seen + editions_of(bs, revision@, 0));
        }
        while i < self.revisioned.len()
            invariant
                0 <= i <= self.revisioned@.len(),
                bs == self@.revisioned,
                eds == editions_of(bs, revision@, 0),
                pre_errors == old(errors).deep_view(),
                eds == seen + editions_of(bs, revision@, i as int),
                (match first {
                    Some(e) => seen.len() >= 1 && (e.0@, e.1) == seen[0],
                    None => seen.len() == 0,
                }),
                reported == (seen.len() >= 2),
                errors.deep_view() == pre_errors + (if seen.len() >= 2 {
                    seq![err_at(seen[1].1, ErrorKind::EditionTwiceAcrossRevisions)]
                } else {
                    Seq::<ParseErrorV>::empty()
                }),
            decreases self.revisioned@.len() - i,
        {
            let m = key_matches_exec(&self.revisioned[i].key, revision);
            proof {
                assert(bs[i as int] == self.revisioned@[i as int].deep_view());
                assert(bs[i as int].key == self.revisioned@[i as int].key.deep_view());
                assert(bs[i as int].data.edition == self.revisioned@[i as int].data.edition.deep_view());
            }
            let entry = &self.revisioned[i];
            if m {
                match &entry.data.edition {
                    Some(ed) => {
                        proof {
                            assert(bs[i as int].data.edition.unwrap() == (ed.0.deep_view(), ed.1));
                            assert(ed.0.deep_view() =~= ed.0@);
                            assert(editions_of(bs, revision@, i as int) == seq![
                                bs[i as int].data.edition.unwrap(),
                            ] + editions_of(bs, revision@, i + 1));
                            seen = seen.push((ed.0@, ed.1));
                            assert(eds =~= seen + editions_of(bs, revision@, i + 1));
                        }
                        if first.is_none() {
                            first = Some((slice_to_vec(ed.0.as_slice()), ed.1));
                        } else if !reported {
                            crate::errors::push_err(
                                errors,
                                ed.1,
                                ErrorKind::EditionTwiceAcrossRevisions,
                            );
                            reported = true;
                        }
                    },
                    None => {
                        proof {
                            assert(editions_of(bs, revision@, i as int) == editions_of(
                                bs,
                                revision@,
                                i + 1,
                            ));
                        }
                    },
                }
            } else {
                proof {
                    assert(editions_of(bs, revision@, i as int) == editions_of(
                        bs,
                        revision@,
                        i + 1,
                    ));
                }
            }
            i += 1;
        }
        proof {
            assert(editions_of(bs, revision@, i as int).len() == 0);
            assert(eds =~= seen);
        }
        if first.is_some() {
            first
        } else {
            match default_edition {
                Some(d) => Some((d, 0)),
                None => None,
            }
        }
    }
}

} // verus!
