//! The directive dispatcher and the line scanner driving it.
use vstd::prelude::*;
use vstd::slice::{slice_subrange, slice_to_vec};
use vstd::string::{StrSliceExecFns, StringSliceAdditionalSpecFns};
use crate::bytes::{
    bytes_eq_str, scan, scan_until, trim, trim_start, trimmed, trimmed_start, ScanFor,
};
use crate::comments::{
    spec_upsert, Comments, CommentsV, NormRule, NormRuleV, RevEntryV, Revisioned, RevisionedV,
};
use crate::condition::{spec_parse_condition, Condition};
use crate::errors::{err_at, err_with, push_err, push_err_with, ErrorKind, ParseError, ParseErrorV};
use crate::foreign::{utf8_valid, 
    damerau_levenshtein, edit_distance, parse_shell_tokens, regex_error, regex_valid,
    shell_tokens, CompiledRegex,
};
use crate::level::{spec_parse_level, Level, Mode};
use crate::num::{parse_i32, spec_parse_i32};
use crate::pattern::{parse_error_pattern, spec_parse_error_pattern, ErrorMatch, Pattern};
use crate::quoted::{parse_quoted, spec_parse_quoted};
use crate::split::{find_tilde_sigil, scan_tilde_sigil, split_revs, split_revs_spec, split_ws, split_ws_spec};

verus! {

/// The closed directive vocabulary, in the order used for typo suggestions.
pub open spec fn known_commands_spec() -> Seq<Seq<u8>> {
    seq![
        "compile-flags".spec_bytes(),
        "rustc-env".spec_bytes(),
        "normalize-stderr-test".spec_bytes(),
        "error-pattern".spec_bytes(),
        "error-in-other-file".spec_bytes(),
        "stderr-per-bitwidth".spec_bytes(),
        "run-rustfix".spec_bytes(),
        "needs-asm-support".spec_bytes(),
        "aux-build".spec_bytes(),
        "edition".spec_bytes(),
        "check-pass".spec_bytes(),
        "run".spec_bytes(),
        "require-annotations-for-level".spec_bytes(),
    ]
}

/// Builds the directive vocabulary.
fn known_commands() -> (r: Vec<Vec<u8>>)
    ensures
        r.deep_view() == known_commands_spec(),
        r@.len() == known_commands_spec().len(),
{
    let mut v: Vec<Vec<u8>> = Vec::new();
    v.push("compile-flags".as_bytes_vec());
    v.push("rustc-env".as_bytes_vec());
    v.push("normalize-stderr-test".as_bytes_vec());
    v.push("error-pattern".as_bytes_vec());
    v.push("error-in-other-file".as_bytes_vec());
    v.push("stderr-per-bitwidth".as_bytes_vec());
    v.push("run-rustfix".as_bytes_vec());
    v.push("needs-asm-support".as_bytes_vec());
    v.push("aux-build".as_bytes_vec());
    v.push("edition".as_bytes_vec());
    v.push("check-pass".as_bytes_vec());
    v.push("run".as_bytes_vec());
    v.push("require-annotations-for-level".as_bytes_vec());
    proof {
        assert(v.deep_view() =~~= known_commands_spec());
    }
    v
}

/// The closest of the first `n` names in `ks` by edit distance to `cmd`; on
/// a tie the one listed first wins.
pub open spec fn spec_best_of(ks: Seq<Seq<u8>>, cmd: Seq<u8>, n: int) -> Seq<u8>
    decreases n,
{
    if n <= 1 {
        ks[0]
    } else {
        let prev = spec_best_of(ks, cmd, n - 1);
        if edit_distance(ks[n - 1], cmd) < edit_distance(prev, cmd) {
            ks[n - 1]
        } else {
            prev
        }
    }
}

/// The suggestion offered for an unknown directive name.
pub open spec fn spec_best_match(cmd: Seq<u8>) -> Seq<u8> {
    spec_best_of(known_commands_spec(), cmd, known_commands_spec().len() as int)
}

/// The closest of the first `n` names in `cmds` to `cmd`, and its distance.
fn best_of(cmds: &Vec<Vec<u8>>, cmd: &[u8], n: usize) -> (r: (Vec<u8>, usize))
    requires
        1 <= n <= cmds@.len(),
    ensures
        r.0@ == spec_best_of(cmds.deep_view(), cmd@, n as int),
        r.1 as nat == edit_distance(r.0@, cmd@),
    decreases n,
{
    if n == 1 {
        let d = damerau_levenshtein(cmds[0].as_slice(), cmd);
        let b = slice_to_vec(cmds[0].as_slice());
        proof {
            assert(cmds.deep_view()[0] =~= cmds@[0]@);
        }
        (b, d)
    } else {
        let (prev, pd) = best_of(cmds, cmd, n - 1);
        let d = damerau_levenshtein(cmds[n - 1].as_slice(), cmd);
        proof {
            assert(cmds.deep_view()[n - 1] =~= cmds@[n - 1]@);
        }
        if d < pd {
            let b = slice_to_vec(cmds[n - 1].as_slice());
            (b, d)
        } else {
            (prev, pd)
        }
    }
}

/// Computes the typo suggestion for an unknown directive name.
fn best_match(cmd: &[u8]) -> (r: Vec<u8>)
    ensures
        r@ == spec_best_match(cmd@),
{
    let cmds = known_commands();
    let (b, _d) = best_of(&cmds, cmd, cmds.len());
    b
}

/// The error list for one optional error kind at `line`.
pub open spec fn optseq(line: usize, e: Option<ErrorKind>) -> Seq<ParseErrorV> {
    match e {
        Some(k) => seq![err_at(line, k)],
        None => Seq::empty(),
    }
}

/// The key/value pairs and errors that `rustc-env` yields for its
/// whitespace-separated tokens: each token splits at its first `=`; one
/// without `=` is an error and contributes no pair.
pub open spec fn spec_env_pairs(toks: Seq<Seq<u8>>, line: usize, i: int) -> (
    Seq<(Seq<u8>, Seq<u8>)>,
    Seq<ParseErrorV>,
)
    decreases toks.len() - i,
    when 0 <= i
{
    if i >= toks.len() {
        (Seq::empty(), Seq::empty())
    } else {
        let r = spec_env_pairs(toks, line, i + 1);
        let t = toks[i];
        let j = scan_until(t, 0, ScanFor::Byte(61));
        if j < t.len() {
            (seq![(t.take(j), t.skip(j + 1))] + r.0, r.1)
        } else {
            (r.0, seq![err_at(line, ErrorKind::EnvVarNotKeyValue)] + r.1)
        }
    }
}

/// What `normalize-stderr-test` does to the bucket: parse `"from" -> "to"`,
/// report quoting, separator, trailing-text and regex errors, and append the
/// rule exactly when the pattern compiles.
#[verifier::opaque]
pub open spec fn spec_normalize(d: RevisionedV, line: usize, args: Seq<u8>) -> (
    RevisionedV,
    Seq<ParseErrorV>,
) {
    let q = spec_parse_quoted(args);
    let errs1 = optseq(line, q.2);
    if !(q.1.len() >= 2 && q.1[0] == 45 && q.1[1] == 62) {
        (d, errs1 + seq![err_at(line, ErrorKind::NormalizeMissingArrow)])
    } else {
        let to_part = trimmed_start(q.1.skip(2));
        let q2 = spec_parse_quoted(to_part);
        let errs2 = optseq(line, q2.2);
        let errs3 = if q2.1.len() > 0 {
            seq![err_with(line, ErrorKind::TrailingAfterReplacement, q2.1)]
        } else {
            Seq::<ParseErrorV>::empty()
        };
        if regex_valid(q.0) {
            (
                RevisionedV {
                    normalize_stderr: d.normalize_stderr.push(
                        NormRuleV { pattern: q.0, replacement: q2.0 },
                    ),
                    ..d
                },
                errs1 + errs2 + errs3,
            )
        } else {
            (
                d,
                errs1 + errs2 + errs3 + seq![
                    err_with(line, ErrorKind::InvalidRegex, regex_error(q.0).unwrap()),
                ],
            )
        }
    }
}

/// What one resolved directive does to its bucket, and the errors it reports.
/// The name is matched against the fixed vocabulary, then against the
/// `ignore-`/`only-` condition forms; anything else is unknown and yields a
/// suggestion.
#[verifier::opaque]
pub open spec fn spec_apply_command(d: RevisionedV, line: usize, cmd: Seq<u8>, args: Seq<u8>) -> (
    RevisionedV,
    Seq<ParseErrorV>,
) {
    if cmd == "compile-flags".spec_bytes() {
        match shell_tokens(args) {
            Some(ts) => (RevisionedV { compile_flags: d.compile_flags + ts, ..d }, Seq::empty()),
            None => (d, seq![err_with(line, ErrorKind::UnclosedQuotationMark, args)]),
        }
    } else if cmd == "rustc-env".spec_bytes() {
        let r = spec_env_pairs(split_ws_spec(args), line, 0);
        (RevisionedV { env_vars: d.env_vars + r.0, ..d }, r.1)
    } else if cmd == "normalize-stderr-test".spec_bytes() {
        spec_normalize(d, line, args)
    } else if cmd == "error-pattern".spec_bytes() {
        (d, seq![err_at(line, ErrorKind::ErrorPatternRenamed)])
    } else if cmd == "error-in-other-file".spec_bytes() {
        let p = spec_parse_error_pattern(line, trimmed(args));
        (
            RevisionedV { error_in_other_files: d.error_in_other_files.push((p.0, line)), ..d },
            p.1,
        )
    } else if cmd == "stderr-per-bitwidth".spec_bytes() {
        (
            RevisionedV { stderr_per_bitwidth: true, ..d },
            if d.stderr_per_bitwidth {
                seq![err_at(line, ErrorKind::StderrPerBitwidthTwice)]
            } else {
                Seq::<ParseErrorV>::empty()
            },
        )
    } else if cmd == "run-rustfix".spec_bytes() {
        (
            RevisionedV { mode: Some((Mode::Fix, line)), ..d },
            if d.mode is Some {
                seq![err_at(line, ErrorKind::ModeTwice)]
            } else {
                Seq::<ParseErrorV>::empty()
            },
        )
    } else if cmd == "needs-asm-support".spec_bytes() {
        (
            RevisionedV { needs_asm_support: true, ..d },
            if d.needs_asm_support {
                seq![err_at(line, ErrorKind::NeedsAsmSupportTwice)]
            } else {
                Seq::<ParseErrorV>::empty()
            },
        )
    } else if cmd == "aux-build".spec_bytes() {
        let j = scan_until(args, 0, ScanFor::Byte(58));
        let entry = if j < args.len() {
            (args.take(j), args.skip(j + 1), line)
        } else {
            (args, "lib".spec_bytes(), line)
        };
        (RevisionedV { aux_builds: d.aux_builds.push(entry), ..d }, Seq::empty())
    } else if cmd == "edition".spec_bytes() {
        (
            RevisionedV { edition: Some((args, line)), ..d },
            if d.edition is Some {
                seq![err_at(line, ErrorKind::EditionTwice)]
            } else {
                Seq::<ParseErrorV>::empty()
            },
        )
    } else if cmd == "check-pass".spec_bytes() {
        (
            RevisionedV { mode: Some((Mode::Pass, line)), ..d },
            if d.mode is Some {
                seq![err_at(line, ErrorKind::ModeTwice)]
            } else {
                Seq::<ParseErrorV>::empty()
            },
        )
    } else if cmd == "run".spec_bytes() {
        let errs = if d.mode is Some {
            seq![err_at(line, ErrorKind::ModeTwice)]
        } else {
            Seq::<ParseErrorV>::empty()
        };
        if args.len() == 0 {
            (RevisionedV { mode: Some((Mode::Run { exit_code: 0 }, line)), ..d }, errs)
        } else {
            match spec_parse_i32(args) {
                Some(c) => (
                    RevisionedV { mode: Some((Mode::Run { exit_code: c }, line)), ..d },
                    errs,
                ),
                None => (d, errs + seq![err_with(line, ErrorKind::InvalidExitCode, args)]),
            }
        }
    } else if cmd == "require-annotations-for-level".spec_bytes() {
        let errs = if d.require_annotations_for_level is Some {
            seq![err_at(line, ErrorKind::RequireAnnotationsTwice)]
        } else {
            Seq::<ParseErrorV>::empty()
        };
        match spec_parse_level(trimmed(args)) {
            Some(l) => (RevisionedV { require_annotations_for_level: Some(l), ..d }, errs),
            None => (d, errs + seq![err_at(line, ErrorKind::InvalidLevel)]),
        }
    } else if "ignore-".spec_bytes().is_prefix_of(cmd) {
        match spec_parse_condition(cmd.skip("ignore-".spec_bytes().len() as int)) {
            Ok(c) => (RevisionedV { ignore: d.ignore.push(c), ..d }, Seq::empty()),
            Err(k) => (d, seq![err_at(line, k)]),
        }
    } else if "only-".spec_bytes().is_prefix_of(cmd) {
        match spec_parse_condition(cmd.skip("only-".spec_bytes().len() as int)) {
            Ok(c) => (RevisionedV { only: d.only.push(c), ..d }, Seq::empty()),
            Err(k) => (d, seq![err_at(line, k)]),
        }
    } else {
        (d, seq![err_with(line, ErrorKind::UnknownCommand, spec_best_match(cmd))])
    }
}

/// What a leading revision bracket `[a,b]` yields: the trimmed names, the
/// text after the bracket (leading whitespace dropped), and whether a `[`
/// had no matching `]` (the text is then handed back unchanged).
pub struct RevsParse {
    pub names: Seq<Seq<u8>>,
    pub rest: Seq<u8>,
    pub err: bool,
}

/// Reads an optional leading revision bracket.
pub open spec fn spec_parse_revisions(s: Seq<u8>) -> RevsParse {
    if s.len() > 0 && s[0] == 91 {
        let e = scan_until(s, 1, ScanFor::Byte(93));
        if e >= s.len() {
            RevsParse { names: Seq::empty(), rest: s, err: true }
        } else {
            RevsParse {
                names: split_revs_spec(s.subrange(1, e)),
                rest: trimmed_start(s.skip(e + 1)),
                err: false,
            }
        }
    } else {
        RevsParse { names: Seq::empty(), rest: s, err: false }
    }
}

/// Parses an optional leading revision bracket.
pub fn parse_revisions<'a>(s: &'a [u8]) -> (r: (Vec<Vec<u8>>, &'a [u8], bool))
    ensures
        ({
            let sp = spec_parse_revisions(s@);
            r.0.deep_view() == sp.names && r.1@ == sp.rest && r.2 == sp.err
        }),
{
    if s.len() > 0 && s[0] == 91 {
        let e = scan(s, 1, ScanFor::Byte(93));
        if e >= s.len() {
            let empty: Vec<Vec<u8>> = Vec::new();
            proof {
                assert(empty.deep_view() =~~= Seq::<Seq<u8>>::empty());
            }
            (empty, s, true)
        } else {
            let names = split_revs(slice_subrange(s, 1, e));
            let rest = trim_start(slice_subrange(s, e + 1, s.len()));
            proof {
                assert(s@.subrange(e + 1, s@.len() as int) =~= s@.skip(e + 1));
            }
            (names, rest, false)
        }
    } else {
        let empty: Vec<Vec<u8>> = Vec::new();
        proof {
            assert(empty.deep_view() =~~= Seq::<Seq<u8>>::empty());
        }
        (empty, s, false)
    }
}

/// The level, pattern and target line read from annotation text that already
/// resolved its target line to `match_line`: `LEVEL: pattern` with a
/// case-sensitive level, a `:` and a non-empty pattern. On success the
/// expectation is appended and `match_line` becomes the new fallthrough
/// target; error paths leave bucket and fallthrough alone.
#[verifier::opaque]
pub open spec fn spec_pattern_rest(
    d: RevisionedV,
    line: usize,
    ft: Option<usize>,
    match_line: usize,
    text: Seq<u8>,
) -> (RevisionedV, Option<usize>, Seq<ParseErrorV>) {
    let t = trimmed_start(text);
    let lvl_end = scan_until(t, 0, ScanFor::NonAlpha);
    if lvl_end >= t.len() {
        (d, ft, seq![err_at(line, ErrorKind::PatternWithoutLevel)])
    } else {
        match spec_parse_level(t.take(lvl_end)) {
            None => (d, ft, seq![err_at(line, ErrorKind::InvalidLevel)]),
            Some(lv) => {
                let rest = t.skip(lvl_end);
                if !(rest.len() > 0 && rest[0] == 58) {
                    (d, ft, seq![err_at(line, ErrorKind::NoColonAfterLevel)])
                } else {
                    let pt = trimmed(rest.skip(1));
                    let e0 = if pt.len() == 0 {
                        seq![err_at(line, ErrorKind::NoPattern)]
                    } else {
                        Seq::<ParseErrorV>::empty()
                    };
                    let p = spec_parse_error_pattern(line, pt);
                    (
                        RevisionedV {
                            error_matches: d.error_matches.push(
                                crate::pattern::ErrorMatchV {
                                    pattern: p.0,
                                    level: lv,
                                    definition_line: line,
                                    line: match_line,
                                },
                            ),
                            ..d
                        },
                        Some(match_line),
                        e0 + p.1,
                    )
                }
            },
        }
    }
}

/// What a `//~` annotation does: resolve the target line (`|` reuses the
/// fallthrough target, a run of `^` counts lines upward, otherwise the
/// annotation's own line), then read `LEVEL: pattern`.
#[verifier::opaque]
pub open spec fn spec_parse_pattern(
    d: RevisionedV,
    line: usize,
    ft: Option<usize>,
    text: Seq<u8>,
) -> (RevisionedV, Option<usize>, Seq<ParseErrorV>) {
    if text.len() == 0 {
        (d, ft, seq![err_at(line, ErrorKind::NoPattern)])
    } else if text[0] == 124 {
        match ft {
            None => (d, ft, seq![err_at(line, ErrorKind::FallthroughWithoutParent)]),
            Some(f) => spec_pattern_rest(d, line, ft, f, text.skip(1)),
        }
    } else if text[0] == 94 {
        let off = scan_until(text, 0, ScanFor::NotByte(94));
        if off < line {
            spec_pattern_rest(d, line, ft, (line - off) as usize, text.skip(off))
        } else {
            (d, ft, seq![err_at(line, ErrorKind::OffsetOutOfRange)])
        }
    } else {
        spec_pattern_rest(d, line, ft, line, text)
    }
}

/// Reads `LEVEL: pattern` once the target line is known.
fn pattern_rest(
    d: &mut Revisioned,
    errors: &mut Vec<ParseError>,
    line: usize,
    ft: &mut Option<usize>,
    match_line: usize,
    text: &[u8],
)
    ensures
        ({
            let r = spec_pattern_rest(old(d)@, line, *old(ft), match_line, text@);
            final(d)@ == r.0 && *final(ft) == r.1 && final(errors).deep_view() == old(
                errors,
            ).deep_view() + r.2
        }),
{
    proof {
        reveal(spec_pattern_rest);
    }
    let ghost pre = errors.deep_view();
    let ghost d0 = d@;
    let t = trim_start(text);
    let lvl_end = scan(t, 0, ScanFor::NonAlpha);
    if lvl_end >= t.len() {
        push_err(errors, line, ErrorKind::PatternWithoutLevel);
        proof {
            push_is_concat(pre, err_at(line, ErrorKind::PatternWithoutLevel));
        }
        return ;
    }
    let lvl = Level::parse(slice_subrange(t, 0, lvl_end));
    proof {
        assert(t@.subrange(0, lvl_end as int) =~= t@.take(lvl_end as int));
    }
    match lvl {
        None => {
            push_err(errors, line, ErrorKind::InvalidLevel);
            proof {
                push_is_concat(pre, err_at(line, ErrorKind::InvalidLevel));
            }
        },
        Some(lv) => {
            let rest = slice_subrange(t, lvl_end, t.len());
            proof {
                assert(rest@ =~= t@.skip(lvl_end as int));
            }
            if !(rest.len() > 0 && rest[0] == 58) {
                push_err(errors, line, ErrorKind::NoColonAfterLevel);
                proof {
                    push_is_concat(pre, err_at(line, ErrorKind::NoColonAfterLevel));
                }
                return ;
            }
            let pt = trim(slice_subrange(rest, 1, rest.len()));
            proof {
                assert(rest@.subrange(1, rest@.len() as int) =~= rest@.skip(1));
            }
            let empty_pat = pt.len() == 0;
            if empty_pat {
                push_err(errors, line, ErrorKind::NoPattern);
            }
            let ghost e0 = if empty_pat {
                seq![err_at(line, ErrorKind::NoPattern)]
            } else {
                Seq::<ParseErrorV>::empty()
            };
            let p = parse_error_pattern(errors, line, pt);
            let ghost pv = p@;
            let ghost pre_m = d.error_matches.deep_view();
            d.error_matches.push(
                ErrorMatch { pattern: p, level: lv, definition_line: line, line: match_line },
            );
            *ft = Some(match_line);
            proof {
                assert(d.error_matches.deep_view() =~~= pre_m.push(
                    crate::pattern::ErrorMatchV {
                        pattern: pv,
                        level: lv,
                        definition_line: line,
                        line: match_line,
                    },
                ));
                assert(d@ == (RevisionedV {
                    error_matches: d0.error_matches.push(
                        crate::pattern::ErrorMatchV {
                            pattern: pv,
                            level: lv,
                            definition_line: line,
                            line: match_line,
                        },
                    ),
                    ..d0
                }));
                assert(errors.deep_view() =~= pre + (e0 + spec_parse_error_pattern(
                    line,
                    pt@,
                ).1));
            }
        },
    }
}

/// Handles one `//~` annotation against its bucket.
pub fn parse_pattern(
    d: &mut Revisioned,
    errors: &mut Vec<ParseError>,
    line: usize,
    ft: &mut Option<usize>,
    text: &[u8],
)
    ensures
        ({
            let r = spec_parse_pattern(old(d)@, line, *old(ft), text@);
            final(d)@ == r.0 && *final(ft) == r.1 && final(errors).deep_view() == old(
                errors,
            ).deep_view() + r.2
        }),
{
    proof {
        reveal(spec_parse_pattern);
    }
    let ghost pre = errors.deep_view();
    if text.len() == 0 {
        push_err(errors, line, ErrorKind::NoPattern);
        proof {
            push_is_concat(pre, err_at(line, ErrorKind::NoPattern));
        }
    } else if text[0] == 124 {
        let fval = *ft;
        match fval {
            None => {
                push_err(errors, line, ErrorKind::FallthroughWithoutParent);
                proof {
                    push_is_concat(pre, err_at(line, ErrorKind::FallthroughWithoutParent));
                }
            },
            Some(f) => {
                let rest = slice_subrange(text, 1, text.len());
                proof {
                    assert(rest@ =~= text@.skip(1));
                }
                pattern_rest(d, errors, line, ft, f, rest);
            },
        }
    } else if text[0] == 94 {
        let off = scan(text, 0, ScanFor::NotByte(94));
        if off < line {
            let rest = slice_subrange(text, off, text.len());
            proof {
                assert(rest@ =~= text@.skip(off as int));
            }
            pattern_rest(d, errors, line, ft, line - off, rest);
        } else {
            push_err(errors, line, ErrorKind::OffsetOutOfRange);
            proof {
                push_is_concat(pre, err_at(line, ErrorKind::OffsetOutOfRange));
            }
        }
    } else {
        pattern_rest(d, errors, line, ft, line, text);
    }
}

proof fn push_is_concat<T>(a: Seq<T>, x: T)
    ensures
        a.push(x) == a + seq![x],
{
    assert(a.push(x) =~= a + seq![x]);
}

/// Applies `rustc-env` arguments to the bucket.
fn apply_rustc_env(d: &mut Revisioned, errors: &mut Vec<ParseError>, line: usize, args: &[u8])
    ensures
        ({
            let r = spec_env_pairs(split_ws_spec(args@), line, 0);
            final(d)@ == (RevisionedV { env_vars: old(d)@.env_vars + r.0, ..old(d)@ })
                && final(errors).deep_view() == old(errors).deep_view() + r.1
        }),
{
    let ghost pre = errors.deep_view();
    let ghost d0 = d@;
    let toks = split_ws(args);
    let ghost tv = toks.deep_view();
    let ghost full = spec_env_pairs(tv, line, 0);
    let ghost mut accp: Seq<(Seq<u8>, Seq<u8>)> = Seq::empty();
    let ghost mut acce: Seq<ParseErrorV> = Seq::empty();
    let ghost pre_env = d0.env_vars;
    proof {
        assert(full.0 =~= accp + spec_env_pairs(tv, line, 0).0);
        assert(full.1 =~= acce + spec_env_pairs(tv, line, 0).1);
        assert(d@.env_vars =~= pre_env + accp);
        assert(errors.deep_view() =~= pre + acce);
    }
    let mut i: usize = 0;
    while i < toks.len()
        invariant
            0 <= i <= toks@.len(),
            tv == toks.deep_view(),
            full == spec_env_pairs(tv, line, 0),
            full.0 == accp + spec_env_pairs(tv, line, i as int).0,
            full.1 == acce + spec_env_pairs(tv, line, i as int).1,
            d@ == (RevisionedV { env_vars: pre_env + accp, ..d0 }),
            pre_env == d0.env_vars,
            errors.deep_view() == pre + acce,
        decreases toks@.len() - i,
    {
        let t = &toks[i];
        proof {
            assert(tv[i as int] =~= t@);
        }
        let j = scan(t.as_slice(), 0, ScanFor::Byte(61));
        if j < t.len() {
            let k = slice_to_vec(slice_subrange(t.as_slice(), 0, j));
            let v = slice_to_vec(slice_subrange(t.as_slice(), j + 1, t.len()));
            let ghost pre_ev = d.env_vars.deep_view();
            d.env_vars.push((k, v));
            proof {
                assert(k@ =~= tv[i as int].take(j as int));
                assert(v@ =~= tv[i as int].skip(j + 1));
                assert(d.env_vars.deep_view() =~~= pre_ev.push(
                    (tv[i as int].take(j as int), tv[i as int].skip(j + 1)),
                ));
                assert(spec_env_pairs(tv, line, i as int).0 == seq![
                    (tv[i as int].take(j as int), tv[i as int].skip(j + 1)),
                ] + spec_env_pairs(tv, line, i + 1).0);
                accp = accp.push((tv[i as int].take(j as int), tv[i as int].skip(j + 1)));
                assert(full.0 =~= accp + spec_env_pairs(tv, line, i + 1).0);
                assert(d@.env_vars =~= pre_env + accp);
                assert(d@ == RevisionedV { env_vars: pre_env + accp, ..d0 });
            }
        } else {
            push_err(errors, line, ErrorKind::EnvVarNotKeyValue);
            proof {
                acce = acce.push(err_at(line, ErrorKind::EnvVarNotKeyValue));
                assert(full.1 =~= acce + spec_env_pairs(tv, line, i + 1).1);
                assert(errors.deep_view() =~= pre + acce);
            }
        }
        i += 1;
    }
    proof {
        assert(spec_env_pairs(tv, line, i as int).0.len() == 0);
        assert(spec_env_pairs(tv, line, i as int).1.len() == 0);
        assert(accp =~= full.0);
        assert(acce =~= full.1);
    }
}

/// Applies `normalize-stderr-test` arguments to the bucket.
fn apply_normalize(d: &mut Revisioned, errors: &mut Vec<ParseError>, line: usize, args: &[u8])
    ensures
        ({
            let r = spec_normalize(old(d)@, line, args@);
            final(d)@ == r.0 && final(errors).deep_view() == old(errors).deep_view() + r.1
        }),
{
    proof {
        reveal(spec_normalize);
    }
    let ghost pre = errors.deep_view();
    let ghost d0 = d@;
    let (from, rest, e1) = parse_quoted(args);
    if let Some(k) = e1 {
        push_err(errors, line, k);
    }
    let ghost errs1 = optseq(line, e1);
    proof {
        assert(errors.deep_view() =~= pre + errs1);
    }
    if rest.len() >= 2 && rest[0] == 45 && rest[1] == 62 {
        let to_part = trim_start(slice_subrange(rest, 2, rest.len()));
        proof {
            assert(rest@.subrange(2, rest@.len() as int) =~= rest@.skip(2));
        }
        let (to, rest2, e2) = parse_quoted(to_part);
        if let Some(k) = e2 {
            push_err(errors, line, k);
        }
        let ghost errs2 = optseq(line, e2);
        proof {
            assert(errors.deep_view() =~= pre + (errs1 + errs2));
        }
        let trailing = rest2.len() > 0;
        if trailing {
            push_err_with(errors, line, ErrorKind::TrailingAfterReplacement, slice_to_vec(rest2));
        }
        let ghost errs3 = if trailing {
            seq![err_with(line, ErrorKind::TrailingAfterReplacement, rest2@)]
        } else {
            Seq::<ParseErrorV>::empty()
        };
        proof {
            assert(errors.deep_view() =~= pre + (errs1 + errs2 + errs3));
        }
        match CompiledRegex::compile(from.as_slice()) {
            Ok(re) => {
                let ghost pre_n = d.normalize_stderr.deep_view();
                d.normalize_stderr.push(NormRule { pattern: re, replacement: to });
                proof {
                    assert(d.normalize_stderr.deep_view() =~~= pre_n.push(
                        NormRuleV { pattern: from@, replacement: to@ },
                    ));
                    assert(d@ == RevisionedV {
                        normalize_stderr: d0.normalize_stderr.push(
                            NormRuleV { pattern: from@, replacement: to@ },
                        ),
                        ..d0
                    });
                }
            },
            Err(msg) => {
                let ghost m = msg@;
                push_err_with(errors, line, ErrorKind::InvalidRegex, msg);
                proof {
                    assert(errors.deep_view() =~= pre + (errs1 + errs2 + errs3 + seq![
                        err_with(line, ErrorKind::InvalidRegex, m),
                    ]));
                }
            },
        }
    } else {
        push_err(errors, line, ErrorKind::NormalizeMissingArrow);
        proof {
            assert(errors.deep_view() =~= pre + (errs1 + seq![
                err_at(line, ErrorKind::NormalizeMissingArrow),
            ]));
        }
    }
}

/// Applies one resolved directive to its bucket, recording its errors.
#[verifier::rlimit(100)]
#[verifier::spinoff_prover]
pub fn apply_command(
    d: &mut Revisioned,
    errors: &mut Vec<ParseError>,
    line: usize,
    cmd: &[u8],
    args: &[u8],
)
    ensures
        ({
            let r = spec_apply_command(old(d)@, line, cmd@, args@);
            final(d)@ == r.0 && final(errors).deep_view() == old(errors).deep_view() + r.1
        }),
{
    proof {
        reveal(spec_apply_command);
    }
    let ghost pre = errors.deep_view();
    let ghost d0 = d@;
    if bytes_eq_str(cmd, "compile-flags") {
        match parse_shell_tokens(args) {
            Some(mut ts) => {
                let ghost pre_flags = d.compile_flags.deep_view();
                let ghost tsv = ts.deep_view();
                d.compile_flags.append(&mut ts);
                proof {
                    assert(d.compile_flags.deep_view() =~~= pre_flags + tsv);
                    assert(d@ == RevisionedV { compile_flags: d0.compile_flags + tsv, ..d0 });
                    assert(errors.deep_view() =~= pre + Seq::<ParseErrorV>::empty());
                }
            },
            None => {
                push_err_with(errors, line, ErrorKind::UnclosedQuotationMark, slice_to_vec(args));
                proof {
                    push_is_concat(pre, err_with(line, ErrorKind::UnclosedQuotationMark, args@));
                }
            },
        }
    } else if bytes_eq_str(cmd, "rustc-env") {
        apply_rustc_env(d, errors, line, args);
    } else if bytes_eq_str(cmd, "normalize-stderr-test") {
        apply_normalize(d, errors, line, args);
    } else if bytes_eq_str(cmd, "error-pattern") {
        push_err(errors, line, ErrorKind::ErrorPatternRenamed);
        proof {
            push_is_concat(pre, err_at(line, ErrorKind::ErrorPatternRenamed));
        }
    } else if bytes_eq_str(cmd, "error-in-other-file") {
        let t = trim(args);
        let p = parse_error_pattern(errors, line, t);
        let ghost pv = p@;
        let ghost pre_e = d.error_in_other_files.deep_view();
        d.error_in_other_files.push((p, line));
        proof {
            assert(d.error_in_other_files.deep_view() =~~= pre_e.push((pv, line)));
            assert(d@ == RevisionedV {
                error_in_other_files: d0.error_in_other_files.push((pv, line)),
                ..d0
            });
            assert(errors.deep_view() =~= pre + spec_parse_error_pattern(line, t@).1);
        }
    } else if bytes_eq_str(cmd, "stderr-per-bitwidth") {
        let was = d.stderr_per_bitwidth;
        if was {
            push_err(errors, line, ErrorKind::StderrPerBitwidthTwice);
            proof {
                push_is_concat(pre, err_at(line, ErrorKind::StderrPerBitwidthTwice));
            }
        } else {
            proof {
                assert(errors.deep_view() =~= pre + Seq::<ParseErrorV>::empty());
            }
        }
        d.stderr_per_bitwidth = true;
    } else if bytes_eq_str(cmd, "run-rustfix") {
        let was = d.mode.is_some();
        if was {
            push_err(errors, line, ErrorKind::ModeTwice);
            proof {
                push_is_concat(pre, err_at(line, ErrorKind::ModeTwice));
            }
        } else {
            proof {
                assert(errors.deep_view() =~= pre + Seq::<ParseErrorV>::empty());
            }
        }
        d.mode = Some((Mode::Fix, line));
    } else if bytes_eq_str(cmd, "needs-asm-support") {
        let was = d.needs_asm_support;
        if was {
            push_err(errors, line, ErrorKind::NeedsAsmSupportTwice);
            proof {
                push_is_concat(pre, err_at(line, ErrorKind::NeedsAsmSupportTwice));
            }
        } else {
            proof {
                assert(errors.deep_view() =~= pre + Seq::<ParseErrorV>::empty());
            }
        }
        d.needs_asm_support = true;
    } else if bytes_eq_str(cmd, "aux-build") {
        let j = scan(args, 0, ScanFor::Byte(58));
        let ghost pre_a = d.aux_builds.deep_view();
        if j < args.len() {
            let name = slice_to_vec(slice_subrange(args, 0, j));
            let kind = slice_to_vec(slice_subrange(args, j + 1, args.len()));
            d.aux_builds.push((name, kind, line));
            proof {
                assert(d.aux_builds.deep_view() =~~= pre_a.push(
                    (args@.take(j as int), args@.skip(j + 1), line),
                ));
                assert(d@ == RevisionedV {
                    aux_builds: d0.aux_builds.push((args@.take(j as int), args@.skip(j + 1), line)),
                    ..d0
                });
            }
        } else {
            let name = slice_to_vec(args);
            let kind = "lib".as_bytes_vec();
            d.aux_builds.push((name, kind, line));
            proof {
                assert(d.aux_builds.deep_view() =~~= pre_a.push(
                    (args@, "lib".spec_bytes(), line),
                ));
                assert(d@ == RevisionedV {
                    aux_builds: d0.aux_builds.push((args@, "lib".spec_bytes(), line)),
                    ..d0
                });
            }
        }
        proof {
            assert(errors.deep_view() =~= pre + Seq::<ParseErrorV>::empty());
        }
    } else if bytes_eq_str(cmd, "edition") {
        let was = d.edition.is_some();
        if was {
            push_err(errors, line, ErrorKind::EditionTwice);
            proof {
                push_is_concat(pre, err_at(line, ErrorKind::EditionTwice));
            }
        } else {
            proof {
                assert(errors.deep_view() =~= pre + Seq::<ParseErrorV>::empty());
            }
        }
        let ev = slice_to_vec(args);
        proof {
            assert(ev.deep_view() =~= args@);
        }
        d.edition = Some((ev, line));
        proof {
            assert(d@ == RevisionedV { edition: Some((args@, line)), ..d0 });
        }
    } else if bytes_eq_str(cmd, "check-pass") {
        let was = d.mode.is_some();
        if was {
            push_err(errors, line, ErrorKind::ModeTwice);
            proof {
                push_is_concat(pre, err_at(line, ErrorKind::ModeTwice));
            }
        } else {
            proof {
                assert(errors.deep_view() =~= pre + Seq::<ParseErrorV>::empty());
            }
        }
        d.mode = Some((Mode::Pass, line));
    } else if bytes_eq_str(cmd, "run") {
        let was = d.mode.is_some();
        if was {
            push_err(errors, line, ErrorKind::ModeTwice);
            proof {
                push_is_concat(pre, err_at(line, ErrorKind::ModeTwice));
            }
        }
        let ghost errs = if was {
            seq![err_at(line, ErrorKind::ModeTwice)]
        } else {
            Seq::<ParseErrorV>::empty()
        };
        proof {
            assert(errors.deep_view() =~= pre + errs);
        }
        if args.len() == 0 {
            d.mode = Some((Mode::Run { exit_code: 0 }, line));
        } else {
            match parse_i32(args) {
                Some(c) => {
                    d.mode = Some((Mode::Run { exit_code: c }, line));
                },
                None => {
                    push_err_with(errors, line, ErrorKind::InvalidExitCode, slice_to_vec(args));
                    proof {
                        assert(errors.deep_view() =~= pre + (errs + seq![
                            err_with(line, ErrorKind::InvalidExitCode, args@),
                        ]));
                    }
                },
            }
        }
    } else if bytes_eq_str(cmd, "require-annotations-for-level") {
        let was = d.require_annotations_for_level.is_some();
        if was {
            push_err(errors, line, ErrorKind::RequireAnnotationsTwice);
            proof {
                push_is_concat(pre, err_at(line, ErrorKind::RequireAnnotationsTwice));
            }
        }
        let ghost errs = if was {
            seq![err_at(line, ErrorKind::RequireAnnotationsTwice)]
        } else {
            Seq::<ParseErrorV>::empty()
        };
        proof {
            assert(errors.deep_view() =~= pre + errs);
        }
        match Level::parse(trim(args)) {
            Some(l) => {
                d.require_annotations_for_level = Some(l);
            },
            None => {
                push_err(errors, line, ErrorKind::InvalidLevel);
                proof {
                    assert(errors.deep_view() =~= pre + (errs + seq![
                        err_at(line, ErrorKind::InvalidLevel),
                    ]));
                }
            },
        }
    } else {
        let ignore_p = "ignore-".as_bytes();
        let only_p = "only-".as_bytes();
        if crate::bytes::starts_with(cmd, ignore_p) {
            let rest = slice_subrange(cmd, ignore_p.len(), cmd.len());
            proof {
                assert(rest@ =~= cmd@.skip("ignore-".spec_bytes().len() as int));
            }
            match Condition::parse(rest) {
                Ok(c) => {
                    let ghost cv = c@;
                    let ghost pre_i = d.ignore.deep_view();
                    d.ignore.push(c);
                    proof {
                        assert(d.ignore.deep_view() =~~= pre_i.push(cv));
                        assert(d@ == RevisionedV { ignore: d0.ignore.push(cv), ..d0 });
                        assert(errors.deep_view() =~= pre + Seq::<ParseErrorV>::empty());
                    }
                },
                Err(k) => {
                    push_err(errors, line, k);
                    proof {
                        push_is_concat(pre, err_at(line, k));
                    }
                },
            }
        } else if crate::bytes::starts_with(cmd, only_p) {
            let rest = slice_subrange(cmd, only_p.len(), cmd.len());
            proof {
                assert(rest@ =~= cmd@.skip("only-".spec_bytes().len() as int));
            }
            match Condition::parse(rest) {
                Ok(c) => {
                    let ghost cv = c@;
                    let ghost pre_o = d.only.deep_view();
                    d.only.push(c);
                    proof {
                        assert(d.only.deep_view() =~~= pre_o.push(cv));
                        assert(d@ == RevisionedV { only: d0.only.push(cv), ..d0 });
                        assert(errors.deep_view() =~= pre + Seq::<ParseErrorV>::empty());
                    }
                },
                Err(k) => {
                    push_err(errors, line, k);
                    proof {
                        push_is_concat(pre, err_at(line, k));
                    }
                },
            }
        } else {
            let sugg = best_match(cmd);
            let ghost sv = sugg@;
            push_err_with(errors, line, ErrorKind::UnknownCommand, sugg);
            proof {
                push_is_concat(pre, err_with(line, ErrorKind::UnknownCommand, sv));
            }
        }
    }
}

/// A parse result with nothing in it yet.
pub open spec fn empty_comments() -> CommentsV {
    CommentsV { revisions: None, revisioned: Seq::empty() }
}

/// What one `//@` directive body does to the parse state: an optional
/// revision bracket picks the bucket, the name runs to the first byte that
/// may not be part of one, `:` (or the end of the line) separates it from
/// its arguments, and `revisions` itself is declared outside any bucket.
#[verifier::opaque]
pub open spec fn spec_route_command(c: CommentsV, line: usize, body: Seq<u8>) -> (
    CommentsV,
    Seq<ParseErrorV>,
) {
    let rp = spec_parse_revisions(body);
    let brerrs = if rp.err {
        seq![err_at(line, ErrorKind::BracketUnclosed)]
    } else {
        Seq::<ParseErrorV>::empty()
    };
    let rest = rp.rest;
    let j = scan_until(rest, 0, ScanFor::NonCmd);
    let cmd = rest.take(j);
    let args = if j >= rest.len() {
        Seq::<u8>::empty()
    } else {
        trimmed(rest.skip(j + 1))
    };
    let seperrs = if j < rest.len() && rest[j] != 58 && rest[j] != 32 {
        seq![err_at(line, ErrorKind::MissingColon)]
    } else {
        Seq::<ParseErrorV>::empty()
    };
    if cmd == "revisions".spec_bytes() {
        let e1 = if rp.names.len() > 0 {
            seq![err_at(line, ErrorKind::RevisionsUnderRevision)]
        } else {
            Seq::<ParseErrorV>::empty()
        };
        let e2 = if c.revisions is Some {
            seq![err_at(line, ErrorKind::RevisionsTwice)]
        } else {
            Seq::<ParseErrorV>::empty()
        };
        (
            CommentsV { revisions: Some(split_ws_spec(args)), ..c },
            brerrs + seperrs + e1 + e2,
        )
    } else {
        let u = spec_upsert(c.revisioned, rp.names, line);
        let bs = u.0;
        let idx = u.1;
        let a = spec_apply_command(bs[idx].data, line, cmd, args);
        (
            CommentsV {
                revisioned: bs.update(idx, RevEntryV { key: bs[idx].key, data: a.0 }),
                ..c
            },
            brerrs + seperrs + a.1,
        )
    }
}

/// Routes one `//@` directive body.
pub fn route_command(
    c: &mut Comments,
    errors: &mut Vec<ParseError>,
    line: usize,
    body: &[u8],
)
    ensures
        ({
            let r = spec_route_command(old(c)@, line, body@);
            final(c)@ == r.0 && final(errors).deep_view() == old(errors).deep_view() + r.1
        }),
{
    proof {
        reveal(spec_route_command);
    }
    let ghost pre = errors.deep_view();
    let ghost c0 = c@;
    let (revs, rest, brerr) = parse_revisions(body);
    if brerr {
        push_err(errors, line, ErrorKind::BracketUnclosed);
    }
    let ghost brerrs = if brerr {
        seq![err_at(line, ErrorKind::BracketUnclosed)]
    } else {
        Seq::<ParseErrorV>::empty()
    };
    proof {
        assert(errors.deep_view() =~= pre + brerrs);
    }
    let j = scan(rest, 0, ScanFor::NonCmd);
    let cmd = slice_subrange(rest, 0, j);
    proof {
        assert(cmd@ =~= rest@.take(j as int));
    }
    let seperr = j < rest.len() && rest[j] != 58 && rest[j] != 32;
    let args: &[u8] = if j < rest.len() {
        let a = trim(slice_subrange(rest, j + 1, rest.len()));
        proof {
            assert(rest@.subrange(j + 1, rest@.len() as int) =~= rest@.skip(j + 1));
        }
        a
    } else {
        let a = slice_subrange(rest, 0, 0);
        proof {
            assert(a@ =~= Seq::<u8>::empty());
        }
        a
    };
    if seperr {
        push_err(errors, line, ErrorKind::MissingColon);
    }
    let ghost seperrs = if seperr {
        seq![err_at(line, ErrorKind::MissingColon)]
    } else {
        Seq::<ParseErrorV>::empty()
    };
    proof {
        assert(errors.deep_view() =~= pre + (brerrs + seperrs));
    }
    if bytes_eq_str(cmd, "revisions") {
        if revs.len() > 0 {
            push_err(errors, line, ErrorKind::RevisionsUnderRevision);
        }
        let ghost e1 = if revs@.len() > 0 {
            seq![err_at(line, ErrorKind::RevisionsUnderRevision)]
        } else {
            Seq::<ParseErrorV>::empty()
        };
        if c.revisions.is_some() {
            push_err(errors, line, ErrorKind::RevisionsTwice);
        }
        let ghost e2 = if c0.revisions is Some {
            seq![err_at(line, ErrorKind::RevisionsTwice)]
        } else {
            Seq::<ParseErrorV>::empty()
        };
        c.revisions = Some(split_ws(args));
        proof {
            assert(revs@.len() == revs.deep_view().len());
            assert(errors.deep_view() =~= pre + (brerrs + seperrs + e1 + e2));
            assert(c@ == (CommentsV { revisions: Some(split_ws_spec(args@)), ..c0 }));
        }
    } else {
        let ghost keyv = revs.deep_view();
        let idx = c.bucket_index(revs, line);
        let ghost bs = c@.revisioned;
        let entry = vstd::std_specs::vec::vec_index_mut(&mut c.revisioned, idx);
        apply_command(&mut entry.data, errors, line, cmd, args);
        proof {
            let a = spec_apply_command(bs[idx as int].data, line, cmd@, args@);
            assert(entry@ == (RevEntryV { key: bs[idx as int].key, data: a.0 }));
            assert(c.revisioned.deep_view() =~~= bs.update(
                idx as int,
                RevEntryV { key: bs[idx as int].key, data: a.0 },
            ));
            assert(errors.deep_view() =~= pre + (brerrs + seperrs + a.1));
        }
    }
}

/// Bytes that, straight after `//`, suggest a mistyped sigil.
pub open spec fn is_suspicious(b: u8) -> bool {
    b == 64 || b == 126 || b == 91 || b == 93 || b == 94 || b == 124
}

/// A comment body parses cleanly as a directive: it is valid UTF-8 and
/// routing it through the dispatcher on a scratch state reports nothing.
#[verifier::opaque]
pub open spec fn route_clean(body: Seq<u8>) -> bool {
    utf8_valid(body) && spec_route_command(empty_comments(), 0, body).1.len() == 0
}

/// The errors the plain-comment heuristic reports for one candidate text: a
/// clean directive parse means a missing `//@` sigil; a suspicious first
/// byte is reported independently.
pub open spec fn spec_heuristic_cand(line_no: usize, cand: Seq<u8>) -> Seq<ParseErrorV> {
    let legacy = if route_clean(cand) {
        seq![err_at(line_no, ErrorKind::CompiletestStyle)]
    } else {
        Seq::<ParseErrorV>::empty()
    };
    let susp = if cand.len() > 0 && is_suspicious(cand[0]) {
        seq![err_at(line_no, ErrorKind::SuspiciousComment)]
    } else {
        Seq::<ParseErrorV>::empty()
    };
    legacy + susp
}

/// The candidates after one `//` occurrence: the trailing text, and the same
/// with one leading space removed.
pub open spec fn spec_heuristic_pos(line_no: usize, line: Seq<u8>, pos: int) -> Seq<ParseErrorV> {
    let rest = line.skip(pos + 2);
    let first = spec_heuristic_cand(line_no, rest);
    if rest.len() > 0 && rest[0] == 32 {
        first + spec_heuristic_cand(line_no, rest.skip(1))
    } else {
        first
    }
}

/// The heuristic errors for a plain line, scanning its non-overlapping `//`
/// occurrences from position `i`.
pub open spec fn spec_comment_errors(line_no: usize, line: Seq<u8>, i: int) -> Seq<ParseErrorV>
    decreases line.len() - i,
    when 0 <= i
{
    if i + 2 > line.len() {
        Seq::empty()
    } else if line[i] == 47 && line[i + 1] == 47 {
        spec_heuristic_pos(line_no, line, i) + spec_comment_errors(line_no, line, i + 2)
    } else {
        spec_comment_errors(line_no, line, i + 1)
    }
}

/// Decides `route_clean` by running the dispatcher on a scratch state.
fn route_clean_exec(body: &[u8]) -> (r: bool)
    ensures
        r == route_clean(body@),
{
    proof {
        reveal(route_clean);
    }
    if !crate::foreign::check_utf8(body) {
        return false;
    }
    let mut scratch = Comments::new();
    let mut errs: Vec<ParseError> = Vec::new();
    proof {
        assert(scratch@ == empty_comments());
        assert(errs.deep_view() =~~= Seq::<ParseErrorV>::empty());
    }
    route_command(&mut scratch, &mut errs, 0, body);
    proof {
        assert(errs.deep_view() =~~= spec_route_command(empty_comments(), 0, body@).1);
        assert(errs@.len() == errs.deep_view().len());
    }
    errs.len() == 0
}

/// Reports the heuristic errors for one candidate text.
fn heuristic_cand(errors: &mut Vec<ParseError>, line_no: usize, cand: &[u8])
    ensures
        final(errors).deep_view() == old(errors).deep_view() + spec_heuristic_cand(
            line_no,
            cand@,
        ),
{
    let ghost pre = errors.deep_view();
    let clean = route_clean_exec(cand);
    if clean {
        push_err(errors, line_no, ErrorKind::CompiletestStyle);
    }
    let ghost legacy = if route_clean(cand@) {
        seq![err_at(line_no, ErrorKind::CompiletestStyle)]
    } else {
        Seq::<ParseErrorV>::empty()
    };
    proof {
        assert(errors.deep_view() =~= pre + legacy);
    }
    if cand.len() > 0 {
        let b = cand[0];
        if b == 64 || b == 126 || b == 91 || b == 93 || b == 94 || b == 124 {
            push_err(errors, line_no, ErrorKind::SuspiciousComment);
        }
    }
    proof {
        let susp = if cand@.len() > 0 && is_suspicious(cand@[0]) {
            seq![err_at(line_no, ErrorKind::SuspiciousComment)]
        } else {
            Seq::<ParseErrorV>::empty()
        };
        assert(errors.deep_view() =~= pre + (legacy + susp));
    }
}

/// Scans a plain line for `//` occurrences and reports the heuristic errors.
#[verifier::rlimit(100)]
fn scan_plain_line(errors: &mut Vec<ParseError>, line_no: usize, line: &[u8])
    ensures
        final(errors).deep_view() == old(errors).deep_view() + spec_comment_errors(
            line_no,
            line@,
            0,
        ),
{
    let ghost pre = errors.deep_view();
    let ghost full = spec_comment_errors(line_no, line@, 0);
    let ghost mut acc: Seq<ParseErrorV> = Seq::empty();
    let mut i: usize = 0;
    proof {
        assert(full =~= acc + spec_comment_errors(line_no, line@, 0));
    }
    loop
        invariant
            0 <= i <= line@.len() + 1,
            full == spec_comment_errors(line_no, line@, 0),
            full == acc + spec_comment_errors(line_no, line@, i as int),
            errors.deep_view() == pre + acc,
        ensures
            errors.deep_view() == pre + full,
        decreases line@.len() + 2 - i,
    {
        if line.len() < 2 || i > line.len() - 2 {
            proof {
                assert(i + 2 > line@.len());
                assert(spec_comment_errors(line_no, line@, i as int) =~= Seq::<
                    ParseErrorV,
                >::empty());
                assert(pre + acc =~= pre + full);
            }
            break ;
        }
        if line[i] == 47 && line[i + 1] == 47 {
            let rest = slice_subrange(line, i + 2, line.len());
            proof {
                assert(rest@ =~= line@.skip(i + 2));
            }
            let ghost accb = acc;
            let ghost preh = errors.deep_view();
            heuristic_cand(errors, line_no, rest);
            if rest.len() > 0 && rest[0] == 32 {
                let rest2 = slice_subrange(rest, 1, rest.len());
                proof {
                    assert(rest2@ =~= rest@.skip(1));
                }
                heuristic_cand(errors, line_no, rest2);
            }
            proof {
                acc = accb + spec_heuristic_pos(line_no, line@, i as int);
                assert(errors.deep_view() =~= pre + acc);
                assert(spec_comment_errors(line_no, line@, i as int) == spec_heuristic_pos(
                    line_no,
                    line@,
                    i as int,
                ) + spec_comment_errors(line_no, line@, i + 2));
                assert(full =~= acc + spec_comment_errors(line_no, line@, i + 2));
            }
            i += 2;
        } else {
            i += 1;
        }
    }
}

/// What one physical line does to the parse state: a line whose first
/// non-whitespace text starts with `//@` is a directive, a line holding
/// `//~` is a diagnostic annotation, and any other line resets the
/// fallthrough target and gets the plain-comment heuristic.
#[verifier::opaque]
pub open spec fn spec_check_line(
    c: CommentsV,
    ft: Option<usize>,
    line_no: usize,
    line: Seq<u8>,
) -> (CommentsV, Option<usize>, Seq<ParseErrorV>) {
    if "//@".spec_bytes().is_prefix_of(trimmed_start(line)) {
        let body = trimmed(trimmed_start(line).skip("//@".spec_bytes().len() as int));
        if !utf8_valid(body) {
            (c, ft, seq![err_at(line_no, ErrorKind::NotUtf8)])
        } else {
            let r = spec_route_command(c, line_no, body);
            (r.0, ft, r.1)
        }
    } else {
        let tp = find_tilde_sigil(line, 0);
        if tp < line.len() {
            let after = line.skip(tp + 3);
            if !utf8_valid(after) {
                (c, ft, seq![err_at(line_no, ErrorKind::NotUtf8)])
            } else {
                let rp = spec_parse_revisions(after);
                let brerrs = if rp.err {
                    seq![err_at(line_no, ErrorKind::BracketUnclosed)]
                } else {
                    Seq::<ParseErrorV>::empty()
                };
                let u = spec_upsert(c.revisioned, rp.names, line_no);
                let bs = u.0;
                let idx = u.1;
                let r = spec_parse_pattern(bs[idx].data, line_no, ft, rp.rest);
                (
                    CommentsV {
                        revisioned: bs.update(idx, RevEntryV { key: bs[idx].key, data: r.0 }),
                        ..c
                    },
                    r.1,
                    brerrs + r.2,
                )
            }
        } else {
            (c, None, spec_comment_errors(line_no, line, 0))
        }
    }
}

/// Handles one physical line.
fn check_line(
    c: &mut Comments,
    errors: &mut Vec<ParseError>,
    ft: &mut Option<usize>,
    line_no: usize,
    line: &[u8],
)
    ensures
        ({
            let r = spec_check_line(old(c)@, *old(ft), line_no, line@);
            final(c)@ == r.0 && *final(ft) == r.1 && final(errors).deep_view() == old(
                errors,
            ).deep_view() + r.2
        }),
{
    proof {
        reveal(spec_check_line);
    }
    let ghost pre = errors.deep_view();
    let ghost c0 = c@;
    let sig = "//@".as_bytes();
    let lt = trim_start(line);
    if crate::bytes::starts_with(lt, sig) {
        let body = trim(slice_subrange(lt, sig.len(), lt.len()));
        proof {
            assert(lt@.subrange(sig@.len() as int, lt@.len() as int) =~= trimmed_start(
                line@,
            ).skip("//@".spec_bytes().len() as int));
        }
        if !crate::foreign::check_utf8(body) {
            push_err(errors, line_no, ErrorKind::NotUtf8);
            proof {
                push_is_concat(pre, err_at(line_no, ErrorKind::NotUtf8));
            }
        } else {
            route_command(c, errors, line_no, body);
        }
    } else {
        let tp = scan_tilde_sigil(line);
        if tp < line.len() {
            let after = slice_subrange(line, tp + 3, line.len());
            proof {
                assert(after@ =~= line@.skip(tp + 3));
            }
            if !crate::foreign::check_utf8(after) {
                push_err(errors, line_no, ErrorKind::NotUtf8);
                proof {
                    push_is_concat(pre, err_at(line_no, ErrorKind::NotUtf8));
                }
            } else {
                let (revs, rest, brerr) = parse_revisions(after);
                if brerr {
                    push_err(errors, line_no, ErrorKind::BracketUnclosed);
                }
                let ghost brerrs = if brerr {
                    seq![err_at(line_no, ErrorKind::BracketUnclosed)]
                } else {
                    Seq::<ParseErrorV>::empty()
                };
                proof {
                    assert(errors.deep_view() =~= pre + brerrs);
                }
                let idx = c.bucket_index(revs, line_no);
                let ghost bs = c@.revisioned;
                let entry = vstd::std_specs::vec::vec_index_mut(&mut c.revisioned, idx);
                parse_pattern(&mut entry.data, errors, line_no, ft, rest);
                proof {
                    let r = spec_parse_pattern(bs[idx as int].data, line_no, *old(ft), rest@);
                    assert(entry@ == (RevEntryV { key: bs[idx as int].key, data: r.0 }));
                    assert(c.revisioned.deep_view() =~~= bs.update(
                        idx as int,
                        RevEntryV { key: bs[idx as int].key, data: r.0 },
                    ));
                    assert(errors.deep_view() =~= pre + (brerrs + r.2));
                }
            }
        } else {
            *ft = None;
            scan_plain_line(errors, line_no, line);
        }
    }
}

/// The parse state after scanning `lines[i..]`, starting from comments `c`,
/// fallthrough `ft` and already-collected errors `errs`.
pub open spec fn spec_scan_lines(
    lines: Seq<Seq<u8>>,
    i: int,
    c: CommentsV,
    ft: Option<usize>,
    errs: Seq<ParseErrorV>,
) -> (CommentsV, Seq<ParseErrorV>)
    decreases lines.len() - i,
    when 0 <= i
{
    if i >= lines.len() {
        (c, errs)
    } else {
        let r = spec_check_line(c, ft, (i + 1) as usize, lines[i]);
        spec_scan_lines(lines, i + 1, r.0, r.1, errs + r.2)
    }
}

/// The `unknown revision` errors for one bucket key, checked name by name.
pub open spec fn key_errors(key: Seq<Seq<u8>>, revs: Seq<Seq<u8>>, bline: usize, k: int) -> Seq<
    ParseErrorV,
>
    decreases key.len() - k,
    when 0 <= k
{
    if k >= key.len() {
        Seq::empty()
    } else {
        (if revs.contains(key[k]) {
            Seq::<ParseErrorV>::empty()
        } else {
            seq![err_with(bline, ErrorKind::UnknownRevision, key[k])]
        }) + key_errors(key, revs, bline, k + 1)
    }
}

/// The end-of-scan consistency errors: every revision named by a bucket key
/// must be declared; without a declaration no non-empty key may exist. Each
/// error is attributed to the line its bucket was first created on.
pub open spec fn revision_check_errors(
    bs: Seq<RevEntryV>,
    revisions: Option<Seq<Seq<u8>>>,
    i: int,
) -> Seq<ParseErrorV>
    decreases bs.len() - i,
    when 0 <= i
{
    if i >= bs.len() {
        Seq::empty()
    } else {
        (match revisions {
            Some(rv) => key_errors(bs[i].key, rv, bs[i].data.line, 0),
            None => if bs[i].key.len() > 0 {
                seq![err_at(bs[i].data.line, ErrorKind::NoRevisionsDeclared)]
            } else {
                Seq::<ParseErrorV>::empty()
            },
        }) + revision_check_errors(bs, revisions, i + 1)
    }
}

/// Whether `name` appears in the declared revision list.
fn name_in_list(list: &Vec<Vec<u8>>, name: &[u8]) -> (r: bool)
    ensures
        r == list.deep_view().contains(name@),
{
    let mut i: usize = 0;
    while i < list.len()
        invariant
            0 <= i <= list@.len(),
            forall|k: int| 0 <= k < i ==> list.deep_view()[k] != name@,
        decreases list@.len() - i,
    {
        let same = crate::bytes::bytes_eq(list[i].as_slice(), name);
        proof {
            assert(list.deep_view()[i as int] =~= list@[i as int]@);
        }
        if same {
            assert(list.deep_view()[i as int] == name@);
            assert(list.deep_view().contains(name@));
            return true;
        }
        assert(list.deep_view()[i as int] != name@);
        i += 1;
    }
    proof {
        assert(!list.deep_view().contains(name@));
    }
    false
}

/// The complete parse of one file's content: the comments built by the line
/// scan, and the full error list, the consistency errors last.
pub open spec fn spec_parse(content: Seq<u8>) -> (CommentsV, Seq<ParseErrorV>) {
    let lines = crate::split::spec_lines(content);
    let r = spec_scan_lines(lines, 0, empty_comments(), None, Seq::empty());
    (r.0, r.1 + revision_check_errors(r.0.revisioned, r.0.revisions, 0))
}

impl Comments {
    /// Parses the comments in `content`. Returns the configuration when
    /// nothing was reported, else every error found, in scan order.
    pub fn parse(content: &[u8]) -> (r: Result<Comments, Vec<ParseError>>)
        ensures
            ({
                let sp = spec_parse(content@);
                match r {
                    Ok(c) => sp.1.len() == 0 && c@ == sp.0,
                    Err(es) => sp.1.len() > 0 && es.deep_view() == sp.1,
                }
            }),
    {
        let lines = crate::split::split_lines(content);
        let ghost lv = lines.deep_view();
        let mut c = Comments::new();
        let mut errors: Vec<ParseError> = Vec::new();
        let mut ft: Option<usize> = None;
        proof {
            assert(errors.deep_view() =~~= Seq::<ParseErrorV>::empty());
            assert(c@ == empty_comments());
        }
        let mut i: usize = 0;
        while i < lines.len()
            invariant
                0 <= i <= lines@.len(),
                lv == lines.deep_view(),
                lv.len() == lines@.len(),
                spec_scan_lines(lv, 0, empty_comments(), None, Seq::empty())
                    == spec_scan_lines(lv, i as int, c@, ft, errors.deep_view()),
            decreases lines@.len() - i,
        {
            let line = &lines[i];
            proof {
                assert(lv[i as int] =~= line@);
            }
            let ghost cpre = c@;
            let ghost ftpre = ft;
            let ghost epre = errors.deep_view();
            check_line(&mut c, &mut errors, &mut ft, i + 1, line.as_slice());
            proof {
                let r = spec_check_line(cpre, ftpre, (i as int + 1) as usize, lv[i as int]);
                assert(c@ == r.0);
                assert(ft == r.1);
                assert(errors.deep_view() == epre + r.2);
                assert(spec_scan_lines(lv, i as int, cpre, ftpre, epre) == spec_scan_lines(
                    lv,
                    i as int + 1,
                    r.0,
                    r.1,
                    epre + r.2,
                ));
            }
            i += 1;
        }
        proof {
            assert(spec_scan_lines(lv, i as int, c@, ft, errors.deep_view()) == (
                c@,
                errors.deep_view(),
            ));
        }
        let ghost scanned = spec_scan_lines(lv, 0, empty_comments(), None, Seq::empty());
        let ghost bs = c@.revisioned;
        let ghost revsv = c@.revisions;
        let ghost full_checks = revision_check_errors(bs, revsv, 0);
        let ghost mut acc: Seq<ParseErrorV> = Seq::empty();
        let ghost epre2 = errors.deep_view();
        proof {
            assert(full_checks =~= acc + revision_check_errors(bs, revsv, 0));
        }
        let mut bi: usize = 0;
        while bi < c.revisioned.len()
            invariant
                0 <= bi <= c.revisioned@.len(),
                bs == c@.revisioned,
                revsv == c@.revisions,
                full_checks == revision_check_errors(bs, revsv, 0),
                full_checks == acc + revision_check_errors(bs, revsv, bi as int),
                errors.deep_view() == epre2 + acc,
            decreases c.revisioned@.len() - bi,
        {
            let entry = &c.revisioned[bi];
            proof {
                assert(bs[bi as int] == c.revisioned@[bi as int].deep_view());
            }
            let bline = entry.data.line;
            match &c.revisions {
                Some(rv) => {
                    let ghost rvv = rv.deep_view();
                    let ghost key = bs[bi as int].key;
                    let ghost kfull = key_errors(key, rvv, bline, 0);
                    let ghost mut kacc: Seq<ParseErrorV> = Seq::empty();
                    proof {
                        assert(kfull =~= kacc + key_errors(key, rvv, bline, 0));
                    }
                    let mut ki: usize = 0;
                    while ki < entry.key.len()
                        invariant
                            0 <= ki <= entry.key@.len(),
                            key == entry.key.deep_view(),
                            key.len() == entry.key@.len(),
                            rvv == rv.deep_view(),
                            kfull == key_errors(key, rvv, bline, 0),
                            kfull == kacc + key_errors(key, rvv, bline, ki as int),
                            errors.deep_view() == epre2 + acc + kacc,
                        decreases entry.key@.len() - ki,
                    {
                        let present = name_in_list(rv, entry.key[ki].as_slice());
                        proof {
                            assert(key[ki as int] =~= entry.key@[ki as int]@);
                        }
                        if !present {
                            let namev = slice_to_vec(entry.key[ki].as_slice());
                            push_err_with(&mut errors, bline, ErrorKind::UnknownRevision, namev);
                            proof {
                                kacc = kacc.push(
                                    err_with(bline, ErrorKind::UnknownRevision, key[ki as int]),
                                );
                                assert(key_errors(key, rvv, bline, ki as int) == seq![
                                    err_with(bline, ErrorKind::UnknownRevision, key[ki as int]),
                                ] + key_errors(key, rvv, bline, ki as int + 1));
                                assert(kfull =~= kacc + key_errors(key, rvv, bline, ki as int + 1));
                                assert(errors.deep_view() =~= epre2 + acc + kacc);
                            }
                        } else {
                            proof {
                                assert(key_errors(key, rvv, bline, ki as int) =~= key_errors(
                                    key,
                                    rvv,
                                    bline,
                                    ki as int + 1,
                                ));
                            }
                        }
                        ki += 1;
                    }
                    proof {
                        assert(key_errors(key, rvv, bline, ki as int).len() == 0);
                        assert(kacc =~= kfull);
                        acc = acc + kfull;
                        assert(revision_check_errors(bs, revsv, bi as int) == kfull
                            + revision_check_errors(bs, revsv, bi as int + 1));
                        assert(full_checks =~= acc + revision_check_errors(
                            bs,
                            revsv,
                            bi as int + 1,
                        ));
                        assert(errors.deep_view() =~= epre2 + acc);
                    }
                },
                None => {
                    if entry.key.len() > 0 {
                        push_err(&mut errors, bline, ErrorKind::NoRevisionsDeclared);
                        proof {
                            acc = acc.push(err_at(bline, ErrorKind::NoRevisionsDeclared));
                            assert(revision_check_errors(bs, revsv, bi as int) == seq![
                                err_at(bline, ErrorKind::NoRevisionsDeclared),
                            ] + revision_check_errors(bs, revsv, bi as int + 1));
                            assert(full_checks =~= acc + revision_check_errors(
                                bs,
                                revsv,
                                bi as int + 1,
                            ));
                            assert(errors.deep_view() =~= epre2 + acc);
                        }
                    } else {
                        proof {
                            assert(revision_check_errors(bs, revsv, bi as int)
                                =~= revision_check_errors(bs, revsv, bi as int + 1));
                        }
                    }
                },
            }
            bi += 1;
        }
        proof {
            assert(revision_check_errors(bs, revsv, bi as int).len() == 0);
            assert(acc =~= full_checks);
            assert(errors.deep_view() =~= scanned.1 + full_checks);
        }
        if errors.len() == 0 {
            proof {
                assert(errors.deep_view().len() == 0);
            }
            Ok(c)
        } else {
            proof {
                assert(errors.deep_view().len() == errors@.len());
            }
            Err(errors)
        }
    }
}

} // verus!
