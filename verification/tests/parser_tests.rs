use ui_test_comments::comments::Comments;
use ui_test_comments::condition::Condition;
use ui_test_comments::errors::{ErrorKind, ParseError};
use ui_test_comments::level::{Level, Mode};
use ui_test_comments::pattern::Pattern;
use ui_test_comments::quoted::parse_quoted;

fn parse_ok(content: &[u8]) -> Comments {
    match Comments::parse(content) {
        Ok(c) => c,
        Err(es) => panic!("expected a clean parse, got {:?}", es),
    }
}

fn parse_err(content: &[u8]) -> Vec<ParseError> {
    match Comments::parse(content) {
        Ok(_) => panic!("expected errors"),
        Err(es) => es,
    }
}

fn bucket<'a>(c: &'a Comments, key: &[&str]) -> &'a ui_test_comments::comments::Revisioned {
    let want: Vec<Vec<u8>> = key.iter().map(|k| k.as_bytes().to_vec()).collect();
    &c.revisioned
        .iter()
        .find(|e| e.key == want)
        .expect("bucket for key not found")
        .data
}

#[test]
fn revisions_with_scoped_directives_parse_cleanly() {
    let c = parse_ok(
        b"//@ revisions: a b\n//@[a] check-pass\n//@[b] run-rustfix\n//@ edition: 2021\n",
    );
    assert_eq!(
        c.revisions,
        Some(vec![b"a".to_vec(), b"b".to_vec()])
    );
    assert_eq!(bucket(&c, &["a"]).mode, Some((Mode::Pass, 2)));
    assert_eq!(bucket(&c, &["b"]).mode, Some((Mode::Fix, 3)));
    assert_eq!(bucket(&c, &[]).edition, Some((b"2021".to_vec(), 4)));
    // every bucket that was used exists, and only those
    assert_eq!(c.revisioned.len(), 3);
}

#[test]
fn for_revision_selects_default_and_named_buckets() {
    let c = parse_ok(b"//@ revisions: a b\n//@[a] check-pass\n//@[b] run-rustfix\n//@ edition: 2015\n");
    let idxs = c.for_revision(b"a");
    let keys: Vec<&Vec<Vec<u8>>> = idxs.iter().map(|&i| &c.revisioned[i].key).collect();
    assert!(keys.contains(&&vec![b"a".to_vec()]));
    assert!(keys.contains(&&Vec::new()));
    assert!(!keys.contains(&&vec![b"b".to_vec()]));
}

#[test]
fn compile_flags_accumulate_across_directives() {
    let c = parse_ok(b"//@ compile-flags: --foo\n//@ compile-flags: --bar\n");
    assert_eq!(
        bucket(&c, &[]).compile_flags,
        vec![b"--foo".to_vec(), b"--bar".to_vec()]
    );
}

#[test]
fn compile_flags_quoted_argument_stays_one_token() {
    let c = parse_ok(b"//@ compile-flags: --cfg \"a b\"\n");
    assert_eq!(
        bucket(&c, &[]).compile_flags,
        vec![b"--cfg".to_vec(), b"a b".to_vec()]
    );
}

#[test]
fn compile_flags_unclosed_quote_is_reported() {
    let es = parse_err(b"//@ compile-flags: \"oops\n");
    assert_eq!(es.len(), 1);
    assert_eq!(es[0].kind, ErrorKind::UnclosedQuotationMark);
    assert_eq!(es[0].line, 1);
    assert_eq!(es[0].detail, Some(b"\"oops".to_vec()));
}

#[test]
fn edition_twice_errors_at_second_line() {
    let es = parse_err(b"//@ edition: 2018\n//@ edition: 2021\n");
    assert_eq!(es.len(), 1);
    assert_eq!(es[0].kind, ErrorKind::EditionTwice);
    assert_eq!(es[0].line, 2);
}

#[test]
fn unknown_revision_errors_at_first_use_line() {
    let es = parse_err(b"//@ revisions: a\n//@[x] check-pass\n");
    assert_eq!(es.len(), 1);
    assert_eq!(es[0].kind, ErrorKind::UnknownRevision);
    assert_eq!(es[0].line, 2);
    assert_eq!(es[0].detail, Some(b"x".to_vec()));
}

#[test]
fn revision_bracket_without_declaration_errors() {
    let es = parse_err(b"//@[x] check-pass\n");
    assert_eq!(es.len(), 1);
    assert_eq!(es[0].kind, ErrorKind::NoRevisionsDeclared);
    assert_eq!(es[0].line, 1);
}

#[test]
fn annotations_target_and_fallthrough_lines() {
    let mut content = Vec::new();
    for _ in 0..9 {
        content.extend_from_slice(b"fn x() {}\n");
    }
    content.extend_from_slice(b"//~ ERROR: foo\n"); // line 10
    content.extend_from_slice(b"//~| HELP: bar\n"); // line 11
    content.extend_from_slice(b"//~^ WARN: baz\n"); // line 12
    let c = parse_ok(&content);
    let ms = &bucket(&c, &[]).error_matches;
    assert_eq!(ms.len(), 3);
    assert_eq!(ms[0].level, Level::Error);
    assert_eq!(ms[0].definition_line, 10);
    assert_eq!(ms[0].line, 10);
    assert_eq!(ms[1].level, Level::Help);
    assert_eq!(ms[1].definition_line, 11);
    assert_eq!(ms[1].line, 10);
    assert_eq!(ms[2].level, Level::Warn);
    assert_eq!(ms[2].definition_line, 12);
    assert_eq!(ms[2].line, 11);
    match &ms[0].pattern {
        Pattern::SubString(s) => assert_eq!(s, b"foo"),
        Pattern::Regex(_) => panic!("expected a substring pattern"),
    }
}

#[test]
fn caret_offset_past_start_of_file_errors() {
    let es = parse_err(b"fn x() {}\n//~^^^ NOTE: x\n");
    assert_eq!(es.len(), 1);
    assert_eq!(es[0].kind, ErrorKind::OffsetOutOfRange);
    assert_eq!(es[0].line, 2);
}

#[test]
fn caret_offset_with_enough_lines_targets_upward() {
    let es = Comments::parse(b"fn a() {}\nfn b() {}\nfn c() {}\n//~^^^ NOTE: x\n");
    let c = es.expect("enough lines above");
    let ms = &bucket(&c, &[]).error_matches;
    assert_eq!(ms[0].line, 1);
    assert_eq!(ms[0].definition_line, 4);
    assert_eq!(ms[0].level, Level::Note);
}

#[test]
fn fallthrough_without_preceding_annotation_errors() {
    let es = parse_err(b"//~| ERROR: foo\n");
    assert_eq!(es[0].kind, ErrorKind::FallthroughWithoutParent);
}

#[test]
fn plain_line_breaks_the_fallthrough_chain() {
    let es = parse_err(b"//~ ERROR: foo\nfn x() {}\n//~| HELP: bar\n");
    assert_eq!(es.len(), 1);
    assert_eq!(es[0].kind, ErrorKind::FallthroughWithoutParent);
    assert_eq!(es[0].line, 3);
}

#[test]
fn quoted_string_keeps_escapes_verbatim_and_trims_rest() {
    // the raw span between the quotes comes back; the backslash stays
    let (content, rest, err) = parse_quoted(b"\"ab\\\"c\"  tail");
    assert_eq!(content, b"ab\\\"c".to_vec());
    assert_eq!(rest, b"tail");
    assert!(err.is_none());
}

#[test]
fn normalize_rule_parses_from_and_to() {
    let c = parse_ok(b"//@ normalize-stderr-test: \"ab\\\"c\" -> \"z\"\n");
    let rules = &bucket(&c, &[]).normalize_stderr;
    assert_eq!(rules.len(), 1);
    // the raw span (escape kept) is what the engine compiled ...
    assert_eq!(rules[0].pattern.pattern_bytes(), &b"ab\\\"c".to_vec());
    assert_eq!(rules[0].replacement, b"z".to_vec());
    // ... so it matches exactly the 4-byte text the escape denotes
    assert!(rules[0].pattern.is_match(b"xab\"cy"));
    assert!(!rules[0].pattern.is_match(b"ab_c"));
}

#[test]
fn normalize_trailing_text_after_replacement_errors() {
    let es = parse_err(b"//@ normalize-stderr-test: \"a\" -> \"b\" junk\n");
    assert_eq!(es.len(), 1);
    assert_eq!(es[0].kind, ErrorKind::TrailingAfterReplacement);
    assert_eq!(es[0].detail, Some(b"junk".to_vec()));
}

#[test]
fn normalize_missing_arrow_errors() {
    let es = parse_err(b"//@ normalize-stderr-test: \"a\" \"b\"\n");
    assert_eq!(es[0].kind, ErrorKind::NormalizeMissingArrow);
}

#[test]
fn slashed_pattern_is_a_regex_and_plain_text_a_substring() {
    let c = parse_ok(b"//~ ERROR: /fo.o/\n//~ ERROR: foo\n");
    let ms = &bucket(&c, &[]).error_matches;
    match &ms[0].pattern {
        Pattern::Regex(_) => {}
        Pattern::SubString(_) => panic!("expected a regex pattern"),
    }
    assert!(ms[0].pattern.matches(b"fooo"));
    assert!(!ms[0].pattern.matches(b"foo"));
    assert!(ms[1].pattern.matches(b"xfoox"));
    assert!(!ms[1].pattern.matches(b"fo"));
}

#[test]
fn invalid_regex_is_reported_and_falls_back_to_substring() {
    let es = parse_err(b"//@ error-in-other-file: /((/\n");
    assert_eq!(es[0].kind, ErrorKind::InvalidRegex);
    // the engine's own message is carried along
    assert!(es[0].detail.as_ref().is_some_and(|d| !d.is_empty()));
}

#[test]
fn parsing_is_deterministic_across_calls() {
    let content: &[u8] =
        b"//@ revisions: a b\n//@[a] compile-flags: -O\n//~ ERROR: foo\n//@ rustc-env: K=V\n";
    let c1 = parse_ok(content);
    let c2 = parse_ok(content);
    assert_eq!(c1.revisions, c2.revisions);
    assert_eq!(c1.revisioned.len(), c2.revisioned.len());
    for (e1, e2) in c1.revisioned.iter().zip(c2.revisioned.iter()) {
        assert_eq!(e1.key, e2.key);
        assert_eq!(e1.data.line, e2.data.line);
        assert_eq!(e1.data.compile_flags, e2.data.compile_flags);
        assert_eq!(e1.data.env_vars, e2.data.env_vars);
        assert_eq!(e1.data.error_matches.len(), e2.data.error_matches.len());
    }
}

#[test]
fn unknown_directive_suggests_nearest_name() {
    let es = parse_err(b"//@ complie-flags: -O\n");
    assert_eq!(es.len(), 1);
    assert_eq!(es[0].kind, ErrorKind::UnknownCommand);
    assert_eq!(es[0].detail, Some(b"compile-flags".to_vec()));
}

#[test]
fn run_modes_and_exit_codes() {
    let c = parse_ok(b"//@ run: 42\n");
    assert_eq!(bucket(&c, &[]).mode, Some((Mode::Run { exit_code: 42 }, 1)));
    let c = parse_ok(b"//@ run:\n");
    assert_eq!(bucket(&c, &[]).mode, Some((Mode::Run { exit_code: 0 }, 1)));
    let es = parse_err(b"//@ run: nope\n");
    assert_eq!(es[0].kind, ErrorKind::InvalidExitCode);
    assert_eq!(es[0].detail, Some(b"nope".to_vec()));
    let es = parse_err(b"//@ check-pass\n//@ run-rustfix\n");
    assert_eq!(es[0].kind, ErrorKind::ModeTwice);
    assert_eq!(es[0].line, 2);
}

#[test]
fn rustc_env_splits_key_value_pairs() {
    let c = parse_ok(b"//@ rustc-env: A=1 B=two\n");
    assert_eq!(
        bucket(&c, &[]).env_vars,
        vec![(b"A".to_vec(), b"1".to_vec()), (b"B".to_vec(), b"two".to_vec())]
    );
    let es = parse_err(b"//@ rustc-env: novalue\n");
    assert_eq!(es[0].kind, ErrorKind::EnvVarNotKeyValue);
}

#[test]
fn conditions_parse_the_accepted_forms() {
    assert_eq!(Condition::parse(b"on-host"), Ok(Condition::OnHost));
    assert_eq!(Condition::parse(b"64bit"), Ok(Condition::Bitwidth(64)));
    assert_eq!(
        Condition::parse(b"target-linux"),
        Ok(Condition::Target(b"linux".to_vec()))
    );
    assert_eq!(
        Condition::parse(b"host-apple"),
        Ok(Condition::Host(b"apple".to_vec()))
    );
    assert_eq!(Condition::parse(b"fastbit"), Err(ErrorKind::InvalidBitwidth));
    assert_eq!(Condition::parse(b"weird"), Err(ErrorKind::InvalidCondition));
}

#[test]
fn ignore_and_only_fill_their_lists() {
    let c = parse_ok(b"//@ ignore-64bit\n//@ only-target-linux comment text\n");
    assert_eq!(bucket(&c, &[]).ignore, vec![Condition::Bitwidth(64)]);
    assert_eq!(
        bucket(&c, &[]).only,
        vec![Condition::Target(b"linux".to_vec())]
    );
}

#[test]
fn error_pattern_directive_was_renamed() {
    let es = parse_err(b"//@ error-pattern: foo\n");
    assert_eq!(es[0].kind, ErrorKind::ErrorPatternRenamed);
}

#[test]
fn singular_flags_error_on_repeat() {
    let es = parse_err(b"//@ stderr-per-bitwidth\n//@ stderr-per-bitwidth\n");
    assert_eq!(es[0].kind, ErrorKind::StderrPerBitwidthTwice);
    let es = parse_err(b"//@ needs-asm-support\n//@ needs-asm-support\n");
    assert_eq!(es[0].kind, ErrorKind::NeedsAsmSupportTwice);
    let es = parse_err(b"//@ revisions: a\n//@ revisions: b\n");
    assert_eq!(es[0].kind, ErrorKind::RevisionsTwice);
    let es = parse_err(
        b"//@ require-annotations-for-level: ERROR\n//@ require-annotations-for-level: NOTE\n",
    );
    assert_eq!(es[0].kind, ErrorKind::RequireAnnotationsTwice);
}

#[test]
fn aux_build_splits_name_and_kind() {
    let c = parse_ok(b"//@ aux-build: helper.rs:dylib\n//@ aux-build: plain.rs\n");
    let aux = &bucket(&c, &[]).aux_builds;
    assert_eq!(aux[0], (b"helper.rs".to_vec(), b"dylib".to_vec(), 1));
    assert_eq!(aux[1], (b"plain.rs".to_vec(), b"lib".to_vec(), 2));
}

#[test]
fn directive_line_that_is_not_utf8_is_reported() {
    let mut content = b"//@ edition: 20".to_vec();
    content.push(0xff);
    content.push(b'\n');
    let es = parse_err(&content);
    assert_eq!(es[0].kind, ErrorKind::NotUtf8);
    assert_eq!(es[0].line, 1);
}

#[test]
fn suspicious_comment_and_legacy_style_are_flagged() {
    let es = parse_err(b"fn x() {} // ~oops\n");
    assert_eq!(es[0].kind, ErrorKind::SuspiciousComment);
    let es = parse_err(b"// edition: 2018\n");
    assert_eq!(es[0].kind, ErrorKind::CompiletestStyle);
    // `//#` is the documented way to write a plain comment
    assert!(Comments::parse(b"fn x() {} //# just a note\n").is_ok());
}

#[test]
fn missing_colon_after_directive_name_is_reported() {
    let es = parse_err(b"//@ edition=2018\n");
    assert_eq!(es[0].kind, ErrorKind::MissingColon);
}

#[test]
fn single_space_separates_name_and_arguments() {
    let c = parse_ok(b"//@ edition 2018\n");
    assert_eq!(bucket(&c, &[]).edition, Some((b"2018".to_vec(), 1)));
}

#[test]
fn indented_directives_are_parsed() {
    let c = parse_ok(b"    //@ check-pass\n");
    assert_eq!(bucket(&c, &[]).mode, Some((Mode::Pass, 1)));
}

#[test]
fn annotation_level_errors() {
    let es = parse_err(b"//~ BOGUS: foo\n");
    assert_eq!(es[0].kind, ErrorKind::InvalidLevel);
    let es = parse_err(b"//~ 12345\n");
    assert_eq!(es[0].kind, ErrorKind::InvalidLevel);
    let es = parse_err(b"//~ ERRORfoo\n");
    assert_eq!(es[0].kind, ErrorKind::PatternWithoutLevel);
    let es = parse_err(b"//~ ERROR foo\n");
    assert_eq!(es[0].kind, ErrorKind::NoColonAfterLevel);
    let es = parse_err(b"//~ ERROR:\n");
    assert_eq!(es[0].kind, ErrorKind::NoPattern);
}

#[test]
fn empty_content_parses_to_nothing() {
    let c = parse_ok(b"");
    assert!(c.revisions.is_none());
    assert!(c.revisioned.is_empty());
}

#[test]
fn crlf_line_endings_count_like_plain_newlines() {
    let es = parse_err(b"//@ edition: 2018\r\n//@ edition: 2021\r\n");
    assert_eq!(es[0].kind, ErrorKind::EditionTwice);
    assert_eq!(es[0].line, 2);
}

#[test]
fn edition_lookup_prefers_bucket_over_default_and_reports_duplicates() {
    let c = parse_ok(b"//@ revisions: a\n//@[a] edition: 2018\n//@ edition: 2021\n");
    let mut errors = Vec::new();
    let ed = c.edition(&mut errors, b"a", Some(b"2015".to_vec()));
    // both buckets apply to `a`; the one seen first wins and the second is reported
    assert!(ed.is_some());
    assert_eq!(errors.len(), 1);
    assert_eq!(errors[0].kind, ErrorKind::EditionTwiceAcrossRevisions);
    let mut errors = Vec::new();
    let ed = c.edition(&mut errors, b"zzz", None);
    // only the default bucket applies to an unknown revision
    assert_eq!(ed, Some((b"2021".to_vec(), 3)));
    assert!(errors.is_empty());
    let empty = parse_ok(b"");
    let mut errors = Vec::new();
    let ed = empty.edition(&mut errors, b"a", Some(b"2015".to_vec()));
    assert_eq!(ed, Some((b"2015".to_vec(), 0)));
}

#[test]
fn bracketed_annotation_scopes_to_its_revision() {
    let c = parse_ok(b"//@ revisions: a\n//~[a] ERROR: foo\n");
    let ms = &bucket(&c, &["a"]).error_matches;
    assert_eq!(ms.len(), 1);
    assert_eq!(ms[0].level, Level::Error);
}

#[test]
fn unclosed_revision_bracket_is_reported() {
    let es = parse_err(b"//@[a check-pass\n");
    assert!(es.iter().any(|e| e.kind == ErrorKind::BracketUnclosed));
}

#[test]
fn levels_parse_their_exact_labels() {
    assert_eq!(Level::parse(b"ERROR"), Some(Level::Error));
    assert_eq!(Level::parse(b"WARN"), Some(Level::Warn));
    assert_eq!(Level::parse(b"warning"), Some(Level::Warn));
    assert_eq!(Level::parse(b"HELP"), Some(Level::Help));
    assert_eq!(Level::parse(b"NOTE"), Some(Level::Note));
    assert_eq!(Level::parse(b"Error"), None);
    assert_eq!(Level::parse(b""), None);
}
