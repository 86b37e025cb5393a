use contgrep::assembler::Assembler;
use contgrep::assembler::Record;
use contgrep::assembler::State;
use contgrep::format::FormatOptions;
use contgrep::patterns::PatternError;
use contgrep::patterns::PatternSet;
use contgrep::patterns::DEFAULT_CONTINUATION;
use contgrep::scan::exit_code;
use contgrep::scan::ScanResult;
use contgrep::scan::Scanner;

fn strings(patterns: &[&str]) -> Vec<String> {
    patterns.iter().map(|p| p.to_string()).collect()
}

fn pattern_set(patterns: &[&str], continuation: Option<&str>) -> PatternSet {
    match PatternSet::new(&strings(patterns), continuation) {
        Ok(set) => set,
        Err(err) => panic!("patterns refused: {}", err.message()),
    }
}

/// Cuts `content` into physical lines, each with its terminator, as a
/// buffered reader hands them out.
fn physical_lines(content: &[u8]) -> Vec<Vec<u8>> {
    let mut lines: Vec<Vec<u8>> = Vec::new();
    let mut current: Vec<u8> = Vec::new();
    for byte in content {
        current.push(*byte);
        if *byte == b'\n' {
            lines.push(current);
            current = Vec::new();
        }
    }
    if !current.is_empty() {
        lines.push(current);
    }
    lines
}

/// Scans `content` as one source and returns what was written and whether a
/// record matched.
fn scan_source(
    set: &PatternSet,
    opts: &FormatOptions,
    path: &str,
    content: &[u8],
) -> (Vec<Vec<u8>>, bool) {
    let mut scanner = Scanner::new(set, opts, path);
    let mut written: Vec<Vec<u8>> = Vec::new();
    for line in physical_lines(content) {
        assert!(scanner.can_read());
        let step = scanner.step(&line);
        assert!(!step.done);
        if let Some(bytes) = step.output {
            written.push(bytes);
        }
    }
    let last = scanner.step(&[]);
    assert!(last.done);
    if let Some(bytes) = last.output {
        written.push(bytes);
    }
    (written, scanner.found_match)
}

/// Runs the assembler alone over `content`, with the default continuation
/// rule, and returns every record it completes.
fn assemble(opts: &FormatOptions, path: &str, content: &[u8]) -> Vec<(Vec<u8>, usize)> {
    let set = pattern_set(&["x"], None);
    let mut assembler = Assembler::new();
    let mut records: Vec<(Vec<u8>, usize)> = Vec::new();
    for line in physical_lines(content) {
        let is_continuation = assembler.is_accumulating() && set.is_continuation(&line);
        if let Some(record) = assembler.push_line(opts, path, &line, is_continuation) {
            records.push((record.bytes, record.line_nr));
        }
    }
    if let Some(record) = assembler.finish() {
        records.push((record.bytes, record.line_nr));
    }
    records
}

const PLAIN: FormatOptions = FormatOptions { file_prefix: false, line_numbers: false };

#[test]
fn single_line_source_gives_one_record() {
    let records = assemble(&PLAIN, "a.txt", b"hello\n");
    assert_eq!(records, vec![(b"hello\n".to_vec(), 1usize)]);
}

#[test]
fn single_line_without_terminator_is_kept_as_read() {
    let records = assemble(&PLAIN, "a.txt", b"hello");
    assert_eq!(records, vec![(b"hello".to_vec(), 1usize)]);
}

#[test]
fn empty_source_gives_no_record() {
    let records = assemble(&PLAIN, "a.txt", b"");
    assert!(records.is_empty());
    let set = pattern_set(&[""], None);
    let (written, found) = scan_source(&set, &PLAIN, "a.txt", b"");
    assert!(written.is_empty());
    assert!(!found);
}

#[test]
fn continuation_lines_join_their_primary_line() {
    let records = assemble(&PLAIN, "a.txt", b"first\nhead\n one\n\ttwo\n  three\n");
    assert_eq!(
        records,
        vec![
            (b"first\n".to_vec(), 1usize),
            (b"head\n one\n\ttwo\n  three\n".to_vec(), 2usize),
        ]
    );
}

#[test]
fn non_continuation_line_completes_the_record() {
    let records = assemble(&PLAIN, "a.txt", b"foo\n  bar\nbaz\n");
    assert_eq!(records, vec![(b"foo\n  bar\n".to_vec(), 1usize), (b"baz\n".to_vec(), 3usize)]);
}

#[test]
fn blank_line_counts_and_continues_under_default_rule() {
    let records = assemble(&PLAIN, "a.txt", b"a\n\nb\n");
    assert_eq!(records, vec![(b"a\n\n".to_vec(), 1usize), (b"b\n".to_vec(), 3usize)]);
}

#[test]
fn assembler_state_follows_the_lines() {
    let mut assembler = Assembler::new();
    assert!(matches!(assembler.state, State::ReadingLine));
    assert!(!assembler.is_accumulating());
    assert_eq!(assembler.lines_read, 0);
    assert!(assembler.push_line(&PLAIN, "a.txt", b"one\n", true).is_none());
    assert!(assembler.is_accumulating());
    assert!(assembler.push_line(&PLAIN, "a.txt", b"two\n", true).is_none());
    let done: Option<Record> = assembler.push_line(&PLAIN, "a.txt", b"three\n", false);
    let done = done.unwrap();
    assert_eq!(done.bytes, b"one\ntwo\n".to_vec());
    assert_eq!(done.line_nr, 1);
    assert_eq!(assembler.lines_read, 3);
    let last = assembler.finish().unwrap();
    assert_eq!(last.bytes, b"three\n".to_vec());
    assert_eq!(last.line_nr, 3);
    assert!(matches!(assembler.state, State::ReadingLine));
    assert!(assembler.finish().is_none());
}

#[test]
fn matching_record_is_written_verbatim() {
    let set = pattern_set(&["foo"], None);
    let opts = FormatOptions::for_sources(false, false, 1);
    let (written, found) = scan_source(&set, &opts, "a.txt", b"foo\n  bar\nbaz\n");
    assert_eq!(written, vec![b"foo\n  bar\n".to_vec()]);
    assert!(found);
    let mut result = ScanResult::new();
    let source: Result<bool, String> = Ok(found);
    assert!(result.add_source(source).is_ok());
    let outcome: Result<ScanResult, String> = Ok(result);
    assert_eq!(exit_code(&outcome), 0);
}

#[test]
fn no_match_gives_no_output() {
    let set = pattern_set(&["qux"], None);
    let opts = FormatOptions::for_sources(false, false, 1);
    let (written, found) = scan_source(&set, &opts, "a.txt", b"foo\n  bar\nbaz\n");
    assert!(written.is_empty());
    assert!(!found);
    let mut result = ScanResult::new();
    let source: Result<bool, String> = Ok(found);
    assert!(result.add_source(source).is_ok());
    let outcome: Result<ScanResult, String> = Ok(result);
    assert_eq!(exit_code(&outcome), 1);
}

#[test]
fn line_number_prefix_on_matching_line() {
    let set = pattern_set(&["two"], None);
    let opts = FormatOptions::for_sources(false, true, 1);
    let (written, found) = scan_source(&set, &opts, "a.txt", b"one\ntwo\nthree\n");
    assert_eq!(written, vec![b"2:two\n".to_vec()]);
    assert!(found);
}

#[test]
fn every_line_of_a_record_carries_the_prefixes() {
    let set = pattern_set(&["bar"], None);
    let opts = FormatOptions::for_sources(true, true, 1);
    let (written, found) = scan_source(&set, &opts, "dir/a.txt", b"foo\n  bar\nbaz\n");
    assert_eq!(written, vec![b"dir/a.txt:1:foo\ndir/a.txt:2:  bar\n".to_vec()]);
    assert!(found);
}

#[test]
fn match_is_found_in_a_continuation_line() {
    let set = pattern_set(&["bar"], None);
    let (written, found) = scan_source(&set, &PLAIN, "a.txt", b"foo\n  bar\nbaz\n");
    assert_eq!(written, vec![b"foo\n  bar\n".to_vec()]);
    assert!(found);
}

#[test]
fn several_records_match_in_order() {
    let set = pattern_set(&["a"], None);
    let (written, found) = scan_source(&set, &PLAIN, "a.txt", b"bar\nfoo\n baz\nqux\nabc");
    assert_eq!(written, vec![b"bar\n".to_vec(), b"foo\n baz\n".to_vec(), b"abc".to_vec()]);
    assert!(found);
}

#[test]
fn any_pattern_of_the_set_suffices() {
    let set = pattern_set(&["qux", "baz"], None);
    let (written, _) = scan_source(&set, &PLAIN, "a.txt", b"foo\n  bar\nbaz\n");
    assert_eq!(written, vec![b"baz\n".to_vec()]);
    assert!(set.matches(b"xx baz xx"));
    assert!(set.matches(b"qux"));
    assert!(!set.matches(b"foo"));
}

#[test]
fn pattern_order_does_not_change_the_outcome() {
    let first = pattern_set(&["foo", "ba[rz]", "^x$"], None);
    let second = pattern_set(&["^x$", "foo", "ba[rz]"], None);
    let haystacks: Vec<&[u8]> = vec![b"foo\n", b"bar", b"a\nx\nb", b"xx", b"", b"quux\n  baz\n"];
    for haystack in haystacks {
        assert_eq!(first.matches(haystack), second.matches(haystack));
    }
    assert!(first.matches(b"a\nx\nb"));
    assert!(!first.matches(b"xx"));
}

#[test]
fn search_patterns_anchor_at_line_boundaries_inside_a_record() {
    let set = pattern_set(&["^  bar$"], None);
    assert!(set.matches(b"foo\n  bar\n"));
    let (written, found) = scan_source(&set, &PLAIN, "a.txt", b"foo\n  bar\nbaz\n");
    assert_eq!(written, vec![b"foo\n  bar\n".to_vec()]);
    assert!(found);
}

#[test]
fn empty_pattern_set_matches_nothing() {
    let set = pattern_set(&[], None);
    assert!(!set.matches(b"anything"));
    assert!(!set.matches(b""));
}

#[test]
fn default_continuation_is_leading_white_space() {
    assert_eq!(DEFAULT_CONTINUATION, "^\\s+");
    let set = pattern_set(&["x"], None);
    assert!(set.is_continuation(b"  bar\n"));
    assert!(set.is_continuation(b"\tbar\n"));
    assert!(set.is_continuation(b"\n"));
    assert!(!set.is_continuation(b"bar  \n"));
    assert!(!set.is_continuation(b"bar\n"));
}

#[test]
fn given_continuation_pattern_replaces_the_default() {
    let set = pattern_set(&["x"], Some("^\\+"));
    assert!(set.is_continuation(b"+ more\n"));
    assert!(!set.is_continuation(b"  more\n"));
    let (written, _) = scan_source(&set, &PLAIN, "a.txt", b"ax\n+ b\n  c\n+ x\n");
    assert_eq!(written, vec![b"ax\n+ b\n".to_vec(), b"  c\n+ x\n".to_vec()]);
}

#[test]
fn continuation_pattern_that_matches_all_lines_gives_one_record() {
    let set = pattern_set(&["c"], Some(""));
    let (written, found) = scan_source(&set, &PLAIN, "a.txt", b"a\nb\n\nc\nd\n");
    assert_eq!(written, vec![b"a\nb\n\nc\nd\n".to_vec()]);
    assert!(found);
}

#[test]
fn continuation_pattern_sees_one_line_as_a_whole() {
    let set = pattern_set(&["x"], Some("y$"));
    assert!(set.is_continuation(b"y"));
    assert!(!set.is_continuation(b"y\n"));
}

#[test]
fn invalid_search_pattern_is_refused() {
    let result = PatternSet::new(&strings(&["foo", "ba(r"]), None);
    match result {
        Err(PatternError::Search(err)) => {
            assert!(!PatternError::Search(err).message().is_empty());
        }
        _ => panic!("the search patterns should be refused"),
    }
}

#[test]
fn invalid_continuation_pattern_is_refused() {
    let result = PatternSet::new(&strings(&["foo"]), Some("[a"));
    match result {
        Err(PatternError::Continuation(err)) => {
            assert!(!PatternError::Continuation(err).message().is_empty());
        }
        _ => panic!("the continuation pattern should be refused"),
    }
}

#[test]
fn search_error_comes_before_continuation_error() {
    let result = PatternSet::new(&strings(&["ba(r"]), Some("[a"));
    assert!(matches!(result, Err(PatternError::Search(_))));
}

#[test]
fn pattern_set_from_compiled_parts() {
    let good_set = regex::bytes::RegexSetBuilder::new(["foo", "^bar$"]).multi_line(true).build();
    let good = regex::bytes::Regex::new("^-");
    let set = match PatternSet::from_compiled(good_set, good) {
        Ok(set) => set,
        Err(_) => panic!("both parts are valid"),
    };
    assert!(set.matches(b"a foo"));
    assert!(set.matches(b"baz\nbar\n"));
    assert!(!set.matches(b"baz\nbars\n"));
    assert!(set.is_continuation(b"- x"));
    assert!(!set.is_continuation(b"x\n- x"));
    let bad_set = regex::bytes::RegexSet::new(["fo(o"]);
    let bad = regex::bytes::Regex::new("(");
    assert!(matches!(PatternSet::from_compiled(bad_set, bad), Err(PatternError::Search(_))));
    let good_set = regex::bytes::RegexSet::new(["foo"]);
    let bad = regex::bytes::Regex::new("(");
    assert!(matches!(
        PatternSet::from_compiled(good_set, bad),
        Err(PatternError::Continuation(_))
    ));
}

#[test]
fn found_match_stays_once_set() {
    let set = pattern_set(&["foo"], None);
    let mut scanner = Scanner::new(&set, &PLAIN, "a.txt");
    assert!(!scanner.found_match);
    assert!(scanner.step(b"foo\n").output.is_none());
    let step = scanner.step(b"bar\n");
    assert_eq!(step.output, Some(b"foo\n".to_vec()));
    assert!(scanner.found_match);
    let step = scanner.step(b"");
    assert!(step.done);
    assert!(step.output.is_none());
    assert!(scanner.found_match);
}

fn found(value: bool) -> Result<bool, String> {
    Ok(value)
}

#[test]
fn scan_result_is_the_or_of_its_sources() {
    let mut result = ScanResult::new();
    assert!(!result.matched);
    assert_eq!(result.add_source(found(false)), Ok(()));
    assert!(!result.matched);
    assert_eq!(result.add_source(found(true)), Ok(()));
    assert!(result.matched);
    assert_eq!(result.add_source(found(false)), Ok(()));
    assert!(result.matched);
}

#[test]
fn first_failure_is_handed_back() {
    let mut result = ScanResult::new();
    let failure: Result<bool, String> = Err("unreadable".to_string());
    assert_eq!(result.add_source(failure), Err("unreadable".to_string()));
    assert!(!result.matched);
    assert_eq!(result.add_source(found(true)), Ok(()));
    let failure: Result<bool, String> = Err("gone".to_string());
    assert_eq!(result.add_source(failure), Err("gone".to_string()));
    assert!(result.matched);
}

#[test]
fn exit_codes() {
    let matched: Result<ScanResult, String> = Ok(ScanResult { matched: true });
    let unmatched: Result<ScanResult, String> = Ok(ScanResult { matched: false });
    let failed: Result<ScanResult, String> = Err("unreadable".to_string());
    assert_eq!(exit_code(&matched), 0);
    assert_eq!(exit_code(&unmatched), 1);
    assert_eq!(exit_code(&failed), 2);
}

#[test]
fn message_is_the_text_of_the_carried_error() {
    let refused = match regex::bytes::Regex::new("ba(r") {
        Ok(_) => panic!("the pattern should be refused"),
        Err(err) => err,
    };
    let expected = refused.to_string();
    assert!(!expected.is_empty());
    assert_eq!(PatternError::Search(refused.clone()).message(), expected);
    assert_eq!(PatternError::Continuation(refused).message(), expected);
    match PatternSet::new(&strings(&["foo"]), Some("ba(r")) {
        Err(err) => assert_eq!(err.message(), expected),
        Ok(_) => panic!("the continuation pattern should be refused"),
    }
}

#[test]
fn source_result_is_a_match_exactly_when_something_was_written() {
    let set = pattern_set(&["foo", "^end$"], None);
    let sources: Vec<&[u8]> = vec![
        b"",
        b"bar\n",
        b"foo\n",
        b"bar\n  foo\nbaz\n",
        b"bar\n baz\nqux",
        b"a\nb\nend",
        b"a\nb\nends\n",
    ];
    for content in sources {
        let (written, found) = scan_source(&set, &PLAIN, "a.txt", content);
        assert_eq!(found, !written.is_empty());
    }
    let (written, found) = scan_source(&set, &PLAIN, "a.txt", b"a\nb\nend");
    assert_eq!(written, vec![b"end".to_vec()]);
    assert!(found);
}
