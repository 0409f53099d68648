use memlink::sandbox::{bounded_utf8, first_line_of, summarize, SandboxError};
use memlink::text::{count_lines, count_matches, decimal_string, join_strings, take_chars};
use memlink::words::{infer_topic, keywords, split_csv, terms};

#[test]
fn terms_are_lower_case_words_longer_than_one_byte() {
    assert_eq!(
        terms("StateRef, shared-Memory! a b2 é"),
        vec!["stateref".to_owned(), "shared".to_owned(), "memory".to_owned(), "b2".to_owned(), "é".to_owned()]
    );
    assert!(terms("").is_empty());
}

#[test]
fn csv_items_are_trimmed_and_never_empty() {
    assert_eq!(split_csv(" stateref, summary ,, memory "), vec!["stateref", "summary", "memory"]);
    assert!(split_csv("").is_empty());
    assert!(split_csv(" , ,").is_empty());
}

#[test]
fn topic_is_the_first_eight_words() {
    assert_eq!(infer_topic("  one two\tthree\nfour five six seven eight nine ten"), "one two three four five six seven eight");
    assert_eq!(infer_topic("short text"), "short text");
    assert_eq!(infer_topic("   "), "");
}

#[test]
fn keywords_are_sorted_unique_and_at_most_twelve() {
    assert_eq!(
        keywords("Memory reuse: memory, STATE and the state of the art"),
        vec!["and", "art", "memory", "reuse", "state", "the"]
    );
    let many = keywords("alpha bravo charlie delta echo foxtrot golf hotel india juliet kilo lima mike november");
    assert_eq!(many.len(), 12);
    assert_eq!(many[0], "alpha");
    assert!(!many.contains(&"mike".to_owned()));
    assert!(keywords("a an ox").is_empty());
}

#[test]
fn counting_lines_and_matches() {
    assert_eq!(count_lines(""), 0);
    assert_eq!(count_lines("one"), 1);
    assert_eq!(count_lines("one\ntwo\n"), 2);
    assert_eq!(count_lines("one\n\nthree"), 3);
    assert_eq!(count_matches("TODO: x TODOTODO", "TODO"), 3);
    assert_eq!(count_matches("aaaa", "aa"), 2);
}

#[test]
fn joining_prefixes_and_numbers() {
    let parts = vec!["a".to_owned(), "b".to_owned(), "c".to_owned()];
    assert_eq!(join_strings(&parts, ", "), "a, b, c");
    assert_eq!(join_strings(&Vec::new(), ","), "");
    assert_eq!(take_chars("héllo", 2), "hé");
    assert_eq!(take_chars("hi", 10), "hi");
    assert_eq!(decimal_string(0), "0");
    assert_eq!(decimal_string(1234567890), "1234567890");
}

#[test]
fn run_output_is_bounded_and_summarized() {
    assert_eq!(bounded_utf8(b"hello".to_vec(), 10), "hello");
    assert_eq!(bounded_utf8(b"hello".to_vec(), 3), "hel\n[truncated]");
    assert_eq!(bounded_utf8(vec![0xe4, 0xbd, 0xa0], 2), "\u{FFFD}\n[truncated]");
    assert_eq!(first_line_of("42\r\nrest"), "42");
    assert_eq!(first_line_of(""), "");
    assert_eq!(first_line_of("abc\r"), "abc\r");
    assert_eq!(summarize(true, "abc\r", ""), "success=true; preview=abc\r");
    assert_eq!(summarize(true, "42\n", "err"), "success=true; preview=42");
    assert_eq!(summarize(false, "out", "Traceback\nline"), "success=false; preview=Traceback");
}

#[test]
fn a_finished_run_succeeds_on_exit_code_zero_and_bounds_its_output() {
    let ok = memlink::sandbox::finished_run(1, Some(0), b"42\nmore".to_vec(), Vec::new(), 4, 7);
    assert!(ok.success);
    assert_eq!(ok.stdout, "42\nm\n[truncated]");
    assert_eq!(ok.summary, "success=true; preview=42");
    assert_eq!(ok.duration_ms, 7);
    assert!(ok.output_ref.is_none());
    let failed = memlink::sandbox::finished_run(2, Some(1), Vec::new(), b"boom\r".to_vec(), 64, 1);
    assert!(!failed.success);
    assert_eq!(failed.summary, "success=false; preview=boom\r");
    let killed = memlink::sandbox::finished_run(3, None, Vec::new(), Vec::new(), 64, 1);
    assert!(!killed.success);
}

#[test]
fn comma_lists_round_trip_through_join() {
    let tags = vec!["stateref".to_owned(), "shared memory".to_owned(), "é".to_owned()];
    assert_eq!(split_csv(&tags.join(",")), tags);
    assert_eq!(split_csv(" a, ,b ,"), vec!["a", "b"]);
    for item in split_csv("  x ,, y z ,\t w\t") {
        assert!(!item.is_empty());
        assert_eq!(item.trim(), item);
        assert!(!item.contains(','));
    }
}

#[test]
fn sandbox_errors_name_the_limit() {
    assert_eq!(SandboxError::Timeout(1500).message(), "sandbox timed out after 1500 ms");
    let io = SandboxError::Io(std::io::Error::new(std::io::ErrorKind::Other, "no python"));
    assert_eq!(io.message(), "sandbox io error: no python");
}
