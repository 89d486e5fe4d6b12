use rusty_suite::log_search::{line_mentions, raport_from_args};

fn args(words: &[&str]) -> Vec<String> {
    words.iter().map(|w| w.to_string()).collect()
}

#[test]
fn wrong_argument_counts_are_refused() {
    assert!(raport_from_args(&args(&["prog"])).is_none());
    assert!(raport_from_args(&args(&["prog", "file"])).is_none());
    assert!(raport_from_args(&args(&["prog", "a", "b", "c", "d"])).is_none());
}

#[test]
fn report_starts_empty() {
    let r = raport_from_args(&args(&["prog", "app.log", "ERROR"])).unwrap();
    assert_eq!(r.file_name, "app.log");
    assert_eq!(r.searched_word, "ERROR");
    assert_eq!(r.number_of_occurrences, 0);
    assert!(!r.print_logs);
    let r = raport_from_args(&args(&["prog", "app.log", "ERROR", "yes"])).unwrap();
    assert!(r.print_logs);
}

#[test]
fn words_match_after_trailing_colons_go() {
    assert!(line_mentions("12:00 ERROR: disk full", "ERROR"));
    assert!(line_mentions("ERROR:::", "ERROR"));
    assert!(line_mentions("x\tERROR", "ERROR"));
    assert!(!line_mentions("ERRORS here", "ERROR"));
    assert!(!line_mentions(":ERROR here", "ERROR"));
    assert!(!line_mentions("error here", "ERROR"));
    assert!(!line_mentions("", "ERROR"));
}

#[test]
fn each_line_counts_once() {
    let mut r = raport_from_args(&args(&["prog", "f", "WARN", "p"])).unwrap();
    assert!(r.record_line("WARN: a WARN: b"));
    assert!(!r.record_line("INFO: fine"));
    assert!(r.record_line("  WARN"));
    assert_eq!(r.number_of_occurrences, 2);
    let mut quiet = raport_from_args(&args(&["prog", "f", "WARN"])).unwrap();
    assert!(!quiet.record_line("WARN"));
    assert_eq!(quiet.number_of_occurrences, 1);
}
