use std::hash::{Hash, Hasher};

use rusty_suite::store::{parse_command, plan_commit, plan_for_id, GitCommand};

fn args(words: &[&str]) -> Vec<String> {
    words.iter().map(|w| w.to_string()).collect()
}

#[test]
fn recognises_init_in_any_case() {
    assert!(matches!(parse_command(&args(&["g", "init"])).command, GitCommand::Init));
    let c = parse_command(&args(&["g", "INIT"]));
    assert!(matches!(c.command, GitCommand::Init));
    assert!(!c.missing_file_name);
}

#[test]
fn commit_needs_exactly_one_file_name() {
    let c = parse_command(&args(&["g", "Commit", "notes.txt"]));
    match c.command {
        GitCommand::Commit(f) => assert_eq!(f, "notes.txt"),
        other => panic!("unexpected {:?}", other),
    }
    let c = parse_command(&args(&["g", "commit"]));
    assert!(matches!(c.command, GitCommand::Unknown));
    assert!(c.missing_file_name);
    let c = parse_command(&args(&["g", "commit", "a", "b"]));
    assert!(matches!(c.command, GitCommand::Unknown));
    assert!(c.missing_file_name);
}

#[test]
fn other_command_lines_are_unknown() {
    for line in [vec!["g"], vec!["g", "push"], vec![]] {
        let c = parse_command(&args(&line));
        assert!(matches!(c.command, GitCommand::Unknown));
        assert!(!c.missing_file_name);
    }
}

#[test]
fn plan_names_the_object_by_its_id() {
    let p = plan_for_id(0);
    assert_eq!(p.object_path, ".rustgit/objects/0");
    assert_eq!(p.head_contents, "0");
    assert_eq!(p.head_path, ".rustgit/HEAD");
    let p = plan_for_id(18_446_744_073_709_551_615);
    assert_eq!(p.object_path, ".rustgit/objects/18446744073709551615");
}

#[test]
fn commit_id_is_the_default_hash_of_the_contents() {
    let data = String::from("hello\nworld\n");
    let mut hasher = std::collections::hash_map::DefaultHasher::new();
    data.hash(&mut hasher);
    let expected = hasher.finish();
    let p = plan_commit(&data);
    assert_eq!(p.file_id, expected);
    assert_eq!(p.object_path, format!(".rustgit/objects/{}", expected));
    assert_eq!(p.head_contents, expected.to_string());
    assert_eq!(plan_commit("hello\nworld\n").file_id, p.file_id);
    assert_ne!(plan_commit("hello\nworld").file_id, p.file_id);
}

#[test]
fn distinct_ids_name_distinct_objects() {
    assert_ne!(plan_for_id(1).object_path, plan_for_id(10).object_path);
    assert_ne!(plan_for_id(12).object_path, plan_for_id(21).object_path);
}
