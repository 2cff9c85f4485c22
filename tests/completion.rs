use rawshell::commands::CommandSet;
use rawshell::complete::{
    lcp, path_target, suggest, suggest_argument_or_path, suggest_command,
    suggest_command_or_path, suggest_path, Completion, Entry, Suggestion,
};

fn set(names: &[&str]) -> CommandSet {
    let mut s = CommandSet::new();
    for n in names {
        s.insert(n.to_string());
    }
    s
}

fn strings(v: &[&str]) -> Vec<String> {
    v.iter().map(|s| s.to_string()).collect()
}

fn ready(s: Suggestion) -> Completion {
    match s {
        Suggestion::Ready(c) => c,
        Suggestion::Path(p) => panic!("expected a ready completion, got path {}", p),
    }
}

fn path(s: Suggestion) -> String {
    match s {
        Suggestion::Path(p) => p,
        Suggestion::Ready(c) => panic!("expected a path, got {}", c.suffix),
    }
}

#[test]
fn lcp_of_one_is_itself() {
    assert_eq!(lcp(&strings(&["foo"])), "foo");
}

#[test]
fn lcp_of_several() {
    assert_eq!(lcp(&strings(&["flower", "flow", "flight"])), "fl");
    assert_eq!(lcp(&strings(&["cat", "car"])), "ca");
    assert_eq!(lcp(&strings(&["abc", "xyz"])), "");
}

#[test]
fn lcp_of_none_is_empty() {
    assert_eq!(lcp(&Vec::new()), "");
}

#[test]
fn lcp_is_prefix_of_all_and_longest() {
    let names = strings(&["interrupt", "internal", "interval"]);
    let p = lcp(&names);
    assert_eq!(p, "inter");
    assert!(names.iter().all(|n| n.starts_with(&p)));
}

#[test]
fn ambiguous_command_lists_both_and_adds_nothing() {
    let c = suggest_command("ca", &set(&["cat", "car"]));
    assert_eq!(c.suffix, "");
    assert_eq!(c.candidates, strings(&["cat", "car"]));
}

#[test]
fn single_command_gets_trailing_space() {
    let c = suggest_command("hel", &set(&["hello"]));
    assert_eq!(c.suffix, "lo ");
    assert!(c.candidates.is_empty());
}

#[test]
fn partial_completion_to_common_prefix() {
    let c = suggest_command("g", &set(&["git", "gitk", "ls"]));
    assert_eq!(c.suffix, "it");
    assert_eq!(c.candidates, strings(&["git", "gitk"]));
}

#[test]
fn no_command_matches() {
    let c = suggest_command("zz", &set(&["cat"]));
    assert_eq!(c.suffix, "");
    assert!(c.candidates.is_empty());
}

#[test]
fn suggest_first_word_is_command() {
    let c = ready(suggest("hel", &set(&["hello", "cat"])));
    assert_eq!(c.suffix, "lo ");
    let c = ready(suggest("ca", &set(&["cat", "car"])));
    assert_eq!(c.suffix, "");
    assert_eq!(c.candidates.len(), 2);
}

#[test]
fn suggest_empty_buffer_is_nothing() {
    let c = ready(suggest("", &set(&["cat"])));
    assert_eq!(c.suffix, "");
    assert!(c.candidates.is_empty());
}

#[test]
fn suggest_dot_slash_is_path() {
    assert_eq!(path(suggest("./sc", &set(&["cat"]))), "./sc");
    assert_eq!(path(suggest_command_or_path("./a", &set(&[]))), "./a");
}

#[test]
fn suggest_later_word_is_path() {
    assert_eq!(path(suggest("cat sr", &set(&["cat"]))), "sr");
    assert_eq!(path(suggest("ls ", &set(&["ls"]))), "");
}

#[test]
fn flags_are_not_completed() {
    let c = ready(suggest("ls -l", &set(&["ls"])));
    assert_eq!(c.suffix, "");
    let c = ready(suggest_argument_or_path("--he"));
    assert_eq!(c.suffix, "");
    assert_eq!(path(suggest_argument_or_path("x")), "x");
}

fn entry(name: &str, is_dir: bool) -> Entry {
    Entry { name: name.to_string(), is_dir }
}

#[test]
fn single_directory_gets_slash() {
    let c = suggest_path("s", &vec![entry("src", true), entry("Cargo.toml", false)]);
    assert_eq!(c.suffix, "rc/");
}

#[test]
fn single_file_gets_space() {
    let c = suggest_path("m", &vec![entry("main.rs", false), entry("lib.rs", false)]);
    assert_eq!(c.suffix, "ain.rs ");
}

#[test]
fn several_files_complete_to_common_prefix() {
    let c = suggest_path(
        "mo",
        &vec![entry("module_a", false), entry("x", true), entry("module_b", true)],
    );
    assert_eq!(c.suffix, "dule_");
    assert_eq!(c.candidates, strings(&["module_a", "module_b"]));
}

#[test]
fn no_file_matches() {
    let c = suggest_path("q", &vec![entry("a", false)]);
    assert_eq!(c.suffix, "");
    assert!(c.candidates.is_empty());
}

#[test]
fn path_target_splits_at_last_slash() {
    let t = path_target("src/ma", false);
    assert_eq!((t.dir.as_str(), t.prefix.as_str()), ("src/", "ma"));
    let t = path_target("/usr/b", false);
    assert_eq!((t.dir.as_str(), t.prefix.as_str()), ("/usr/", "b"));
    let t = path_target("./a/b/c", false);
    assert_eq!((t.dir.as_str(), t.prefix.as_str()), ("./a/b/", "c"));
}

#[test]
fn path_target_without_slash_lists_current_directory() {
    let t = path_target("foo", false);
    assert_eq!((t.dir.as_str(), t.prefix.as_str()), (".", "foo"));
    let t = path_target("", false);
    assert_eq!((t.dir.as_str(), t.prefix.as_str()), (".", ""));
}

#[test]
fn path_target_of_directory_lists_it() {
    let t = path_target("src", true);
    assert_eq!((t.dir.as_str(), t.prefix.as_str()), ("src", ""));
}

#[test]
fn path_target_drops_one_trailing_slash() {
    let t = path_target("a/b/", false);
    assert_eq!((t.dir.as_str(), t.prefix.as_str()), ("a/", "b"));
    let t = path_target("a/", false);
    assert_eq!((t.dir.as_str(), t.prefix.as_str()), (".", "a"));
    let t = path_target("a/b/", true);
    assert_eq!((t.dir.as_str(), t.prefix.as_str()), ("a/b/", ""));
}
