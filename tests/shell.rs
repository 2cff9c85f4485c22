use rawshell::commands::{load_commands_from_path, CommandSet, FileInfo};
use rawshell::dispatch::{cd_failure, cd_target, run, Builtin, Dispatch, Registry};
use rawshell::editor::{classify, control_name, Action, Key, LineEditor, ERASE, PROMPT};

fn strings(v: &[&str]) -> Vec<String> {
    v.iter().map(|s| s.to_string()).collect()
}

fn echo(a: Action) -> String {
    match a {
        Action::Echo(s) => s,
        _ => panic!("expected an echo"),
    }
}

#[test]
fn typing_echoes_and_fills_buffer() {
    let mut ed = LineEditor::new();
    assert_eq!(echo(ed.feed(b'a')), "a");
    assert_eq!(echo(ed.feed(b'b')), "b");
    assert_eq!(ed.buffer(), "ab");
}

#[test]
fn backspace_erases_last_character() {
    let mut ed = LineEditor::new();
    ed.feed(b'x');
    ed.feed(b'y');
    assert_eq!(echo(ed.feed(0x7F)), ERASE);
    assert_eq!(ed.buffer(), "x");
    assert_eq!(echo(ed.feed(0x08)), "\x1b[D \x1b[D");
    assert_eq!(ed.buffer(), "");
}

#[test]
fn backspace_on_empty_buffer_does_nothing() {
    let mut ed = LineEditor::new();
    assert!(matches!(ed.feed(0x08), Action::Ignore));
    assert!(matches!(ed.feed(0x7F), Action::Ignore));
    assert_eq!(ed.buffer(), "");
}

#[test]
fn enter_submits_and_clears() {
    let mut ed = LineEditor::new();
    for b in b"ls -l" {
        ed.feed(*b);
    }
    match ed.feed(0x0D) {
        Action::Submit(line) => assert_eq!(line, "ls -l"),
        _ => panic!("expected a submitted line"),
    }
    assert_eq!(ed.buffer(), "");
}

#[test]
fn interrupt_quits() {
    let mut ed = LineEditor::new();
    ed.feed(b'q');
    assert!(matches!(ed.feed(0x03), Action::Quit));
    assert_eq!(ed.buffer(), "q");
}

#[test]
fn control_bytes_show_their_names() {
    let mut ed = LineEditor::new();
    assert_eq!(echo(ed.feed(0x00)), "NUL");
    assert_eq!(echo(ed.feed(0x1B)), "ESC");
    assert_eq!(echo(ed.feed(0x0A)), "LF");
    assert_eq!(ed.buffer(), "");
    assert_eq!(control_name(0x1F), "US");
}

#[test]
fn tab_asks_for_completion_and_redraws() {
    let mut ed = LineEditor::new();
    for b in b"hel" {
        ed.feed(*b);
    }
    assert!(matches!(ed.feed(0x09), Action::Complete));
    let shown = ed.accept_completion("lo ");
    assert_eq!(ed.buffer(), "hello ");
    assert_eq!(shown, format!("{}hello ", PROMPT));
}

#[test]
fn bytes_are_classified() {
    assert_eq!(classify(0x03), Key::Interrupt);
    assert_eq!(classify(0x0D), Key::Enter);
    assert_eq!(classify(0x7F), Key::Erase);
    assert_eq!(classify(0x09), Key::Complete);
    assert_eq!(classify(0x01), Key::Control(0x01));
    assert_eq!(classify(b' '), Key::Text(b' '));
    assert_eq!(classify(0xE9), Key::Text(0xE9));
}

#[test]
fn empty_line_dispatches_nothing() {
    let reg = Registry::standard();
    assert!(matches!(run("", &reg), Dispatch::Nothing));
    assert!(matches!(run("   ", &reg), Dispatch::Nothing));
    assert!(matches!(run(" \t\u{a0}\u{85}\u{2003} ", &reg), Dispatch::Nothing));
}

#[test]
fn builtin_gets_its_own_name_first() {
    let reg = Registry::standard();
    match run("cd ..", &reg) {
        Dispatch::Builtin(b, argv) => {
            assert_eq!(b, Builtin::Cd);
            assert_eq!(argv, strings(&["cd", ".."]));
        }
        _ => panic!("expected a builtin"),
    }
    match run("  hello ", &reg) {
        Dispatch::Builtin(b, argv) => {
            assert_eq!(b, Builtin::Hello);
            assert_eq!(argv, strings(&["hello"]));
        }
        _ => panic!("expected a builtin"),
    }
}

#[test]
fn other_commands_go_outside() {
    let reg = Registry::standard();
    match run("ls -l \"my dir\" ", &reg) {
        Dispatch::External(argv) => assert_eq!(argv, strings(&["ls", "-l", "my dir"])),
        _ => panic!("expected an external command"),
    }
}

#[test]
fn later_registration_wins() {
    let mut reg = Registry::new();
    reg.register("x".to_string(), Builtin::Hello);
    reg.register("x".to_string(), Builtin::Cd);
    assert_eq!(reg.get("x"), Some(Builtin::Cd));
    assert_eq!(reg.get("y"), None);
}

#[test]
fn cd_takes_its_first_argument() {
    assert_eq!(cd_target(&strings(&["cd", ".."])), Some("..".to_string()));
    assert_eq!(cd_target(&strings(&["cd"])), None);
}

#[test]
fn failed_cd_reports_the_command_line() {
    let msg = cd_failure(&strings(&["cd", "nowhere"]), "No such file or directory (os error 2)");
    assert_eq!(msg, "cd nowhere: No such file or directory (os error 2)");
}

#[test]
fn command_set_keeps_each_name_once() {
    let mut s = CommandSet::new();
    s.insert("ls".to_string());
    s.insert("cat".to_string());
    s.insert("ls".to_string());
    assert_eq!(s.names(), &strings(&["ls", "cat"]));
    assert!(s.contains("cat"));
    assert!(!s.contains("ca"));
}

#[test]
fn loader_takes_executable_files_only() {
    let entries = vec![
        FileInfo { name: "ls".to_string(), is_file: true, mode: 0o755 },
        FileInfo { name: "notes".to_string(), is_file: true, mode: 0o644 },
        FileInfo { name: "bin".to_string(), is_file: false, mode: 0o755 },
        FileInfo { name: "run".to_string(), is_file: true, mode: 0o100 },
        FileInfo { name: "ls".to_string(), is_file: true, mode: 0o711 },
    ];
    let mut s = CommandSet::new();
    s.insert("cat".to_string());
    load_commands_from_path(&entries, &mut s);
    assert_eq!(s.names(), &strings(&["cat", "ls", "run"]));
}
