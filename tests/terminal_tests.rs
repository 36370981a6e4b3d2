use taskmaster::monitor::CommandName;
use taskmaster::editor::{Echo, LineEditor};
use taskmaster::terminal::{Reply, TermInput, Terminal};

#[test]
fn completions_filter_by_prefix() {
    assert_eq!(Terminal::get_completions("st"), vec!["status", "start", "stop"]);
    assert_eq!(Terminal::get_completions("sh"), vec!["shutdown"]);
    assert_eq!(Terminal::get_completions("x"), Vec::<String>::new());
    assert_eq!(Terminal::get_completions("").len(), 8);
}

#[test]
fn task_and_arg_split() {
    let a = Terminal::get_task_and_arg("web:1");
    assert_eq!((a.name.as_str(), a.id.as_str()), ("web", "1"));
    let b = Terminal::get_task_and_arg("web");
    assert_eq!((b.name.as_str(), b.id.as_str()), ("web", "*"));
    let c = Terminal::get_task_and_arg("web:");
    assert_eq!((c.name.as_str(), c.id.as_str()), ("web", "*"));
    let d = Terminal::get_task_and_arg("a:b:c");
    assert_eq!((d.name.as_str(), d.id.as_str()), ("a", "b:c"));
}

#[test]
fn parse_args_takes_command_then_arguments() {
    let (cmd, args) = Terminal::parse_args(&vec!["stop", "web:1", "db"]);
    assert_eq!(cmd.as_deref(), Some("stop"));
    assert_eq!(args.len(), 2);
    assert_eq!(args[1].name, "db");
    assert_eq!(args[1].id, "*");
    let (none, empty) = Terminal::parse_args(&vec![]);
    assert!(none.is_none());
    assert!(empty.is_empty());
}

#[test]
fn check_input_builds_commands() {
    match Terminal::check_input("  stop web:1  ") {
        Reply::Send(t) => {
            assert_eq!(t.cmd_name, CommandName::STOP);
            assert_eq!(t.args.len(), 1);
            assert_eq!(t.args[0].name, "web");
            assert_eq!(t.args[0].id, "1");
        },
        _ => panic!("expected a command"),
    }
    assert!(matches!(Terminal::check_input("status"), Reply::Send(TermInput { cmd_name: CommandName::STATUS, .. })));
    assert!(matches!(Terminal::check_input("update"), Reply::Send(TermInput { cmd_name: CommandName::UPDATE, .. })));
    assert!(matches!(Terminal::check_input("shutdown"), Reply::Send(TermInput { cmd_name: CommandName::SHUTDOWN, .. })));
    assert!(matches!(Terminal::check_input("kill"), Reply::Send(TermInput { cmd_name: CommandName::KILL, .. })));
}

#[test]
fn check_input_usage_help_and_unknown() {
    assert!(matches!(Terminal::check_input("start"), Reply::MissingTask(ref c) if c == "start"));
    assert!(matches!(Terminal::check_input("restart"), Reply::MissingTask(ref c) if c == "restart"));
    assert!(matches!(Terminal::check_input("help"), Reply::Help));
    assert!(matches!(Terminal::check_input("frobnicate x"), Reply::NotFound));
    assert!(matches!(Terminal::check_input("   "), Reply::Nothing));
    assert!(matches!(Terminal::check_input(""), Reply::Nothing));
}

fn type_line(e: &mut LineEditor, s: &str) -> Vec<char> {
    for c in s.chars() {
        e.insert_char(c);
    }
    e.enter()
}

#[test]
fn editor_records_history_and_browses_it() {
    let mut t = Terminal::new();
    let e = &mut t.editor;
    assert_eq!(type_line(e, "status"), "status".chars().collect::<Vec<_>>());
    type_line(e, "stop web");
    assert_eq!(e.history.len(), 2);
    e.insert_char('x');
    assert_eq!(e.up(), Echo::Redraw);
    assert_eq!(e.line.iter().collect::<String>(), "stop web");
    assert_eq!(e.up(), Echo::Redraw);
    assert_eq!(e.line.iter().collect::<String>(), "status");
    assert_eq!(e.up(), Echo::Nothing);
    assert_eq!(e.down(), Echo::Redraw);
    assert_eq!(e.line.iter().collect::<String>(), "stop web");
    assert_eq!(e.down(), Echo::Redraw);
    assert_eq!(e.line.iter().collect::<String>(), "x");
    assert_eq!(e.cursor, 1);
    assert_eq!(e.down(), Echo::Nothing);
}

#[test]
fn editor_moves_cursor_and_deletes() {
    let mut e = LineEditor::new();
    for c in "stp".chars() {
        e.insert_char(c);
    }
    assert_eq!(e.left(), Echo::CursorLeft);
    e.insert_char('o');
    assert_eq!(e.line.iter().collect::<String>(), "stop");
    assert_eq!(e.cursor, 3);
    assert_eq!(e.right(), Echo::CursorRight);
    assert_eq!(e.right(), Echo::Nothing);
    assert_eq!(e.backspace(), Echo::Redraw);
    assert_eq!(e.line.iter().collect::<String>(), "sto");
    e.left();
    e.left();
    e.left();
    assert_eq!(e.left(), Echo::Nothing);
    assert_eq!(e.backspace(), Echo::Nothing);
}

fn chars(v: Vec<String>) -> Vec<Vec<char>> {
    v.iter().map(|s| s.chars().collect()).collect()
}

#[test]
fn editor_tab_lists_then_cycles() {
    let mut e = LineEditor::new();
    e.insert_char('s');
    e.insert_char('t');
    let base: String = e.completion_base().iter().collect();
    let comps = chars(Terminal::get_completions(&base));
    assert_eq!(e.tab(&comps), Echo::ListCompletions);
    assert_eq!(e.line.iter().collect::<String>(), "st");
    assert_eq!(e.tab(&comps), Echo::Redraw);
    assert_eq!(e.line.iter().collect::<String>(), "start");
    let base: String = e.completion_base().iter().collect();
    assert_eq!(base, "st");
    assert_eq!(e.tab(&comps), Echo::Redraw);
    assert_eq!(e.line.iter().collect::<String>(), "stop");
    assert_eq!(e.tab(&comps), Echo::Redraw);
    assert_eq!(e.line.iter().collect::<String>(), "status");
    e.insert_char(' ');
    assert_eq!(e.tab_index, 0);
}

#[test]
fn editor_tab_single_completion() {
    let mut e = LineEditor::new();
    e.insert_char('h');
    let comps = chars(Terminal::get_completions("h"));
    assert_eq!(e.tab(&comps), Echo::Redraw);
    assert_eq!(e.line.iter().collect::<String>(), "help");
    assert_eq!(e.cursor, 4);
}

#[test]
fn term_input_new_keeps_fields() {
    let t = TermInput::new(CommandName::RESTART, vec![]);
    assert_eq!(t.cmd_name, CommandName::RESTART);
    assert!(t.args.is_empty());
}
