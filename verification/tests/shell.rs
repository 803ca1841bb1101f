use trash_shell::builtins::Effect;
use trash_shell::command_line::{CmdLine, Event, KeyCode, Modifiers};
use trash_shell::parser::Call;
use trash_shell::shell::{dispatch, react, Dispatch, QuitKey, Reaction};

const PLAIN: Modifiers = Modifiers { shift: false, control: false, alt: false, other: false };
const CONTROL: Modifiers = Modifiers { shift: false, control: true, alt: false, other: false };

fn key(code: KeyCode, modifiers: Modifiers) -> Event {
    Event::Key { code, modifiers }
}

fn typed(text: &str) -> CmdLine {
    let mut line = CmdLine::new();
    for c in text.chars() {
        assert_eq!(react(&mut line, key(KeyCode::Char(c), PLAIN)), Reaction::Edit { repaint: true });
    }
    line
}

fn call(program: &str, args: &[&str]) -> Call {
    Call { program: program.to_owned(), args: args.iter().map(|a| a.to_string()).collect() }
}

#[test]
fn a_line_goes_to_a_builtin_or_outside() {
    assert_eq!(dispatch("ls ."), Dispatch::External(call("ls", &["."])));
    assert_eq!(dispatch("ls . x d \"a\\nb\""), Dispatch::External(call("ls", &[".", "x", "d", "a\nb"])));
    assert_eq!(dispatch("exit"), Dispatch::Builtin(Effect::Exit));
    assert_eq!(dispatch("cd"), Dispatch::Builtin(Effect::ChangeDir(None)));
    assert_eq!(dispatch("cd \"my dir\" x"), Dispatch::Builtin(Effect::ChangeDir(Some("my dir".to_owned()))));
    assert_eq!(dispatch("\"cd\" /tmp"), Dispatch::Builtin(Effect::ChangeDir(Some("/tmp".to_owned()))));
    assert_eq!(dispatch("\"\""), Dispatch::External(call("", &[])));
}

#[test]
fn a_line_that_cannot_be_read_runs_nothing() {
    for line in ["", " ", "ls . | grep a", "ls ", " ls", "\"ls", "ls \"a\\qb\"", "| x", "cd >"] {
        assert_eq!(dispatch(line), Dispatch::Nothing, "{:?}", line);
    }
}

#[test]
fn the_keys_that_end_the_session() {
    let mut line = typed("ls");
    assert_eq!(react(&mut line, key(KeyCode::Char('z'), CONTROL)), Reaction::Quit(QuitKey::Suspend));
    assert_eq!(react(&mut line, key(KeyCode::Esc, PLAIN)), Reaction::Quit(QuitKey::Escape));
    assert_eq!(react(&mut line, key(KeyCode::Esc, CONTROL)), Reaction::Quit(QuitKey::Escape));
    assert_eq!(line.content(), "ls");
}

#[test]
fn control_c_gives_the_line_up() {
    let mut line = typed("ls");
    assert_eq!(react(&mut line, key(KeyCode::Char('c'), CONTROL)), Reaction::Cancel);
    assert_eq!(line.content(), "ls");
}

#[test]
fn control_with_another_modifier_is_an_ordinary_key() {
    let mut line = CmdLine::new();
    let both = Modifiers { shift: true, control: true, alt: false, other: false };
    assert_eq!(react(&mut line, key(KeyCode::Char('z'), both)), Reaction::Edit { repaint: true });
    assert_eq!(react(&mut line, key(KeyCode::Char('c'), both)), Reaction::Edit { repaint: true });
    assert_eq!(react(&mut line, key(KeyCode::Char('x'), CONTROL)), Reaction::Edit { repaint: true });
    assert_eq!(line.content(), "zcx");
}

#[test]
fn enter_hands_the_line_in() {
    let mut line = typed("cd /tmp");
    assert_eq!(
        react(&mut line, key(KeyCode::Enter, PLAIN)),
        Reaction::Submit(Dispatch::Builtin(Effect::ChangeDir(Some("/tmp".to_owned()))))
    );
    assert_eq!(line.content(), "cd /tmp");
    let mut empty = CmdLine::new();
    assert_eq!(react(&mut empty, key(KeyCode::Enter, PLAIN)), Reaction::Submit(Dispatch::Nothing));
    let mut piped = typed("ls . | grep a");
    assert_eq!(react(&mut piped, key(KeyCode::Enter, PLAIN)), Reaction::Submit(Dispatch::Nothing));
}

#[test]
fn the_other_keys_go_to_the_editor() {
    let mut line = CmdLine::new();
    assert_eq!(react(&mut line, key(KeyCode::Backspace, PLAIN)), Reaction::Edit { repaint: false });
    assert_eq!(react(&mut line, key(KeyCode::Char('a'), PLAIN)), Reaction::Edit { repaint: true });
    assert_eq!(react(&mut line, key(KeyCode::Backspace, PLAIN)), Reaction::Edit { repaint: true });
    assert_eq!(react(&mut line, key(KeyCode::Other, PLAIN)), Reaction::Edit { repaint: false });
    assert_eq!(react(&mut line, Event::Other), Reaction::Edit { repaint: false });
    assert!(line.is_empty());
}

#[test]
fn control_with_an_unnamed_modifier_is_an_ordinary_key() {
    let mut line = CmdLine::new();
    let more = Modifiers { shift: false, control: true, alt: false, other: true };
    assert_eq!(react(&mut line, key(KeyCode::Char('z'), more)), Reaction::Edit { repaint: true });
    assert_eq!(line.content(), "z");
}
