use trash_shell::command_line::{CmdLine, Event, KeyCode, Modifiers};

const PLAIN: Modifiers = Modifiers { shift: false, control: false, alt: false, other: false };

fn key(code: KeyCode) -> Event {
    Event::Key { code, modifiers: PLAIN }
}

fn typed(text: &str) -> CmdLine {
    let mut line = CmdLine::new();
    for c in text.chars() {
        assert!(line.handle_event(key(KeyCode::Char(c))));
    }
    line
}

#[test]
fn a_new_line_is_empty() {
    let line = CmdLine::new();
    assert!(line.is_empty());
    assert_eq!(line.content(), "");
}

#[test]
fn characters_are_appended() {
    let line = typed("ls -l é");
    assert!(!line.is_empty());
    assert_eq!(line.content(), "ls -l é");
}

#[test]
fn modifiers_do_not_keep_a_character_out() {
    let mut line = CmdLine::new();
    let shift = Modifiers { shift: true, control: false, alt: false, other: false };
    let control = Modifiers { shift: false, control: true, alt: false, other: false };
    assert!(line.handle_event(Event::Key { code: KeyCode::Char('A'), modifiers: shift }));
    assert!(line.handle_event(Event::Key { code: KeyCode::Char('x'), modifiers: control }));
    assert_eq!(line.content(), "Ax");
}

#[test]
fn backspace_on_an_empty_line_does_nothing() {
    let mut line = CmdLine::new();
    for _ in 0..5 {
        assert!(!line.handle_event(key(KeyCode::Backspace)));
        assert!(line.is_empty());
        assert_eq!(line.content(), "");
    }
}

#[test]
fn backspace_takes_the_last_character() {
    let mut line = typed("abé");
    assert!(line.handle_event(key(KeyCode::Backspace)));
    assert_eq!(line.content(), "ab");
    assert!(line.handle_event(key(KeyCode::Backspace)));
    assert_eq!(line.content(), "a");
}

#[test]
fn backspaces_undo_what_was_typed() {
    let mut line = typed("echo ");
    let before = line.content().clone();
    let more = "\"«hello»\" | wc";
    for c in more.chars() {
        line.handle_event(key(KeyCode::Char(c)));
    }
    assert_eq!(line.content(), &format!("{}{}", before, more));
    for _ in more.chars() {
        assert!(line.handle_event(key(KeyCode::Backspace)));
    }
    assert_eq!(line.content(), &before);
}

#[test]
fn other_events_leave_the_line_alone() {
    let mut line = typed("ls");
    for e in [key(KeyCode::Enter), key(KeyCode::Esc), key(KeyCode::Other), Event::Other] {
        assert!(!line.handle_event(e));
        assert_eq!(line.content(), "ls");
    }
}
