//! The line editor: the command line being typed, the keys that change it,
//! and how it is laid out on the terminal.

use vstd::prelude::*;
use crate::builtins::{builtin_named, lookup};
use crate::grammar::{spans, token_advances, Span};
use crate::parser::{show_all, tokenize_program_call, Token};
use crate::render::{
    byte_len, color_of, compose, line_rows, line_width, on_search_path, painted,
    painted_width, program_written, rows_for, top_row, word_at, words, Segment, Word,
};

verus! {

/// A key of the keyboard, as far as the shell tells keys apart.
#[derive(Debug, PartialEq, Eq, Clone, Copy)]
pub enum KeyCode {
    Char(char),
    Backspace,
    Enter,
    Esc,
    Other,
}

/// The modifier keys held down with a key.
#[derive(Debug, PartialEq, Eq, Clone, Copy)]
pub struct Modifiers {
    pub shift: bool,
    pub control: bool,
    pub alt: bool,
    /// Any modifier other than these three.
    pub other: bool,
}

/// What the terminal reports: a key with its modifiers, or something else
/// (the mouse, a new size).
#[derive(Debug, PartialEq, Eq, Clone, Copy)]
pub enum Event {
    Key { code: KeyCode, modifiers: Modifiers },
    Other,
}

/// The command line after `e`: a character is appended whatever the
/// modifiers, backspace removes the last character if there is one, and
/// nothing else changes the line.
pub open spec fn edited(line: Seq<char>, e: Event) -> Seq<char> {
    match e {
        Event::Key { code: KeyCode::Char(c), .. } => line.push(c),
        Event::Key { code: KeyCode::Backspace, .. } => if line.len() > 0 {
            line.drop_last()
        } else {
            line
        },
        _ => line,
    }
}

/// Whether `e` changes the command line `line`, so that it has to be painted
/// again.
pub open spec fn edits(line: Seq<char>, e: Event) -> bool {
    match e {
        Event::Key { code: KeyCode::Char(_), .. } => true,
        Event::Key { code: KeyCode::Backspace, .. } => line.len() > 0,
        _ => false,
    }
}

/// The command line after each of `events` in turn.
pub open spec fn edited_all(line: Seq<char>, events: Seq<Event>) -> Seq<char>
    decreases events.len(),
{
    if events.len() == 0 {
        line
    } else {
        edited(edited_all(line, events.drop_last()), events.last())
    }
}

/// Whether `e` is the backspace key, with any modifiers.
pub open spec fn is_backspace(e: Event) -> bool {
    e matches Event::Key { code: KeyCode::Backspace, .. }
}

/// Whether `e` is the key of the character `c`, with any modifiers.
pub open spec fn types(e: Event, c: char) -> bool {
    e matches Event::Key { code: KeyCode::Char(d), .. } && d == c
}

/// Backspace on an empty line changes nothing, however often it is pressed.
pub proof fn backspace_on_empty(events: Seq<Event>)
    requires
        forall|k: int| 0 <= k < events.len() ==> is_backspace(#[trigger] events[k]),
    ensures
        edited_all(Seq::empty(), events) == Seq::<char>::empty(),
        forall|k: int| 0 <= k < events.len() ==> !edits(Seq::empty(), #[trigger] events[k]),
    decreases events.len(),
{
    if events.len() > 0 {
        backspace_on_empty(events.drop_last());
    }
}

/// Typing the characters `typed` appends them to the line.
pub proof fn typing_appends(line: Seq<char>, typed: Seq<char>, events: Seq<Event>)
    requires
        events.len() == typed.len(),
        forall|k: int| 0 <= k < events.len() ==> types(#[trigger] events[k], typed[k]),
    ensures
        edited_all(line, events) == line + typed,
    decreases events.len(),
{
    if events.len() == 0 {
        assert(line + typed =~= line);
    } else {
        typing_appends(line, typed.drop_last(), events.drop_last());
        assert((line + typed.drop_last()).push(typed.last()) =~= line + typed);
    }
}

/// As many backspaces as `typed` has characters take them off again.
pub proof fn backspaces_remove(line: Seq<char>, typed: Seq<char>, events: Seq<Event>)
    requires
        events.len() == typed.len(),
        forall|k: int| 0 <= k < events.len() ==> is_backspace(#[trigger] events[k]),
    ensures
        edited_all(line + typed, events) == line,
    decreases events.len(),
{
    if events.len() == 0 {
        assert(line + typed =~= line);
    } else {
        let first = seq![typed[0]];
        let rest = typed.drop_first();
        let later = events.drop_last();
        assert((line + first) + rest =~= line + typed);
        assert forall|k: int| 0 <= k < later.len() implies is_backspace(#[trigger] later[k]) by {
            assert(later[k] == events[k]);
        }
        backspaces_remove(line + first, rest, later);
        assert((line + first).drop_last() =~= line);
    }
}

/// Inverse operations: after typing some characters and pressing backspace
/// once for each of them, the line is exactly what it was.
pub proof fn backspace_undoes_typing(
    line: Seq<char>,
    typed: Seq<char>,
    keys: Seq<Event>,
    erasures: Seq<Event>,
)
    requires
        keys.len() == typed.len(),
        erasures.len() == typed.len(),
        forall|k: int| 0 <= k < keys.len() ==> types(#[trigger] keys[k], typed[k]),
        forall|k: int| 0 <= k < erasures.len() ==> is_backspace(#[trigger] erasures[k]),
    ensures
        edited_all(edited_all(line, keys), erasures) == line,
{
    typing_appends(line, typed, keys);
    backspaces_remove(line, typed, erasures);
}

/// What is to be done to the terminal to paint the command line anew.
#[derive(Debug, PartialEq, Eq)]
pub struct Frame {
    /// How many times to clear the cursor's row and move one row up, which
    /// clears every row of the last painting but its first.
    pub clear_above: usize,
    /// The row to move to then, to its first column, and to clear: the first
    /// row of the last painting.
    pub row: u16,
    /// What to write from there on.
    pub words: Vec<Segment>,
}

/// Why a command line cannot be laid out.
#[derive(Debug, PartialEq, Eq, Clone, Copy)]
pub enum PaintError {
    /// The terminal has no columns.
    NoColumns,
    /// The working directory, the separator and the line take more bytes
    /// than a `usize` can count.
    TooWide,
}

/// Why the line `line` cannot be laid out after `prompt` on a terminal of
/// `term_width` columns, if it cannot.
pub open spec fn paint_error(prompt: Seq<char>, line: Seq<char>, term_width: u16) -> Option<
    PaintError,
> {
    if term_width == 0 {
        Some(PaintError::NoColumns)
    } else if byte_len(prompt) + 2 + byte_len(line) > usize::MAX {
        Some(PaintError::TooWide)
    } else {
        None
    }
}

/// Whether the program of `line` is painted as one that can be run: it names
/// a built-in, or it is on the search path. A line without a program has none
/// that can be run.
pub open spec fn known_program(line: Seq<char>, on_path: bool) -> bool {
    match program_written(line) {
        Some(name) => builtin_named(name) is Some || on_path,
        None => false,
    }
}

/// The command line being typed, and how it was last painted.
pub struct CmdLine {
    content: String,
    /// The rows that the last painting took beyond its first.
    wrapped: usize,
}

impl View for CmdLine {
    type V = Seq<char>;

    closed spec fn view(&self) -> Seq<char> {
        self.content@
    }
}

impl CmdLine {
    /// The number of rows that the last painting took: at least one.
    pub closed spec fn rows(&self) -> nat {
        (self.wrapped + 1) as nat
    }

    /// A painting takes at least one row.
    pub proof fn rows_positive(&self)
        ensures
            self.rows() >= 1,
    {
    }

    /// An empty line, taken as painted on one row.
    pub fn new() -> (line: CmdLine)
        ensures
            line@ == Seq::<char>::empty(),
            line.rows() == 1,
    {
        CmdLine { content: String::new(), wrapped: 0 }
    }

    /// Applies `e` to the line. Returns whether the line changed and has to
    /// be painted again.
    pub fn handle_event(&mut self, e: Event) -> (repaint: bool)
        ensures
            final(self)@ == edited(old(self)@, e),
            final(self).rows() == old(self).rows(),
            repaint == edits(old(self)@, e),
    {
        match e {
            Event::Key { code: KeyCode::Char(c), .. } => {
                self.content.push(c);
                true
            },
            Event::Key { code: KeyCode::Backspace, .. } => {
                if !self.content.as_str().is_empty() {
                    self.content.pop();
                    true
                } else {
                    false
                }
            },
            _ => false,
        }
    }

    /// Whether nothing has been typed.
    pub fn is_empty(&self) -> (r: bool)
        ensures
            r == (self@.len() == 0),
    {
        self.content.as_str().is_empty()
    }

    /// What has been typed.
    pub fn content(&self) -> (r: &String)
        ensures
            r@ == self@,
    {
        &self.content
    }

    /// The program of the line as it is written, if the line begins with a
    /// token.
    fn program<'a>(line: &'a str, tokens: &Vec<Token<'a>>) -> (name: Option<&'a str>)
        requires
            show_all(tokens@, line@, spans(line@)),
        ensures
            match program_written(line@) {
                Some(text) => name matches Some(found) && found@ == text,
                None => name is None,
            },
    {
        proof {
            token_advances(line@, 0);
        }
        match tokens[0] {
            Token::FunctionCall(name) => Some(name),
            _ => None,
        }
    }

    /// Whether `r` and the line `after` are what laying the line out gives,
    /// with its program painted as `known` says. Where it can be laid out,
    /// the frame clears the rows of the last painting, begins on its first
    /// row and holds what is painted, and the line remembers the rows that
    /// the new painting takes; where it cannot, the error says why and the
    /// line remembers what it did. What has been typed stays either way.
    pub open spec fn laid_out(
        self,
        after: CmdLine,
        prompt: Seq<char>,
        term_width: u16,
        cursor_row: u16,
        known: bool,
        r: Result<Frame, PaintError>,
    ) -> bool {
        &&& after@ == self@
        &&& match paint_error(prompt, self@, term_width) {
            Some(e) => r matches Err(x) && x == e && after.rows() == self.rows(),
            None => {
                &&& r matches Ok(frame) && frame.clear_above + 1 == self.rows() && frame.row
                    == top_row(cursor_row as nat, self.rows()) && words(frame.words@) == painted(
                    prompt,
                    self@,
                    known,
                )
                &&& after.rows() == rows_for(
                    byte_len(prompt) + 2 + byte_len(self@),
                    term_width as nat,
                )
            },
        }
    }

    fn frame(
        &mut self,
        prompt: &str,
        tokens: &Vec<Token>,
        known: bool,
        term_width: u16,
        cursor_row: u16,
    ) -> (r: Result<Frame, PaintError>)
        requires
            show_all(tokens@, old(self)@, spans(old(self)@)),
        ensures
            old(self).laid_out(*final(self), prompt@, term_width, cursor_row, known, r),
    {
        if term_width == 0 {
            return Err(PaintError::NoColumns);
        }
        let painting = compose(prompt, tokens, known);
        proof {
            assert(tokens@.map_values(
                |t: Token| Word { text: t.text(), color: color_of(t.kind(), known) },
            ) =~= spans(self@).map_values(|p: Span| word_at(self@, p, known)));
            painted_width(prompt@, self@, known);
        }
        let width = match line_width(&painting) {
            Some(width) => width,
            None => {
                return Err(PaintError::TooWide);
            },
        };
        let rows = line_rows(width, term_width);
        let clear_above = self.wrapped;
        let row = if clear_above <= cursor_row as usize {
            cursor_row - clear_above as u16
        } else {
            0
        };
        self.wrapped = rows - 1;
        Ok(Frame { clear_above, row, words: painting })
    }

    /// Lays the line out for painting after the working directory `prompt`,
    /// on a terminal of `term_width` columns whose cursor is on the row
    /// `cursor_row`, where `on_path` says whether the program of the line is
    /// found on the search path.
    pub fn paint(
        &mut self,
        prompt: &str,
        term_width: u16,
        cursor_row: u16,
        on_path: bool,
    ) -> (r: Result<Frame, PaintError>)
        ensures
            old(self).laid_out(
                *final(self),
                prompt@,
                term_width,
                cursor_row,
                known_program(old(self)@, on_path),
                r,
            ),
    {
        let line = self.content.clone();
        let tokens = tokenize_program_call(line.as_str());
        let known = match Self::program(line.as_str(), &tokens) {
            Some(name) => lookup(name).is_some() || on_path,
            None => false,
        };
        self.frame(prompt, &tokens, known, term_width, cursor_row)
    }

    /// Lays the line out for painting as `paint` does, and looks the program
    /// of the line up on the search path itself unless it names a built-in.
    /// What is found there decides between green and red for the program, and
    /// nothing else.
    pub fn print(&mut self, prompt: &str, term_width: u16, cursor_row: u16) -> (r: Result<
        Frame,
        PaintError,
    >)
        ensures
            old(self).laid_out(
                *final(self),
                prompt@,
                term_width,
                cursor_row,
                known_program(old(self)@, true),
                r,
            ) || old(self).laid_out(
                *final(self),
                prompt@,
                term_width,
                cursor_row,
                known_program(old(self)@, false),
                r,
            ),
    {
        let line = self.content.clone();
        let tokens = tokenize_program_call(line.as_str());
        let known = match Self::program(line.as_str(), &tokens) {
            Some(name) => lookup(name).is_some() || on_search_path(name),
            None => false,
        };
        assert(known == known_program(self@, known));
        self.frame(prompt, &tokens, known, term_width, cursor_row)
    }
}

} // verus!
