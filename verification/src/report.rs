//! What the shell says of its own doings: the key that ended a line or the
//! session, and how a program that was run came out.

use vstd::prelude::*;
use crate::render::{Color, Segment, Word};
use crate::shell::{QuitKey, Reaction, ReactionView};

verus! {

/// How running a call came out.
#[derive(Debug, PartialEq, Eq)]
pub enum ExecutionResult {
    /// The program ran and ended, with this exit code if it gave one.
    Exited(Option<i32>),
    /// The program could not be started; the text says why.
    SpawnFailed(String),
    /// A built-in ran inside the shell.
    Handled,
}

/// The character of the digit `d`.
pub open spec fn digit(d: int) -> char {
    if d == 0 {
        '0'
    } else if d == 1 {
        '1'
    } else if d == 2 {
        '2'
    } else if d == 3 {
        '3'
    } else if d == 4 {
        '4'
    } else if d == 5 {
        '5'
    } else if d == 6 {
        '6'
    } else if d == 7 {
        '7'
    } else if d == 8 {
        '8'
    } else {
        '9'
    }
}

/// The digits of `n` in base ten, without leading zeros.
pub open spec fn digits(n: nat) -> Seq<char>
    decreases n,
{
    if n < 10 {
        seq![digit(n as int)]
    } else {
        digits(n / 10).push(digit((n % 10) as int))
    }
}

/// The number `n` in base ten, with a minus sign where it is negative.
pub open spec fn decimal(n: int) -> Seq<char> {
    if n < 0 {
        seq!['-'] + digits((-n) as nat)
    } else {
        digits(n as nat)
    }
}

/// The line that tells how a program came out: its exit code between square
/// brackets, 0 where it gave none.
pub open spec fn exit_line(code: Option<i32>) -> Seq<char> {
    seq!['\r', '['] + decimal(
        match code {
            Some(n) => n as int,
            None => 0,
        },
    ) + seq![']', '\r', '\n']
}

/// The lines that tell that a program could not be started.
pub open spec fn failure_lines(why: Seq<char>) -> Seq<char> {
    seq!['\r', '\n'] + why + seq!['\r', '\n']
}

/// What is written after a call has been run: the exit code in blue, the
/// reason of a failure in red, nothing after a built-in.
pub open spec fn reported(result: ExecutionResult) -> Option<Word> {
    match result {
        ExecutionResult::Exited(code) => Some(Word { text: exit_line(code), color: Color::Blue }),
        ExecutionResult::SpawnFailed(why) => Some(
            Word { text: failure_lines(why@), color: Color::Red },
        ),
        ExecutionResult::Handled => None,
    }
}

/// What is written for a key that ends the line or the session, in green.
pub open spec fn noticed(r: ReactionView) -> Option<Seq<char>> {
    match r {
        ReactionView::Quit(QuitKey::Suspend) => Some("[Ctrl+z]"@),
        ReactionView::Quit(QuitKey::Escape) => Some("[Esc]"@),
        ReactionView::Cancel => Some("[Ctrl+C]\r\n"@),
        _ => None,
    }
}

fn digit_char(d: u32) -> (c: char)
    requires
        d < 10,
    ensures
        c == digit(d as int),
{
    if d == 0 {
        '0'
    } else if d == 1 {
        '1'
    } else if d == 2 {
        '2'
    } else if d == 3 {
        '3'
    } else if d == 4 {
        '4'
    } else if d == 5 {
        '5'
    } else if d == 6 {
        '6'
    } else if d == 7 {
        '7'
    } else if d == 8 {
        '8'
    } else {
        '9'
    }
}

fn push_digits(out: &mut String, n: u32)
    ensures
        final(out)@ == old(out)@ + digits(n as nat),
    decreases n,
{
    if n >= 10 {
        push_digits(out, n / 10);
    }
    out.push(digit_char(n % 10));
    proof {
        if n >= 10 {
            assert(old(out)@ + digits((n / 10) as nat).push(digit((n % 10) as int)) =~= (old(out)@
                + digits((n / 10) as nat)).push(digit((n % 10) as int)));
        } else {
            assert(old(out)@ + seq![digit(n as int)] =~= old(out)@.push(digit(n as int)));
        }
    }
}

/// Appends the number `n` in base ten to `out`.
pub fn push_decimal(out: &mut String, n: i32)
    ensures
        final(out)@ == old(out)@ + decimal(n as int),
{
    if n < 0 {
        out.push('-');
        let magnitude: u32 = (-(n as i64)) as u32;
        push_digits(out, magnitude);
        assert(old(out)@.push('-') + digits((-n) as nat) =~= old(out)@ + (seq!['-'] + digits(
            (-n) as nat,
        )));
    } else {
        push_digits(out, n as u32);
    }
}

/// What is written after a call has been run.
pub fn report(result: &ExecutionResult) -> (r: Option<Segment>)
    ensures
        match reported(*result) {
            Some(word) => r matches Some(segment) && segment@ == word,
            None => r is None,
        },
{
    match result {
        ExecutionResult::Exited(code) => {
            let n: i32 = match code {
                Some(n) => *n,
                None => 0,
            };
            let mut text = String::new();
            text.push('\r');
            text.push('[');
            push_decimal(&mut text, n);
            text.push(']');
            text.push('\r');
            text.push('\n');
            assert(text@ =~= exit_line(*code));
            Some(Segment { text, color: Color::Blue })
        },
        ExecutionResult::SpawnFailed(why) => {
            let mut text = String::new();
            text.push('\r');
            text.push('\n');
            text.append(why.as_str());
            text.push('\r');
            text.push('\n');
            assert(text@ =~= failure_lines(why@));
            Some(Segment { text, color: Color::Red })
        },
        ExecutionResult::Handled => None,
    }
}

/// What is written for a key that ends the line or the session.
pub fn notice(reaction: &Reaction) -> (r: Option<Segment>)
    ensures
        match noticed(reaction@) {
            Some(text) => r matches Some(segment) && segment@ == (Word {
                text,
                color: Color::Green,
            }),
            None => r is None,
        },
{
    match reaction {
        Reaction::Quit(QuitKey::Suspend) => Some(
            Segment { text: "[Ctrl+z]".to_owned(), color: Color::Green },
        ),
        Reaction::Quit(QuitKey::Escape) => Some(
            Segment { text: "[Esc]".to_owned(), color: Color::Green },
        ),
        Reaction::Cancel => Some(Segment { text: "[Ctrl+C]\r\n".to_owned(), color: Color::Green }),
        _ => None,
    }
}

} // verus!
