//! The dispatcher: what each key means for the session, and what a submitted
//! line asks to be run. The decisions are made here; the caller reads the
//! keys and carries out what is decided.

use vstd::prelude::*;
use crate::builtins::{effect_of, exec_builtin, Effect, EffectView};
use crate::command_line::{edited, edits, CmdLine, Event, KeyCode, Modifiers};
use crate::grammar::{
    arguments_end_inside, call_of, literal_end_is_maximal, token_advances, token_at,
};
use crate::parser::{parse_program_call, texts, Call, CallView};

verus! {

/// What a submitted line asks for.
#[derive(Debug, PartialEq, Eq)]
pub enum Dispatch {
    /// Nothing is run: the line is empty or cannot be read to its end.
    Nothing,
    /// The line calls a built-in, which asks this of the process.
    Builtin(Effect),
    /// The line calls a program that is to be run outside the shell.
    External(Call),
}

/// A `Dispatch`, with its texts as sequences of characters.
pub enum DispatchView {
    Nothing,
    Builtin(EffectView),
    External(CallView),
}

impl View for Dispatch {
    type V = DispatchView;

    open spec fn view(&self) -> DispatchView {
        match self {
            Dispatch::Nothing => DispatchView::Nothing,
            Dispatch::Builtin(effect) => DispatchView::Builtin(effect@),
            Dispatch::External(call) => DispatchView::External(call@),
        }
    }
}

/// The key that ends the session.
#[derive(Debug, PartialEq, Eq, Clone, Copy)]
pub enum QuitKey {
    /// Control and `z`.
    Suspend,
    Escape,
}

/// What a key means for the session.
#[derive(Debug, PartialEq, Eq)]
pub enum Reaction {
    /// The session ends.
    Quit(QuitKey),
    /// The line is given up and a new one begun; nothing is run.
    Cancel,
    /// The line is handed in, and a new one begun after what it asks for is
    /// done.
    Submit(Dispatch),
    /// The key went to the line editor; `repaint` says whether the line
    /// changed.
    Edit { repaint: bool },
}

/// A `Reaction`, with its texts as sequences of characters.
pub enum ReactionView {
    Quit(QuitKey),
    Cancel,
    Submit(DispatchView),
    Edit { repaint: bool },
}

impl View for Reaction {
    type V = ReactionView;

    open spec fn view(&self) -> ReactionView {
        match self {
            Reaction::Quit(key) => ReactionView::Quit(*key),
            Reaction::Cancel => ReactionView::Cancel,
            Reaction::Submit(dispatch) => ReactionView::Submit(dispatch@),
            Reaction::Edit { repaint } => ReactionView::Edit { repaint: *repaint },
        }
    }
}

/// The program of a call followed by its arguments.
pub open spec fn words_of(call: CallView) -> Seq<Seq<char>> {
    seq![call.program] + call.args
}

/// What the line `line` asks for when it is handed in. A line that is empty,
/// that does not begin with a call, or that goes on after the call has been
/// read asks for nothing; any other calls a built-in where its program names
/// one, and a program outside otherwise.
pub open spec fn dispatched(line: Seq<char>) -> DispatchView {
    match call_of(line) {
        Ok((call, end)) => if end == line.len() {
            match effect_of(words_of(call)) {
                Some(effect) => DispatchView::Builtin(effect),
                None => DispatchView::External(call),
            }
        } else {
            DispatchView::Nothing
        },
        Err(_) => DispatchView::Nothing,
    }
}

/// Whether control is held down and no other modifier.
pub open spec fn control_only(m: Modifiers) -> bool {
    m.control && !m.shift && !m.alt && !m.other
}

/// What the event `e` means while `line` is being typed: control and `z`,
/// or escape, end the session; control and `c` gives the line up; enter hands
/// it in; everything else goes to the line editor.
pub open spec fn reaction_to(line: Seq<char>, e: Event) -> ReactionView {
    match e {
        Event::Key { code: KeyCode::Char(c), modifiers } => if control_only(modifiers) && c == 'z' {
            ReactionView::Quit(QuitKey::Suspend)
        } else if control_only(modifiers) && c == 'c' {
            ReactionView::Cancel
        } else {
            ReactionView::Edit { repaint: true }
        },
        Event::Key { code: KeyCode::Esc, .. } => ReactionView::Quit(QuitKey::Escape),
        Event::Key { code: KeyCode::Enter, .. } => ReactionView::Submit(dispatched(line)),
        _ => ReactionView::Edit { repaint: edits(line, e) },
    }
}

/// An empty line asks for nothing.
pub proof fn empty_line_is_idle()
    ensures
        dispatched(Seq::empty()) == DispatchView::Nothing,
{
    literal_end_is_maximal(Seq::empty(), 0);
}

/// Only a key that goes to the line editor changes the line.
pub open spec fn line_after(line: Seq<char>, e: Event) -> Seq<char> {
    if reaction_to(line, e) is Edit {
        edited(line, e)
    } else {
        line
    }
}

/// Decides what a submitted line asks for.
pub fn dispatch(line: &str) -> (r: Dispatch)
    ensures
        r@ == dispatched(line@),
{
    proof {
        token_advances(line@, 0);
        if let Ok((_, first)) = token_at(line@, 0) {
            arguments_end_inside(line@, first);
        }
    }
    match parse_program_call(line) {
        Ok((rest, call)) => {
            if !rest.is_empty() {
                return Dispatch::Nothing;
            }
            let mut words: Vec<String> = Vec::new();
            words.push(call.program.clone());
            let mut k: usize = 0;
            assert(texts(words@) =~= seq![call.program@] + texts(call.args@).take(0));
            while k < call.args.len()
                invariant
                    k <= call.args.len(),
                    texts(words@) == seq![call.program@] + texts(call.args@).take(k as int),
                decreases call.args.len() - k,
            {
                let word = call.args[k].clone();
                assert(texts(words@.push(word)) =~= texts(words@).push(word@));
                assert(texts(call.args@).take(k + 1) =~= texts(call.args@).take(k as int).push(
                    word@,
                ));
                assert((seq![call.program@] + texts(call.args@).take(k as int)).push(word@)
                    =~= seq![call.program@] + texts(call.args@).take(k + 1));
                words.push(word);
                k += 1;
            }
            assert(texts(call.args@).take(call.args.len() as int) =~= texts(call.args@));
            match exec_builtin(&words) {
                Some(effect) => Dispatch::Builtin(effect),
                None => Dispatch::External(call),
            }
        },
        Err(_) => Dispatch::Nothing,
    }
}

/// Decides what the event `e` means for the session, and applies it to the
/// line where it is a key for the line editor.
pub fn react(line: &mut CmdLine, e: Event) -> (r: Reaction)
    ensures
        r@ == reaction_to(old(line)@, e),
        final(line)@ == line_after(old(line)@, e),
        final(line).rows() == old(line).rows(),
{
    match e {
        Event::Key { code: KeyCode::Char(c), modifiers } => {
            let control = modifiers.control && !modifiers.shift && !modifiers.alt
                && !modifiers.other;
            if control && c == 'z' {
                return Reaction::Quit(QuitKey::Suspend);
            }
            if control && c == 'c' {
                return Reaction::Cancel;
            }
        },
        Event::Key { code: KeyCode::Esc, .. } => {
            return Reaction::Quit(QuitKey::Escape);
        },
        Event::Key { code: KeyCode::Enter, .. } => {
            return Reaction::Submit(dispatch(line.content().as_str()));
        },
        _ => {},
    }
    let repaint = line.handle_event(e);
    Reaction::Edit { repaint }
}

} // verus!
