//! The commands that the shell runs itself.
//!
//! The set is closed: `exit` and `cd`. Looking a name up is pure; running a
//! built-in changes the process, so `exec_builtin` decides what is to be done
//! and leaves the doing to the caller.

use vstd::prelude::*;
use crate::text::same_text;

verus! {

/// A command that the shell runs itself.
#[derive(Debug, PartialEq, Eq, Clone, Copy)]
pub enum Builtin {
    Exit,
    Cd,
}

/// What running a built-in asks of the process.
#[derive(Debug, PartialEq, Eq)]
pub enum Effect {
    /// End the process at once, with status 0.
    Exit,
    /// Make `Some` directory the working directory, or the home directory
    /// where none is named. A directory that cannot be entered is passed over
    /// in silence.
    ChangeDir(Option<String>),
}

/// An `Effect`, with its text as a sequence of characters.
pub enum EffectView {
    Exit,
    ChangeDir(Option<Seq<char>>),
}

impl View for Effect {
    type V = EffectView;

    open spec fn view(&self) -> EffectView {
        match self {
            Effect::Exit => EffectView::Exit,
            Effect::ChangeDir(Some(to)) => EffectView::ChangeDir(Some(to@)),
            Effect::ChangeDir(None) => EffectView::ChangeDir(None),
        }
    }
}

/// The name `exit`.
pub open spec fn exit_name() -> Seq<char> {
    seq!['e', 'x', 'i', 't']
}

/// The name `cd`.
pub open spec fn cd_name() -> Seq<char> {
    seq!['c', 'd']
}

/// The built-in that `name` names, if it names one.
pub open spec fn builtin_named(name: Seq<char>) -> Option<Builtin> {
    if name == exit_name() {
        Some(Builtin::Exit)
    } else if name == cd_name() {
        Some(Builtin::Cd)
    } else {
        None
    }
}

/// The command of a line of words, the first of them; the empty name where
/// there is no word.
pub open spec fn command_of(words: Seq<Seq<char>>) -> Seq<char> {
    if words.len() > 0 {
        words[0]
    } else {
        Seq::empty()
    }
}

/// What running the line `words` asks of the process, if its command is a
/// built-in: `cd` goes to the word after the command.
pub open spec fn effect_of(words: Seq<Seq<char>>) -> Option<EffectView> {
    match builtin_named(command_of(words)) {
        Some(Builtin::Exit) => Some(EffectView::Exit),
        Some(Builtin::Cd) => Some(
            EffectView::ChangeDir(
                if words.len() > 1 {
                    Some(words[1])
                } else {
                    None
                },
            ),
        ),
        None => None,
    }
}

/// The names of the built-ins are the two names and no other.
pub proof fn builtin_names(name: Seq<char>)
    ensures
        builtin_named(name) is Some <==> name == exit_name() || name == cd_name(),
        builtin_named(exit_name()) == Some(Builtin::Exit),
        builtin_named(cd_name()) == Some(Builtin::Cd),
        builtin_named(Seq::empty()) is None,
{
    assert(exit_name().len() == 4);
    assert(cd_name().len() == 2);
    assert(exit_name()[0] == 'e' && cd_name()[0] == 'c');
}

/// The built-in that `name` names, if it names one.
pub fn lookup(name: &str) -> (r: Option<Builtin>)
    ensures
        r == builtin_named(name@),
{
    proof {
        reveal_strlit("exit");
        reveal_strlit("cd");
        assert("exit"@ =~= exit_name());
        assert("cd"@ =~= cd_name());
    }
    if same_text(name, "exit") {
        Some(Builtin::Exit)
    } else if same_text(name, "cd") {
        Some(Builtin::Cd)
    } else {
        None
    }
}

/// Whether the first of `args` names a built-in.
pub fn has_builtin(args: &Vec<String>) -> (r: bool)
    ensures
        r == (args.len() > 0 && builtin_named(args[0]@) is Some),
{
    if args.len() > 0 {
        has_builtin_cmd(&args[0])
    } else {
        false
    }
}

/// Whether `cmd` names a built-in.
pub fn has_builtin_cmd(cmd: &String) -> (r: bool)
    ensures
        r == builtin_named(cmd@) is Some,
{
    lookup(cmd.as_str()).is_some()
}

/// Decides what running the line `args` asks of the process. `Some` exactly
/// when the first word names a built-in, which is then taken as handled; the
/// caller carries the effect out.
pub fn exec_builtin(args: &Vec<String>) -> (r: Option<Effect>)
    ensures
        match r {
            Some(effect) => effect_of(crate::parser::texts(args@)) == Some(effect@),
            None => effect_of(crate::parser::texts(args@)) is None,
        },
        r is Some <==> args.len() > 0 && builtin_named(args[0]@) is Some,
{
    proof {
        builtin_names(Seq::empty());
    }
    if args.len() == 0 {
        return None;
    }
    match lookup(args[0].as_str()) {
        Some(Builtin::Exit) => Some(Effect::Exit),
        Some(Builtin::Cd) => {
            if args.len() > 1 {
                Some(Effect::ChangeDir(Some(args[1].clone())))
            } else {
                Some(Effect::ChangeDir(None))
            }
        },
        None => None,
    }
}

} // verus!
