//! The grammar of a command line, over sequences of characters.
//!
//! A call is a token followed by any number of arguments, each a run of blanks
//! and a token. A token is a double-quoted string, in which a backslash escapes
//! the next character, or the longest run of characters none of which is
//! reserved. Everything is stated by position in the text: where a token
//! begins, where it ends, and what it stands for.

use vstd::prelude::*;
use crate::parser::{CallView, ParseError, TokenKind};

verus! {

/// The characters that end a literal and cannot occur in one.
pub open spec fn is_reserved(c: char) -> bool {
    c == ' ' || c == '\t' || c == '\n' || c == '\r' || c == '"' || c == '|' || c == '&'
        || c == '<' || c == '>' || c == '#' || c == '(' || c == ')' || c == '[' || c == ']'
}

/// The characters that separate two tokens: space and tab.
pub open spec fn is_blank(c: char) -> bool {
    c == ' ' || c == '\t'
}

/// The character that stands for `c` after a backslash, if there is one.
pub open spec fn escaped(c: char) -> Option<char> {
    if c == '\\' {
        Some('\\')
    } else if c == '"' {
        Some('"')
    } else if c == 'n' {
        Some('\n')
    } else if c == 'r' {
        Some('\r')
    } else {
        None
    }
}

/// Where the run of literal characters that begins at `i` ends.
pub open spec fn literal_end(s: Seq<char>, i: int) -> int
    decreases s.len() - i,
{
    if 0 <= i < s.len() && !is_reserved(s[i]) {
        literal_end(s, i + 1)
    } else {
        i
    }
}

/// Where the run of blanks that begins at `i` ends.
pub open spec fn blank_end(s: Seq<char>, i: int) -> int
    decreases s.len() - i,
{
    if 0 <= i < s.len() && is_blank(s[i]) {
        blank_end(s, i + 1)
    } else {
        i
    }
}

/// A token read from a text: what it stands for, and the position after it.
pub type Read = Result<(Seq<char>, int), ParseError>;

/// `tail` with `c` put before its text.
pub open spec fn preceded(c: char, tail: Read) -> Read {
    match tail {
        Ok((text, end)) => Ok((seq![c] + text, end)),
        Err(e) => Err(e),
    }
}

/// The rest of a quoted string whose opening quote has been passed, read from
/// position `i`: the decoded text up to the closing quote, and the position
/// after that quote.
pub open spec fn quoted_body(s: Seq<char>, i: int) -> Read
    decreases s.len() - i,
{
    if i < 0 || i >= s.len() {
        Err(ParseError::Unterminated)
    } else if s[i] == '"' {
        Ok((Seq::empty(), i + 1))
    } else if s[i] != '\\' {
        preceded(s[i], quoted_body(s, i + 1))
    } else if i + 1 >= s.len() {
        Err(ParseError::Unterminated)
    } else {
        match escaped(s[i + 1]) {
            Some(c) => preceded(c, quoted_body(s, i + 2)),
            None => Err(ParseError::BadEscape),
        }
    }
}

/// The quoted string that begins at position `i`.
pub open spec fn string_at(s: Seq<char>, i: int) -> Read {
    if 0 <= i < s.len() && s[i] == '"' {
        quoted_body(s, i + 1)
    } else {
        Err(ParseError::ExpectedQuote)
    }
}

/// The literal that begins at position `i`.
pub open spec fn literal_at(s: Seq<char>, i: int) -> Read {
    if literal_end(s, i) > i {
        Ok((s.subrange(i, literal_end(s, i)), literal_end(s, i)))
    } else {
        Err(ParseError::ExpectedToken)
    }
}

/// The token that begins at position `i`: a quoted string where a quote
/// stands there, a literal otherwise.
pub open spec fn token_at(s: Seq<char>, i: int) -> Read {
    if 0 <= i < s.len() && s[i] == '"' {
        string_at(s, i)
    } else {
        literal_at(s, i)
    }
}

/// The run of literal characters from `i` is exactly the stretch up to the
/// first reserved character, or up to the end of the text.
pub proof fn literal_end_is_maximal(s: Seq<char>, i: int)
    requires
        0 <= i <= s.len(),
    ensures
        i <= literal_end(s, i) <= s.len(),
        forall|k: int| i <= k < literal_end(s, i) ==> !is_reserved(#[trigger] s[k]),
        literal_end(s, i) < s.len() ==> is_reserved(s[literal_end(s, i)]),
    decreases s.len() - i,
{
    if i < s.len() && !is_reserved(s[i]) {
        literal_end_is_maximal(s, i + 1);
    }
}

/// The run of blanks from `i` is exactly the stretch up to the first
/// character that is no blank, or up to the end of the text.
pub proof fn blank_end_is_maximal(s: Seq<char>, i: int)
    requires
        0 <= i <= s.len(),
    ensures
        i <= blank_end(s, i) <= s.len(),
        forall|k: int| i <= k < blank_end(s, i) ==> is_blank(#[trigger] s[k]),
        blank_end(s, i) < s.len() ==> !is_blank(s[blank_end(s, i)]),
    decreases s.len() - i,
{
    if i < s.len() && is_blank(s[i]) {
        blank_end_is_maximal(s, i + 1);
    }
}

/// A quoted string ends inside the text, after its closing quote.
pub proof fn quoted_body_ends_inside(s: Seq<char>, i: int)
    requires
        0 <= i <= s.len(),
    ensures
        quoted_body(s, i) matches Ok((_, end)) ==> i < end <= s.len() && s[end - 1] == '"',
    decreases s.len() - i,
{
    if i < s.len() && s[i] != '"' {
        if s[i] != '\\' {
            quoted_body_ends_inside(s, i + 1);
        } else if i + 1 < s.len() && escaped(s[i + 1]) is Some {
            quoted_body_ends_inside(s, i + 2);
        }
    }
}

/// A token is never empty in the text: it ends after the position at which
/// it begins, and inside the text.
pub proof fn token_advances(s: Seq<char>, i: int)
    requires
        0 <= i <= s.len(),
    ensures
        token_at(s, i) matches Ok((_, end)) ==> i < end <= s.len(),
{
    if i < s.len() && s[i] == '"' {
        quoted_body_ends_inside(s, i + 1);
    } else {
        literal_end_is_maximal(s, i);
    }
}

/// One argument as it lies in a text: the blanks before it begin at `blank`,
/// its token covers `start..end` and stands for `text`.
pub struct Arg {
    pub blank: int,
    pub start: int,
    pub end: int,
    pub text: Seq<char>,
}

/// The argument that follows position `i`: at least one blank, then a token.
pub open spec fn argument_at(s: Seq<char>, i: int) -> Option<Arg> {
    let start = blank_end(s, i);
    if i < start {
        match token_at(s, start) {
            Ok((text, end)) => Some(Arg { blank: i, start, end, text }),
            Err(_) => None,
        }
    } else {
        None
    }
}

/// The arguments that follow position `i`, up to the first place where no
/// further argument can be read.
pub open spec fn arguments(s: Seq<char>, i: int) -> Seq<Arg>
    decreases s.len() - i,
    via arguments_decreases
{
    match argument_at(s, i) {
        Some(a) => seq![a] + arguments(s, a.end),
        None => Seq::empty(),
    }
}

#[via_fn]
proof fn arguments_decreases(s: Seq<char>, i: int) {
    argument_advances(s, i);
}

/// An argument lies inside the text, after the position it was read from.
pub proof fn argument_advances(s: Seq<char>, i: int)
    ensures
        argument_at(s, i) matches Some(a) ==> 0 <= i == a.blank < a.start < a.end <= s.len(),
{
    if i < blank_end(s, i) {
        blank_end_is_maximal(s, i);
        token_advances(s, blank_end(s, i));
    }
}

/// Where the arguments that follow position `i` end.
pub open spec fn arguments_end(s: Seq<char>, i: int) -> int {
    if arguments(s, i).len() == 0 {
        i
    } else {
        arguments(s, i).last().end
    }
}

/// What each argument stands for.
pub open spec fn argument_texts(args: Seq<Arg>) -> Seq<Seq<char>> {
    args.map_values(|a: Arg| a.text)
}

/// The call at the start of a text: its program, its arguments, and the
/// position at which reading stopped.
pub open spec fn call_of(s: Seq<char>) -> Result<(CallView, int), ParseError> {
    match token_at(s, 0) {
        Ok((program, end)) => Ok(
            (
                CallView { program, args: argument_texts(arguments(s, end)) },
                arguments_end(s, end),
            ),
        ),
        Err(e) => Err(e),
    }
}

/// The program of a call is empty only where the line begins with an empty
/// quoted string.
pub proof fn empty_program_is_quoted(s: Seq<char>)
    ensures
        call_of(s) matches Ok((call, _)) ==> (call.program.len() == 0 <==> s.len() >= 2
            && s[0] == '"' && s[1] == '"'),
{
    if s.len() >= 1 && s[0] == '"' {
        if s.len() >= 2 && s[1] != '"' {
            if s[1] != '\\' {
                let tail = quoted_body(s, 2);
                assert(quoted_body(s, 1) == preceded(s[1], tail));
            } else if s.len() >= 3 {
                if let Some(c) = escaped(s[2]) {
                    let tail = quoted_body(s, 3);
                    assert(quoted_body(s, 1) == preceded(c, tail));
                }
            }
        }
    } else {
        literal_end_is_maximal(s, 0);
    }
}

/// Reading the arguments from `i` is reading one argument and then the
/// arguments from its end; they end where those end.
pub(crate) proof fn arguments_unfold(s: Seq<char>, i: int)
    ensures
        match argument_at(s, i) {
            Some(a) => {
                &&& arguments(s, i) == seq![a] + arguments(s, a.end)
                &&& arguments_end(s, i) == arguments_end(s, a.end)
                &&& argument_texts(arguments(s, i))
                    == seq![a.text] + argument_texts(arguments(s, a.end))
                &&& argument_spans(arguments(s, i)) == seq![
                    Span { kind: TokenKind::Space, start: a.blank, end: a.start },
                    Span { kind: TokenKind::Argument, start: a.start, end: a.end },
                ] + argument_spans(arguments(s, a.end))
            },
            None => arguments(s, i).len() == 0 && arguments_end(s, i) == i,
        },
{
    if let Some(a) = argument_at(s, i) {
        let rest = arguments(s, a.end);
        let all = arguments(s, i);
        assert(all == seq![a] + rest);
        assert(all.drop_first() =~= rest);
        assert(argument_texts(all) =~= seq![a.text] + argument_texts(rest));
        if rest.len() > 0 {
            assert(all.last() == rest.last());
        }
    }
}

/// The arguments that follow a position inside the text end inside it.
pub proof fn arguments_end_inside(s: Seq<char>, i: int)
    requires
        0 <= i <= s.len(),
    ensures
        i <= arguments_end(s, i) <= s.len(),
    decreases s.len() - i,
{
    arguments_unfold(s, i);
    argument_advances(s, i);
    if let Some(a) = argument_at(s, i) {
        arguments_end_inside(s, a.end);
    }
}

/// A stretch `start..end` of a text, and what it is.
pub struct Span {
    pub kind: TokenKind,
    pub start: int,
    pub end: int,
}

/// The blanks and the token of each argument, in order.
pub open spec fn argument_spans(args: Seq<Arg>) -> Seq<Span>
    decreases args.len(),
{
    if args.len() == 0 {
        Seq::empty()
    } else {
        seq![
            Span { kind: TokenKind::Space, start: args[0].blank, end: args[0].start },
            Span { kind: TokenKind::Argument, start: args[0].start, end: args[0].end },
        ] + argument_spans(args.drop_first())
    }
}

/// The program of a call that ends at `end`, and its arguments.
pub open spec fn call_spans(s: Seq<char>, end: int) -> Seq<Span> {
    seq![Span { kind: TokenKind::FunctionCall, start: 0, end }]
        + argument_spans(arguments(s, end))
}

/// The stretches into which a command line falls: the program, then blanks
/// and an argument in turn, then whatever could not be read, which may be
/// empty. A line that does not begin with a token is one unread stretch.
pub open spec fn spans(s: Seq<char>) -> Seq<Span> {
    match token_at(s, 0) {
        Ok((_, end)) => call_spans(s, end) + seq![
            Span { kind: TokenKind::Extra, start: arguments_end(s, end), end: s.len() as int },
        ],
        Err(_) => seq![Span { kind: TokenKind::Extra, start: 0, end: s.len() as int }],
    }
}

/// Whether the stretches lie end to end from `from` to `to`: the first begins
/// at `from`, each begins where the one before it ends, and the last ends at
/// `to`. No two of them overlap, and nothing between `from` and `to` is left
/// out.
pub open spec fn tiles(p: Seq<Span>, from: int, to: int) -> bool
    decreases p.len(),
{
    if p.len() == 0 {
        from == to
    } else {
        p[0].start == from && from <= p[0].end && tiles(p.drop_first(), p[0].end, to)
    }
}

/// The characters of `s` that each stretch covers.
pub open spec fn pieces(s: Seq<char>, p: Seq<Span>) -> Seq<Seq<char>> {
    p.map_values(|x: Span| s.subrange(x.start, x.end))
}

proof fn tiles_append(p: Seq<Span>, q: Seq<Span>, from: int, mid: int, to: int)
    requires
        tiles(p, from, mid),
        tiles(q, mid, to),
    ensures
        tiles(p + q, from, to),
    decreases p.len(),
{
    if p.len() == 0 {
        assert(p + q =~= q);
    } else {
        tiles_append(p.drop_first(), q, p[0].end, mid, to);
        assert((p + q).drop_first() =~= p.drop_first() + q);
    }
}

proof fn tiles_single(x: Span)
    requires
        x.start <= x.end,
    ensures
        tiles(seq![x], x.start, x.end),
{
    assert(seq![x].drop_first() =~= Seq::<Span>::empty());
    assert(tiles(seq![x].drop_first(), x.end, x.end));
}

proof fn argument_spans_tile(s: Seq<char>, i: int)
    requires
        0 <= i <= s.len(),
    ensures
        tiles(argument_spans(arguments(s, i)), i, arguments_end(s, i)),
    decreases s.len() - i,
{
    arguments_unfold(s, i);
    argument_advances(s, i);
    if let Some(a) = argument_at(s, i) {
        argument_spans_tile(s, a.end);
        let blanks = Span { kind: TokenKind::Space, start: a.blank, end: a.start };
        let token = Span { kind: TokenKind::Argument, start: a.start, end: a.end };
        tiles_single(blanks);
        tiles_single(token);
        tiles_append(seq![blanks], seq![token], i, a.start, a.end);
        assert(seq![blanks] + seq![token] =~= seq![blanks, token]);
        tiles_append(
            seq![blanks, token],
            argument_spans(arguments(s, a.end)),
            i,
            a.end,
            arguments_end(s, i),
        );
    }
}

/// The stretches of a command line lie end to end from its first character
/// to its last.
pub proof fn spans_tile(s: Seq<char>)
    ensures
        tiles(spans(s), 0, s.len() as int),
{
    token_advances(s, 0);
    match token_at(s, 0) {
        Ok((_, end)) => {
            let stop = arguments_end(s, end);
            arguments_end_inside(s, end);
            argument_spans_tile(s, end);
            let program = Span { kind: TokenKind::FunctionCall, start: 0, end };
            let extra = Span { kind: TokenKind::Extra, start: stop, end: s.len() as int };
            tiles_single(program);
            tiles_single(extra);
            tiles_append(seq![program], argument_spans(arguments(s, end)), 0, end, stop);
            tiles_append(call_spans(s, end), seq![extra], 0, stop, s.len() as int);
        },
        Err(_) => {
            tiles_single(Span { kind: TokenKind::Extra, start: 0, end: s.len() as int });
        },
    }
}

/// Stretches that lie end to end inside a text cover, put together in
/// order, exactly the text between the two ends.
pub proof fn tiles_cover(s: Seq<char>, p: Seq<Span>, from: int, to: int)
    requires
        tiles(p, from, to),
        0 <= from,
        to <= s.len(),
    ensures
        from <= to,
        pieces(s, p).flatten() == s.subrange(from, to),
    decreases p.len(),
{
    if p.len() == 0 {
        assert(pieces(s, p) =~= Seq::<Seq<char>>::empty());
        assert(s.subrange(from, to) =~= Seq::<char>::empty());
    } else {
        tiles_cover(s, p.drop_first(), p[0].end, to);
        assert(pieces(s, p).drop_first() =~= pieces(s, p.drop_first()));
        assert(s.subrange(from, p[0].end) + s.subrange(p[0].end, to) =~= s.subrange(from, to));
    }
}

/// The round trip: the stretches of a command line, put together in order,
/// are the line.
pub proof fn spans_round_trip(s: Seq<char>)
    ensures
        pieces(s, spans(s)).flatten() == s,
{
    spans_tile(s);
    tiles_cover(s, spans(s), 0, s.len() as int);
    assert(s.subrange(0, s.len() as int) =~= s);
}

} // verus!
