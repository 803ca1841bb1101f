//! Reading a command line: the functions that take a `&str` and are proved to
//! compute what the grammar says of its characters.

use vstd::prelude::*;
use crate::grammar::{
    argument_spans, arguments, arguments_end, arguments_end_inside, arguments_unfold,
    argument_texts, blank_end, call_of, call_spans, escaped, is_reserved, literal_at, literal_end,
    literal_end_is_maximal, pieces, preceded, quoted_body, quoted_body_ends_inside, spans,
    spans_round_trip, string_at, token_advances, token_at, Read, Span,
};
use crate::text::{chars_of, text_of};

verus! {

/// Why no token could be read.
#[derive(Debug, PartialEq, Eq, Clone, Copy)]
pub enum ParseError {
    /// A quoted string was asked for and the input does not begin with `"`.
    ExpectedQuote,
    /// The input is empty or begins with a reserved character other than `"`.
    ExpectedToken,
    /// A backslash inside a quoted string is followed by a character other
    /// than `\`, `"`, `n` and `r`.
    BadEscape,
    /// The input ends inside a quoted string.
    Unterminated,
}

/// The program and the arguments of one command line, with quotes removed and
/// escapes decoded.
#[derive(Debug, PartialEq, Eq)]
pub struct Call {
    pub program: String,
    pub args: Vec<String>,
}

/// What a `Call` holds, as sequences of characters.
pub struct CallView {
    pub program: Seq<char>,
    pub args: Seq<Seq<char>>,
}

impl View for Call {
    type V = CallView;

    open spec fn view(&self) -> CallView {
        CallView { program: self.program@, args: texts(self.args@) }
    }
}

/// The characters of each string of `v`.
pub open spec fn texts(v: Seq<String>) -> Seq<Seq<char>> {
    v.map_values(|s: String| s@)
}

/// Whether `c` is reserved.
pub fn reserved(c: char) -> (r: bool)
    ensures
        r == is_reserved(c),
{
    c == ' ' || c == '\t' || c == '\n' || c == '\r' || c == '"' || c == '|' || c == '&'
        || c == '<' || c == '>' || c == '#' || c == '(' || c == ')' || c == '[' || c == ']'
}

/// Decodes the character that follows a backslash in a quoted string.
pub fn escape(c: char) -> (r: Option<char>)
    ensures
        r == escaped(c),
{
    if c == '\\' {
        Some('\\')
    } else if c == '"' {
        Some('"')
    } else if c == 'n' {
        Some('\n')
    } else if c == 'r' {
        Some('\r')
    } else {
        None
    }
}

/// Whether what a reader returned is the token `want`.
pub open spec fn agrees(got: Result<(String, usize), ParseError>, want: Read) -> bool {
    match want {
        Ok((text, end)) => got matches Ok((out, stop)) && out@ == text && stop == end,
        Err(e) => got matches Err(x) && x == e,
    }
}

/// `tail` with `head` put before its text.
pub open spec fn continued(head: Seq<char>, tail: Read) -> Read {
    match tail {
        Ok((text, end)) => Ok((head + text, end)),
        Err(e) => Err(e),
    }
}

proof fn continued_by_one(head: Seq<char>, c: char, tail: Read)
    ensures
        continued(head, preceded(c, tail)) == continued(head.push(c), tail),
{
    if let Ok((text, end)) = tail {
        assert(head + (seq![c] + text) =~= head.push(c) + text);
    }
}

fn literal_stop(chars: &Vec<char>, from: usize) -> (end: usize)
    requires
        from <= chars.len(),
    ensures
        end == literal_end(chars@, from as int),
        from <= end <= chars.len(),
{
    let mut i: usize = from;
    while i < chars.len() && !reserved(chars[i])
        invariant
            from <= i <= chars.len(),
            literal_end(chars@, from as int) == literal_end(chars@, i as int),
        decreases chars.len() - i,
    {
        i += 1;
    }
    i
}

fn blank_stop(chars: &Vec<char>, from: usize) -> (end: usize)
    requires
        from <= chars.len(),
    ensures
        end == blank_end(chars@, from as int),
        from <= end <= chars.len(),
{
    let mut i: usize = from;
    while i < chars.len() && (chars[i] == ' ' || chars[i] == '\t')
        invariant
            from <= i <= chars.len(),
            blank_end(chars@, from as int) == blank_end(chars@, i as int),
        decreases chars.len() - i,
    {
        i += 1;
    }
    i
}

fn read_quoted(chars: &Vec<char>, from: usize) -> (r: Result<(String, usize), ParseError>)
    requires
        from <= chars.len(),
    ensures
        agrees(r, quoted_body(chars@, from as int)),
{
    let mut out = String::new();
    let mut i: usize = from;
    loop
        invariant
            from <= i <= chars.len(),
            quoted_body(chars@, from as int) == continued(out@, quoted_body(chars@, i as int)),
        decreases chars.len() - i,
    {
        if i >= chars.len() {
            return Err(ParseError::Unterminated);
        }
        let c = chars[i];
        if c == '"' {
            assert(out@ + Seq::<char>::empty() =~= out@);
            return Ok((out, i + 1));
        }
        if c != '\\' {
            proof {
                continued_by_one(out@, c, quoted_body(chars@, i + 1));
            }
            out.push(c);
            i += 1;
        } else {
            if i + 1 >= chars.len() {
                return Err(ParseError::Unterminated);
            }
            match escape(chars[i + 1]) {
                Some(d) => {
                    proof {
                        continued_by_one(out@, d, quoted_body(chars@, i + 2));
                    }
                    out.push(d);
                    i += 2;
                },
                None => {
                    return Err(ParseError::BadEscape);
                },
            }
        }
    }
}

fn read_token(chars: &Vec<char>, from: usize) -> (r: Result<(String, usize), ParseError>)
    requires
        from <= chars.len(),
    ensures
        agrees(r, token_at(chars@, from as int)),
        r matches Ok((_, end)) ==> from < end <= chars.len(),
{
    proof {
        token_advances(chars@, from as int);
    }
    if from < chars.len() && chars[from] == '"' {
        read_quoted(chars, from + 1)
    } else {
        let end = literal_stop(chars, from);
        if end > from {
            Ok((text_of(chars, from, end), end))
        } else {
            Err(ParseError::ExpectedToken)
        }
    }
}

/// Reads a double-quoted string at the start of `input`: gives what is left
/// of the input after the closing quote, and the text between the quotes with
/// its escapes decoded.
pub fn parse_string<'a>(input: &'a str) -> (r: Result<(&'a str, String), ParseError>)
    ensures
        match string_at(input@, 0) {
            Ok((text, end)) => r matches Ok((rest, out)) && out@ == text
                && rest@ == input@.skip(end),
            Err(e) => r matches Err(x) && x == e,
        },
{
    let chars = chars_of(input);
    if chars.len() == 0 || chars[0] != '"' {
        return Err(ParseError::ExpectedQuote);
    }
    proof {
        quoted_body_ends_inside(chars@, 1);
    }
    match read_quoted(&chars, 1) {
        Ok((text, end)) => Ok((input.substring_char(end, chars.len()), text)),
        Err(e) => Err(e),
    }
}

/// Reads a literal at the start of `input`: the longest run of characters
/// none of which is reserved, which must not be empty. Gives what is left of
/// the input, and the literal.
pub fn parse_literal<'a>(input: &'a str) -> (r: Result<(&'a str, &'a str), ParseError>)
    ensures
        match literal_at(input@, 0) {
            Ok((text, end)) => r matches Ok((rest, lit)) && lit@ == text
                && rest@ == input@.skip(end),
            Err(e) => r matches Err(x) && x == e,
        },
        r matches Ok((rest, lit)) ==> {
            &&& lit@.len() > 0
            &&& lit@ + rest@ == input@
            &&& forall|k: int| 0 <= k < lit@.len() ==> !is_reserved(#[trigger] lit@[k])
            &&& rest@.len() > 0 ==> is_reserved(rest@[0])
        },
        r is Err <==> input@.len() == 0 || is_reserved(input@[0]),
{
    let chars = chars_of(input);
    let end = literal_stop(&chars, 0);
    proof {
        literal_end_is_maximal(chars@, 0);
    }
    if end > 0 {
        let lit = input.substring_char(0, end);
        let rest = input.substring_char(end, chars.len());
        assert(lit@ + rest@ =~= input@);
        Ok((rest, lit))
    } else {
        Err(ParseError::ExpectedToken)
    }
}

/// Reads one token at the start of `input`, a quoted string or a literal:
/// gives what is left of the input, and what the token stands for.
pub fn parse_token<'a>(input: &'a str) -> (r: Result<(&'a str, String), ParseError>)
    ensures
        match token_at(input@, 0) {
            Ok((text, end)) => r matches Ok((rest, out)) && out@ == text
                && rest@ == input@.skip(end),
            Err(e) => r matches Err(x) && x == e,
        },
{
    let chars = chars_of(input);
    match read_token(&chars, 0) {
        Ok((text, end)) => Ok((input.substring_char(end, chars.len()), text)),
        Err(e) => Err(e),
    }
}

/// Reads a call at the start of `input`: a token for the program, then as
/// many arguments as can be read. Gives what is left of the input where
/// reading stopped, and the call.
pub fn parse_program_call<'a>(input: &'a str) -> (r: Result<(&'a str, Call), ParseError>)
    ensures
        match call_of(input@) {
            Ok((call, end)) => r matches Ok((rest, out)) && out@ == call
                && rest@ == input@.skip(end),
            Err(e) => r matches Err(x) && x == e,
        },
{
    let chars = chars_of(input);
    let (program, first) = match read_token(&chars, 0) {
        Ok(read) => read,
        Err(e) => {
            return Err(e);
        },
    };
    let mut args: Vec<String> = Vec::new();
    let mut pos: usize = first;
    assert(texts(args@) =~= Seq::<Seq<char>>::empty());
    loop
        invariant
            first <= pos <= chars.len(),
            argument_texts(arguments(chars@, first as int))
                == texts(args@) + argument_texts(arguments(chars@, pos as int)),
            arguments_end(chars@, first as int) == arguments_end(chars@, pos as int),
        ensures
            arguments(chars@, pos as int).len() == 0,
        decreases chars.len() - pos,
    {
        proof {
            arguments_unfold(chars@, pos as int);
        }
        let start = blank_stop(&chars, pos);
        if start == pos {
            break;
        }
        match read_token(&chars, start) {
            Ok((text, end)) => {
                assert(texts(args@.push(text)) =~= texts(args@).push(text@));
                assert(texts(args@).push(text@) + argument_texts(arguments(chars@, end as int))
                    =~= texts(args@)
                    + (seq![text@] + argument_texts(arguments(chars@, end as int))));
                args.push(text);
                pos = end;
            },
            Err(_) => {
                break;
            },
        }
    }
    assert(texts(args@) + Seq::<Seq<char>>::empty() =~= texts(args@));
    let rest = input.substring_char(pos, chars.len());
    Ok((rest, Call { program, args }))
}

/// What a token is in a command line.
#[derive(Debug, PartialEq, Eq, Clone, Copy)]
pub enum TokenKind {
    Space,
    FunctionCall,
    Argument,
    Extra,
}

/// A stretch of a command line, for display.
pub enum Token<'a> {
    /// Blanks between two tokens.
    Space(&'a str),
    /// The program, as written.
    FunctionCall(&'a str),
    /// An argument, as written.
    Argument(&'a str),
    /// What follows the last token that could be read.
    Extra(&'a str),
}

impl<'a> Token<'a> {
    pub open spec fn kind(self) -> TokenKind {
        match self {
            Token::Space(_) => TokenKind::Space,
            Token::FunctionCall(_) => TokenKind::FunctionCall,
            Token::Argument(_) => TokenKind::Argument,
            Token::Extra(_) => TokenKind::Extra,
        }
    }

    pub open spec fn text(self) -> Seq<char> {
        match self {
            Token::Space(t) => t@,
            Token::FunctionCall(t) => t@,
            Token::Argument(t) => t@,
            Token::Extra(t) => t@,
        }
    }

    /// The characters that the token covers.
    pub fn as_str(&self) -> (t: &'a str)
        ensures
            t@ == self.text(),
    {
        match self {
            Token::Space(t) => t,
            Token::FunctionCall(t) => t,
            Token::Argument(t) => t,
            Token::Extra(t) => t,
        }
    }
}

/// Whether `token` is the stretch `span` of `s`.
pub open spec fn shows(token: Token, s: Seq<char>, span: Span) -> bool {
    token.kind() == span.kind && token.text() == s.subrange(span.start, span.end)
}

/// Whether `tokens` are the stretches `spans` of `s`, one for one.
pub open spec fn show_all(tokens: Seq<Token>, s: Seq<char>, spans: Seq<Span>) -> bool {
    &&& tokens.len() == spans.len()
    &&& forall|k: int| 0 <= k < tokens.len() ==> shows(#[trigger] tokens[k], s, spans[k])
}

/// The text that each token covers.
pub open spec fn token_texts(tokens: Seq<Token>) -> Seq<Seq<char>> {
    tokens.map_values(|t: Token| t.text())
}

/// Tokens that show the stretches of a text cover what the stretches cover.
proof fn shown_texts(tokens: Seq<Token>, s: Seq<char>, p: Seq<Span>)
    requires
        show_all(tokens, s, p),
    ensures
        token_texts(tokens) == pieces(s, p),
{
    assert(token_texts(tokens) =~= pieces(s, p));
}

fn tokenize_program_call_<'a>(
    input: &'a str,
    chars: &Vec<char>,
    tokens: &mut Vec<Token<'a>>,
) -> (r: Result<usize, ParseError>)
    requires
        chars@ == input@,
    ensures
        match token_at(input@, 0) {
            Ok((_, end)) => {
                &&& r matches Ok(stop) && stop == arguments_end(input@, end)
                &&& final(tokens)@.len() == old(tokens)@.len() + call_spans(input@, end).len()
                &&& final(tokens)@.take(old(tokens)@.len() as int) == old(tokens)@
                &&& show_all(
                    final(tokens)@.skip(old(tokens)@.len() as int),
                    input@,
                    call_spans(input@, end),
                )
            },
            Err(e) => r matches Err(x) && x == e && final(tokens)@ == old(tokens)@,
        },
{
    let ghost before = tokens@;
    let first = match read_token(chars, 0) {
        Ok((_, end)) => end,
        Err(e) => {
            return Err(e);
        },
    };
    tokens.push(Token::FunctionCall(input.substring_char(0, first)));
    let ghost mut done = seq![Span { kind: TokenKind::FunctionCall, start: 0, end: first as int }];
    let mut pos: usize = first;
    assert(tokens@.take(before.len() as int) =~= before);
    loop
        invariant
            chars@ == input@,
            first <= pos <= chars.len(),
            tokens@.len() == before.len() + done.len(),
            tokens@.take(before.len() as int) == before,
            show_all(tokens@.skip(before.len() as int), input@, done),
            call_spans(input@, first as int)
                == done + argument_spans(arguments(input@, pos as int)),
            arguments_end(input@, first as int) == arguments_end(input@, pos as int),
        ensures
            arguments(input@, pos as int).len() == 0,
        decreases chars.len() - pos,
    {
        proof {
            arguments_unfold(input@, pos as int);
        }
        let start = blank_stop(chars, pos);
        if start == pos {
            break;
        }
        match read_token(chars, start) {
            Ok((_, end)) => {
                let ghost shown = tokens@;
                let ghost blanks = Span {
                    kind: TokenKind::Space,
                    start: pos as int,
                    end: start as int,
                };
                let ghost token = Span {
                    kind: TokenKind::Argument,
                    start: start as int,
                    end: end as int,
                };
                tokens.push(Token::Space(input.substring_char(pos, start)));
                tokens.push(Token::Argument(input.substring_char(start, end)));
                proof {
                    let later = argument_spans(arguments(input@, end as int));
                    assert(done + (seq![blanks, token] + later)
                        =~= (done + seq![blanks, token]) + later);
                    done = done + seq![blanks, token];
                    assert(tokens@.take(before.len() as int) =~= shown.take(before.len() as int));
                    let added = tokens@.skip(before.len() as int);
                    let earlier = shown.skip(before.len() as int);
                    assert forall|k: int| 0 <= k < added.len() implies shows(
                        #[trigger] added[k],
                        input@,
                        done[k],
                    ) by {
                        if k < earlier.len() {
                            assert(added[k] == earlier[k]);
                        }
                    }
                }
                pos = end;
            },
            Err(_) => {
                break;
            },
        }
    }
    assert(done + Seq::<Span>::empty() =~= done);
    Ok(pos)
}

/// Cuts a command line into the stretches that a display tells apart. The
/// tokens cover the whole line, in order and without gaps: what could not be
/// read is the last token, which is there even when it is empty.
pub fn tokenize_program_call<'a>(input: &'a str) -> (tokens: Vec<Token<'a>>)
    ensures
        show_all(tokens@, input@, spans(input@)),
        token_texts(tokens@).flatten() == input@,
{
    let chars = chars_of(input);
    let mut tokens: Vec<Token<'a>> = Vec::new();
    let stop = match tokenize_program_call_(input, &chars, &mut tokens) {
        Ok(stop) => stop,
        Err(_) => 0,
    };
    proof {
        token_advances(input@, 0);
        if let Ok((_, end)) = token_at(input@, 0) {
            arguments_end_inside(input@, end);
        }
    }
    let ghost called = tokens@;
    tokens.push(Token::Extra(input.substring_char(stop, chars.len())));
    proof {
        assert(called.skip(0) =~= called);
        assert forall|k: int| 0 <= k < tokens@.len() implies shows(
            #[trigger] tokens@[k],
            input@,
            spans(input@)[k],
        ) by {
            if k < called.len() {
                assert(tokens@[k] == called[k]);
            }
        }
        shown_texts(tokens@, input@, spans(input@));
        spans_round_trip(input@);
    }
    tokens
}

} // verus!
