//! What is painted for a command line: the prompt and the stretches of the
//! line, each with its colour, and the terminal rows that they take.

use vstd::prelude::*;
use vstd::utf8::encode_utf8;
use crate::grammar::{pieces, spans, spans_round_trip, spans_tile, tiles, token_at, Span};
use crate::parser::{Token, TokenKind};

verus! {

/// The colours of the prompt.
#[derive(Debug, PartialEq, Eq, Clone, Copy)]
pub enum Color {
    Red,
    Green,
    Blue,
    /// The terminal's own colour.
    Reset,
    Magenta,
}

/// A piece of text and the colour it is painted in.
#[derive(Debug, PartialEq, Eq)]
pub struct Segment {
    pub text: String,
    pub color: Color,
}

/// A `Segment`, with its text as a sequence of characters.
pub struct Word {
    pub text: Seq<char>,
    pub color: Color,
}

impl View for Segment {
    type V = Word;

    open spec fn view(&self) -> Word {
        Word { text: self.text@, color: self.color }
    }
}

/// Each segment as a word.
pub open spec fn words(segments: Seq<Segment>) -> Seq<Word> {
    segments.map_values(|s: Segment| s@)
}

/// The text of each word.
pub open spec fn word_texts(w: Seq<Word>) -> Seq<Seq<char>> {
    w.map_values(|x: Word| x.text)
}

/// What separates the working directory from the command line.
pub open spec fn separator() -> Seq<char> {
    seq!['>', ' ']
}

/// The colour of a stretch of the command line: the program is green where
/// it is known and red where it is not, arguments and blanks have the
/// terminal's colour, and what could not be read is magenta.
pub open spec fn color_of(kind: TokenKind, known: bool) -> Color {
    match kind {
        TokenKind::FunctionCall => if known {
            Color::Green
        } else {
            Color::Red
        },
        TokenKind::Space => Color::Reset,
        TokenKind::Argument => Color::Reset,
        TokenKind::Extra => Color::Magenta,
    }
}

/// The stretch `p` of `line` as a word.
pub open spec fn word_at(line: Seq<char>, p: Span, known: bool) -> Word {
    Word { text: line.subrange(p.start, p.end), color: color_of(p.kind, known) }
}

/// The two red words before the command line: the working directory and the
/// separator.
pub open spec fn heading(prompt: Seq<char>) -> Seq<Word> {
    seq![
        Word { text: prompt, color: Color::Red },
        Word { text: separator(), color: Color::Red },
    ]
}

/// Everything that is painted for the command line `line`, in order.
pub open spec fn painted(prompt: Seq<char>, line: Seq<char>, known: bool) -> Seq<Word> {
    heading(prompt) + spans(line).map_values(|p: Span| word_at(line, p, known))
}

/// The program of a command line as it is written, quotes and all.
pub open spec fn program_written(line: Seq<char>) -> Option<Seq<char>> {
    match token_at(line, 0) {
        Ok((_, end)) => Some(line.subrange(0, end)),
        Err(_) => None,
    }
}

/// The number of bytes that a text takes in UTF-8.
pub open spec fn byte_len(text: Seq<char>) -> nat {
    encode_utf8(text).len()
}

/// The number of bytes that the words take together.
pub open spec fn width(w: Seq<Word>) -> nat
    decreases w.len(),
{
    if w.len() == 0 {
        0
    } else {
        byte_len(w[0].text) + width(w.drop_first())
    }
}

/// The number of terminal rows that `width` bytes take on a terminal of
/// `columns` columns: one row for an empty text, and a new row after every
/// `columns` bytes.
pub open spec fn rows_for(width: nat, columns: nat) -> nat
    recommends
        columns > 0,
{
    let filled = if width > 1 {
        width - 1
    } else {
        0
    };
    (filled / columns as int + 1) as nat
}

/// The row on which a painting that took `rows` rows and ended on the row
/// `cursor_row` began; the first row where it would lie above it.
pub open spec fn top_row(cursor_row: nat, rows: nat) -> nat {
    if rows <= cursor_row + 1 {
        (cursor_row + 1 - rows) as nat
    } else {
        0
    }
}

/// The bytes of two texts put together are the bytes of the one and of the
/// other.
pub proof fn byte_len_additive(a: Seq<char>, b: Seq<char>)
    ensures
        byte_len(a + b) == byte_len(a) + byte_len(b),
    decreases a.len(),
{
    if a.len() == 0 {
        assert(a + b =~= b);
    } else {
        byte_len_additive(a.drop_first(), b);
        assert((a + b).drop_first() =~= a.drop_first() + b);
    }
}

proof fn width_additive(a: Seq<Word>, b: Seq<Word>)
    ensures
        width(a + b) == width(a) + width(b),
    decreases a.len(),
{
    if a.len() == 0 {
        assert(a + b =~= b);
    } else {
        width_additive(a.drop_first(), b);
        assert((a + b).drop_first() =~= a.drop_first() + b);
    }
}

proof fn width_single(w: Word)
    ensures
        width(seq![w]) == byte_len(w.text),
{
    assert(seq![w].drop_first() =~= Seq::<Word>::empty());
    assert(width(seq![w].drop_first()) == 0);
}

proof fn width_of_tiles(line: Seq<char>, p: Seq<Span>, from: int, to: int, known: bool)
    requires
        tiles(p, from, to),
        0 <= from,
        to <= line.len(),
    ensures
        from <= to,
        width(p.map_values(|x: Span| word_at(line, x, known))) == byte_len(
            line.subrange(from, to),
        ),
    decreases p.len(),
{
    let w = p.map_values(|x: Span| word_at(line, x, known));
    if p.len() == 0 {
        assert(line.subrange(from, to) =~= Seq::<char>::empty());
    } else {
        width_of_tiles(line, p.drop_first(), p[0].end, to, known);
        assert(w.drop_first() =~= p.drop_first().map_values(|x: Span| word_at(line, x, known)));
        byte_len_additive(line.subrange(from, p[0].end), line.subrange(p[0].end, to));
        assert(line.subrange(from, p[0].end) + line.subrange(p[0].end, to) =~= line.subrange(
            from,
            to,
        ));
    }
}

/// The separator takes two bytes.
pub proof fn separator_bytes()
    ensures
        byte_len(separator()) == 2,
{
    let s = separator();
    assert(s.drop_first() =~= seq![' ']);
    assert(s.drop_first().drop_first() =~= Seq::<char>::empty());
    assert(encode_utf8(s.drop_first().drop_first()).len() == 0);
    assert(vstd::utf8::has_width_1_encoding('>' as u32));
    assert(vstd::utf8::has_width_1_encoding(' ' as u32));
    assert(encode_utf8(s.drop_first()).len() == 1);
}

/// What is painted takes the bytes of the working directory, of the
/// separator and of the command line, whatever the colours.
pub proof fn painted_width(prompt: Seq<char>, line: Seq<char>, known: bool)
    ensures
        width(painted(prompt, line, known)) == byte_len(prompt) + 2 + byte_len(line),
{
    let head = heading(prompt);
    let body = spans(line).map_values(|p: Span| word_at(line, p, known));
    let first = Word { text: prompt, color: Color::Red };
    let second = Word { text: separator(), color: Color::Red };
    separator_bytes();
    width_single(first);
    width_single(second);
    width_additive(seq![first], seq![second]);
    assert(seq![first] + seq![second] =~= head);
    spans_tile(line);
    width_of_tiles(line, spans(line), 0, line.len() as int, known);
    assert(line.subrange(0, line.len() as int) =~= line);
    width_additive(head, body);
}

/// What is painted reads, put together, as the working directory, the
/// separator and the command line.
pub proof fn painted_text(prompt: Seq<char>, line: Seq<char>, known: bool)
    ensures
        word_texts(painted(prompt, line, known)).flatten() == prompt + separator() + line,
{
    let head = heading(prompt);
    let body = spans(line).map_values(|p: Span| word_at(line, p, known));
    spans_round_trip(line);
    assert(word_texts(body) =~= pieces(line, spans(line)));
    assert(word_texts(head) =~= seq![prompt, separator()]);
    assert(word_texts(head + body) =~= word_texts(head) + word_texts(body));
    vstd::seq_lib::lemma_flatten_concat(word_texts(head), word_texts(body));
    seq![prompt].lemma_flatten_one_element();
    seq![separator()].lemma_flatten_one_element();
    vstd::seq_lib::lemma_flatten_concat(seq![prompt], seq![separator()]);
    assert(seq![prompt] + seq![separator()] =~= word_texts(head));
}

/// Whether the program `name` is found on the search path.
///
/// Calls `which::which` and keeps only whether it found an executable. The
/// answer depends on the search path and on what is on disk, so nothing is
/// claimed of it.
#[verifier::external_body]
pub(crate) fn on_search_path(name: &str) -> bool {
    which::which(name).is_ok()
}

/// The words that are painted for a command line cut into `tokens`, where
/// `known` says whether its program is one that can be run.
pub fn compose(prompt: &str, tokens: &Vec<Token>, known: bool) -> (painting: Vec<Segment>)
    ensures
        words(painting@) == heading(prompt@) + tokens@.map_values(
            |t: Token| Word { text: t.text(), color: color_of(t.kind(), known) },
        ),
{
    let ghost body = tokens@.map_values(
        |t: Token| Word { text: t.text(), color: color_of(t.kind(), known) },
    );
    let mut painting: Vec<Segment> = Vec::new();
    painting.push(Segment { text: prompt.to_owned(), color: Color::Red });
    proof {
        reveal_strlit("> ");
        assert("> "@ =~= separator());
    }
    painting.push(Segment { text: "> ".to_owned(), color: Color::Red });
    assert(words(painting@) =~= heading(prompt@));
    let mut k: usize = 0;
    assert(heading(prompt@) + body.take(0) =~= heading(prompt@));
    while k < tokens.len()
        invariant
            k <= tokens.len(),
            body == tokens@.map_values(
                |t: Token| Word { text: t.text(), color: color_of(t.kind(), known) },
            ),
            words(painting@) == heading(prompt@) + body.take(k as int),
        decreases tokens.len() - k,
    {
        let color = match tokens[k] {
            Token::FunctionCall(_) => if known {
                Color::Green
            } else {
                Color::Red
            },
            Token::Space(_) => Color::Reset,
            Token::Argument(_) => Color::Reset,
            Token::Extra(_) => Color::Magenta,
        };
        let segment = Segment { text: tokens[k].as_str().to_owned(), color };
        assert(words(painting@.push(segment)) =~= words(painting@).push(segment@));
        assert(heading(prompt@) + body.take(k + 1) =~= (heading(prompt@) + body.take(
            k as int,
        )).push(body[k as int]));
        painting.push(segment);
        k += 1;
    }
    assert(body.take(tokens.len() as int) =~= body);
    painting
}

/// The number of bytes that the segments take together, where a `usize`
/// holds it.
pub fn line_width(painting: &Vec<Segment>) -> (total: Option<usize>)
    ensures
        match total {
            Some(n) => n == width(words(painting@)),
            None => width(words(painting@)) > usize::MAX,
        },
{
    let ghost all = words(painting@);
    let mut total: usize = 0;
    let mut k: usize = 0;
    assert(all.skip(0) =~= all);
    while k < painting.len()
        invariant
            k <= painting.len(),
            all == words(painting@),
            total + width(all.skip(k as int)) == width(all),
        decreases painting.len() - k,
    {
        assert(all.skip(k as int).drop_first() =~= all.skip(k + 1));
        assert(all.skip(k as int)[0] == painting@[k as int]@);
        match total.checked_add(painting[k].text.as_str().as_bytes().len()) {
            Some(more) => {
                total = more;
            },
            None => {
                return None;
            },
        }
        k += 1;
    }
    Some(total)
}

/// The number of terminal rows that `width` bytes take on a terminal of
/// `columns` columns.
pub fn line_rows(width: usize, columns: u16) -> (rows: usize)
    requires
        columns > 0,
    ensures
        rows == rows_for(width as nat, columns as nat),
        rows >= 1,
{
    let filled = if width > 1 {
        width - 1
    } else {
        0
    };
    assert(filled / (columns as usize) <= filled) by (nonlinear_arith)
        requires
            columns > 0,
    ;
    filled / (columns as usize) + 1
}

} // verus!
