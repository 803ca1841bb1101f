//! The working directory as the prompt shows it: the home directory
//! collapsed to `~`, every component but the last cut down to its first
//! character.

use vstd::prelude::*;
use crate::text::chars_of;

verus! {

/// The components of `path`: the stretches between its separators. A path
/// without a separator is one component, and an empty stretch counts.
pub open spec fn split(path: Seq<char>, sep: char) -> Seq<Seq<char>>
    decreases path.len(),
{
    if path.len() == 0 {
        seq![Seq::empty()]
    } else {
        let before = split(path.drop_last(), sep);
        if path.last() == sep {
            before.push(Seq::empty())
        } else {
            before.drop_last().push(before.last().push(path.last()))
        }
    }
}

/// The components put together again, with the separator between each two.
pub open spec fn join(parts: Seq<Seq<char>>, sep: char) -> Seq<char>
    decreases parts.len(),
{
    if parts.len() == 0 {
        Seq::empty()
    } else if parts.len() == 1 {
        parts[0]
    } else {
        join(parts.drop_last(), sep) + seq![sep] + parts.last()
    }
}

/// Whether `c` is one of the letters `a` to `z` or `A` to `Z`.
pub open spec fn is_letter(c: char) -> bool {
    ('a' <= c && c <= 'z') || ('A' <= c && c <= 'Z')
}

/// Whether a component names a drive: a letter and a colon.
pub open spec fn is_drive(part: Seq<char>) -> bool {
    part.len() == 2 && is_letter(part[0]) && part[1] == ':'
}

/// A component cut down: its first character. An empty component stays
/// empty, and a drive keeps its colon.
pub open spec fn initial(part: Seq<char>) -> Seq<char> {
    if part.len() == 0 || is_drive(part) {
        part
    } else {
        part.take(1)
    }
}

/// Each component cut down.
pub open spec fn initials(parts: Seq<Seq<char>>) -> Seq<Seq<char>> {
    parts.map_values(|p: Seq<char>| initial(p))
}

/// `path` with every component but the last cut down, and the last in full.
/// A path of one component stays as it is.
pub open spec fn shortened(path: Seq<char>, sep: char) -> Seq<char> {
    join(initials(split(path, sep).drop_last()).push(split(path, sep).last()), sep)
}

/// `path` with `home` at its start replaced by `~`. The path stays as it is
/// where it does not begin with `home`, and where the home directory is not
/// known or is the empty text.
pub open spec fn home_replaced(path: Seq<char>, home: Option<Seq<char>>) -> Seq<char> {
    match home {
        Some(h) => if h.len() > 0 && h.is_prefix_of(path) {
            seq!['~'] + path.skip(h.len() as int)
        } else {
            path
        },
        None => path,
    }
}

/// What the prompt shows of the working directory `cwd`.
pub open spec fn prompt_path(cwd: Seq<char>, home: Option<Seq<char>>, sep: char) -> Seq<char> {
    shortened(home_replaced(cwd, home), sep)
}

/// A path without a separator is one component, and is shown as it is.
pub proof fn one_component_stays(path: Seq<char>, sep: char)
    requires
        forall|k: int| 0 <= k < path.len() ==> path[k] != sep,
    ensures
        split(path, sep) == seq![path],
        shortened(path, sep) == path,
    decreases path.len(),
{
    if path.len() > 0 {
        let shorter = path.drop_last();
        one_component_stays(shorter, sep);
        assert(shorter.push(path.last()) =~= path);
        assert(seq![shorter].drop_last().push(path) =~= seq![path]);
    } else {
        assert(path =~= Seq::<char>::empty());
    }
    let whole = seq![path];
    assert(initials(whole.drop_last()).push(whole.last()) =~= whole);
}

/// The home directory itself is shown as `~`, whatever the separator.
pub proof fn home_is_a_tilde(home: Seq<char>, sep: char)
    requires
        home.len() > 0,
        sep != '~',
    ensures
        prompt_path(home, Some(home), sep) == seq!['~'],
{
    assert(seq!['~'] + home.skip(home.len() as int) =~= seq!['~']);
    one_component_stays(seq!['~'], sep);
}

/// The home directory as a sequence of characters, where it is known.
pub open spec fn home_text(home: Option<&str>) -> Option<Seq<char>> {
    match home {
        Some(h) => Some(h@),
        None => None,
    }
}

/// The characters of each vector.
pub open spec fn rows(parts: Seq<Vec<char>>) -> Seq<Seq<char>> {
    parts.map_values(|p: Vec<char>| p@)
}

/// Replaces `home` at the start of `s` by `~`.
pub fn replace_home_dir(s: &mut String, home: Option<&str>)
    ensures
        final(s)@ == home_replaced(old(s)@, home_text(home)),
{
    let prefix = match home {
        Some(h) => chars_of(h),
        None => {
            return ;
        },
    };
    let path = chars_of(s.as_str());
    if prefix.len() == 0 || prefix.len() > path.len() {
        return ;
    }
    let mut i: usize = 0;
    while i < prefix.len()
        invariant
            i <= prefix.len() <= path.len(),
            path@ == s@,
            home_text(home) == Some(prefix@),
            s@ == old(s)@,
            forall|k: int| 0 <= k < i ==> path@[k] == prefix@[k],
        decreases prefix.len() - i,
    {
        if path[i] != prefix[i] {
            return ;
        }
        i += 1;
    }
    assert(prefix@ =~= path@.subrange(0, prefix@.len() as int));
    let mut out = String::new();
    out.push('~');
    let mut j: usize = prefix.len();
    assert(out@ =~= seq!['~'] + path@.subrange(prefix.len() as int, j as int));
    while j < path.len()
        invariant
            prefix.len() <= j <= path.len(),
            out@ == seq!['~'] + path@.subrange(prefix.len() as int, j as int),
        decreases path.len() - j,
    {
        out.push(path[j]);
        j += 1;
        assert(out@ =~= seq!['~'] + path@.subrange(prefix.len() as int, j as int));
    }
    *s = out;
}

/// Whether a component names a drive.
fn drive(part: &Vec<char>) -> (r: bool)
    ensures
        r == is_drive(part@),
{
    part.len() == 2 && (('a' <= part[0] && part[0] <= 'z') || ('A' <= part[0] && part[0] <= 'Z'))
        && part[1] == ':'
}

/// What the prompt shows of the working directory `cwd`, for the home
/// directory `home`, where it is known, and the path separator `separator`.
pub fn pwd(cwd: &str, home: Option<&str>, separator: char) -> (shown: String)
    ensures
        shown@ == prompt_path(cwd@, home_text(home), separator),
{
    let mut string = cwd.to_owned();
    replace_home_dir(&mut string, home);
    let path = chars_of(string.as_str());
    let mut parts: Vec<Vec<char>> = Vec::new();
    let mut last: Vec<char> = Vec::new();
    let mut i: usize = 0;
    assert(path@.take(0) =~= Seq::<char>::empty());
    assert(rows(parts@).push(last@) =~= seq![Seq::<char>::empty()]);
    while i < path.len()
        invariant
            i <= path.len(),
            split(path@.take(i as int), separator) == rows(parts@).push(last@),
        decreases path.len() - i,
    {
        let ghost before = rows(parts@).push(last@);
        assert(path@.take(i + 1).drop_last() =~= path@.take(i as int));
        assert(before.drop_last() =~= rows(parts@));
        if path[i] == separator {
            assert(rows(parts@.push(last)) =~= before);
            parts.push(last);
            last = Vec::new();
        } else {
            last.push(path[i]);
        }
        i += 1;
    }
    assert(path@.take(path.len() as int) =~= path@);
    assert(rows(parts@).push(last@).drop_last() =~= rows(parts@));
    let ghost cut = initials(rows(parts@));
    let mut shown = String::new();
    let mut k: usize = 0;
    assert(cut.take(0) =~= Seq::<Seq<char>>::empty());
    while k < parts.len()
        invariant
            k <= parts.len(),
            cut == initials(rows(parts@)),
            shown@ == join(cut.take(k as int), separator),
        decreases parts.len() - k,
    {
        let ghost next = cut.take(k + 1);
        assert(next.drop_last() =~= cut.take(k as int));
        assert(next.last() == initial(parts@[k as int]@));
        if k > 0 {
            shown.push(separator);
        }
        if drive(&parts[k]) {
            shown.push(parts[k][0]);
            shown.push(parts[k][1]);
            assert(initial(parts@[k as int]@) =~= seq![parts@[k as int]@[0], parts@[k as int]@[1]]);
        } else if parts[k].len() > 0 {
            shown.push(parts[k][0]);
            assert(initial(parts@[k as int]@) =~= seq![parts@[k as int]@[0]]);
        }
        assert(shown@ =~= join(next, separator));
        k += 1;
    }
    assert(cut.take(parts.len() as int) =~= cut);
    assert(cut.push(last@).drop_last() =~= cut);
    if parts.len() > 0 {
        shown.push(separator);
    }
    let ghost head = shown@;
    let mut j: usize = 0;
    assert(head + last@.take(0) =~= head);
    while j < last.len()
        invariant
            j <= last.len(),
            shown@ == head + last@.take(j as int),
        decreases last.len() - j,
    {
        shown.push(last[j]);
        j += 1;
        assert(shown@ =~= head + last@.take(j as int));
    }
    assert(last@.take(last.len() as int) =~= last@);
    assert(shown@ =~= join(cut.push(last@), separator));
    shown
}

} // verus!
