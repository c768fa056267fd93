//! How `display` shapes its text, and how a line that was read is taken.

use vstd::prelude::*;
use crate::text::{from_chars, to_chars, unicode_numeric};

verus! {

/// The text without one line feed at its end.
pub open spec fn chomp(text: Seq<char>) -> Seq<char> {
    if text.len() > 0 && text.last() == '\n' {
        text.drop_last()
    } else {
        text
    }
}

/// The line without its line break: a line feed at the end, and a carriage
/// return before that line feed.
pub open spec fn strip(line: Seq<char>) -> Seq<char> {
    if line.len() > 0 && line.last() == '\n' {
        let rest = line.drop_last();
        if rest.len() > 0 && rest.last() == '\r' {
            rest.drop_last()
        } else {
            rest
        }
    } else {
        line
    }
}

/// Whether the text is written as a number: of numeric characters, with at
/// most one decimal point among them.
pub open spec fn number_text(text: Seq<char>) -> bool {
    &&& forall|i: int|
        0 <= i < text.len() ==> #[trigger] text[i] == '.' || unicode_numeric(text[i])
    &&& forall|i: int, j: int|
        0 <= i < j < text.len() ==> !(#[trigger] text[i] == '.' && #[trigger] text[j] == '.')
}

/// Whether the text holds a decimal point.
pub open spec fn has_point(text: Seq<char>) -> bool {
    exists|i: int| 0 <= i < text.len() && #[trigger] text[i] == '.'
}

/// Whether a break starts at `i`: a backslash followed by `n` or by `r`.
pub open spec fn is_break(s: Seq<char>, i: int) -> bool {
    0 <= i && i + 1 < s.len() && s[i] == '\\' && (s[i + 1] == 'n' || s[i + 1] == 'r')
}

/// The first position at or after `from` at which a break starts, or a
/// position at or behind the end where there is none.
pub open spec fn next_break(s: Seq<char>, from: int) -> int
    decreases s.len() - from,
{
    if from < 0 || from >= s.len() || is_break(s, from) {
        from
    } else {
        next_break(s, from + 1)
    }
}

/// What stands between the breaks, from `from` on: one more piece than
/// there are breaks.
pub open spec fn chunks(s: Seq<char>, from: int) -> Seq<Seq<char>>
    decreases s.len() - from,
    via chunks_decreases
{
    let stop = next_break(s, from);
    if 0 <= stop < s.len() {
        seq![s.subrange(from, stop)] + chunks(s, stop + 2)
    } else {
        seq![s.subrange(from, s.len() as int)]
    }
}

#[via_fn]
proof fn chunks_decreases(s: Seq<char>, from: int) {
    lemma_next_break(s, from);
}

/// The pieces that are not empty, each with a line feed behind it.
pub open spec fn lines(pieces: Seq<Seq<char>>) -> Seq<char>
    decreases pieces.len(),
{
    if pieces.len() == 0 {
        Seq::empty()
    } else {
        line(pieces[0]) + lines(pieces.drop_first())
    }
}

/// A piece as it is printed among others: nothing where it is empty, else
/// the piece and a line feed.
pub open spec fn line(piece: Seq<char>) -> Seq<char> {
    if piece.len() == 0 {
        piece
    } else {
        piece.push('\n')
    }
}

/// What `display` prints for a text. A text without a break is printed with
/// a space behind it and no line feed; one with breaks is printed piece by
/// piece, each piece that is not empty on a line of its own.
pub open spec fn render(text: Seq<char>) -> Seq<char> {
    let pieces = chunks(text, 0);
    if pieces.len() < 2 {
        pieces[0].push(' ')
    } else {
        lines(pieces)
    }
}

/// The next break lies at or behind `from` and within the text, a break
/// starts there unless the text has ended, and none starts before.
pub proof fn lemma_next_break(s: Seq<char>, from: int)
    ensures
        from <= next_break(s, from),
        0 <= from <= s.len() ==> next_break(s, from) <= s.len(),
        0 <= next_break(s, from) < s.len() ==> is_break(s, next_break(s, from)),
        forall|k: int| 0 <= from <= k < next_break(s, from) ==> !is_break(s, k),
    decreases s.len() - from,
{
    if !(from < 0 || from >= s.len() || is_break(s, from)) {
        lemma_next_break(s, from + 1);
    }
}

/// There is at least one piece, and the lines of the pieces are the line of
/// the first followed by the lines of the others.
pub proof fn lemma_chunks_unfold(s: Seq<char>, from: int)
    requires
        0 <= from <= s.len(),
    ensures
        chunks(s, from).len() >= 1,
        0 <= next_break(s, from) < s.len() ==> chunks(s, from).len() >= 2 && lines(
            chunks(s, from),
        ) == line(s.subrange(from, next_break(s, from))) + lines(
            chunks(s, next_break(s, from) + 2),
        ),
        !(0 <= next_break(s, from) < s.len()) ==> chunks(s, from) == seq![
            s.subrange(from, s.len() as int),
        ] && lines(chunks(s, from)) == line(s.subrange(from, s.len() as int)),
    decreases s.len() - from,
{
    let stop = next_break(s, from);
    lemma_next_break(s, from);
    if 0 <= stop < s.len() {
        lemma_chunks_unfold(s, stop + 2);
        let head = s.subrange(from, stop);
        let rest = chunks(s, stop + 2);
        assert((seq![head] + rest).drop_first() =~= rest);
        assert((seq![head] + rest)[0] == head);
    } else {
        let only = s.subrange(from, s.len() as int);
        assert(seq![only].drop_first() =~= Seq::<Seq<char>>::empty());
        assert(lines(seq![only].drop_first()) =~= Seq::<char>::empty());
        assert(line(only) + Seq::<char>::empty() =~= line(only));
    }
}

/// The first position at or after `from` at which a break starts.
fn find_break(chars: &Vec<char>, from: usize) -> (stop: usize)
    requires
        from <= chars@.len(),
    ensures
        stop == next_break(chars@, from as int),
        from <= stop <= chars@.len(),
{
    let n = chars.len();
    let mut i: usize = from;
    while i < n
        invariant
            n == chars@.len(),
            from <= i <= n,
            next_break(chars@, from as int) == next_break(chars@, i as int),
        decreases n - i,
    {
        if chars[i] == '\\' && n - i > 1 && (chars[i + 1] == 'n' || chars[i + 1] == 'r') {
            return i;
        }
        i += 1;
    }
    i
}

/// Appends `chars[from..to]` to a string.
fn push_chars(out: &mut String, chars: &Vec<char>, from: usize, to: usize)
    requires
        from <= to <= chars@.len(),
    ensures
        final(out)@ == old(out)@ + chars@.subrange(from as int, to as int),
{
    let mut i: usize = from;
    assert(out@ =~= old(out)@ + chars@.subrange(from as int, i as int));
    while i < to
        invariant
            from <= i <= to <= chars@.len(),
            out@ == old(out)@ + chars@.subrange(from as int, i as int),
        decreases to - i,
    {
        out.push(chars[i]);
        i += 1;
        assert(out@ =~= old(out)@ + chars@.subrange(from as int, i as int));
    }
}

/// What `display` prints for a text.
pub fn display_text(text: &str) -> (printed: String)
    ensures
        printed@ == render(text@),
{
    let chars = to_chars(text);
    let n = chars.len();
    let first = find_break(&chars, 0);
    proof {
        lemma_chunks_unfold(chars@, 0);
    }
    if first >= n {
        let mut printed = from_chars(&chars, 0, n);
        printed.push(' ');
        return printed;
    }
    let mut printed = String::new();
    let mut from: usize = 0;
    assert(printed@ + lines(chunks(chars@, 0)) =~= lines(chunks(chars@, 0)));
    loop
        invariant_except_break
            from <= n,
            lines(chunks(chars@, 0)) == printed@ + lines(chunks(chars@, from as int)),
        invariant
            n == chars@.len(),
        ensures
            printed@ == lines(chunks(chars@, 0)),
        decreases n - from,
    {
        let ghost before = printed@;
        proof {
            lemma_chunks_unfold(chars@, from as int);
            lemma_next_break(chars@, from as int);
        }
        let stop = find_break(&chars, from);
        if stop > from {
            push_chars(&mut printed, &chars, from, stop);
            printed.push('\n');
        }
        let ghost piece = chars@.subrange(from as int, stop as int);
        assert(printed@ =~= before + line(piece));
        if stop >= n {
            break ;
        }
        proof {
            let rest = lines(chunks(chars@, stop + 2));
            assert(before + (line(piece) + rest) =~= (before + line(piece)) + rest);
        }
        from = stop + 2;
    }
    printed
}

/// The text without one line feed at its end.
pub fn chomp_text(text: &str) -> (cut: String)
    ensures
        cut@ == chomp(text@),
{
    let chars = to_chars(text);
    let n = chars.len();
    if n > 0 && chars[n - 1] == '\n' {
        from_chars(&chars, 0, n - 1)
    } else {
        proof {
            assert(chars@.subrange(0, n as int) =~= chars@);
        }
        from_chars(&chars, 0, n)
    }
}

/// The line without its line break.
pub fn strip_line(line: &str) -> (cut: String)
    ensures
        cut@ == strip(line@),
{
    let chars = to_chars(line);
    let n = chars.len();
    let mut end: usize = n;
    if n > 0 && chars[n - 1] == '\n' {
        end = n - 1;
        if end > 0 && chars[end - 1] == '\r' {
            end = end - 1;
        }
    }
    proof {
        assert(chars@.subrange(0, n as int) =~= chars@);
        if n > 0 && chars@[n - 1] == '\n' {
            let rest = chars@.drop_last();
            assert(rest =~= chars@.subrange(0, n - 1));
            if rest.len() > 0 && rest.last() == '\r' {
                assert(rest.drop_last() =~= chars@.subrange(0, n - 2));
            }
        }
    }
    from_chars(&chars, 0, end)
}

/// Whether the text is written as a number: of numeric characters, with at
/// most one decimal point among them.
pub fn is_number_text(text: &str) -> (r: bool)
    ensures
        r == number_text(text@),
{
    let chars = to_chars(text);
    let mut seen_point = false;
    let mut i: usize = 0;
    while i < chars.len()
        invariant
            i <= chars@.len(),
            chars@ == text@,
            forall|k: int| 0 <= k < i ==> #[trigger] text@[k] == '.' || unicode_numeric(text@[k]),
            forall|a: int, b: int|
                0 <= a < b < i ==> !(#[trigger] text@[a] == '.' && #[trigger] text@[b] == '.'),
            seen_point <==> exists|k: int| 0 <= k < i && #[trigger] text@[k] == '.',
        decreases chars@.len() - i,
    {
        if chars[i] == '.' {
            if seen_point {
                let ghost first = choose|k: int| 0 <= k < i && #[trigger] text@[k] == '.';
                assert(text@[first] == '.' && text@[i as int] == '.');
                return false;
            }
            seen_point = true;
        } else if !chars[i].is_numeric() {
            assert(!(text@[i as int] == '.' || unicode_numeric(text@[i as int])));
            return false;
        }
        i += 1;
    }
    true
}

/// Whether the text holds a decimal point.
pub fn contains_point(text: &str) -> (r: bool)
    ensures
        r == has_point(text@),
{
    let chars = to_chars(text);
    let mut i: usize = 0;
    while i < chars.len()
        invariant
            i <= chars@.len(),
            chars@ == text@,
            forall|k: int| 0 <= k < i ==> #[trigger] text@[k] != '.',
        decreases chars@.len() - i,
    {
        if chars[i] == '.' {
            return true;
        }
        i += 1;
    }
    false
}

} // verus!
