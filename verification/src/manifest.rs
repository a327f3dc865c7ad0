//! The manifest: a text that names one directory per line.

use vstd::prelude::*;
use crate::text::{
    chars_of, is_blank, is_space, is_whitespace, lemma_trim_is_subrange, lemma_trim_of_blank,
    lemma_trim_strips_whitespace, string_from_chars, trim, views_of,
};

verus! {

/// How many characters stand before the first line feed of `text`, or in all
/// of it if it has none.
pub open spec fn line_length(text: Seq<char>) -> nat
    decreases text.len(),
{
    if text.len() == 0 || text.first() == '\n' {
        0
    } else {
        1 + line_length(text.drop_first())
    }
}

/// The lines of `text`: the stretches that line feeds end or separate, in
/// order and without the line feeds. A text that ends in a line feed has no
/// empty line after it.
pub open spec fn lines(text: Seq<char>) -> Seq<Seq<char>>
    decreases text.len(),
{
    let n = line_length(text) as int;
    if text.len() == 0 {
        Seq::empty()
    } else if n >= text.len() {
        seq![text]
    } else {
        seq![text.take(n)] + lines(text.skip(n + 1))
    }
}

/// The directories that `lines` name: each line trimmed, the lines that
/// trimming leaves empty dropped, the order kept.
pub open spec fn named_in(lines: Seq<Seq<char>>) -> Seq<Seq<char>> {
    lines.map_values(|line: Seq<char>| trim(line)).filter(|name: Seq<char>| name.len() > 0)
}

/// The directories that a manifest of content `text` names.
pub open spec fn manifest_entries(text: Seq<char>) -> Seq<Seq<char>> {
    named_in(lines(text))
}

proof fn lemma_line_length_bounds(text: Seq<char>)
    ensures
        line_length(text) <= text.len(),
        forall|i: int| 0 <= i < line_length(text) ==> #[trigger] text[i] != '\n',
        line_length(text) < text.len() ==> text[line_length(text) as int] == '\n',
    decreases text.len(),
{
    if text.len() == 0 || text.first() == '\n' {
    } else {
        let rest = text.drop_first();
        lemma_line_length_bounds(rest);
        assert forall|i: int| 0 <= i < line_length(text) implies #[trigger] text[i] != '\n' by {
            if i > 0 {
                assert(text[i] == rest[i - 1]);
            }
        }
        if line_length(text) < text.len() {
            assert(text[line_length(text) as int] == rest[line_length(rest) as int]);
        }
    }
}

proof fn lemma_line_length_is(text: Seq<char>, k: int)
    requires
        0 <= k <= text.len(),
        forall|i: int| 0 <= i < k ==> #[trigger] text[i] != '\n',
        k < text.len() ==> text[k] == '\n',
    ensures
        line_length(text) == k,
{
    lemma_line_length_bounds(text);
    let n = line_length(text) as int;
    if n < k {
        assert(text[n] != '\n');
    } else if k < n {
        assert(text[k] != '\n');
    }
}

proof fn lemma_named_in_empty()
    ensures
        named_in(Seq::empty()) == Seq::<Seq<char>>::empty(),
{
    reveal(Seq::filter);
    assert(Seq::<Seq<char>>::empty().map_values(|line: Seq<char>| trim(line)) =~= Seq::empty());
}

proof fn lemma_named_in_one(line: Seq<char>)
    ensures
        named_in(seq![line]) == if trim(line).len() > 0 {
            seq![trim(line)]
        } else {
            Seq::empty()
        },
{
    let keep = |name: Seq<char>| name.len() > 0;
    let none = Seq::<Seq<char>>::empty();
    lemma_named_in_empty();
    assert(seq![line].map_values(|line: Seq<char>| trim(line)) =~= none.push(trim(line)));
    none.lemma_filter_push(trim(line), keep);
    reveal(Seq::filter);
    assert(none.filter(keep) =~= none);
    assert(none.push(trim(line)) =~= seq![trim(line)]);
}

proof fn lemma_named_in_concat(a: Seq<Seq<char>>, b: Seq<Seq<char>>)
    ensures
        named_in(a + b) == named_in(a) + named_in(b),
{
    let cut = |line: Seq<char>| trim(line);
    let keep = |name: Seq<char>| name.len() > 0;
    assert((a + b).map_values(cut) =~= a.map_values(cut) + b.map_values(cut));
    Seq::filter_distributes_over_add(a.map_values(cut), b.map_values(cut), keep);
}

/// The entries of a text are those of its first line, then those of the text
/// after that line's line feed.
proof fn lemma_entries_by_first_line(text: Seq<char>)
    requires
        text.len() > 0,
    ensures
        line_length(text) <= text.len(),
        manifest_entries(text) == named_in(seq![text.take(line_length(text) as int)]) + (if line_length(
            text,
        ) < text.len() {
            manifest_entries(text.skip(line_length(text) as int + 1))
        } else {
            Seq::empty()
        }),
{
    lemma_line_length_bounds(text);
    let n = line_length(text) as int;
    if n >= text.len() {
        assert(text.take(n) =~= text);
        assert(named_in(seq![text]) + Seq::<Seq<char>>::empty() =~= named_in(seq![text]));
    } else {
        lemma_named_in_concat(seq![text.take(n)], lines(text.skip(n + 1)));
    }
}

proof fn lemma_named_in_member(lines: Seq<Seq<char>>, k: int) -> (j: int)
    requires
        0 <= k < named_in(lines).len(),
    ensures
        0 <= j < lines.len(),
        named_in(lines)[k] == trim(lines[j]),
        named_in(lines)[k].len() > 0,
    decreases lines.len(),
{
    if lines.len() == 0 {
        lemma_named_in_empty();
        0
    } else {
        let front = lines.drop_last();
        assert(lines =~= front + seq![lines.last()]);
        lemma_named_in_concat(front, seq![lines.last()]);
        lemma_named_in_one(lines.last());
        if k < named_in(front).len() {
            lemma_named_in_member(front, k)
        } else {
            lines.len() - 1
        }
    }
}

proof fn lemma_named_in_blank(lines: Seq<Seq<char>>)
    requires
        forall|i: int| 0 <= i < lines.len() ==> is_blank(#[trigger] lines[i]),
    ensures
        named_in(lines) == Seq::<Seq<char>>::empty(),
    decreases lines.len(),
{
    if lines.len() == 0 {
        lemma_named_in_empty();
    } else {
        let front = lines.drop_last();
        assert(lines =~= front + seq![lines.last()]);
        lemma_named_in_concat(front, seq![lines.last()]);
        lemma_named_in_one(lines.last());
        lemma_trim_of_blank(lines.last());
        lemma_named_in_blank(front);
        assert(named_in(front) + named_in(seq![lines.last()]) =~= Seq::<Seq<char>>::empty());
    }
}

/// A manifest that holds blank lines only names no directory.
pub proof fn lemma_blank_lines_name_nothing(text: Seq<char>)
    requires
        forall|i: int| 0 <= i < lines(text).len() ==> is_blank(#[trigger] lines(text)[i]),
    ensures
        manifest_entries(text) == Seq::<Seq<char>>::empty(),
{
    lemma_named_in_blank(lines(text));
}

/// Every directory that a manifest names is one of its lines with the
/// whitespace around it stripped: it is not empty, and it neither begins nor
/// ends with whitespace.
pub proof fn lemma_entries_are_stripped_lines(text: Seq<char>, k: int)
    requires
        0 <= k < manifest_entries(text).len(),
    ensures
        manifest_entries(text)[k].len() > 0,
        !is_space(manifest_entries(text)[k].first()),
        !is_space(manifest_entries(text)[k].last()),
        exists|j: int|
            0 <= j < lines(text).len() && manifest_entries(text)[k] == trim(#[trigger] lines(text)[j]),
{
    let j = lemma_named_in_member(lines(text), k);
    lemma_trim_strips_whitespace(lines(text)[j]);
}

/// Finds where the line that begins at `start` ends.
fn line_end(chars: &Vec<char>, start: usize) -> (end: usize)
    requires
        start <= chars.len(),
    ensures
        start <= end <= chars.len(),
        end - start == line_length(chars@.skip(start as int)),
{
    let mut end: usize = start;
    while end < chars.len() && chars[end] != '\n'
        invariant
            start <= end <= chars.len(),
            forall|i: int| start <= i < end ==> #[trigger] chars@[i] != '\n',
        decreases chars.len() - end,
    {
        end = end + 1;
    }
    proof {
        lemma_line_length_is(chars@.skip(start as int), end - start);
    }
    end
}

/// Finds what trimming leaves of the stretch from `start` to `end`.
fn trimmed_bounds(chars: &Vec<char>, start: usize, end: usize) -> (bounds: (usize, usize))
    requires
        start <= end <= chars.len(),
    ensures
        start <= bounds.0 <= bounds.1 <= end,
        chars@.subrange(bounds.0 as int, bounds.1 as int) == trim(
            chars@.subrange(start as int, end as int),
        ),
{
    let mut from: usize = start;
    while from < end && is_whitespace(chars[from])
        invariant
            start <= from <= end <= chars.len(),
            forall|i: int| start <= i < from ==> is_space(#[trigger] chars@[i]),
        decreases end - from,
    {
        from = from + 1;
    }
    let mut to: usize = end;
    while from < to && is_whitespace(chars[to - 1])
        invariant
            from <= to <= end <= chars.len(),
            forall|i: int| to <= i < end ==> is_space(#[trigger] chars@[i]),
        decreases to - from,
    {
        to = to - 1;
    }
    proof {
        let line = chars@.subrange(start as int, end as int);
        lemma_trim_is_subrange(line, from - start, to - start);
        assert(line.subrange(from - start, to - start) =~= chars@.subrange(from as int, to as int));
    }
    (from, to)
}

/// Reads the content of a manifest: the directories it names, in the order of
/// their lines. Each line is trimmed of the whitespace around it, and a line
/// that holds nothing else names no directory. Names are taken as they stand:
/// none is checked, resolved or dropped for being named before.
pub fn directories_to_remove(text: &str) -> (entries: Vec<String>)
    ensures
        views_of(entries@) == manifest_entries(text@),
{
    let chars = chars_of(text);
    let n = chars.len();
    let mut entries: Vec<String> = Vec::new();
    let mut start: usize = 0;
    assert(chars@.skip(0) =~= chars@);
    while start < n
        invariant
            n == chars.len(),
            start <= n,
            views_of(entries@) + manifest_entries(chars@.skip(start as int)) == manifest_entries(
                chars@,
            ),
        decreases n - start,
    {
        let ghost rest = chars@.skip(start as int);
        let ghost before = views_of(entries@);
        let end = line_end(&chars, start);
        let (from, to) = trimmed_bounds(&chars, start, end);
        proof {
            lemma_entries_by_first_line(rest);
            lemma_named_in_one(rest.take(end - start));
            assert(rest.take(end - start) =~= chars@.subrange(start as int, end as int));
        }
        if from < to {
            let name = string_from_chars(&chars, from, to);
            entries.push(name);
            assert(views_of(entries@) =~= before + seq![name@]);
        }
        if end < n {
            assert(rest.skip(end - start + 1) =~= chars@.skip(end + 1));
            start = end + 1;
        } else {
            start = end;
            proof {
                lemma_named_in_empty();
                assert(chars@.skip(start as int) =~= Seq::empty());
            }
        }
    }
    proof {
        lemma_named_in_empty();
        assert(chars@.skip(start as int) =~= Seq::empty());
    }
    entries
}

} // verus!
