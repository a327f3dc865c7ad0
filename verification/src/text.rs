//! Characters and strings: whitespace, trimming, and moving between `str`,
//! `String` and sequences of characters.

use vstd::prelude::*;

verus! {

/// `c` is whitespace: one of the code points that Unicode gives the property
/// White_Space.
pub open spec fn is_space(c: char) -> bool {
    let n = c as u32;
    ||| 0x09 <= n <= 0x0D
    ||| n == 0x20
    ||| n == 0x85
    ||| n == 0xA0
    ||| n == 0x1680
    ||| 0x2000 <= n <= 0x200A
    ||| n == 0x2028
    ||| n == 0x2029
    ||| n == 0x202F
    ||| n == 0x205F
    ||| n == 0x3000
}

/// Tells whether `c` is whitespace.
pub fn is_whitespace(c: char) -> (b: bool)
    ensures
        b == is_space(c),
{
    let n: u32 = c as u32;
    (0x09 <= n && n <= 0x0D) || n == 0x20 || n == 0x85 || n == 0xA0 || n == 0x1680 || (0x2000 <= n
        && n <= 0x200A) || n == 0x2028 || n == 0x2029 || n == 0x202F || n == 0x205F || n == 0x3000
}

/// `s` without the whitespace it begins with.
pub open spec fn trim_start(s: Seq<char>) -> Seq<char>
    decreases s.len(),
{
    if s.len() > 0 && is_space(s.first()) {
        trim_start(s.drop_first())
    } else {
        s
    }
}

/// `s` without the whitespace it ends with.
pub open spec fn trim_end(s: Seq<char>) -> Seq<char>
    decreases s.len(),
{
    if s.len() > 0 && is_space(s.last()) {
        trim_end(s.drop_last())
    } else {
        s
    }
}

/// `s` without the whitespace at either end.
pub open spec fn trim(s: Seq<char>) -> Seq<char> {
    trim_end(trim_start(s))
}

/// Every character of `s` is whitespace.
pub open spec fn is_blank(s: Seq<char>) -> bool {
    forall|i: int| 0 <= i < s.len() ==> is_space(#[trigger] s[i])
}

/// The characters of each string.
pub open spec fn views_of(strings: Seq<String>) -> Seq<Seq<char>> {
    Seq::new(strings.len(), |i: int| strings[i]@)
}

/// Where the whitespace that `s` begins with ends.
proof fn lemma_trim_start_form(s: Seq<char>) -> (from: int)
    ensures
        0 <= from <= s.len(),
        trim_start(s) == s.skip(from),
        forall|i: int| 0 <= i < from ==> is_space(#[trigger] s[i]),
        from < s.len() ==> !is_space(s[from]),
    decreases s.len(),
{
    if s.len() > 0 && is_space(s.first()) {
        let rest = s.drop_first();
        let inner = lemma_trim_start_form(rest);
        assert(rest.skip(inner) =~= s.skip(inner + 1));
        assert forall|i: int| 0 <= i < inner + 1 implies is_space(#[trigger] s[i]) by {
            if i > 0 {
                assert(s[i] == rest[i - 1]);
            }
        }
        if inner + 1 < s.len() {
            assert(s[inner + 1] == rest[inner]);
        }
        inner + 1
    } else {
        assert(s.skip(0) =~= s);
        0
    }
}

/// Where the whitespace that `s` ends with begins.
proof fn lemma_trim_end_form(s: Seq<char>) -> (to: int)
    ensures
        0 <= to <= s.len(),
        trim_end(s) == s.take(to),
        forall|i: int| to <= i < s.len() ==> is_space(#[trigger] s[i]),
        0 < to ==> !is_space(s[to - 1]),
    decreases s.len(),
{
    if s.len() > 0 && is_space(s.last()) {
        let rest = s.drop_last();
        let inner = lemma_trim_end_form(rest);
        assert(rest.take(inner) =~= s.take(inner));
        assert forall|i: int| inner <= i < s.len() implies is_space(#[trigger] s[i]) by {
            if i < s.len() - 1 {
                assert(s[i] == rest[i]);
            }
        }
        if 0 < inner {
            assert(s[inner - 1] == rest[inner - 1]);
        }
        inner
    } else {
        assert(s.take(s.len() as int) =~= s);
        s.len() as int
    }
}

/// Trimming cuts `s` down to the stretch from `from` to `to` when whitespace is
/// all there is outside it and it neither begins nor ends with whitespace.
pub proof fn lemma_trim_is_subrange(s: Seq<char>, from: int, to: int)
    requires
        0 <= from <= to <= s.len(),
        forall|i: int| 0 <= i < from ==> is_space(#[trigger] s[i]),
        forall|i: int| to <= i < s.len() ==> is_space(#[trigger] s[i]),
        from < to ==> !is_space(s[from]) && !is_space(s[to - 1]),
    ensures
        trim(s) == s.subrange(from, to),
{
    let first = lemma_trim_start_form(s);
    let tail = s.skip(first);
    let kept = lemma_trim_end_form(tail);
    if from < to {
        // The first character that is no whitespace stands at `from`, the last
        // before `to`.
        if first < from {
            assert(is_space(s[first]));
        }
        assert(first == from);
        if kept < to - from {
            assert(tail[to - from - 1] == s[to - 1]);
        } else if kept > to - from {
            assert(tail[kept - 1] == s[first + kept - 1]);
        }
        assert(kept == to - from);
    } else {
        // All of `s` is whitespace.
        if first < s.len() {
            assert(is_space(s[first]));
        }
        assert(kept == 0);
    }
    assert(tail.take(kept) =~= s.subrange(from, to));
}

/// What trimming leaves is a stretch of `s` with nothing but whitespace before
/// and after it, and it neither begins nor ends with whitespace.
pub proof fn lemma_trim_strips_whitespace(s: Seq<char>)
    ensures
        trim(s).len() > 0 ==> !is_space(trim(s).first()) && !is_space(trim(s).last()),
        exists|from: int, to: int|
            0 <= from <= to <= s.len() && trim(s) == #[trigger] s.subrange(from, to) && is_blank(
                s.take(from),
            ) && is_blank(s.skip(to)),
{
    let from = lemma_trim_start_form(s);
    let tail = s.skip(from);
    let kept = lemma_trim_end_form(tail);
    let to = from + kept;
    assert(tail.take(kept) =~= s.subrange(from, to));
    if kept > 0 {
        assert(trim(s).first() == s[from]);
        assert(trim(s).last() == tail[kept - 1]);
    }
    assert forall|i: int| 0 <= i < s.skip(to).len() implies is_space(#[trigger] s.skip(to)[i]) by {
        assert(s.skip(to)[i] == tail[kept + i]);
    }
    assert(is_blank(s.take(from)));
    assert(is_blank(s.skip(to)));
}

/// Trimming leaves nothing of a string of whitespace, and of no other.
pub proof fn lemma_trim_of_blank(s: Seq<char>)
    ensures
        is_blank(s) <==> trim(s).len() == 0,
{
    if is_blank(s) {
        lemma_trim_is_subrange(s, 0, 0);
    }
    if trim(s).len() == 0 {
        let from = lemma_trim_start_form(s);
        let kept = lemma_trim_end_form(s.skip(from));
        assert(s.skip(from).take(kept).len() == kept);
        assert forall|i: int| 0 <= i < s.len() implies is_space(#[trigger] s[i]) by {
            if i >= from {
                assert(s[i] == s.skip(from)[i - from]);
            }
        }
    }
}

/// The characters of `s`, one by one.
pub fn chars_of(s: &str) -> (chars: Vec<char>)
    ensures
        chars@ == s@,
{
    let mut chars: Vec<char> = Vec::new();
    for c in it: s.chars()
        invariant
            it.seq() == s@,
            chars@ == it.seq().take(it.index() as int),
    {
        chars.push(c);
    }
    chars
}

/// `String::push`: puts `c` behind the characters that `s` holds.
#[verifier::external_body]
pub(crate) fn push_char(s: &mut String, c: char)
    ensures
        final(s)@ == old(s)@.push(c),
{
    s.push(c)
}

/// The string made of the characters of `chars` from `from` up to `to`.
pub fn string_from_chars(chars: &Vec<char>, from: usize, to: usize) -> (s: String)
    requires
        from <= to <= chars.len(),
    ensures
        s@ == chars@.subrange(from as int, to as int),
{
    let mut s = String::new();
    let mut i: usize = from;
    while i < to
        invariant
            from <= i <= to <= chars.len(),
            s@ == chars@.subrange(from as int, i as int),
        decreases to - i,
    {
        push_char(&mut s, chars[i]);
        i = i + 1;
        assert(s@ =~= chars@.subrange(from as int, i as int));
    }
    s
}

} // verus!
