//! Text as sequences of characters: conversions, substring search and splitting.
//!
//! Every contract in this crate speaks of a string through its view, a `Seq<char>`. The
//! executable functions here work on `Vec<char>`, which can be indexed in constant time.

use vstd::prelude::*;

verus! {

/// `String::push` appends the given character to the end of the string.
pub assume_specification[ String::push ](s: &mut String, ch: char)
    ensures
        final(s)@ == old(s)@.push(ch),
;

/// The views of a sequence of strings.
pub open spec fn texts(strings: Seq<String>) -> Seq<Seq<char>> {
    strings.map_values(|s: String| s@)
}

/// The views of a sequence of character vectors.
pub open spec fn char_seqs(vectors: Seq<Vec<char>>) -> Seq<Seq<char>> {
    vectors.map_values(|v: Vec<char>| v@)
}

/// `pattern` stands in `text` at position `at`.
pub open spec fn occurs_at(pattern: Seq<char>, text: Seq<char>, at: int) -> bool {
    &&& 0 <= at
    &&& at + pattern.len() <= text.len()
    &&& text.subrange(at, at + pattern.len()) == pattern
}

/// `pattern` is a substring of `text`.
pub open spec fn occurs_in(pattern: Seq<char>, text: Seq<char>) -> bool {
    exists|at: int| occurs_at(pattern, text, at)
}

/// The pieces of `text` between occurrences of `sep`, empty pieces included. A text with
/// `n` separators has `n + 1` pieces.
pub open spec fn split(text: Seq<char>, sep: char) -> Seq<Seq<char>>
    decreases text.len(),
{
    if text.len() == 0 {
        seq![Seq::<char>::empty()]
    } else {
        let before = split(text.drop_last(), sep);
        if text.last() == sep {
            before.push(Seq::<char>::empty())
        } else {
            before.drop_last().push(before.last().push(text.last()))
        }
    }
}

/// `parts` written one after another with `sep` between neighbours.
pub open spec fn joined(parts: Seq<Seq<char>>, sep: char) -> Seq<char>
    decreases parts.len(),
{
    if parts.len() == 0 {
        Seq::<char>::empty()
    } else if parts.len() == 1 {
        parts[0]
    } else {
        joined(parts.drop_last(), sep).push(sep) + parts.last()
    }
}

/// Splitting never yields an empty list of pieces.
pub proof fn lemma_split_nonempty(text: Seq<char>, sep: char)
    ensures
        split(text, sep).len() >= 1,
    decreases text.len(),
{
    if text.len() > 0 {
        lemma_split_nonempty(text.drop_last(), sep);
    }
}

/// No piece of a split holds the separator, and joining the pieces with the separator gives
/// the text back.
pub proof fn lemma_split_joined(text: Seq<char>, sep: char)
    ensures
        forall|k: int|
            0 <= k < split(text, sep).len() ==> !(#[trigger] split(text, sep)[k]).contains(sep),
        joined(split(text, sep), sep) == text,
    decreases text.len(),
{
    if text.len() > 0 {
        let pieces = split(text, sep);
        let before = split(text.drop_last(), sep);
        lemma_split_nonempty(text.drop_last(), sep);
        lemma_split_joined(text.drop_last(), sep);
        if text.last() == sep {
            assert(pieces.drop_last() =~= before);
        } else {
            let grown = before.last().push(text.last());
            assert forall|k: int| 0 <= k < pieces.len() implies !(#[trigger] pieces[k]).contains(
                sep,
            ) by {
                if k == pieces.len() - 1 && grown.contains(sep) {
                    let i = choose|i: int| 0 <= i < grown.len() && grown[i] == sep;
                    assert(before.last()[i] == sep);
                }
            }
            if before.len() > 1 {
                assert(pieces.drop_last() =~= before.drop_last());
                assert(joined(pieces, sep) == joined(before.drop_last(), sep).push(sep) + grown);
                assert(joined(pieces, sep) =~= joined(before, sep).push(text.last()));
            }
        }
    }
}

/// Text that is free of the separator, written after another text, lengthens the last
/// piece of that text and changes no other.
pub proof fn lemma_split_extended(text: Seq<char>, tail: Seq<char>, sep: char)
    requires
        !tail.contains(sep),
    ensures
        split(text + tail, sep) == split(text, sep).drop_last().push(
            split(text, sep).last() + tail,
        ),
    decreases tail.len(),
{
    let pieces = split(text, sep);
    lemma_split_nonempty(text, sep);
    if tail.len() == 0 {
        assert(text + tail =~= text);
        assert(pieces.last() + tail =~= pieces.last());
        assert(pieces.drop_last().push(pieces.last()) =~= pieces);
    } else {
        let shorter = tail.drop_last();
        assert forall|i: int| 0 <= i < shorter.len() implies shorter[i] != sep by {
            assert(tail[i] != sep);
        }
        lemma_split_extended(text, shorter, sep);
        assert((text + tail).drop_last() =~= text + shorter);
        assert(split(text + shorter, sep).last().push(tail.last()) =~= pieces.last() + tail);
    }
}

/// Splitting what was joined gives the parts back, where there is at least one part and
/// none of them holds the separator. With `lemma_split_joined` this makes `split` and
/// `joined` inverses of each other.
pub proof fn lemma_joined_split(parts: Seq<Seq<char>>, sep: char)
    requires
        parts.len() >= 1,
        forall|k: int| 0 <= k < parts.len() ==> !(#[trigger] parts[k]).contains(sep),
    ensures
        split(joined(parts, sep), sep) == parts,
    decreases parts.len(),
{
    let empty = Seq::<char>::empty();
    if parts.len() == 1 {
        lemma_split_extended(empty, parts[0], sep);
        assert(empty + parts[0] =~= parts[0]);
        assert(split(parts[0], sep) =~= parts);
    } else {
        let init = parts.drop_last();
        assert forall|k: int| 0 <= k < init.len() implies !(#[trigger] init[k]).contains(sep) by {
            assert(init[k] == parts[k]);
        }
        lemma_joined_split(init, sep);
        let head = joined(init, sep).push(sep);
        assert(head.drop_last() =~= joined(init, sep));
        lemma_split_extended(head, parts.last(), sep);
        assert(init.push(empty + parts.last()) =~= parts);
    }
}

/// The characters of `s`, in order.
pub fn chars_of(s: &str) -> (chars: Vec<char>)
    ensures
        chars@ == s@,
{
    let mut chars: Vec<char> = Vec::new();
    for c in it: s.chars()
        invariant
            it.seq() == s@,
            chars@ == it.seq().take(it.index()),
    {
        chars.push(c);
    }
    chars
}

/// The string made of `chars`, in order.
pub fn string_of(chars: &Vec<char>) -> (s: String)
    ensures
        s@ == chars@,
{
    let mut s = String::new();
    let mut i: usize = 0;
    while i < chars.len()
        invariant
            i <= chars.len(),
            s@ == chars@.take(i as int),
        decreases chars.len() - i,
    {
        s.push(chars[i]);
        i += 1;
    }
    s
}

/// Whether `pattern` stands in `text` at `at`, compared character by character.
fn matches_at(pattern: &Vec<char>, text: &Vec<char>, at: usize) -> (matched: bool)
    requires
        at + pattern.len() <= text.len(),
    ensures
        matched == occurs_at(pattern@, text@, at as int),
{
    let mut k: usize = 0;
    while k < pattern.len()
        invariant
            k <= pattern.len(),
            at + pattern.len() <= text.len(),
            forall|j: int| 0 <= j < k ==> text@[at + j] == pattern@[j],
        decreases pattern.len() - k,
    {
        if text[at + k] != pattern[k] {
            proof {
                let window = text@.subrange(at as int, at + pattern.len());
                assert(window[k as int] != pattern@[k as int]);
            }
            return false;
        }
        k += 1;
    }
    assert(text@.subrange(at as int, at + pattern.len()) =~= pattern@);
    true
}

/// Whether `pattern` is a substring of `text`.
pub fn contains(text: &str, pattern: &str) -> (found: bool)
    ensures
        found == occurs_in(pattern@, text@),
{
    let hay = chars_of(text);
    let needle = chars_of(pattern);
    if needle.len() > hay.len() {
        return false;
    }
    let last: usize = hay.len() - needle.len();
    let mut at: usize = 0;
    while at < last
        invariant
            at <= last,
            last == hay.len() - needle.len(),
            hay@ == text@,
            needle@ == pattern@,
            forall|j: int| 0 <= j < at ==> !occurs_at(pattern@, text@, j),
        decreases last - at,
    {
        if matches_at(&needle, &hay, at) {
            return true;
        }
        at += 1;
    }
    matches_at(&needle, &hay, last)
}

} // verus!
