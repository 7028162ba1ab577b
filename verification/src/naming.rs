//! Names derived from the path of a JavaScript source file.
//!
//! A source file lies below one of two roots, each two directories deep (`src/components`
//! and `static/js`). From the part of its path below the root the bundler derives a
//! controller name, and from that name the identifier under which the controller is
//! registered and the symbol under which it is imported.

use vstd::prelude::*;
use convert_case::{Case, Casing};
use crate::text::{char_seqs, chars_of, joined, lemma_split_nonempty, split, string_of};

verus! {

/// The number of leading path segments that make up a root.
pub const ROOT_DEPTH: usize = 2;

/// The pieces of `pieces` that hold at least one character.
pub open spec fn nonempty(pieces: Seq<Seq<char>>) -> Seq<Seq<char>> {
    pieces.filter(|piece: Seq<char>| piece.len() > 0)
}

/// The segments of a path: what stands between its slashes. Repeated, leading and trailing
/// slashes yield no segment.
pub open spec fn segments(path: Seq<char>) -> Seq<Seq<char>> {
    nonempty(split(path, '/'))
}

/// The segments of a path below its root; none where the path is no longer than a root.
pub open spec fn relative(path: Seq<char>) -> Seq<Seq<char>> {
    let all = segments(path);
    if all.len() > ROOT_DEPTH {
        all.skip(ROOT_DEPTH as int)
    } else {
        Seq::empty()
    }
}

/// A path is rooted when it names something below a root.
pub open spec fn is_rooted(path: Seq<char>) -> bool {
    relative(path).len() > 0
}

/// The stem of a file name: the name up to its last dot. A name without a dot, or whose
/// only dot leads it, is its own stem.
pub open spec fn stem(name: Seq<char>) -> Seq<char> {
    match name.index_of_last('.') {
        Some(dot) => if dot > 0 {
            name.take(dot)
        } else {
            name
        },
        None => name,
    }
}

/// The controller name of a rooted path. For a file directly below its root it is the
/// stem of the file name; for a file in a subdirectory it is the directories below the
/// root and the stem, joined by underscores.
pub open spec fn name_of(path: Seq<char>) -> Seq<char> {
    let below = relative(path);
    if below.len() > 1 {
        joined(below.drop_last().push(stem(below.last())), '_')
    } else {
        stem(below[0])
    }
}

/// The identifier a controller is registered under: its name with every underscore
/// replaced by a hyphen.
pub open spec fn identifier_of(name: Seq<char>) -> Seq<char> {
    name.map_values(|c: char| if c == '_' { '-' } else { c })
}

/// The upper camel case form of a name, as `convert_case` computes it.
pub uninterp spec fn upper_camel(name: Seq<char>) -> Seq<char>;

/// `Casing::to_case` with `Case::UpperCamel`: the result is `upper_camel` of the argument.
/// The conversion reads nothing but its argument.
#[verifier::external_body]
pub(crate) fn to_upper_camel(name: &str) -> (symbol: String)
    ensures
        symbol@ == upper_camel(name@),
{
    name.to_case(Case::UpperCamel)
}

/// The segments of `path`.
fn path_segments(path: &Vec<char>) -> (found: Vec<Vec<char>>)
    ensures
        char_seqs(found@) == segments(path@),
{
    let mut found: Vec<Vec<char>> = Vec::new();
    let mut current: Vec<char> = Vec::new();
    let mut i: usize = 0;
    proof {
        reveal(Seq::filter);
        assert(split(path@.take(0), '/').drop_last() =~= Seq::<Seq<char>>::empty());
    }
    while i < path.len()
        invariant
            i <= path.len(),
            split(path@.take(i as int), '/').len() >= 1,
            char_seqs(found@) == nonempty(split(path@.take(i as int), '/').drop_last()),
            current@ == split(path@.take(i as int), '/').last(),
        decreases path.len() - i,
    {
        let c = path[i];
        proof {
            let seen = path@.take(i as int);
            let next = path@.take(i + 1);
            assert(next.drop_last() =~= seen);
            let before = split(seen, '/');
            let after = split(next, '/');
            lemma_split_nonempty(next, '/');
            reveal(Seq::filter);
            if c == '/' {
                assert(after.drop_last() =~= before);
            } else {
                assert(after.drop_last() =~= before.drop_last());
            }
        }
        if c == '/' {
            if current.len() > 0 {
                found.push(current);
            }
            current = Vec::new();
        } else {
            current.push(c);
        }
        i += 1;
    }
    proof {
        assert(path@.take(i as int) =~= path@);
        reveal(Seq::filter);
    }
    if current.len() > 0 {
        found.push(current);
    }
    found
}

/// Appends the characters of `tail` to `target`.
fn append_chars(target: &mut Vec<char>, tail: &Vec<char>)
    ensures
        final(target)@ == old(target)@ + tail@,
{
    let mut i: usize = 0;
    while i < tail.len()
        invariant
            i <= tail.len(),
            target@ == old(target)@ + tail@.take(i as int),
        decreases tail.len() - i,
    {
        target.push(tail[i]);
        i += 1;
    }
}

/// The stem of a file name.
fn file_stem(name: &Vec<char>) -> (prefix: Vec<char>)
    ensures
        prefix@ == stem(name@),
{
    let mut dot: Option<usize> = None;
    let mut i: usize = 0;
    while i < name.len()
        invariant
            i <= name.len(),
            match dot {
                Some(d) => d < i && name@[d as int] == '.' && forall|j: int|
                    d < j < i ==> name@[j] != '.',
                None => forall|j: int| 0 <= j < i ==> name@[j] != '.',
            },
        decreases name.len() - i,
    {
        if name[i] == '.' {
            dot = Some(i);
        }
        i += 1;
    }
    proof {
        name@.index_of_last_ensures('.');
    }
    let keep: usize = match dot {
        Some(d) => if d > 0 {
            d
        } else {
            name.len()
        },
        None => name.len(),
    };
    let mut prefix: Vec<char> = Vec::new();
    let mut k: usize = 0;
    while k < keep
        invariant
            k <= keep <= name.len(),
            prefix@ == name@.take(k as int),
        decreases keep - k,
    {
        prefix.push(name[k]);
        k += 1;
    }
    prefix
}

/// The controller name of `path`, or `None` where the path is not rooted.
pub fn controller_name(path: &str) -> (name: Option<String>)
    ensures
        name is Some <==> is_rooted(path@),
        name matches Some(n) ==> n@ == name_of(path@),
{
    let chars = chars_of(path);
    let all = path_segments(&chars);
    if all.len() <= ROOT_DEPTH {
        return None;
    }
    let ghost below = relative(path@);
    let ghost parts = below.drop_last().push(stem(below.last()));
    let last: usize = all.len() - 1;
    let mut name: Vec<char> = Vec::new();
    let mut k: usize = ROOT_DEPTH;
    while k < last
        invariant
            ROOT_DEPTH <= k <= last,
            last == all.len() - 1,
            char_seqs(all@) == segments(path@),
            below == relative(path@),
            parts == below.drop_last().push(stem(below.last())),
            k > ROOT_DEPTH ==> name@ == joined(parts.take(k - ROOT_DEPTH), '_').push('_'),
            k == ROOT_DEPTH ==> name@ == Seq::<char>::empty(),
        decreases last - k,
    {
        proof {
            let n = k - ROOT_DEPTH;
            assert(parts[n] == all@[k as int]@);
            assert(parts.take(n + 1).drop_last() =~= parts.take(n));
        }
        append_chars(&mut name, &all[k]);
        name.push('_');
        k += 1;
    }
    let tail = file_stem(&all[last]);
    proof {
        let n = last - ROOT_DEPTH;
        assert(parts[n] == tail@);
        assert(parts.drop_last() =~= parts.take(n));
    }
    append_chars(&mut name, &tail);
    Some(string_of(&name))
}

/// The identifier under which the controller `name` is registered.
pub fn display_identifier(name: &str) -> (identifier: String)
    ensures
        identifier@ == identifier_of(name@),
{
    let chars = chars_of(name);
    let mut identifier = String::new();
    let mut i: usize = 0;
    while i < chars.len()
        invariant
            i <= chars.len(),
            chars@ == name@,
            identifier@ == identifier_of(name@.take(i as int)),
        decreases chars.len() - i,
    {
        let c = chars[i];
        proof {
            assert(identifier_of(name@.take(i + 1)) =~= identifier_of(name@.take(i as int)).push(
                if c == '_' {
                    '-'
                } else {
                    c
                },
            ));
        }
        identifier.push(if c == '_' {
            '-'
        } else {
            c
        });
        i += 1;
    }
    identifier
}

} // verus!
