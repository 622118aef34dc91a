//! Paths as strings whose components are separated by `/`.

use crate::text::{
    chain, last_index_of, lemma_last_index_of, lemma_words, rfind, same, split, words,
};
use vstd::prelude::*;
use vstd::string::*;

verus! {

/// `part` adjoined to `base`: an absolute `part` replaces `base`; otherwise
/// `part` follows `base`, parted from it by one separator unless `base` is
/// empty or ends in one.
pub open spec fn joined(base: Seq<char>, part: Seq<char>) -> Seq<char> {
    if part.len() > 0 && part[0] == '/' {
        part
    } else if base.len() == 0 || base.last() == '/' {
        base + part
    } else {
        base + seq!['/'] + part
    }
}

/// The last of `parts` that is not a single dot.
pub open spec fn last_name(parts: Seq<Seq<char>>) -> Option<Seq<char>>
    decreases parts.len(),
{
    if parts.len() == 0 {
        None
    } else if parts.last() == seq!['.'] {
        last_name(parts.drop_last())
    } else {
        Some(parts.last())
    }
}

/// The last component of `path` that says more than "here": of what stands
/// between the separators of `path`, the last that is neither empty nor a
/// single dot. So `a/b/`, `a/b/.` and `a//b` all end in `b`.
pub open spec fn name_of(path: Seq<char>) -> Option<Seq<char>> {
    last_name(words(path, '/'))
}

/// The stem of the file that `path` names: its last component up to the
/// last `.`, or the whole component where that `.` is missing or comes
/// first. A path without such a component, or whose last is `..`, names no
/// file.
pub open spec fn stem_of(path: Seq<char>) -> Option<Seq<char>> {
    match name_of(path) {
        None => None,
        Some(name) => {
            let dot = last_index_of(name, '.');
            if name == seq!['.', '.'] {
                None
            } else if dot <= 0 {
                Some(name)
            } else {
                Some(name.take(dot))
            }
        },
    }
}

/// `last_name` gives one of `parts`.
pub proof fn lemma_last_name(parts: Seq<Seq<char>>)
    ensures
        last_name(parts) matches Some(name) ==> parts.contains(name) && name != seq!['.'],
    decreases parts.len(),
{
    if parts.len() > 0 {
        if parts.last() == seq!['.'] {
            lemma_last_name(parts.drop_last());
            if last_name(parts) is Some {
                let name = last_name(parts)->Some_0;
                let i = choose|i: int|
                    0 <= i < parts.drop_last().len() && parts.drop_last()[i] == name;
                assert(parts[i] == name);
            }
        } else {
            assert(parts[parts.len() - 1] == parts.last());
        }
    }
}

/// Whether `name` can be one component of a path: it is not empty and holds
/// no separator.
pub open spec fn is_component(name: Seq<char>) -> bool {
    name.len() > 0 && forall|i: int| 0 <= i < name.len() ==> name[i] != '/'
}

/// The stem of a file is one component of a path.
pub proof fn lemma_stem_is_component(path: Seq<char>)
    requires
        stem_of(path) is Some,
    ensures
        is_component(stem_of(path)->Some_0),
{
    let parts = words(path, '/');
    lemma_words(path, '/');
    lemma_last_name(parts);
    let name = name_of(path)->Some_0;
    let at = choose|i: int| 0 <= i < parts.len() && parts[i] == name;
    assert(parts[at].len() > 0 && !parts[at].contains('/'));
    lemma_last_index_of(name, '.');
    let stem = stem_of(path)->Some_0;
    assert forall|i: int| 0 <= i < stem.len() implies stem[i] != '/' by {
        assert(stem[i] == name[i]);
        if name[i] == '/' {
            assert(name.contains('/'));
        }
    }
}

/// A component adjoined to a path that does not end in a separator follows
/// it behind one separator.
pub proof fn lemma_joined_component(base: Seq<char>, name: Seq<char>)
    requires
        base.len() > 0,
        base.last() != '/',
        is_component(name),
    ensures
        joined(base, name) == base + seq!['/'] + name,
        joined(base, name).len() > 0,
        joined(base, name).last() != '/',
{
    assert(name[0] != '/');
    let whole = base + seq!['/'] + name;
    assert(whole.last() == name.last());
}

/// Under one directory, two pairs of components lie at the same place only
/// if they are the same pair.
pub proof fn lemma_nested_places_differ(
    base: Seq<char>,
    outer: Seq<char>,
    inner: Seq<char>,
    other_outer: Seq<char>,
    other_inner: Seq<char>,
)
    requires
        base.len() > 0,
        base.last() != '/',
        is_component(outer),
        is_component(inner),
        is_component(other_outer),
        is_component(other_inner),
        joined(joined(base, outer), inner) == joined(joined(base, other_outer), other_inner),
    ensures
        outer == other_outer,
        inner == other_inner,
{
    lemma_joined_component(base, outer);
    lemma_joined_component(base, other_outer);
    lemma_joined_component(joined(base, outer), inner);
    lemma_joined_component(joined(base, other_outer), other_inner);
    let one = base + seq!['/'] + outer + seq!['/'] + inner;
    let two = base + seq!['/'] + other_outer + seq!['/'] + other_inner;
    assert(one == two);
    let at = base.len() + 1;
    let n = outer.len() as int;
    let m = other_outer.len() as int;
    assert(one[at + n] == '/');
    assert(two[at + m] == '/');
    if n < m {
        assert(two[at + n] == other_outer[n]);
    }
    if m < n {
        assert(one[at + m] == outer[m]);
    }
    assert(n == m);
    assert forall|i: int| 0 <= i < n implies outer[i] == other_outer[i] by {
        assert(one[at + i] == outer[i]);
        assert(two[at + i] == other_outer[i]);
    }
    assert(outer =~= other_outer);
    assert(inner.len() == other_inner.len()) by {
        assert(one.len() == at + n + 1 + inner.len());
        assert(two.len() == at + m + 1 + other_inner.len());
    }
    assert forall|i: int| 0 <= i < inner.len() implies inner[i] == other_inner[i] by {
        assert(one[at + n + 1 + i] == inner[i]);
        assert(two[at + m + 1 + i] == other_inner[i]);
    }
    assert(inner =~= other_inner);
}

/// Adjoins `part` to `base`.
pub fn join(base: &str, part: &str) -> (r: String)
    ensures
        r@ == joined(base@, part@),
{
    let n = base.unicode_len();
    if part.unicode_len() > 0 && part.get_char(0) == '/' {
        part.to_owned()
    } else if n == 0 || base.get_char(n - 1) == '/' {
        chain(base, part)
    } else {
        proof {
            reveal_strlit("/");
            assert("/"@ =~= seq!['/']);
        }
        let mut out = chain(base, "/");
        out.append(part);
        out
    }
}

/// The stem of the file that `path` names, if it names one.
pub fn file_stem(path: &str) -> (r: Option<String>)
    ensures
        r.deep_view() == stem_of(path@),
{
    let parts = split(path, '/');
    let ghost all = parts.deep_view();
    proof {
        reveal_strlit(".");
        reveal_strlit("..");
        assert("."@ =~= seq!['.']);
        assert(".."@ =~= seq!['.', '.']);
        assert(all.take(parts.len() as int) =~= all);
    }
    let mut i: usize = parts.len();
    while i > 0 && same(parts[i - 1].as_str(), ".")
        invariant
            i <= parts.len(),
            all == parts.deep_view(),
            "."@ == seq!['.'],
            last_name(all) == last_name(all.take(i as int)),
        decreases i,
    {
        proof {
            assert(all.take(i as int).last() == parts[i - 1]@);
            assert(all.take(i as int).drop_last() =~= all.take(i - 1));
        }
        i -= 1;
    }
    if i == 0 {
        return None;
    }
    let name = parts[i - 1].as_str();
    proof {
        assert(all.take(i as int).last() == name@);
    }
    if same(name, "..") {
        return None;
    }
    proof {
        lemma_last_index_of(name@, '.');
    }
    match rfind(name, '.') {
        Some(dot) => {
            if dot > 0 {
                let stem = name.substring_char(0, dot).to_owned();
                assert(stem@ =~= name@.take(dot as int));
                Some(stem)
            } else {
                Some(name.to_owned())
            }
        },
        None => Some(name.to_owned()),
    }
}

} // verus!
