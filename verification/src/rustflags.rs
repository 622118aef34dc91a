//! The compiler flags of a build: those that the environment holds already,
//! and those that a dynamic library needs.

use crate::cargo::{Invocation, InvocationView};
use crate::text::{contains, join, joined, split, words};
use vstd::prelude::*;
use vstd::string::*;

verus! {

/// The flags that a dynamic library needs: its code must not depend on
/// where it is loaded.
pub open spec fn required() -> Seq<Seq<char>> {
    seq!["-Crelocation-model=pic"@]
}

/// `all` with each flag once: where a flag stands more than once, the first
/// stays and the others go. What stays keeps its order.
pub open spec fn deduped(all: Seq<Seq<char>>) -> Seq<Seq<char>>
    decreases all.len(),
{
    if all.len() == 0 {
        Seq::empty()
    } else {
        let so_far = deduped(all.drop_last());
        if so_far.contains(all.last()) {
            so_far
        } else {
            so_far.push(all.last())
        }
    }
}

/// The flags of `present` and then those of `wanted`, each once.
pub open spec fn merged(present: Seq<Seq<char>>, wanted: Seq<Seq<char>>) -> Seq<Seq<char>> {
    deduped(present + wanted)
}

/// The first place at which `flag` stands in `all`; the length of `all`
/// where it stands nowhere.
pub open spec fn first_place(all: Seq<Seq<char>>, flag: Seq<char>) -> int
    decreases all.len(),
{
    if all.len() == 0 {
        0
    } else if all.drop_last().contains(flag) {
        first_place(all.drop_last(), flag)
    } else if all.last() == flag {
        all.len() - 1
    } else {
        all.len() as int
    }
}

/// The flags of a build where the environment holds `existing`. A flag is
/// one word: what stands between two spaces. The flags are the words of
/// `existing` and then the required flags, each once: a word that stands a
/// second time is left out, so an option that takes a value is one flag only
/// where it is written in one word with it, as in `-Copt-level=3`.
pub open spec fn flags(existing: Option<Seq<char>>) -> Seq<Seq<char>> {
    merged(
        match existing {
            Some(value) => words(value, ' '),
            None => Seq::empty(),
        },
        required(),
    )
}

/// The flags as they are given, before any is left out: the words of what
/// the environment holds, then the required flags.
pub open spec fn flags_given(existing: Option<Seq<char>>) -> Seq<Seq<char>> {
    (match existing {
        Some(value) => words(value, ' '),
        None => Seq::empty(),
    }) + required()
}

/// The flags of a build as the one text that the environment of the build
/// tool holds: each flag parted from the next by a space.
pub open spec fn env_value(existing: Option<Seq<char>>) -> Seq<char> {
    joined(flags(existing), " "@)
}

/// The flags that a dynamic library needs.
pub fn required_flags() -> (r: Vec<String>)
    ensures
        r.deep_view() == required(),
{
    let mut r: Vec<String> = Vec::new();
    r.push("-Crelocation-model=pic".to_owned());
    assert(r.deep_view() =~= required());
    r
}

/// Puts `flag` at the end of `out` unless it stands there already.
fn add_once(out: &mut Vec<String>, flag: &String)
    ensures
        final(out).deep_view() == (if old(out).deep_view().contains(flag@) {
            old(out).deep_view()
        } else {
            old(out).deep_view().push(flag@)
        }),
{
    let ghost before = out.deep_view();
    if !contains(out, flag.as_str()) {
        out.push(flag.clone());
        assert(out.deep_view() =~= before.push(flag@));
    }
}

/// The flags of `present` and then those of `wanted`, each once.
pub fn merge(present: Vec<String>, wanted: &Vec<String>) -> (r: Vec<String>)
    ensures
        r.deep_view() == merged(present.deep_view(), wanted.deep_view()),
        r.deep_view().no_duplicates(),
{
    let ghost first = present.deep_view();
    let ghost second = wanted.deep_view();
    let mut out: Vec<String> = Vec::new();
    let mut i: usize = 0;
    assert(first.take(0) =~= Seq::<Seq<char>>::empty());
    assert(out.deep_view() =~= Seq::<Seq<char>>::empty());
    while i < present.len()
        invariant
            i <= present.len(),
            first == present.deep_view(),
            out.deep_view() == deduped(first.take(i as int)),
        decreases present.len() - i,
    {
        proof {
            assert(first.take(i + 1).drop_last() =~= first.take(i as int));
            assert(first.take(i + 1).last() == present[i as int]@);
        }
        add_once(&mut out, &present[i]);
        i += 1;
    }
    assert(first.take(present.len() as int) =~= first);
    assert(first + second.take(0) =~= first);
    let mut j: usize = 0;
    while j < wanted.len()
        invariant
            j <= wanted.len(),
            second == wanted.deep_view(),
            out.deep_view() == deduped(first + second.take(j as int)),
        decreases wanted.len() - j,
    {
        proof {
            assert((first + second.take(j + 1)).drop_last() =~= first + second.take(j as int));
            assert((first + second.take(j + 1)).last() == wanted[j as int]@);
        }
        add_once(&mut out, &wanted[j]);
        j += 1;
    }
    proof {
        assert(second.take(wanted.len() as int) =~= second);
        lemma_deduped(first + second);
    }
    out
}

/// The flags of a build, where the environment of this process holds
/// `existing`.
pub fn make_vec(existing: &Option<String>) -> (r: Vec<String>)
    ensures
        r.deep_view() == flags(existing.deep_view()),
        r.deep_view().no_duplicates(),
{
    let present = match existing {
        Some(value) => split(value.as_str(), ' '),
        None => {
            let none: Vec<String> = Vec::new();
            assert(none.deep_view() =~= Seq::<Seq<char>>::empty());
            none
        },
    };
    let wanted = required_flags();
    merge(present, &wanted)
}

/// Sets the compiler flags in the environment of `cmd`.
pub fn set_env(cmd: &mut Invocation, existing: &Option<String>)
    ensures
        final(cmd).deep_view() == (InvocationView {
            env: old(cmd).deep_view().env.push(("RUSTFLAGS"@, env_value(existing.deep_view()))),
            ..old(cmd).deep_view()
        }),
{
    let all = make_vec(existing);
    cmd.env("RUSTFLAGS", join(&all, " "));
}

/// Where `flag` stands in `all`, `first_place` gives a place at which it
/// stands, and it stands at no place before that one.
pub proof fn lemma_first_place(all: Seq<Seq<char>>, flag: Seq<char>)
    ensures
        0 <= first_place(all, flag) <= all.len(),
        all.contains(flag) <==> first_place(all, flag) < all.len(),
        all.contains(flag) ==> all[first_place(all, flag)] == flag,
        forall|k: int| 0 <= k < first_place(all, flag) ==> all[k] != flag,
    decreases all.len(),
{
    if all.len() > 0 {
        let front = all.drop_last();
        lemma_first_place(front, flag);
        if front.contains(flag) {
            let i = choose|i: int| 0 <= i < front.len() && front[i] == flag;
            assert(all[i] == flag);
            assert(all[first_place(front, flag)] == front[first_place(front, flag)]);
        } else if all.last() == flag {
            assert(all[all.len() - 1] == flag);
        } else {
            if all.contains(flag) {
                let i = choose|i: int| 0 <= i < all.len() && all[i] == flag;
                assert(front[i] == flag);
            }
        }
        assert forall|k: int| 0 <= k < first_place(all, flag) implies all[k] != flag by {
            if k < front.len() {
                assert(front[k] == all[k]);
                if all[k] == flag {
                    assert(front.contains(flag));
                }
            }
        }
    }
}

/// No flag stands twice in what `deduped` gives. It holds the flags of
/// `all` and no other. And the flags stand in the order of their first places
/// in `all`.
pub proof fn lemma_deduped(all: Seq<Seq<char>>)
    ensures
        deduped(all).no_duplicates(),
        forall|flag: Seq<char>| #[trigger] deduped(all).contains(flag) <==> all.contains(flag),
        forall|i: int, j: int|
            0 <= i < j < deduped(all).len() ==> first_place(all, #[trigger] deduped(all)[i])
                < first_place(all, #[trigger] deduped(all)[j]),
    decreases all.len(),
{
    let kept = deduped(all);
    if all.len() > 0 {
        let front = all.drop_last();
        let last = all.last();
        let so_far = deduped(front);
        lemma_deduped(front);
        assert forall|flag: Seq<char>| #[trigger] kept.contains(flag) <==> all.contains(flag) by {
            if kept.contains(flag) {
                let i = choose|i: int| 0 <= i < kept.len() && kept[i] == flag;
                if i < so_far.len() {
                    assert(so_far[i] == flag);
                    assert(so_far.contains(flag));
                    let k = choose|k: int| 0 <= k < front.len() && front[k] == flag;
                    assert(all[k] == flag);
                } else {
                    assert(all[all.len() - 1] == flag);
                }
            }
            if all.contains(flag) {
                let k = choose|k: int| 0 <= k < all.len() && all[k] == flag;
                if k < front.len() {
                    assert(front[k] == flag);
                    assert(front.contains(flag));
                    assert(so_far.contains(flag));
                    let i = choose|i: int| 0 <= i < so_far.len() && so_far[i] == flag;
                    assert(kept[i] == flag);
                } else if so_far.contains(flag) {
                    let i = choose|i: int| 0 <= i < so_far.len() && so_far[i] == flag;
                    assert(kept[i] == flag);
                } else {
                    assert(kept[so_far.len() as int] == flag);
                }
            }
        }
        if !so_far.contains(last) {
            assert forall|i: int, j: int| 0 <= i < kept.len() && 0 <= j < kept.len() && i
                != j implies kept[i] != kept[j] by {
                if i < so_far.len() && j < so_far.len() {
                    assert(so_far[i] != so_far[j]);
                } else if i < so_far.len() {
                    assert(so_far[i] == kept[i]);
                    assert(so_far.contains(kept[i]));
                } else {
                    assert(so_far[j] == kept[j]);
                    assert(so_far.contains(kept[j]));
                }
            }
        }
        assert forall|i: int, j: int| 0 <= i < j < kept.len() implies first_place(
            all,
            #[trigger] kept[i],
        ) < first_place(all, #[trigger] kept[j]) by {
            assert(so_far[i] == kept[i]);
            assert(so_far.contains(kept[i]));
            assert(front.contains(kept[i]));
            lemma_first_place(front, kept[i]);
            if j < so_far.len() {
                assert(so_far[j] == kept[j]);
                assert(so_far.contains(kept[j]));
                assert(front.contains(kept[j]));
            } else {
                assert(kept[j] == last);
                assert(!front.contains(last));
            }
        }
    }
}

/// The flags of a build hold no flag twice. They hold every word of what
/// the environment holds, every required flag, and nothing else. And they
/// stand as they first stood: the words of the environment in their order,
/// then the required flags that were not among them.
pub proof fn lemma_flags(existing: Option<Seq<char>>)
    ensures
        flags(existing).no_duplicates(),
        forall|flag: Seq<char>| #[trigger]
            flags(existing).contains(flag) <==> (existing matches Some(value) && words(
                value,
                ' ',
            ).contains(flag)) || required().contains(flag),
        forall|i: int, j: int|
            0 <= i < j < flags(existing).len() ==> first_place(
                flags_given(existing),
                #[trigger] flags(existing)[i],
            ) < first_place(flags_given(existing), #[trigger] flags(existing)[j]),
{
    let present = match existing {
        Some(value) => words(value, ' '),
        None => Seq::empty(),
    };
    let all = present + required();
    lemma_deduped(all);
    assert forall|flag: Seq<char>| #[trigger]
        all.contains(flag) <==> present.contains(flag) || required().contains(flag) by {
        if all.contains(flag) {
            let k = choose|k: int| 0 <= k < all.len() && all[k] == flag;
            if k < present.len() {
                assert(present[k] == flag);
            } else {
                assert(required()[k - present.len()] == flag);
            }
        }
        if present.contains(flag) {
            let k = choose|k: int| 0 <= k < present.len() && present[k] == flag;
            assert(all[k] == flag);
        }
        if required().contains(flag) {
            let k = choose|k: int| 0 <= k < required().len() && required()[k] == flag;
            assert(all[present.len() + k] == flag);
        }
    }
}

} // verus!
