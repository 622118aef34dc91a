//! Which of the features that are switched on can be handed to a build.

use crate::table::Table;
use vstd::prelude::*;
use vstd::string::*;

verus! {

/// The features of `enabled` that are among `declared`, in their order.
pub open spec fn declared_only(enabled: Seq<Seq<char>>, declared: Set<Seq<char>>) -> Seq<
    Seq<char>,
> {
    enabled.filter(|feature: Seq<char>| declared.contains(feature))
}

/// Takes out of `enabled` every feature that `declared` has no entry for.
/// What stays keeps its order.
pub fn retain_declared(enabled: &mut Vec<String>, declared: &Table<Vec<String>>)
    ensures
        final(enabled).deep_view() == declared_only(
            old(enabled).deep_view(),
            declared.deep_view().dom(),
        ),
{
    let ghost all = enabled.deep_view();
    let ghost names = declared.deep_view().dom();
    let ghost pred = |feature: Seq<char>| names.contains(feature);
    let mut kept: Vec<String> = Vec::new();
    let mut i: usize = 0;
    proof {
        reveal(Seq::filter);
        assert(all.take(0) =~= Seq::<Seq<char>>::empty());
        assert(kept.deep_view() =~= all.take(0).filter(pred));
    }
    while i < enabled.len()
        invariant
            i <= enabled.len(),
            all == enabled.deep_view(),
            names == declared.deep_view().dom(),
            pred == |feature: Seq<char>| names.contains(feature),
            kept.deep_view() == all.take(i as int).filter(pred),
        decreases enabled.len() - i,
    {
        let ghost before = kept.deep_view();
        proof {
            reveal(Seq::filter);
            assert(all.take(i + 1).drop_last() =~= all.take(i as int));
            assert(all.take(i + 1).last() == enabled[i as int]@);
        }
        if declared.contains_key(enabled[i].as_str()) {
            kept.push(enabled[i].clone());
            assert(kept.deep_view() =~= before.push(enabled[i as int]@));
        }
        i += 1;
    }
    assert(all.take(enabled.len() as int) =~= all);
    *enabled = kept;
}

/// Whether `c` is a digit of a number that is written to the base 16 in
/// small letters.
pub open spec fn is_lower_hex(c: char) -> bool {
    ('0' as u32 <= c as u32 && c as u32 <= '9' as u32) || ('a' as u32 <= c as u32 && c as u32
        <= 'f' as u32)
}

/// The end of the name of a test binary by which the build tool tells its
/// builds apart: a hyphen and sixteen digits to the base 16. A name that does
/// not end so has none.
pub open spec fn suffix_of(name: Seq<char>) -> Option<Seq<char>> {
    if name.len() >= 17 && name[name.len() - 17] == '-' && forall|i: int|
        name.len() - 16 <= i < name.len() ==> is_lower_hex(#[trigger] name[i]) {
        Some(name.skip(name.len() - 17))
    } else {
        None
    }
}

/// The end of the name of a test binary by which the build tool tells its
/// builds apart.
pub fn hash_suffix(test_binary: &str) -> (r: Option<String>)
    ensures
        r.deep_view() == suffix_of(test_binary@),
{
    let n = test_binary.unicode_len();
    if n < 17 {
        return None;
    }
    if test_binary.get_char(n - 17) != '-' {
        return None;
    }
    let mut i: usize = n - 16;
    while i < n
        invariant
            n - 16 <= i <= n,
            n == test_binary@.len(),
            forall|j: int| n - 16 <= j < i ==> is_lower_hex(#[trigger] test_binary@[j]),
        decreases n - i,
    {
        let c = test_binary.get_char(i) as u32;
        let digit = '0' as u32 <= c && c <= '9' as u32;
        let letter = 'a' as u32 <= c && c <= 'f' as u32;
        if !digit && !letter {
            return None;
        }
        i += 1;
    }
    let suffix = test_binary.substring_char(n - 17, n).to_owned();
    assert(suffix@ =~= test_binary@.skip(n - 17));
    Some(suffix)
}

/// Taking out the undeclared features a second time changes nothing.
pub proof fn lemma_declared_only_idempotent(enabled: Seq<Seq<char>>, declared: Set<Seq<char>>)
    ensures
        declared_only(declared_only(enabled, declared), declared) == declared_only(
            enabled,
            declared,
        ),
    decreases enabled.len(),
{
    let pred = |feature: Seq<char>| declared.contains(feature);
    reveal(Seq::filter);
    if enabled.len() > 0 {
        let front = enabled.drop_last();
        lemma_declared_only_idempotent(front, declared);
        if pred(enabled.last()) {
            let once = front.filter(pred);
            assert(once.push(enabled.last()).drop_last() =~= once);
        }
    }
}

/// Every feature that stays is declared, and was switched on.
pub proof fn lemma_declared_only_sound(
    enabled: Seq<Seq<char>>,
    declared: Set<Seq<char>>,
    feature: Seq<char>,
)
    ensures
        declared_only(enabled, declared).contains(feature) <==> enabled.contains(feature)
            && declared.contains(feature),
{
    let pred = |feature: Seq<char>| declared.contains(feature);
    let kept = enabled.filter(pred);
    if kept.contains(feature) {
        enabled.lemma_filter_contains_rev(pred, feature);
        let i = choose|i: int| 0 <= i < kept.len() && kept[i] == feature;
        enabled.lemma_filter_pred(pred, i);
    }
    if enabled.contains(feature) && declared.contains(feature) {
        let i = choose|i: int| 0 <= i < enabled.len() && enabled[i] == feature;
        enabled.lemma_filter_contains(pred, i);
    }
}

} // verus!
