//! Words and lists of words: the string operations that the rest of the
//! library is built from, each stated over `Seq<char>`.

use vstd::prelude::*;
use vstd::string::*;

verus! {

/// The words of `parts` written one after the other, with `sep` between each
/// two of them.
pub open spec fn joined(parts: Seq<Seq<char>>, sep: Seq<char>) -> Seq<char>
    decreases parts.len(),
{
    if parts.len() == 0 {
        Seq::empty()
    } else if parts.len() == 1 {
        parts[0]
    } else {
        joined(parts.drop_last(), sep) + sep + parts.last()
    }
}

/// The position of the last `c` in `s`, or -1 where `s` holds none.
pub open spec fn last_index_of(s: Seq<char>, c: char) -> int
    decreases s.len(),
{
    if s.len() == 0 {
        -1
    } else if s.last() == c {
        s.len() - 1
    } else {
        last_index_of(s.drop_last(), c)
    }
}

/// The words of `s`: its longest runs of characters other than `sep`, in
/// order. Empty runs are no words.
pub open spec fn words(s: Seq<char>, sep: char) -> Seq<Seq<char>>
    decreases s.len(),
{
    let cut = last_index_of(s, sep);
    if s.len() == 0 {
        Seq::empty()
    } else if cut < 0 || cut >= s.len() {
        seq![s]
    } else if cut + 1 == s.len() {
        words(s.drop_last(), sep)
    } else {
        words(s.take(cut), sep).push(s.skip(cut + 1))
    }
}

/// `last_index_of` gives a position of `c`, and no `c` stands behind it.
pub proof fn lemma_last_index_of(s: Seq<char>, c: char)
    ensures
        -1 <= last_index_of(s, c) < s.len(),
        last_index_of(s, c) >= 0 ==> s[last_index_of(s, c)] == c,
        forall|i: int| last_index_of(s, c) < i < s.len() ==> s[i] != c,
    decreases s.len(),
{
    if s.len() > 0 && s.last() != c {
        let front = s.drop_last();
        lemma_last_index_of(front, c);
        assert forall|i: int| last_index_of(s, c) < i < s.len() implies s[i] != c by {
            if i < front.len() {
                assert(front[i] == s[i]);
            }
        }
    }
}

/// No word is empty, and none holds the separator.
pub proof fn lemma_words(s: Seq<char>, sep: char)
    ensures
        forall|i: int|
            0 <= i < words(s, sep).len() ==> (#[trigger] words(s, sep)[i]).len() > 0 && !words(
                s,
                sep,
            )[i].contains(sep),
    decreases s.len(),
{
    lemma_last_index_of(s, sep);
    let cut = last_index_of(s, sep);
    if s.len() == 0 {
    } else if cut < 0 {
        assert(!s.contains(sep));
    } else if cut + 1 == s.len() {
        lemma_words(s.drop_last(), sep);
    } else {
        lemma_words(s.take(cut), sep);
        let tail = s.skip(cut + 1);
        assert(!tail.contains(sep)) by {
            if tail.contains(sep) {
                let j = choose|j: int| 0 <= j < tail.len() && tail[j] == sep;
                assert(s[cut + 1 + j] == sep);
            }
        }
        let front = words(s.take(cut), sep);
        assert forall|i: int| 0 <= i < words(s, sep).len() implies (#[trigger] words(
            s,
            sep,
        )[i]).len() > 0 && !words(s, sep)[i].contains(sep) by {
            if i < front.len() {
                assert(words(s, sep)[i] == front[i]);
            } else {
                assert(words(s, sep)[i] == tail);
            }
        }
    }
}

/// Tests whether two strings hold the same characters.
pub fn same(a: &str, b: &str) -> (r: bool)
    ensures
        r == (a@ == b@),
{
    let x = a.to_owned();
    let y = b.to_owned();
    x == y
}

/// Tests whether `word` is one of `list`.
pub fn contains(list: &Vec<String>, word: &str) -> (r: bool)
    ensures
        r == list.deep_view().contains(word@),
{
    let mut i: usize = 0;
    while i < list.len()
        invariant
            i <= list.len(),
            forall|j: int| 0 <= j < i ==> list.deep_view()[j] != word@,
        decreases list.len() - i,
    {
        if same(list[i].as_str(), word) {
            assert(list.deep_view()[i as int] == word@);
            return true;
        }
        i += 1;
    }
    false
}

/// Writes the words of `parts` one after the other, with `sep` between each two.
pub fn join(parts: &Vec<String>, sep: &str) -> (r: String)
    ensures
        r@ == joined(parts.deep_view(), sep@),
{
    let mut out = String::new();
    let mut i: usize = 0;
    while i < parts.len()
        invariant
            i <= parts.len(),
            out@ == joined(parts.deep_view().take(i as int), sep@),
        decreases parts.len() - i,
    {
        let ghost before = parts.deep_view().take(i as int);
        let ghost after = parts.deep_view().take(i + 1);
        assert(after.drop_last() =~= before);
        assert(after.last() == parts[i as int]@);
        if i > 0 {
            out.append(sep);
        }
        out.append(parts[i].as_str());
        assert(out@ =~= joined(after, sep@));
        i += 1;
    }
    assert(parts.deep_view().take(parts.len() as int) =~= parts.deep_view());
    out
}

/// `a` followed by `b`.
pub fn chain(a: &str, b: &str) -> (r: String)
    ensures
        r@ == a@ + b@,
{
    let mut out = a.to_owned();
    out.append(b);
    out
}

/// The position of the last `c` in `s`.
pub fn rfind(s: &str, c: char) -> (r: Option<usize>)
    ensures
        match r {
            Some(i) => i == last_index_of(s@, c),
            None => last_index_of(s@, c) == -1,
        },
{
    let n = s.unicode_len();
    let mut found: Option<usize> = None;
    let mut i: usize = 0;
    while i < n
        invariant
            i <= n,
            n == s@.len(),
            match found {
                Some(k) => k == last_index_of(s@.take(i as int), c),
                None => last_index_of(s@.take(i as int), c) == -1,
            },
        decreases n - i,
    {
        assert(s@.take(i + 1).drop_last() =~= s@.take(i as int));
        if s.get_char(i) == c {
            found = Some(i);
        }
        i += 1;
    }
    assert(s@.take(n as int) =~= s@);
    found
}

/// Cuts `s` into its words: the runs of characters between one `sep` and the
/// next. Empty runs are left out.
pub fn split(s: &str, sep: char) -> (r: Vec<String>)
    ensures
        r.deep_view() == words(s@, sep),
{
    let n = s.unicode_len();
    let mut out: Vec<String> = Vec::new();
    let mut start: usize = 0;
    let mut i: usize = 0;
    assert(s@.take(0) =~= Seq::<char>::empty());
    assert(out.deep_view() =~= Seq::<Seq<char>>::empty());
    while i < n
        invariant
            start <= i <= n,
            n == s@.len(),
            forall|j: int| start <= j < i ==> s@[j] != sep,
            start > 0 ==> s@[start - 1] == sep,
            out.deep_view() == words(s@.take(start as int), sep),
        decreases n - i,
    {
        if s.get_char(i) == sep {
            if start < i {
                let word = s.substring_char(start, i).to_owned();
                proof {
                    lemma_words_push(s@.take(i as int), sep, start as int);
                    assert(s@.take(i as int).take(start as int) =~= s@.take(start as int));
                    assert(s@.take(i as int).skip(start as int) =~= s@.subrange(start as int, i as int));
                    lemma_words_sep(s@.take(i + 1), sep);
                    assert(s@.take(i + 1).drop_last() =~= s@.take(i as int));
                }
                let ghost prev = out.deep_view();
                out.push(word);
                assert(out.deep_view() =~= prev.push(word@));
            } else {
                proof {
                    lemma_words_sep(s@.take(i + 1), sep);
                    assert(s@.take(i + 1).drop_last() =~= s@.take(i as int));
                }
            }
            start = i + 1;
        }
        i += 1;
    }
    if start < n {
        let word = s.substring_char(start, n).to_owned();
        proof {
            assert(s@.take(n as int) =~= s@);
            lemma_words_push(s@, sep, start as int);
            assert(s@.skip(start as int) =~= s@.subrange(start as int, n as int));
        }
        let ghost prev = out.deep_view();
        out.push(word);
        assert(out.deep_view() =~= prev.push(word@));
    } else {
        assert(s@.take(n as int) =~= s@);
    }
    out
}

/// A string that ends in `sep` has the words of what stands before it.
proof fn lemma_words_sep(s: Seq<char>, sep: char)
    requires
        s.len() > 0,
        s.last() == sep,
    ensures
        words(s, sep) == words(s.drop_last(), sep),
{
}

/// Where no `sep` stands from `start` on, and one stands just before `start`
/// (or `start` is 0), the rest from `start` is the last word of `s`.
proof fn lemma_words_push(s: Seq<char>, sep: char, start: int)
    requires
        0 <= start < s.len(),
        forall|j: int| start <= j < s.len() ==> s[j] != sep,
        start > 0 ==> s[start - 1] == sep,
    ensures
        words(s, sep) == words(s.take(start), sep).push(s.skip(start)),
{
    lemma_last_index_of(s, sep);
    let cut = last_index_of(s, sep);
    assert(cut == start - 1);
    if start == 0 {
        assert(s.take(0) =~= Seq::<char>::empty());
        assert(s.skip(0) =~= s);
        assert(seq![s] =~= Seq::<Seq<char>>::empty().push(s));
    } else {
        lemma_words_sep(s.take(start), sep);
        assert(s.take(start).drop_last() =~= s.take(cut));
    }
}

} // verus!
