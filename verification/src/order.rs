//! Sequences without repetition, and sequences of texts in lexicographic
//! order.

use crate::text::{lemma_lex_le_connected, lemma_lex_le_transitive, lemma_lex_order_total};
use crate::text::{lemma_texts_insert, lemma_texts_push, lex_le, lex_order, same_text, text_le};
use crate::text::{texts};
use vstd::prelude::*;
use vstd::relations::sorted_by;
use vstd::seq_lib::{lemma_sorted_unique, to_multiset_build, to_multiset_insert};

verus! {

/// The elements of `s` in the order in which they first occur, each once.
pub open spec fn distinct<A>(s: Seq<A>) -> Seq<A>
    decreases s.len(),
{
    if s.len() == 0 {
        Seq::empty()
    } else {
        let before = distinct(s.drop_last());
        if before.contains(s.last()) {
            before
        } else {
            before.push(s.last())
        }
    }
}

/// `distinct(s)` holds what `s` holds, and nothing twice.
pub proof fn lemma_distinct<A>(s: Seq<A>)
    ensures
        distinct(s).no_duplicates(),
        forall|x: A| distinct(s).contains(x) <==> s.contains(x),
        distinct(s).len() <= s.len(),
    decreases s.len(),
{
    if s.len() > 0 {
        let front = s.drop_last();
        let before = distinct(front);
        let d = distinct(s);
        lemma_distinct(front);
        assert forall|x: A| s.contains(x) implies d.contains(x) by {
            let i = choose|i: int| 0 <= i < s.len() && s[i] == x;
            if i < s.len() - 1 {
                assert(front[i] == x);
                assert(front.contains(x));
            }
            if before.contains(x) {
                let j = choose|j: int| 0 <= j < before.len() && before[j] == x;
                assert(d[j] == x);
            } else {
                assert(d[before.len() as int] == x);
            }
        }
        assert forall|x: A| d.contains(x) implies s.contains(x) by {
            let j = choose|j: int| 0 <= j < d.len() && d[j] == x;
            if j < before.len() {
                assert(before[j] == x);
                assert(before.contains(x));
                assert(front.contains(x));
                let i = choose|i: int| 0 <= i < front.len() && front[i] == x;
                assert(front[i] == s[i]);
                assert(s[i] == x);
            } else {
                assert(s[s.len() - 1] == x);
            }
        }
    }
}

/// Whether one of the strings of `v` holds the text of `s`.
pub fn contains_text(v: &Vec<String>, s: &str) -> (r: bool)
    ensures
        r == texts(v@).contains(s@),
{
    let mut i: usize = 0;
    while i < v.len()
        invariant
            i <= v.len(),
            forall|j: int| 0 <= j < i ==> texts(v@)[j] != s@,
        decreases v.len() - i,
    {
        if same_text(v[i].as_str(), s) {
            assert(texts(v@)[i as int] == s@);
            return true;
        }
        i = i + 1;
    }
    false
}

/// The strings of `v` in the order in which they first occur, each once.
pub fn distinct_strings(v: &Vec<String>) -> (r: Vec<String>)
    ensures
        texts(r@) == distinct(texts(v@)),
{
    let mut out: Vec<String> = Vec::new();
    let mut i: usize = 0;
    assert(texts(v@).take(0) =~= Seq::empty());
    assert(texts(out@) =~= Seq::empty());
    while i < v.len()
        invariant
            i <= v.len(),
            texts(out@) == distinct(texts(v@).take(i as int)),
        decreases v.len() - i,
    {
        proof {
            assert(texts(v@).take(i + 1).drop_last() =~= texts(v@).take(i as int));
            assert(texts(v@).take(i + 1).last() == v@[i as int]@);
        }
        if !contains_text(&out, v[i].as_str()) {
            let s = v[i].clone();
            proof {
                lemma_texts_push(out@, s);
            }
            out.push(s);
        }
        i = i + 1;
    }
    assert(texts(v@).take(i as int) =~= texts(v@));
    out
}

/// A sorted sequence stays sorted when `x` enters at a place where all
/// before it are at most `x` and the one at the place is not.
proof fn lemma_insert_keeps_sorted(s: Seq<Seq<char>>, at: int, x: Seq<char>)
    requires
        sorted_by(s, lex_order()),
        0 <= at <= s.len(),
        forall|j: int| 0 <= j < at ==> lex_le(s[j], x),
        at < s.len() ==> !lex_le(s[at], x),
    ensures
        sorted_by(s.insert(at, x), lex_order()),
{
    let t = s.insert(at, x);
    let le = lex_order();
    assert forall|i: int, j: int| 0 <= i < j < t.len() implies #[trigger] le(t[i], t[j]) by {
        if j < at {
            assert(le(s[i], s[j]));
        } else if j == at {
            assert(lex_le(s[i], x));
        } else if i == at {
            lemma_lex_le_connected(s[at], x);
            if j - 1 > at {
                assert(le(s[at], s[j - 1]));
                lemma_lex_le_transitive(x, s[at], s[j - 1]);
            }
        } else if i < at {
            assert(le(s[i], s[j - 1]));
        } else {
            assert(le(s[i - 1], s[j - 1]));
        }
    }
}

/// The strings of `v` in lexicographic order.
pub fn sort_strings(v: &Vec<String>) -> (r: Vec<String>)
    ensures
        texts(r@) == texts(v@).sort_by(lex_order()),
{
    let mut out: Vec<String> = Vec::new();
    let mut i: usize = 0;
    assert(texts(v@).take(0) =~= Seq::empty());
    assert(texts(out@) =~= Seq::empty());
    while i < v.len()
        invariant
            i <= v.len(),
            sorted_by(texts(out@), lex_order()),
            texts(out@).to_multiset() == texts(v@).take(i as int).to_multiset(),
        decreases v.len() - i,
    {
        let mut at: usize = 0;
        while at < out.len() && text_le(out[at].as_str(), v[i].as_str())
            invariant
                at <= out.len(),
                i < v.len(),
                forall|j: int| 0 <= j < at ==> lex_le(texts(out@)[j], v@[i as int]@),
            decreases out.len() - at,
        {
            at = at + 1;
        }
        let s = v[i].clone();
        proof {
            lemma_insert_keeps_sorted(texts(out@), at as int, s@);
            lemma_texts_insert(out@, at as int, s);
            to_multiset_insert(texts(out@), at as int, s@);
            to_multiset_build(texts(v@).take(i as int), s@);
            assert(texts(v@).take(i + 1) =~= texts(v@).take(i as int).push(s@));
        }
        out.insert(at, s);
        i = i + 1;
    }
    proof {
        assert(texts(v@).take(i as int) =~= texts(v@));
        lemma_lex_order_total();
        texts(v@).lemma_sort_by_ensures(lex_order());
        lemma_sorted_unique(texts(out@), texts(v@).sort_by(lex_order()), lex_order());
    }
    out
}

} // verus!
