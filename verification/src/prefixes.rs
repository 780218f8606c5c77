//! The prefix block of a query: the declarations of the namespaces that
//! the graph names.

use crate::model::{Prefix, PrefixView};
use crate::order::{distinct, sort_strings};
use crate::slots::{Slot, SlotView, slot_views};
use crate::text::{join, join_strings, lemma_texts_push, lex_order, texts};
use vstd::prelude::*;

verus! {

/// The prefixes of the slots that have a namespace, in their order.
pub open spec fn namespaces(slots: Seq<SlotView>) -> Seq<PrefixView>
    decreases slots.len(),
{
    if slots.len() == 0 {
        Seq::empty()
    } else if slots.last().prefix.iri.len() == 0 {
        namespaces(slots.drop_last())
    } else {
        namespaces(slots.drop_last()).push(slots.last().prefix)
    }
}

/// The declaration of a prefix.
pub open spec fn prefix_line(p: PrefixView) -> Seq<char> {
    "PREFIX "@ + p.abbreviation + ": <"@ + p.iri + ">"@
}

/// The declarations of the prefixes, in their order.
pub open spec fn prefix_lines(prefixes: Seq<PrefixView>) -> Seq<Seq<char>> {
    Seq::new(prefixes.len(), |i: int| prefix_line(prefixes[i]))
}

/// The prefix block: the declarations of the different prefixes in
/// lexicographic order, one to a line, and an empty line after them;
/// nothing where no slot has a namespace.
pub open spec fn prefix_block(slots: Seq<SlotView>) -> Seq<char> {
    let sorted = prefix_lines(distinct(namespaces(slots))).sort_by(lex_order());
    if sorted.len() == 0 {
        Seq::empty()
    } else {
        join(sorted, "\n"@) + "\n\n"@
    }
}

/// The values of a sequence of prefixes.
pub open spec fn prefix_views(v: Seq<Prefix>) -> Seq<PrefixView> {
    Seq::new(v.len(), |i: int| v[i]@)
}

proof fn lemma_prefix_views_push(v: Seq<Prefix>, p: Prefix)
    ensures
        prefix_views(v.push(p)) == prefix_views(v).push(p@),
{
    assert(prefix_views(v.push(p)) =~= prefix_views(v).push(p@));
}

/// The prefixes of the slots that have a namespace, in their order.
fn collect_namespaces(slots: &Vec<Slot>) -> (r: Vec<Prefix>)
    ensures
        prefix_views(r@) == namespaces(slot_views(slots@)),
{
    let ghost all = slot_views(slots@);
    let mut out: Vec<Prefix> = Vec::new();
    let mut i: usize = 0;
    assert(all.take(0) =~= Seq::empty());
    assert(prefix_views(out@) =~= Seq::empty());
    while i < slots.len()
        invariant
            i <= slots.len(),
            all == slot_views(slots@),
            prefix_views(out@) == namespaces(all.take(i as int)),
        decreases slots.len() - i,
    {
        let slot = &slots[i];
        proof {
            assert(all.take(i + 1).drop_last() =~= all.take(i as int));
            assert(all.take(i + 1).last() == slot@);
        }
        if !slot.prefix.iri.as_str().is_empty() {
            let prefix = slot.prefix.duplicate();
            proof {
                lemma_prefix_views_push(out@, prefix);
            }
            out.push(prefix);
        }
        i = i + 1;
    }
    assert(all.take(i as int) =~= all);
    out
}

/// Whether one of the prefixes of `v` has the value of `p`.
fn contains_prefix(v: &Vec<Prefix>, p: &Prefix) -> (r: bool)
    ensures
        r == prefix_views(v@).contains(p@),
{
    let mut i: usize = 0;
    while i < v.len()
        invariant
            i <= v.len(),
            forall|j: int| 0 <= j < i ==> prefix_views(v@)[j] != p@,
        decreases v.len() - i,
    {
        if v[i].same_as(p) {
            assert(prefix_views(v@)[i as int] == p@);
            return true;
        }
        i = i + 1;
    }
    false
}

/// The prefixes of `v` in the order in which they first occur, each once.
fn distinct_prefixes(v: &Vec<Prefix>) -> (r: Vec<Prefix>)
    ensures
        prefix_views(r@) == distinct(prefix_views(v@)),
{
    let ghost all = prefix_views(v@);
    let mut out: Vec<Prefix> = Vec::new();
    let mut i: usize = 0;
    assert(all.take(0) =~= Seq::empty());
    assert(prefix_views(out@) =~= Seq::empty());
    while i < v.len()
        invariant
            i <= v.len(),
            all == prefix_views(v@),
            prefix_views(out@) == distinct(all.take(i as int)),
        decreases v.len() - i,
    {
        proof {
            assert(all.take(i + 1).drop_last() =~= all.take(i as int));
            assert(all.take(i + 1).last() == v@[i as int]@);
        }
        if !contains_prefix(&out, &v[i]) {
            let prefix = v[i].duplicate();
            proof {
                lemma_prefix_views_push(out@, prefix);
            }
            out.push(prefix);
        }
        i = i + 1;
    }
    assert(all.take(i as int) =~= all);
    out
}

/// The prefix block of the slots.
pub fn prefix_block_of(slots: &Vec<Slot>) -> (r: String)
    ensures
        r@ == prefix_block(slot_views(slots@)),
{
    let with_namespace = collect_namespaces(slots);
    let different = distinct_prefixes(&with_namespace);
    let ghost want = prefix_lines(prefix_views(different@));
    let mut lines: Vec<String> = Vec::new();
    let mut i: usize = 0;
    assert(want.take(0) =~= Seq::empty());
    assert(texts(lines@) =~= Seq::empty());
    while i < different.len()
        invariant
            i <= different.len(),
            want == prefix_lines(prefix_views(different@)),
            texts(lines@) == want.take(i as int),
        decreases different.len() - i,
    {
        let prefix = &different[i];
        let mut line = String::from_str("PREFIX ");
        line.append(prefix.abbreviation.as_str());
        line.append(": <");
        line.append(prefix.iri.as_str());
        line.append(">");
        proof {
            lemma_texts_push(lines@, line);
            assert(want.take(i + 1) =~= want.take(i as int).push(line@));
        }
        lines.push(line);
        i = i + 1;
    }
    assert(want.take(i as int) =~= want);
    let sorted = sort_strings(&lines);
    if sorted.len() == 0 {
        String::new()
    } else {
        let mut out = join_strings(&sorted, "\n");
        out.append("\n\n");
        out
    }
}

} // verus!
