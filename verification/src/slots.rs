//! The places of a query graph where an id stands: the two ends of each
//! connection and every node of every property tree.

use crate::model::{Connection, ConnectionView, Entity, EntityView, Prefix, PrefixView};
use crate::model::{Property, PropertyView, connection_views, lemma_property_children};
use crate::model::{property_views};
use vstd::prelude::*;

verus! {

/// One place of a query graph where an id stands: an end of a connection
/// or a node of a property tree.
pub struct Slot {
    pub id: String,
    pub prefix: Prefix,
    pub selected: bool,
    pub distinct: bool,
}

/// The value of a [`Slot`].
pub struct SlotView {
    pub id: Seq<char>,
    pub prefix: PrefixView,
    pub selected: bool,
    pub distinct: bool,
}

impl View for Slot {
    type V = SlotView;

    open spec fn view(&self) -> SlotView {
        SlotView {
            id: self.id@,
            prefix: self.prefix@,
            selected: self.selected,
            distinct: self.distinct,
        }
    }
}

/// The values of a sequence of slots.
pub open spec fn slot_views(v: Seq<Slot>) -> Seq<SlotView> {
    Seq::new(v.len(), |i: int| v[i]@)
}

/// The slot of an end of a connection.
pub open spec fn entity_slot(e: EntityView) -> SlotView {
    SlotView {
        id: e.id,
        prefix: e.prefix,
        selected: e.selected_for_projection,
        distinct: e.distinct,
    }
}

/// The slot of one node of a property tree: never distinct.
pub open spec fn property_slot(p: PropertyView) -> SlotView {
    SlotView { id: p.id, prefix: p.prefix, selected: p.selected_for_projection, distinct: false }
}

/// The slots of a property tree: the node's own, then those of its
/// children, first to last.
pub open spec fn tree_slots(p: PropertyView) -> Seq<SlotView>
    decreases p, 0nat,
{
    seq![property_slot(p)] + forest_slots(p.properties, p.properties.len())
}

/// The slots of the first `n` trees of `trees`.
pub open spec fn forest_slots(trees: Seq<PropertyView>, n: nat) -> Seq<SlotView>
    decreases trees, n,
{
    if n == 0 || n > trees.len() {
        Seq::empty()
    } else {
        forest_slots(trees, (n - 1) as nat) + tree_slots(trees[n - 1])
    }
}

/// The slots of a connection: its source, its target, then those of its
/// property trees.
pub open spec fn connection_slots(c: ConnectionView) -> Seq<SlotView> {
    seq![entity_slot(c.source), entity_slot(c.target)] + forest_slots(
        c.properties,
        c.properties.len(),
    )
}

/// The slots of a list of connections, in their order.
pub open spec fn graph_slots(connections: Seq<ConnectionView>) -> Seq<SlotView>
    decreases connections.len(),
{
    if connections.len() == 0 {
        Seq::empty()
    } else {
        graph_slots(connections.drop_last()) + connection_slots(connections.last())
    }
}

/// The slots of a graph hold both ends of each of its connections.
pub proof fn lemma_ends_are_slots(connections: Seq<ConnectionView>, i: int)
    requires
        0 <= i < connections.len(),
    ensures
        graph_slots(connections).contains(entity_slot(connections[i].source)),
        graph_slots(connections).contains(entity_slot(connections[i].target)),
    decreases connections.len(),
{
    let all = graph_slots(connections);
    let front = graph_slots(connections.drop_last());
    let own = connection_slots(connections.last());
    if i == connections.len() - 1 {
        assert(all[front.len() as int] == own[0]);
        assert(all[front.len() as int + 1] == own[1]);
    } else {
        lemma_ends_are_slots(connections.drop_last(), i);
        let a = entity_slot(connections[i].source);
        let b = entity_slot(connections[i].target);
        let j = choose|j: int| 0 <= j < front.len() && front[j] == a;
        assert(all[j] == a);
        let k = choose|k: int| 0 <= k < front.len() && front[k] == b;
        assert(all[k] == b);
    }
}

/// No slot of a property tree is distinct.
proof fn lemma_tree_slots_not_distinct(p: PropertyView)
    ensures
        forall|j: int| 0 <= j < tree_slots(p).len() ==> !(#[trigger] tree_slots(p)[j]).distinct,
    decreases p, 0nat,
{
    lemma_forest_slots_not_distinct(p.properties, p.properties.len());
    let rest = forest_slots(p.properties, p.properties.len());
    assert forall|j: int| 0 <= j < tree_slots(p).len() implies !(#[trigger] tree_slots(
        p,
    )[j]).distinct by {
        if j > 0 {
            assert(tree_slots(p)[j] == rest[j - 1]);
        }
    }
}

/// No slot of a sequence of property trees is distinct.
proof fn lemma_forest_slots_not_distinct(trees: Seq<PropertyView>, n: nat)
    ensures
        forall|j: int|
            0 <= j < forest_slots(trees, n).len() ==> !(#[trigger] forest_slots(
                trees,
                n,
            )[j]).distinct,
    decreases trees, n,
{
    if n > 0 && n <= trees.len() {
        lemma_forest_slots_not_distinct(trees, (n - 1) as nat);
        lemma_tree_slots_not_distinct(trees[n - 1]);
        let front = forest_slots(trees, (n - 1) as nat);
        let own = tree_slots(trees[n - 1]);
        assert forall|j: int| 0 <= j < forest_slots(trees, n).len() implies !(
        #[trigger] forest_slots(trees, n)[j]).distinct by {
            if j < front.len() {
                assert(forest_slots(trees, n)[j] == front[j]);
            } else {
                assert(forest_slots(trees, n)[j] == own[j - front.len()]);
            }
        }
    }
}

/// A slot of a graph that is distinct is an end of a connection: the
/// node of a property tree never is.
pub proof fn lemma_distinct_slots_are_ends(connections: Seq<ConnectionView>, j: int)
    requires
        0 <= j < graph_slots(connections).len(),
        graph_slots(connections)[j].distinct,
    ensures
        exists|i: int|
            0 <= i < connections.len() && (graph_slots(connections)[j] == entity_slot(
                (#[trigger] connections[i]).source,
            ) || graph_slots(connections)[j] == entity_slot(connections[i].target)),
    decreases connections.len(),
{
    let all = graph_slots(connections);
    if connections.len() > 0 {
        let front = graph_slots(connections.drop_last());
        let last = connections.len() - 1;
        let c = connections[last];
        let own = connection_slots(c);
        if j < front.len() {
            assert(all[j] == front[j]);
            lemma_distinct_slots_are_ends(connections.drop_last(), j);
            let i = choose|i: int|
                0 <= i < connections.drop_last().len() && (front[j] == entity_slot(
                    (#[trigger] connections.drop_last()[i]).source,
                ) || front[j] == entity_slot(connections.drop_last()[i].target));
            assert(connections[i] == connections.drop_last()[i]);
        } else {
            let k = j - front.len();
            assert(all[j] == own[k]);
            lemma_forest_slots_not_distinct(c.properties, c.properties.len());
            if k >= 2 {
                assert(own[k] == forest_slots(c.properties, c.properties.len())[k - 2]);
            }
            assert(all[j] == entity_slot(connections[last].source) || all[j] == entity_slot(
                connections[last].target,
            ));
        }
    }
}

proof fn lemma_slot_views_push(v: Seq<Slot>, s: Slot)
    ensures
        slot_views(v.push(s)) == slot_views(v).push(s@),
{
    assert(slot_views(v.push(s)) =~= slot_views(v).push(s@));
}

/// Adds the slots of a property tree to `out`.
fn collect_tree(p: &Property, out: &mut Vec<Slot>)
    ensures
        slot_views(final(out)@) == slot_views(old(out)@) + tree_slots(p@),
    decreases p,
{
    let ghost start = slot_views(out@);
    let slot = Slot {
        id: p.id.clone(),
        prefix: p.prefix.duplicate(),
        selected: p.selected_for_projection,
        distinct: false,
    };
    proof {
        lemma_slot_views_push(out@, slot);
        lemma_property_children(*p);
    }
    out.push(slot);
    let mut i: usize = 0;
    while i < p.properties.len()
        invariant
            i <= p.properties.len(),
            p@.properties == property_views(p.properties@),
            slot_views(out@) == start + seq![property_slot(p@)] + forest_slots(
                p@.properties,
                i as nat,
            ),
        decreases p.properties.len() - i,
    {
        collect_tree(&p.properties[i], out);
        proof {
            assert(slot_views(out@) =~= start + seq![property_slot(p@)] + forest_slots(
                p@.properties,
                (i + 1) as nat,
            ));
        }
        i = i + 1;
    }
}

/// Adds the slot of an end of a connection to `out`.
fn collect_entity(e: &Entity, out: &mut Vec<Slot>)
    ensures
        slot_views(final(out)@) == slot_views(old(out)@).push(entity_slot(e@)),
{
    let slot = Slot {
        id: e.id.clone(),
        prefix: e.prefix.duplicate(),
        selected: e.selected_for_projection,
        distinct: e.distinct,
    };
    proof {
        lemma_slot_views_push(out@, slot);
    }
    out.push(slot);
}

/// The slots of a list of connections.
pub fn collect_slots(connections: &Vec<Connection>) -> (r: Vec<Slot>)
    ensures
        slot_views(r@) == graph_slots(connection_views(connections@)),
{
    let ghost all = connection_views(connections@);
    let mut out: Vec<Slot> = Vec::new();
    let mut i: usize = 0;
    assert(all.take(0) =~= Seq::empty());
    assert(slot_views(out@) =~= Seq::empty());
    while i < connections.len()
        invariant
            i <= connections.len(),
            all == connection_views(connections@),
            slot_views(out@) == graph_slots(all.take(i as int)),
        decreases connections.len() - i,
    {
        let c = &connections[i];
        let ghost start = slot_views(out@);
        collect_entity(&c.source, &mut out);
        collect_entity(&c.target, &mut out);
        let mut k: usize = 0;
        while k < c.properties.len()
            invariant
                k <= c.properties.len(),
                slot_views(out@) == start + seq![entity_slot(c@.source), entity_slot(c@.target)]
                    + forest_slots(c@.properties, k as nat),
            decreases c.properties.len() - k,
        {
            collect_tree(&c.properties[k], &mut out);
            proof {
                assert(slot_views(out@) =~= start + seq![
                    entity_slot(c@.source),
                    entity_slot(c@.target),
                ] + forest_slots(c@.properties, (k + 1) as nat));
            }
            k = k + 1;
        }
        proof {
            assert(all.take(i + 1).drop_last() =~= all.take(i as int));
            assert(all.take(i + 1).last() == c@);
            assert(slot_views(out@) =~= start + connection_slots(c@));
        }
        i = i + 1;
    }
    assert(all.take(i as int) =~= all);
    out
}

} // verus!
