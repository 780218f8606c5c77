//! The outer shape of a select query, and the marking of the variables
//! that it projects.

use crate::model::{Connection, ConnectionView, Entity, EntityView, Property, PropertyView};
use crate::model::{connection_views, lemma_connection_views_push, lemma_property_children};
use crate::model::{lemma_property_views_push, property_views};
use crate::path::{PathExpr, decomposed, negated_set_text, well_formed_path};
use crate::pattern::Pattern;
use crate::text::{begins_with, lemma_texts_push, same_text, starts_with_char, texts};
use vstd::prelude::*;

verus! {

/// An id names a variable where it begins with `?`.
pub open spec fn is_variable(id: Seq<char>) -> bool {
    begins_with(id, '?')
}

/// The ids of the variables with the given names: each name behind a `?`.
pub open spec fn variable_ids(names: Seq<String>) -> Seq<Seq<char>> {
    Seq::new(names.len(), |i: int| "?"@ + names[i]@)
}

/// The ids of the variables that the top of a select pattern projects:
/// those of a projection that stands at the top, or directly below a
/// distinct at the top; none where there is no such projection.
pub open spec fn outer_projection(p: Pattern) -> Option<Seq<Seq<char>>> {
    match p {
        Pattern::Distinct(inner) => match *inner {
            Pattern::Project(_, names) => Some(variable_ids(names@)),
            _ => None,
        },
        Pattern::Project(_, names) => Some(variable_ids(names@)),
        _ => None,
    }
}

/// Whether a distinct stands at the top of a select pattern.
pub open spec fn outer_distinct(p: Pattern) -> bool {
    p is Distinct
}

/// What a select pattern holds below its outer distinct and projection.
pub open spec fn outer_body(p: Pattern) -> Pattern {
    match p {
        Pattern::Distinct(inner) => match *inner {
            Pattern::Project(body, _) => *body,
            other => other,
        },
        Pattern::Project(body, _) => *body,
        other => other,
    }
}

/// The outer shape of a select pattern: its body, the ids of the
/// variables that it projects, if it names any, and whether it is
/// distinct.
pub struct Selection {
    pub body: Pattern,
    pub projected: Option<Vec<String>>,
    pub distinct: bool,
}

/// The texts of the projected ids, where there are any.
pub open spec fn projected_ids(projected: Option<Vec<String>>) -> Option<Seq<Seq<char>>> {
    match projected {
        Some(ids) => Some(texts(ids@)),
        None => None,
    }
}

/// Whether the variable `id` is projected: where no variables are named,
/// every variable is.
pub open spec fn is_projected(id: Seq<char>, projected: Option<Seq<Seq<char>>>) -> bool {
    match projected {
        None => true,
        Some(ids) => ids.contains(id),
    }
}

/// An entity after marking: a variable is selected where it is projected;
/// anything else stays as it is. Whether the query is distinct leaves no
/// mark: an entity's own `distinct` is never set from the query's.
pub open spec fn annotated_entity(e: EntityView, projected: Option<Seq<Seq<char>>>) -> EntityView {
    if is_variable(e.id) {
        EntityView {
            id: e.id,
            label: e.label,
            prefix: e.prefix,
            selected_for_projection: is_projected(e.id, projected),
            distinct: e.distinct,
        }
    } else {
        e
    }
}

/// A property tree after marking: every node that is a variable is
/// selected where it is projected; the rest of the tree stays as it is.
pub open spec fn annotated_property(
    p: PropertyView,
    projected: Option<Seq<Seq<char>>>,
) -> PropertyView
    decreases p, 1nat,
{
    PropertyView {
        id: p.id,
        label: p.label,
        prefix: p.prefix,
        selected_for_projection: if is_variable(p.id) {
            is_projected(p.id, projected)
        } else {
            p.selected_for_projection
        },
        properties: annotated_children(p, projected),
        path_type: p.path_type,
        modifier: p.modifier,
    }
}

/// The children of a property tree after marking.
pub open spec fn annotated_children(
    p: PropertyView,
    projected: Option<Seq<Seq<char>>>,
) -> Seq<PropertyView>
    decreases p, 0nat,
{
    Seq::new(
        p.properties.len(),
        |i: int|
            if 0 <= i < p.properties.len() {
                annotated_property(p.properties[i], projected)
            } else {
                arbitrary()
            },
    )
}

/// A connection after marking: both ends and every property tree.
pub open spec fn annotated_connection(
    c: ConnectionView,
    projected: Option<Seq<Seq<char>>>,
) -> ConnectionView {
    ConnectionView {
        source: annotated_entity(c.source, projected),
        target: annotated_entity(c.target, projected),
        properties: Seq::new(
            c.properties.len(),
            |i: int| annotated_property(c.properties[i], projected),
        ),
    }
}

/// The connections after marking, in their order.
pub open spec fn annotated(
    connections: Seq<ConnectionView>,
    projected: Option<Seq<Seq<char>>>,
) -> Seq<ConnectionView> {
    Seq::new(connections.len(), |i: int| annotated_connection(connections[i], projected))
}

/// No node of the tree is a variable.
pub open spec fn has_no_variable(p: PropertyView) -> bool
    decreases p,
{
    !is_variable(p.id) && forall|i: int|
        0 <= i < p.properties.len() ==> has_no_variable(#[trigger] p.properties[i])
}

/// A tree without a variable is the same after marking: a projection
/// never unselects a part of it.
pub proof fn lemma_annotation_keeps(p: PropertyView, projected: Option<Seq<Seq<char>>>)
    requires
        has_no_variable(p),
    ensures
        annotated_property(p, projected) == p,
    decreases p,
{
    assert forall|i: int| 0 <= i < p.properties.len() implies annotated_children(p, projected)[i]
        == p.properties[i] by {
        assert(has_no_variable(p.properties[i]));
        lemma_annotation_keeps(p.properties[i], projected);
    }
    assert(annotated_children(p, projected) =~= p.properties);
}

/// The first characters of the ids that a path's composites and negated
/// sets get.
proof fn lemma_composite_ids()
    ensures
        "sequence"@.len() > 0 && "sequence"@[0] == 's',
        "alternation"@.len() > 0 && "alternation"@[0] == 'a',
        "!("@.len() > 0 && "!("@[0] == '!',
{
    reveal_strlit("sequence");
    reveal_strlit("alternation");
    reveal_strlit("!(");
}

/// No node of the property tree of a well-formed path is a variable: its
/// leaves are IRIs in angle brackets or negated sets, and its composites
/// bear the names of their kinds.
pub proof fn lemma_path_tree_has_no_variable(path: PathExpr)
    requires
        well_formed_path(path),
    ensures
        has_no_variable(decomposed(path@)),
    decreases path,
{
    lemma_composite_ids();
    match path {
        PathExpr::NamedNode(n) => {},
        PathExpr::Reverse(a) => {
            lemma_path_tree_has_no_variable(*a);
        },
        PathExpr::Sequence(a, b) => {
            lemma_path_tree_has_no_variable(*a);
            lemma_path_tree_has_no_variable(*b);
        },
        PathExpr::Alternative(a, b) => {
            lemma_path_tree_has_no_variable(*a);
            lemma_path_tree_has_no_variable(*b);
        },
        PathExpr::ZeroOrMore(a) => {
            lemma_path_tree_has_no_variable(*a);
        },
        PathExpr::OneOrMore(a) => {
            lemma_path_tree_has_no_variable(*a);
        },
        PathExpr::ZeroOrOne(a) => {
            lemma_path_tree_has_no_variable(*a);
        },
        PathExpr::NegatedPropertySet(nodes) => {
            let id = negated_set_text(texts(nodes@));
            assert(id[0] == "!("@[0]);
        },
    }
}

/// The property tree of a well-formed path comes through the marking as
/// it is, whatever is projected.
pub proof fn lemma_path_tree_kept(path: PathExpr, projected: Option<Seq<Seq<char>>>)
    requires
        well_formed_path(path),
    ensures
        annotated_property(decomposed(path@), projected) == decomposed(path@),
{
    lemma_path_tree_has_no_variable(path);
    lemma_annotation_keeps(decomposed(path@), projected);
}

/// The ids of the variables with the given names.
fn variable_names(names: &Vec<String>) -> (r: Vec<String>)
    ensures
        texts(r@) == variable_ids(names@),
{
    let mut out: Vec<String> = Vec::new();
    let mut i: usize = 0;
    while i < names.len()
        invariant
            i <= names.len(),
            texts(out@) == variable_ids(names@).take(i as int),
        decreases names.len() - i,
    {
        let mut id = String::from_str("?");
        id.append(names[i].as_str());
        proof {
            lemma_texts_push(out@, id);
            assert(variable_ids(names@).take(i + 1) =~= variable_ids(names@).take(i as int).push(
                id@,
            ));
        }
        out.push(id);
        i = i + 1;
    }
    assert(variable_ids(names@).take(i as int) =~= variable_ids(names@));
    out
}

/// The outer shape of a select pattern.
pub fn select_shape(p: Pattern) -> (r: Selection)
    ensures
        r.body == outer_body(p),
        r.distinct == outer_distinct(p),
        projected_ids(r.projected) == outer_projection(p),
{
    match p {
        Pattern::Distinct(inner) => match *inner {
            Pattern::Project(body, names) => Selection {
                body: *body,
                projected: Some(variable_names(&names)),
                distinct: true,
            },
            other => Selection { body: other, projected: None, distinct: true },
        },
        Pattern::Project(body, names) => Selection {
            body: *body,
            projected: Some(variable_names(&names)),
            distinct: false,
        },
        other => Selection { body: other, projected: None, distinct: false },
    }
}

/// Whether the variable `id` is projected.
fn selected(id: &str, projected: &Option<Vec<String>>) -> (r: bool)
    ensures
        r == is_projected(id@, projected_ids(*projected)),
{
    match projected {
        None => true,
        Some(ids) => {
            let mut i: usize = 0;
            while i < ids.len()
                invariant
                    i <= ids.len(),
                    *projected == Some(*ids),
                    forall|j: int| 0 <= j < i ==> texts(ids@)[j] != id@,
                decreases ids.len() - i,
            {
                if same_text(ids[i].as_str(), id) {
                    assert(texts(ids@)[i as int] == id@);
                    assert(texts(ids@).contains(id@));
                    return true;
                }
                i = i + 1;
            }
            false
        },
    }
}

/// An entity after marking.
fn annotate_entity(e: &Entity, projected: &Option<Vec<String>>) -> (r: Entity)
    ensures
        r@ == annotated_entity(e@, projected_ids(*projected)),
{
    let is_selected = if starts_with_char(e.id.as_str(), '?') {
        selected(e.id.as_str(), projected)
    } else {
        e.selected_for_projection
    };
    Entity {
        id: e.id.clone(),
        label: e.label.clone(),
        prefix: e.prefix.duplicate(),
        selected_for_projection: is_selected,
        distinct: e.distinct,
    }
}

/// A property tree after marking.
fn annotate_property(p: &Property, projected: &Option<Vec<String>>) -> (r: Property)
    ensures
        r@ == annotated_property(p@, projected_ids(*projected)),
    decreases p,
{
    let is_selected = if starts_with_char(p.id.as_str(), '?') {
        selected(p.id.as_str(), projected)
    } else {
        p.selected_for_projection
    };
    let ghost want = annotated_children(p@, projected_ids(*projected));
    let mut children: Vec<Property> = Vec::new();
    let mut i: usize = 0;
    while i < p.properties.len()
        invariant
            i <= p.properties.len(),
            want == annotated_children(p@, projected_ids(*projected)),
            property_views(children@) == want.take(i as int),
        decreases p.properties.len() - i,
    {
        let child = annotate_property(&p.properties[i], projected);
        proof {
            lemma_property_children(*p);
            lemma_property_views_push(children@, child);
            assert(want.take(i + 1) =~= want.take(i as int).push(child@));
        }
        children.push(child);
        i = i + 1;
    }
    let r = Property {
        id: p.id.clone(),
        label: p.label.clone(),
        prefix: p.prefix.duplicate(),
        selected_for_projection: is_selected,
        properties: children,
        path_type: p.path_type,
        modifier: p.modifier,
    };
    proof {
        lemma_property_children(*p);
        lemma_property_children(r);
        assert(want.take(i as int) =~= want);
    }
    r
}

/// A connection after marking.
fn annotate_connection(c: &Connection, projected: &Option<Vec<String>>) -> (r: Connection)
    ensures
        r@ == annotated_connection(c@, projected_ids(*projected)),
{
    let ghost want = annotated_connection(c@, projected_ids(*projected)).properties;
    let mut properties: Vec<Property> = Vec::new();
    let mut i: usize = 0;
    while i < c.properties.len()
        invariant
            i <= c.properties.len(),
            want == annotated_connection(c@, projected_ids(*projected)).properties,
            property_views(properties@) == want.take(i as int),
        decreases c.properties.len() - i,
    {
        let property = annotate_property(&c.properties[i], projected);
        proof {
            lemma_property_views_push(properties@, property);
            assert(want.take(i + 1) =~= want.take(i as int).push(property@));
        }
        properties.push(property);
        i = i + 1;
    }
    assert(want.take(i as int) =~= want);
    Connection {
        source: annotate_entity(&c.source, projected),
        target: annotate_entity(&c.target, projected),
        properties,
    }
}

/// Marks, in every connection, the variables that are projected: the two
/// ends and every node of every property tree. `projected` holds the ids
/// of the projected variables; `None` says that every variable is.
pub fn annotate(connections: &Vec<Connection>, projected: &Option<Vec<String>>) -> (r: Vec<
    Connection,
>)
    ensures
        connection_views(r@) == annotated(connection_views(connections@), projected_ids(*projected)),
{
    let ghost want = annotated(connection_views(connections@), projected_ids(*projected));
    let mut out: Vec<Connection> = Vec::new();
    let mut i: usize = 0;
    while i < connections.len()
        invariant
            i <= connections.len(),
            want == annotated(connection_views(connections@), projected_ids(*projected)),
            connection_views(out@) == want.take(i as int),
        decreases connections.len() - i,
    {
        let connection = annotate_connection(&connections[i], projected);
        proof {
            lemma_connection_views_push(out@, connection);
            assert(want.take(i + 1) =~= want.take(i as int).push(connection@));
        }
        out.push(connection);
        i = i + 1;
    }
    assert(want.take(i as int) =~= want);
    out
}

} // verus!
