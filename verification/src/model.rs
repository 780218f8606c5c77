//! The visual query graph: prefixes, entities, property trees and
//! connections, each with the mathematical value that contracts speak of.

use vstd::prelude::*;

verus! {

/// A namespace and the short name that stands for it in rendered text.
/// An empty `iri` means that there is no namespace: ids are rendered as
/// they are.
#[derive(Clone, Debug, PartialEq, Eq, Hash)]
pub struct Prefix {
    pub iri: String,
    pub abbreviation: String,
}

/// The value of a [`Prefix`].
pub struct PrefixView {
    pub iri: Seq<char>,
    pub abbreviation: Seq<char>,
}

impl View for Prefix {
    type V = PrefixView;

    open spec fn view(&self) -> PrefixView {
        PrefixView { iri: self.iri@, abbreviation: self.abbreviation@ }
    }
}

/// The prefix of an id that belongs to no namespace.
pub open spec fn no_prefix() -> PrefixView {
    PrefixView { iri: Seq::empty(), abbreviation: Seq::empty() }
}

impl Prefix {
    pub fn new(iri: String, abbreviation: String) -> (r: Prefix)
        ensures
            r@.iri == iri@,
            r@.abbreviation == abbreviation@,
    {
        Prefix { iri, abbreviation }
    }

    /// The prefix of an id that belongs to no namespace.
    pub fn empty() -> (r: Prefix)
        ensures
            r@ == no_prefix(),
    {
        Prefix { iri: String::new(), abbreviation: String::new() }
    }

    /// A copy with the same value.
    pub fn duplicate(&self) -> (r: Prefix)
        ensures
            r@ == self@,
    {
        Prefix { iri: self.iri.clone(), abbreviation: self.abbreviation.clone() }
    }

    /// Whether both hold the same namespace under the same short name.
    pub fn same_as(&self, other: &Prefix) -> (r: bool)
        ensures
            r == (self@ == other@),
    {
        self.iri == other.iri && self.abbreviation == other.abbreviation
    }
}

/// The subject or the object of a triple pattern: an IRI, a literal, or,
/// where `id` begins with `?`, a variable.
#[derive(Clone, Debug, PartialEq, Eq)]
pub struct Entity {
    pub id: String,
    pub label: String,
    pub prefix: Prefix,
    pub selected_for_projection: bool,
    pub distinct: bool,
}

/// The value of an [`Entity`].
pub struct EntityView {
    pub id: Seq<char>,
    pub label: Seq<char>,
    pub prefix: PrefixView,
    pub selected_for_projection: bool,
    pub distinct: bool,
}

impl View for Entity {
    type V = EntityView;

    open spec fn view(&self) -> EntityView {
        EntityView {
            id: self.id@,
            label: self.label@,
            prefix: self.prefix@,
            selected_for_projection: self.selected_for_projection,
            distinct: self.distinct,
        }
    }
}

impl Entity {
    /// A copy with the same value.
    pub fn duplicate(&self) -> (r: Entity)
        ensures
            r@ == self@,
    {
        Entity {
            id: self.id.clone(),
            label: self.label.clone(),
            prefix: self.prefix.duplicate(),
            selected_for_projection: self.selected_for_projection,
            distinct: self.distinct,
        }
    }
}

/// How the children of a composite property are joined.
#[derive(Clone, Copy, Debug, PartialEq, Eq, Structural)]
pub enum PathType {
    Sequence,
    Alternation,
}

/// The operator that applies to a whole property node.
#[derive(Clone, Copy, Debug, PartialEq, Eq, Structural)]
pub enum Modifier {
    /// `^`: the path walked backwards.
    Reverse,
    /// `*`
    ZeroOrMore,
    /// `+`
    OneOrMore,
    /// `?`
    ZeroOrOne,
}

/// A predicate slot. Without children it is one predicate, an IRI or a
/// variable; with children it is a path over them.
#[derive(Debug, PartialEq, Eq)]
pub struct Property {
    pub id: String,
    pub label: String,
    pub prefix: Prefix,
    pub selected_for_projection: bool,
    pub properties: Vec<Property>,
    pub path_type: Option<PathType>,
    pub modifier: Option<Modifier>,
}

/// The value of a [`Property`]: a finite tree.
pub struct PropertyView {
    pub id: Seq<char>,
    pub label: Seq<char>,
    pub prefix: PrefixView,
    pub selected_for_projection: bool,
    pub properties: Seq<PropertyView>,
    pub path_type: Option<PathType>,
    pub modifier: Option<Modifier>,
}

/// The tree that a property holds, children first to last.
pub open spec fn property_value(p: Property) -> PropertyView
    decreases p,
{
    PropertyView {
        id: p.id@,
        label: p.label@,
        prefix: p.prefix@,
        selected_for_projection: p.selected_for_projection,
        properties: Seq::new(
            p.properties.len() as nat,
            |i: int|
                if 0 <= i < p.properties.len() {
                    property_value(p.properties[i])
                } else {
                    arbitrary()
                },
        ),
        path_type: p.path_type,
        modifier: p.modifier,
    }
}

impl View for Property {
    type V = PropertyView;

    open spec fn view(&self) -> PropertyView {
        property_value(*self)
    }
}

/// The values of a sequence of property trees.
pub open spec fn property_views(v: Seq<Property>) -> Seq<PropertyView> {
    Seq::new(v.len(), |i: int| v[i]@)
}

/// Copies of the properties of `v`, in their order.
pub fn duplicate_properties(v: &Vec<Property>) -> (r: Vec<Property>)
    ensures
        property_views(r@) == property_views(v@),
    decreases v,
{
    let mut out: Vec<Property> = Vec::new();
    let mut i: usize = 0;
    assert(property_views(out@) =~= property_views(v@).take(0));
    while i < v.len()
        invariant
            i <= v.len(),
            property_views(out@) == property_views(v@).take(i as int),
        decreases v.len() - i,
    {
        let copy = v[i].duplicate();
        proof {
            lemma_property_views_push(out@, copy);
            assert(property_views(v@).take(i + 1) =~= property_views(v@).take(i as int).push(
                copy@,
            ));
        }
        out.push(copy);
        i = i + 1;
    }
    assert(property_views(v@).take(i as int) =~= property_views(v@));
    out
}

impl Property {
    /// A copy of the whole tree, with the same value.
    pub fn duplicate(&self) -> (r: Property)
        ensures
            r@ == self@,
        decreases self,
    {
        let r = Property {
            id: self.id.clone(),
            label: self.label.clone(),
            prefix: self.prefix.duplicate(),
            selected_for_projection: self.selected_for_projection,
            properties: duplicate_properties(&self.properties),
            path_type: self.path_type,
            modifier: self.modifier,
        };
        proof {
            lemma_property_children(*self);
            lemma_property_children(r);
        }
        r
    }
}

/// Two entities joined by one or more predicates, each of which stands
/// for a triple pattern of its own between the same two ends.
#[derive(Debug, PartialEq, Eq)]
pub struct Connection {
    pub source: Entity,
    pub target: Entity,
    pub properties: Vec<Property>,
}

/// The value of a [`Connection`].
pub struct ConnectionView {
    pub source: EntityView,
    pub target: EntityView,
    pub properties: Seq<PropertyView>,
}

impl View for Connection {
    type V = ConnectionView;

    open spec fn view(&self) -> ConnectionView {
        ConnectionView {
            source: self.source@,
            target: self.target@,
            properties: property_views(self.properties@),
        }
    }
}

impl Connection {
    /// A copy with the same value.
    pub fn duplicate(&self) -> (r: Connection)
        ensures
            r@ == self@,
    {
        Connection {
            source: self.source.duplicate(),
            target: self.target.duplicate(),
            properties: duplicate_properties(&self.properties),
        }
    }
}

/// The values of a sequence of connections.
pub open spec fn connection_views(v: Seq<Connection>) -> Seq<ConnectionView> {
    Seq::new(v.len(), |i: int| v[i]@)
}

/// The children of a property's value are the values of its children.
pub proof fn lemma_property_children(p: Property)
    ensures
        p@.properties == property_views(p.properties@),
{
    assert(p@.properties.len() == p.properties@.len());
    assert forall|i: int| 0 <= i < p.properties@.len() implies p@.properties[i]
        == p.properties@[i]@ by {
        assert(p.properties[i] == p.properties@[i]);
    }
    assert(p@.properties =~= property_views(p.properties@));
}

/// The values of a sequence of properties with one more at its end.
pub proof fn lemma_property_views_push(v: Seq<Property>, p: Property)
    ensures
        property_views(v.push(p)) == property_views(v).push(p@),
{
    assert(property_views(v.push(p)) =~= property_views(v).push(p@));
}

/// The values of a sequence of connections with one more at its end.
pub proof fn lemma_connection_views_push(v: Seq<Connection>, c: Connection)
    ensures
        connection_views(v.push(c)) == connection_views(v).push(c@),
{
    assert(connection_views(v.push(c)) =~= connection_views(v).push(c@));
}

/// The values of two sequences of connections, one behind the other.
pub proof fn lemma_connection_views_add(a: Seq<Connection>, b: Seq<Connection>)
    ensures
        connection_views(a + b) == connection_views(a) + connection_views(b),
{
    assert(connection_views(a + b) =~= connection_views(a) + connection_views(b));
}

} // verus!
