//! Graph patterns of a parsed query and the connections that they hold.

use crate::model::{Connection, ConnectionView, Entity, EntityView, Prefix, Property};
use crate::model::{connection_views, lemma_property_children, no_prefix, property_views};
use crate::model::{lemma_connection_views_add, lemma_connection_views_push};
use crate::path::{PathExpr, PathView, decomposed, in_angle_brackets, leaf};
use crate::path::{property_path_to_property, well_formed_path};
use crate::text::begins_with;
use vstd::prelude::*;

verus! {

/// The subject or object of a triple pattern. A named node, a blank node
/// and a literal hold the text of their canonical form: the IRI in angle
/// brackets, `_:` and the node's name, the value in quotes with its
/// language or type. A variable holds its name without the leading `?`.
#[derive(Debug, PartialEq, Eq)]
pub enum Term {
    NamedNode(String),
    BlankNode(String),
    Literal(String),
    Variable(String),
}

/// The predicate of a triple pattern: a named node, in angle brackets, or
/// a variable, by its name without the leading `?`.
#[derive(Debug, PartialEq, Eq)]
pub enum Predicate {
    NamedNode(String),
    Variable(String),
}

/// One triple pattern.
#[derive(Debug, PartialEq, Eq)]
pub struct Triple {
    pub subject: Term,
    pub predicate: Predicate,
    pub object: Term,
}

/// The graph pattern of a query, by what the translation reads of it.
/// Every operator without a variant of its own is `Unsupported`.
#[derive(Debug, PartialEq, Eq)]
pub enum Pattern {
    /// A set of triple patterns.
    Bgp(Vec<Triple>),
    /// A subject and an object joined by a property path.
    Path { subject: Term, path: PathExpr, object: Term },
    /// Two patterns, both to be matched.
    Join(Box<Pattern>, Box<Pattern>),
    /// A call to a service, such as the one that supplies labels.
    Service,
    /// A pattern whose solutions are made distinct.
    Distinct(Box<Pattern>),
    /// A pattern whose solutions are cut down to the named variables,
    /// given without the leading `?`.
    Project(Box<Pattern>, Vec<String>),
    /// A filter, an optional part, a union, a difference, a group or any
    /// other operator: it holds no connection.
    Unsupported,
}

/// What came of parsing the text of a query.
#[derive(Debug, PartialEq, Eq)]
pub enum ParseOutcome {
    /// A select query, with its graph pattern.
    Select(Pattern),
    /// A query of another form: ask, construct or describe.
    OtherForm,
    /// The text is no query.
    SyntaxError,
}

/// The label of a blank node: `_:` and a name.
pub open spec fn is_blank_label(s: Seq<char>) -> bool {
    s.len() >= 2 && s[0] == '_' && s[1] == ':'
}

/// The term holds a text of its kind: a named node an IRI in angle
/// brackets, a blank node a label behind `_:`, a literal a text that
/// begins with a quotation mark.
pub open spec fn well_formed_term(t: Term) -> bool {
    match t {
        Term::NamedNode(s) => in_angle_brackets(s@),
        Term::BlankNode(s) => is_blank_label(s@),
        Term::Literal(s) => begins_with(s@, '"'),
        Term::Variable(_) => true,
    }
}

/// The predicate holds a text of its kind: a named node an IRI in angle
/// brackets.
pub open spec fn well_formed_predicate(p: Predicate) -> bool {
    match p {
        Predicate::NamedNode(s) => in_angle_brackets(s@),
        Predicate::Variable(_) => true,
    }
}

/// The three parts of the triple hold texts of their kinds.
pub open spec fn well_formed_triple(t: Triple) -> bool {
    well_formed_term(t.subject) && well_formed_predicate(t.predicate) && well_formed_term(
        t.object,
    )
}

/// Every term, predicate and path of the pattern holds texts of its kind.
pub open spec fn well_formed_pattern(p: Pattern) -> bool
    decreases p,
{
    match p {
        Pattern::Bgp(bgp) => forall|i: int|
            0 <= i < bgp@.len() ==> well_formed_triple(#[trigger] bgp@[i]),
        Pattern::Path { subject, path, object } => well_formed_term(subject) && well_formed_path(
            path,
        ) && well_formed_term(object),
        Pattern::Join(left, right) => well_formed_pattern(*left) && well_formed_pattern(*right),
        Pattern::Service => true,
        Pattern::Distinct(inner) => well_formed_pattern(*inner),
        Pattern::Project(inner, _) => well_formed_pattern(*inner),
        Pattern::Unsupported => true,
    }
}

/// The pattern of a select query is well formed; the other outcomes hold
/// nothing that could fail to be.
pub open spec fn well_formed_outcome(outcome: ParseOutcome) -> bool {
    match outcome {
        ParseOutcome::Select(p) => well_formed_pattern(p),
        ParseOutcome::OtherForm => true,
        ParseOutcome::SyntaxError => true,
    }
}

/// The id of a term in a query graph.
pub open spec fn term_text(t: Term) -> Seq<char> {
    match t {
        Term::NamedNode(s) => s@,
        Term::BlankNode(s) => s@,
        Term::Literal(s) => s@,
        Term::Variable(name) => "?"@ + name@,
    }
}

/// The id of a predicate in a query graph.
pub open spec fn predicate_text(p: Predicate) -> Seq<char> {
    match p {
        Predicate::NamedNode(s) => s@,
        Predicate::Variable(name) => "?"@ + name@,
    }
}

/// An entity as it comes out of a query: `text` as id and label, no
/// prefix, selected for projection, not distinct.
pub open spec fn plain_entity(text: Seq<char>) -> EntityView {
    EntityView {
        id: text,
        label: text,
        prefix: no_prefix(),
        selected_for_projection: true,
        distinct: false,
    }
}

/// The connection of one triple pattern: its two ends and one leaf
/// property for the predicate.
pub open spec fn triple_connection(
    subject: Seq<char>,
    predicate: Seq<char>,
    object: Seq<char>,
) -> ConnectionView {
    ConnectionView {
        source: plain_entity(subject),
        target: plain_entity(object),
        properties: seq![leaf(predicate)],
    }
}

/// The connection of a path pattern: its two ends and the property tree
/// of the path.
pub open spec fn path_connection(
    subject: Seq<char>,
    path: PathView,
    object: Seq<char>,
) -> ConnectionView {
    ConnectionView {
        source: plain_entity(subject),
        target: plain_entity(object),
        properties: seq![decomposed(path)],
    }
}

/// The connections of a set of triple patterns: one for each, in order.
pub open spec fn bgp_connections(bgp: Seq<Triple>) -> Seq<ConnectionView> {
    Seq::new(
        bgp.len(),
        |i: int|
            triple_connection(
                term_text(bgp[i].subject),
                predicate_text(bgp[i].predicate),
                term_text(bgp[i].object),
            ),
    )
}

/// The connections that a graph pattern holds, left to right. A service
/// call, a projection below the top and every unsupported operator hold
/// none.
pub open spec fn extracted(p: Pattern) -> Seq<ConnectionView>
    decreases p,
{
    match p {
        Pattern::Bgp(bgp) => bgp_connections(bgp@),
        Pattern::Path { subject, path, object } => seq![
            path_connection(term_text(subject), path@, term_text(object)),
        ],
        Pattern::Join(left, right) => extracted(*left) + extracted(*right),
        Pattern::Service => Seq::empty(),
        Pattern::Distinct(inner) => extracted(*inner),
        Pattern::Project(_, _) => Seq::empty(),
        Pattern::Unsupported => Seq::empty(),
    }
}

/// The id of a subject or object as a query gives it: that of a
/// variable, an IRI in angle brackets, the label of a blank node, or a
/// literal.
pub open spec fn is_term_id(id: Seq<char>) -> bool {
    begins_with(id, '?') || in_angle_brackets(id) || is_blank_label(id) || begins_with(id, '"')
}

/// The id of a well-formed term is that of a variable exactly where the
/// term is a variable: no IRI, blank node or literal is taken for one.
pub proof fn lemma_variable_terms(t: Term)
    requires
        well_formed_term(t),
    ensures
        is_term_id(term_text(t)),
        begins_with(term_text(t), '?') <==> t is Variable,
{
    reveal_strlit("?");
    match t {
        Term::Variable(name) => {
            assert(term_text(t)[0] == "?"@[0]);
        },
        _ => {},
    }
}

/// The id of a well-formed predicate is that of a variable exactly where
/// the predicate is a variable.
pub proof fn lemma_variable_predicates(p: Predicate)
    requires
        well_formed_predicate(p),
    ensures
        begins_with(predicate_text(p), '?') <==> p is Variable,
{
    reveal_strlit("?");
    match p {
        Predicate::Variable(name) => {
            assert(predicate_text(p)[0] == "?"@[0]);
        },
        _ => {},
    }
}

/// The id of a term in a query graph.
pub fn term_pattern_to_string(tp: &Term) -> (r: String)
    ensures
        r@ == term_text(*tp),
{
    match tp {
        Term::NamedNode(n) => n.clone(),
        Term::BlankNode(b) => b.clone(),
        Term::Literal(l) => l.clone(),
        Term::Variable(v) => {
            let mut out = String::from_str("?");
            out.append(v.as_str());
            out
        },
    }
}

/// The id of a predicate in a query graph.
pub fn named_node_pattern_to_string(nnp: &Predicate) -> (r: String)
    ensures
        r@ == predicate_text(*nnp),
{
    match nnp {
        Predicate::NamedNode(n) => n.clone(),
        Predicate::Variable(v) => {
            let mut out = String::from_str("?");
            out.append(v.as_str());
            out
        },
    }
}

/// An entity as it comes out of a query.
fn entity_constructor(name: String) -> (r: Entity)
    ensures
        r@ == plain_entity(name@),
{
    Entity {
        id: name.clone(),
        label: name,
        prefix: Prefix::empty(),
        selected_for_projection: true,
        distinct: false,
    }
}

/// The connection from `subject_name` to `object_name` over the single
/// property `property`.
fn connection_over(subject_name: String, property: Property, object_name: String) -> (r:
    Connection)
    ensures
        r@.source == plain_entity(subject_name@),
        r@.target == plain_entity(object_name@),
        r@.properties == seq![property@],
{
    let mut properties: Vec<Property> = Vec::new();
    properties.push(property);
    let r = Connection {
        source: entity_constructor(subject_name),
        target: entity_constructor(object_name),
        properties,
    };
    assert(property_views(r.properties@) =~= seq![property@]);
    r
}

/// The connection of one triple pattern, by the ids of its three parts.
pub fn connection_constructor(
    subject_name: String,
    predicate_name: String,
    object_name: String,
) -> (r: Connection)
    ensures
        r@ == triple_connection(subject_name@, predicate_name@, object_name@),
{
    let property = Property {
        id: predicate_name.clone(),
        label: predicate_name,
        prefix: Prefix::empty(),
        selected_for_projection: true,
        properties: Vec::new(),
        path_type: None,
        modifier: None,
    };
    proof {
        lemma_property_children(property);
        assert(property@.properties =~= Seq::empty());
    }
    connection_over(subject_name, property, object_name)
}

/// The connections of a set of triple patterns.
pub fn bgp_to_vqg(bgp: &Vec<Triple>) -> (r: Vec<Connection>)
    ensures
        connection_views(r@) == bgp_connections(bgp@),
{
    let mut out: Vec<Connection> = Vec::new();
    let mut i: usize = 0;
    while i < bgp.len()
        invariant
            i <= bgp.len(),
            connection_views(out@) == bgp_connections(bgp@).take(i as int),
        decreases bgp.len() - i,
    {
        let pattern = &bgp[i];
        let connection = connection_constructor(
            term_pattern_to_string(&pattern.subject),
            named_node_pattern_to_string(&pattern.predicate),
            term_pattern_to_string(&pattern.object),
        );
        proof {
            lemma_connection_views_push(out@, connection);
            assert(bgp_connections(bgp@).take(i + 1) =~= bgp_connections(bgp@).take(
                i as int,
            ).push(connection@));
        }
        out.push(connection);
        i = i + 1;
    }
    assert(bgp_connections(bgp@).take(i as int) =~= bgp_connections(bgp@));
    out
}

/// The connections that a graph pattern holds.
pub fn match_bgp_or_path_to_vqg(p: Pattern) -> (r: Vec<Connection>)
    ensures
        connection_views(r@) == extracted(p),
    decreases p,
{
    match p {
        Pattern::Bgp(bgp) => bgp_to_vqg(&bgp),
        Pattern::Service => {
            let out: Vec<Connection> = Vec::new();
            assert(connection_views(out@) =~= Seq::empty());
            out
        },
        Pattern::Join(l, r) => {
            let mut l_parsed = match_bgp_or_path_to_vqg(*l);
            let mut r_parsed = match_bgp_or_path_to_vqg(*r);
            proof {
                lemma_connection_views_add(l_parsed@, r_parsed@);
            }
            l_parsed.append(&mut r_parsed);
            l_parsed
        },
        Pattern::Distinct(inner) => match_bgp_or_path_to_vqg(*inner),
        Pattern::Path { subject, path, object } => {
            let property = property_path_to_property(&path);
            let connection = connection_over(
                term_pattern_to_string(&subject),
                property,
                term_pattern_to_string(&object),
            );
            let mut out: Vec<Connection> = Vec::new();
            out.push(connection);
            assert(connection_views(out@) =~= seq![connection@]);
            out
        },
        Pattern::Project(_, _) => {
            let out: Vec<Connection> = Vec::new();
            assert(connection_views(out@) =~= Seq::empty());
            out
        },
        Pattern::Unsupported => {
            let out: Vec<Connection> = Vec::new();
            assert(connection_views(out@) =~= Seq::empty());
            out
        },
    }
}

} // verus!
