//! Property paths: the tree of a parsed path expression, the property tree
//! that stands for it in a query graph, and the text of a property tree.

use crate::model::{lemma_property_children, property_views};
use crate::model::{Modifier, PathType, Prefix, PrefixView, Property, PropertyView, no_prefix};
use crate::text::{begins_with, contains_char, join, join_strings, starts_with_char, texts};
use crate::text::{lemma_texts_push};
use vstd::prelude::*;

verus! {

/// A property path expression as the query language has it. A named node
/// holds the IRI in angle brackets, as it is written in a query.
#[derive(Debug, PartialEq, Eq)]
pub enum PathExpr {
    NamedNode(String),
    Reverse(Box<PathExpr>),
    Sequence(Box<PathExpr>, Box<PathExpr>),
    Alternative(Box<PathExpr>, Box<PathExpr>),
    ZeroOrMore(Box<PathExpr>),
    OneOrMore(Box<PathExpr>),
    ZeroOrOne(Box<PathExpr>),
    NegatedPropertySet(Vec<String>),
}

/// The value of a [`PathExpr`].
pub enum PathView {
    NamedNode(Seq<char>),
    Reverse(Box<PathView>),
    Sequence(Box<PathView>, Box<PathView>),
    Alternative(Box<PathView>, Box<PathView>),
    ZeroOrMore(Box<PathView>),
    OneOrMore(Box<PathView>),
    ZeroOrOne(Box<PathView>),
    NegatedPropertySet(Seq<Seq<char>>),
}

/// The expression that a [`PathExpr`] holds.
pub open spec fn path_value(p: PathExpr) -> PathView
    decreases p,
{
    match p {
        PathExpr::NamedNode(n) => PathView::NamedNode(n@),
        PathExpr::Reverse(a) => PathView::Reverse(Box::new(path_value(*a))),
        PathExpr::Sequence(a, b) => PathView::Sequence(
            Box::new(path_value(*a)),
            Box::new(path_value(*b)),
        ),
        PathExpr::Alternative(a, b) => PathView::Alternative(
            Box::new(path_value(*a)),
            Box::new(path_value(*b)),
        ),
        PathExpr::ZeroOrMore(a) => PathView::ZeroOrMore(Box::new(path_value(*a))),
        PathExpr::OneOrMore(a) => PathView::OneOrMore(Box::new(path_value(*a))),
        PathExpr::ZeroOrOne(a) => PathView::ZeroOrOne(Box::new(path_value(*a))),
        PathExpr::NegatedPropertySet(nodes) => PathView::NegatedPropertySet(texts(nodes@)),
    }
}

/// A text in angle brackets, as an IRI is written.
pub open spec fn in_angle_brackets(s: Seq<char>) -> bool {
    s.len() >= 2 && s[0] == '<' && s[s.len() - 1] == '>'
}

/// Every named node of the path, and of its negated sets, is written in
/// angle brackets.
pub open spec fn well_formed_path(p: PathExpr) -> bool
    decreases p,
{
    match p {
        PathExpr::NamedNode(n) => in_angle_brackets(n@),
        PathExpr::Reverse(a) => well_formed_path(*a),
        PathExpr::Sequence(a, b) => well_formed_path(*a) && well_formed_path(*b),
        PathExpr::Alternative(a, b) => well_formed_path(*a) && well_formed_path(*b),
        PathExpr::ZeroOrMore(a) => well_formed_path(*a),
        PathExpr::OneOrMore(a) => well_formed_path(*a),
        PathExpr::ZeroOrOne(a) => well_formed_path(*a),
        PathExpr::NegatedPropertySet(nodes) => forall|i: int|
            0 <= i < nodes@.len() ==> in_angle_brackets(#[trigger] nodes@[i]@),
    }
}

impl View for PathExpr {
    type V = PathView;

    open spec fn view(&self) -> PathView {
        path_value(*self)
    }
}

/// The text of an id in a query: the id itself where it has no namespace,
/// holds a `:` already or begins with `<`; else the prefix's short name, a
/// `:` and the id.
pub open spec fn rendered_iri(id: Seq<char>, prefix: PrefixView) -> Seq<char> {
    if prefix.iri.len() == 0 || id.contains(':') || begins_with(id, '<') {
        id
    } else {
        prefix.abbreviation + ":"@ + id
    }
}

/// The text that joins the children of a composite property: `|` for an
/// alternation, `/` for a sequence and where nothing is said.
pub open spec fn separator(path_type: Option<PathType>) -> Seq<char> {
    match path_type {
        Some(PathType::Alternation) => "|"@,
        _ => "/"@,
    }
}

/// A path's text under a modifier. The repetitions stand behind their
/// operand; the reverse operator stands before it, where the path grammar
/// wants it.
pub open spec fn with_modifier(operand: Seq<char>, modifier: Option<Modifier>) -> Seq<char> {
    match modifier {
        None => operand,
        Some(Modifier::Reverse) => "^"@ + operand,
        Some(Modifier::ZeroOrMore) => operand + "*"@,
        Some(Modifier::OneOrMore) => operand + "+"@,
        Some(Modifier::ZeroOrOne) => operand + "?"@,
    }
}

/// The path text of a property tree. A leaf is its rendered id; a
/// composite is its children's texts, joined by its separator, in
/// parentheses. The modifier applies to either.
pub open spec fn path_text(p: PropertyView) -> Seq<char>
    decreases p, 1nat,
{
    if p.properties.len() == 0 {
        with_modifier(rendered_iri(p.id, p.prefix), p.modifier)
    } else {
        with_modifier("("@ + join(child_paths(p), separator(p.path_type)) + ")"@, p.modifier)
    }
}

/// The path texts of a property's children, first to last.
pub open spec fn child_paths(p: PropertyView) -> Seq<Seq<char>>
    decreases p, 0nat,
{
    Seq::new(
        p.properties.len(),
        |i: int|
            if 0 <= i < p.properties.len() {
                path_text(p.properties[i])
            } else {
                Seq::empty()
            },
    )
}

/// A property without children, prefix or modifier, with `text` as id and
/// label, selected for projection.
pub open spec fn leaf(text: Seq<char>) -> PropertyView {
    PropertyView {
        id: text,
        label: text,
        prefix: no_prefix(),
        selected_for_projection: true,
        properties: Seq::empty(),
        path_type: None,
        modifier: None,
    }
}

/// A property with the two children `a` and `b`, joined as `path_type`
/// says, with `name` as id and label, selected for projection.
pub open spec fn composite(
    name: Seq<char>,
    path_type: PathType,
    a: PropertyView,
    b: PropertyView,
) -> PropertyView {
    PropertyView {
        id: name,
        label: name,
        prefix: no_prefix(),
        selected_for_projection: true,
        properties: seq![a, b],
        path_type: Some(path_type),
        modifier: None,
    }
}

/// `p` with its modifier replaced by `modifier`.
pub open spec fn modified(p: PropertyView, modifier: Modifier) -> PropertyView {
    PropertyView {
        id: p.id,
        label: p.label,
        prefix: p.prefix,
        selected_for_projection: p.selected_for_projection,
        properties: p.properties,
        path_type: p.path_type,
        modifier: Some(modifier),
    }
}

/// The text of a negated property set: `!(`, the nodes joined by `|`, `)`.
pub open spec fn negated_set_text(nodes: Seq<Seq<char>>) -> Seq<char> {
    "!("@ + join(nodes, "|"@) + ")"@
}

/// The property tree of a path expression. A named node and a negated
/// property set become leaves, a sequence and an alternative become
/// composites of two children, and a unary operator sets the modifier of
/// its operand's tree.
pub open spec fn decomposed(path: PathView) -> PropertyView
    decreases path,
{
    match path {
        PathView::NamedNode(n) => leaf(n),
        PathView::Reverse(a) => modified(decomposed(*a), Modifier::Reverse),
        PathView::Sequence(a, b) => composite(
            "sequence"@,
            PathType::Sequence,
            decomposed(*a),
            decomposed(*b),
        ),
        PathView::Alternative(a, b) => composite(
            "alternation"@,
            PathType::Alternation,
            decomposed(*a),
            decomposed(*b),
        ),
        PathView::ZeroOrMore(a) => modified(decomposed(*a), Modifier::ZeroOrMore),
        PathView::OneOrMore(a) => modified(decomposed(*a), Modifier::OneOrMore),
        PathView::ZeroOrOne(a) => modified(decomposed(*a), Modifier::ZeroOrOne),
        PathView::NegatedPropertySet(nodes) => leaf(negated_set_text(nodes)),
    }
}

/// The text of `id` in a query, under `prefix`.
pub fn get_iri(id: &str, prefix: &Prefix) -> (r: String)
    ensures
        r@ == rendered_iri(id@, prefix@),
{
    if prefix.iri.as_str().is_empty() {
        String::from_str(id)
    } else if contains_char(id, ':') || starts_with_char(id, '<') {
        String::from_str(id)
    } else {
        let mut out = prefix.abbreviation.clone();
        out.append(":");
        out.append(id);
        out
    }
}

/// `operand` under `modifier`.
fn apply_modifier(operand: String, modifier: Option<Modifier>) -> (r: String)
    ensures
        r@ == with_modifier(operand@, modifier),
{
    match modifier {
        None => operand,
        Some(Modifier::Reverse) => {
            let mut out = String::from_str("^");
            out.append(operand.as_str());
            out
        },
        Some(Modifier::ZeroOrMore) => operand.concat("*"),
        Some(Modifier::OneOrMore) => operand.concat("+"),
        Some(Modifier::ZeroOrOne) => operand.concat("?"),
    }
}

/// The path text of a property tree.
pub fn generate_property_path(property: &Property) -> (r: String)
    ensures
        r@ == path_text(property@),
    decreases property,
{
    if property.properties.len() == 0 {
        let iri = get_iri(property.id.as_str(), &property.prefix);
        apply_modifier(iri, property.modifier)
    } else {
        let mut parts: Vec<String> = Vec::new();
        let mut i: usize = 0;
        while i < property.properties.len()
            invariant
                i <= property.properties.len(),
                texts(parts@) == child_paths(property@).take(i as int),
            decreases property.properties.len() - i,
        {
            let part = generate_property_path(&property.properties[i]);
            proof {
                lemma_property_children(*property);
                lemma_texts_push(parts@, part);
                assert(child_paths(property@).take(i + 1) =~= child_paths(property@).take(
                    i as int,
                ).push(part@));
            }
            parts.push(part);
            i = i + 1;
        }
        let joined = match property.path_type {
            Some(PathType::Alternation) => join_strings(&parts, "|"),
            _ => join_strings(&parts, "/"),
        };
        let mut out = String::from_str("(");
        out.append(joined.as_str());
        out.append(")");
        proof {
            lemma_property_children(*property);
            assert(child_paths(property@).take(i as int) =~= child_paths(property@));
        }
        apply_modifier(out, property.modifier)
    }
}

/// A leaf property with `text` as id and label.
fn leaf_property(text: String) -> (r: Property)
    ensures
        r@ == leaf(text@),
{
    let r = Property {
        id: text.clone(),
        label: text,
        prefix: Prefix::empty(),
        selected_for_projection: true,
        properties: Vec::new(),
        path_type: None,
        modifier: None,
    };
    assert(r@.properties =~= Seq::empty());
    r
}

/// A composite property over the two children `a` and `b`.
fn composite_property(name: &str, path_type: PathType, a: Property, b: Property) -> (r: Property)
    ensures
        r@ == composite(name@, path_type, a@, b@),
{
    let mut children: Vec<Property> = Vec::new();
    children.push(a);
    children.push(b);
    let r = Property {
        id: String::from_str(name),
        label: String::from_str(name),
        prefix: Prefix::empty(),
        selected_for_projection: true,
        properties: children,
        path_type: Some(path_type),
        modifier: None,
    };
    proof {
        lemma_property_children(r);
        assert(property_views(r.properties@) =~= seq![a@, b@]);
    }
    r
}

/// `p` with its modifier replaced by `modifier`.
fn set_modifier(p: Property, modifier: Modifier) -> (r: Property)
    ensures
        r@ == modified(p@, modifier),
{
    let mut p = p;
    proof {
        lemma_property_children(p);
    }
    p.modifier = Some(modifier);
    proof {
        lemma_property_children(p);
    }
    p
}

/// The property tree of a path expression.
pub fn property_path_to_property(path: &PathExpr) -> (r: Property)
    ensures
        r@ == decomposed(path@),
    decreases path,
{
    match path {
        PathExpr::NamedNode(n) => leaf_property(n.clone()),
        PathExpr::Reverse(inner) => {
            let p = property_path_to_property(inner);
            set_modifier(p, Modifier::Reverse)
        },
        PathExpr::Sequence(left, right) => {
            let a = property_path_to_property(left);
            let b = property_path_to_property(right);
            composite_property("sequence", PathType::Sequence, a, b)
        },
        PathExpr::Alternative(left, right) => {
            let a = property_path_to_property(left);
            let b = property_path_to_property(right);
            composite_property("alternation", PathType::Alternation, a, b)
        },
        PathExpr::ZeroOrMore(inner) => {
            let p = property_path_to_property(inner);
            set_modifier(p, Modifier::ZeroOrMore)
        },
        PathExpr::OneOrMore(inner) => {
            let p = property_path_to_property(inner);
            set_modifier(p, Modifier::OneOrMore)
        },
        PathExpr::ZeroOrOne(inner) => {
            let p = property_path_to_property(inner);
            set_modifier(p, Modifier::ZeroOrOne)
        },
        PathExpr::NegatedPropertySet(nodes) => {
            let mut text = String::from_str("!(");
            let joined = join_strings(nodes, "|");
            text.append(joined.as_str());
            text.append(")");
            leaf_property(text)
        },
    }
}

} // verus!
