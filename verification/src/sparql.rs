//! The SPARQL parser of the `spargebra` crate, and the way from its syntax
//! tree to the patterns of this library.

use crate::path::{PathExpr, in_angle_brackets, well_formed_path};
use crate::pattern::{ParseOutcome, Pattern, Predicate, Term, Triple, is_blank_label};
use crate::pattern::{well_formed_outcome, well_formed_pattern, well_formed_predicate};
use crate::pattern::{well_formed_term, well_formed_triple};
use crate::text::begins_with;
use spargebra::algebra::{GraphPattern, PropertyPathExpression};
use spargebra::term::{BlankNode, Literal, NamedNode, NamedNodePattern, TermPattern};
use spargebra::term::{TriplePattern, Variable};
use spargebra::{Query, SparqlParser, SparqlSyntaxError};
use vstd::prelude::*;

verus! {

/// `spargebra::Query`, a parsed query: carried through, never looked into.
#[verifier::external_type_specification]
#[verifier::external_body]
pub struct ExQuery(spargebra::Query);

/// `spargebra::SparqlSyntaxError`, the parser's error: only its presence
/// is read.
#[verifier::external_type_specification]
#[verifier::external_body]
pub struct ExSparqlSyntaxError(spargebra::SparqlSyntaxError);

/// `spargebra::algebra::GraphPattern`, a node of a parsed graph pattern.
#[verifier::external_type_specification]
#[verifier::external_body]
pub struct ExGraphPattern(spargebra::algebra::GraphPattern);

/// `spargebra::algebra::PropertyPathExpression`, a node of a parsed path.
#[verifier::external_type_specification]
#[verifier::external_body]
pub struct ExPropertyPathExpression(spargebra::algebra::PropertyPathExpression);

/// `spargebra::term::TriplePattern`, a parsed triple pattern.
#[verifier::external_type_specification]
#[verifier::external_body]
pub struct ExTriplePattern(spargebra::term::TriplePattern);

/// `spargebra::term::TermPattern`, a parsed subject or object.
#[verifier::external_type_specification]
#[verifier::external_body]
pub struct ExTermPattern(spargebra::term::TermPattern);

/// `spargebra::term::NamedNodePattern`, a parsed predicate.
#[verifier::external_type_specification]
#[verifier::external_body]
pub struct ExNamedNodePattern(spargebra::term::NamedNodePattern);

/// `spargebra::term::NamedNode`, an IRI.
#[verifier::external_type_specification]
#[verifier::external_body]
pub struct ExNamedNode(spargebra::term::NamedNode);

/// `spargebra::term::BlankNode`, a blank node.
#[verifier::external_type_specification]
#[verifier::external_body]
pub struct ExBlankNode(spargebra::term::BlankNode);

/// `spargebra::term::Literal`, a literal with its language or its type.
#[verifier::external_type_specification]
#[verifier::external_body]
pub struct ExLiteral(spargebra::term::Literal);

/// `spargebra::term::Variable`, a variable of a query.
#[verifier::external_type_specification]
#[verifier::external_body]
pub struct ExVariable(spargebra::term::Variable);

/// The top of a parsed graph pattern, with what stands directly below it.
pub enum PatternParts<'a> {
    Bgp(&'a Vec<TriplePattern>),
    Path(&'a TermPattern, &'a PropertyPathExpression, &'a TermPattern),
    Join(&'a GraphPattern, &'a GraphPattern),
    Service,
    Distinct(&'a GraphPattern),
    Project(&'a GraphPattern, &'a Vec<Variable>),
    Unsupported,
}

/// The top of a parsed path expression, with what stands directly below
/// it.
pub enum PathParts<'a> {
    NamedNode(&'a NamedNode),
    Reverse(&'a PropertyPathExpression),
    Sequence(&'a PropertyPathExpression, &'a PropertyPathExpression),
    Alternative(&'a PropertyPathExpression, &'a PropertyPathExpression),
    ZeroOrMore(&'a PropertyPathExpression),
    OneOrMore(&'a PropertyPathExpression),
    ZeroOrOne(&'a PropertyPathExpression),
    NegatedPropertySet(&'a Vec<NamedNode>),
}

/// A parsed subject or object, by its kind.
pub enum TermParts<'a> {
    NamedNode(&'a NamedNode),
    BlankNode(&'a BlankNode),
    Literal(&'a Literal),
    Variable(&'a Variable),
}

/// A parsed predicate, by its kind.
pub enum PredicateParts<'a> {
    NamedNode(&'a NamedNode),
    Variable(&'a Variable),
}

/// Calls `spargebra::SparqlParser::parse_query` on a parser without base
/// IRI or predeclared prefixes. Nothing is claimed of what comes back: the
/// parser gives blank nodes fresh names, so that one text may parse to
/// different trees.
#[verifier::external_body]
pub(crate) fn parse_query(query: &str) -> Result<Query, SparqlSyntaxError> {
    SparqlParser::new().parse_query(query)
}

/// Tells the variants of `spargebra::Query` apart: the graph pattern of a
/// select query, nothing for the other forms. Nothing is claimed of the
/// result.
#[verifier::external_body]
fn select_pattern(query: &Query) -> Option<&GraphPattern> {
    match query {
        Query::Select { pattern, .. } => Some(pattern),
        Query::Construct { .. } => None,
        Query::Describe { .. } => None,
        Query::Ask { .. } => None,
    }
}

/// Tells the variants of `spargebra::algebra::GraphPattern` apart and hands
/// out the fields that the translation reads; every variant that is not
/// named here is unsupported. The contract claims only that a pattern
/// handed out is smaller than `p`: it is a part of it.
#[verifier::external_body]
fn pattern_parts<'a>(p: &'a GraphPattern) -> (r: PatternParts<'a>)
    ensures
        match r {
            PatternParts::Join(left, right) => decreases_to!(p => left) && decreases_to!(p => right),
            PatternParts::Distinct(inner) => decreases_to!(p => inner),
            PatternParts::Project(inner, _) => decreases_to!(p => inner),
            _ => true,
        },
{
    match p {
        GraphPattern::Bgp { patterns } => PatternParts::Bgp(patterns),
        GraphPattern::Path { subject, path, object } => PatternParts::Path(subject, path, object),
        GraphPattern::Join { left, right } => PatternParts::Join(left, right),
        GraphPattern::Service { .. } => PatternParts::Service,
        GraphPattern::Distinct { inner } => PatternParts::Distinct(inner),
        GraphPattern::Project { inner, variables } => PatternParts::Project(inner, variables),
        _ => PatternParts::Unsupported,
    }
}

/// Tells the variants of `spargebra::algebra::PropertyPathExpression`
/// apart and hands out their fields. The contract claims only that an
/// expression handed out is smaller than `p`: it is a part of it.
#[verifier::external_body]
fn path_parts<'a>(p: &'a PropertyPathExpression) -> (r: PathParts<'a>)
    ensures
        match r {
            PathParts::Reverse(a) => decreases_to!(p => a),
            PathParts::Sequence(a, b) => decreases_to!(p => a) && decreases_to!(p => b),
            PathParts::Alternative(a, b) => decreases_to!(p => a) && decreases_to!(p => b),
            PathParts::ZeroOrMore(a) => decreases_to!(p => a),
            PathParts::OneOrMore(a) => decreases_to!(p => a),
            PathParts::ZeroOrOne(a) => decreases_to!(p => a),
            _ => true,
        },
{
    match p {
        PropertyPathExpression::NamedNode(n) => PathParts::NamedNode(n),
        PropertyPathExpression::Reverse(a) => PathParts::Reverse(a),
        PropertyPathExpression::Sequence(a, b) => PathParts::Sequence(a, b),
        PropertyPathExpression::Alternative(a, b) => PathParts::Alternative(a, b),
        PropertyPathExpression::ZeroOrMore(a) => PathParts::ZeroOrMore(a),
        PropertyPathExpression::OneOrMore(a) => PathParts::OneOrMore(a),
        PropertyPathExpression::ZeroOrOne(a) => PathParts::ZeroOrOne(a),
        PropertyPathExpression::NegatedPropertySet(nodes) => PathParts::NegatedPropertySet(nodes),
    }
}

/// The text of a named node: `NamedNode`'s `Display`, which writes `<`,
/// the IRI and `>`. The contract claims the two brackets, nothing of what
/// stands between them.
#[verifier::external_body]
fn named_node_text(n: &NamedNode) -> (r: String)
    ensures
        in_angle_brackets(r@),
{
    n.to_string()
}

/// The text of a blank node: `BlankNode`'s `Display`, which writes `_:`
/// and the node's name. The contract claims the `_:`, nothing of the
/// name.
#[verifier::external_body]
fn blank_node_text(b: &BlankNode) -> (r: String)
    ensures
        is_blank_label(r@),
{
    b.to_string()
}

/// The text of a literal: `Literal`'s `Display`, which writes the value
/// in quotation marks and the language or the type behind it. The
/// contract claims the opening quotation mark, nothing of what follows.
#[verifier::external_body]
fn literal_text(l: &Literal) -> (r: String)
    ensures
        begins_with(r@, '"'),
{
    l.to_string()
}

/// The name of a variable, without `?`: `Variable::as_str`. Nothing is
/// claimed of the result.
#[verifier::external_body]
fn variable_name(v: &Variable) -> String {
    v.as_str().to_string()
}

/// Tells the variants of `spargebra::term::TermPattern` apart and hands
/// out what each holds. Nothing is claimed of the result.
#[verifier::external_body]
fn term_parts<'a>(t: &'a TermPattern) -> TermParts<'a> {
    match t {
        TermPattern::NamedNode(n) => TermParts::NamedNode(n),
        TermPattern::BlankNode(b) => TermParts::BlankNode(b),
        TermPattern::Literal(l) => TermParts::Literal(l),
        TermPattern::Variable(v) => TermParts::Variable(v),
    }
}

/// Tells the variants of `spargebra::term::NamedNodePattern` apart and
/// hands out what each holds. Nothing is claimed of the result.
#[verifier::external_body]
fn predicate_parts<'a>(p: &'a NamedNodePattern) -> PredicateParts<'a> {
    match p {
        NamedNodePattern::NamedNode(n) => PredicateParts::NamedNode(n),
        NamedNodePattern::Variable(v) => PredicateParts::Variable(v),
    }
}

/// The three fields of a `spargebra::term::TriplePattern`. Nothing is
/// claimed of them.
#[verifier::external_body]
fn triple_parts<'a>(t: &'a TriplePattern) -> (&'a TermPattern, &'a NamedNodePattern, &'a TermPattern) {
    (&t.subject, &t.predicate, &t.object)
}

/// The term of this library for a parsed subject or object: of the kind
/// of what was parsed, with its text. The text is that of its kind.
fn lower_term(t: &TermPattern) -> (r: Term)
    ensures
        well_formed_term(r),
{
    match term_parts(t) {
        TermParts::NamedNode(n) => Term::NamedNode(named_node_text(n)),
        TermParts::BlankNode(b) => Term::BlankNode(blank_node_text(b)),
        TermParts::Literal(l) => Term::Literal(literal_text(l)),
        TermParts::Variable(v) => Term::Variable(variable_name(v)),
    }
}

/// The predicate of this library for a parsed one: of the kind of what
/// was parsed, with its text. The text is that of its kind.
fn lower_predicate(p: &NamedNodePattern) -> (r: Predicate)
    ensures
        well_formed_predicate(r),
{
    match predicate_parts(p) {
        PredicateParts::NamedNode(n) => Predicate::NamedNode(named_node_text(n)),
        PredicateParts::Variable(v) => Predicate::Variable(variable_name(v)),
    }
}

/// The path expression of this library for a parsed one: it has the
/// shape of the parsed expression, and each of its named nodes is
/// written in angle brackets.
fn lower_path(p: &PropertyPathExpression) -> (r: PathExpr)
    ensures
        well_formed_path(r),
    decreases p,
{
    match path_parts(p) {
        PathParts::NamedNode(n) => PathExpr::NamedNode(named_node_text(n)),
        PathParts::Reverse(a) => PathExpr::Reverse(Box::new(lower_path(a))),
        PathParts::Sequence(a, b) => PathExpr::Sequence(
            Box::new(lower_path(a)),
            Box::new(lower_path(b)),
        ),
        PathParts::Alternative(a, b) => PathExpr::Alternative(
            Box::new(lower_path(a)),
            Box::new(lower_path(b)),
        ),
        PathParts::ZeroOrMore(a) => PathExpr::ZeroOrMore(Box::new(lower_path(a))),
        PathParts::OneOrMore(a) => PathExpr::OneOrMore(Box::new(lower_path(a))),
        PathParts::ZeroOrOne(a) => PathExpr::ZeroOrOne(Box::new(lower_path(a))),
        PathParts::NegatedPropertySet(nodes) => {
            let mut texts: Vec<String> = Vec::new();
            let mut i: usize = 0;
            while i < nodes.len()
                invariant
                    i <= nodes.len(),
                    texts.len() == i,
                    forall|j: int| 0 <= j < i ==> in_angle_brackets(#[trigger] texts@[j]@),
                decreases nodes.len() - i,
            {
                texts.push(named_node_text(&nodes[i]));
                i = i + 1;
            }
            PathExpr::NegatedPropertySet(texts)
        },
    }
}

/// The triple patterns of this library for parsed ones, in their order.
fn lower_triples(patterns: &Vec<TriplePattern>) -> (r: Vec<Triple>)
    ensures
        r.len() == patterns.len(),
        forall|i: int| 0 <= i < r@.len() ==> well_formed_triple(#[trigger] r@[i]),
{
    let mut out: Vec<Triple> = Vec::new();
    let mut i: usize = 0;
    while i < patterns.len()
        invariant
            i <= patterns.len(),
            out.len() == i,
            forall|j: int| 0 <= j < i ==> well_formed_triple(#[trigger] out@[j]),
        decreases patterns.len() - i,
    {
        let (subject, predicate, object) = triple_parts(&patterns[i]);
        out.push(
            Triple {
                subject: lower_term(subject),
                predicate: lower_predicate(predicate),
                object: lower_term(object),
            },
        );
        i = i + 1;
    }
    out
}

/// The names of parsed variables, in their order.
fn lower_variables(variables: &Vec<Variable>) -> (r: Vec<String>)
    ensures
        r.len() == variables.len(),
{
    let mut out: Vec<String> = Vec::new();
    let mut i: usize = 0;
    while i < variables.len()
        invariant
            i <= variables.len(),
            out.len() == i,
        decreases variables.len() - i,
    {
        out.push(variable_name(&variables[i]));
        i = i + 1;
    }
    out
}

/// The pattern of this library for a parsed one. It has the shape of the
/// parsed pattern, cut off at each unsupported operator and at each call
/// of a service, and its terms, predicates and paths hold the texts of
/// their kinds.
fn lower_pattern(p: &GraphPattern) -> (r: Pattern)
    ensures
        well_formed_pattern(r),
    decreases p,
{
    match pattern_parts(p) {
        PatternParts::Bgp(patterns) => Pattern::Bgp(lower_triples(patterns)),
        PatternParts::Path(subject, path, object) => Pattern::Path {
            subject: lower_term(subject),
            path: lower_path(path),
            object: lower_term(object),
        },
        PatternParts::Join(left, right) => Pattern::Join(
            Box::new(lower_pattern(left)),
            Box::new(lower_pattern(right)),
        ),
        PatternParts::Service => Pattern::Service,
        PatternParts::Distinct(inner) => Pattern::Distinct(Box::new(lower_pattern(inner))),
        PatternParts::Project(inner, variables) => Pattern::Project(
            Box::new(lower_pattern(inner)),
            lower_variables(variables),
        ),
        PatternParts::Unsupported => Pattern::Unsupported,
    }
}

/// Parses the text of a query. The outcome says whether the text is a
/// query, whether the query is a select query, and which pattern it then
/// holds. Which of them a text gives is the parser's to say; whatever it
/// is, it is well formed.
pub(crate) fn parse(query: &str) -> (r: ParseOutcome)
    ensures
        well_formed_outcome(r),
{
    match parse_query(query) {
        Ok(parsed) => match select_pattern(&parsed) {
            Some(pattern) => ParseOutcome::Select(lower_pattern(pattern)),
            None => ParseOutcome::OtherForm,
        },
        Err(_) => ParseOutcome::SyntaxError,
    }
}

} // verus!
