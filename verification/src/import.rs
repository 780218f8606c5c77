//! From the text of a query to its connections, with one more attempt
//! where the text does not parse as it stands.

use crate::compose::{BD_PREFIX, WIKIBASE_PREFIX};
use crate::model::{Connection, ConnectionView, connection_views};
use crate::pattern::{ParseOutcome, Pattern, extracted, is_term_id, lemma_variable_terms};
use crate::pattern::{match_bgp_or_path_to_vqg, well_formed_outcome, well_formed_pattern};
use crate::pattern::{well_formed_triple};
use crate::projection::{annotate, annotated, outer_body, outer_projection, select_shape};
use crate::sparql::parse;
use crate::text::starts_with;
use vstd::prelude::*;

verus! {

/// The connections of a parsed query: those of the body of a select
/// query, with the projected variables marked; none for a query of
/// another form and for a text that is no query.
pub open spec fn imported(outcome: ParseOutcome) -> Seq<ConnectionView> {
    match outcome {
        ParseOutcome::Select(p) => annotated(extracted(outer_body(p)), outer_projection(p)),
        ParseOutcome::OtherForm => Seq::empty(),
        ParseOutcome::SyntaxError => Seq::empty(),
    }
}

/// A text that does not parse is tried once more where it begins with
/// neither of the label service's two namespace declarations.
pub open spec fn may_retry(query: Seq<char>) -> bool {
    !WIKIBASE_PREFIX@.is_prefix_of(query) && !BD_PREFIX@.is_prefix_of(query)
}

/// The text of the second attempt: the two declarations, then the query.
pub open spec fn retry_query(query: Seq<char>) -> Seq<char> {
    WIKIBASE_PREFIX@ + BD_PREFIX@ + query
}

/// Whether the second attempt is made: the text is not empty, did not
/// parse, and may be tried again.
pub open spec fn retries(query: Seq<char>, first: ParseOutcome) -> bool {
    query.len() > 0 && first is SyntaxError && may_retry(query)
}

/// The connections of a query text, given what parsing makes of the text
/// (`first`) and of the text of the second attempt (`second`). An empty
/// text has none. Where the second attempt is made, its outcome decides;
/// else the first does.
pub open spec fn import_result(
    query: Seq<char>,
    first: ParseOutcome,
    second: ParseOutcome,
) -> Seq<ConnectionView> {
    if query.len() == 0 {
        Seq::empty()
    } else if retries(query, first) {
        imported(second)
    } else {
        imported(first)
    }
}

/// The text of a second attempt is never tried again: it begins with one
/// of the two declarations.
pub proof fn lemma_retry_once(query: Seq<char>)
    ensures
        !may_retry(retry_query(query)),
{
    let head = WIKIBASE_PREFIX@;
    assert(retry_query(query).subrange(0, head.len() as int) =~= head);
}

/// What follows the first attempt to parse a query text.
pub enum Step {
    /// The translation is over, with these connections.
    Done(Vec<Connection>),
    /// This text is to be parsed in a second attempt.
    Retry(String),
}

/// The connections of every graph pattern are plain: no end of them is
/// distinct.
proof fn lemma_extracted_not_distinct(p: Pattern)
    ensures
        forall|i: int|
            0 <= i < extracted(p).len() ==> !(#[trigger] extracted(p)[i]).source.distinct
                && !extracted(p)[i].target.distinct,
    decreases p,
{
    match p {
        Pattern::Join(left, right) => {
            lemma_extracted_not_distinct(*left);
            lemma_extracted_not_distinct(*right);
            let a = extracted(*left);
            let b = extracted(*right);
            assert forall|i: int| 0 <= i < extracted(p).len() implies !(
            #[trigger] extracted(p)[i]).source.distinct && !extracted(p)[i].target.distinct by {
                if i < a.len() {
                    assert(extracted(p)[i] == a[i]);
                } else {
                    assert(extracted(p)[i] == b[i - a.len()]);
                }
            }
        },
        Pattern::Distinct(inner) => {
            lemma_extracted_not_distinct(*inner);
            assert(extracted(p) == extracted(*inner));
        },
        Pattern::Bgp(_) => {},
        Pattern::Path { .. } => {},
        Pattern::Service => {},
        Pattern::Project(_, _) => {},
        Pattern::Unsupported => {},
    }
}

/// Both ends of every connection of a well-formed pattern hold the id of
/// a term.
proof fn lemma_extracted_ends(p: Pattern)
    requires
        well_formed_pattern(p),
    ensures
        forall|i: int|
            0 <= i < extracted(p).len() ==> is_term_id((#[trigger] extracted(p)[i]).source.id)
                && is_term_id(extracted(p)[i].target.id),
    decreases p,
{
    match p {
        Pattern::Join(left, right) => {
            lemma_extracted_ends(*left);
            lemma_extracted_ends(*right);
            let a = extracted(*left);
            let b = extracted(*right);
            assert forall|i: int| 0 <= i < extracted(p).len() implies is_term_id(
                (#[trigger] extracted(p)[i]).source.id,
            ) && is_term_id(extracted(p)[i].target.id) by {
                if i < a.len() {
                    assert(extracted(p)[i] == a[i]);
                } else {
                    assert(extracted(p)[i] == b[i - a.len()]);
                }
            }
        },
        Pattern::Distinct(inner) => {
            lemma_extracted_ends(*inner);
            assert(extracted(p) == extracted(*inner));
        },
        Pattern::Bgp(bgp) => {
            assert forall|i: int| 0 <= i < extracted(p).len() implies is_term_id(
                (#[trigger] extracted(p)[i]).source.id,
            ) && is_term_id(extracted(p)[i].target.id) by {
                assert(well_formed_triple(bgp@[i]));
                lemma_variable_terms(bgp@[i].subject);
                lemma_variable_terms(bgp@[i].object);
            }
        },
        Pattern::Path { subject, path, object } => {
            lemma_variable_terms(subject);
            lemma_variable_terms(object);
        },
        Pattern::Service => {},
        Pattern::Project(_, _) => {},
        Pattern::Unsupported => {},
    }
}

/// What a well-formed pattern holds below its outer distinct and
/// projection is well formed.
proof fn lemma_outer_body_well_formed(p: Pattern)
    requires
        well_formed_pattern(p),
    ensures
        well_formed_pattern(outer_body(p)),
{
    match p {
        Pattern::Distinct(inner) => {
            assert(well_formed_pattern(*inner));
            match *inner {
                Pattern::Project(body, _) => {
                    assert(well_formed_pattern(*body));
                },
                _ => {},
            }
        },
        Pattern::Project(body, _) => {
            assert(well_formed_pattern(*body));
        },
        _ => {},
    }
}

/// Both ends of every connection that comes out of a well-formed outcome
/// hold the id of a term: that of a variable, an IRI in angle brackets,
/// the label of a blank node, or a literal.
pub proof fn lemma_import_ends(outcome: ParseOutcome)
    requires
        well_formed_outcome(outcome),
    ensures
        forall|i: int|
            0 <= i < imported(outcome).len() ==> is_term_id(
                (#[trigger] imported(outcome)[i]).source.id,
            ) && is_term_id(imported(outcome)[i].target.id),
{
    match outcome {
        ParseOutcome::Select(p) => {
            lemma_outer_body_well_formed(p);
            lemma_extracted_ends(outer_body(p));
        },
        _ => {},
    }
}

/// No connection that comes out of a query has a distinct end, whether
/// the query itself is distinct or not: the keyword of the query is never
/// carried into the flags of its variables.
pub proof fn lemma_import_never_distinct(outcome: ParseOutcome)
    ensures
        forall|i: int|
            0 <= i < imported(outcome).len() ==> !(#[trigger] imported(outcome)[i]).source.distinct
                && !imported(outcome)[i].target.distinct,
{
    match outcome {
        ParseOutcome::Select(p) => {
            lemma_extracted_not_distinct(outer_body(p));
        },
        _ => {},
    }
}

/// The connections of a parsed query.
pub fn connections_of(outcome: ParseOutcome) -> (r: Vec<Connection>)
    ensures
        connection_views(r@) == imported(outcome),
{
    match outcome {
        ParseOutcome::Select(p) => {
            let shape = select_shape(p);
            let connections = match_bgp_or_path_to_vqg(shape.body);
            annotate(&connections, &shape.projected)
        },
        ParseOutcome::OtherForm => {
            let out: Vec<Connection> = Vec::new();
            assert(connection_views(out@) =~= Seq::empty());
            out
        },
        ParseOutcome::SyntaxError => {
            let out: Vec<Connection> = Vec::new();
            assert(connection_views(out@) =~= Seq::empty());
            out
        },
    }
}

/// What follows the first attempt to parse the text `query`: a second
/// attempt on the text with the two declarations before it, where the
/// text is not empty, did not parse and may be tried again; else the
/// connections of what was parsed.
pub fn after_parse(query: &str, first: ParseOutcome) -> (r: Step)
    ensures
        match r {
            Step::Retry(text) => retries(query@, first) && text@ == retry_query(query@),
            Step::Done(connections) => !retries(query@, first) && connection_views(connections@)
                == imported(first),
        },
{
    match first {
        ParseOutcome::SyntaxError => {
            if !query.is_empty() && !starts_with(query, WIKIBASE_PREFIX) && !starts_with(
                query,
                BD_PREFIX,
            ) {
                let mut text = String::from_str(WIKIBASE_PREFIX);
                text.append(BD_PREFIX);
                text.append(query);
                Step::Retry(text)
            } else {
                Step::Done(connections_of(first))
            }
        },
        _ => Step::Done(connections_of(first)),
    }
}

/// What holds of the connections of a well-formed outcome, said of the
/// connections themselves: no end is distinct, and both ends hold the id
/// of a term.
proof fn lemma_connections_of_outcome(connections: Seq<Connection>, outcome: ParseOutcome)
    requires
        well_formed_outcome(outcome),
        connection_views(connections) == imported(outcome),
    ensures
        forall|i: int|
            0 <= i < connections.len() ==> {
                let c = (#[trigger] connections[i])@;
                &&& !c.source.distinct
                &&& !c.target.distinct
                &&& is_term_id(c.source.id)
                &&& is_term_id(c.target.id)
            },
{
    lemma_import_never_distinct(outcome);
    lemma_import_ends(outcome);
    assert forall|i: int| 0 <= i < connections.len() implies {
        let c = (#[trigger] connections[i])@;
        &&& !c.source.distinct
        &&& !c.target.distinct
        &&& is_term_id(c.source.id)
        &&& is_term_id(c.target.id)
    } by {
        assert(connection_views(connections)[i] == connections[i]@);
    }
}

/// The connections of the query that `query` holds. An empty text, a text
/// that is no query and a query that is no select query have none. A text
/// that does not parse is tried once more behind the label service's two
/// namespace declarations, unless it begins with one of them.
///
/// What the parser makes of a text is not stated here: the result is that
/// of `import_result` for some pair of well-formed outcomes. Whatever
/// they are, no end of a connection is distinct, and each holds the id of
/// a term: that of a variable, an IRI in angle brackets, the label of a
/// blank node, or a literal.
pub fn query_to_vqg(query: &str) -> (r: Vec<Connection>)
    ensures
        query@.len() == 0 ==> r@.len() == 0,
        exists|first: ParseOutcome, second: ParseOutcome|
            well_formed_outcome(first) && well_formed_outcome(second) && connection_views(r@)
                == import_result(query@, first, second),
        forall|i: int|
            0 <= i < r@.len() ==> !(#[trigger] r@[i])@.source.distinct && !r@[i]@.target.distinct,
        forall|i: int|
            0 <= i < r@.len() ==> is_term_id((#[trigger] r@[i])@.source.id) && is_term_id(
                r@[i]@.target.id,
            ),
{
    if query.is_empty() {
        let out: Vec<Connection> = Vec::new();
        assert(well_formed_outcome(ParseOutcome::OtherForm) && connection_views(out@)
            =~= import_result(query@, ParseOutcome::OtherForm, ParseOutcome::OtherForm));
        return out;
    }
    let first = parse(query);
    match after_parse(query, first) {
        Step::Done(connections) => {
            proof {
                lemma_connections_of_outcome(connections@, first);
                assert(well_formed_outcome(first) && well_formed_outcome(first)
                    && connection_views(connections@) == import_result(query@, first, first));
            }
            connections
        },
        Step::Retry(text) => {
            let second = parse(text.as_str());
            let connections = connections_of(second);
            proof {
                lemma_connections_of_outcome(connections@, second);
                assert(well_formed_outcome(first) && well_formed_outcome(second)
                    && connection_views(connections@) == import_result(query@, first, second));
            }
            connections
        },
    }
}

} // verus!
