//! The text of the query that a list of connections stands for.

use crate::model::{Connection, ConnectionView, PropertyView, connection_views};
use crate::path::{generate_property_path, get_iri, path_text, rendered_iri};
use crate::prefixes::{prefix_block, prefix_block_of};
use crate::select_list::{projection_list, projection_list_of};
use crate::slots::{Slot, SlotView, collect_slots, graph_slots, slot_views};
use crate::text::{contains, has_infix};
use vstd::prelude::*;

verus! {

/// The namespace declaration of the label service's vocabulary.
pub const WIKIBASE_PREFIX: &'static str = "PREFIX wikibase: <http://wikiba.se/ontology#>";

/// The namespace declaration of the label service's parameters.
pub const BD_PREFIX: &'static str = "PREFIX bd: <http://www.bigdata.com/rdf#>";

/// The namespace declaration for typed literals, with the empty line
/// that follows it.
pub const XSD_PREFIX: &'static str = "PREFIX xsd: <http://www.w3.org/2001/XMLSchema#>\n\n";

/// The white space at the head of each line between the braces.
pub const INDENTATION: &'static str = "    ";

/// The line that asks the label service for labels, without indentation.
pub const SERVICE_STATEMENT: &'static str =
    "SERVICE wikibase:label { bd:serviceParam wikibase:language \"[AUTO_LANGUAGE],en\". }\n";

/// Whether the id of one of the slots holds a literal of an XSD type.
pub open spec fn uses_xsd(slots: Seq<SlotView>) -> bool {
    exists|i: int| 0 <= i < slots.len() && has_infix(#[trigger] slots[i].id, "^^xsd:"@)
}

/// The XSD declaration where a slot calls for it, else nothing.
pub open spec fn xsd_block(slots: Seq<SlotView>) -> Seq<char> {
    if uses_xsd(slots) {
        XSD_PREFIX@
    } else {
        Seq::empty()
    }
}

/// The line of a triple pattern: subject, path and object, indented,
/// with a full stop behind them.
pub open spec fn pattern_line(subject: Seq<char>, path: Seq<char>, object: Seq<char>) -> Seq<
    char,
> {
    INDENTATION@ + subject + " "@ + path + " "@ + object + " .\n"@
}

/// The comment that names what a triple pattern joins: the labels of the
/// source, of the property and of the target.
pub open spec fn comment_line(source: Seq<char>, property: Seq<char>, target: Seq<char>) -> Seq<
    char,
> {
    INDENTATION@ + "# "@ + source + " -- ["@ + property + "] -> "@ + target + "\n"@
}

/// The two lines of one property of a connection: the triple pattern, and
/// the comment that holds the three labels.
pub open spec fn triple_lines(c: ConnectionView, p: PropertyView) -> Seq<char> {
    pattern_line(
        rendered_iri(c.source.id, c.source.prefix),
        path_text(p),
        rendered_iri(c.target.id, c.target.prefix),
    ) + comment_line(c.source.label, p.label, c.target.label)
}

/// The lines of the first `n` properties of a connection.
pub open spec fn connection_lines(c: ConnectionView, n: nat) -> Seq<char>
    decreases n,
{
    if n == 0 || n > c.properties.len() {
        Seq::empty()
    } else {
        connection_lines(c, (n - 1) as nat) + triple_lines(c, c.properties[n - 1])
    }
}

/// What stands between the braces for the connections: the lines of each
/// connection, in their order.
pub open spec fn where_body(connections: Seq<ConnectionView>) -> Seq<char>
    decreases connections.len(),
{
    if connections.len() == 0 {
        Seq::empty()
    } else {
        where_body(connections.drop_last()) + connection_lines(
            connections.last(),
            connections.last().properties.len(),
        )
    }
}

/// The line that calls the label service, where it is asked for.
pub open spec fn service_block(label_service: bool) -> Seq<char> {
    if label_service {
        INDENTATION@ + SERVICE_STATEMENT@
    } else {
        Seq::empty()
    }
}

/// The two declarations of the label service's namespaces, each on its
/// line, where they are asked for.
pub open spec fn service_prefixes(label_service_prefixes: bool) -> Seq<char> {
    if label_service_prefixes {
        BD_PREFIX@ + "\n"@ + WIKIBASE_PREFIX@ + "\n"@
    } else {
        Seq::empty()
    }
}

/// The text of the query for a list of connections. Without connections
/// it is empty. Else it holds, in this order: the label service's
/// namespaces, the XSD declaration, the prefix block, `SELECT` with the
/// projection list, and between the braces of `WHERE` the lines of the
/// connections and the call of the label service.
pub open spec fn query_text(
    connections: Seq<ConnectionView>,
    label_service: bool,
    label_service_prefixes: bool,
) -> Seq<char> {
    if connections.len() == 0 {
        Seq::empty()
    } else {
        let slots = graph_slots(connections);
        service_prefixes(label_service_prefixes) + xsd_block(slots) + prefix_block(slots)
            + "SELECT "@ + projection_list(slots, label_service) + " WHERE {\n"@ + where_body(
            connections,
        ) + service_block(label_service) + "}"@
    }
}

/// Whether the id of one of the slots holds a literal of an XSD type.
fn any_xsd(slots: &Vec<Slot>) -> (r: bool)
    ensures
        r == uses_xsd(slot_views(slots@)),
{
    let mut i: usize = 0;
    while i < slots.len()
        invariant
            i <= slots.len(),
            forall|j: int| 0 <= j < i ==> !has_infix(#[trigger] slot_views(slots@)[j].id, "^^xsd:"@),
        decreases slots.len() - i,
    {
        if contains(slots[i].id.as_str(), "^^xsd:") {
            assert(has_infix(slot_views(slots@)[i as int].id, "^^xsd:"@));
            return true;
        }
        i = i + 1;
    }
    false
}

/// The line of a triple pattern.
fn pattern_line_of(subject: &str, path: &str, object: &str) -> (r: String)
    ensures
        r@ == pattern_line(subject@, path@, object@),
{
    let mut out = String::from_str(INDENTATION);
    out.append(subject);
    out.append(" ");
    out.append(path);
    out.append(" ");
    out.append(object);
    out.append(" .\n");
    out
}

/// The comment that names what a triple pattern joins.
fn comment_line_of(source: &str, property: &str, target: &str) -> (r: String)
    ensures
        r@ == comment_line(source@, property@, target@),
{
    let mut out = String::from_str(INDENTATION);
    out.append("# ");
    out.append(source);
    out.append(" -- [");
    out.append(property);
    out.append("] -> ");
    out.append(target);
    out.append("\n");
    out
}

/// The lines of a connection.
fn connection_lines_of(c: &Connection) -> (r: String)
    ensures
        r@ == connection_lines(c@, c@.properties.len()),
{
    let source_iri = get_iri(c.source.id.as_str(), &c.source.prefix);
    let target_iri = get_iri(c.target.id.as_str(), &c.target.prefix);
    let mut out = String::new();
    let mut k: usize = 0;
    while k < c.properties.len()
        invariant
            k <= c.properties.len(),
            source_iri@ == rendered_iri(c@.source.id, c@.source.prefix),
            target_iri@ == rendered_iri(c@.target.id, c@.target.prefix),
            out@ == connection_lines(c@, k as nat),
        decreases c.properties.len() - k,
    {
        let property = &c.properties[k];
        let property_path = generate_property_path(property);
        let pattern = pattern_line_of(
            source_iri.as_str(),
            property_path.as_str(),
            target_iri.as_str(),
        );
        let comment = comment_line_of(
            c.source.label.as_str(),
            property.label.as_str(),
            c.target.label.as_str(),
        );
        assert(c@.properties[k as int] == property@);
        out.append(pattern.as_str());
        out.append(comment.as_str());
        assert(out@ =~= connection_lines(c@, k as nat) + triple_lines(c@, property@));
        k = k + 1;
    }
    out
}

/// What stands between the braces for the connections.
fn where_body_of(connections: &Vec<Connection>) -> (r: String)
    ensures
        r@ == where_body(connection_views(connections@)),
{
    let ghost all = connection_views(connections@);
    let mut out = String::new();
    let mut i: usize = 0;
    assert(all.take(0) =~= Seq::empty());
    while i < connections.len()
        invariant
            i <= connections.len(),
            all == connection_views(connections@),
            out@ == where_body(all.take(i as int)),
        decreases connections.len() - i,
    {
        let lines = connection_lines_of(&connections[i]);
        proof {
            assert(all.take(i + 1).drop_last() =~= all.take(i as int));
            assert(all.take(i + 1).last() == connections@[i as int]@);
        }
        out.append(lines.as_str());
        i = i + 1;
    }
    assert(all.take(i as int) =~= all);
    out
}

/// The text of the query for a list of connections: empty where there
/// are none.
pub fn vqg_to_query(
    connections: Vec<Connection>,
    add_service_statement: bool,
    add_label_service_prefixes: bool,
) -> (r: String)
    ensures
        r@ == query_text(
            connection_views(connections@),
            add_service_statement,
            add_label_service_prefixes,
        ),
{
    if connections.len() == 0 {
        return String::new();
    }
    let slots = collect_slots(&connections);
    let projection = projection_list_of(&slots, add_service_statement);
    let prefixes = prefix_block_of(&slots);
    let uses_xsd = any_xsd(&slots);
    let where_clause = where_body_of(&connections);

    let mut out = String::new();
    if add_label_service_prefixes {
        out.append(BD_PREFIX);
        out.append("\n");
        out.append(WIKIBASE_PREFIX);
        out.append("\n");
    }
    assert(out@ =~= service_prefixes(add_label_service_prefixes));
    if uses_xsd {
        out.append(XSD_PREFIX);
    }
    out.append(prefixes.as_str());
    out.append("SELECT ");
    out.append(projection.as_str());
    out.append(" WHERE {\n");
    out.append(where_clause.as_str());
    if add_service_statement {
        out.append(INDENTATION);
        out.append(SERVICE_STATEMENT);
    }
    out.append("}");
    proof {
        let all = connection_views(connections@);
        let s = graph_slots(all);
        assert(out@ =~= service_prefixes(add_label_service_prefixes) + xsd_block(s)
            + prefix_block(s) + "SELECT "@ + projection_list(s, add_service_statement)
            + " WHERE {\n"@ + where_body(all) + service_block(add_service_statement) + "}"@);
    }
    out
}

} // verus!
