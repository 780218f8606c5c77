//! Translation between visual query graphs and the text of SPARQL queries.
//!
//! A query graph is a list of [`Connection`]s: two entities joined by
//! property trees. [`vqg_to_query`] writes the query that a graph stands
//! for; [`query_to_vqg`] reads the graph of a select query.

pub mod compose;
pub mod grammar;
pub mod import;
pub mod model;
pub mod order;
pub mod path;
pub mod pattern;
pub mod prefixes;
pub mod projection;
pub mod select_list;
pub mod slots;
mod sparql;
pub mod text;

pub use compose::vqg_to_query;
pub use import::{after_parse, connections_of, query_to_vqg, Step};
pub use model::{Connection, Entity, Modifier, PathType, Prefix, Property};
pub use path::{generate_property_path, get_iri, property_path_to_property, PathExpr};
pub use pattern::{bgp_to_vqg, connection_constructor, match_bgp_or_path_to_vqg};
pub use pattern::{named_node_pattern_to_string, term_pattern_to_string};
pub use pattern::{ParseOutcome, Pattern, Predicate, Term, Triple};
pub use projection::{annotate, select_shape, Selection};
