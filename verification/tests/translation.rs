use query_by_graph::{query_to_vqg, vqg_to_query};
use query_by_graph::{Connection, Entity, Modifier, PathType, Prefix, Property};
use serde_json::Value;
use spargebra::SparqlParser;

// The two translations as a host sees them, with connections as JSON.

fn text_field(object: &serde_json::Map<String, Value>, key: &str) -> Option<String> {
    Some(object.get(key)?.as_str()?.to_string())
}

fn flag_field(object: &serde_json::Map<String, Value>, key: &str, default: bool) -> Option<bool> {
    match object.get(key) {
        None => Some(default),
        Some(value) => value.as_bool(),
    }
}

fn prefix_from_json(value: &Value) -> Option<Prefix> {
    let object = value.as_object()?;
    Some(Prefix { iri: text_field(object, "iri")?, abbreviation: text_field(object, "abbreviation")? })
}

fn entity_from_json(value: &Value) -> Option<Entity> {
    let object = value.as_object()?;
    Some(Entity {
        id: text_field(object, "id")?,
        label: text_field(object, "label")?,
        prefix: prefix_from_json(object.get("prefix")?)?,
        selected_for_projection: flag_field(object, "selectedForProjection", true)?,
        distinct: flag_field(object, "distinct", false)?,
    })
}

fn property_from_json(value: &Value) -> Option<Property> {
    let object = value.as_object()?;
    let mut properties = Vec::new();
    if let Some(children) = object.get("properties") {
        for child in children.as_array()? {
            properties.push(property_from_json(child)?);
        }
    }
    let path_type = match object.get("pathType") {
        None | Some(Value::Null) => None,
        Some(value) => match value.as_str()? {
            "alternation" => Some(PathType::Alternation),
            _ => Some(PathType::Sequence),
        },
    };
    let modifier = match object.get("modifier") {
        None | Some(Value::Null) => None,
        Some(value) => match value.as_str()? {
            "^" => Some(Modifier::Reverse),
            "*" => Some(Modifier::ZeroOrMore),
            "+" => Some(Modifier::OneOrMore),
            "?" => Some(Modifier::ZeroOrOne),
            _ => return None,
        },
    };
    Some(Property {
        id: text_field(object, "id")?,
        label: text_field(object, "label")?,
        prefix: prefix_from_json(object.get("prefix")?)?,
        selected_for_projection: flag_field(object, "selectedForProjection", true)?,
        properties,
        path_type,
        modifier,
    })
}

fn connection_from_json(value: &Value) -> Option<Connection> {
    let object = value.as_object()?;
    let mut properties = Vec::new();
    for property in object.get("properties")?.as_array()? {
        properties.push(property_from_json(property)?);
    }
    Some(Connection {
        source: entity_from_json(object.get("source")?)?,
        target: entity_from_json(object.get("target")?)?,
        properties,
    })
}

fn connections_from_json(json: &str) -> Option<Vec<Connection>> {
    let value: Value = serde_json::from_str(json).ok()?;
    let mut connections = Vec::new();
    for connection in value.as_array()? {
        connections.push(connection_from_json(connection)?);
    }
    Some(connections)
}

fn prefix_to_json(prefix: &Prefix) -> Value {
    let mut object = serde_json::Map::new();
    object.insert("iri".to_string(), Value::String(prefix.iri.clone()));
    object.insert("abbreviation".to_string(), Value::String(prefix.abbreviation.clone()));
    Value::Object(object)
}

fn entity_to_json(entity: &Entity) -> Value {
    let mut object = serde_json::Map::new();
    object.insert("id".to_string(), Value::String(entity.id.clone()));
    object.insert("label".to_string(), Value::String(entity.label.clone()));
    object.insert("prefix".to_string(), prefix_to_json(&entity.prefix));
    object.insert("selectedForProjection".to_string(), Value::Bool(entity.selected_for_projection));
    object.insert("distinct".to_string(), Value::Bool(entity.distinct));
    Value::Object(object)
}

fn property_to_json(property: &Property) -> Value {
    let mut object = serde_json::Map::new();
    object.insert("id".to_string(), Value::String(property.id.clone()));
    object.insert("label".to_string(), Value::String(property.label.clone()));
    object.insert("prefix".to_string(), prefix_to_json(&property.prefix));
    object.insert(
        "selectedForProjection".to_string(),
        Value::Bool(property.selected_for_projection),
    );
    object.insert(
        "properties".to_string(),
        Value::Array(property.properties.iter().map(property_to_json).collect()),
    );
    object.insert(
        "pathType".to_string(),
        match property.path_type {
            Some(PathType::Sequence) => Value::String("sequence".to_string()),
            Some(PathType::Alternation) => Value::String("alternation".to_string()),
            None => Value::Null,
        },
    );
    object.insert(
        "modifier".to_string(),
        match property.modifier {
            Some(Modifier::Reverse) => Value::String("^".to_string()),
            Some(Modifier::ZeroOrMore) => Value::String("*".to_string()),
            Some(Modifier::OneOrMore) => Value::String("+".to_string()),
            Some(Modifier::ZeroOrOne) => Value::String("?".to_string()),
            None => Value::Null,
        },
    );
    Value::Object(object)
}

fn connection_to_json(connection: &Connection) -> Value {
    let mut object = serde_json::Map::new();
    object.insert("source".to_string(), entity_to_json(&connection.source));
    object.insert("target".to_string(), entity_to_json(&connection.target));
    object.insert(
        "properties".to_string(),
        Value::Array(connection.properties.iter().map(property_to_json).collect()),
    );
    Value::Object(object)
}

fn vqg_to_query_wasm(json: &str, add_label_service: bool, add_label_service_prefixes: bool) -> String {
    let connections = connections_from_json(json).unwrap_or_default();
    vqg_to_query(connections, add_label_service, add_label_service_prefixes)
}

fn query_to_vqg_wasm(query: &str) -> String {
    let connections = query_to_vqg(query);
    Value::Array(connections.iter().map(connection_to_json).collect()).to_string()
}

fn assert_sparql_equivalent(actual: &str, expected: &str) {
    let actual_parsed = SparqlParser::new()
        .parse_query(actual)
        .unwrap_or_else(|e| panic!("Actual query did not parse:\n{}\nError: {:?}", actual, e));
    let expected_parsed = SparqlParser::new()
        .parse_query(expected)
        .unwrap_or_else(|e| panic!("Expected query did not parse:\n{}\nError: {:?}", expected, e));

    assert_eq!(
        actual_parsed.to_string(),
        expected_parsed.to_string(),
        "SPARQL queries are not equivalent.\nActual:\n{}\nExpected:\n{}",
        actual,
        expected
    );
}

fn select_line(query: &str) -> String {
    query
        .lines()
        .map(str::trim)
        .find(|line| line.starts_with("SELECT "))
        .unwrap_or_else(|| panic!("No SELECT line found in query:\n{}", query))
        .to_string()
}

fn projection_vars(select_line: &str) -> Vec<&str> {
    // "SELECT ?a ?b WHERE {" -> ["?a", "?b"]
    // "SELECT * WHERE {"      -> ["*"]
    let projection_part = select_line
        .trim_start_matches("SELECT ")
        .split(" WHERE")
        .next()
        .unwrap_or("")
        .trim();

    projection_part.split_whitespace().collect()
}

fn parse_connections_json(json: &str) -> Vec<Value> {
    let value: Value =
        serde_json::from_str(json).unwrap_or_else(|e| panic!("Invalid JSON output:\n{}\n{:?}", json, e));

    value
        .as_array()
        .unwrap_or_else(|| panic!("Expected JSON array, got: {}", value))
        .clone()
}

#[test]
fn test_empty_query() {
    assert_eq!(vqg_to_query_wasm("[]", false, false), "");
}

#[test]
fn test_reversibility_of_parse_query() {
    let query = r###"PREFIX wd: <http://www.wikidata.org/entity/>
SELECT ?relation WHERE {
     wd:Q5879 ?relation wd:Q154804 .
    # Johann Wolfgang von Goethe -- [Variable] -> Leipzig University
}"###;

    let parsed = SparqlParser::new().parse_query(query).expect("Query should parse");
    let canonical = parsed.to_string();

    // Canonical form should itself be parseable and stable.
    let reparsed = SparqlParser::new().parse_query(&canonical).expect("Canonical query should parse");
    assert_eq!(canonical, reparsed.to_string());

    // Ensure core semantics are preserved.
    assert!(canonical.contains("SELECT ?relation WHERE"));
    assert!(canonical.contains(
        "<http://www.wikidata.org/entity/Q5879> ?relation <http://www.wikidata.org/entity/Q154804>"
    ));
}

#[test]
fn test_reversibility_of_parse_with_service_statements_for_labels() {
    let query = r###"
PREFIX bd: <http://www.bigdata.com/rdf#>
PREFIX wikibase: <http://wikiba.se/ontology#>
PREFIX wd: <http://www.wikidata.org/entity/>
SELECT ?3 ?3Label WHERE {
     wd:Q5879 ?3 wd:Q2079 .
    # Johann Wolfgang von Goethe -- [Variable] -> Leipzig
    SERVICE wikibase:label { bd:serviceParam wikibase:language "[AUTO_LANGUAGE],en". }
}
"###;

    let result = query_to_vqg_wasm(query);
    let connections = parse_connections_json(&result);

    assert_eq!(connections.len(), 1);
    let c = &connections[0];

    assert_eq!(c["properties"][0]["id"], Value::String("?3".to_string()));
    assert_eq!(
        c["source"]["id"],
        Value::String("<http://www.wikidata.org/entity/Q5879>".to_string())
    );
    assert_eq!(
        c["target"]["id"],
        Value::String("<http://www.wikidata.org/entity/Q2079>".to_string())
    );

    // selected_for_projection exists and defaults/sets correctly in current model
    assert_eq!(c["properties"][0]["selectedForProjection"], Value::Bool(true));
    assert_eq!(c["source"]["selectedForProjection"], Value::Bool(true));
    assert_eq!(c["target"]["selectedForProjection"], Value::Bool(true));
}

#[test]
fn serialize_graph() {
    let graph = query_to_vqg_wasm(
        "SELECT ?3 WHERE { <http://www.wikidata.org/entity/Q5879> ?3 <http://www.wikidata.org/entity/Q152838> .}",
    );

    assert!(!graph.is_empty(), "Expected non-empty JSON output");
    let parsed: Value = serde_json::from_str(&graph).expect("Output should be valid JSON");
    let arr = parsed.as_array().expect("Output JSON should be an array");
    assert_eq!(arr.len(), 1, "Expected one connection");
    assert_eq!(arr[0]["properties"][0]["id"], Value::String("?3".to_string()));
}

#[test]
fn test_simple_query() {
    let graph = r###"[{"properties":[{"id":"?variable1","label":"Variable","description":"Variable Entity","prefix":{"iri":"","abbreviation":""},"dataSource":{"name":"","url":"","preferredLanguages":[],"propertyPrefix":{"url":"","abbreviation":""},"entityPrefix":{"url":"","abbreviation":""},"queryService":""}}],"source":{"id":"Q5879","label":"Johann Wolfgang von Goethe","description":"German writer, artist, natural scientist and politician (1749–1832)","prefix":{"iri":"http://www.wikidata.org/entity/","abbreviation":"wd"},"dataSource":{"name":"WikiData","url":"https://www.wikidata.org/w/api.php","preferredLanguages":["en"],"entityPrefix":{"url":"http://www.wikidata.org/entity/","abbreviation":"wd"},"propertyPrefix":{"url":"http://www.wikidata.org/prop/direct/","abbreviation":"wdt"},"queryService":"https://query.wikidata.org/ "}},"target":{"id":"Q154804","label":"Leipzig University","description":"university in Leipzig, Saxony, Germany (1409-)","prefix":{"iri":"http://www.wikidata.org/entity/","abbreviation":"wd"},"dataSource":{"name":"WikiData","url":"https://www.wikidata.org/w/api.php","preferredLanguages":["en"],"entityPrefix":{"url":"http://www.wikidata.org/entity/","abbreviation":"wd"},"propertyPrefix":{"url":"http://www.wikidata.org/prop/direct/","abbreviation":"wdt"},"queryService":"https://query.wikidata.org/ "}}}]"###;

    let result = vqg_to_query_wasm(graph, false, false);

    let expected = r###"PREFIX wd: <http://www.wikidata.org/entity/>
SELECT ?variable1 WHERE {
    wd:Q5879 ?variable1 wd:Q154804 .
}"###;

    assert_sparql_equivalent(&result, expected);
    assert!(
        result.contains("# Johann Wolfgang von Goethe -- [Variable] -> Leipzig University"),
        "Generated query should include comment labels"
    );
}

#[test]
fn test_projection_selection_with_selected_variable() {
    let graph = r###"[{"properties":[{"id":"P69","label":"educated at","prefix":{"iri":"http://www.wikidata.org/prop/direct/","abbreviation":"wdt"},"dataSource":{"name":"WikiData","url":"https://www.wikidata.org/w/api.php","preferredLanguages":["en"],"entityPrefix":{"url":"http://www.wikidata.org/entity/","abbreviation":"wd"},"propertyPrefix":{"url":"http://www.wikidata.org/prop/direct/","abbreviation":"wdt"},"queryService":"https://query.wikidata.org/ "},"selectedForProjection":false}],"source":{"id":"Q5879","label":"Johann Wolfgang von Goethe","prefix":{"iri":"http://www.wikidata.org/entity/","abbreviation":"wd"},"dataSource":{"name":"WikiData","url":"https://www.wikidata.org/w/api.php","preferredLanguages":["en"],"entityPrefix":{"url":"http://www.wikidata.org/entity/","abbreviation":"wd"},"propertyPrefix":{"url":"http://www.wikidata.org/prop/direct/","abbreviation":"wdt"},"queryService":"https://query.wikidata.org/ "},"selectedForProjection":false},"target":{"id":"?university","label":"Variable","prefix":{"iri":"","abbreviation":""},"dataSource":{"name":"","url":"","preferredLanguages":[],"propertyPrefix":{"url":"","abbreviation":""},"entityPrefix":{"url":"","abbreviation":""},"queryService":""},"selectedForProjection":true}}]"###;

    let result = vqg_to_query_wasm(graph, false, false);
    let select = select_line(&result);
    let vars = projection_vars(&select);

    assert_eq!(vars, vec!["?university"]);
    assert!(result.contains("wd:Q5879 wdt:P69 ?university"));
}

#[test]
fn test_projection_selection_with_no_selected_variables() {
    let graph = r###"[{"properties":[{"id":"P69","label":"educated at","prefix":{"iri":"http://www.wikidata.org/prop/direct/","abbreviation":"wdt"},"dataSource":{"name":"WikiData","url":"https://www.wikidata.org/w/api.php","preferredLanguages":["en"],"entityPrefix":{"url":"http://www.wikidata.org/entity/","abbreviation":"wd"},"propertyPrefix":{"url":"http://www.wikidata.org/prop/direct/","abbreviation":"wdt"},"queryService":"https://query.wikidata.org/ "},"selectedForProjection":false}],"source":{"id":"Q5879","label":"Johann Wolfgang von Goethe","prefix":{"iri":"http://www.wikidata.org/entity/","abbreviation":"wd"},"dataSource":{"name":"WikiData","url":"https://www.wikidata.org/w/api.php","preferredLanguages":["en"],"entityPrefix":{"url":"http://www.wikidata.org/entity/","abbreviation":"wd"},"propertyPrefix":{"url":"http://www.wikidata.org/prop/direct/","abbreviation":"wdt"},"queryService":"https://query.wikidata.org/ "},"selectedForProjection":false},"target":{"id":"?university","label":"Variable","prefix":{"iri":"","abbreviation":""},"dataSource":{"name":"","url":"","preferredLanguages":[],"propertyPrefix":{"url":"","abbreviation":""},"entityPrefix":{"url":"","abbreviation":""},"queryService":""},"selectedForProjection":false}}]"###;

    let result = vqg_to_query_wasm(graph, false, false);
    let select = select_line(&result);
    let vars = projection_vars(&select);

    assert_eq!(vars, vec!["*"]);
    assert!(result.contains("wd:Q5879 wdt:P69 ?university"));
}

#[test]
fn test_projection_selection_with_multiple_variables() {
    let graph = r###"[{"properties":[{"id":"?prop","label":"Variable","prefix":{"iri":"","abbreviation":""},"dataSource":{"name":"","url":"","preferredLanguages":[],"propertyPrefix":{"url":"","abbreviation":""},"entityPrefix":{"url":"","abbreviation":""},"queryService":""},"selectedForProjection":false}],"source":{"id":"?person","label":"Variable","prefix":{"iri":"","abbreviation":""},"dataSource":{"name":"","url":"","preferredLanguages":[],"propertyPrefix":{"url":"","abbreviation":""},"entityPrefix":{"url":"","abbreviation":""},"queryService":""},"selectedForProjection":true},"target":{"id":"?university","label":"Variable","prefix":{"iri":"","abbreviation":""},"dataSource":{"name":"","url":"","preferredLanguages":[],"propertyPrefix":{"url":"","abbreviation":""},"entityPrefix":{"url":"","abbreviation":""},"queryService":""},"selectedForProjection":true}}]"###;

    let result = vqg_to_query_wasm(graph, false, false);
    let select = select_line(&result);
    let vars = projection_vars(&select);

    assert!(vars.contains(&"?person"));
    assert!(vars.contains(&"?university"));
    assert!(!vars.contains(&"?prop"), "Property variable must not be projected");
    // ?prop should still appear in the triple pattern
    assert!(result.contains("?person ?prop ?university"));
}

#[test]
fn test_parse_query_with_specific_projection() {
    let query = r###"PREFIX wd: <http://www.wikidata.org/entity/>
PREFIX wdt: <http://www.wikidata.org/prop/direct/>
SELECT ?university WHERE {
     wd:Q5879 wdt:P69 ?university .
}"###;

    let result = query_to_vqg_wasm(query);
    let connections = parse_connections_json(&result);

    assert_eq!(connections.len(), 1);
    let c = &connections[0];

    // The projected variable should be present and marked as selected.
    assert_eq!(c["target"]["id"], Value::String("?university".to_string()));
    assert_eq!(c["target"]["selectedForProjection"], Value::Bool(true));
}

#[test]
fn test_backward_compatibility_without_projection_field() {
    // Old format without selected_for_projection field should default to true.
    let graph = r###"[{"properties":[{"id":"P69","label":"educated at","prefix":{"iri":"http://www.wikidata.org/prop/direct/","abbreviation":"wdt"}}],"source":{"id":"Q5879","label":"Johann Wolfgang von Goethe","prefix":{"iri":"http://www.wikidata.org/entity/","abbreviation":"wd"}},"target":{"id":"?university","label":"Variable","prefix":{"iri":"","abbreviation":""}}}]"###;

    let result = vqg_to_query_wasm(graph, false, false);
    let select = select_line(&result);
    let vars = projection_vars(&select);

    assert!(vars.contains(&"?university"));
    assert!(result.contains("wd:Q5879 wdt:P69 ?university"));
}

#[test]
fn test_query_to_vqg_empty_input() {
    assert_eq!(query_to_vqg_wasm(""), "[]");
}

#[test]
fn test_non_select_query_returns_empty_vqg() {
    let result = query_to_vqg_wasm("ASK WHERE { ?s ?p ?o . }");
    assert_eq!(result, "[]");
}

#[test]
fn test_label_service_and_prefixes_generation() {
    let graph = r###"[{"properties":[{"id":"P69","label":"educated at","prefix":{"iri":"http://www.wikidata.org/prop/direct/","abbreviation":"wdt"},"selectedForProjection":false}],"source":{"id":"Q5879","label":"Johann Wolfgang von Goethe","prefix":{"iri":"http://www.wikidata.org/entity/","abbreviation":"wd"},"selectedForProjection":false},"target":{"id":"?university","label":"Variable","prefix":{"iri":"","abbreviation":""},"selectedForProjection":true}}]"###;

    let result = vqg_to_query_wasm(graph, true, true);

    assert!(result.contains("PREFIX bd: <http://www.bigdata.com/rdf#>"));
    assert!(result.contains("PREFIX wikibase: <http://wikiba.se/ontology#>"));
    assert!(result.contains("SERVICE wikibase:label"));

    let select = select_line(&result);
    let vars = projection_vars(&select);
    assert!(vars.contains(&"?university"));
    assert!(vars.contains(&"?universityLabel"));

    // With service prefixes enabled, generated query should parse.
    assert!(
        SparqlParser::new().parse_query(&result).is_ok(),
        "Generated query with label service and prefixes should parse:\n{}",
        result
    );
}

#[test]
fn test_property_path_sequence_logic() {
    let graph = r###"[
        {
            "source": { "id": "?item", "label": "item", "prefix": { "iri": "", "abbreviation": "" } },
            "target": { "id": "Q5", "label": "Human", "prefix": { "iri": "http://www.wikidata.org/entity/", "abbreviation": "wd" } },
            "properties": [
                {
                    "id": "path",
                    "label": "instance of subclass of",
                    "prefix": { "iri": "", "abbreviation": "" },
                    "pathType": "sequence",
                    "properties": [
                        { "id": "P31", "label": "instance of", "prefix": { "iri": "http://www.wikidata.org/prop/direct/", "abbreviation": "wdt" } },
                        { "id": "P279", "label": "subclass of", "prefix": { "iri": "http://www.wikidata.org/prop/direct/", "abbreviation": "wdt" }, "modifier": "*" }
                    ]
                }
            ]
        }
    ]"###;

    let result = vqg_to_query_wasm(graph, false, false);
    assert!(result.contains("?item (wdt:P31/wdt:P279*) wd:Q5 ."));
}

#[test]
fn test_property_path_alternation_logic() {
    let graph = r###"[
        {
            "source": { "id": "?x", "label": "x", "prefix": { "iri": "", "abbreviation": "" } },
            "target": { "id": "TargetClass", "label": "Target", "prefix": { "iri": "http://example.org/", "abbreviation": "ex" } },
            "properties": [
                {
                    "id": "alt",
                    "label": "type or subclass",
                    "prefix": { "iri": "", "abbreviation": "" },
                    "pathType": "alternation",
                    "modifier": "+",
                    "properties": [
                        { "id": "type", "label": "type", "prefix": { "iri": "http://www.w3.org/1999/02/22-rdf-syntax-ns#", "abbreviation": "rdf" } },
                        { "id": "subClassOf", "label": "subclass", "prefix": { "iri": "http://www.w3.org/2000/01/rdf-schema#", "abbreviation": "rdfs" } }
                    ]
                }
            ]
        }
    ]"###;

    let result = vqg_to_query_wasm(graph, false, false);
    assert!(result.contains("(rdf:type|rdfs:subClassOf)+ ex:TargetClass"));
}

#[test]
fn test_multiple_properties_in_one_connection() {
    let graph = r###"[
        {
            "source": { "id": "?s", "label": "S", "prefix": { "iri": "", "abbreviation": "" } },
            "target": { "id": "?o", "label": "O", "prefix": { "iri": "", "abbreviation": "" } },
            "properties": [
                { "id": "p1", "label": "P1", "prefix": { "iri": "http://example.org/", "abbreviation": "ex" } },
                { "id": "p2", "label": "P2", "prefix": { "iri": "http://example.org/", "abbreviation": "ex" } }
            ]
        }
    ]"###;

    let result = vqg_to_query_wasm(graph, false, false);
    
    // Should generate two triple patterns
    assert!(result.contains("?s ex:p1 ?o ."));
    assert!(result.contains("?s ex:p2 ?o ."));
    
    let expected = r###"PREFIX ex: <http://example.org/>
SELECT ?o ?s WHERE {
    ?s ex:p1 ?o .
    ?s ex:p2 ?o .
}"###;
    assert_sparql_equivalent(&result, expected);
}

#[test]
fn test_distinct_variable_generates_per_variable_distinct() {
    let graph = r###"[{"properties":[{"id":"P69","label":"educated at","prefix":{"iri":"http://www.wikidata.org/prop/direct/","abbreviation":"wdt"},"selectedForProjection":false}],"source":{"id":"Q5879","label":"Johann Wolfgang von Goethe","prefix":{"iri":"http://www.wikidata.org/entity/","abbreviation":"wd"},"selectedForProjection":false,"distinct":false},"target":{"id":"?university","label":"Variable","prefix":{"iri":"","abbreviation":""},"selectedForProjection":true,"distinct":true}}]"###;

    let result = vqg_to_query_wasm(graph, false, false);
    let select = select_line(&result);

    // Per-variable DISTINCT: SELECT DISTINCT(?university) WHERE { ... }
    assert!(select.contains("DISTINCT(?university)"), "Expected DISTINCT(?university) in: {}", select);
    // SELECT keyword itself should not be followed by the global DISTINCT keyword
    assert!(!select.starts_with("SELECT DISTINCT "), "Should not use global SELECT DISTINCT, got: {}", select);
}

#[test]
fn test_no_distinct_generates_plain_select() {
    let graph = r###"[{"properties":[{"id":"P69","label":"educated at","prefix":{"iri":"http://www.wikidata.org/prop/direct/","abbreviation":"wdt"},"selectedForProjection":false}],"source":{"id":"Q5879","label":"Johann Wolfgang von Goethe","prefix":{"iri":"http://www.wikidata.org/entity/","abbreviation":"wd"},"selectedForProjection":false,"distinct":false},"target":{"id":"?university","label":"Variable","prefix":{"iri":"","abbreviation":""},"selectedForProjection":true,"distinct":false}}]"###;

    let result = vqg_to_query_wasm(graph, false, false);
    let select = select_line(&result);

    assert!(!select.contains("DISTINCT"), "Expected plain SELECT but got: {}", select);
    assert!(select.contains("?university"));
}

#[test]
fn test_parse_select_distinct_query_does_not_set_per_variable_distinct_flag() {
    // Importing SELECT DISTINCT ?university does NOT set distinct=true on individual variables.
    // Per-variable distinct is only set via the UI checkbox; the global DISTINCT keyword is ignored on import.
    let query = r###"PREFIX wd: <http://www.wikidata.org/entity/>
PREFIX wdt: <http://www.wikidata.org/prop/direct/>
SELECT DISTINCT ?university WHERE {
    wd:Q5879 wdt:P69 ?university .
}"###;

    let result = query_to_vqg_wasm(query);
    let connections = parse_connections_json(&result);

    assert_eq!(connections.len(), 1);
    let c = &connections[0];

    assert_eq!(c["target"]["id"], Value::String("?university".to_string()));
    assert_eq!(c["target"]["selectedForProjection"], Value::Bool(true));
    assert_eq!(c["target"]["distinct"], Value::Bool(false));
}

#[test]
fn test_parse_non_distinct_query_does_not_set_distinct_flag() {
    let query = r###"PREFIX wd: <http://www.wikidata.org/entity/>
PREFIX wdt: <http://www.wikidata.org/prop/direct/>
SELECT ?university WHERE {
    wd:Q5879 wdt:P69 ?university .
}"###;

    let result = query_to_vqg_wasm(query);
    let connections = parse_connections_json(&result);

    assert_eq!(connections.len(), 1);
    let c = &connections[0];

    assert_eq!(c["target"]["id"], Value::String("?university".to_string()));
    assert_eq!(c["target"]["distinct"], Value::Bool(false));
}

#[test]
fn test_distinct_only_applies_when_variable_is_selected_for_projection() {
    // distinct=true but selectedForProjection=false → DISTINCT(?var) must NOT appear
    let graph = r###"[{"properties":[{"id":"P69","label":"educated at","prefix":{"iri":"http://www.wikidata.org/prop/direct/","abbreviation":"wdt"},"selectedForProjection":false}],"source":{"id":"Q5879","label":"Goethe","prefix":{"iri":"http://www.wikidata.org/entity/","abbreviation":"wd"},"selectedForProjection":false,"distinct":false},"target":{"id":"?university","label":"Variable","prefix":{"iri":"","abbreviation":""},"selectedForProjection":false,"distinct":true}}]"###;

    let result = vqg_to_query_wasm(graph, false, false);

    assert!(!result.contains("DISTINCT"), "DISTINCT should not appear when variable is not selected for projection: {}", result);
}

#[test]
fn test_mixed_distinct_and_non_distinct_variables() {
    // ?university is distinct, ?person is not → only ?university gets DISTINCT(...)
    let graph = r###"[{"properties":[{"id":"P69","label":"educated at","prefix":{"iri":"http://www.wikidata.org/prop/direct/","abbreviation":"wdt"},"selectedForProjection":false}],"source":{"id":"?person","label":"Variable","prefix":{"iri":"","abbreviation":""},"selectedForProjection":true,"distinct":false},"target":{"id":"?university","label":"Variable","prefix":{"iri":"","abbreviation":""},"selectedForProjection":true,"distinct":true}}]"###;

    let result = vqg_to_query_wasm(graph, false, false);
    let select = select_line(&result);

    assert!(select.contains("DISTINCT(?university)"), "Expected DISTINCT(?university) in: {}", select);
    // ?person should appear as a plain variable (no DISTINCT wrapper)
    assert!(select.contains("?person"), "Expected ?person in: {}", select);
    assert!(!select.contains("DISTINCT(?person)"), "?person should not be wrapped in DISTINCT: {}", select);
}

#[test]
fn test_label_vars_not_distinct_even_when_base_var_is_distinct() {
    // With label service, ?universityLabel must NOT be wrapped in DISTINCT
    let graph = r###"[{"properties":[{"id":"P69","label":"educated at","prefix":{"iri":"http://www.wikidata.org/prop/direct/","abbreviation":"wdt"},"selectedForProjection":false}],"source":{"id":"Q5879","label":"Goethe","prefix":{"iri":"http://www.wikidata.org/entity/","abbreviation":"wd"},"selectedForProjection":false,"distinct":false},"target":{"id":"?university","label":"Variable","prefix":{"iri":"","abbreviation":""},"selectedForProjection":true,"distinct":true}}]"###;

    let result = vqg_to_query_wasm(graph, true, true);
    let select = select_line(&result);

    assert!(select.contains("DISTINCT(?university)"), "Expected DISTINCT(?university) in: {}", select);
    assert!(!select.contains("DISTINCT(?universityLabel)"), "Label variable must not be wrapped in DISTINCT: {}", select);
    assert!(select.contains("?universityLabel"), "Label variable should still appear: {}", select);
}

#[test]
fn test_complex_property_path_decomposition() {
    let query = "PREFIX ex: <http://example.org/> SELECT * WHERE { ?s ex:p1/ex:p2*|ex:p3? ?o . }";
    let json_str = query_to_vqg_wasm(query);
    let v: serde_json::Value = serde_json::from_str(&json_str).unwrap();
    
    // Expecting an alternation at the top level
    let properties = &v[0]["properties"];
    assert_eq!(properties[0]["pathType"], "alternation");
    
    let sub_props = &properties[0]["properties"];
    assert_eq!(sub_props.as_array().unwrap().len(), 2);
    
    // First part: ex:p1/ex:p2*
    assert_eq!(sub_props[0]["pathType"], "sequence");
    let seq_props = &sub_props[0]["properties"];
    assert_eq!(seq_props[0]["id"], "<http://example.org/p1>");
    assert_eq!(seq_props[1]["id"], "<http://example.org/p2>");
    assert_eq!(seq_props[1]["modifier"], "*");
    
    // Second part: ex:p3?
    assert_eq!(sub_props[1]["id"], "<http://example.org/p3>");
    assert_eq!(sub_props[1]["modifier"], "?");
}

#[test]
fn test_user_reported_issue_decomposition() {
    let query = r###"
        PREFIX wdt: <http://www.wikidata.org/prop/direct/>
        SELECT ?1 ?1Label ?2 ?2Label WHERE {
            ?1 (wdt:P31|wdt:P279)+ ?2 .
            SERVICE wikibase:label { bd:serviceParam wikibase:language "[AUTO_LANGUAGE],en". }
        }
    "###;
    let json_str = query_to_vqg_wasm(query);
    println!("Resulting JSON:\n{}", json_str);
    let v: serde_json::Value = serde_json::from_str(&json_str).unwrap();
    
    assert_eq!(v.as_array().unwrap().len(), 1);
    let connection = &v[0];
    let properties = &connection["properties"];
    
    // We expect decomposition: root property should have modifier "+" and pathType "alternation"
    // OR root property has modifier "+" and ONE child which is the alternation.
    // Based on my implementation of property_path_to_property:
    /*
        PropertyPathExpression::OneOrMore(inner) => {
            let mut p = property_path_to_property(inner);
            p.modifier = Some("+".to_string());
            p
        }
    */
    // So p should have path_type: alternation.
    
    assert_eq!(properties[0]["modifier"], "+");
    assert_eq!(properties[0]["pathType"], "alternation");
    assert_eq!(properties[0]["properties"].as_array().unwrap().len(), 2);
}

#[test]
fn test_triple_with_path_syntax_in_bgp_context() {
    // This is NOT a property path according to SPARQL 1.1 grammar if it's just a TriplePattern,
    // but many parsers handle it. Spargebra treats it as GraphPattern::Path if it uses path operators.
    let query = "SELECT * WHERE { ?s <http://example.org/p1>|<http://example.org/p2> ?o . }";
    let json_str = query_to_vqg_wasm(query);
    let v: serde_json::Value = serde_json::from_str(&json_str).unwrap();
    
    let properties = &v[0]["properties"];
    assert_eq!(properties[0]["pathType"], "alternation");
}

#[test]
fn test_query_with_no_projection_variables_and_path() {
    // Using a path that cannot be simplified to multiple triples
    // Parentheses around the whole path might force it to be treated as one Path expression
    let query = "SELECT * WHERE { ?s <http://example.org/p1>|<http://example.org/p2> ?o . }";
    let json_str = query_to_vqg_wasm(query);
    println!("JSON for SELECT * with path:\n{}", json_str);
    let v: serde_json::Value = serde_json::from_str(&json_str).unwrap();
    
    assert_eq!(v.as_array().unwrap().len(), 1);
    assert_eq!(v[0]["properties"][0]["pathType"], "alternation");
}

#[test]
fn test_invalid_query_resilience() {
    let invalid_query = "some mumbo jumbo";
    // This should not panic or cause index out of bounds
    let result = query_to_vqg_wasm(invalid_query);
    assert_eq!(result, "[]");
}

#[test]
fn test_partially_invalid_query_resilience() {
    let query = "SELECT * WHERE { ?s ?p ?o . some nonsense }";
    let result = query_to_vqg_wasm(query);
    // Even if it fails to parse, it should not panic
    // According to src/lib.rs, if it fails to parse, it tries to add prefixes and retry.
    // If it still fails, it calls _helper(Err(error)) which returns vec![]
    assert_eq!(result, "[]");
}

#[test]
fn test_invalid_json_to_query_wasm() {
    let invalid_json = "not a json";
    let result = vqg_to_query_wasm(invalid_json, false, false);
    assert_eq!(result, "");
}

#[test]
fn test_structured_alternation_to_query() {
    let connections = r###"[
        {
            "source": { "id": "?x", "label": "x", "prefix": { "iri": "", "abbreviation": "" } },
            "target": { "id": "ex:Target", "label": "Target", "prefix": { "iri": "http://example.org/", "abbreviation": "ex" } },
            "properties": [
                {
                    "id": "root",
                    "label": "path",
                    "prefix": { "iri": "", "abbreviation": "" },
                    "pathType": "alternation",
                    "modifier": "+",
                    "properties": [
                        { "id": "type", "label": "type", "prefix": { "iri": "http://www.w3.org/1999/02/22-rdf-syntax-ns#", "abbreviation": "rdf" } },
                        { "id": "subClassOf", "label": "subclass", "prefix": { "iri": "http://www.w3.org/2000/01/rdf-schema#", "abbreviation": "rdfs" } }
                    ]
                }
            ]
        }
    ]"###;

    let query = vqg_to_query_wasm(connections, false, false);
    println!("Query:\n{}", query);
    assert!(query.contains("(rdf:type|rdfs:subClassOf)+"));
}
