use query_by_graph::{Connection, Entity, Modifier, PathType, Prefix, Property};

fn sample() -> Connection {
    let wdt = Prefix::new("http://www.wikidata.org/prop/direct/".to_string(), "wdt".to_string());
    let leaf = Property {
        id: "P279".to_string(),
        label: "subclass of".to_string(),
        prefix: wdt.duplicate(),
        selected_for_projection: false,
        properties: vec![],
        path_type: None,
        modifier: Some(Modifier::ZeroOrMore),
    };
    let root = Property {
        id: "root".to_string(),
        label: "path".to_string(),
        prefix: Prefix::empty(),
        selected_for_projection: true,
        properties: vec![
            leaf.duplicate(),
            Property {
                id: "inner".to_string(),
                label: "inner".to_string(),
                prefix: Prefix::empty(),
                selected_for_projection: true,
                properties: vec![leaf],
                path_type: Some(PathType::Alternation),
                modifier: Some(Modifier::Reverse),
            },
        ],
        path_type: Some(PathType::Sequence),
        modifier: None,
    };
    Connection {
        source: Entity {
            id: "?item".to_string(),
            label: "item".to_string(),
            prefix: Prefix::empty(),
            selected_for_projection: true,
            distinct: true,
        },
        target: Entity {
            id: "Q5".to_string(),
            label: "Human".to_string(),
            prefix: Prefix::new("http://www.wikidata.org/entity/".to_string(), "wd".to_string()),
            selected_for_projection: false,
            distinct: false,
        },
        properties: vec![root],
    }
}

#[test]
fn empty_prefix_has_no_namespace() {
    let none = Prefix::empty();
    assert_eq!(none.iri, "");
    assert_eq!(none.abbreviation, "");
}

#[test]
fn new_prefix_holds_its_parts() {
    let wd = Prefix::new("http://www.wikidata.org/entity/".to_string(), "wd".to_string());
    assert_eq!(wd.iri, "http://www.wikidata.org/entity/");
    assert_eq!(wd.abbreviation, "wd");
}

#[test]
fn copies_are_equal_to_what_they_copy() {
    let connection = sample();
    assert_eq!(connection.duplicate(), connection);
    assert_eq!(connection.source.duplicate(), connection.source);
    assert_eq!(connection.target.duplicate(), connection.target);
    assert_eq!(connection.properties[0].duplicate(), connection.properties[0]);
    assert_eq!(connection.properties[0].properties[1].duplicate().properties.len(), 1);
}

#[test]
fn copy_is_a_value_of_its_own() {
    let connection = sample();
    let mut copy = connection.duplicate();
    copy.properties[0].properties[1].properties[0].id = "P31".to_string();
    copy.source.distinct = false;
    assert_eq!(connection, sample());
    assert_ne!(copy, connection);
}
