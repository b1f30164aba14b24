use roadmap_store::schema::{maps_table, nodes_table, nodes_to_maps_join};

#[test]
fn maps_table_is_declared_as_specified() {
    let t = maps_table();
    assert_eq!(t.name, "maps");
    assert_eq!(t.primary_key, "uuid");
    let names: Vec<String> = t.columns.iter().map(|c| c.name.clone()).collect();
    assert_eq!(
        names,
        vec!["uuid".to_string(), "title".to_string(), "description".to_string()]
    );
    assert!(t.columns.iter().all(|c| !c.nullable));
}

#[test]
fn nodes_table_is_declared_as_specified() {
    let t = nodes_table();
    assert_eq!(t.name, "nodes");
    assert_eq!(t.primary_key, "uuid");
    let names: Vec<String> = t.columns.iter().map(|c| c.name.clone()).collect();
    assert_eq!(
        names,
        vec![
            "uuid".to_string(),
            "title".to_string(),
            "description".to_string(),
            "node_type".to_string(),
            "parent_node".to_string(),
            "roadmap_uuid".to_string(),
        ]
    );
    for c in &t.columns {
        assert_eq!(c.nullable, c.name == "parent_node");
    }
}

#[test]
fn join_relation_links_nodes_to_maps() {
    let j = nodes_to_maps_join();
    assert_eq!(j.child_table, "nodes");
    assert_eq!(j.child_column, "roadmap_uuid");
    assert_eq!(j.parent_table, "maps");
    assert_eq!(j.parent_column, "uuid");
    // The joined column exists, required, in the nodes table, and the
    // parent column is the maps table's primary key.
    let nodes = nodes_table();
    assert!(nodes
        .columns
        .iter()
        .any(|c| c.name == j.child_column && !c.nullable));
    assert_eq!(maps_table().primary_key, j.parent_column);
}
