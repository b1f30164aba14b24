use roadmap_store::store::{MapRecord, NodeRecord, Store, StoreError};

fn map(uuid: &str, title: &str) -> MapRecord {
    MapRecord {
        uuid: uuid.to_string(),
        title: title.to_string(),
        description: String::new(),
    }
}

fn node(uuid: &str, parent: Option<&str>, roadmap: &str) -> NodeRecord {
    NodeRecord {
        uuid: uuid.to_string(),
        title: format!("node {uuid}"),
        description: String::new(),
        node_type: "topic".to_string(),
        parent_node: parent.map(|p| p.to_string()),
        roadmap_uuid: roadmap.to_string(),
    }
}

#[test]
fn insert_map_then_node_with_its_uuid_succeeds() {
    let mut store = Store::new();
    assert_eq!(store.insert_map(map("m1", "Rust")), Ok(()));
    assert_eq!(store.insert_node(node("n1", None, "m1")), Ok(()));
    assert!(store.contains_map(&"m1".to_string()));
    assert!(store.contains_node(&"n1".to_string()));
}

#[test]
fn node_with_unknown_roadmap_is_rejected() {
    let mut store = Store::new();
    assert_eq!(store.insert_map(map("m1", "Rust")), Ok(()));
    assert_eq!(
        store.insert_node(node("n1", None, "m2")),
        Err(StoreError::UnknownRoadmap)
    );
    assert!(!store.contains_node(&"n1".to_string()));
}

#[test]
fn duplicate_map_uuid_is_rejected() {
    let mut store = Store::new();
    assert_eq!(store.insert_map(map("m1", "Rust")), Ok(()));
    assert_eq!(
        store.insert_map(map("m1", "Another title")),
        Err(StoreError::DuplicateMapUuid)
    );
    assert_eq!(store.maps.len(), 1);
}

#[test]
fn duplicate_node_uuid_is_rejected() {
    let mut store = Store::new();
    assert_eq!(store.insert_map(map("m1", "Rust")), Ok(()));
    assert_eq!(store.insert_node(node("n1", None, "m1")), Ok(()));
    assert_eq!(
        store.insert_node(node("n1", None, "m1")),
        Err(StoreError::DuplicateNodeUuid)
    );
    assert_eq!(store.nodes.len(), 1);
}

#[test]
fn parent_must_exist() {
    let mut store = Store::new();
    assert_eq!(store.insert_map(map("m1", "Rust")), Ok(()));
    assert_eq!(
        store.insert_node(node("n1", Some("missing"), "m1")),
        Err(StoreError::InvalidParent)
    );
}

#[test]
fn parent_must_belong_to_the_same_roadmap() {
    let mut store = Store::new();
    assert_eq!(store.insert_map(map("m1", "Rust")), Ok(()));
    assert_eq!(store.insert_map(map("m2", "Go")), Ok(()));
    assert_eq!(store.insert_node(node("other", None, "m2")), Ok(()));
    assert_eq!(
        store.insert_node(node("n1", Some("other"), "m1")),
        Err(StoreError::InvalidParent)
    );
    assert_eq!(store.insert_node(node("n2", Some("other"), "m2")), Ok(()));
}

#[test]
fn join_returns_exactly_the_nodes_of_the_map() {
    let mut store = Store::new();
    assert_eq!(store.insert_map(map("m1", "Rust")), Ok(()));
    assert_eq!(store.insert_map(map("m2", "Go")), Ok(()));
    assert_eq!(store.insert_node(node("a", None, "m1")), Ok(()));
    assert_eq!(store.insert_node(node("b", None, "m2")), Ok(()));
    assert_eq!(store.insert_node(node("c", None, "m1")), Ok(()));
    assert_eq!(store.insert_node(node("d", None, "m2")), Ok(()));
    let of_m1: Vec<String> = store
        .nodes_of_map(&"m1".to_string())
        .into_iter()
        .map(|n| n.uuid)
        .collect();
    assert_eq!(of_m1, vec!["a".to_string(), "c".to_string()]);
    let of_m2: Vec<String> = store
        .nodes_of_map(&"m2".to_string())
        .into_iter()
        .map(|n| n.uuid)
        .collect();
    assert_eq!(of_m2, vec!["b".to_string(), "d".to_string()]);
    assert_eq!(store.nodes_of_map(&"m3".to_string()).len(), 0);
}

#[test]
fn walking_parents_yields_the_ordered_ancestor_list() {
    // Chain: node_a -> node_b (parent) -> node_c (grandparent), all in one
    // roadmap; walking parent_node from node_a visits node_b, then ends at
    // node_c.
    let mut store = Store::new();
    assert_eq!(store.insert_map(map("m1", "Rust")), Ok(()));
    assert_eq!(store.insert_node(node("node_c", None, "m1")), Ok(()));
    assert_eq!(store.insert_node(node("node_b", Some("node_c"), "m1")), Ok(()));
    assert_eq!(store.insert_node(node("node_a", Some("node_b"), "m1")), Ok(()));
    assert_eq!(
        store.ancestors(&"node_a".to_string()),
        Some(vec!["node_b".to_string(), "node_c".to_string()])
    );
    assert_eq!(
        store.ancestors(&"node_b".to_string()),
        Some(vec!["node_c".to_string()])
    );
    assert_eq!(store.ancestors(&"node_c".to_string()), Some(vec![]));
    assert_eq!(store.ancestors(&"absent".to_string()), None);
}

#[test]
fn rejected_inserts_leave_the_store_unchanged() {
    let mut store = Store::new();
    assert_eq!(store.insert_map(map("m1", "Rust")), Ok(()));
    assert_eq!(store.insert_node(node("n1", None, "m1")), Ok(()));
    let _ = store.insert_map(map("m1", "changed"));
    let _ = store.insert_node(node("n2", None, "nowhere"));
    let _ = store.insert_node(node("n3", Some("n9"), "m1"));
    assert_eq!(store.maps.len(), 1);
    assert_eq!(store.maps[0].title, "Rust");
    assert_eq!(store.nodes.len(), 1);
    assert_eq!(store.nodes[0].uuid, "n1");
}

#[test]
fn find_node_reports_the_position() {
    let mut store = Store::new();
    assert_eq!(store.insert_map(map("m1", "Rust")), Ok(()));
    assert_eq!(store.insert_node(node("n1", None, "m1")), Ok(()));
    assert_eq!(store.insert_node(node("n2", None, "m1")), Ok(()));
    assert_eq!(store.find_node(&"n2".to_string()), Some(1));
    assert_eq!(store.find_node(&"n9".to_string()), None);
}
