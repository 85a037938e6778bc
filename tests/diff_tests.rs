use toeditor::diff::{diff_trees, Change};
use toeditor::json::{JsonMember, JsonNode, JsonValue};
use toeditor::models::version::diff_snapshots;
use toeditor::models::Snapshot;
use toeditor::pipeline::{PipelineError, SnapshotStore};

#[test]
fn test_diff_snapshots_identical() {
    let s1 = Snapshot::new(1, 1, "{\"name\":\"A\"}".to_string());
    let s2 = Snapshot::new(1, 2, "{\"name\":\"A\"}".to_string());
    let diff = diff_snapshots(&s1, &s2);
    assert!(diff.contains("No data changes"));
}

#[test]
fn test_diff_snapshots_field_changed() {
    let s1 = Snapshot::new(1, 1, "{\"name\":\"A\"}".to_string());
    let s2 = Snapshot::new(1, 2, "{\"name\":\"B\"}".to_string());
    let diff = diff_snapshots(&s1, &s2);
    assert!(diff.contains("Changed: name"));
    assert!(diff.contains("Version 1 -> 2"));
}

#[test]
fn test_diff_snapshots_field_added() {
    let s1 = Snapshot::new(1, 1, "{\"name\":\"A\"}".to_string());
    let s2 = Snapshot::new(1, 2, "{\"name\":\"A\",\"country\":\"US\"}".to_string());
    let diff = diff_snapshots(&s1, &s2);
    assert!(diff.contains("Added: country"));
}

#[test]
fn test_diff_snapshots_field_removed() {
    let s1 = Snapshot::new(1, 1, "{\"name\":\"A\",\"era\":\"2020\"}".to_string());
    let s2 = Snapshot::new(1, 2, "{\"name\":\"A\"}".to_string());
    let diff = diff_snapshots(&s1, &s2);
    assert!(diff.contains("Removed: era"));
}

#[test]
fn test_diff_snapshots_array_length_change() {
    let s1 = Snapshot::new(1, 1, "{\"units\":[1,2]}".to_string());
    let s2 = Snapshot::new(1, 2, "{\"units\":[1,2,3]}".to_string());
    let diff = diff_snapshots(&s1, &s2);
    assert!(diff.contains("array length 2 -> 3"));
}

#[test]
fn test_diff_snapshots_invalid_json() {
    let s1 = Snapshot::new(1, 1, "not json".to_string());
    let s2 = Snapshot::new(1, 2, "also not json".to_string());
    let diff = diff_snapshots(&s1, &s2);
    assert!(diff.contains("could not parse as JSON"));
}

#[test]
fn diff_same_snapshot_reports_no_changes_only() {
    let s = Snapshot::new(1, 3, "{\"name\":\"A\",\"units\":[]}".to_string());
    assert_eq!(diff_snapshots(&s, &s), "Version 3 -> 3\nNo data changes.");
}

#[test]
fn diff_field_changed_exact_report() {
    let s1 = Snapshot::new(1, 1, "{\"name\":\"A\"}".to_string());
    let s2 = Snapshot::new(1, 2, "{\"name\":\"B\"}".to_string());
    assert_eq!(diff_snapshots(&s1, &s2), "Version 1 -> 2\nChanged: name (\"A\" -> \"B\")");
}

#[test]
fn diff_array_growth_reports_length_only() {
    let s1 = Snapshot::new(1, 1, "{\"units\":[1,2]}".to_string());
    let s2 = Snapshot::new(1, 2, "{\"units\":[1,2,3]}".to_string());
    assert_eq!(diff_snapshots(&s1, &s2), "Version 1 -> 2\nChanged: units (array length 2 -> 3)");
}

#[test]
fn diff_nested_paths_and_items() {
    let s1 = Snapshot::new(1, 1, "{\"units\":[{\"name\":\"A\"},{\"name\":\"B\"}]}".to_string());
    let s2 = Snapshot::new(1, 2, "{\"units\":[{\"name\":\"A\"},{\"name\":\"C\",\"x\":1}]}".to_string());
    assert_eq!(
        diff_snapshots(&s1, &s2),
        "Version 1 -> 2\nChanged: units[1].name (\"B\" -> \"C\")\nAdded: units[1].x"
    );
}

#[test]
fn diff_type_change_and_one_bad_side() {
    let s1 = Snapshot::new(1, -1, "{\"a\":{\"b\":1}}".to_string());
    let s2 = Snapshot::new(1, 2, "{\"a\":[1]}".to_string());
    assert_eq!(diff_snapshots(&s1, &s2), "Version -1 -> 2\nChanged: a ({\"b\":1} -> [1])");
    let bad = Snapshot::new(1, 3, "{".to_string());
    assert_eq!(diff_snapshots(&s1, &bad), "Version -1 -> 3\nData format changed (could not parse as JSON).");
}

#[test]
fn diff_equal_trees_with_different_text() {
    let s1 = Snapshot::new(1, 1, "{\"a\": 1}".to_string());
    let s2 = Snapshot::new(1, 2, "{\"a\":1}".to_string());
    assert_eq!(diff_snapshots(&s1, &s2), "Version 1 -> 2\nData changed but no structural differences detected.");
}

#[test]
fn diff_added_and_removed_swap() {
    let a = Snapshot::new(1, 1, "{\"name\":\"A\",\"era\":\"2020\"}".to_string());
    let b = Snapshot::new(1, 2, "{\"name\":\"A\",\"country\":\"US\"}".to_string());
    let forward = diff_snapshots(&a, &b);
    let backward = diff_snapshots(&b, &a);
    assert!(forward.contains("Added: country"));
    assert!(forward.contains("Removed: era"));
    assert!(backward.contains("Removed: country"));
    assert!(backward.contains("Added: era"));
}

#[test]
fn diff_trees_records() {
    let scalar = |t: &str| JsonValue { text: t.to_string(), node: JsonNode::Scalar };
    let old = JsonValue {
        text: "{\"a\":1,\"b\":[1,2]}".to_string(),
        node: JsonNode::Object(vec![
            JsonMember { key: "a".to_string(), value: scalar("1") },
            JsonMember {
                key: "b".to_string(),
                value: JsonValue { text: "[1,2]".to_string(), node: JsonNode::Array(vec![scalar("1"), scalar("2")]) },
            },
        ]),
    };
    let new = JsonValue {
        text: "{\"b\":[1]}".to_string(),
        node: JsonNode::Object(vec![JsonMember {
            key: "b".to_string(),
            value: JsonValue { text: "[1]".to_string(), node: JsonNode::Array(vec![scalar("1")]) },
        }]),
    };
    let changes = diff_trees(&old, &new);
    assert_eq!(changes.len(), 2);
    assert!(matches!(&changes[0], Change::Removed { path } if path == "a"));
    assert!(matches!(&changes[1], Change::LengthChanged { path, old_len: 2, new_len: 1 } if path == "b"));
    assert!(diff_trees(&old, &old).is_empty());
}

#[test]
fn store_commit_and_diff() {
    let mut store = SnapshotStore::new();
    assert!(store.commit(Snapshot::new(7, 1, "{\"name\":\"A\"}".to_string())).is_ok());
    assert!(store.commit(Snapshot::new(7, 2, "{\"name\":\"B\"}".to_string())).is_ok());
    assert_eq!(
        store.commit(Snapshot::new(7, 2, "{}".to_string())),
        Err(PipelineError::DuplicateVersion { library_id: 7, version: 2 })
    );
    assert_eq!(store.get(7, 2).map(|s| s.data.clone()), Some("{\"name\":\"B\"}".to_string()));
    assert_eq!(store.diff(7, 1, 2), Ok("Version 1 -> 2\nChanged: name (\"A\" -> \"B\")".to_string()));
    assert_eq!(store.diff(7, 1, 9), Err(PipelineError::VersionNotFound { library_id: 7, version: 9 }));
    assert_eq!(store.diff(8, 1, 2), Err(PipelineError::VersionNotFound { library_id: 8, version: 1 }));
}
