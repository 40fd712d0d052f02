use collab_ops::error::AccessError;
use collab_ops::folder::{to_folder_view, FolderTree, FolderView, NodeKind};
use collab_ops::ops::{
    get_latest_collab_encoded, get_latest_collab_folder, get_user_workspace_structure, DEPTH_LIMIT,
};
use collab_ops::storage::{CollabStorage, CollabType, DecodeRule, EncodedCollab, FixtureDecoder};

fn s(x: &str) -> String {
    x.to_string()
}

fn node(id: &str, children: Vec<FolderTree>) -> FolderTree {
    FolderTree {
        id: s(id),
        name: s(id),
        kind: NodeKind::Document,
        children,
    }
}

fn view(id: &str, children: Vec<FolderView>) -> FolderView {
    FolderView {
        id: s(id),
        name: s(id),
        kind: NodeKind::Document,
        children,
    }
}

/// root -> [a, b -> [c]]: a tree of depth 2.
fn sample_tree() -> FolderTree {
    node("root", vec![node("a", vec![]), node("b", vec![node("c", vec![])])])
}

fn sample_storage() -> CollabStorage {
    CollabStorage {
        docs: vec![EncodedCollab {
            object_id: s("w1"),
            collab_type: CollabType::Folder,
            payload: vec![1, 2, 3],
        }],
    }
}

fn sample_decoder() -> FixtureDecoder {
    FixtureDecoder {
        rules: vec![DecodeRule {
            payload: vec![1, 2, 3],
            tree: sample_tree(),
        }],
    }
}

fn view_depth(v: &FolderView) -> u32 {
    let mut depth = 0;
    for c in &v.children {
        let d = view_depth(c) + 1;
        if d > depth {
            depth = d;
        }
    }
    depth
}

#[test]
fn depth_zero_yields_root_only() {
    let v = to_folder_view(&sample_tree(), 0);
    assert_eq!(v, view("root", vec![]));
}

#[test]
fn depth_one_prunes_grandchildren() {
    let v = to_folder_view(&sample_tree(), 1);
    assert_eq!(v, view("root", vec![view("a", vec![]), view("b", vec![])]));
}

#[test]
fn depth_two_keeps_whole_tree() {
    let v = to_folder_view(&sample_tree(), 2);
    assert_eq!(
        v,
        view(
            "root",
            vec![view("a", vec![]), view("b", vec![view("c", vec![])])]
        )
    );
}

#[test]
fn structure_depth_is_min_of_request_and_tree_depth() {
    let storage = sample_storage();
    let decoder = sample_decoder();
    for d in 0..=DEPTH_LIMIT {
        let v = get_user_workspace_structure(&storage, &decoder, 1, s("w1"), d).unwrap();
        let expected = if d < 2 { d } else { 2 };
        assert_eq!(view_depth(&v), expected);
    }
}

#[test]
fn depth_over_limit_is_rejected_before_any_fetch() {
    // The storage is empty: a fetch would fail with NotFound, so the
    // DepthLimitExceeded error shows the request was rejected up front.
    let storage = CollabStorage { docs: vec![] };
    let decoder = FixtureDecoder { rules: vec![] };
    assert_eq!(
        get_user_workspace_structure(&storage, &decoder, 1, s("w1"), 11),
        Err(AccessError::DepthLimitExceeded)
    );
}

#[test]
fn missing_document_is_not_found() {
    let storage = CollabStorage { docs: vec![] };
    let decoder = sample_decoder();
    assert_eq!(
        get_user_workspace_structure(&storage, &decoder, 1, s("w1"), 3),
        Err(AccessError::NotFound)
    );
}

#[test]
fn malformed_payload_fails_materialization() {
    let storage = sample_storage();
    // The decoder knows no rule for the stored payload.
    let decoder = FixtureDecoder { rules: vec![] };
    assert_eq!(
        get_user_workspace_structure(&storage, &decoder, 1, s("w1"), 3),
        Err(AccessError::MaterializationFailure)
    );
    assert_eq!(
        get_latest_collab_folder(&storage, &decoder, &1, &s("w1")),
        Err(AccessError::MaterializationFailure)
    );
}

#[test]
fn latest_folder_decodes_the_fixture_tree() {
    let storage = sample_storage();
    let decoder = sample_decoder();
    let folder = get_latest_collab_folder(&storage, &decoder, &1, &s("w1")).unwrap();
    assert_eq!(folder, sample_tree());
}

#[test]
fn latest_encoded_returns_the_stored_payload() {
    let storage = sample_storage();
    let encoded =
        get_latest_collab_encoded(&storage, &1, &s("w1"), &s("w1"), CollabType::Folder).unwrap();
    assert_eq!(encoded.object_id, s("w1"));
    assert_eq!(encoded.collab_type, CollabType::Folder);
    assert_eq!(encoded.payload, vec![1, 2, 3]);
}

#[test]
fn latest_encoded_missing_object_is_not_found() {
    let storage = sample_storage();
    assert_eq!(
        get_latest_collab_encoded(&storage, &1, &s("w1"), &s("other"), CollabType::Folder)
            .err(),
        Some(AccessError::NotFound)
    );
}
