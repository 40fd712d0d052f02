use collab_ops::error::AccessError;
use collab_ops::folder::{FolderTree, NodeKind};
use collab_ops::ops::get_published_view;
use collab_ops::publish::{to_published_outline, PublishedView};
use collab_ops::storage::{
    CollabStorage, CollabType, DecodeRule, EncodedCollab, FixtureDecoder, NamespaceRow,
    PublishStore, PublishedViewRow,
};

fn s(x: &str) -> String {
    x.to_string()
}

fn node(id: &str, children: Vec<FolderTree>) -> FolderTree {
    FolderTree {
        id: s(id),
        name: s(id),
        kind: NodeKind::Document,
        children,
    }
}

fn pview(id: &str, children: Vec<PublishedView>) -> PublishedView {
    PublishedView {
        id: s(id),
        name: s(id),
        kind: NodeKind::Document,
        children,
    }
}

/// root -> [a, b -> [c]].
fn sample_tree() -> FolderTree {
    node("root", vec![node("a", vec![]), node("b", vec![node("c", vec![])])])
}

fn sample_storage() -> CollabStorage {
    CollabStorage {
        docs: vec![EncodedCollab {
            object_id: s("w1"),
            collab_type: CollabType::Folder,
            payload: vec![1, 2, 3],
        }],
    }
}

fn sample_decoder() -> FixtureDecoder {
    FixtureDecoder {
        rules: vec![DecodeRule {
            payload: vec![1, 2, 3],
            tree: sample_tree(),
        }],
    }
}

fn publish_store(published: Vec<&str>) -> PublishStore {
    PublishStore {
        namespaces: vec![NamespaceRow {
            namespace: s("ns1"),
            workspace_id: s("w1"),
        }],
        published: published
            .into_iter()
            .map(|id| PublishedViewRow {
                workspace_id: s("w1"),
                view_id: s(id),
            })
            .collect(),
    }
}

#[test]
fn ancestor_of_published_node_is_retained() {
    // Workspace w1 holds root -> [a, b -> [c]]; published ids = {c}.
    // Expected: root -> [b -> [c]]; a is pruned, b stays as the ancestor.
    let store = publish_store(vec!["c"]);
    let result =
        get_published_view(&sample_storage(), &sample_decoder(), s("ns1"), &store).unwrap();
    assert_eq!(
        result,
        pview("root", vec![pview("b", vec![pview("c", vec![])])])
    );
}

#[test]
fn empty_published_set_yields_root_only_view() {
    let store = publish_store(vec![]);
    let result =
        get_published_view(&sample_storage(), &sample_decoder(), s("ns1"), &store).unwrap();
    assert_eq!(result, pview("root", vec![]));
}

#[test]
fn subtree_without_published_descendant_is_pruned() {
    let store = publish_store(vec!["a"]);
    let result =
        get_published_view(&sample_storage(), &sample_decoder(), s("ns1"), &store).unwrap();
    assert_eq!(result, pview("root", vec![pview("a", vec![])]));
}

#[test]
fn published_leaf_and_ancestor_outline_direct() {
    let ids = vec![s("c")];
    let outline = to_published_outline(&sample_tree(), &ids);
    assert_eq!(
        outline,
        pview("root", vec![pview("b", vec![pview("c", vec![])])])
    );
}

#[test]
fn unmapped_namespace_is_namespace_not_found() {
    let store = publish_store(vec!["c"]);
    assert_eq!(
        get_published_view(&sample_storage(), &sample_decoder(), s("other"), &store),
        Err(AccessError::NamespaceNotFound)
    );
}

#[test]
fn published_view_of_missing_document_is_not_found() {
    let store = publish_store(vec!["c"]);
    let empty_storage = CollabStorage { docs: vec![] };
    assert_eq!(
        get_published_view(&empty_storage, &sample_decoder(), s("ns1"), &store),
        Err(AccessError::NotFound)
    );
}

#[test]
fn published_view_of_malformed_document_fails_materialization() {
    let store = publish_store(vec!["c"]);
    let decoder = FixtureDecoder { rules: vec![] };
    assert_eq!(
        get_published_view(&sample_storage(), &decoder, s("ns1"), &store),
        Err(AccessError::MaterializationFailure)
    );
}

#[test]
fn published_ids_of_other_workspaces_are_ignored() {
    let mut store = publish_store(vec![]);
    store.published.push(PublishedViewRow {
        workspace_id: s("w2"),
        view_id: s("c"),
    });
    let result =
        get_published_view(&sample_storage(), &sample_decoder(), s("ns1"), &store).unwrap();
    assert_eq!(result, pview("root", vec![]));
}
