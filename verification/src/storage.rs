use vstd::prelude::*;

use crate::error::AccessError;
use crate::folder::{clone_tree, tree_model, FolderNode, FolderTree};

verus! {

/// The type of a collaborative document.
#[derive(Clone, Copy, Debug, PartialEq, Eq, Structural)]
pub enum CollabType {
    Folder,
    Document,
    Database,
    Unknown,
}

/// An opaque encoded document: a versioned byte payload together with the
/// object it encodes and its type.
pub struct EncodedCollab {
    pub object_id: String,
    pub collab_type: CollabType,
    pub payload: Vec<u8>,
}

/// The in-memory model of the document store: the latest encoded document per
/// object id; an earlier row shadows later ones with the same id.
pub struct CollabStorage {
    pub docs: Vec<EncodedCollab>,
}

/// The first document with the given object id, if any.
pub open spec fn doc_lookup(s: Seq<EncodedCollab>, oid: Seq<char>) -> Option<EncodedCollab>
    decreases s,
{
    if s.len() == 0 {
        None
    } else if s.first().object_id@ == oid {
        Some(s.first())
    } else {
        doc_lookup(s.drop_first(), oid)
    }
}

/// Copies a byte payload.
pub fn clone_bytes(v: &Vec<u8>) -> (r: Vec<u8>)
    ensures
        r@ == v@,
{
    let mut r: Vec<u8> = Vec::new();
    let n = v.len();
    let mut i: usize = 0;
    while i < n
        invariant
            n == v@.len(),
            i <= n,
            r@ == v@.take(i as int),
        decreases n - i,
    {
        r.push(v[i]);
        proof {
            assert(v@.take(i as int + 1) =~= v@.take(i as int).push(v@[i as int]));
        }
        i = i + 1;
    }
    proof {
        assert(v@.take(n as int) =~= v@);
    }
    r
}

/// Whether two byte payloads are equal.
pub fn bytes_eq(a: &Vec<u8>, b: &Vec<u8>) -> (r: bool)
    ensures
        r <==> a@ == b@,
{
    if a.len() != b.len() {
        proof {
            assert(a@ != b@);
        }
        return false;
    }
    let n = a.len();
    let mut i: usize = 0;
    while i < n
        invariant
            n == a@.len(),
            n == b@.len(),
            i <= n,
            forall|j: int| 0 <= j < i ==> a@[j] == b@[j],
        decreases n - i,
    {
        if a[i] != b[i] {
            return false;
        }
        i = i + 1;
    }
    proof {
        assert(a@ =~= b@);
    }
    true
}

/// The capability interface to the decoder that materializes an encoded
/// folder document into a folder tree.
pub trait FolderDecoder: Sized {
    /// What the decoder yields per payload: a folder model, or nothing when
    /// the payload is malformed.
    spec fn decode_spec(&self, payload: Seq<u8>) -> Option<FolderNode>;

    /// Decodes a payload on behalf of the given origin; a malformed payload
    /// yields `MaterializationFailure` and no partial tree.
    fn decode(&self, uid: i64, payload: &Vec<u8>, object_id: &String) -> (r: Result<
        FolderTree,
        AccessError,
    >)
        ensures
            match self.decode_spec(payload@) {
                Some(n) => r matches Ok(t) && tree_model(t) == n,
                None => r == Err::<FolderTree, AccessError>(AccessError::MaterializationFailure),
            },
    ;
}

/// One decoding rule of the fixture decoder: this payload decodes to this
/// tree.
pub struct DecodeRule {
    pub payload: Vec<u8>,
    pub tree: FolderTree,
}

/// The first rule matching the payload, if any.
pub open spec fn rule_lookup(s: Seq<DecodeRule>, payload: Seq<u8>) -> Option<FolderNode>
    decreases s,
{
    if s.len() == 0 {
        None
    } else if s.first().payload@ == payload {
        Some(tree_model(s.first().tree))
    } else {
        rule_lookup(s.drop_first(), payload)
    }
}

/// A deterministic in-memory decoder double: a finite table from payloads to
/// trees; everything else is malformed.
pub struct FixtureDecoder {
    pub rules: Vec<DecodeRule>,
}

impl FolderDecoder for FixtureDecoder {
    open spec fn decode_spec(&self, payload: Seq<u8>) -> Option<FolderNode> {
        rule_lookup(self.rules@, payload)
    }

    fn decode(&self, uid: i64, payload: &Vec<u8>, object_id: &String) -> (r: Result<
        FolderTree,
        AccessError,
    >) {
        let n = self.rules.len();
        let mut i: usize = 0;
        proof {
            assert(self.rules@.skip(0) =~= self.rules@);
        }
        while i < n
            invariant
                n == self.rules@.len(),
                i <= n,
                rule_lookup(self.rules@, payload@) == rule_lookup(
                    self.rules@.skip(i as int),
                    payload@,
                ),
            decreases n - i,
        {
            proof {
                let t0 = self.rules@.skip(i as int);
                let t1 = self.rules@.skip(i as int + 1);
                assert(t0.first() == self.rules@[i as int]);
                assert(t0.drop_first() =~= t1);
            }
            if bytes_eq(&self.rules[i].payload, payload) {
                return Ok(clone_tree(&self.rules[i].tree));
            }
            i = i + 1;
        }
        proof {
            assert(self.rules@.skip(n as int) =~= Seq::<DecodeRule>::empty());
        }
        Err(AccessError::MaterializationFailure)
    }
}

/// A namespace row: a public alias mapped to one workspace.
pub struct NamespaceRow {
    pub namespace: String,
    pub workspace_id: String,
}

/// A published-view row: this view of this workspace is public.
pub struct PublishedViewRow {
    pub workspace_id: String,
    pub view_id: String,
}

/// The in-memory model of the publishing records: namespace resolution and
/// the published view ids per workspace.
pub struct PublishStore {
    pub namespaces: Vec<NamespaceRow>,
    pub published: Vec<PublishedViewRow>,
}

/// The workspace the namespace resolves to: the first matching row wins.
pub open spec fn ns_lookup(s: Seq<NamespaceRow>, ns: Seq<char>) -> Option<Seq<char>>
    decreases s,
{
    if s.len() == 0 {
        None
    } else if s.first().namespace@ == ns {
        Some(s.first().workspace_id@)
    } else {
        ns_lookup(s.drop_first(), ns)
    }
}

/// The view ids published for the workspace, in row order.
pub open spec fn view_ids_of(s: Seq<PublishedViewRow>, w: Seq<char>) -> Seq<String> {
    s.filter(|p: PublishedViewRow| p.workspace_id@ == w).map_values(
        |p: PublishedViewRow| p.view_id,
    )
}

/// Resolves a published namespace to its workspace id.
pub fn select_workspace_id_for_publish_namespace(store: &PublishStore, publish_namespace: &String) -> (r:
    Result<String, AccessError>)
    ensures
        match ns_lookup(store.namespaces@, publish_namespace@) {
            Some(w) => (r matches Ok(s) && s@ == w),
            None => r == Err::<String, AccessError>(AccessError::NamespaceNotFound),
        },
{
    let n = store.namespaces.len();
    let mut i: usize = 0;
    proof {
        assert(store.namespaces@.skip(0) =~= store.namespaces@);
    }
    while i < n
        invariant
            n == store.namespaces@.len(),
            i <= n,
            ns_lookup(store.namespaces@, publish_namespace@) == ns_lookup(
                store.namespaces@.skip(i as int),
                publish_namespace@,
            ),
        decreases n - i,
    {
        proof {
            let t0 = store.namespaces@.skip(i as int);
            let t1 = store.namespaces@.skip(i as int + 1);
            assert(t0.first() == store.namespaces@[i as int]);
            assert(t0.drop_first() =~= t1);
        }
        if store.namespaces[i].namespace == *publish_namespace {
            return Ok(store.namespaces[i].workspace_id.clone());
        }
        i = i + 1;
    }
    proof {
        assert(store.namespaces@.skip(n as int) =~= Seq::<NamespaceRow>::empty());
    }
    Err(AccessError::NamespaceNotFound)
}

/// Selects the view ids published for the workspace.
pub fn select_published_view_ids_for_workspace(store: &PublishStore, workspace_id: &String) -> (r:
    Vec<String>)
    ensures
        r@ == view_ids_of(store.published@, workspace_id@),
{
    let mut out: Vec<String> = Vec::new();
    let n = store.published.len();
    let mut i: usize = 0;
    while i < n
        invariant
            n == store.published@.len(),
            i <= n,
            out@ == view_ids_of(store.published@.take(i as int), workspace_id@),
        decreases n - i,
    {
        proof {
            let t0 = store.published@.take(i as int);
            let t1 = store.published@.take(i as int + 1);
            let pred = |p: PublishedViewRow| p.workspace_id@ == workspace_id@;
            assert(t1.drop_last() =~= t0);
            assert(t1.last() == store.published@[i as int]);
            reveal_with_fuel(Seq::filter, 2);
            if store.published@[i as int].workspace_id@ == workspace_id@ {
                assert(t1.filter(pred) == t0.filter(pred).push(store.published@[i as int]));
                assert(t1.filter(pred).map_values(|p: PublishedViewRow| p.view_id) =~= t0.filter(
                    pred,
                ).map_values(|p: PublishedViewRow| p.view_id).push(
                    store.published@[i as int].view_id,
                ));
            } else {
                assert(t1.filter(pred) == t0.filter(pred));
            }
        }
        let row = &store.published[i];
        if row.workspace_id == *workspace_id {
            out.push(row.view_id.clone());
        }
        i = i + 1;
    }
    proof {
        assert(store.published@.take(n as int) =~= store.published@);
    }
    out
}

} // verus!
