use vstd::prelude::*;

use crate::error::AccessError;
use crate::member::{
    lemma_map_remove_absent, lemma_rows_map_contains, lemma_rows_map_value, member_key,
    AFCollabMember, AccessLevel, CollabMemberIdentify, InsertCollabMemberParams, MemberStore,
    QueryCollabMembers, UpdateCollabMemberParams,
};
use crate::folder::{
    node_depth, to_folder_view, truncate_node, tree_model, view_model, FolderTree, FolderView,
};
use crate::policy::CollabAccessControl;
use crate::publish::{id_set, prune_node, published_model, to_published_outline, PublishedView};
use crate::storage::{
    doc_lookup, ns_lookup, select_published_view_ids_for_workspace,
    select_workspace_id_for_publish_namespace, view_ids_of, CollabStorage, CollabType,
    EncodedCollab, FolderDecoder, PublishStore,
};

verus! {

/// The hard ceiling on the depth of a materialized workspace structure.
pub const DEPTH_LIMIT: u32 = 10;

/// The rows of `s` that belong to the object `oid`, in store order.
pub open spec fn members_of(s: Seq<AFCollabMember>, oid: Seq<char>) -> Seq<AFCollabMember> {
    s.filter(|m: AFCollabMember| m.oid@ == oid)
}

/// Creates a new membership.
///
/// Validation runs before any store is touched. If the (uid, object_id) pair
/// already has a record, nothing changes and the call fails with
/// `AlreadyExists`. Otherwise the row is inserted and then the policy store is
/// updated; a rejected policy update rolls the insertion back, so the member
/// store never reflects a policy-inconsistent state.
pub fn create_collab_member<A: CollabAccessControl>(
    store: &mut MemberStore,
    params: &InsertCollabMemberParams,
    collab_access_control: &mut A,
) -> (r: Result<(), AccessError>)
    requires
        old(store).wf(),
        old(collab_access_control).policy_inv(),
    ensures
        final(store).wf(),
        final(collab_access_control).policy_inv(),
        final(collab_access_control).accepts_all() == old(collab_access_control).accepts_all(),
        params.valid() && !old(store).member_map().contains_key(
            member_key(params.uid, params.object_id@),
        ) && old(collab_access_control).accepts_all() ==> r matches Ok(_),
        !params.valid() ==> r == Err::<(), AccessError>(AccessError::InvalidInput) && final(store).rows@ == old(store).rows@ && final(collab_access_control).policy_map() == old(collab_access_control).policy_map(),
        params.valid() && old(store).member_map().contains_key(
            member_key(params.uid, params.object_id@),
        ) ==> r == Err::<(), AccessError>(AccessError::AlreadyExists) && final(store).rows@ == old(store).rows@ && final(collab_access_control).policy_map() == old(collab_access_control).policy_map(),
        params.valid() && !old(store).member_map().contains_key(
            member_key(params.uid, params.object_id@),
        ) ==> match r {
            Ok(_) => final(store).member_map() == old(store).member_map().insert(
                member_key(params.uid, params.object_id@),
                params.access_level,
            ) && final(collab_access_control).policy_map() == old(collab_access_control).policy_map().insert(member_key(params.uid, params.object_id@), params.access_level),
            Err(e) => e == AccessError::PolicyUpdateFailure && final(store).member_map() == old(store).member_map() && final(collab_access_control).policy_map() == old(collab_access_control).policy_map(),
        },
{
    let ghost k = member_key(params.uid, params.object_id@);
    match params.validate() {
        Err(e) => {
            return Err(e);
        },
        Ok(_) => {},
    }
    match store.find_index(params.uid, &params.object_id) {
        Some(i) => {
            proof {
                lemma_rows_map_contains(store.rows@, k);
            }
            return Err(AccessError::AlreadyExists);
        },
        None => {},
    }
    let m = AFCollabMember {
        uid: params.uid,
        oid: params.object_id.clone(),
        permission: params.access_level,
    };
    store.push_row(m);
    match collab_access_control.update_access_level_policy(
        params.uid,
        &params.object_id,
        params.access_level,
    ) {
        Ok(_) => Ok(()),
        Err(e) => {
            // The policy store rejected the update: roll the insertion back.
            let _ = store.remove_key(params.uid, &params.object_id);
            proof {
                assert(old(store).member_map().insert(k, params.access_level).remove(k)
                    =~= old(store).member_map().remove(k));
                lemma_map_remove_absent(old(store).member_map(), k);
            }
            Err(e)
        },
    }
}

/// Inserts or updates a membership.
///
/// Validation runs first; then the policy store is updated and only after
/// that the member row is written, so a rejected policy update leaves the
/// member store untouched.
pub fn upsert_collab_member<A: CollabAccessControl>(
    store: &mut MemberStore,
    _user_uuid: &String,
    params: &UpdateCollabMemberParams,
    collab_access_control: &mut A,
) -> (r: Result<(), AccessError>)
    requires
        old(store).wf(),
        old(collab_access_control).policy_inv(),
    ensures
        final(store).wf(),
        final(collab_access_control).policy_inv(),
        final(collab_access_control).accepts_all() == old(collab_access_control).accepts_all(),
        params.valid() && old(collab_access_control).accepts_all() ==> r matches Ok(_),
        !params.valid() ==> r == Err::<(), AccessError>(AccessError::InvalidInput) && final(store).rows@ == old(store).rows@ && final(collab_access_control).policy_map() == old(collab_access_control).policy_map(),
        params.valid() ==> match r {
            Ok(_) => final(store).member_map() == old(store).member_map().insert(
                member_key(params.uid, params.object_id@),
                params.access_level,
            ) && final(collab_access_control).policy_map() == old(collab_access_control).policy_map().insert(member_key(params.uid, params.object_id@), params.access_level),
            Err(e) => e == AccessError::PolicyUpdateFailure && final(store).rows@ == old(store).rows@ && final(collab_access_control).policy_map() == old(collab_access_control).policy_map(),
        },
{
    match params.validate() {
        Err(e) => {
            return Err(e);
        },
        Ok(_) => {},
    }
    match collab_access_control.update_access_level_policy(
        params.uid,
        &params.object_id,
        params.access_level,
    ) {
        Err(e) => {
            return Err(e);
        },
        Ok(_) => {},
    }
    store.upsert_row(params.uid, &params.object_id, params.access_level);
    Ok(())
}

/// Reads one membership; fails with `NotFound` when the pair has no record.
pub fn get_collab_member(store: &MemberStore, params: &CollabMemberIdentify) -> (r: Result<
    AFCollabMember,
    AccessError,
>)
    requires
        store.wf(),
    ensures
        !params.valid() ==> r == Err::<AFCollabMember, AccessError>(AccessError::InvalidInput),
        params.valid() && !store.member_map().contains_key(
            member_key(params.uid, params.object_id@),
        ) ==> r == Err::<AFCollabMember, AccessError>(AccessError::NotFound),
        params.valid() && store.member_map().contains_key(
            member_key(params.uid, params.object_id@),
        ) ==> match r {
            Ok(m) => m.uid == params.uid && m.oid@ == params.object_id@ && m.permission
                == store.member_map()[member_key(params.uid, params.object_id@)],
            Err(_) => false,
        },
{
    match params.validate() {
        Err(e) => {
            return Err(e);
        },
        Ok(_) => {},
    }
    match store.find_index(params.uid, &params.object_id) {
        Some(i) => {
            proof {
                lemma_rows_map_value(store.rows@, i as int);
            }
            let row = &store.rows[i];
            Ok(AFCollabMember { uid: row.uid, oid: row.oid.clone(), permission: row.permission })
        },
        None => Err(AccessError::NotFound),
    }
}

/// Deletes a membership: the row is removed, then the policy store is asked
/// to drop the access; a rejected policy removal rolls the deletion back.
/// Deleting an absent membership succeeds and changes nothing.
pub fn delete_collab_member<A: CollabAccessControl>(
    store: &mut MemberStore,
    params: &CollabMemberIdentify,
    collab_access_control: &mut A,
) -> (r: Result<(), AccessError>)
    requires
        old(store).wf(),
        old(collab_access_control).policy_inv(),
    ensures
        final(store).wf(),
        final(collab_access_control).policy_inv(),
        final(collab_access_control).accepts_all() == old(collab_access_control).accepts_all(),
        params.valid() && old(collab_access_control).accepts_all() ==> r matches Ok(_),
        !params.valid() ==> r == Err::<(), AccessError>(AccessError::InvalidInput) && final(store).rows@ == old(store).rows@ && final(collab_access_control).policy_map() == old(collab_access_control).policy_map(),
        params.valid() ==> match r {
            Ok(_) => final(store).member_map() == old(store).member_map().remove(
                member_key(params.uid, params.object_id@),
            ) && final(collab_access_control).policy_map() == old(collab_access_control).policy_map().remove(member_key(params.uid, params.object_id@)),
            Err(e) => e == AccessError::PolicyUpdateFailure && final(store).member_map() == old(store).member_map() && final(collab_access_control).policy_map() == old(collab_access_control).policy_map(),
        },
{
    let ghost k = member_key(params.uid, params.object_id@);
    match params.validate() {
        Err(e) => {
            return Err(e);
        },
        Ok(_) => {},
    }
    let removed = store.remove_key(params.uid, &params.object_id);
    match collab_access_control.remove_access_level(params.uid, &params.object_id) {
        Ok(_) => Ok(()),
        Err(e) => {
            // The policy store rejected the removal: restore the row.
            match removed {
                Some(m) => {
                    proof {
                        lemma_map_remove_absent(store.member_map(), k);
                        assert(old(store).member_map().remove(k).insert(k, m.permission)
                            =~= old(store).member_map());
                    }
                    store.push_row(m);
                },
                None => {
                    proof {
                        lemma_map_remove_absent(old(store).member_map(), k);
                    }
                },
            }
            Err(e)
        },
    }
}

/// Lists every membership of one object, in store order; callers must not
/// depend on the order.
pub fn get_collab_member_list(store: &MemberStore, params: &QueryCollabMembers) -> (r: Result<
    Vec<AFCollabMember>,
    AccessError,
>)
    ensures
        !params.valid() ==> r == Err::<Vec<AFCollabMember>, AccessError>(AccessError::InvalidInput),
        params.valid() ==> match r {
            Ok(v) => v@ == members_of(store.rows@, params.object_id@),
            Err(_) => false,
        },
{
    match params.validate() {
        Err(e) => {
            return Err(e);
        },
        Ok(_) => {},
    }
    let mut out: Vec<AFCollabMember> = Vec::new();
    let n = store.rows.len();
    let mut i: usize = 0;
    while i < n
        invariant
            n == store.rows@.len(),
            i <= n,
            out@ == members_of(store.rows@.take(i as int), params.object_id@),
        decreases n - i,
    {
        proof {
            let t = store.rows@.take(i as int);
            let t1 = store.rows@.take(i as int + 1);
            assert(t1.drop_last() =~= t);
            assert(t1.last() == store.rows@[i as int]);
            reveal_with_fuel(Seq::filter, 2);
            if store.rows@[i as int].oid@ == params.object_id@ {
                assert(members_of(t1, params.object_id@) == members_of(
                    t,
                    params.object_id@,
                ).push(store.rows@[i as int]));
            } else {
                assert(members_of(t1, params.object_id@) == members_of(t, params.object_id@));
            }
        }
        let row = &store.rows[i];
        if row.oid == params.object_id {
            out.push(
                AFCollabMember { uid: row.uid, oid: row.oid.clone(), permission: row.permission },
            );
        }
        i = i + 1;
    }
    proof {
        assert(store.rows@.take(n as int) =~= store.rows@);
    }
    Ok(out)
}

/// Fetches the latest encoded document of the object, on behalf of the given
/// requester; fails with `NotFound` when the store has no document for it.
pub fn get_latest_collab_encoded(
    collab_storage: &CollabStorage,
    uid: &i64,
    workspace_id: &String,
    oid: &String,
    collab_type: CollabType,
) -> (r: Result<EncodedCollab, AccessError>)
    ensures
        match doc_lookup(collab_storage.docs@, oid@) {
            Some(d) => match r {
                Ok(e) => e.object_id@ == d.object_id@ && e.collab_type == d.collab_type
                    && e.payload@ == d.payload@,
                Err(_) => false,
            },
            None => r == Err::<EncodedCollab, AccessError>(AccessError::NotFound),
        },
{
    let n = collab_storage.docs.len();
    let mut i: usize = 0;
    proof {
        assert(collab_storage.docs@.skip(0) =~= collab_storage.docs@);
    }
    while i < n
        invariant
            n == collab_storage.docs@.len(),
            i <= n,
            doc_lookup(collab_storage.docs@, oid@) == doc_lookup(
                collab_storage.docs@.skip(i as int),
                oid@,
            ),
        decreases n - i,
    {
        proof {
            let t0 = collab_storage.docs@.skip(i as int);
            let t1 = collab_storage.docs@.skip(i as int + 1);
            assert(t0.first() == collab_storage.docs@[i as int]);
            assert(t0.drop_first() =~= t1);
        }
        let d = &collab_storage.docs[i];
        if d.object_id == *oid {
            return Ok(
                EncodedCollab {
                    object_id: d.object_id.clone(),
                    collab_type: d.collab_type,
                    payload: crate::storage::clone_bytes(&d.payload),
                },
            );
        }
        i = i + 1;
    }
    proof {
        assert(collab_storage.docs@.skip(n as int) =~= Seq::<EncodedCollab>::empty());
    }
    Err(AccessError::NotFound)
}

/// Fetches and decodes the latest folder document of the workspace (the root
/// folder's object id equals the workspace id). A missing document fails with
/// `NotFound`; a malformed one with `MaterializationFailure`.
pub fn get_latest_collab_folder<D: FolderDecoder>(
    collab_storage: &CollabStorage,
    decoder: &D,
    uid: &i64,
    workspace_id: &String,
) -> (r: Result<FolderTree, AccessError>)
    ensures
        match doc_lookup(collab_storage.docs@, workspace_id@) {
            Some(d) => match decoder.decode_spec(d.payload@) {
                Some(n) => (r matches Ok(t) && tree_model(t) == n),
                None => r == Err::<FolderTree, AccessError>(AccessError::MaterializationFailure),
            },
            None => r == Err::<FolderTree, AccessError>(AccessError::NotFound),
        },
{
    let encoded = match get_latest_collab_encoded(
        collab_storage,
        uid,
        workspace_id,
        workspace_id,
        CollabType::Folder,
    ) {
        Ok(e) => e,
        Err(e) => {
            return Err(e);
        },
    };
    decoder.decode(*uid, &encoded.payload, workspace_id)
}

/// Materializes the workspace's folder hierarchy truncated to the requested
/// depth. A request deeper than `DEPTH_LIMIT` is rejected before any fetch.
pub fn get_user_workspace_structure<D: FolderDecoder>(
    collab_storage: &CollabStorage,
    decoder: &D,
    uid: i64,
    workspace_id: String,
    depth: u32,
) -> (r: Result<FolderView, AccessError>)
    ensures
        depth > DEPTH_LIMIT ==> r == Err::<FolderView, AccessError>(AccessError::DepthLimitExceeded),
        depth <= DEPTH_LIMIT ==> match doc_lookup(collab_storage.docs@, workspace_id@) {
            Some(d) => match decoder.decode_spec(d.payload@) {
                Some(n) => match r {
                    Ok(v) => view_model(v) == truncate_node(n, depth as nat) && node_depth(
                        view_model(v),
                    ) == if depth as nat <= node_depth(n) {
                        depth as nat
                    } else {
                        node_depth(n)
                    },
                    Err(_) => false,
                },
                None => r == Err::<FolderView, AccessError>(AccessError::MaterializationFailure),
            },
            None => r == Err::<FolderView, AccessError>(AccessError::NotFound),
        },
{
    if depth > DEPTH_LIMIT {
        return Err(AccessError::DepthLimitExceeded);
    }
    let folder = match get_latest_collab_folder(collab_storage, decoder, &uid, &workspace_id) {
        Ok(f) => f,
        Err(e) => {
            return Err(e);
        },
    };
    proof {
        crate::folder::lemma_truncate_depth(tree_model(folder), depth as nat);
    }
    Ok(to_folder_view(&folder, depth))
}

/// Resolves a published namespace and materializes its workspace's folder
/// filtered to the published view ids. The folder is read with a privileged
/// system origin, since published content is public. Any failing step aborts
/// the whole resolution.
pub fn get_published_view<D: FolderDecoder>(
    collab_storage: &CollabStorage,
    decoder: &D,
    publish_namespace: String,
    publish_store: &PublishStore,
) -> (r: Result<PublishedView, AccessError>)
    ensures
        match ns_lookup(publish_store.namespaces@, publish_namespace@) {
            Some(w) => match doc_lookup(collab_storage.docs@, w) {
                Some(d) => match decoder.decode_spec(d.payload@) {
                    Some(n) => match r {
                        Ok(pv) => published_model(pv) == prune_node(
                            n,
                            id_set(view_ids_of(publish_store.published@, w)),
                        ),
                        Err(_) => false,
                    },
                    None => r == Err::<PublishedView, AccessError>(
                        AccessError::MaterializationFailure,
                    ),
                },
                None => r == Err::<PublishedView, AccessError>(AccessError::NotFound),
            },
            None => r == Err::<PublishedView, AccessError>(AccessError::NamespaceNotFound),
        },
{
    let workspace_id = match select_workspace_id_for_publish_namespace(
        publish_store,
        &publish_namespace,
    ) {
        Ok(w) => w,
        Err(e) => {
            return Err(e);
        },
    };
    let server_uid: i64 = 0;
    let folder = match get_latest_collab_folder(collab_storage, decoder, &server_uid, &workspace_id) {
        Ok(f) => f,
        Err(e) => {
            return Err(e);
        },
    };
    let publish_view_ids = select_published_view_ids_for_workspace(publish_store, &workspace_id);
    Ok(to_published_outline(&folder, &publish_view_ids))
}

/// Law: creating a membership and immediately reading it back yields exactly
/// the created record. Over the store model that `create_collab_member` and
/// `get_collab_member` are specified against: after the insertion the key is
/// present and carries the created level, so a get returns that record.
pub proof fn lemma_create_then_get(
    m: Map<(int, Seq<char>), AccessLevel>,
    uid: i64,
    oid: Seq<char>,
    level: AccessLevel,
)
    ensures
        m.insert(member_key(uid, oid), level).contains_key(member_key(uid, oid)),
        m.insert(member_key(uid, oid), level)[member_key(uid, oid)] == level,
{
}

/// Law: after a create of (uid, oid), the key is present, so a second create
/// of the same pair must return `AlreadyExists` and leave both stores
/// unchanged; the membership and the policy entry keep the first level.
pub proof fn lemma_create_is_exclusive(
    m: Map<(int, Seq<char>), AccessLevel>,
    p: Map<(int, Seq<char>), AccessLevel>,
    uid: i64,
    oid: Seq<char>,
    level: AccessLevel,
)
    ensures
        m.insert(member_key(uid, oid), level).contains_key(member_key(uid, oid)),
        m.insert(member_key(uid, oid), level)[member_key(uid, oid)] == level,
        p.insert(member_key(uid, oid), level)[member_key(uid, oid)] == level,
{
}

/// Law: a delete is idempotent on an absent membership, and a successful
/// delete never leaves a policy entry dangling: after it, neither the member
/// map nor the policy map holds the key.
pub proof fn lemma_delete_consistent(
    m: Map<(int, Seq<char>), AccessLevel>,
    p: Map<(int, Seq<char>), AccessLevel>,
    uid: i64,
    oid: Seq<char>,
)
    ensures
        !m.remove(member_key(uid, oid)).contains_key(member_key(uid, oid)),
        !p.remove(member_key(uid, oid)).contains_key(member_key(uid, oid)),
        !m.contains_key(member_key(uid, oid)) ==> m.remove(member_key(uid, oid)) == m,
{
    if !m.contains_key(member_key(uid, oid)) {
        lemma_map_remove_absent(m, member_key(uid, oid));
    }
}

/// Law: every successful mutation writes the member store and the policy
/// store in lockstep, so stores that agree keep agreeing.
pub proof fn lemma_stores_stay_in_lockstep(
    m: Map<(int, Seq<char>), AccessLevel>,
    p: Map<(int, Seq<char>), AccessLevel>,
    uid: i64,
    oid: Seq<char>,
    level: AccessLevel,
)
    requires
        m == p,
    ensures
        m.insert(member_key(uid, oid), level) == p.insert(member_key(uid, oid), level),
        m.remove(member_key(uid, oid)) == p.remove(member_key(uid, oid)),
{
}

} // verus!
