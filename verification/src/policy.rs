use vstd::prelude::*;

use crate::error::AccessError;
use crate::member::{member_key, AccessLevel, MemberStore};

verus! {

/// The capability interface to the access-control policy store.
///
/// Membership mutations keep this store and the relational member store in
/// lockstep; implementations promise that a failed call leaves the policy
/// relation unchanged, so the caller can roll its own store back.
pub trait CollabAccessControl: Sized {
    /// The implementation's internal well-formedness; every call preserves it.
    spec fn policy_inv(&self) -> bool;

    /// Whether this store accepts every mutation; when it does, success is
    /// owed.
    spec fn accepts_all(&self) -> bool;

    /// The policy relation the store currently holds: the access level per
    /// (uid, object id) pair.
    spec fn policy_map(&self) -> Map<(int, Seq<char>), AccessLevel>;

    /// Sets the access level of (uid, object_id); a rejected update changes
    /// nothing.
    fn update_access_level_policy(&mut self, uid: i64, object_id: &String, level: AccessLevel) -> (r:
        Result<(), AccessError>)
        requires
            old(self).policy_inv(),
        ensures
            final(self).policy_inv(),
            final(self).accepts_all() == old(self).accepts_all(),
            old(self).accepts_all() ==> r matches Ok(_),
            r matches Ok(_) ==> final(self).policy_map() == old(self).policy_map().insert(
                member_key(uid, object_id@),
                level,
            ),
            r matches Err(e) ==> e == AccessError::PolicyUpdateFailure && final(self).policy_map()
                == old(self).policy_map(),
    ;

    /// Removes any access of (uid, object_id); a rejected removal changes
    /// nothing.
    fn remove_access_level(&mut self, uid: i64, object_id: &String) -> (r: Result<
        (),
        AccessError,
    >)
        requires
            old(self).policy_inv(),
        ensures
            final(self).policy_inv(),
            final(self).accepts_all() == old(self).accepts_all(),
            old(self).accepts_all() ==> r matches Ok(_),
            r matches Ok(_) ==> final(self).policy_map() == old(self).policy_map().remove(
                member_key(uid, object_id@),
            ),
            r matches Err(e) ==> e == AccessError::PolicyUpdateFailure && final(self).policy_map()
                == old(self).policy_map(),
    ;
}

/// A deterministic in-memory policy store that accepts every update.
pub struct InMemoryAccessControl {
    store: MemberStore,
}

impl InMemoryAccessControl {
    /// An empty policy store.
    pub fn new() -> (r: InMemoryAccessControl)
        ensures
            r.policy_inv(),
            r.accepts_all(),
            r.policy_map() == Map::<(int, Seq<char>), AccessLevel>::empty(),
    {
        InMemoryAccessControl { store: MemberStore::new() }
    }

    /// The access level the policy store holds for (uid, object_id), if any.
    pub fn access_level_of(&self, uid: i64, object_id: &String) -> (r: Option<AccessLevel>)
        requires
            self.policy_inv(),
        ensures
            match r {
                Some(level) => self.policy_map().contains_key(member_key(uid, object_id@))
                    && self.policy_map()[member_key(uid, object_id@)] == level,
                None => !self.policy_map().contains_key(member_key(uid, object_id@)),
            },
    {
        match self.store.find_index(uid, object_id) {
            Some(i) => {
                proof {
                    crate::member::lemma_rows_map_value(self.store.rows@, i as int);
                }
                Some(self.store.rows[i].permission)
            },
            None => None,
        }
    }
}

impl CollabAccessControl for InMemoryAccessControl {
    closed spec fn policy_inv(&self) -> bool {
        self.store.wf()
    }

    closed spec fn accepts_all(&self) -> bool {
        true
    }

    closed spec fn policy_map(&self) -> Map<(int, Seq<char>), AccessLevel> {
        self.store.member_map()
    }

    fn update_access_level_policy(&mut self, uid: i64, object_id: &String, level: AccessLevel) -> (r:
        Result<(), AccessError>) {
        self.store.upsert_row(uid, object_id, level);
        Ok(())
    }

    fn remove_access_level(&mut self, uid: i64, object_id: &String) -> (r: Result<
        (),
        AccessError,
    >) {
        let _ = self.store.remove_key(uid, object_id);
        Ok(())
    }
}

/// A deterministic policy store double that rejects every mutation, for
/// exercising the roll-back paths of the membership operations.
pub struct RejectingAccessControl {}

impl RejectingAccessControl {
    /// A policy store that will reject everything.
    pub fn new() -> (r: RejectingAccessControl)
        ensures
            r.policy_inv(),
            !r.accepts_all(),
            r.policy_map() == Map::<(int, Seq<char>), AccessLevel>::empty(),
    {
        RejectingAccessControl {}
    }
}

impl CollabAccessControl for RejectingAccessControl {
    closed spec fn policy_inv(&self) -> bool {
        true
    }

    closed spec fn accepts_all(&self) -> bool {
        false
    }

    closed spec fn policy_map(&self) -> Map<(int, Seq<char>), AccessLevel> {
        Map::empty()
    }

    fn update_access_level_policy(&mut self, uid: i64, object_id: &String, level: AccessLevel) -> (r:
        Result<(), AccessError>) {
        Err(AccessError::PolicyUpdateFailure)
    }

    fn remove_access_level(&mut self, uid: i64, object_id: &String) -> (r: Result<
        (),
        AccessError,
    >) {
        Err(AccessError::PolicyUpdateFailure)
    }
}

} // verus!
