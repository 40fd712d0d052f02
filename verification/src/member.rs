use vstd::prelude::*;

use crate::error::AccessError;

verus! {

/// An ordered permission tier associated with a (user, object) pair.
#[derive(Clone, Copy, Debug, PartialEq, Eq, PartialOrd, Ord, Structural)]
pub enum AccessLevel {
    Read,
    Write,
    Owner,
}

/// One membership record: at most one exists per (uid, oid) pair.
#[derive(Clone, Debug, PartialEq, Eq)]
pub struct AFCollabMember {
    pub uid: i64,
    pub oid: String,
    pub permission: AccessLevel,
}

/// Parameters for creating a membership.
#[derive(Clone, Debug, PartialEq, Eq)]
pub struct InsertCollabMemberParams {
    pub uid: i64,
    pub object_id: String,
    pub access_level: AccessLevel,
}

/// Parameters for inserting-or-updating a membership.
#[derive(Clone, Debug, PartialEq, Eq)]
pub struct UpdateCollabMemberParams {
    pub uid: i64,
    pub object_id: String,
    pub access_level: AccessLevel,
}

/// Parameters identifying one membership.
#[derive(Clone, Debug, PartialEq, Eq)]
pub struct CollabMemberIdentify {
    pub uid: i64,
    pub object_id: String,
}

/// Parameters selecting every membership of one object.
#[derive(Clone, Debug, PartialEq, Eq)]
pub struct QueryCollabMembers {
    pub object_id: String,
}

/// A structurally well-formed object identifier is non-empty.
pub open spec fn valid_object_id(s: Seq<char>) -> bool {
    s.len() > 0
}

impl InsertCollabMemberParams {
    /// Structural well-formedness: the object identifier is non-empty.
    pub open spec fn valid(&self) -> bool {
        valid_object_id(self.object_id@)
    }

    /// Checks well-formedness before any store is touched.
    pub fn validate(&self) -> (r: Result<(), AccessError>)
        ensures
            r matches Ok(_) <==> self.valid(),
            r matches Err(e) ==> e == AccessError::InvalidInput,
    {
        if self.object_id.as_str().is_empty() {
            Err(AccessError::InvalidInput)
        } else {
            Ok(())
        }
    }
}

impl UpdateCollabMemberParams {
    /// Structural well-formedness: the object identifier is non-empty.
    pub open spec fn valid(&self) -> bool {
        valid_object_id(self.object_id@)
    }

    /// Checks well-formedness before any store is touched.
    pub fn validate(&self) -> (r: Result<(), AccessError>)
        ensures
            r matches Ok(_) <==> self.valid(),
            r matches Err(e) ==> e == AccessError::InvalidInput,
    {
        if self.object_id.as_str().is_empty() {
            Err(AccessError::InvalidInput)
        } else {
            Ok(())
        }
    }
}

impl CollabMemberIdentify {
    /// Structural well-formedness: the object identifier is non-empty.
    pub open spec fn valid(&self) -> bool {
        valid_object_id(self.object_id@)
    }

    /// Checks well-formedness before any store is touched.
    pub fn validate(&self) -> (r: Result<(), AccessError>)
        ensures
            r matches Ok(_) <==> self.valid(),
            r matches Err(e) ==> e == AccessError::InvalidInput,
    {
        if self.object_id.as_str().is_empty() {
            Err(AccessError::InvalidInput)
        } else {
            Ok(())
        }
    }
}

impl QueryCollabMembers {
    /// Structural well-formedness: the object identifier is non-empty.
    pub open spec fn valid(&self) -> bool {
        valid_object_id(self.object_id@)
    }

    /// Checks well-formedness before any store is touched.
    pub fn validate(&self) -> (r: Result<(), AccessError>)
        ensures
            r matches Ok(_) <==> self.valid(),
            r matches Err(e) ==> e == AccessError::InvalidInput,
    {
        if self.object_id.as_str().is_empty() {
            Err(AccessError::InvalidInput)
        } else {
            Ok(())
        }
    }
}

/// The lookup key of a membership: the user and the object it concerns.
pub open spec fn member_key(uid: i64, oid: Seq<char>) -> (int, Seq<char>) {
    (uid as int, oid)
}

/// The lookup key of a stored row.
pub open spec fn row_key(m: AFCollabMember) -> (int, Seq<char>) {
    (m.uid as int, m.oid@)
}

/// No two rows share a (uid, oid) key.
pub open spec fn unique_keys(s: Seq<AFCollabMember>) -> bool {
    forall|i: int, j: int|
        0 <= i < j < s.len() ==> row_key(#[trigger] s[i]) != row_key(#[trigger] s[j])
}

/// The finite map that a sequence of rows denotes; a later row wins.
pub open spec fn rows_map(s: Seq<AFCollabMember>) -> Map<(int, Seq<char>), AccessLevel>
    decreases s,
{
    if s.len() == 0 {
        Map::empty()
    } else {
        rows_map(s.drop_last()).insert(row_key(s.last()), s.last().permission)
    }
}

pub proof fn lemma_rows_map_contains(s: Seq<AFCollabMember>, k: (int, Seq<char>))
    ensures
        rows_map(s).contains_key(k) <==> exists|i: int| 0 <= i < s.len() && row_key(#[trigger] s[i]) == k,
    decreases s.len(),
{
    if s.len() > 0 {
        lemma_rows_map_contains(s.drop_last(), k);
        if row_key(s.last()) == k {
            assert(row_key(s[s.len() - 1]) == k);
        } else {
            if exists|i: int| 0 <= i < s.len() && row_key(#[trigger] s[i]) == k {
                let i = choose|i: int| 0 <= i < s.len() && row_key(#[trigger] s[i]) == k;
                assert(s.drop_last()[i] == s[i]);
            }
            if rows_map(s.drop_last()).contains_key(k) {
                let i = choose|i: int|
                    0 <= i < s.drop_last().len() && row_key(#[trigger] s.drop_last()[i]) == k;
                assert(row_key(s[i]) == k);
            }
        }
    }
}

pub proof fn lemma_unique_drop_last(s: Seq<AFCollabMember>)
    requires
        unique_keys(s),
        s.len() > 0,
    ensures
        unique_keys(s.drop_last()),
{
    assert forall|i: int, j: int|
        0 <= i < j < s.drop_last().len() implies row_key(#[trigger] s.drop_last()[i]) != row_key(
        #[trigger] s.drop_last()[j],
    ) by {
        assert(s.drop_last()[i] == s[i]);
        assert(s.drop_last()[j] == s[j]);
    }
}

pub proof fn lemma_rows_map_value(s: Seq<AFCollabMember>, i: int)
    requires
        unique_keys(s),
        0 <= i < s.len(),
    ensures
        rows_map(s).contains_key(row_key(s[i])),
        rows_map(s)[row_key(s[i])] == s[i].permission,
    decreases s.len(),
{
    if i == s.len() - 1 {
    } else {
        lemma_unique_drop_last(s);
        lemma_rows_map_value(s.drop_last(), i);
        assert(s.drop_last()[i] == s[i]);
        assert(row_key(s[s.len() - 1]) != row_key(s[i]));
    }
}

pub proof fn lemma_rows_map_push(s: Seq<AFCollabMember>, m: AFCollabMember)
    ensures
        rows_map(s.push(m)) == rows_map(s).insert(row_key(m), m.permission),
{
    assert(s.push(m).drop_last() =~= s);
    assert(s.push(m).last() == m);
}

pub proof fn lemma_rows_map_update(s: Seq<AFCollabMember>, i: int, m: AFCollabMember)
    requires
        unique_keys(s),
        0 <= i < s.len(),
        row_key(m) == row_key(s[i]),
    ensures
        rows_map(s.update(i, m)) == rows_map(s).insert(row_key(m), m.permission),
    decreases s.len(),
{
    let k = row_key(m);
    let t = s.update(i, m);
    if i == s.len() - 1 {
        assert(t.drop_last() =~= s.drop_last());
        assert(t.last() == m);
        assert(rows_map(s.drop_last()).insert(k, s.last().permission).insert(k, m.permission)
            =~= rows_map(s.drop_last()).insert(k, m.permission));
    } else {
        lemma_unique_drop_last(s);
        assert(s.drop_last()[i] == s[i]);
        lemma_rows_map_update(s.drop_last(), i, m);
        assert(t.drop_last() =~= s.drop_last().update(i, m));
        assert(t.last() == s.last());
        let kl = row_key(s.last());
        assert(row_key(s[s.len() - 1]) != row_key(s[i]));
        assert(rows_map(s.drop_last()).insert(k, m.permission).insert(kl, s.last().permission)
            =~= rows_map(s.drop_last()).insert(kl, s.last().permission).insert(k, m.permission));
    }
}

pub proof fn lemma_rows_map_remove(s: Seq<AFCollabMember>, i: int)
    requires
        unique_keys(s),
        0 <= i < s.len(),
    ensures
        rows_map(s.remove(i)) == rows_map(s).remove(row_key(s[i])),
    decreases s.len(),
{
    let k = row_key(s[i]);
    if i == s.len() - 1 {
        assert(s.remove(i) =~= s.drop_last());
        lemma_rows_map_contains(s.drop_last(), k);
        assert forall|j: int| 0 <= j < s.drop_last().len() implies row_key(
            #[trigger] s.drop_last()[j],
        ) != k by {
            assert(s.drop_last()[j] == s[j]);
            assert(row_key(s[j]) != row_key(s[i]));
        }
        assert(!rows_map(s.drop_last()).contains_key(k));
        assert(rows_map(s.drop_last()).insert(k, s.last().permission).remove(k)
            =~= rows_map(s.drop_last()));
    } else {
        lemma_unique_drop_last(s);
        assert(s.drop_last()[i] == s[i]);
        lemma_rows_map_remove(s.drop_last(), i);
        let t = s.remove(i);
        assert(t.drop_last() =~= s.drop_last().remove(i));
        assert(t.last() == s.last());
        let kl = row_key(s.last());
        assert(row_key(s[s.len() - 1]) != row_key(s[i]));
        assert(rows_map(s.drop_last()).remove(k).insert(kl, s.last().permission)
            =~= rows_map(s.drop_last()).insert(kl, s.last().permission).remove(k));
    }
}

pub proof fn lemma_map_remove_absent(m: Map<(int, Seq<char>), AccessLevel>, k: (int, Seq<char>))
    requires
        !m.contains_key(k),
    ensures
        m.remove(k) == m,
{
    assert(m.remove(k) =~= m);
}

/// The in-memory model of the relational member store: membership rows with
/// at most one row per (uid, oid) key.
pub struct MemberStore {
    pub rows: Vec<AFCollabMember>,
}

impl MemberStore {
    /// The store's structural invariant: keys are unique.
    pub open spec fn wf(&self) -> bool {
        unique_keys(self.rows@)
    }

    /// The membership relation the store denotes.
    pub open spec fn member_map(&self) -> Map<(int, Seq<char>), AccessLevel> {
        rows_map(self.rows@)
    }

    /// An empty member store.
    pub fn new() -> (r: MemberStore)
        ensures
            r.wf(),
            r.member_map() == Map::<(int, Seq<char>), AccessLevel>::empty(),
            r.rows@ == Seq::<AFCollabMember>::empty(),
    {
        MemberStore { rows: Vec::new() }
    }

    /// Finds the index of the row keyed by (uid, object_id), if any.
    pub fn find_index(&self, uid: i64, object_id: &String) -> (r: Option<usize>)
        ensures
            match r {
                Some(i) => i < self.rows@.len() && row_key(self.rows@[i as int]) == member_key(
                    uid,
                    object_id@,
                ),
                None => !self.member_map().contains_key(member_key(uid, object_id@))
                    && forall|j: int|
                        0 <= j < self.rows@.len() ==> row_key(#[trigger] self.rows@[j])
                            != member_key(uid, object_id@),
            },
    {
        let n = self.rows.len();
        let mut i: usize = 0;
        while i < n
            invariant
                n == self.rows@.len(),
                i <= n,
                forall|j: int|
                    0 <= j < i ==> row_key(#[trigger] self.rows@[j]) != member_key(
                        uid,
                        object_id@,
                    ),
            decreases n - i,
        {
            if self.rows[i].uid == uid && self.rows[i].oid == *object_id {
                return Some(i);
            }
            i = i + 1;
        }
        proof {
            lemma_rows_map_contains(self.rows@, member_key(uid, object_id@));
        }
        None
    }

    /// Inserts a row whose key is not yet present.
    pub fn push_row(&mut self, m: AFCollabMember)
        requires
            old(self).wf(),
            !old(self).member_map().contains_key(row_key(m)),
        ensures
            final(self).wf(),
            final(self).rows@ == old(self).rows@.push(m),
            final(self).member_map() == old(self).member_map().insert(row_key(m), m.permission),
    {
        proof {
            lemma_rows_map_contains(old(self).rows@, row_key(m));
            lemma_rows_map_push(old(self).rows@, m);
        }
        self.rows.push(m);
        proof {
            assert forall|i: int, j: int|
                0 <= i < j < self.rows@.len() implies row_key(#[trigger] self.rows@[i]) != row_key(
                #[trigger] self.rows@[j],
            ) by {
                if j == self.rows@.len() - 1 {
                    assert(self.rows@[j] == m);
                    assert(self.rows@[i] == old(self).rows@[i]);
                } else {
                    assert(self.rows@[i] == old(self).rows@[i]);
                    assert(self.rows@[j] == old(self).rows@[j]);
                }
            }
        }
    }

    /// Replaces the row at index i by a row with the same key.
    pub fn set_row(&mut self, i: usize, m: AFCollabMember)
        requires
            old(self).wf(),
            i < old(self).rows@.len(),
            row_key(m) == row_key(old(self).rows@[i as int]),
        ensures
            final(self).wf(),
            final(self).rows@ == old(self).rows@.update(i as int, m),
            final(self).member_map() == old(self).member_map().insert(row_key(m), m.permission),
    {
        proof {
            lemma_rows_map_update(old(self).rows@, i as int, m);
        }
        self.rows.remove(i);
        self.rows.insert(i, m);
        proof {
            assert(self.rows@ =~= old(self).rows@.update(i as int, m));
            assert forall|x: int, y: int|
                0 <= x < y < self.rows@.len() implies row_key(#[trigger] self.rows@[x]) != row_key(
                #[trigger] self.rows@[y],
            ) by {
                assert(row_key(self.rows@[x]) == row_key(old(self).rows@[x]));
                assert(row_key(self.rows@[y]) == row_key(old(self).rows@[y]));
            }
        }
    }

    /// Removes and returns the row at index i.
    pub fn remove_at(&mut self, i: usize) -> (m: AFCollabMember)
        requires
            old(self).wf(),
            i < old(self).rows@.len(),
        ensures
            m == old(self).rows@[i as int],
            final(self).rows@ == old(self).rows@.remove(i as int),
            final(self).wf(),
            final(self).member_map() == old(self).member_map().remove(row_key(m)),
    {
        proof {
            lemma_rows_map_remove(old(self).rows@, i as int);
        }
        let m = self.rows.remove(i);
        proof {
            assert forall|x: int, y: int|
                0 <= x < y < self.rows@.len() implies row_key(#[trigger] self.rows@[x]) != row_key(
                #[trigger] self.rows@[y],
            ) by {
                let ox: int = if x < i as int { x } else { x + 1 };
                let oy: int = if y < i as int { y } else { y + 1 };
                assert(self.rows@[x] == old(self).rows@[ox]);
                assert(self.rows@[y] == old(self).rows@[oy]);
            }
        }
        m
    }

    /// Inserts or updates the row keyed by (uid, object_id) to the given level.
    pub fn upsert_row(&mut self, uid: i64, object_id: &String, level: AccessLevel)
        requires
            old(self).wf(),
        ensures
            final(self).wf(),
            final(self).member_map() == old(self).member_map().insert(
                member_key(uid, object_id@),
                level,
            ),
    {
        let m = AFCollabMember { uid, oid: object_id.clone(), permission: level };
        match self.find_index(uid, object_id) {
            Some(i) => {
                self.set_row(i, m);
            },
            None => {
                self.push_row(m);
            },
        }
    }

    /// Removes the row keyed by (uid, object_id), if present; idempotent.
    pub fn remove_key(&mut self, uid: i64, object_id: &String) -> (r: Option<AFCollabMember>)
        requires
            old(self).wf(),
        ensures
            final(self).wf(),
            final(self).member_map() == old(self).member_map().remove(member_key(uid, object_id@)),
            match r {
                Some(m) => old(self).member_map().contains_key(member_key(uid, object_id@))
                    && row_key(m) == member_key(uid, object_id@) && m.permission == old(
                    self,
                ).member_map()[member_key(uid, object_id@)],
                None => !old(self).member_map().contains_key(member_key(uid, object_id@))
                    && final(self).rows@ == old(self).rows@,
            },
    {
        match self.find_index(uid, object_id) {
            Some(i) => {
                proof {
                    lemma_rows_map_value(self.rows@, i as int);
                }
                let m = self.remove_at(i);
                Some(m)
            },
            None => {
                proof {
                    lemma_map_remove_absent(
                        self.member_map(),
                        member_key(uid, object_id@),
                    );
                }
                None
            },
        }
    }
}

} // verus!
