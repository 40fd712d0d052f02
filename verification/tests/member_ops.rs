use collab_ops::error::AccessError;
use collab_ops::member::{
    AccessLevel, CollabMemberIdentify, InsertCollabMemberParams, MemberStore, QueryCollabMembers,
    UpdateCollabMemberParams,
};
use collab_ops::ops::{
    create_collab_member, delete_collab_member, get_collab_member, get_collab_member_list,
    upsert_collab_member,
};
use collab_ops::policy::{InMemoryAccessControl, RejectingAccessControl};

fn s(x: &str) -> String {
    x.to_string()
}

fn insert_params(uid: i64, oid: &str, level: AccessLevel) -> InsertCollabMemberParams {
    InsertCollabMemberParams {
        uid,
        object_id: s(oid),
        access_level: level,
    }
}

fn update_params(uid: i64, oid: &str, level: AccessLevel) -> UpdateCollabMemberParams {
    UpdateCollabMemberParams {
        uid,
        object_id: s(oid),
        access_level: level,
    }
}

fn identify(uid: i64, oid: &str) -> CollabMemberIdentify {
    CollabMemberIdentify {
        uid,
        object_id: s(oid),
    }
}

#[test]
fn create_then_get_returns_created_record() {
    let mut store = MemberStore::new();
    let mut policy = InMemoryAccessControl::new();
    let params = insert_params(1, "o1", AccessLevel::Read);
    assert_eq!(
        create_collab_member(&mut store, &params, &mut policy),
        Ok(())
    );
    let member = get_collab_member(&store, &identify(1, "o1")).unwrap();
    assert_eq!(member.uid, 1);
    assert_eq!(member.oid, s("o1"));
    assert_eq!(member.permission, AccessLevel::Read);
}

#[test]
fn create_twice_yields_already_exists_and_keeps_first_level() {
    let mut store = MemberStore::new();
    let mut policy = InMemoryAccessControl::new();
    let first = insert_params(1, "o1", AccessLevel::Read);
    let second = insert_params(1, "o1", AccessLevel::Write);
    assert_eq!(create_collab_member(&mut store, &first, &mut policy), Ok(()));
    assert_eq!(
        create_collab_member(&mut store, &second, &mut policy),
        Err(AccessError::AlreadyExists)
    );
    let member = get_collab_member(&store, &identify(1, "o1")).unwrap();
    assert_eq!(member.permission, AccessLevel::Read);
    assert_eq!(
        policy.access_level_of(1, &s("o1")),
        Some(AccessLevel::Read)
    );
}

#[test]
fn delete_missing_membership_is_idempotent() {
    let mut store = MemberStore::new();
    let mut policy = InMemoryAccessControl::new();
    assert_eq!(
        delete_collab_member(&mut store, &identify(7, "nowhere"), &mut policy),
        Ok(())
    );
    assert_eq!(
        get_collab_member(&store, &identify(7, "nowhere")),
        Err(AccessError::NotFound)
    );
}

#[test]
fn delete_removes_member_and_policy_entry() {
    let mut store = MemberStore::new();
    let mut policy = InMemoryAccessControl::new();
    let params = insert_params(1, "o1", AccessLevel::Owner);
    assert_eq!(create_collab_member(&mut store, &params, &mut policy), Ok(()));
    assert_eq!(
        delete_collab_member(&mut store, &identify(1, "o1"), &mut policy),
        Ok(())
    );
    assert_eq!(
        get_collab_member(&store, &identify(1, "o1")),
        Err(AccessError::NotFound)
    );
    assert_eq!(policy.access_level_of(1, &s("o1")), None);
}

#[test]
fn create_then_upsert_updates_the_level() {
    let mut store = MemberStore::new();
    let mut policy = InMemoryAccessControl::new();
    let uuid = s("11111111-2222-3333-4444-555555555555");
    assert_eq!(
        create_collab_member(&mut store, &insert_params(1, "o1", AccessLevel::Read), &mut policy),
        Ok(())
    );
    assert_eq!(
        upsert_collab_member(
            &mut store,
            &uuid,
            &update_params(1, "o1", AccessLevel::Write),
            &mut policy
        ),
        Ok(())
    );
    let member = get_collab_member(&store, &identify(1, "o1")).unwrap();
    assert_eq!(member.permission, AccessLevel::Write);
    assert_eq!(
        policy.access_level_of(1, &s("o1")),
        Some(AccessLevel::Write)
    );
}

#[test]
fn upsert_inserts_when_absent() {
    let mut store = MemberStore::new();
    let mut policy = InMemoryAccessControl::new();
    let uuid = s("abc");
    assert_eq!(
        upsert_collab_member(
            &mut store,
            &uuid,
            &update_params(9, "o2", AccessLevel::Write),
            &mut policy
        ),
        Ok(())
    );
    let member = get_collab_member(&store, &identify(9, "o2")).unwrap();
    assert_eq!(member.permission, AccessLevel::Write);
}

#[test]
fn empty_object_id_is_invalid_input_everywhere() {
    let mut store = MemberStore::new();
    let mut policy = InMemoryAccessControl::new();
    let uuid = s("abc");
    assert_eq!(
        create_collab_member(&mut store, &insert_params(1, "", AccessLevel::Read), &mut policy),
        Err(AccessError::InvalidInput)
    );
    assert_eq!(
        upsert_collab_member(
            &mut store,
            &uuid,
            &update_params(1, "", AccessLevel::Read),
            &mut policy
        ),
        Err(AccessError::InvalidInput)
    );
    assert_eq!(
        get_collab_member(&store, &identify(1, "")),
        Err(AccessError::InvalidInput)
    );
    assert_eq!(
        delete_collab_member(&mut store, &identify(1, ""), &mut policy),
        Err(AccessError::InvalidInput)
    );
    assert_eq!(
        get_collab_member_list(&store, &QueryCollabMembers { object_id: s("") }),
        Err(AccessError::InvalidInput)
    );
}

#[test]
fn get_missing_membership_returns_not_found() {
    let store = MemberStore::new();
    assert_eq!(
        get_collab_member(&store, &identify(42, "o9")),
        Err(AccessError::NotFound)
    );
}

#[test]
fn list_returns_only_members_of_the_object() {
    let mut store = MemberStore::new();
    let mut policy = InMemoryAccessControl::new();
    assert_eq!(
        create_collab_member(&mut store, &insert_params(1, "o1", AccessLevel::Read), &mut policy),
        Ok(())
    );
    assert_eq!(
        create_collab_member(&mut store, &insert_params(2, "o1", AccessLevel::Write), &mut policy),
        Ok(())
    );
    assert_eq!(
        create_collab_member(&mut store, &insert_params(1, "o2", AccessLevel::Owner), &mut policy),
        Ok(())
    );
    let members = get_collab_member_list(&store, &QueryCollabMembers { object_id: s("o1") })
        .unwrap();
    assert_eq!(members.len(), 2);
    assert_eq!(members[0].uid, 1);
    assert_eq!(members[0].permission, AccessLevel::Read);
    assert_eq!(members[1].uid, 2);
    assert_eq!(members[1].permission, AccessLevel::Write);
    assert!(members.iter().all(|m| m.oid == s("o1")));
}

#[test]
fn create_rolls_back_when_policy_rejects() {
    let mut store = MemberStore::new();
    let mut policy = RejectingAccessControl::new();
    assert_eq!(
        create_collab_member(&mut store, &insert_params(1, "o1", AccessLevel::Read), &mut policy),
        Err(AccessError::PolicyUpdateFailure)
    );
    assert_eq!(
        get_collab_member(&store, &identify(1, "o1")),
        Err(AccessError::NotFound)
    );
}

#[test]
fn delete_rolls_back_when_policy_rejects() {
    let mut store = MemberStore::new();
    let mut policy = InMemoryAccessControl::new();
    assert_eq!(
        create_collab_member(&mut store, &insert_params(1, "o1", AccessLevel::Read), &mut policy),
        Ok(())
    );
    let mut rejecting = RejectingAccessControl::new();
    assert_eq!(
        delete_collab_member(&mut store, &identify(1, "o1"), &mut rejecting),
        Err(AccessError::PolicyUpdateFailure)
    );
    let member = get_collab_member(&store, &identify(1, "o1")).unwrap();
    assert_eq!(member.permission, AccessLevel::Read);
}

#[test]
fn upsert_leaves_member_store_untouched_when_policy_rejects() {
    let mut store = MemberStore::new();
    let mut rejecting = RejectingAccessControl::new();
    let uuid = s("abc");
    assert_eq!(
        upsert_collab_member(
            &mut store,
            &uuid,
            &update_params(1, "o1", AccessLevel::Write),
            &mut rejecting
        ),
        Err(AccessError::PolicyUpdateFailure)
    );
    assert_eq!(
        get_collab_member(&store, &identify(1, "o1")),
        Err(AccessError::NotFound)
    );
}
