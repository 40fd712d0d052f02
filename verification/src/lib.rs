//! Access control and document materialization for a collaborative
//! workspace: membership records kept in lockstep with an access-control
//! policy store, and folder hierarchies decoded from stored documents,
//! truncated to a bounded depth or filtered to the published views.

pub mod error;
pub mod folder;
pub mod member;
pub mod ops;
pub mod policy;
pub mod publish;
pub mod storage;
