//! A two-module voting protocol: a membership registry that records which
//! identities may vote, and a ballot module that tallies votes, admitting only
//! members and at most one vote per identity and proposal.
pub mod identity;
pub mod laws;
pub mod registry;
pub mod voting;
