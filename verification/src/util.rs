//! Hashing names into the numeric ids of devices and pipeconfs.

use vstd::prelude::*;
use std::hash::BuildHasher;
use crate::flow::{Flow, FlowView};

verus! {

/// What the standard library's default hasher gives for a text. The hasher
/// is SipHash with fixed keys, so a text hashes the same in every run of the
/// same build; nothing is claimed of its value.
pub uninterp spec fn str_hash(s: Seq<char>) -> u64;

/// Calls `BuildHasher::hash_one` of `BuildHasherDefault<DefaultHasher>`, the
/// same as hashing into a fresh `DefaultHasher` and finishing. The contract
/// says only that the result is `str_hash` of the text.
#[verifier::external_body]
fn default_hash_str(s: &str) -> (r: u64)
    ensures
        r == str_hash(s@),
{
    std::hash::BuildHasherDefault::<std::collections::hash_map::DefaultHasher>::default().hash_one(s)
}

/// The default hash of a name, used as the id of what the name names.
pub fn hash(obj: &str) -> (r: u64)
    ensures
        r == str_hash(obj@),
{
    default_hash_str(obj)
}

/// What the standard library's default hasher gives for a flow: the hash of
/// its table, key, action and parameters, priority and metadata. A flow
/// hashes the same in every run of the same build; nothing is claimed of
/// the value.
pub uninterp spec fn flow_hash(f: FlowView) -> u64;

/// Calls `BuildHasher::hash_one` of `BuildHasherDefault<DefaultHasher>` on a
/// flow, whose `Hash` is derived field by field. The contract says only that
/// the result is `flow_hash` of what the flow holds.
#[verifier::external_body]
fn default_hash_flow(f: &Flow) -> (r: u64)
    ensures
        r == flow_hash(f@),
{
    std::hash::BuildHasherDefault::<std::collections::hash_map::DefaultHasher>::default().hash_one(f)
}

/// The default hash of a flow, used as its controller metadata.
pub fn hash_flow(flow: &Flow) -> (r: u64)
    ensures
        r == flow_hash(flow@),
{
    default_hash_flow(flow)
}

} // verus!
