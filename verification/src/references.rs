//! Whether staged references name entities that the changeset can see.

use vstd::prelude::*;

use std::collections::HashSet;

use crate::text::str_eq;
use crate::types::EntityKind;

verus! {

broadcast use vstd::std_specs::hash::group_hash_axioms;

/// Every reference names a node that is staged (created or updated) or published, and that
/// the changeset does not delete.
pub open spec fn spec_nodes_exist(
    refs: Seq<i64>,
    published: Set<i64>,
    staged: Set<i64>,
    deleted: Set<i64>,
) -> bool {
    forall|i: int|
        0 <= i < refs.len() ==> (staged.contains(#[trigger] refs[i]) || published.contains(refs[i]))
            && !deleted.contains(refs[i])
}

/// Whether the node references of a staged way all exist for the changeset. `published`
/// holds the live published ids among them, `staged` the ids the changeset creates or updates,
/// `deleted` the ids it deletes.
pub fn effective_nodes_exist(
    refs: &Vec<i64>,
    published: &HashSet<i64>,
    staged: &HashSet<i64>,
    deleted: &HashSet<i64>,
) -> (r: bool)
    ensures
        r == spec_nodes_exist(refs@, published@, staged@, deleted@),
{
    let mut i: usize = 0;
    while i < refs.len()
        invariant
            i <= refs@.len(),
            forall|k: int|
                0 <= k < i ==> (staged@.contains(#[trigger] refs@[k]) || published@.contains(
                    refs@[k],
                )) && !deleted@.contains(refs@[k]),
        decreases refs@.len() - i,
    {
        let id = refs[i];
        if !((staged.contains(&id) || published.contains(&id)) && !deleted.contains(&id)) {
            return false;
        }
        i += 1;
    }
    true
}

/// The entity kind a member type names, if any.
pub open spec fn spec_member_kind(member_type: Seq<char>) -> Option<EntityKind> {
    if member_type == "node"@ {
        Some(EntityKind::Node)
    } else if member_type == "way"@ {
        Some(EntityKind::Way)
    } else if member_type == "relation"@ {
        Some(EntityKind::Relation)
    } else {
        None
    }
}

/// The entity kind a member type names; members of other types name nothing.
pub fn member_kind(member_type: &str) -> (r: Option<EntityKind>)
    ensures
        r == spec_member_kind(member_type@),
{
    if str_eq(member_type, "node") {
        Some(EntityKind::Node)
    } else if str_eq(member_type, "way") {
        Some(EntityKind::Way)
    } else if str_eq(member_type, "relation") {
        Some(EntityKind::Relation)
    } else {
        None
    }
}

/// Whether a member exists for the changeset: not staged for deletion, and published or
/// staged (created or updated).
pub fn member_exists(deleted: bool, published: bool, staged: bool) -> (r: bool)
    ensures
        r == (!deleted && (published || staged)),
{
    if deleted {
        false
    } else if published {
        true
    } else {
        staged
    }
}

} // verus!
