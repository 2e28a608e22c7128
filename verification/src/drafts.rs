//! The child lists a staged way or relation owns.

use vstd::prelude::*;

use crate::topology::{MemberRow, WayNodeRow};
use crate::types::RelationMember;

verus! {

/// A way is closed when its first and last references agree (an empty way counts as closed).
pub open spec fn spec_way_is_closed(refs: Seq<i64>) -> bool {
    refs.len() == 0 || refs[0] == refs.last()
}

/// Whether a staged way's node list closes on itself.
pub fn way_is_closed(refs: &Vec<i64>) -> (r: bool)
    ensures
        r == spec_way_is_closed(refs@),
{
    if refs.len() == 0 {
        true
    } else {
        refs[0] == refs[refs.len() - 1]
    }
}

/// The staged node list of way `way_id`: one entry per reference, numbered from 0 in order.
pub fn way_children(way_id: i64, refs: &Vec<i64>) -> (r: Vec<WayNodeRow>)
    ensures
        r@.len() == refs@.len(),
        forall|k: int|
            0 <= k < refs@.len() ==> #[trigger] r@[k] == (WayNodeRow {
                way_id,
                seq: k as i32,
                node_id: refs@[k],
            }),
{
    let mut out: Vec<WayNodeRow> = Vec::new();
    let mut i: usize = 0;
    while i < refs.len()
        invariant
            i <= refs@.len(),
            out@.len() == i,
            forall|k: int|
                0 <= k < i ==> #[trigger] out@[k] == (WayNodeRow {
                    way_id,
                    seq: k as i32,
                    node_id: refs@[k],
                }),
        decreases refs@.len() - i,
    {
        out.push(WayNodeRow { way_id, seq: i as i32, node_id: refs[i] });
        i += 1;
    }
    out
}

/// The staged member list of relation `relation_id`: one entry per member, numbered from 0 in
/// order.
pub fn member_children(relation_id: i64, members: &Vec<RelationMember>) -> (r: Vec<MemberRow>)
    ensures
        r@.len() == members@.len(),
        forall|k: int|
            0 <= k < members@.len() ==> #[trigger] r@[k] == (MemberRow {
                relation_id,
                seq: k as i32,
                member_type: members@[k].member_type,
                member_id: members@[k].member_id,
                role: members@[k].role,
            }),
{
    let mut out: Vec<MemberRow> = Vec::new();
    let mut i: usize = 0;
    while i < members.len()
        invariant
            i <= members@.len(),
            out@.len() == i,
            forall|k: int|
                0 <= k < i ==> #[trigger] out@[k] == (MemberRow {
                    relation_id,
                    seq: k as i32,
                    member_type: members@[k].member_type,
                    member_id: members@[k].member_id,
                    role: members@[k].role,
                }),
        decreases members@.len() - i,
    {
        let m = &members[i];
        out.push(
            MemberRow {
                relation_id,
                seq: i as i32,
                member_type: m.member_type.clone(),
                member_id: m.member_id,
                role: match &m.role {
                    Some(role) => Some(role.clone()),
                    None => None,
                },
            },
        );
        i += 1;
    }
    out
}

} // verus!
