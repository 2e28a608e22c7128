//! Publication of a changeset: the checks that gate it and the rows it writes.

use vstd::prelude::*;

use std::collections::{HashMap, HashSet};

use crate::text::str_eq;
use crate::topology::{MemberRow, WayNodeRow};
use crate::types::{DomainError, Tags};

verus! {

broadcast use vstd::std_specs::hash::group_hash_axioms;

/// A staged row as publication checks see it.
#[derive(Debug, Clone)]
pub struct DraftHeader {
    pub id: i64,
    pub operation: String,
    pub base_version: Option<i32>,
}

/// Whether an operation name is `op`.
pub open spec fn op_is(operation: String, op: Seq<char>) -> bool {
    operation@ == op
}

/// The version of a published row, or `None` when there is none.
pub open spec fn version_in(current: Map<i64, i32>, id: i64) -> Option<i32> {
    if current.contains_key(id) {
        Some(current[id])
    } else {
        None
    }
}

/// A staged update or deletion whose base version is not the published version.
pub open spec fn has_version_conflict(rows: Seq<DraftHeader>, current: Map<i64, i32>) -> bool {
    exists|i: int|
        0 <= i < rows.len() && !op_is((#[trigger] rows[i]).operation, "create"@) && version_in(
            current,
            rows[i].id,
        ) != rows[i].base_version
}

/// Staged updates and deletions must rest on the published version of their entity.
/// `current` maps each published id to its version (deleted rows included).
pub fn check_version_conflicts(rows: &Vec<DraftHeader>, current: &HashMap<i64, i32>) -> (r: Result<
    (),
    DomainError,
>)
    ensures
        r == if has_version_conflict(rows@, current@) {
            Err::<(), DomainError>(DomainError::VersionConflict)
        } else {
            Ok(())
        },
{
    let mut i: usize = 0;
    while i < rows.len()
        invariant
            i <= rows@.len(),
            forall|k: int|
                0 <= k < i ==> !(!op_is((#[trigger] rows@[k]).operation, "create"@) && version_in(
                    current@,
                    rows@[k].id,
                ) != rows@[k].base_version),
        decreases rows@.len() - i,
    {
        let row = &rows[i];
        if !str_eq(row.operation.as_str(), "create") {
            let published = match current.get(&row.id) {
                Some(v) => Some(*v),
                None => None,
            };
            if published != row.base_version {
                return Err(DomainError::VersionConflict);
            }
        }
        i += 1;
    }
    Ok(())
}

/// A staged creation whose id is already taken by a published row.
pub open spec fn has_id_conflict(rows: Seq<DraftHeader>, published: Set<i64>) -> bool {
    exists|i: int|
        0 <= i < rows.len() && op_is((#[trigger] rows[i]).operation, "create"@) && published.contains(
            rows[i].id,
        )
}

/// Staged creations must not reuse the id of a published row (deleted rows included).
pub fn check_id_conflicts(rows: &Vec<DraftHeader>, published: &HashSet<i64>) -> (r: Result<
    (),
    DomainError,
>)
    ensures
        r == if has_id_conflict(rows@, published@) {
            Err::<(), DomainError>(DomainError::IdConflict)
        } else {
            Ok(())
        },
{
    let mut i: usize = 0;
    while i < rows.len()
        invariant
            i <= rows@.len(),
            forall|k: int|
                0 <= k < i ==> !(op_is((#[trigger] rows@[k]).operation, "create"@)
                    && published@.contains(rows@[k].id)),
        decreases rows@.len() - i,
    {
        let row = &rows[i];
        if str_eq(row.operation.as_str(), "create") && published.contains(&row.id) {
            return Err(DomainError::IdConflict);
        }
        i += 1;
    }
    Ok(())
}

/// Only staged creations can clash with published ids: inserting a row of another operation
/// anywhere leaves the verdict as it was, and a creation of a published id always clashes.
pub proof fn law_only_creations_conflict_on_ids(
    rows: Seq<DraftHeader>,
    k: int,
    x: DraftHeader,
    published: Set<i64>,
)
    requires
        0 <= k <= rows.len(),
    ensures
        x.operation@ != "create"@ ==> has_id_conflict(rows.insert(k, x), published)
            == has_id_conflict(rows, published),
        x.operation@ == "create"@ && published.contains(x.id) ==> has_id_conflict(
            rows.insert(k, x),
            published,
        ),
{
    let t = rows.insert(k, x);
    assert(t[k] == x);
    if has_id_conflict(rows, published) {
        let i = choose|i: int|
            0 <= i < rows.len() && op_is((#[trigger] rows[i]).operation, "create"@)
                && published.contains(rows[i].id);
        if i < k {
            assert(t[i] == rows[i]);
        } else {
            assert(t[i + 1] == rows[i]);
        }
    }
    if x.operation@ != "create"@ && has_id_conflict(t, published) {
        let i = choose|i: int|
            0 <= i < t.len() && op_is((#[trigger] t[i]).operation, "create"@) && published.contains(
                t[i].id,
            );
        if i < k {
            assert(t[i] == rows[i]);
        } else if i > k {
            assert(t[i] == rows[i - 1]);
        }
    }
}

/// Only staged updates and deletions can be stale: inserting a creation anywhere leaves the
/// verdict as it was, and an edit whose base is not the published version is always stale.
pub proof fn law_only_edits_conflict_on_versions(
    rows: Seq<DraftHeader>,
    k: int,
    x: DraftHeader,
    current: Map<i64, i32>,
)
    requires
        0 <= k <= rows.len(),
    ensures
        x.operation@ == "create"@ ==> has_version_conflict(rows.insert(k, x), current)
            == has_version_conflict(rows, current),
        x.operation@ != "create"@ && x.base_version != (if current.contains_key(x.id) {
            Some(current[x.id])
        } else {
            None
        }) ==> has_version_conflict(rows.insert(k, x), current),
{
    let t = rows.insert(k, x);
    assert(t[k] == x);
    if has_version_conflict(rows, current) {
        let i = choose|i: int|
            0 <= i < rows.len() && !op_is((#[trigger] rows[i]).operation, "create"@) && version_in(
                current,
                rows[i].id,
            ) != rows[i].base_version;
        if i < k {
            assert(t[i] == rows[i]);
        } else {
            assert(t[i + 1] == rows[i]);
        }
    }
    if x.operation@ == "create"@ && has_version_conflict(t, current) {
        let i = choose|i: int|
            0 <= i < t.len() && !op_is((#[trigger] t[i]).operation, "create"@) && version_in(
                current,
                t[i].id,
            ) != t[i].base_version;
        if i < k {
            assert(t[i] == rows[i]);
        } else if i > k {
            assert(t[i] == rows[i - 1]);
        }
    }
}

// ---- staged values ----

/// A staged node as stored: coordinates (IEEE-754 bit patterns) and fields may be missing.
#[derive(Debug, Clone)]
pub struct NodeDraft {
    pub id: i64,
    pub operation: String,
    pub x: Option<u64>,
    pub y: Option<u64>,
    pub z: Option<u64>,
    pub tags: Option<Tags>,
    pub staged_by: i64,
}

/// The values a published node row takes from its draft.
#[derive(Debug, Clone)]
pub struct NodeValues {
    pub id: i64,
    pub x: u64,
    pub y: u64,
    pub z: u64,
    pub tags: Tags,
    pub staged_by: i64,
}

/// A staged way as stored.
#[derive(Debug, Clone)]
pub struct WayDraft {
    pub id: i64,
    pub operation: String,
    pub geometry_kind: Option<String>,
    pub is_closed: Option<bool>,
    pub tags: Option<Tags>,
    pub staged_by: i64,
}

/// The values a published way row takes from its draft.
#[derive(Debug, Clone)]
pub struct WayValues {
    pub id: i64,
    pub geometry_kind: String,
    pub is_closed: bool,
    pub tags: Tags,
    pub staged_by: i64,
}

/// A staged relation as stored.
#[derive(Debug, Clone)]
pub struct RelationDraft {
    pub id: i64,
    pub operation: String,
    pub relation_type: Option<String>,
    pub tags: Option<Tags>,
    pub staged_by: i64,
}

/// The values a published relation row takes from its draft.
#[derive(Debug, Clone)]
pub struct RelationValues {
    pub id: i64,
    pub relation_type: String,
    pub tags: Tags,
    pub staged_by: i64,
}

/// The tags a published row takes: the staged tags, or none.
pub open spec fn tags_or_empty(tags: Option<Tags>) -> Seq<(String, String)> {
    match tags {
        Some(t) => t@,
        None => Seq::empty(),
    }
}

pub open spec fn node_complete(d: NodeDraft) -> bool {
    d.x is Some && d.y is Some && d.z is Some
}

pub open spec fn node_values_of(d: NodeDraft, v: NodeValues) -> bool {
    &&& v.id == d.id
    &&& Some(v.x) == d.x
    &&& Some(v.y) == d.y
    &&& Some(v.z) == d.z
    &&& v.tags@ == tags_or_empty(d.tags)
    &&& v.staged_by == d.staged_by
}

pub open spec fn way_complete(d: WayDraft) -> bool {
    d.geometry_kind is Some
}

pub open spec fn way_values_of(d: WayDraft, v: WayValues) -> bool {
    &&& v.id == d.id
    &&& Some(v.geometry_kind) == d.geometry_kind
    &&& v.is_closed == (d.is_closed == Some(true))
    &&& v.tags@ == tags_or_empty(d.tags)
    &&& v.staged_by == d.staged_by
}

pub open spec fn relation_complete(d: RelationDraft) -> bool {
    d.relation_type is Some
}

pub open spec fn relation_values_of(d: RelationDraft, v: RelationValues) -> bool {
    &&& v.id == d.id
    &&& Some(v.relation_type) == d.relation_type
    &&& v.tags@ == tags_or_empty(d.tags)
    &&& v.staged_by == d.staged_by
}

/// The tags of a staged row, or none.
fn staged_tags(tags: &Option<Tags>) -> (r: Tags)
    ensures
        r@ == tags_or_empty(*tags),
{
    match tags {
        Some(t) => t.duplicate(),
        None => Tags::new(),
    }
}

/// The published values of a staged node; every coordinate is required.
pub fn node_values(d: &NodeDraft) -> (r: Result<NodeValues, DomainError>)
    ensures
        match r {
            Ok(v) => node_complete(*d) && node_values_of(*d, v),
            Err(e) => !node_complete(*d) && e == DomainError::InvalidNodeDraft,
        },
{
    match (d.x, d.y, d.z) {
        (Some(x), Some(y), Some(z)) => Ok(
            NodeValues {
                id: d.id,
                x,
                y,
                z,
                tags: staged_tags(&d.tags),
                staged_by: d.staged_by,
            },
        ),
        _ => Err(DomainError::InvalidNodeDraft),
    }
}

/// The published values of a staged way; the geometry kind is required, a missing closed flag
/// reads as open.
pub fn way_values(d: &WayDraft) -> (r: Result<WayValues, DomainError>)
    ensures
        match r {
            Ok(v) => way_complete(*d) && way_values_of(*d, v),
            Err(e) => !way_complete(*d) && e == DomainError::InvalidWayDraft,
        },
{
    match &d.geometry_kind {
        Some(geometry_kind) => Ok(
            WayValues {
                id: d.id,
                geometry_kind: geometry_kind.clone(),
                is_closed: match d.is_closed {
                    Some(c) => c,
                    None => false,
                },
                tags: staged_tags(&d.tags),
                staged_by: d.staged_by,
            },
        ),
        None => Err(DomainError::InvalidWayDraft),
    }
}

/// The published values of a staged relation; the relation type is required.
pub fn relation_values(d: &RelationDraft) -> (r: Result<RelationValues, DomainError>)
    ensures
        match r {
            Ok(v) => relation_complete(*d) && relation_values_of(*d, v),
            Err(e) => !relation_complete(*d) && e == DomainError::InvalidRelationDraft,
        },
{
    match &d.relation_type {
        Some(relation_type) => Ok(
            RelationValues {
                id: d.id,
                relation_type: relation_type.clone(),
                tags: staged_tags(&d.tags),
                staged_by: d.staged_by,
            },
        ),
        None => Err(DomainError::InvalidRelationDraft),
    }
}

/// The staged nodes whose operation is `op`, in row order.
pub open spec fn nodes_with(rows: Seq<NodeDraft>, op: Seq<char>) -> Seq<NodeDraft>
    decreases rows.len(),
{
    if rows.len() == 0 {
        Seq::empty()
    } else if rows.last().operation@ == op {
        nodes_with(rows.drop_last(), op).push(rows.last())
    } else {
        nodes_with(rows.drop_last(), op)
    }
}

/// Every staged node whose operation is `op` carries the required fields.
pub open spec fn nodes_complete(rows: Seq<NodeDraft>, op: Seq<char>) -> bool {
    forall|i: int|
        0 <= i < rows.len() && (#[trigger] rows[i]).operation@ == op ==> node_complete(rows[i])
}

/// `vs` holds the published values of `ds`, one for one.
pub open spec fn node_values_list(ds: Seq<NodeDraft>, vs: Seq<NodeValues>) -> bool {
    ds.len() == vs.len() && forall|j: int| 0 <= j < ds.len() ==> node_values_of(ds[j], #[trigger] vs[j])
}

/// The published values of the staged nodes whose operation is `op`.
fn select_nodes(rows: &Vec<NodeDraft>, op: &str) -> (r: Result<Vec<NodeValues>, DomainError>)
    ensures
        match r {
            Ok(out) => nodes_complete(rows@, op@) && node_values_list(nodes_with(rows@, op@), out@),
            Err(e) => !nodes_complete(rows@, op@) && e == DomainError::InvalidNodeDraft,
        },
{
    let mut out: Vec<NodeValues> = Vec::new();
    let mut i: usize = 0;
    while i < rows.len()
        invariant
            i <= rows@.len(),
            forall|k: int|
                0 <= k < i && (#[trigger] rows@[k]).operation@ == op@ ==> node_complete(rows@[k]),
            node_values_list(nodes_with(rows@.take(i as int), op@), out@),
        decreases rows@.len() - i,
    {
        let row = &rows[i];
        proof {
            let t = rows@.take(i + 1);
            assert(t.drop_last() =~= rows@.take(i as int));
            assert(t.last() == *row);
        }
        if str_eq(row.operation.as_str(), op) {
            let v = node_values(row)?;
            let ghost before = out@;
            out.push(v);
            proof {
                let ds = nodes_with(rows@.take(i + 1), op@);
                assert forall|j: int| 0 <= j < ds.len() implies node_values_of(ds[j], #[trigger] out@[j]) by {
                    if j < before.len() {
                        assert(out@[j] == before[j]);
                    }
                }
            }
        }
        i += 1;
    }
    assert(rows@.take(i as int) =~= rows@);
    Ok(out)
}

/// `out` lists the ids and stagers of `ds`, one for one.
pub open spec fn node_deletions(ds: Seq<NodeDraft>, out: Seq<(i64, i64)>) -> bool {
    ds.len() == out.len() && forall|j: int| 0 <= j < ds.len() ==> #[trigger] out[j] == (ds[j].id, ds[j].staged_by)
}

/// The ids and stagers of the staged node deletions.
fn node_deletes(rows: &Vec<NodeDraft>) -> (r: Vec<(i64, i64)>)
    ensures
        node_deletions(nodes_with(rows@, "delete"@), r@),
{
    let mut out: Vec<(i64, i64)> = Vec::new();
    let mut i: usize = 0;
    while i < rows.len()
        invariant
            i <= rows@.len(),
            node_deletions(nodes_with(rows@.take(i as int), "delete"@), out@),
        decreases rows@.len() - i,
    {
        let row = &rows[i];
        proof {
            let t = rows@.take(i + 1);
            assert(t.drop_last() =~= rows@.take(i as int));
            assert(t.last() == *row);
        }
        if str_eq(row.operation.as_str(), "delete") {
            let ghost before = out@;
            out.push((row.id, row.staged_by));
            proof {
                let ds = nodes_with(rows@.take(i + 1), "delete"@);
                assert forall|j: int| 0 <= j < ds.len() implies #[trigger] out@[j] == (ds[j].id, ds[j].staged_by) by {
                    if j < before.len() {
                        assert(out@[j] == before[j]);
                    }
                }
            }
        }
        i += 1;
    }
    assert(rows@.take(i as int) =~= rows@);
    out
}

/// The staged ways whose operation is `op`, in row order.
pub open spec fn ways_with(rows: Seq<WayDraft>, op: Seq<char>) -> Seq<WayDraft>
    decreases rows.len(),
{
    if rows.len() == 0 {
        Seq::empty()
    } else if rows.last().operation@ == op {
        ways_with(rows.drop_last(), op).push(rows.last())
    } else {
        ways_with(rows.drop_last(), op)
    }
}

/// Every staged way whose operation is `op` carries the required fields.
pub open spec fn ways_complete(rows: Seq<WayDraft>, op: Seq<char>) -> bool {
    forall|i: int|
        0 <= i < rows.len() && (#[trigger] rows[i]).operation@ == op ==> way_complete(rows[i])
}

/// `vs` holds the published values of `ds`, one for one.
pub open spec fn way_values_list(ds: Seq<WayDraft>, vs: Seq<WayValues>) -> bool {
    ds.len() == vs.len() && forall|j: int| 0 <= j < ds.len() ==> way_values_of(ds[j], #[trigger] vs[j])
}

/// The published values of the staged ways whose operation is `op`.
fn select_ways(rows: &Vec<WayDraft>, op: &str) -> (r: Result<Vec<WayValues>, DomainError>)
    ensures
        match r {
            Ok(out) => ways_complete(rows@, op@) && way_values_list(ways_with(rows@, op@), out@),
            Err(e) => !ways_complete(rows@, op@) && e == DomainError::InvalidWayDraft,
        },
{
    let mut out: Vec<WayValues> = Vec::new();
    let mut i: usize = 0;
    while i < rows.len()
        invariant
            i <= rows@.len(),
            forall|k: int|
                0 <= k < i && (#[trigger] rows@[k]).operation@ == op@ ==> way_complete(rows@[k]),
            way_values_list(ways_with(rows@.take(i as int), op@), out@),
        decreases rows@.len() - i,
    {
        let row = &rows[i];
        proof {
            let t = rows@.take(i + 1);
            assert(t.drop_last() =~= rows@.take(i as int));
            assert(t.last() == *row);
        }
        if str_eq(row.operation.as_str(), op) {
            let v = way_values(row)?;
            let ghost before = out@;
            out.push(v);
            proof {
                let ds = ways_with(rows@.take(i + 1), op@);
                assert forall|j: int| 0 <= j < ds.len() implies way_values_of(ds[j], #[trigger] out@[j]) by {
                    if j < before.len() {
                        assert(out@[j] == before[j]);
                    }
                }
            }
        }
        i += 1;
    }
    assert(rows@.take(i as int) =~= rows@);
    Ok(out)
}

/// `out` lists the ids and stagers of `ds`, one for one.
pub open spec fn way_deletions(ds: Seq<WayDraft>, out: Seq<(i64, i64)>) -> bool {
    ds.len() == out.len() && forall|j: int| 0 <= j < ds.len() ==> #[trigger] out[j] == (ds[j].id, ds[j].staged_by)
}

/// The ids and stagers of the staged way deletions.
fn way_deletes(rows: &Vec<WayDraft>) -> (r: Vec<(i64, i64)>)
    ensures
        way_deletions(ways_with(rows@, "delete"@), r@),
{
    let mut out: Vec<(i64, i64)> = Vec::new();
    let mut i: usize = 0;
    while i < rows.len()
        invariant
            i <= rows@.len(),
            way_deletions(ways_with(rows@.take(i as int), "delete"@), out@),
        decreases rows@.len() - i,
    {
        let row = &rows[i];
        proof {
            let t = rows@.take(i + 1);
            assert(t.drop_last() =~= rows@.take(i as int));
            assert(t.last() == *row);
        }
        if str_eq(row.operation.as_str(), "delete") {
            let ghost before = out@;
            out.push((row.id, row.staged_by));
            proof {
                let ds = ways_with(rows@.take(i + 1), "delete"@);
                assert forall|j: int| 0 <= j < ds.len() implies #[trigger] out@[j] == (ds[j].id, ds[j].staged_by) by {
                    if j < before.len() {
                        assert(out@[j] == before[j]);
                    }
                }
            }
        }
        i += 1;
    }
    assert(rows@.take(i as int) =~= rows@);
    out
}

/// The staged relations whose operation is `op`, in row order.
pub open spec fn relations_with(rows: Seq<RelationDraft>, op: Seq<char>) -> Seq<RelationDraft>
    decreases rows.len(),
{
    if rows.len() == 0 {
        Seq::empty()
    } else if rows.last().operation@ == op {
        relations_with(rows.drop_last(), op).push(rows.last())
    } else {
        relations_with(rows.drop_last(), op)
    }
}

/// Every staged relation whose operation is `op` carries the required fields.
pub open spec fn relations_complete(rows: Seq<RelationDraft>, op: Seq<char>) -> bool {
    forall|i: int|
        0 <= i < rows.len() && (#[trigger] rows[i]).operation@ == op ==> relation_complete(rows[i])
}

/// `vs` holds the published values of `ds`, one for one.
pub open spec fn relation_values_list(ds: Seq<RelationDraft>, vs: Seq<RelationValues>) -> bool {
    ds.len() == vs.len() && forall|j: int| 0 <= j < ds.len() ==> relation_values_of(ds[j], #[trigger] vs[j])
}

/// The published values of the staged relations whose operation is `op`.
fn select_relations(rows: &Vec<RelationDraft>, op: &str) -> (r: Result<Vec<RelationValues>, DomainError>)
    ensures
        match r {
            Ok(out) => relations_complete(rows@, op@) && relation_values_list(relations_with(rows@, op@), out@),
            Err(e) => !relations_complete(rows@, op@) && e == DomainError::InvalidRelationDraft,
        },
{
    let mut out: Vec<RelationValues> = Vec::new();
    let mut i: usize = 0;
    while i < rows.len()
        invariant
            i <= rows@.len(),
            forall|k: int|
                0 <= k < i && (#[trigger] rows@[k]).operation@ == op@ ==> relation_complete(rows@[k]),
            relation_values_list(relations_with(rows@.take(i as int), op@), out@),
        decreases rows@.len() - i,
    {
        let row = &rows[i];
        proof {
            let t = rows@.take(i + 1);
            assert(t.drop_last() =~= rows@.take(i as int));
            assert(t.last() == *row);
        }
        if str_eq(row.operation.as_str(), op) {
            let v = relation_values(row)?;
            let ghost before = out@;
            out.push(v);
            proof {
                let ds = relations_with(rows@.take(i + 1), op@);
                assert forall|j: int| 0 <= j < ds.len() implies relation_values_of(ds[j], #[trigger] out@[j]) by {
                    if j < before.len() {
                        assert(out@[j] == before[j]);
                    }
                }
            }
        }
        i += 1;
    }
    assert(rows@.take(i as int) =~= rows@);
    Ok(out)
}

/// `out` lists the ids and stagers of `ds`, one for one.
pub open spec fn relation_deletions(ds: Seq<RelationDraft>, out: Seq<(i64, i64)>) -> bool {
    ds.len() == out.len() && forall|j: int| 0 <= j < ds.len() ==> #[trigger] out[j] == (ds[j].id, ds[j].staged_by)
}

/// The ids and stagers of the staged relation deletions.
fn relation_deletes(rows: &Vec<RelationDraft>) -> (r: Vec<(i64, i64)>)
    ensures
        relation_deletions(relations_with(rows@, "delete"@), r@),
{
    let mut out: Vec<(i64, i64)> = Vec::new();
    let mut i: usize = 0;
    while i < rows.len()
        invariant
            i <= rows@.len(),
            relation_deletions(relations_with(rows@.take(i as int), "delete"@), out@),
        decreases rows@.len() - i,
    {
        let row = &rows[i];
        proof {
            let t = rows@.take(i + 1);
            assert(t.drop_last() =~= rows@.take(i as int));
            assert(t.last() == *row);
        }
        if str_eq(row.operation.as_str(), "delete") {
            let ghost before = out@;
            out.push((row.id, row.staged_by));
            proof {
                let ds = relations_with(rows@.take(i + 1), "delete"@);
                assert forall|j: int| 0 <= j < ds.len() implies #[trigger] out@[j] == (ds[j].id, ds[j].staged_by) by {
                    if j < before.len() {
                        assert(out@[j] == before[j]);
                    }
                }
            }
        }
        i += 1;
    }
    assert(rows@.take(i as int) =~= rows@);
    out
}

/// The rows publication writes, grouped as it applies them: creations, then updates and
/// deletions.
pub struct PublicationPlan {
    pub node_creates: Vec<NodeValues>,
    pub way_creates: Vec<WayValues>,
    pub relation_creates: Vec<RelationValues>,
    pub node_updates: Vec<NodeValues>,
    pub node_deletes: Vec<(i64, i64)>,
    pub way_updates: Vec<WayValues>,
    pub way_deletes: Vec<(i64, i64)>,
    pub relation_updates: Vec<RelationValues>,
    pub relation_deletes: Vec<(i64, i64)>,
}

/// The first staged row that lacks a required field, in the order publication applies them:
/// creations of nodes, ways and relations, then their updates.
pub open spec fn publication_error(
    nodes: Seq<NodeDraft>,
    ways: Seq<WayDraft>,
    relations: Seq<RelationDraft>,
) -> Option<DomainError> {
    if !nodes_complete(nodes, "create"@) {
        Some(DomainError::InvalidNodeDraft)
    } else if !ways_complete(ways, "create"@) {
        Some(DomainError::InvalidWayDraft)
    } else if !relations_complete(relations, "create"@) {
        Some(DomainError::InvalidRelationDraft)
    } else if !nodes_complete(nodes, "update"@) {
        Some(DomainError::InvalidNodeDraft)
    } else if !ways_complete(ways, "update"@) {
        Some(DomainError::InvalidWayDraft)
    } else if !relations_complete(relations, "update"@) {
        Some(DomainError::InvalidRelationDraft)
    } else {
        None
    }
}

/// The plan holds the published values of every staged row, by operation, in row order.
pub open spec fn plan_of(
    p: PublicationPlan,
    nodes: Seq<NodeDraft>,
    ways: Seq<WayDraft>,
    relations: Seq<RelationDraft>,
) -> bool {
    &&& node_values_list(nodes_with(nodes, "create"@), p.node_creates@)
    &&& way_values_list(ways_with(ways, "create"@), p.way_creates@)
    &&& relation_values_list(relations_with(relations, "create"@), p.relation_creates@)
    &&& node_values_list(nodes_with(nodes, "update"@), p.node_updates@)
    &&& node_deletions(nodes_with(nodes, "delete"@), p.node_deletes@)
    &&& way_values_list(ways_with(ways, "update"@), p.way_updates@)
    &&& way_deletions(ways_with(ways, "delete"@), p.way_deletes@)
    &&& relation_values_list(relations_with(relations, "update"@), p.relation_updates@)
    &&& relation_deletions(relations_with(relations, "delete"@), p.relation_deletes@)
}

/// The rows that publishing the staged nodes, ways and relations writes. Fails with the first
/// staged creation or update, in publication order, that lacks a required field.
pub fn plan_publication(
    nodes: &Vec<NodeDraft>,
    ways: &Vec<WayDraft>,
    relations: &Vec<RelationDraft>,
) -> (r: Result<PublicationPlan, DomainError>)
    ensures
        match r {
            Ok(p) => publication_error(nodes@, ways@, relations@) is None && plan_of(
                p,
                nodes@,
                ways@,
                relations@,
            ),
            Err(e) => publication_error(nodes@, ways@, relations@) == Some(e),
        },
{
    let node_creates = select_nodes(nodes, "create")?;
    let way_creates = select_ways(ways, "create")?;
    let relation_creates = select_relations(relations, "create")?;
    let node_updates = select_nodes(nodes, "update")?;
    let way_updates = select_ways(ways, "update")?;
    let relation_updates = select_relations(relations, "update")?;
    Ok(
        PublicationPlan {
            node_creates,
            way_creates,
            relation_creates,
            node_updates,
            node_deletes: node_deletes(nodes),
            way_updates,
            way_deletes: way_deletes(ways),
            relation_updates,
            relation_deletes: relation_deletes(relations),
        },
    )
}

// ---- child lists ----

/// The staged way node entries whose way is not deleted, in row order.
pub open spec fn live_way_node_rows(rows: Seq<WayNodeRow>, deleted: Set<i64>) -> Seq<WayNodeRow>
    decreases rows.len(),
{
    if rows.len() == 0 {
        Seq::empty()
    } else if deleted.contains(rows.last().way_id) {
        live_way_node_rows(rows.drop_last(), deleted)
    } else {
        live_way_node_rows(rows.drop_last(), deleted).push(rows.last())
    }
}

/// The staged member entries whose relation is not deleted, in row order.
pub open spec fn live_member_rows(rows: Seq<MemberRow>, deleted: Set<i64>) -> Seq<MemberRow>
    decreases rows.len(),
{
    if rows.len() == 0 {
        Seq::empty()
    } else if deleted.contains(rows.last().relation_id) {
        live_member_rows(rows.drop_last(), deleted)
    } else {
        live_member_rows(rows.drop_last(), deleted).push(rows.last())
    }
}

fn id_set(ids: &Vec<i64>) -> (r: HashSet<i64>)
    ensures
        r@ == ids@.to_set(),
{
    let mut set: HashSet<i64> = HashSet::new();
    let mut i: usize = 0;
    while i < ids.len()
        invariant
            i <= ids@.len(),
            set@ == ids@.take(i as int).to_set(),
        decreases ids@.len() - i,
    {
        proof {
            assert(ids@.take(i + 1) =~= ids@.take(i as int).push(ids@[i as int]));
            ids@.take(i as int).lemma_push_to_set_commute(ids@[i as int]);
        }
        set.insert(ids[i]);
        i += 1;
    }
    assert(ids@.take(i as int) =~= ids@);
    set
}

/// The staged way node entries written to the published lists: those of ways that are not
/// deleted.
pub fn live_way_nodes(rows: &Vec<WayNodeRow>, deleted_ways: &Vec<i64>) -> (r: Vec<WayNodeRow>)
    ensures
        r@ == live_way_node_rows(rows@, deleted_ways@.to_set()),
{
    let deleted = id_set(deleted_ways);
    let mut out: Vec<WayNodeRow> = Vec::new();
    let mut i: usize = 0;
    while i < rows.len()
        invariant
            i <= rows@.len(),
            deleted@ == deleted_ways@.to_set(),
            out@ == live_way_node_rows(rows@.take(i as int), deleted@),
        decreases rows@.len() - i,
    {
        let row = rows[i];
        proof {
            let t = rows@.take(i + 1);
            assert(t.drop_last() =~= rows@.take(i as int));
            assert(t.last() == row);
        }
        if !deleted.contains(&row.way_id) {
            out.push(row);
        }
        i += 1;
    }
    assert(rows@.take(i as int) =~= rows@);
    out
}

/// A copy of a member entry.
fn copy_member(m: &MemberRow) -> (r: MemberRow)
    ensures
        r == *m,
{
    MemberRow {
        relation_id: m.relation_id,
        seq: m.seq,
        member_type: m.member_type.clone(),
        member_id: m.member_id,
        role: match &m.role {
            Some(role) => Some(role.clone()),
            None => None,
        },
    }
}

/// The staged member entries written to the published lists: those of relations that are
/// not deleted.
pub fn live_members(rows: &Vec<MemberRow>, deleted_relations: &Vec<i64>) -> (r: Vec<MemberRow>)
    ensures
        r@ == live_member_rows(rows@, deleted_relations@.to_set()),
{
    let deleted = id_set(deleted_relations);
    let mut out: Vec<MemberRow> = Vec::new();
    let mut i: usize = 0;
    while i < rows.len()
        invariant
            i <= rows@.len(),
            deleted@ == deleted_relations@.to_set(),
            out@ == live_member_rows(rows@.take(i as int), deleted@),
        decreases rows@.len() - i,
    {
        let row = &rows[i];
        proof {
            let t = rows@.take(i + 1);
            assert(t.drop_last() =~= rows@.take(i as int));
            assert(t.last() == *row);
        }
        if !deleted.contains(&row.relation_id) {
            out.push(copy_member(row));
        }
        i += 1;
    }
    assert(rows@.take(i as int) =~= rows@);
    out
}

/// Every id has a published version.
pub open spec fn all_versioned(ids: Seq<i64>, versions: Map<i64, i32>) -> bool {
    forall|i: int| 0 <= i < ids.len() ==> versions.contains_key(#[trigger] ids[i])
}

fn versions_of(ids: &Vec<i64>, versions: &HashMap<i64, i32>, missing: DomainError) -> (r: Result<
    Vec<i32>,
    DomainError,
>)
    ensures
        match r {
            Ok(v) => all_versioned(ids@, versions@) && v@.len() == ids@.len() && forall|i: int|
                0 <= i < ids@.len() ==> #[trigger] v@[i] == versions@[ids@[i]],
            Err(e) => !all_versioned(ids@, versions@) && e == missing,
        },
{
    let mut out: Vec<i32> = Vec::new();
    let mut i: usize = 0;
    while i < ids.len()
        invariant
            i <= ids@.len(),
            out@.len() == i,
            forall|k: int| 0 <= k < i ==> versions@.contains_key(#[trigger] ids@[k]),
            forall|k: int| 0 <= k < i ==> #[trigger] out@[k] == versions@[ids@[k]],
        decreases ids@.len() - i,
    {
        match versions.get(&ids[i]) {
            Some(v) => {
                out.push(*v);
            },
            None => {
                return Err(missing);
            },
        }
        i += 1;
    }
    Ok(out)
}

/// The published version of the way of each history entry; every way must have one.
pub fn way_parent_versions(way_ids: &Vec<i64>, versions: &HashMap<i64, i32>) -> (r: Result<
    Vec<i32>,
    DomainError,
>)
    ensures
        match r {
            Ok(v) => all_versioned(way_ids@, versions@) && v@.len() == way_ids@.len() && forall|
                i: int,
            |
                0 <= i < way_ids@.len() ==> #[trigger] v@[i] == versions@[way_ids@[i]],
            Err(e) => !all_versioned(way_ids@, versions@) && e == DomainError::MissingWayVersion,
        },
{
    versions_of(way_ids, versions, DomainError::MissingWayVersion)
}

/// The published version of the relation of each history entry; every relation must have one.
pub fn relation_parent_versions(relation_ids: &Vec<i64>, versions: &HashMap<i64, i32>) -> (r:
    Result<Vec<i32>, DomainError>)
    ensures
        match r {
            Ok(v) => all_versioned(relation_ids@, versions@) && v@.len() == relation_ids@.len()
                && forall|i: int|
                0 <= i < relation_ids@.len() ==> #[trigger] v@[i] == versions@[relation_ids@[i]],
            Err(e) => !all_versioned(relation_ids@, versions@) && e
                == DomainError::MissingRelationVersion,
        },
{
    versions_of(relation_ids, versions, DomainError::MissingRelationVersion)
}

/// Publication writes the child lists of kept parents only, and all of them: an entry is
/// kept exactly when its way is not deleted, and kept entries stay in row order.
pub proof fn law_live_way_nodes(rows: Seq<WayNodeRow>, deleted: Set<i64>)
    ensures
        forall|i: int|
            0 <= i < live_way_node_rows(rows, deleted).len() ==> !deleted.contains(
                (#[trigger] live_way_node_rows(rows, deleted)[i]).way_id,
            ),
        forall|x: WayNodeRow|
            #[trigger] live_way_node_rows(rows, deleted).contains(x) <==> rows.contains(x)
                && !deleted.contains(x.way_id),
    decreases rows.len(),
{
    if rows.len() > 0 {
        let d = rows.drop_last();
        law_live_way_nodes(d, deleted);
        let l = live_way_node_rows(d, deleted);
        assert forall|x: WayNodeRow| #[trigger] rows.contains(x) <==> d.contains(x) || x == rows.last() by {
            if rows.contains(x) {
                let k = choose|k: int| 0 <= k < rows.len() && rows[k] == x;
                if k < d.len() {
                    assert(d[k] == x);
                }
            }
            if d.contains(x) {
                let k = choose|k: int| 0 <= k < d.len() && d[k] == x;
                assert(rows[k] == x);
            }
            if x == rows.last() {
                assert(rows[rows.len() - 1] == x);
            }
        }
        if !deleted.contains(rows.last().way_id) {
            let t = l.push(rows.last());
            assert forall|x: WayNodeRow| #[trigger] t.contains(x) <==> l.contains(x) || x == rows.last() by {
                if t.contains(x) {
                    let k = choose|k: int| 0 <= k < t.len() && t[k] == x;
                    if k < l.len() {
                        assert(l[k] == x);
                    }
                }
                if l.contains(x) {
                    let k = choose|k: int| 0 <= k < l.len() && l[k] == x;
                    assert(t[k] == x);
                }
                if x == rows.last() {
                    assert(t[l.len() as int] == x);
                }
            }
        }
    }
}

} // verus!
