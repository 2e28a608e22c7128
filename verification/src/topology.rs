//! Validation of the graph a changeset would publish: the world's published rows overlaid
//! with the changeset's drafts.

use vstd::prelude::*;

use std::collections::{HashMap, HashSet};

use crate::text::str_eq;
use crate::types::DomainError;

verus! {

broadcast use vstd::std_specs::hash::group_hash_axioms;

/// A staged node: its id, operation, and X and Z coordinates (IEEE-754 bit patterns) when
/// it carries both.
#[derive(Debug, Clone)]
pub struct DraftNodeRow {
    pub id: i64,
    pub operation: String,
    pub position: Option<(u64, u64)>,
}

/// A published node: its id and X and Z coordinates (IEEE-754 bit patterns).
#[derive(Debug, Clone, Copy, PartialEq, Eq, Structural)]
pub struct CoreNodeRow {
    pub id: i64,
    pub x: u64,
    pub z: u64,
}

/// A staged way or relation: its id, operation, and geometry kind (ways) or relation type
/// (relations).
#[derive(Debug, Clone)]
pub struct DraftParentRow {
    pub id: i64,
    pub operation: String,
    pub kind: Option<String>,
}

/// A published way: its id and geometry kind.
#[derive(Debug, Clone)]
pub struct CoreWayRow {
    pub id: i64,
    pub kind: String,
}

/// One position of a way's node list.
#[derive(Debug, Clone, Copy, PartialEq, Eq, Structural)]
pub struct WayNodeRow {
    pub way_id: i64,
    pub seq: i32,
    pub node_id: i64,
}

/// One position of a relation's member list.
#[derive(Debug, Clone)]
pub struct MemberRow {
    pub relation_id: i64,
    pub seq: i32,
    pub member_type: String,
    pub member_id: i64,
    pub role: Option<String>,
}

/// The rows that publication validates: the live published rows of the world and the
/// changeset's drafts.
#[derive(Debug, Clone)]
pub struct TopologyInput {
    pub draft_nodes: Vec<DraftNodeRow>,
    pub core_nodes: Vec<CoreNodeRow>,
    pub core_ways: Vec<CoreWayRow>,
    pub draft_ways: Vec<DraftParentRow>,
    pub core_way_nodes: Vec<WayNodeRow>,
    pub draft_way_nodes: Vec<WayNodeRow>,
    pub core_relations: Vec<i64>,
    pub draft_relations: Vec<DraftParentRow>,
    pub core_members: Vec<MemberRow>,
    pub draft_members: Vec<MemberRow>,
}

/// Whether a draft operation is a deletion.
pub open spec fn is_delete(op: String) -> bool {
    op@ == "delete"@
}

// ---- nodes ----

pub open spec fn node_drafted(g: TopologyInput, id: i64) -> bool {
    exists|i: int| 0 <= i < g.draft_nodes@.len() && (#[trigger] g.draft_nodes@[i]).id == id
}

pub open spec fn node_deleted(g: TopologyInput, id: i64) -> bool {
    exists|i: int|
        0 <= i < g.draft_nodes@.len() && (#[trigger] g.draft_nodes@[i]).id == id && is_delete(
            g.draft_nodes@[i].operation,
        )
}

pub open spec fn node_placed_by_draft(g: TopologyInput, id: i64) -> bool {
    exists|i: int|
        0 <= i < g.draft_nodes@.len() && (#[trigger] g.draft_nodes@[i]).id == id && !is_delete(
            g.draft_nodes@[i].operation,
        ) && g.draft_nodes@[i].position is Some
}

pub open spec fn node_published(g: TopologyInput, id: i64) -> bool {
    exists|i: int| 0 <= i < g.core_nodes@.len() && (#[trigger] g.core_nodes@[i]).id == id
}

/// A node exists in the final graph: published and untouched by the drafts, or staged
/// (not deleted) with a position.
pub open spec fn node_effective(g: TopologyInput, id: i64) -> bool {
    (node_published(g, id) && !node_drafted(g, id)) || node_placed_by_draft(g, id)
}

// ---- ways and relations ----

pub open spec fn row_listed(rows: Seq<DraftParentRow>, id: i64) -> bool {
    exists|i: int| 0 <= i < rows.len() && (#[trigger] rows[i]).id == id
}

pub open spec fn row_active(rows: Seq<DraftParentRow>, id: i64) -> bool {
    exists|i: int| 0 <= i < rows.len() && (#[trigger] rows[i]).id == id && !is_delete(rows[i].operation)
}

pub open spec fn row_deleted(rows: Seq<DraftParentRow>, id: i64) -> bool {
    exists|i: int| 0 <= i < rows.len() && (#[trigger] rows[i]).id == id && is_delete(rows[i].operation)
}

/// The kind of the last staged, not deleted, row of `id` that has one.
pub open spec fn last_draft_kind(rows: Seq<DraftParentRow>, id: i64) -> Option<Seq<char>>
    decreases rows.len(),
{
    if rows.len() == 0 {
        None
    } else {
        let r = rows.last();
        if r.id == id && !is_delete(r.operation) && r.kind is Some {
            Some(r.kind->0@)
        } else {
            last_draft_kind(rows.drop_last(), id)
        }
    }
}

/// The kind of the last published row of `id`.
pub open spec fn last_core_kind(rows: Seq<CoreWayRow>, id: i64) -> Option<Seq<char>>
    decreases rows.len(),
{
    if rows.len() == 0 {
        None
    } else if rows.last().id == id {
        Some(rows.last().kind@)
    } else {
        last_core_kind(rows.drop_last(), id)
    }
}

/// The geometry kind of a way in the final graph; `None` when the way does not exist there.
pub open spec fn way_kind(g: TopologyInput, id: i64) -> Option<Seq<char>> {
    match last_draft_kind(g.draft_ways@, id) {
        Some(k) => Some(k),
        None => if row_listed(g.draft_ways@, id) {
            None
        } else {
            last_core_kind(g.core_ways@, id)
        },
    }
}

pub open spec fn way_effective(g: TopologyInput, id: i64) -> bool {
    way_kind(g, id) is Some
}

pub open spec fn relation_published(g: TopologyInput, id: i64) -> bool {
    exists|i: int| 0 <= i < g.core_relations@.len() && #[trigger] g.core_relations@[i] == id
}

/// A relation exists in the final graph: published and untouched, or staged and not deleted.
pub open spec fn relation_effective(g: TopologyInput, id: i64) -> bool {
    (relation_published(g, id) && !row_listed(g.draft_relations@, id)) || row_active(
        g.draft_relations@,
        id,
    )
}

// ---- way node lists ----

/// A staged way node reference of a staged, not deleted, way that names a node missing from
/// the final graph.
pub open spec fn way_references_missing_node(g: TopologyInput) -> bool {
    exists|i: int|
        0 <= i < g.draft_way_nodes@.len() && row_active(
            g.draft_ways@,
            (#[trigger] g.draft_way_nodes@[i]).way_id,
        ) && !node_effective(g, g.draft_way_nodes@[i].node_id)
}

/// A way of the final graph lists a node that the changeset deletes.
pub open spec fn way_references_deleted_node(g: TopologyInput) -> bool {
    ||| exists|i: int|
        0 <= i < g.core_way_nodes@.len() && !row_listed(
            g.draft_ways@,
            (#[trigger] g.core_way_nodes@[i]).way_id,
        ) && node_deleted(g, g.core_way_nodes@[i].node_id)
    ||| exists|i: int|
        0 <= i < g.draft_way_nodes@.len() && row_active(
            g.draft_ways@,
            (#[trigger] g.draft_way_nodes@[i]).way_id,
        ) && node_deleted(g, g.draft_way_nodes@[i].node_id)
}

// ---- relation members ----

/// Whether a member names an entity of the final graph.
pub open spec fn member_resolves(g: TopologyInput, m: MemberRow) -> bool {
    if m.member_type@ == "node"@ {
        node_effective(g, m.member_id)
    } else if m.member_type@ == "way"@ {
        way_effective(g, m.member_id)
    } else if m.member_type@ == "relation"@ {
        relation_effective(g, m.member_id)
    } else {
        false
    }
}

/// A staged member of relation `r` names no entity of the final graph.
pub open spec fn relation_dangles(g: TopologyInput, r: i64) -> bool {
    exists|i: int|
        0 <= i < g.draft_members@.len() && (#[trigger] g.draft_members@[i]).relation_id == r
            && !member_resolves(g, g.draft_members@[i])
}

/// Relation `r` lists itself or lists the same entity twice among its staged members.
pub open spec fn relation_self_or_repeat(g: TopologyInput, r: i64) -> bool {
    ||| exists|i: int|
        0 <= i < g.draft_members@.len() && (#[trigger] g.draft_members@[i]).relation_id == r
            && g.draft_members@[i].member_type@ == "relation"@ && g.draft_members@[i].member_id
            == r
    ||| exists|i: int, j: int|
        0 <= i < g.draft_members@.len() && 0 <= j < g.draft_members@.len() && i != j
            && (#[trigger] g.draft_members@[i]).relation_id == r
            && (#[trigger] g.draft_members@[j]).relation_id == r
            && g.draft_members@[i].member_type@ == g.draft_members@[j].member_type@
            && g.draft_members@[i].member_id == g.draft_members@[j].member_id
}

/// The member check of one staged relation row.
pub open spec fn relation_row_members(g: TopologyInput, row: DraftParentRow) -> Result<(), DomainError> {
    if is_delete(row.operation) {
        Ok(())
    } else if relation_dangles(g, row.id) {
        Err(DomainError::InvalidReference)
    } else if relation_self_or_repeat(g, row.id) {
        Err(DomainError::InvalidTopology)
    } else {
        Ok(())
    }
}

/// The first failing member check among staged relation rows `rows[i..]`.
pub open spec fn relation_members_from(g: TopologyInput, i: int) -> Result<(), DomainError>
    decreases g.draft_relations@.len() - i,
{
    if i < 0 || i >= g.draft_relations@.len() {
        Ok(())
    } else {
        match relation_row_members(g, g.draft_relations@[i]) {
            Err(e) => Err(e),
            Ok(_) => relation_members_from(g, i + 1),
        }
    }
}

/// Whether a member names an entity that the changeset deletes.
pub open spec fn member_deleted(g: TopologyInput, m: MemberRow) -> bool {
    if m.member_type@ == "node"@ {
        node_deleted(g, m.member_id)
    } else if m.member_type@ == "way"@ {
        row_deleted(g.draft_ways@, m.member_id)
    } else if m.member_type@ == "relation"@ {
        row_deleted(g.draft_relations@, m.member_id)
    } else {
        false
    }
}

/// A relation of the final graph lists an entity that the changeset deletes.
pub open spec fn relation_references_deleted(g: TopologyInput) -> bool {
    ||| exists|i: int|
        0 <= i < g.core_members@.len() && relation_published(
            g,
            (#[trigger] g.core_members@[i]).relation_id,
        ) && !row_listed(g.draft_relations@, g.core_members@[i].relation_id) && member_deleted(
            g,
            g.core_members@[i],
        )
    ||| exists|i: int|
        0 <= i < g.draft_members@.len() && row_active(
            g.draft_relations@,
            (#[trigger] g.draft_members@[i]).relation_id,
        ) && member_deleted(g, g.draft_members@[i])
}

// ---- areas ----

/// The staged node list of way `w` holds three different nodes.
pub open spec fn way_has_three_nodes(g: TopologyInput, w: i64) -> bool {
    exists|a: int, b: int, c: int|
        0 <= a < g.draft_way_nodes@.len() && 0 <= b < g.draft_way_nodes@.len() && 0 <= c
            < g.draft_way_nodes@.len() && (#[trigger] g.draft_way_nodes@[a]).way_id == w
            && (#[trigger] g.draft_way_nodes@[b]).way_id == w
            && (#[trigger] g.draft_way_nodes@[c]).way_id == w && g.draft_way_nodes@[a].node_id
            != g.draft_way_nodes@[b].node_id && g.draft_way_nodes@[a].node_id
            != g.draft_way_nodes@[c].node_id && g.draft_way_nodes@[b].node_id
            != g.draft_way_nodes@[c].node_id
}

/// Whether staged way row `i` is a (not deleted) area.
pub open spec fn is_area_row(row: DraftParentRow) -> bool {
    !is_delete(row.operation) && row.kind is Some && row.kind->0@ == "area"@
}

/// A staged area fails: fewer than three distinct nodes, or a ring that is not a closed,
/// valid polygon (`ring_ok[i]`, decided by the geometry engine for row `i`).
pub open spec fn area_fails(g: TopologyInput, ring_ok: Seq<bool>) -> bool {
    exists|i: int|
        0 <= i < g.draft_ways@.len() && is_area_row(#[trigger] g.draft_ways@[i]) && (
        !way_has_three_nodes(g, g.draft_ways@[i].id) || !ring_ok[i])
}

// ---- multipolygons ----

/// Whether a staged member of relation `r` exists.
pub open spec fn relation_has_members(g: TopologyInput, r: i64) -> bool {
    exists|i: int| 0 <= i < g.draft_members@.len() && (#[trigger] g.draft_members@[i]).relation_id == r
}

/// A member that a multipolygon cannot hold: not a way, a role other than none, `outer` or
/// `inner`, or a way that is not an area of the final graph.
pub open spec fn bad_multipolygon_member(g: TopologyInput, m: MemberRow) -> bool {
    ||| m.member_type@ != "way"@
    ||| !crate::validation::role_ok(m.role)
    ||| way_kind(g, m.member_id) != Some("area"@)
}

/// A staged relation row that is not a valid multipolygon.
pub open spec fn multipolygon_fails(g: TopologyInput, row: DraftParentRow) -> bool {
    &&& !is_delete(row.operation)
    &&& {
        ||| !(row.kind is Some && row.kind->0@ == "multipolygon"@)
        ||| !relation_has_members(g, row.id)
        ||| (exists|i: int|
            0 <= i < g.draft_members@.len() && (#[trigger] g.draft_members@[i]).relation_id
                == row.id && bad_multipolygon_member(g, g.draft_members@[i]))
        ||| !(exists|i: int|
            0 <= i < g.draft_members@.len() && (#[trigger] g.draft_members@[i]).relation_id
                == row.id && crate::validation::outer_role(g.draft_members@[i].role))
    }
}

pub open spec fn some_multipolygon_fails(g: TopologyInput) -> bool {
    exists|i: int| 0 <= i < g.draft_relations@.len() && multipolygon_fails(g, #[trigger] g.draft_relations@[i])
}

/// The verdict on the links of the final graph, checks in order: way node references, way
/// nodes deleted, relation members (per staged relation, in row order), members deleted.
pub open spec fn spec_topology_links(g: TopologyInput) -> Result<(), DomainError> {
    if way_references_missing_node(g) {
        Err(DomainError::InvalidReference)
    } else if way_references_deleted_node(g) {
        Err(DomainError::InvalidTopology)
    } else if relation_members_from(g, 0) is Err {
        relation_members_from(g, 0)
    } else if relation_references_deleted(g) {
        Err(DomainError::InvalidTopology)
    } else {
        Ok(())
    }
}

/// The verdict on the final graph: its links, then areas, then multipolygons.
pub open spec fn spec_validate_topology(g: TopologyInput, ring_ok: Seq<bool>) -> Result<(), DomainError> {
    if spec_topology_links(g) is Err {
        spec_topology_links(g)
    } else if area_fails(g, ring_ok) {
        Err(DomainError::InvalidGeometryState)
    } else if some_multipolygon_fails(g) {
        Err(DomainError::InvalidTopology)
    } else {
        Ok(())
    }
}

// ---- indexes over the rows ----

/// Id sets and way kinds of the final graph, computed once from the rows.
struct GraphIndex {
    drafted_nodes: HashSet<i64>,
    deleted_nodes: HashSet<i64>,
    effective_nodes: HashSet<i64>,
    listed_ways: HashSet<i64>,
    active_ways: HashSet<i64>,
    deleted_ways: HashSet<i64>,
    listed_relations: HashSet<i64>,
    active_relations: HashSet<i64>,
    deleted_relations: HashSet<i64>,
    published_relations: HashSet<i64>,
    /// Ways of the final graph, mapped to whether they are areas.
    way_areas: HashMap<i64, bool>,
}

impl GraphIndex {
    spec fn indexes(self, g: TopologyInput) -> bool {
        &&& forall|x: i64| #[trigger] self.drafted_nodes@.contains(x) <==> node_drafted(g, x)
        &&& forall|x: i64| #[trigger] self.deleted_nodes@.contains(x) <==> node_deleted(g, x)
        &&& forall|x: i64| #[trigger] self.effective_nodes@.contains(x) <==> node_effective(g, x)
        &&& forall|x: i64| #[trigger] self.listed_ways@.contains(x) <==> row_listed(g.draft_ways@, x)
        &&& forall|x: i64| #[trigger] self.active_ways@.contains(x) <==> row_active(g.draft_ways@, x)
        &&& forall|x: i64| #[trigger] self.deleted_ways@.contains(x) <==> row_deleted(g.draft_ways@, x)
        &&& forall|x: i64| #[trigger] self.listed_relations@.contains(x) <==> row_listed(g.draft_relations@, x)
        &&& forall|x: i64| #[trigger] self.active_relations@.contains(x) <==> row_active(g.draft_relations@, x)
        &&& forall|x: i64| #[trigger] self.deleted_relations@.contains(x) <==> row_deleted(g.draft_relations@, x)
        &&& forall|x: i64| #[trigger] self.published_relations@.contains(x) <==> relation_published(g, x)
        &&& forall|x: i64| #[trigger] self.way_areas@.contains_key(x) <==> way_effective(g, x)
        &&& forall|x: i64|
            #[trigger] self.way_areas@.contains_key(x) ==> (self.way_areas@[x] <==> way_kind(g, x) == Some(
                "area"@,
            ))
    }
}

/// Ids of the staged nodes, and of those staged for deletion.
fn draft_node_sets(g: &TopologyInput) -> (r: (HashSet<i64>, HashSet<i64>))
    ensures
        forall|x: i64| r.0@.contains(x) <==> node_drafted(*g, x),
        forall|x: i64| r.1@.contains(x) <==> node_deleted(*g, x),
{
    let mut drafted: HashSet<i64> = HashSet::new();
    let mut deleted: HashSet<i64> = HashSet::new();
    let mut i: usize = 0;
    while i < g.draft_nodes.len()
        invariant
            i <= g.draft_nodes@.len(),
            forall|x: i64|
                drafted@.contains(x) <==> exists|k: int|
                    0 <= k < i && (#[trigger] g.draft_nodes@[k]).id == x,
            forall|x: i64|
                deleted@.contains(x) <==> exists|k: int|
                    0 <= k < i && (#[trigger] g.draft_nodes@[k]).id == x && is_delete(
                        g.draft_nodes@[k].operation,
                    ),
        decreases g.draft_nodes@.len() - i,
    {
        let row = &g.draft_nodes[i];
        let del = str_eq(row.operation.as_str(), "delete");
        drafted.insert(row.id);
        if del {
            deleted.insert(row.id);
        }
        i += 1;
    }
    (drafted, deleted)
}

/// Some of the first `n` published nodes is `id`.
spec fn published_among(g: TopologyInput, n: int, id: i64) -> bool {
    exists|k: int| 0 <= k < n && (#[trigger] g.core_nodes@[k]).id == id
}

/// Some of the first `n` staged nodes places `id`.
spec fn placed_among(g: TopologyInput, n: int, id: i64) -> bool {
    exists|k: int|
        0 <= k < n && (#[trigger] g.draft_nodes@[k]).id == id && !is_delete(
            g.draft_nodes@[k].operation,
        ) && g.draft_nodes@[k].position is Some
}

/// Ids of the nodes of the final graph.
fn effective_node_set(g: &TopologyInput, drafted: &HashSet<i64>) -> (r: HashSet<i64>)
    requires
        forall|x: i64| drafted@.contains(x) <==> node_drafted(*g, x),
    ensures
        forall|x: i64| r@.contains(x) <==> node_effective(*g, x),
{
    let mut nodes: HashSet<i64> = HashSet::new();
    let mut i: usize = 0;
    while i < g.core_nodes.len()
        invariant
            i <= g.core_nodes@.len(),
            forall|x: i64| drafted@.contains(x) <==> node_drafted(*g, x),
            forall|x: i64|
                #[trigger] nodes@.contains(x) <==> published_among(*g, i as int, x) && !node_drafted(
                    *g,
                    x,
                ),
        decreases g.core_nodes@.len() - i,
    {
        let id = g.core_nodes[i].id;
        let ghost before = nodes@;
        if !drafted.contains(&id) {
            nodes.insert(id);
        }
        proof {
            assert forall|x: i64|
                #[trigger] nodes@.contains(x) <==> published_among(*g, i + 1, x) && !node_drafted(
                    *g,
                    x,
                ) by {
                assert(before.contains(x) <==> published_among(*g, i as int, x) && !node_drafted(
                    *g,
                    x,
                ));
                if published_among(*g, i + 1, x) {
                    let k = choose|k: int| 0 <= k < i + 1 && (#[trigger] g.core_nodes@[k]).id == x;
                    if k == i {
                        assert(x == id);
                    }
                }
                if x == id {
                    assert(g.core_nodes@[i as int].id == id);
                }
            }
        }
        i += 1;
    }
    assert forall|x: i64| published_among(*g, i as int, x) <==> node_published(*g, x) by {}
    let mut j: usize = 0;
    while j < g.draft_nodes.len()
        invariant
            j <= g.draft_nodes@.len(),
            forall|x: i64|
                #[trigger] nodes@.contains(x) <==> (node_published(*g, x) && !node_drafted(*g, x))
                    || placed_among(*g, j as int, x),
        decreases g.draft_nodes@.len() - j,
    {
        let row = &g.draft_nodes[j];
        let ghost before = nodes@;
        let place = !str_eq(row.operation.as_str(), "delete") && row.position.is_some();
        if place {
            nodes.insert(row.id);
        }
        proof {
            assert forall|x: i64|
                #[trigger] nodes@.contains(x) <==> (node_published(*g, x) && !node_drafted(*g, x))
                    || placed_among(*g, j + 1, x) by {
                assert(before.contains(x) <==> (node_published(*g, x) && !node_drafted(*g, x))
                    || placed_among(*g, j as int, x));
                if placed_among(*g, j + 1, x) {
                    let k = choose|k: int|
                        0 <= k < j + 1 && (#[trigger] g.draft_nodes@[k]).id == x && !is_delete(
                            g.draft_nodes@[k].operation,
                        ) && g.draft_nodes@[k].position is Some;
                    if k == j {
                        assert(place && x == row.id);
                    }
                }
                if place && x == row.id {
                    assert(g.draft_nodes@[j as int] == *row);
                }
            }
        }
        j += 1;
    }
    assert forall|x: i64| placed_among(*g, j as int, x) <==> node_placed_by_draft(*g, x) by {}
    nodes
}

/// Ids of the listed, active and deleted rows.
fn parent_row_sets(rows: &Vec<DraftParentRow>) -> (r: (HashSet<i64>, HashSet<i64>, HashSet<i64>))
    ensures
        forall|x: i64| r.0@.contains(x) <==> row_listed(rows@, x),
        forall|x: i64| r.1@.contains(x) <==> row_active(rows@, x),
        forall|x: i64| r.2@.contains(x) <==> row_deleted(rows@, x),
{
    let mut listed: HashSet<i64> = HashSet::new();
    let mut active: HashSet<i64> = HashSet::new();
    let mut deleted: HashSet<i64> = HashSet::new();
    let mut i: usize = 0;
    while i < rows.len()
        invariant
            i <= rows@.len(),
            forall|x: i64|
                listed@.contains(x) <==> exists|k: int| 0 <= k < i && (#[trigger] rows@[k]).id == x,
            forall|x: i64|
                active@.contains(x) <==> exists|k: int|
                    0 <= k < i && (#[trigger] rows@[k]).id == x && !is_delete(rows@[k].operation),
            forall|x: i64|
                deleted@.contains(x) <==> exists|k: int|
                    0 <= k < i && (#[trigger] rows@[k]).id == x && is_delete(rows@[k].operation),
        decreases rows@.len() - i,
    {
        let row = &rows[i];
        listed.insert(row.id);
        if str_eq(row.operation.as_str(), "delete") {
            deleted.insert(row.id);
        } else {
            active.insert(row.id);
        }
        i += 1;
    }
    (listed, active, deleted)
}

/// Ids of the published relations.
fn published_relation_set(g: &TopologyInput) -> (r: HashSet<i64>)
    ensures
        forall|x: i64| r@.contains(x) <==> relation_published(*g, x),
{
    let mut ids: HashSet<i64> = HashSet::new();
    let mut i: usize = 0;
    while i < g.core_relations.len()
        invariant
            i <= g.core_relations@.len(),
            forall|x: i64|
                ids@.contains(x) <==> exists|k: int| 0 <= k < i && #[trigger] g.core_relations@[k] == x,
        decreases g.core_relations@.len() - i,
    {
        ids.insert(g.core_relations[i]);
        i += 1;
    }
    ids
}

/// The kind of way `id` once the first `n` staged way rows are applied.
spec fn way_kind_after(g: TopologyInput, n: int, id: i64) -> Option<Seq<char>> {
    match last_draft_kind(g.draft_ways@.take(n), id) {
        Some(k) => Some(k),
        None => if row_listed(g.draft_ways@, id) {
            None
        } else {
            last_core_kind(g.core_ways@, id)
        },
    }
}

/// Ways of the final graph, mapped to whether they are areas.
fn way_area_map(g: &TopologyInput, listed: &HashSet<i64>) -> (r: HashMap<i64, bool>)
    requires
        forall|x: i64| listed@.contains(x) <==> row_listed(g.draft_ways@, x),
    ensures
        forall|x: i64| r@.contains_key(x) <==> way_effective(*g, x),
        forall|x: i64| r@.contains_key(x) ==> (r@[x] <==> way_kind(*g, x) == Some("area"@)),
{
    let mut areas: HashMap<i64, bool> = HashMap::new();
    let mut i: usize = 0;
    while i < g.core_ways.len()
        invariant
            i <= g.core_ways@.len(),
            forall|x: i64| listed@.contains(x) <==> row_listed(g.draft_ways@, x),
            forall|x: i64|
                areas@.contains_key(x) <==> !row_listed(g.draft_ways@, x) && last_core_kind(
                    g.core_ways@.take(i as int),
                    x,
                ) is Some,
            forall|x: i64|
                areas@.contains_key(x) ==> (areas@[x] <==> last_core_kind(
                    g.core_ways@.take(i as int),
                    x,
                ) == Some("area"@)),
        decreases g.core_ways@.len() - i,
    {
        let row = &g.core_ways[i];
        proof {
            let t = g.core_ways@.take(i + 1);
            assert(t.drop_last() =~= g.core_ways@.take(i as int));
            assert(t.last() == *row);
        }
        if !listed.contains(&row.id) {
            let area = str_eq(row.kind.as_str(), "area");
            areas.insert(row.id, area);
        }
        i += 1;
    }
    assert(g.core_ways@.take(i as int) =~= g.core_ways@);
    let mut j: usize = 0;
    while j < g.draft_ways.len()
        invariant
            j <= g.draft_ways@.len(),
            forall|x: i64| areas@.contains_key(x) <==> way_kind_after(*g, j as int, x) is Some,
            forall|x: i64|
                areas@.contains_key(x) ==> (areas@[x] <==> way_kind_after(*g, j as int, x) == Some(
                    "area"@,
                )),
        decreases g.draft_ways@.len() - j,
    {
        let row = &g.draft_ways[j];
        proof {
            let t = g.draft_ways@.take(j + 1);
            assert(t.drop_last() =~= g.draft_ways@.take(j as int));
            assert(t.last() == *row);
            assert(row_listed(g.draft_ways@, row.id));
        }
        if !str_eq(row.operation.as_str(), "delete") {
            match &row.kind {
                Some(kind) => {
                    let area = str_eq(kind.as_str(), "area");
                    areas.insert(row.id, area);
                },
                None => {},
            }
        }
        j += 1;
    }
    assert(g.draft_ways@.take(j as int) =~= g.draft_ways@);
    areas
}

/// Computes the id sets and way kinds of the final graph.
fn build_index(g: &TopologyInput) -> (ix: GraphIndex)
    ensures
        ix.indexes(*g),
{
    let (drafted_nodes, deleted_nodes) = draft_node_sets(g);
    let effective_nodes = effective_node_set(g, &drafted_nodes);
    let (listed_ways, active_ways, deleted_ways) = parent_row_sets(&g.draft_ways);
    let (listed_relations, active_relations, deleted_relations) = parent_row_sets(
        &g.draft_relations,
    );
    let published_relations = published_relation_set(g);
    let way_areas = way_area_map(g, &listed_ways);
    GraphIndex {
        drafted_nodes,
        deleted_nodes,
        effective_nodes,
        listed_ways,
        active_ways,
        deleted_ways,
        listed_relations,
        active_relations,
        deleted_relations,
        published_relations,
        way_areas,
    }
}

// ---- checks ----

/// Whether a staged, not deleted, way lists a node missing from the final graph.
fn find_missing_way_node(g: &TopologyInput, ix: &GraphIndex) -> (r: bool)
    requires
        ix.indexes(*g),
    ensures
        r == way_references_missing_node(*g),
{
    let mut i: usize = 0;
    while i < g.draft_way_nodes.len()
        invariant
            i <= g.draft_way_nodes@.len(),
            ix.indexes(*g),
            forall|k: int|
                0 <= k < i ==> !(row_active(g.draft_ways@, (#[trigger] g.draft_way_nodes@[k]).way_id)
                    && !node_effective(*g, g.draft_way_nodes@[k].node_id)),
        decreases g.draft_way_nodes@.len() - i,
    {
        let wn = g.draft_way_nodes[i];
        if ix.active_ways.contains(&wn.way_id) && !ix.effective_nodes.contains(&wn.node_id) {
            return true;
        }
        i += 1;
    }
    false
}

/// Whether a way of the final graph lists a node that the changeset deletes.
fn find_deleted_way_node(g: &TopologyInput, ix: &GraphIndex) -> (r: bool)
    requires
        ix.indexes(*g),
    ensures
        r == way_references_deleted_node(*g),
{
    let mut i: usize = 0;
    while i < g.core_way_nodes.len()
        invariant
            i <= g.core_way_nodes@.len(),
            ix.indexes(*g),
            forall|k: int|
                0 <= k < i ==> !(!row_listed(g.draft_ways@, (#[trigger] g.core_way_nodes@[k]).way_id)
                    && node_deleted(*g, g.core_way_nodes@[k].node_id)),
        decreases g.core_way_nodes@.len() - i,
    {
        let wn = g.core_way_nodes[i];
        if !ix.listed_ways.contains(&wn.way_id) && ix.deleted_nodes.contains(&wn.node_id) {
            return true;
        }
        i += 1;
    }
    let mut j: usize = 0;
    while j < g.draft_way_nodes.len()
        invariant
            j <= g.draft_way_nodes@.len(),
            ix.indexes(*g),
            forall|k: int|
                0 <= k < g.core_way_nodes@.len() ==> !(!row_listed(
                    g.draft_ways@,
                    (#[trigger] g.core_way_nodes@[k]).way_id,
                ) && node_deleted(*g, g.core_way_nodes@[k].node_id)),
            forall|k: int|
                0 <= k < j ==> !(row_active(g.draft_ways@, (#[trigger] g.draft_way_nodes@[k]).way_id)
                    && node_deleted(*g, g.draft_way_nodes@[k].node_id)),
        decreases g.draft_way_nodes@.len() - j,
    {
        let wn = g.draft_way_nodes[j];
        if ix.active_ways.contains(&wn.way_id) && ix.deleted_nodes.contains(&wn.node_id) {
            return true;
        }
        j += 1;
    }
    false
}

/// Whether a member names an entity of the final graph.
fn member_resolves_in(g: &TopologyInput, ix: &GraphIndex, m: &MemberRow) -> (r: bool)
    requires
        ix.indexes(*g),
    ensures
        r == member_resolves(*g, *m),
{
    if str_eq(m.member_type.as_str(), "node") {
        ix.effective_nodes.contains(&m.member_id)
    } else if str_eq(m.member_type.as_str(), "way") {
        ix.way_areas.contains_key(&m.member_id)
    } else if str_eq(m.member_type.as_str(), "relation") {
        (ix.published_relations.contains(&m.member_id) && !ix.listed_relations.contains(
            &m.member_id,
        )) || ix.active_relations.contains(&m.member_id)
    } else {
        false
    }
}

/// Whether a staged member of relation `r` names no entity of the final graph.
fn relation_dangles_in(g: &TopologyInput, ix: &GraphIndex, r: i64) -> (b: bool)
    requires
        ix.indexes(*g),
    ensures
        b == relation_dangles(*g, r),
{
    let mut i: usize = 0;
    while i < g.draft_members.len()
        invariant
            i <= g.draft_members@.len(),
            ix.indexes(*g),
            forall|k: int|
                0 <= k < i ==> !((#[trigger] g.draft_members@[k]).relation_id == r
                    && !member_resolves(*g, g.draft_members@[k])),
        decreases g.draft_members@.len() - i,
    {
        let m = &g.draft_members[i];
        if m.relation_id == r && !member_resolves_in(g, ix, m) {
            return true;
        }
        i += 1;
    }
    false
}

/// Staged members `a` and `b` of relation `r` name the same entity.
spec fn repeated_pair(g: TopologyInput, r: i64, a: int, b: int) -> bool {
    &&& g.draft_members@[a].relation_id == r
    &&& g.draft_members@[b].relation_id == r
    &&& g.draft_members@[a].member_type@ == g.draft_members@[b].member_type@
    &&& g.draft_members@[a].member_id == g.draft_members@[b].member_id
}

/// Whether relation `r` lists itself or repeats a member among its staged members.
fn relation_self_or_repeat_in(g: &TopologyInput, r: i64) -> (b: bool)
    ensures
        b == relation_self_or_repeat(*g, r),
{
    let mut i: usize = 0;
    while i < g.draft_members.len()
        invariant
            i <= g.draft_members@.len(),
            forall|k: int|
                0 <= k < i ==> !((#[trigger] g.draft_members@[k]).relation_id == r
                    && g.draft_members@[k].member_type@ == "relation"@
                    && g.draft_members@[k].member_id == r),
            forall|a: int, c: int|
                0 <= a < i && 0 <= c < i && a != c ==> !#[trigger] repeated_pair(*g, r, a, c),
        decreases g.draft_members@.len() - i,
    {
        let m = &g.draft_members[i];
        if m.relation_id == r {
            if str_eq(m.member_type.as_str(), "relation") && m.member_id == r {
                return true;
            }
            let mut j: usize = 0;
            while j < i
                invariant
                    j <= i < g.draft_members@.len(),
                    *m == g.draft_members@[i as int],
                    m.relation_id == r,
                    forall|c: int| 0 <= c < j ==> !#[trigger] repeated_pair(*g, r, c, i as int),
                decreases i - j,
            {
                let other = &g.draft_members[j];
                if other.relation_id == r && other.member_id == m.member_id && str_eq(
                    other.member_type.as_str(),
                    m.member_type.as_str(),
                ) {
                    assert(repeated_pair(*g, r, j as int, i as int));
                    assert(g.draft_members@[j as int].relation_id == r);
                    return true;
                }
                j += 1;
            }
        }
        proof {
            assert forall|a: int, c: int|
                0 <= a < i + 1 && 0 <= c < i + 1 && a != c implies !#[trigger] repeated_pair(
                *g,
                r,
                a,
                c,
            ) by {
                if c == i {
                    assert(!repeated_pair(*g, r, a, c));
                } else if a == i {
                    assert(!repeated_pair(*g, r, c, a));
                }
            }
        }
        i += 1;
    }
    proof {
        if exists|a: int, c: int|
            0 <= a < g.draft_members@.len() && 0 <= c < g.draft_members@.len() && a != c
                && (#[trigger] g.draft_members@[a]).relation_id == r
                && (#[trigger] g.draft_members@[c]).relation_id == r
                && g.draft_members@[a].member_type@ == g.draft_members@[c].member_type@
                && g.draft_members@[a].member_id == g.draft_members@[c].member_id {
            let (a, c) = choose|a: int, c: int|
                0 <= a < g.draft_members@.len() && 0 <= c < g.draft_members@.len() && a != c
                    && (#[trigger] g.draft_members@[a]).relation_id == r
                    && (#[trigger] g.draft_members@[c]).relation_id == r
                    && g.draft_members@[a].member_type@ == g.draft_members@[c].member_type@
                    && g.draft_members@[a].member_id == g.draft_members@[c].member_id;
            assert(repeated_pair(*g, r, a, c));
        }
    }
    false
}

/// Checks the staged members of each staged relation, in row order.
fn check_relation_members(g: &TopologyInput, ix: &GraphIndex) -> (r: Result<(), DomainError>)
    requires
        ix.indexes(*g),
    ensures
        r == relation_members_from(*g, 0),
{
    let mut i: usize = 0;
    while i < g.draft_relations.len()
        invariant
            i <= g.draft_relations@.len(),
            ix.indexes(*g),
            relation_members_from(*g, 0) == relation_members_from(*g, i as int),
        decreases g.draft_relations@.len() - i,
    {
        let row = &g.draft_relations[i];
        if !str_eq(row.operation.as_str(), "delete") {
            if relation_dangles_in(g, ix, row.id) {
                return Err(DomainError::InvalidReference);
            }
            if relation_self_or_repeat_in(g, row.id) {
                return Err(DomainError::InvalidTopology);
            }
        }
        i += 1;
    }
    Ok(())
}

/// Whether a member names an entity that the changeset deletes.
fn member_deleted_in(g: &TopologyInput, ix: &GraphIndex, m: &MemberRow) -> (r: bool)
    requires
        ix.indexes(*g),
    ensures
        r == member_deleted(*g, *m),
{
    if str_eq(m.member_type.as_str(), "node") {
        ix.deleted_nodes.contains(&m.member_id)
    } else if str_eq(m.member_type.as_str(), "way") {
        ix.deleted_ways.contains(&m.member_id)
    } else if str_eq(m.member_type.as_str(), "relation") {
        ix.deleted_relations.contains(&m.member_id)
    } else {
        false
    }
}

/// Whether a relation of the final graph lists an entity that the changeset deletes.
fn find_deleted_member(g: &TopologyInput, ix: &GraphIndex) -> (r: bool)
    requires
        ix.indexes(*g),
    ensures
        r == relation_references_deleted(*g),
{
    let mut i: usize = 0;
    while i < g.core_members.len()
        invariant
            i <= g.core_members@.len(),
            ix.indexes(*g),
            forall|k: int|
                0 <= k < i ==> !(relation_published(
                    *g,
                    (#[trigger] g.core_members@[k]).relation_id,
                ) && !row_listed(g.draft_relations@, g.core_members@[k].relation_id)
                    && member_deleted(*g, g.core_members@[k])),
        decreases g.core_members@.len() - i,
    {
        let m = &g.core_members[i];
        if ix.published_relations.contains(&m.relation_id) && !ix.listed_relations.contains(
            &m.relation_id,
        ) && member_deleted_in(g, ix, m) {
            return true;
        }
        i += 1;
    }
    let mut j: usize = 0;
    while j < g.draft_members.len()
        invariant
            j <= g.draft_members@.len(),
            ix.indexes(*g),
            forall|k: int|
                0 <= k < g.core_members@.len() ==> !(relation_published(
                    *g,
                    (#[trigger] g.core_members@[k]).relation_id,
                ) && !row_listed(g.draft_relations@, g.core_members@[k].relation_id)
                    && member_deleted(*g, g.core_members@[k])),
            forall|k: int|
                0 <= k < j ==> !(row_active(
                    g.draft_relations@,
                    (#[trigger] g.draft_members@[k]).relation_id,
                ) && member_deleted(*g, g.draft_members@[k])),
        decreases g.draft_members@.len() - j,
    {
        let m = &g.draft_members[j];
        if ix.active_relations.contains(&m.relation_id) && member_deleted_in(g, ix, m) {
            return true;
        }
        j += 1;
    }
    false
}

/// Whether the staged node list of way `w` holds three different nodes.
pub fn way_has_three_nodes_in(g: &TopologyInput, w: i64) -> (r: bool)
    ensures
        r == way_has_three_nodes(*g, w),
{
    let mut first: Option<i64> = None;
    let mut second: Option<i64> = None;
    let ghost mut ia: int = 0;
    let ghost mut ib: int = 0;
    let mut i: usize = 0;
    while i < g.draft_way_nodes.len()
        invariant
            i <= g.draft_way_nodes@.len(),
            first is None ==> second is None,
            first is Some ==> 0 <= ia < i && g.draft_way_nodes@[ia].way_id == w
                && g.draft_way_nodes@[ia].node_id == first->0,
            second is Some ==> 0 <= ib < i && g.draft_way_nodes@[ib].way_id == w
                && g.draft_way_nodes@[ib].node_id == second->0 && second->0 != first->0,
            forall|k: int|
                0 <= k < i && (#[trigger] g.draft_way_nodes@[k]).way_id == w ==> (first == Some(
                    g.draft_way_nodes@[k].node_id,
                ) || second == Some(g.draft_way_nodes@[k].node_id)),
        decreases g.draft_way_nodes@.len() - i,
    {
        let wn = g.draft_way_nodes[i];
        if wn.way_id == w {
            match (first, second) {
                (None, _) => {
                    first = Some(wn.node_id);
                    proof {
                        ia = i as int;
                    }
                },
                (Some(a), None) => {
                    if wn.node_id != a {
                        second = Some(wn.node_id);
                        proof {
                            ib = i as int;
                        }
                    }
                },
                (Some(a), Some(b)) => {
                    if wn.node_id != a && wn.node_id != b {
                        assert(g.draft_way_nodes@[ia].way_id == w);
                        assert(g.draft_way_nodes@[ib].way_id == w);
                        assert(g.draft_way_nodes@[i as int].way_id == w);
                        return true;
                    }
                },
            }
        }
        i += 1;
    }
    false
}

/// Whether a staged way row is a (not deleted) area.
pub fn is_area(row: &DraftParentRow) -> (r: bool)
    ensures
        r == is_area_row(*row),
{
    if str_eq(row.operation.as_str(), "delete") {
        false
    } else {
        match &row.kind {
            Some(k) => str_eq(k.as_str(), "area"),
            None => false,
        }
    }
}

/// Whether a staged area has fewer than three distinct nodes or a ring that `ring_ok`
/// rejects.
fn find_failing_area(g: &TopologyInput, ring_ok: &Vec<bool>) -> (r: bool)
    requires
        ring_ok@.len() == g.draft_ways@.len(),
    ensures
        r == area_fails(*g, ring_ok@),
{
    let mut i: usize = 0;
    while i < g.draft_ways.len()
        invariant
            i <= g.draft_ways@.len(),
            ring_ok@.len() == g.draft_ways@.len(),
            forall|k: int|
                0 <= k < i && is_area_row(#[trigger] g.draft_ways@[k]) ==> way_has_three_nodes(
                    *g,
                    g.draft_ways@[k].id,
                ) && ring_ok@[k],
        decreases g.draft_ways@.len() - i,
    {
        let row = &g.draft_ways[i];
        if is_area(row) {
            if !way_has_three_nodes_in(g, row.id) || !ring_ok[i] {
                return true;
            }
        }
        i += 1;
    }
    false
}

/// Whether a staged relation row is not a valid multipolygon.
fn multipolygon_fails_in(g: &TopologyInput, ix: &GraphIndex, row: &DraftParentRow) -> (r: bool)
    requires
        ix.indexes(*g),
    ensures
        r == multipolygon_fails(*g, *row),
{
    if str_eq(row.operation.as_str(), "delete") {
        return false;
    }
    let multipolygon = match &row.kind {
        Some(k) => str_eq(k.as_str(), "multipolygon"),
        None => false,
    };
    if !multipolygon {
        return true;
    }
    let mut has_member = false;
    let mut has_outer = false;
    let mut i: usize = 0;
    while i < g.draft_members.len()
        invariant
            i <= g.draft_members@.len(),
            ix.indexes(*g),
            !is_delete(row.operation),
            row.kind is Some && row.kind->0@ == "multipolygon"@,
            has_member == exists|k: int|
                0 <= k < i && (#[trigger] g.draft_members@[k]).relation_id == row.id,
            has_outer == exists|k: int|
                0 <= k < i && (#[trigger] g.draft_members@[k]).relation_id == row.id
                    && crate::validation::outer_role(g.draft_members@[k].role),
            forall|k: int|
                0 <= k < i && (#[trigger] g.draft_members@[k]).relation_id == row.id
                    ==> !bad_multipolygon_member(*g, g.draft_members@[k]),
        decreases g.draft_members@.len() - i,
    {
        let m = &g.draft_members[i];
        if m.relation_id == row.id {
            let (role_ok, outer) = crate::validation::role_kind(&m.role);
            let is_way = str_eq(m.member_type.as_str(), "way");
            let found = ix.way_areas.get(&m.member_id);
            let area = match found {
                Some(a) => *a,
                None => false,
            };
            if !is_way || !role_ok || !area {
                assert(bad_multipolygon_member(*g, *m));
                assert(g.draft_members@[i as int] == *m);
                return true;
            }
            has_member = true;
            if outer {
                has_outer = true;
            }
        }
        i += 1;
    }
    !has_member || !has_outer
}

/// Whether some staged relation row is not a valid multipolygon.
fn find_failing_multipolygon(g: &TopologyInput, ix: &GraphIndex) -> (r: bool)
    requires
        ix.indexes(*g),
    ensures
        r == some_multipolygon_fails(*g),
{
    let mut i: usize = 0;
    while i < g.draft_relations.len()
        invariant
            i <= g.draft_relations@.len(),
            ix.indexes(*g),
            forall|k: int| 0 <= k < i ==> !multipolygon_fails(*g, #[trigger] g.draft_relations@[k]),
        decreases g.draft_relations@.len() - i,
    {
        if multipolygon_fails_in(g, ix, &g.draft_relations[i]) {
            return true;
        }
        i += 1;
    }
    false
}

fn check_links(g: &TopologyInput, ix: &GraphIndex) -> (r: Result<(), DomainError>)
    requires
        ix.indexes(*g),
    ensures
        r == spec_topology_links(*g),
{
    if find_missing_way_node(g, ix) {
        return Err(DomainError::InvalidReference);
    }
    if find_deleted_way_node(g, ix) {
        return Err(DomainError::InvalidTopology);
    }
    check_relation_members(g, ix)?;
    if find_deleted_member(g, ix) {
        return Err(DomainError::InvalidTopology);
    }
    Ok(())
}

/// Checks the references of the graph that publishing the changeset would leave: staged ways
/// list nodes that exist, nothing kept lists a deleted entity, and staged relations list
/// entities that exist, not themselves and none twice.
pub fn validate_topology_links(g: &TopologyInput) -> (r: Result<(), DomainError>)
    ensures
        r == spec_topology_links(*g),
{
    let ix = build_index(g);
    check_links(g, &ix)
}

/// Checks the graph that publishing the changeset would leave. `ring_ok[i]` says whether the
/// ring of staged way row `i` closes into a valid polygon (it is read for areas only).
pub fn validate_topology(g: &TopologyInput, ring_ok: &Vec<bool>) -> (r: Result<(), DomainError>)
    requires
        ring_ok@.len() == g.draft_ways@.len(),
    ensures
        r == spec_validate_topology(*g, ring_ok@),
{
    let ix = build_index(g);
    check_links(g, &ix)?;
    if find_failing_area(g, ring_ok) {
        return Err(DomainError::InvalidGeometryState);
    }
    if find_failing_multipolygon(g, &ix) {
        return Err(DomainError::InvalidTopology);
    }
    Ok(())
}

// ---- area rings ----

/// The position of the last staged, not deleted row of `id` that carries one.
pub open spec fn last_draft_position(rows: Seq<DraftNodeRow>, id: i64) -> Option<(u64, u64)>
    decreases rows.len(),
{
    if rows.len() == 0 {
        None
    } else {
        let r = rows.last();
        if r.id == id && !is_delete(r.operation) && r.position is Some {
            r.position
        } else {
            last_draft_position(rows.drop_last(), id)
        }
    }
}

/// The position of the last published row of `id`.
pub open spec fn last_core_position(rows: Seq<CoreNodeRow>, id: i64) -> Option<(u64, u64)>
    decreases rows.len(),
{
    if rows.len() == 0 {
        None
    } else if rows.last().id == id {
        Some((rows.last().x, rows.last().z))
    } else {
        last_core_position(rows.drop_last(), id)
    }
}

/// The position of node `id` in the final graph; `None` when the node is not there.
pub open spec fn node_position(g: TopologyInput, id: i64) -> Option<(u64, u64)> {
    match last_draft_position(g.draft_nodes@, id) {
        Some(p) => Some(p),
        None => if node_drafted(g, id) {
            None
        } else {
            last_core_position(g.core_nodes@, id)
        },
    }
}

/// The staged node list entries of way `w`, in row order.
pub open spec fn entries_of(rows: Seq<WayNodeRow>, w: i64) -> Seq<WayNodeRow>
    decreases rows.len(),
{
    if rows.len() == 0 {
        Seq::empty()
    } else if rows.last().way_id == w {
        entries_of(rows.drop_last(), w).push(rows.last())
    } else {
        entries_of(rows.drop_last(), w)
    }
}

/// `x` placed after every entry of `s` whose position is at most its own (a step of a stable
/// sort by position).
pub open spec fn insert_by_seq(s: Seq<WayNodeRow>, x: WayNodeRow) -> Seq<WayNodeRow>
    decreases s.len(),
{
    if s.len() == 0 {
        seq![x]
    } else if s.last().seq <= x.seq {
        s.push(x)
    } else {
        insert_by_seq(s.drop_last(), x).push(s.last())
    }
}

/// `s` stably sorted by position.
pub open spec fn sort_by_seq(s: Seq<WayNodeRow>) -> Seq<WayNodeRow>
    decreases s.len(),
{
    if s.len() == 0 {
        Seq::empty()
    } else {
        insert_by_seq(sort_by_seq(s.drop_last()), s.last())
    }
}

/// The positions of the nodes of `s` that the final graph holds, in order.
pub open spec fn ring_positions(g: TopologyInput, s: Seq<WayNodeRow>) -> Seq<(u64, u64)>
    decreases s.len(),
{
    if s.len() == 0 {
        Seq::empty()
    } else {
        match node_position(g, s.last().node_id) {
            Some(p) => ring_positions(g, s.drop_last()).push(p),
            None => ring_positions(g, s.drop_last()),
        }
    }
}

/// The ring of staged way `w`: the positions of its nodes, ordered by position in the way.
pub open spec fn spec_area_ring(g: TopologyInput, w: i64) -> Seq<(u64, u64)> {
    ring_positions(g, sort_by_seq(entries_of(g.draft_way_nodes@, w)))
}

/// Inserting `x` at index `j` of a sorted prefix/suffix split is `insert_by_seq`.
proof fn lemma_insert_by_seq(s: Seq<WayNodeRow>, x: WayNodeRow, j: int)
    requires
        0 <= j <= s.len(),
        forall|k: int| j <= k < s.len() ==> (#[trigger] s[k]).seq > x.seq,
        j == 0 || s[j - 1].seq <= x.seq,
    ensures
        insert_by_seq(s, x) == s.insert(j, x),
    decreases s.len(),
{
    if s.len() == 0 {
        assert(s.insert(j, x) =~= seq![x]);
    } else if s.last().seq <= x.seq {
        assert(s.insert(j, x) =~= s.push(x));
    } else {
        let d = s.drop_last();
        lemma_insert_by_seq(d, x, j);
        assert(s.insert(j, x) =~= d.insert(j, x).push(s.last()));
    }
}

/// Positions of the nodes of the final graph.
fn node_positions(g: &TopologyInput, drafted: &HashSet<i64>) -> (r: HashMap<i64, (u64, u64)>)
    requires
        forall|x: i64| drafted@.contains(x) <==> node_drafted(*g, x),
    ensures
        forall|x: i64| #[trigger] r@.contains_key(x) <==> node_position(*g, x) is Some,
        forall|x: i64| #[trigger] r@.contains_key(x) ==> node_position(*g, x) == Some(r@[x]),
{
    let mut points: HashMap<i64, (u64, u64)> = HashMap::new();
    let mut i: usize = 0;
    while i < g.core_nodes.len()
        invariant
            i <= g.core_nodes@.len(),
            forall|x: i64| drafted@.contains(x) <==> node_drafted(*g, x),
            forall|x: i64|
                #[trigger] points@.contains_key(x) <==> !node_drafted(*g, x) && last_core_position(
                    g.core_nodes@.take(i as int),
                    x,
                ) is Some,
            forall|x: i64|
                #[trigger] points@.contains_key(x) ==> last_core_position(
                    g.core_nodes@.take(i as int),
                    x,
                ) == Some(points@[x]),
        decreases g.core_nodes@.len() - i,
    {
        let row = g.core_nodes[i];
        proof {
            let t = g.core_nodes@.take(i + 1);
            assert(t.drop_last() =~= g.core_nodes@.take(i as int));
            assert(t.last() == row);
        }
        if !drafted.contains(&row.id) {
            points.insert(row.id, (row.x, row.z));
        }
        i += 1;
    }
    assert(g.core_nodes@.take(i as int) =~= g.core_nodes@);
    let mut j: usize = 0;
    while j < g.draft_nodes.len()
        invariant
            j <= g.draft_nodes@.len(),
            forall|x: i64|
                #[trigger] points@.contains_key(x) <==> match last_draft_position(
                    g.draft_nodes@.take(j as int),
                    x,
                ) {
                    Some(_) => true,
                    None => !node_drafted(*g, x) && last_core_position(g.core_nodes@, x) is Some,
                },
            forall|x: i64|
                #[trigger] points@.contains_key(x) ==> match last_draft_position(
                    g.draft_nodes@.take(j as int),
                    x,
                ) {
                    Some(p) => points@[x] == p,
                    None => last_core_position(g.core_nodes@, x) == Some(points@[x]),
                },
        decreases g.draft_nodes@.len() - j,
    {
        let row = &g.draft_nodes[j];
        proof {
            let t = g.draft_nodes@.take(j + 1);
            assert(t.drop_last() =~= g.draft_nodes@.take(j as int));
            assert(t.last() == *row);
        }
        if !str_eq(row.operation.as_str(), "delete") {
            match row.position {
                Some(p) => {
                    points.insert(row.id, p);
                },
                None => {},
            }
        }
        j += 1;
    }
    assert(g.draft_nodes@.take(j as int) =~= g.draft_nodes@);
    points
}

/// The staged node list entries of way `w`, in row order.
fn way_entries(g: &TopologyInput, w: i64) -> (r: Vec<WayNodeRow>)
    ensures
        r@ == entries_of(g.draft_way_nodes@, w),
{
    let mut out: Vec<WayNodeRow> = Vec::new();
    let mut i: usize = 0;
    while i < g.draft_way_nodes.len()
        invariant
            i <= g.draft_way_nodes@.len(),
            out@ == entries_of(g.draft_way_nodes@.take(i as int), w),
        decreases g.draft_way_nodes@.len() - i,
    {
        let wn = g.draft_way_nodes[i];
        proof {
            let t = g.draft_way_nodes@.take(i + 1);
            assert(t.drop_last() =~= g.draft_way_nodes@.take(i as int));
            assert(t.last() == wn);
        }
        if wn.way_id == w {
            out.push(wn);
        }
        i += 1;
    }
    assert(g.draft_way_nodes@.take(i as int) =~= g.draft_way_nodes@);
    out
}

/// Stable insertion sort by position.
fn sort_entries(v: &Vec<WayNodeRow>) -> (r: Vec<WayNodeRow>)
    ensures
        r@ == sort_by_seq(v@),
{
    let mut out: Vec<WayNodeRow> = Vec::new();
    let mut i: usize = 0;
    while i < v.len()
        invariant
            i <= v@.len(),
            out@ == sort_by_seq(v@.take(i as int)),
        decreases v@.len() - i,
    {
        let x = v[i];
        let mut j: usize = out.len();
        while j > 0 && out[j - 1].seq > x.seq
            invariant
                j <= out@.len(),
                forall|k: int| j <= k < out@.len() ==> (#[trigger] out@[k]).seq > x.seq,
            decreases j,
        {
            j -= 1;
        }
        proof {
            lemma_insert_by_seq(out@, x, j as int);
            let t = v@.take(i + 1);
            assert(t.drop_last() =~= v@.take(i as int));
            assert(t.last() == x);
        }
        out.insert(j, x);
        i += 1;
    }
    assert(v@.take(i as int) =~= v@);
    out
}

/// The ring of staged way `w`: the positions (IEEE-754 bit patterns of X and Z) of its nodes
/// that the final graph holds, ordered by their position in the way.
pub fn area_ring(g: &TopologyInput, w: i64) -> (r: Vec<(u64, u64)>)
    ensures
        r@ == spec_area_ring(*g, w),
{
    let (drafted, _) = draft_node_sets(g);
    let points = node_positions(g, &drafted);
    let sorted = sort_entries(&way_entries(g, w));
    let mut out: Vec<(u64, u64)> = Vec::new();
    let mut i: usize = 0;
    while i < sorted.len()
        invariant
            i <= sorted@.len(),
            forall|x: i64| #[trigger] points@.contains_key(x) <==> node_position(*g, x) is Some,
            forall|x: i64| #[trigger] points@.contains_key(x) ==> node_position(*g, x) == Some(points@[x]),
            out@ == ring_positions(*g, sorted@.take(i as int)),
        decreases sorted@.len() - i,
    {
        let wn = sorted[i];
        proof {
            let t = sorted@.take(i + 1);
            assert(t.drop_last() =~= sorted@.take(i as int));
            assert(t.last() == wn);
        }
        match points.get(&wn.node_id) {
            Some(p) => {
                out.push(*p);
            },
            None => {},
        }
        i += 1;
    }
    assert(sorted@.take(i as int) =~= sorted@);
    out
}

// ---- what an accepted graph guarantees ----

/// A graph that passes validation is closed under references: every node a staged, kept way
/// lists exists in the final graph and is not deleted, no published way the changeset leaves
/// alone lists a deleted node, every member of a staged, kept relation names an entity of the
/// final graph, and no relation of the final graph lists an entity the changeset deletes.
pub proof fn law_accepted_graph_references_exist(g: TopologyInput, ring_ok: Seq<bool>)
    requires
        spec_validate_topology(g, ring_ok) is Ok,
    ensures
        forall|i: int|
            0 <= i < g.draft_way_nodes@.len() && row_active(
                g.draft_ways@,
                (#[trigger] g.draft_way_nodes@[i]).way_id,
            ) ==> node_effective(g, g.draft_way_nodes@[i].node_id) && !node_deleted(
                g,
                g.draft_way_nodes@[i].node_id,
            ),
        forall|i: int|
            0 <= i < g.core_way_nodes@.len() && !row_listed(
                g.draft_ways@,
                (#[trigger] g.core_way_nodes@[i]).way_id,
            ) ==> !node_deleted(g, g.core_way_nodes@[i].node_id),
        forall|r: int, i: int|
            0 <= r < g.draft_relations@.len() && !is_delete(g.draft_relations@[r].operation) && 0
                <= i < g.draft_members@.len() && (#[trigger] g.draft_members@[i]).relation_id
                == (#[trigger] g.draft_relations@[r]).id ==> member_resolves(
                g,
                g.draft_members@[i],
            ),
        forall|i: int|
            0 <= i < g.draft_members@.len() && row_active(
                g.draft_relations@,
                (#[trigger] g.draft_members@[i]).relation_id,
            ) ==> !member_deleted(g, g.draft_members@[i]),
        forall|i: int|
            0 <= i < g.core_members@.len() && relation_published(
                g,
                (#[trigger] g.core_members@[i]).relation_id,
            ) && !row_listed(g.draft_relations@, g.core_members@[i].relation_id)
                ==> !member_deleted(g, g.core_members@[i]),
{
    assert forall|r: int, i: int|
        0 <= r < g.draft_relations@.len() && !is_delete(g.draft_relations@[r].operation) && 0 <= i
            < g.draft_members@.len() && (#[trigger] g.draft_members@[i]).relation_id
            == (#[trigger] g.draft_relations@[r]).id implies member_resolves(
        g,
        g.draft_members@[i],
    ) by {
        lemma_members_from_ok(g, 0, r);
    }
}

/// Relation rows from `start` on pass their member checks when the checks from `start` pass.
proof fn lemma_members_from_ok(g: TopologyInput, start: int, r: int)
    requires
        0 <= start <= r < g.draft_relations@.len(),
        relation_members_from(g, start) is Ok,
    ensures
        relation_row_members(g, g.draft_relations@[r]) is Ok,
    decreases r - start,
{
    if start < r {
        lemma_members_from_ok(g, start + 1, r);
    }
}

/// The member checks from row `i` on agree on inputs with the same rows but published way node
/// lists.
proof fn lemma_members_from_same(g1: TopologyInput, g2: TopologyInput, i: int)
    requires
        g1.draft_nodes@ == g2.draft_nodes@,
        g1.core_nodes@ == g2.core_nodes@,
        g1.core_ways@ == g2.core_ways@,
        g1.draft_ways@ == g2.draft_ways@,
        g1.draft_way_nodes@ == g2.draft_way_nodes@,
        g1.core_relations@ == g2.core_relations@,
        g1.draft_relations@ == g2.draft_relations@,
        g1.core_members@ == g2.core_members@,
        g1.draft_members@ == g2.draft_members@,
    ensures
        relation_members_from(g1, i) == relation_members_from(g2, i),
    decreases g1.draft_relations@.len() - i,
{
    if 0 <= i < g1.draft_relations@.len() {
        lemma_members_from_same(g1, g2, i + 1);
        let row = g1.draft_relations@[i];
        assert(relation_dangles(g1, row.id) == relation_dangles(g2, row.id)) by {
            assert forall|m: MemberRow| member_resolves(g1, m) == member_resolves(g2, m) by {
                assert(way_kind(g1, m.member_id) == way_kind(g2, m.member_id));
            }
        }
    }
}

/// Ways listed among the changeset's drafts keep none of their published node lists: when two
/// inputs agree on every row except such published way node rows, validation answers both the
/// same. Deleting a published way together with its nodes is therefore never refused because
/// of the nodes the way listed.
pub proof fn law_restaged_way_nodes_ignored(g1: TopologyInput, g2: TopologyInput, ring_ok: Seq<bool>)
    requires
        g1.draft_nodes@ == g2.draft_nodes@,
        g1.core_nodes@ == g2.core_nodes@,
        g1.core_ways@ == g2.core_ways@,
        g1.draft_ways@ == g2.draft_ways@,
        g1.draft_way_nodes@ == g2.draft_way_nodes@,
        g1.core_relations@ == g2.core_relations@,
        g1.draft_relations@ == g2.draft_relations@,
        g1.core_members@ == g2.core_members@,
        g1.draft_members@ == g2.draft_members@,
        forall|r: WayNodeRow|
            !(exists|k: int| 0 <= k < g1.draft_ways@.len() && #[trigger] g1.draft_ways@[k].id == r.way_id)
                ==> (g1.core_way_nodes@.contains(r) <==> g2.core_way_nodes@.contains(r)),
    ensures
        spec_validate_topology(g1, ring_ok) == spec_validate_topology(g2, ring_ok),
{
    lemma_members_from_same(g1, g2, 0);
    assert forall|id: i64| node_effective(g1, id) == node_effective(g2, id) by {}
    assert forall|id: i64| node_deleted(g1, id) == node_deleted(g2, id) by {}
    assert forall|id: i64| way_kind(g1, id) == way_kind(g2, id) by {}
    assert forall|m: MemberRow| member_deleted(g1, m) == member_deleted(g2, m) by {}
    assert(way_references_deleted_node(g1) == way_references_deleted_node(g2)) by {
        if exists|i: int|
            0 <= i < g1.core_way_nodes@.len() && !row_listed(
                g1.draft_ways@,
                (#[trigger] g1.core_way_nodes@[i]).way_id,
            ) && node_deleted(g1, g1.core_way_nodes@[i].node_id) {
            let i = choose|i: int|
                0 <= i < g1.core_way_nodes@.len() && !row_listed(
                    g1.draft_ways@,
                    (#[trigger] g1.core_way_nodes@[i]).way_id,
                ) && node_deleted(g1, g1.core_way_nodes@[i].node_id);
            let r = g1.core_way_nodes@[i];
            assert(g1.core_way_nodes@.contains(r));
            assert(g2.core_way_nodes@.contains(r));
            let j = choose|j: int| 0 <= j < g2.core_way_nodes@.len() && g2.core_way_nodes@[j] == r;
            assert(!row_listed(g2.draft_ways@, g2.core_way_nodes@[j].way_id));
        }
        if exists|i: int|
            0 <= i < g2.core_way_nodes@.len() && !row_listed(
                g2.draft_ways@,
                (#[trigger] g2.core_way_nodes@[i]).way_id,
            ) && node_deleted(g2, g2.core_way_nodes@[i].node_id) {
            let i = choose|i: int|
                0 <= i < g2.core_way_nodes@.len() && !row_listed(
                    g2.draft_ways@,
                    (#[trigger] g2.core_way_nodes@[i]).way_id,
                ) && node_deleted(g2, g2.core_way_nodes@[i].node_id);
            let r = g2.core_way_nodes@[i];
            assert(g2.core_way_nodes@.contains(r));
            if exists|k: int| 0 <= k < g1.draft_ways@.len() && #[trigger] g1.draft_ways@[k].id == r.way_id {
                let k = choose|k: int| 0 <= k < g1.draft_ways@.len() && #[trigger] g1.draft_ways@[k].id == r.way_id;
                assert(g2.draft_ways@[k].id == r.way_id);
            }
            assert(g1.core_way_nodes@.contains(r));
            let j = choose|j: int| 0 <= j < g1.core_way_nodes@.len() && g1.core_way_nodes@[j] == r;
            assert(!row_listed(g1.draft_ways@, g1.core_way_nodes@[j].way_id));
        }
    }
    assert(way_references_missing_node(g1) == way_references_missing_node(g2));
    assert(relation_references_deleted(g1) == relation_references_deleted(g2));
    assert(spec_topology_links(g1) == spec_topology_links(g2));
    assert(area_fails(g1, ring_ok) == area_fails(g2, ring_ok));
    assert(some_multipolygon_fails(g1) == some_multipolygon_fails(g2)) by {
        assert forall|row: DraftParentRow| multipolygon_fails(g1, row) == multipolygon_fails(g2, row) by {
            assert forall|m: MemberRow| bad_multipolygon_member(g1, m) == bad_multipolygon_member(g2, m) by {
                assert(way_kind(g1, m.member_id) == way_kind(g2, m.member_id));
            }
        }
    }
}

/// A graph that passes validation keeps only well-formed areas and multipolygons: every
/// staged, kept area has three distinct nodes and a ring the geometry engine accepts, and
/// every staged, kept relation is a multipolygon of area ways with valid roles and at least
/// one outer member.
pub proof fn law_accepted_graph_shapes(g: TopologyInput, ring_ok: Seq<bool>)
    requires
        spec_validate_topology(g, ring_ok) is Ok,
    ensures
        forall|i: int|
            0 <= i < g.draft_ways@.len() && is_area_row(#[trigger] g.draft_ways@[i])
                ==> way_has_three_nodes(g, g.draft_ways@[i].id) && ring_ok[i],
        forall|r: int|
            0 <= r < g.draft_relations@.len() && !is_delete(
                (#[trigger] g.draft_relations@[r]).operation,
            ) ==> {
                let row = g.draft_relations@[r];
                &&& row.kind is Some && row.kind->0@ == "multipolygon"@
                &&& relation_has_members(g, row.id)
                &&& exists|i: int|
                    0 <= i < g.draft_members@.len() && (#[trigger] g.draft_members@[i]).relation_id
                        == row.id && crate::validation::outer_role(g.draft_members@[i].role)
                &&& forall|i: int|
                    0 <= i < g.draft_members@.len() && (#[trigger] g.draft_members@[i]).relation_id
                        == row.id ==> g.draft_members@[i].member_type@ == "way"@
                        && crate::validation::role_ok(g.draft_members@[i].role) && way_kind(
                        g,
                        g.draft_members@[i].member_id,
                    ) == Some("area"@)
            },
{
    assert forall|r: int|
        0 <= r < g.draft_relations@.len() && !is_delete(
            (#[trigger] g.draft_relations@[r]).operation,
        ) implies {
        let row = g.draft_relations@[r];
        &&& row.kind is Some && row.kind->0@ == "multipolygon"@
        &&& relation_has_members(g, row.id)
        &&& exists|i: int|
            0 <= i < g.draft_members@.len() && (#[trigger] g.draft_members@[i]).relation_id
                == row.id && crate::validation::outer_role(g.draft_members@[i].role)
        &&& forall|i: int|
            0 <= i < g.draft_members@.len() && (#[trigger] g.draft_members@[i]).relation_id
                == row.id ==> g.draft_members@[i].member_type@ == "way"@
                && crate::validation::role_ok(g.draft_members@[i].role) && way_kind(
                g,
                g.draft_members@[i].member_id,
            ) == Some("area"@)
    } by {
        let row = g.draft_relations@[r];
        assert(!multipolygon_fails(g, row));
        assert forall|i: int|
            0 <= i < g.draft_members@.len() && (#[trigger] g.draft_members@[i]).relation_id
                == row.id implies g.draft_members@[i].member_type@ == "way"@
            && crate::validation::role_ok(g.draft_members@[i].role) && way_kind(
            g,
            g.draft_members@[i].member_id,
        ) == Some("area"@) by {
            assert(!bad_multipolygon_member(g, g.draft_members@[i]));
        }
    }
}

} // verus!
