//! Viewport reads: which nodes a viewport carries, and the rows it returns.

use vstd::prelude::*;

use std::collections::HashSet;

use crate::text::str_eq;
use crate::types::GeometryKind;

verus! {

broadcast use vstd::std_specs::hash::group_hash_axioms;

/// One position of a way's node list in a viewport.
#[derive(Debug, Clone, Copy, PartialEq, Eq, Structural)]
pub struct ViewportWayNode {
    pub way_id: i64,
    pub seq: i32,
    pub node_id: i64,
    pub changeset_id: i64,
}

/// One member of a relation in a viewport.
#[derive(Debug, Clone)]
pub struct ViewportRelationMember {
    pub relation_id: i64,
    pub seq: i32,
    pub member_type: String,
    pub member_id: i64,
    pub role: Option<String>,
    pub changeset_id: i64,
}

/// The geometry kind a stored name denotes.
pub open spec fn spec_geometry_kind(value: Seq<char>) -> Option<GeometryKind> {
    if value == "line"@ {
        Some(GeometryKind::Line)
    } else if value == "area"@ {
        Some(GeometryKind::Area)
    } else {
        None
    }
}

/// The error for a stored geometry kind that names no kind.
pub open spec fn unknown_kind_message(value: Seq<char>) -> Seq<char> {
    "invalid geometry kind from database: "@ + value
}

/// Reads a stored geometry kind; another name is an error that quotes it.
pub fn parse_geometry_kind(value: String) -> (r: Result<GeometryKind, String>)
    ensures
        match spec_geometry_kind(value@) {
            Some(k) => r == Ok::<GeometryKind, String>(k),
            None => r matches Err(m) && m@ == unknown_kind_message(value@),
        },
{
    if str_eq(value.as_str(), "line") {
        Ok(GeometryKind::Line)
    } else if str_eq(value.as_str(), "area") {
        Ok(GeometryKind::Area)
    } else {
        Err("invalid geometry kind from database: ".to_owned().concat(value.as_str()))
    }
}

/// Reading back the stored name of a kind gives the kind.
pub proof fn law_geometry_kind_round_trip(k: GeometryKind)
    ensures
        spec_geometry_kind(k.spec_name()) == Some(k),
{
    reveal_strlit("line");
    reveal_strlit("area");
    assert("area"@[0] != "line"@[0]);
}

proof fn lemma_push_fresh(s: Seq<i64>, x: i64)
    requires
        s.no_duplicates(),
        !s.contains(x),
    ensures
        s.push(x).no_duplicates(),
        forall|y: i64| #[trigger] s.push(x).contains(y) <==> s.contains(y) || y == x,
{
    let t = s.push(x);
    assert forall|y: i64| #[trigger] t.contains(y) <==> s.contains(y) || y == x by {
        if t.contains(y) {
            let k = choose|k: int| 0 <= k < t.len() && t[k] == y;
            if k < s.len() {
                assert(s[k] == y);
            }
        }
        if s.contains(y) {
            let k = choose|k: int| 0 <= k < s.len() && s[k] == y;
            assert(t[k] == y);
        }
        if y == x {
            assert(t[s.len() as int] == x);
        }
    }
    assert forall|a: int, b: int| 0 <= a < t.len() && 0 <= b < t.len() && a != b implies t[a] != t[b] by {
        if a == s.len() {
            assert(s[b] == t[b]);
        } else if b == s.len() {
            assert(s[a] == t[a]);
        }
    }
}

/// The nodes a viewport carries: those its ways list and those inside it, each once, in the
/// order first met.
pub fn viewport_node_ids(way_nodes: &Vec<ViewportWayNode>, inside: &Vec<i64>) -> (r: Vec<i64>)
    ensures
        r@.no_duplicates(),
        forall|id: i64|
            r@.contains(id) <==> (exists|i: int|
                0 <= i < way_nodes@.len() && (#[trigger] way_nodes@[i]).node_id == id)
                || inside@.contains(id),
{
    let mut seen: HashSet<i64> = HashSet::new();
    let mut out: Vec<i64> = Vec::new();
    let mut i: usize = 0;
    while i < way_nodes.len()
        invariant
            i <= way_nodes@.len(),
            out@.no_duplicates(),
            forall|id: i64| #[trigger] seen@.contains(id) <==> out@.contains(id),
            forall|id: i64|
                out@.contains(id) <==> exists|k: int|
                    0 <= k < i && (#[trigger] way_nodes@[k]).node_id == id,
        decreases way_nodes@.len() - i,
    {
        let id = way_nodes[i].node_id;
        if !seen.contains(&id) {
            proof {
                lemma_push_fresh(out@, id);
            }
            seen.insert(id);
            out.push(id);
        }
        proof {
            assert(way_nodes@[i as int].node_id == id);
        }
        i += 1;
    }
    let mut j: usize = 0;
    while j < inside.len()
        invariant
            j <= inside@.len(),
            out@.no_duplicates(),
            forall|id: i64| #[trigger] seen@.contains(id) <==> out@.contains(id),
            forall|id: i64|
                out@.contains(id) <==> (exists|k: int|
                    0 <= k < way_nodes@.len() && (#[trigger] way_nodes@[k]).node_id == id)
                    || exists|k: int| 0 <= k < j && #[trigger] inside@[k] == id,
        decreases inside@.len() - j,
    {
        let id = inside[j];
        if !seen.contains(&id) {
            proof {
                lemma_push_fresh(out@, id);
            }
            seen.insert(id);
            out.push(id);
        }
        proof {
            assert(inside@[j as int] == id);
        }
        j += 1;
    }
    out
}

} // verus!
