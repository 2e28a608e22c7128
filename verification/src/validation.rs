//! Request validation: tags, coordinates, way shapes, relation members and upload ids.

use vstd::prelude::*;

use crate::text::str_eq;
use crate::types::{HttpStatus, Point, RelationMember, Tags};

verus! {

/// Tag keys reserved for structural fields.
pub open spec fn is_reserved_key(k: Seq<char>) -> bool {
    ||| k == "feature_type"@
    ||| k == "relation_type"@
    ||| k == "geometry_kind"@
    ||| k == "is_closed"@
    ||| k == "version"@
    ||| k == "deleted_at"@
    ||| k == "changeset_id"@
}

/// Whether some tag uses a reserved key.
pub open spec fn has_reserved_key(tags: Seq<(String, String)>) -> bool {
    exists|i: int| 0 <= i < tags.len() && is_reserved_key(#[trigger] tags[i].0@)
}

/// Tag keys may not name structural fields.
pub fn validate_tags(tags: &Tags) -> (r: Result<(), HttpStatus>)
    ensures
        r == if has_reserved_key(tags@) {
            Err::<(), HttpStatus>(HttpStatus::BadRequest)
        } else {
            Ok(())
        },
{
    let entries = tags.entries();
    let mut i: usize = 0;
    while i < entries.len()
        invariant
            i <= tags@.len(),
            entries@ == tags@,
            forall|j: int| 0 <= j < i ==> !is_reserved_key(#[trigger] tags@[j].0@),
        decreases tags@.len() - i,
    {
        let k = entries[i].0.as_str();
        if str_eq(k, "feature_type") || str_eq(k, "relation_type") || str_eq(k, "geometry_kind")
            || str_eq(k, "is_closed") || str_eq(k, "version") || str_eq(k, "deleted_at")
            || str_eq(k, "changeset_id") {
            return Err(HttpStatus::BadRequest);
        }
        i += 1;
    }
    Ok(())
}

/// Whether an IEEE 754 binary64 bit pattern is a finite number: its exponent is not all ones.
pub open spec fn is_finite_bits(b: u64) -> bool {
    (b >> 52u64) & 0x7ffu64 != 0x7ffu64
}

/// Coordinates must be finite.
pub fn validate_point(p: &Point) -> (r: Result<(), HttpStatus>)
    ensures
        r == if is_finite_bits(p.x) && is_finite_bits(p.y) && is_finite_bits(p.z) {
            Ok::<(), HttpStatus>(())
        } else {
            Err(HttpStatus::UnprocessableEntity)
        },
{
    let fx = (p.x >> 52u64) & 0x7ffu64 != 0x7ffu64;
    let fy = (p.y >> 52u64) & 0x7ffu64 != 0x7ffu64;
    let fz = (p.z >> 52u64) & 0x7ffu64 != 0x7ffu64;
    if fx && fy && fz {
        Ok(())
    } else {
        Err(HttpStatus::UnprocessableEntity)
    }
}

/// Whether `s` holds at least two different values.
pub open spec fn two_distinct(s: Seq<i64>) -> bool {
    exists|i: int, j: int| 0 <= i < s.len() && 0 <= j < s.len() && #[trigger] s[i] != #[trigger] s[j]
}

/// Whether `s` holds at least three pairwise different values.
pub open spec fn three_distinct(s: Seq<i64>) -> bool {
    exists|i: int, j: int, k: int|
        0 <= i < s.len() && 0 <= j < s.len() && 0 <= k < s.len() && #[trigger] s[i]
            != #[trigger] s[j] && s[i] != #[trigger] s[k] && s[j] != s[k]
}

/// Lines need two different nodes; areas need a closed ring (first node repeated last)
/// around at least three different nodes.
pub open spec fn way_shape_ok(kind: Seq<char>, refs: Seq<i64>) -> bool {
    if kind == "line"@ {
        refs.len() >= 2 && two_distinct(refs)
    } else if kind == "area"@ {
        refs.len() >= 4 && refs[0] == refs.last() && three_distinct(refs.take(refs.len() - 1))
    } else {
        false
    }
}

/// Whether `s[..m]` holds two different values.
fn has_two_distinct(s: &Vec<i64>, m: usize) -> (r: bool)
    requires
        m <= s@.len(),
    ensures
        r == two_distinct(s@.take(m as int)),
{
    let ghost t = s@.take(m as int);
    if m == 0 {
        return false;
    }
    let a = s[0];
    let mut j: usize = 1;
    while j < m
        invariant
            1 <= j <= m <= s@.len(),
            t == s@.take(m as int),
            a == t[0],
            forall|k: int| 0 <= k < j ==> #[trigger] t[k] == a,
        decreases m - j,
    {
        if s[j] != a {
            assert(t[j as int] != t[0]);
            return true;
        }
        j += 1;
    }
    assert forall|x: int, y: int| 0 <= x < t.len() && 0 <= y < t.len() implies !(#[trigger] t[x]
        != #[trigger] t[y]) by {
        assert(t[x] == a && t[y] == a);
    }
    false
}

/// Whether `s[..m]` holds three pairwise different values.
fn has_three_distinct(s: &Vec<i64>, m: usize) -> (r: bool)
    requires
        m <= s@.len(),
    ensures
        r == three_distinct(s@.take(m as int)),
{
    let ghost t = s@.take(m as int);
    if m == 0 {
        return false;
    }
    let a = s[0];
    let mut second: Option<i64> = None;
    let mut j: usize = 1;
    while j < m
        invariant
            1 <= j <= m <= s@.len(),
            t == s@.take(m as int),
            a == t[0],
            second matches Some(b) ==> b != a && exists|w: int| 0 <= w < t.len() && t[w] == b,
            second is None ==> forall|k: int| 0 <= k < j ==> #[trigger] t[k] == a,
            second matches Some(b) ==> forall|k: int| 0 <= k < j ==> #[trigger] t[k] == a
                || t[k] == b,
        decreases m - j,
    {
        let v = s[j];
        assert(t[j as int] == v);
        match second {
            None => {
                if v != a {
                    second = Some(v);
                }
            },
            Some(b) => {
                if v != a && v != b {
                    let ghost w = choose|w: int| 0 <= w < t.len() && t[w] == b;
                    assert(t[0] != t[w] && t[0] != t[j as int] && t[w] != t[j as int]);
                    return true;
                }
            },
        }
        j += 1;
    }
    assert forall|x: int, y: int, z: int|
        0 <= x < t.len() && 0 <= y < t.len() && 0 <= z < t.len() implies !(#[trigger] t[x]
        != #[trigger] t[y] && t[x] != #[trigger] t[z] && t[y] != t[z]) by {
        match second {
            None => {
                assert(t[x] == a);
            },
            Some(b) => {
                assert(t[x] == a || t[x] == b);
                assert(t[y] == a || t[y] == b);
                assert(t[z] == a || t[z] == b);
            },
        }
    }
    false
}

/// Lines need at least two distinct nodes; areas need a closed ring with at least three
/// distinct nodes.
pub fn validate_way(kind: &str, refs: &Vec<i64>) -> (r: Result<(), HttpStatus>)
    ensures
        r == if way_shape_ok(kind@, refs@) {
            Ok::<(), HttpStatus>(())
        } else {
            Err(HttpStatus::UnprocessableEntity)
        },
{
    let n = refs.len();
    let valid = if str_eq(kind, "line") {
        let two = has_two_distinct(refs, n);
        assert(refs@.take(n as int) == refs@);
        n >= 2 && two
    } else if str_eq(kind, "area") {
        n >= 4 && refs[0] == refs[n - 1] && has_three_distinct(refs, n - 1)
    } else {
        false
    };
    if valid {
        Ok(())
    } else {
        Err(HttpStatus::UnprocessableEntity)
    }
}

/// A member role that multipolygons accept: none, `outer` or `inner`.
pub open spec fn role_ok(role: Option<String>) -> bool {
    match role {
        Some(r) => r@ == "outer"@ || r@ == "inner"@,
        None => true,
    }
}

/// A member role that makes the member part of the outer boundary: none or `outer`.
pub open spec fn outer_role(role: Option<String>) -> bool {
    match role {
        Some(r) => r@ == "outer"@,
        None => true,
    }
}

/// Multipolygon members: at least one, all ways with valid roles, no repeated member, and
/// at least one outer member.
pub open spec fn members_ok(ms: Seq<RelationMember>) -> bool {
    &&& ms.len() > 0
    &&& forall|i: int|
        0 <= i < ms.len() ==> (#[trigger] ms[i]).member_type@ == "way"@ && role_ok(ms[i].role)
    &&& forall|i: int, j: int|
        0 <= i < ms.len() && 0 <= j < ms.len() && i != j ==> !(
        (#[trigger] ms[i]).member_type@ == (#[trigger] ms[j]).member_type@ && ms[i].member_id
            == ms[j].member_id)
    &&& exists|i: int| 0 <= i < ms.len() && outer_role(#[trigger] ms[i].role)
}

/// Whether a role is accepted by multipolygons, and whether it is an outer role.
pub(crate) fn role_kind(role: &Option<String>) -> (r: (bool, bool))
    ensures
        r.0 == role_ok(*role),
        r.1 == outer_role(*role),
{
    match role {
        Some(s) => {
            let outer = str_eq(s.as_str(), "outer");
            (outer || str_eq(s.as_str(), "inner"), outer)
        },
        None => (true, true),
    }
}

/// Checks multipolygon members.
pub fn validate_members(members: &Vec<RelationMember>) -> (r: Result<(), HttpStatus>)
    ensures
        r == if members_ok(members@) {
            Ok::<(), HttpStatus>(())
        } else {
            Err(HttpStatus::BadRequest)
        },
{
    let n = members.len();
    if n == 0 {
        return Err(HttpStatus::BadRequest);
    }
    let mut any_outer = false;
    let mut i: usize = 0;
    while i < n
        invariant
            n == members@.len(),
            i <= n,
            forall|k: int|
                0 <= k < i ==> (#[trigger] members@[k]).member_type@ == "way"@ && role_ok(
                    members@[k].role,
                ),
            forall|a: int, b: int|
                0 <= a < i && 0 <= b < i && a != b ==> !((#[trigger] members@[a]).member_type@
                    == (#[trigger] members@[b]).member_type@ && members@[a].member_id
                    == members@[b].member_id),
            any_outer == exists|k: int| 0 <= k < i && outer_role(#[trigger] members@[k].role),
        decreases n - i,
    {
        let m = &members[i];
        let (ok, outer) = role_kind(&m.role);
        if !str_eq(m.member_type.as_str(), "way") || !ok {
            return Err(HttpStatus::BadRequest);
        }
        let mut j: usize = 0;
        while j < i
            invariant
                n == members@.len(),
                j <= i < n,
                m == members@[i as int],
                forall|k: int|
                    0 <= k < j ==> !((#[trigger] members@[k]).member_type@ == m.member_type@
                        && members@[k].member_id == m.member_id),
            decreases i - j,
        {
            if members[j].member_id == m.member_id && members[j].member_type == m.member_type {
                return Err(HttpStatus::BadRequest);
            }
            j += 1;
        }
        proof {
            if outer {
                assert(outer_role(members@[i as int].role));
            }
        }
        any_outer = any_outer || outer;
        i += 1;
    }
    if any_outer {
        Ok(())
    } else {
        Err(HttpStatus::BadRequest)
    }
}

/// Whether `ids` repeats an id.
pub open spec fn has_duplicate(ids: Seq<i64>) -> bool {
    exists|i: int, j: int| 0 <= i < j < ids.len() && #[trigger] ids[i] == #[trigger] ids[j]
}

/// Ids in one operation list must be unique; client-local ids (`local`) must also be negative.
pub fn validate_operation_ids(ids: &Vec<i64>, local: bool) -> (r: Result<(), HttpStatus>)
    ensures
        r == if has_duplicate(ids@) || (local && exists|i: int| 0 <= i < ids@.len() && #[trigger] ids@[i] >= 0) {
            Err::<(), HttpStatus>(HttpStatus::BadRequest)
        } else {
            Ok(())
        },
{
    broadcast use vstd::std_specs::hash::group_hash_axioms;

    let mut seen: std::collections::HashSet<i64> = std::collections::HashSet::new();
    let mut i: usize = 0;
    while i < ids.len()
        invariant
            i <= ids@.len(),
            forall|x: i64| seen@.contains(x) <==> exists|k: int| 0 <= k < i && #[trigger] ids@[k] == x,
            !has_duplicate(ids@.take(i as int)),
            !local || forall|k: int| 0 <= k < i ==> #[trigger] ids@[k] < 0,
        decreases ids@.len() - i,
    {
        let id = ids[i];
        if local && id >= 0 {
            return Err(HttpStatus::BadRequest);
        }
        let ghost before = seen@;
        if !seen.insert(id) {
            let ghost k = choose|k: int| 0 <= k < i && #[trigger] ids@[k] == id;
            assert(ids@[k] == ids@[i as int]);
            return Err(HttpStatus::BadRequest);
        }
        proof {
            let t = ids@.take(i + 1);
            assert forall|a: int, b: int| 0 <= a < b < t.len() implies !(#[trigger] t[a] == #[trigger] t[b]) by {
                if b == i {
                    assert(t[a] == ids@[a]);
                    assert(before.contains(ids@[a]));
                } else {
                    assert(ids@.take(i as int)[a] == t[a] && ids@.take(i as int)[b] == t[b]);
                }
            }
        }
        i += 1;
    }
    assert(ids@.take(ids@.len() as int) == ids@);
    Ok(())
}

/// Relations are multipolygons with valid tags and members.
pub fn validate_relation(relation_type: &str, members: &Vec<RelationMember>, tags: &Tags) -> (r:
    Result<(), HttpStatus>)
    ensures
        r == if relation_type@ != "multipolygon"@ {
            Err::<(), HttpStatus>(HttpStatus::UnprocessableEntity)
        } else if has_reserved_key(tags@) {
            Err(HttpStatus::BadRequest)
        } else if !members_ok(members@) {
            Err(HttpStatus::BadRequest)
        } else {
            Ok(())
        },
{
    if !str_eq(relation_type, "multipolygon") {
        return Err(HttpStatus::UnprocessableEntity);
    }
    validate_tags(tags)?;
    validate_members(members)
}

} // verus!
