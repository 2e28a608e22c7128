//! Bulk changeset uploads: request shape, validation and client id resolution.

use vstd::prelude::*;

use std::collections::HashMap;

use crate::text::str_eq;
use crate::types::{EntityKind, GeometryKind, HttpStatus, Point, RelationMember, Tags};
use crate::validation::{
    has_duplicate, has_reserved_key, is_finite_bits, members_ok, validate_operation_ids,
    validate_point, validate_relation, validate_tags, validate_way, way_shape_ok,
};

verus! {

/// A node to create; `id` is a negative client-local id.
#[derive(Debug, Clone)]
pub struct ChangesetUploadCreateNode {
    pub id: i64,
    pub geom: Point,
    pub tags: Tags,
}

/// A node to modify.
#[derive(Debug, Clone)]
pub struct ChangesetUploadModifyNode {
    pub id: i64,
    pub expected_version: i32,
    pub geom: Point,
    pub tags: Tags,
}

/// A way to create; `id` is a negative client-local id.
#[derive(Debug, Clone)]
pub struct ChangesetUploadCreateWay {
    pub id: i64,
    pub geometry_kind: GeometryKind,
    pub node_refs: Vec<i64>,
    pub tags: Tags,
}

/// A way to modify.
#[derive(Debug, Clone)]
pub struct ChangesetUploadModifyWay {
    pub id: i64,
    pub expected_version: i32,
    pub geometry_kind: GeometryKind,
    pub node_refs: Vec<i64>,
    pub tags: Tags,
}

/// A relation to create; `id` is a negative client-local id.
#[derive(Debug, Clone)]
pub struct ChangesetUploadCreateRelation {
    pub id: i64,
    pub relation_type: String,
    pub members: Vec<RelationMember>,
    pub tags: Tags,
}

/// A relation to modify.
#[derive(Debug, Clone)]
pub struct ChangesetUploadModifyRelation {
    pub id: i64,
    pub expected_version: i32,
    pub relation_type: String,
    pub members: Vec<RelationMember>,
    pub tags: Tags,
}

/// An entity to delete.
#[derive(Debug, Clone, Copy, PartialEq, Eq, Structural)]
pub struct ChangesetUploadDeleteEntity {
    pub id: i64,
    pub expected_version: i32,
}

#[derive(Debug, Clone)]
pub struct ChangesetUploadCreate {
    pub nodes: Vec<ChangesetUploadCreateNode>,
    pub ways: Vec<ChangesetUploadCreateWay>,
    pub relations: Vec<ChangesetUploadCreateRelation>,
}

#[derive(Debug, Clone)]
pub struct ChangesetUploadModify {
    pub nodes: Vec<ChangesetUploadModifyNode>,
    pub ways: Vec<ChangesetUploadModifyWay>,
    pub relations: Vec<ChangesetUploadModifyRelation>,
}

#[derive(Debug, Clone)]
pub struct ChangesetUploadDeleteGroup {
    pub nodes: Vec<ChangesetUploadDeleteEntity>,
    pub ways: Vec<ChangesetUploadDeleteEntity>,
    pub relations: Vec<ChangesetUploadDeleteEntity>,
}

/// A bulk upload: creations, modifications and deletions of each entity kind.
#[derive(Debug, Clone)]
pub struct ChangesetUploadRequest {
    pub create: ChangesetUploadCreate,
    pub modify: ChangesetUploadModify,
    pub delete: ChangesetUploadDeleteGroup,
}

/// The old (client) id, new id and new version of one uploaded entity.
#[derive(Debug, Clone, Copy, PartialEq, Eq, Structural)]
pub struct ChangesetUploadDiffEntry {
    pub old_id: i64,
    pub new_id: i64,
    pub new_version: i32,
}

/// The id mapping returned for an upload.
#[derive(Debug, Clone)]
pub struct ChangesetUploadDiffResult {
    pub nodes: Vec<ChangesetUploadDiffEntry>,
    pub ways: Vec<ChangesetUploadDiffEntry>,
    pub relations: Vec<ChangesetUploadDiffEntry>,
}

/// The first failure of `check` over `s`, in order.
pub open spec fn first_error<T>(s: Seq<T>, check: spec_fn(T) -> Result<(), HttpStatus>) -> Result<
    (),
    HttpStatus,
>
    decreases s.len(),
{
    if s.len() == 0 {
        Ok(())
    } else {
        match check(s[0]) {
            Err(e) => Err(e),
            Ok(_) => first_error(s.drop_first(), check),
        }
    }
}

/// `a`, or `b` when `a` succeeded.
pub open spec fn then(a: Result<(), HttpStatus>, b: Result<(), HttpStatus>) -> Result<(), HttpStatus> {
    match a {
        Err(e) => Err(e),
        Ok(_) => b,
    }
}

proof fn lemma_first_error_step<T>(s: Seq<T>, check: spec_fn(T) -> Result<(), HttpStatus>, i: int)
    requires
        0 <= i < s.len(),
    ensures
        first_error(s.skip(i), check) == then(check(s[i]), first_error(s.skip(i + 1), check)),
{
    assert(s.skip(i)[0] == s[i]);
    assert(s.skip(i).drop_first() == s.skip(i + 1));
}

/// A node's coordinates must be finite and its tags unreserved.
pub open spec fn node_check(geom: Point, tags: Seq<(String, String)>) -> Result<(), HttpStatus> {
    if !(is_finite_bits(geom.x) && is_finite_bits(geom.y) && is_finite_bits(geom.z)) {
        Err(HttpStatus::UnprocessableEntity)
    } else if has_reserved_key(tags) {
        Err(HttpStatus::BadRequest)
    } else {
        Ok(())
    }
}

/// A way's tags must be unreserved and its shape valid.
pub open spec fn way_check(kind: GeometryKind, refs: Seq<i64>, tags: Seq<(String, String)>) -> Result<
    (),
    HttpStatus,
> {
    if has_reserved_key(tags) {
        Err(HttpStatus::BadRequest)
    } else if !way_shape_ok(kind.spec_name(), refs) {
        Err(HttpStatus::UnprocessableEntity)
    } else {
        Ok(())
    }
}

/// A relation must be a multipolygon with unreserved tags and valid members.
pub open spec fn relation_check(
    relation_type: Seq<char>,
    members: Seq<RelationMember>,
    tags: Seq<(String, String)>,
) -> Result<(), HttpStatus> {
    if relation_type != "multipolygon"@ {
        Err(HttpStatus::UnprocessableEntity)
    } else if has_reserved_key(tags) || !members_ok(members) {
        Err(HttpStatus::BadRequest)
    } else {
        Ok(())
    }
}

/// The node ids of an upload: creations, modifications, then deletions.
pub open spec fn upload_node_ids(req: ChangesetUploadRequest) -> Seq<i64> {
    req.create.nodes@.map_values(|e: ChangesetUploadCreateNode| e.id) + req.modify.nodes@.map_values(
        |e: ChangesetUploadModifyNode| e.id,
    ) + req.delete.nodes@.map_values(|e: ChangesetUploadDeleteEntity| e.id)
}

/// The way ids of an upload: creations, modifications, then deletions.
pub open spec fn upload_way_ids(req: ChangesetUploadRequest) -> Seq<i64> {
    req.create.ways@.map_values(|e: ChangesetUploadCreateWay| e.id) + req.modify.ways@.map_values(
        |e: ChangesetUploadModifyWay| e.id,
    ) + req.delete.ways@.map_values(|e: ChangesetUploadDeleteEntity| e.id)
}

/// The relation ids of an upload: creations, modifications, then deletions.
pub open spec fn upload_relation_ids(req: ChangesetUploadRequest) -> Seq<i64> {
    req.create.relations@.map_values(|e: ChangesetUploadCreateRelation| e.id)
        + req.modify.relations@.map_values(|e: ChangesetUploadModifyRelation| e.id)
        + req.delete.relations@.map_values(|e: ChangesetUploadDeleteEntity| e.id)
}

/// Whether some id in `ids` is not negative.
pub open spec fn has_non_negative(ids: Seq<i64>) -> bool {
    exists|i: int| 0 <= i < ids.len() && #[trigger] ids[i] >= 0
}

/// Whether the ids of an upload are acceptable: unique per entity kind, and negative for
/// creations.
pub open spec fn upload_ids_ok(req: ChangesetUploadRequest) -> bool {
    &&& !has_duplicate(upload_node_ids(req))
    &&& !has_duplicate(upload_way_ids(req))
    &&& !has_duplicate(upload_relation_ids(req))
    &&& !has_non_negative(req.create.nodes@.map_values(|e: ChangesetUploadCreateNode| e.id))
    &&& !has_non_negative(req.create.ways@.map_values(|e: ChangesetUploadCreateWay| e.id))
    &&& !has_non_negative(
        req.create.relations@.map_values(|e: ChangesetUploadCreateRelation| e.id),
    )
}

/// The verdict on an upload: id problems first (400), then each entity in order of creation
/// and modification of nodes, ways and relations.
pub open spec fn spec_validate_upload(req: ChangesetUploadRequest) -> Result<(), HttpStatus> {
    if !upload_ids_ok(req) {
        Err(HttpStatus::BadRequest)
    } else {
        then(
            first_error(
                req.create.nodes@,
                |e: ChangesetUploadCreateNode| node_check(e.geom, e.tags@),
            ),
            then(
                first_error(
                    req.modify.nodes@,
                    |e: ChangesetUploadModifyNode| node_check(e.geom, e.tags@),
                ),
                then(
                    first_error(
                        req.create.ways@,
                        |e: ChangesetUploadCreateWay| way_check(e.geometry_kind, e.node_refs@, e.tags@),
                    ),
                    then(
                        first_error(
                            req.modify.ways@,
                            |e: ChangesetUploadModifyWay|
                                way_check(e.geometry_kind, e.node_refs@, e.tags@),
                        ),
                        then(
                            first_error(
                                req.create.relations@,
                                |e: ChangesetUploadCreateRelation|
                                    relation_check(e.relation_type@, e.members@, e.tags@),
                            ),
                            first_error(
                                req.modify.relations@,
                                |e: ChangesetUploadModifyRelation|
                                    relation_check(e.relation_type@, e.members@, e.tags@),
                            ),
                        ),
                    ),
                ),
            ),
        )
    }
}

/// Every item passes `check` when the first failure over them is none.
proof fn lemma_first_error_ok<T>(s: Seq<T>, check: spec_fn(T) -> Result<(), HttpStatus>)
    requires
        first_error(s, check) is Ok,
    ensures
        forall|i: int| 0 <= i < s.len() ==> check(#[trigger] s[i]) is Ok,
    decreases s.len(),
{
    if s.len() > 0 {
        lemma_first_error_ok(s.drop_first(), check);
        assert forall|i: int| 0 <= i < s.len() implies check(#[trigger] s[i]) is Ok by {
            if i > 0 {
                assert(s[i] == s.drop_first()[i - 1]);
            }
        }
    }
}

/// An accepted upload holds only valid entities: finite coordinates and unreserved tags for
/// every node, unreserved tags and a valid shape for every way, multipolygons with unreserved
/// tags and valid members for every relation, and negative, unique ids for creations.
pub proof fn law_accepted_upload_is_valid(req: ChangesetUploadRequest)
    requires
        spec_validate_upload(req) is Ok,
    ensures
        upload_ids_ok(req),
        forall|i: int|
            0 <= i < req.create.nodes@.len() ==> node_check(
                (#[trigger] req.create.nodes@[i]).geom,
                req.create.nodes@[i].tags@,
            ) is Ok,
        forall|i: int|
            0 <= i < req.modify.nodes@.len() ==> node_check(
                (#[trigger] req.modify.nodes@[i]).geom,
                req.modify.nodes@[i].tags@,
            ) is Ok,
        forall|i: int|
            0 <= i < req.create.ways@.len() ==> way_check(
                (#[trigger] req.create.ways@[i]).geometry_kind,
                req.create.ways@[i].node_refs@,
                req.create.ways@[i].tags@,
            ) is Ok,
        forall|i: int|
            0 <= i < req.modify.ways@.len() ==> way_check(
                (#[trigger] req.modify.ways@[i]).geometry_kind,
                req.modify.ways@[i].node_refs@,
                req.modify.ways@[i].tags@,
            ) is Ok,
        forall|i: int|
            0 <= i < req.create.relations@.len() ==> relation_check(
                (#[trigger] req.create.relations@[i]).relation_type@,
                req.create.relations@[i].members@,
                req.create.relations@[i].tags@,
            ) is Ok,
        forall|i: int|
            0 <= i < req.modify.relations@.len() ==> relation_check(
                (#[trigger] req.modify.relations@[i]).relation_type@,
                req.modify.relations@[i].members@,
                req.modify.relations@[i].tags@,
            ) is Ok,
{
    let c1 = |e: ChangesetUploadCreateNode| node_check(e.geom, e.tags@);
    let c2 = |e: ChangesetUploadModifyNode| node_check(e.geom, e.tags@);
    let c3 = |e: ChangesetUploadCreateWay| way_check(e.geometry_kind, e.node_refs@, e.tags@);
    let c4 = |e: ChangesetUploadModifyWay| way_check(e.geometry_kind, e.node_refs@, e.tags@);
    let c5 = |e: ChangesetUploadCreateRelation|
        relation_check(e.relation_type@, e.members@, e.tags@);
    let c6 = |e: ChangesetUploadModifyRelation|
        relation_check(e.relation_type@, e.members@, e.tags@);
    lemma_first_error_ok(req.create.nodes@, c1);
    lemma_first_error_ok(req.modify.nodes@, c2);
    lemma_first_error_ok(req.create.ways@, c3);
    lemma_first_error_ok(req.modify.ways@, c4);
    lemma_first_error_ok(req.create.relations@, c5);
    lemma_first_error_ok(req.modify.relations@, c6);
    assert forall|i: int| 0 <= i < req.create.nodes@.len() implies node_check(
        (#[trigger] req.create.nodes@[i]).geom,
        req.create.nodes@[i].tags@,
    ) is Ok by {
        assert(c1(req.create.nodes@[i]) is Ok);
    }
    assert forall|i: int| 0 <= i < req.modify.nodes@.len() implies node_check(
        (#[trigger] req.modify.nodes@[i]).geom,
        req.modify.nodes@[i].tags@,
    ) is Ok by {
        assert(c2(req.modify.nodes@[i]) is Ok);
    }
    assert forall|i: int| 0 <= i < req.create.ways@.len() implies way_check(
        (#[trigger] req.create.ways@[i]).geometry_kind,
        req.create.ways@[i].node_refs@,
        req.create.ways@[i].tags@,
    ) is Ok by {
        assert(c3(req.create.ways@[i]) is Ok);
    }
    assert forall|i: int| 0 <= i < req.modify.ways@.len() implies way_check(
        (#[trigger] req.modify.ways@[i]).geometry_kind,
        req.modify.ways@[i].node_refs@,
        req.modify.ways@[i].tags@,
    ) is Ok by {
        assert(c4(req.modify.ways@[i]) is Ok);
    }
    assert forall|i: int| 0 <= i < req.create.relations@.len() implies relation_check(
        (#[trigger] req.create.relations@[i]).relation_type@,
        req.create.relations@[i].members@,
        req.create.relations@[i].tags@,
    ) is Ok by {
        assert(c5(req.create.relations@[i]) is Ok);
    }
    assert forall|i: int| 0 <= i < req.modify.relations@.len() implies relation_check(
        (#[trigger] req.modify.relations@[i]).relation_type@,
        req.modify.relations@[i].members@,
        req.modify.relations@[i].tags@,
    ) is Ok by {
        assert(c6(req.modify.relations@[i]) is Ok);
    }
}

/// Every item passes `check` exactly when the first failure over them is none.
proof fn lemma_first_error_all_ok<T>(s: Seq<T>, check: spec_fn(T) -> Result<(), HttpStatus>)
    requires
        forall|i: int| 0 <= i < s.len() ==> check(#[trigger] s[i]) is Ok,
    ensures
        first_error(s, check) == Ok::<(), HttpStatus>(()),
    decreases s.len(),
{
    if s.len() > 0 {
        assert(check(s[0]) is Ok);
        assert forall|i: int| 0 <= i < s.drop_first().len() implies check(
            #[trigger] s.drop_first()[i],
        ) is Ok by {
            assert(s.drop_first()[i] == s[i + 1]);
        }
        lemma_first_error_all_ok(s.drop_first(), check);
    }
}

/// No id occurs twice in `ids`.
pub open spec fn all_distinct(ids: Seq<i64>) -> bool {
    forall|i: int, j: int| 0 <= i < ids.len() && 0 <= j < ids.len() && i != j ==> ids[i] != ids[j]
}

/// Every id in `ids` is negative.
pub open spec fn all_negative(ids: Seq<i64>) -> bool {
    forall|i: int| 0 <= i < ids.len() ==> ids[i] < 0
}

/// No tag key is reserved.
pub open spec fn tags_unreserved(tags: Seq<(String, String)>) -> bool {
    forall|k: int| 0 <= k < tags.len() ==> !crate::validation::is_reserved_key(#[trigger] tags[k].0@)
}

/// All three coordinates are finite.
pub open spec fn point_finite(p: Point) -> bool {
    is_finite_bits(p.x) && is_finite_bits(p.y) && is_finite_bits(p.z)
}

/// An upload is accepted whenever it is valid: ids unique per entity kind across creations,
/// modifications and deletions, negative ids for creations (the ids of modifications and
/// deletions may be any published ids), finite coordinates and unreserved tags on every node,
/// unreserved tags and a valid shape on every way, and multipolygons with unreserved tags and
/// valid members.
pub proof fn law_valid_upload_is_accepted(req: ChangesetUploadRequest)
    requires
        all_distinct(
            req.create.nodes@.map_values(|e: ChangesetUploadCreateNode| e.id)
                + req.modify.nodes@.map_values(|e: ChangesetUploadModifyNode| e.id)
                + req.delete.nodes@.map_values(|e: ChangesetUploadDeleteEntity| e.id),
        ),
        all_distinct(
            req.create.ways@.map_values(|e: ChangesetUploadCreateWay| e.id)
                + req.modify.ways@.map_values(|e: ChangesetUploadModifyWay| e.id)
                + req.delete.ways@.map_values(|e: ChangesetUploadDeleteEntity| e.id),
        ),
        all_distinct(
            req.create.relations@.map_values(|e: ChangesetUploadCreateRelation| e.id)
                + req.modify.relations@.map_values(|e: ChangesetUploadModifyRelation| e.id)
                + req.delete.relations@.map_values(|e: ChangesetUploadDeleteEntity| e.id),
        ),
        all_negative(req.create.nodes@.map_values(|e: ChangesetUploadCreateNode| e.id)),
        all_negative(req.create.ways@.map_values(|e: ChangesetUploadCreateWay| e.id)),
        all_negative(req.create.relations@.map_values(|e: ChangesetUploadCreateRelation| e.id)),
        forall|i: int|
            0 <= i < req.create.nodes@.len() ==> point_finite((#[trigger] req.create.nodes@[i]).geom)
                && tags_unreserved(req.create.nodes@[i].tags@),
        forall|i: int|
            0 <= i < req.modify.nodes@.len() ==> point_finite((#[trigger] req.modify.nodes@[i]).geom)
                && tags_unreserved(req.modify.nodes@[i].tags@),
        forall|i: int|
            0 <= i < req.create.ways@.len() ==> tags_unreserved(
                (#[trigger] req.create.ways@[i]).tags@,
            ) && way_shape_ok(req.create.ways@[i].geometry_kind.spec_name(), req.create.ways@[i].node_refs@),
        forall|i: int|
            0 <= i < req.modify.ways@.len() ==> tags_unreserved(
                (#[trigger] req.modify.ways@[i]).tags@,
            ) && way_shape_ok(req.modify.ways@[i].geometry_kind.spec_name(), req.modify.ways@[i].node_refs@),
        forall|i: int|
            0 <= i < req.create.relations@.len() ==> (#[trigger] req.create.relations@[i]).relation_type@
                == "multipolygon"@ && tags_unreserved(req.create.relations@[i].tags@) && members_ok(
                req.create.relations@[i].members@,
            ),
        forall|i: int|
            0 <= i < req.modify.relations@.len() ==> (#[trigger] req.modify.relations@[i]).relation_type@
                == "multipolygon"@ && tags_unreserved(req.modify.relations@[i].tags@) && members_ok(
                req.modify.relations@[i].members@,
            ),
    ensures
        spec_validate_upload(req) == Ok::<(), HttpStatus>(()),
{
    let c1 = |e: ChangesetUploadCreateNode| node_check(e.geom, e.tags@);
    let c2 = |e: ChangesetUploadModifyNode| node_check(e.geom, e.tags@);
    let c3 = |e: ChangesetUploadCreateWay| way_check(e.geometry_kind, e.node_refs@, e.tags@);
    let c4 = |e: ChangesetUploadModifyWay| way_check(e.geometry_kind, e.node_refs@, e.tags@);
    let c5 = |e: ChangesetUploadCreateRelation|
        relation_check(e.relation_type@, e.members@, e.tags@);
    let c6 = |e: ChangesetUploadModifyRelation|
        relation_check(e.relation_type@, e.members@, e.tags@);
    assert(!has_duplicate(upload_node_ids(req)));
    assert(!has_duplicate(upload_way_ids(req)));
    assert(!has_duplicate(upload_relation_ids(req)));
    assert(upload_ids_ok(req));
    assert forall|i: int| 0 <= i < req.create.nodes@.len() implies c1(#[trigger] req.create.nodes@[i]) is Ok by {
        assert(!has_reserved_key(req.create.nodes@[i].tags@));
    }
    assert forall|i: int| 0 <= i < req.modify.nodes@.len() implies c2(#[trigger] req.modify.nodes@[i]) is Ok by {
        assert(!has_reserved_key(req.modify.nodes@[i].tags@));
    }
    assert forall|i: int| 0 <= i < req.create.ways@.len() implies c3(#[trigger] req.create.ways@[i]) is Ok by {
        assert(!has_reserved_key(req.create.ways@[i].tags@));
    }
    assert forall|i: int| 0 <= i < req.modify.ways@.len() implies c4(#[trigger] req.modify.ways@[i]) is Ok by {
        assert(!has_reserved_key(req.modify.ways@[i].tags@));
    }
    assert forall|i: int| 0 <= i < req.create.relations@.len() implies c5(#[trigger] req.create.relations@[i]) is Ok by {
        assert(!has_reserved_key(req.create.relations@[i].tags@));
    }
    assert forall|i: int| 0 <= i < req.modify.relations@.len() implies c6(#[trigger] req.modify.relations@[i]) is Ok by {
        assert(!has_reserved_key(req.modify.relations@[i].tags@));
    }
    lemma_first_error_all_ok(req.create.nodes@, c1);
    lemma_first_error_all_ok(req.modify.nodes@, c2);
    lemma_first_error_all_ok(req.create.ways@, c3);
    lemma_first_error_all_ok(req.modify.ways@, c4);
    lemma_first_error_all_ok(req.create.relations@, c5);
    lemma_first_error_all_ok(req.modify.relations@, c6);
}

fn create_node_ids(v: &Vec<ChangesetUploadCreateNode>) -> (r: Vec<i64>)
    ensures
        r@ == v@.map_values(|e: ChangesetUploadCreateNode| e.id),
{
    let mut r: Vec<i64> = Vec::new();
    let mut i: usize = 0;
    while i < v.len()
        invariant
            i <= v@.len(),
            r@ == v@.take(i as int).map_values(|e: ChangesetUploadCreateNode| e.id),
        decreases v@.len() - i,
    {
        r.push(v[i].id);
        assert(v@.take(i + 1).map_values(|e: ChangesetUploadCreateNode| e.id) == v@.take(i as int).map_values(
            |e: ChangesetUploadCreateNode| e.id,
        ).push(v@[i as int].id));
        i += 1;
    }
    assert(v@.take(v@.len() as int) == v@);
    r
}

fn modify_node_ids(v: &Vec<ChangesetUploadModifyNode>) -> (r: Vec<i64>)
    ensures
        r@ == v@.map_values(|e: ChangesetUploadModifyNode| e.id),
{
    let mut r: Vec<i64> = Vec::new();
    let mut i: usize = 0;
    while i < v.len()
        invariant
            i <= v@.len(),
            r@ == v@.take(i as int).map_values(|e: ChangesetUploadModifyNode| e.id),
        decreases v@.len() - i,
    {
        r.push(v[i].id);
        assert(v@.take(i + 1).map_values(|e: ChangesetUploadModifyNode| e.id) == v@.take(i as int).map_values(
            |e: ChangesetUploadModifyNode| e.id,
        ).push(v@[i as int].id));
        i += 1;
    }
    assert(v@.take(v@.len() as int) == v@);
    r
}

fn create_way_ids(v: &Vec<ChangesetUploadCreateWay>) -> (r: Vec<i64>)
    ensures
        r@ == v@.map_values(|e: ChangesetUploadCreateWay| e.id),
{
    let mut r: Vec<i64> = Vec::new();
    let mut i: usize = 0;
    while i < v.len()
        invariant
            i <= v@.len(),
            r@ == v@.take(i as int).map_values(|e: ChangesetUploadCreateWay| e.id),
        decreases v@.len() - i,
    {
        r.push(v[i].id);
        assert(v@.take(i + 1).map_values(|e: ChangesetUploadCreateWay| e.id) == v@.take(i as int).map_values(
            |e: ChangesetUploadCreateWay| e.id,
        ).push(v@[i as int].id));
        i += 1;
    }
    assert(v@.take(v@.len() as int) == v@);
    r
}

fn modify_way_ids(v: &Vec<ChangesetUploadModifyWay>) -> (r: Vec<i64>)
    ensures
        r@ == v@.map_values(|e: ChangesetUploadModifyWay| e.id),
{
    let mut r: Vec<i64> = Vec::new();
    let mut i: usize = 0;
    while i < v.len()
        invariant
            i <= v@.len(),
            r@ == v@.take(i as int).map_values(|e: ChangesetUploadModifyWay| e.id),
        decreases v@.len() - i,
    {
        r.push(v[i].id);
        assert(v@.take(i + 1).map_values(|e: ChangesetUploadModifyWay| e.id) == v@.take(i as int).map_values(
            |e: ChangesetUploadModifyWay| e.id,
        ).push(v@[i as int].id));
        i += 1;
    }
    assert(v@.take(v@.len() as int) == v@);
    r
}

fn create_relation_ids(v: &Vec<ChangesetUploadCreateRelation>) -> (r: Vec<i64>)
    ensures
        r@ == v@.map_values(|e: ChangesetUploadCreateRelation| e.id),
{
    let mut r: Vec<i64> = Vec::new();
    let mut i: usize = 0;
    while i < v.len()
        invariant
            i <= v@.len(),
            r@ == v@.take(i as int).map_values(|e: ChangesetUploadCreateRelation| e.id),
        decreases v@.len() - i,
    {
        r.push(v[i].id);
        assert(v@.take(i + 1).map_values(|e: ChangesetUploadCreateRelation| e.id) == v@.take(i as int).map_values(
            |e: ChangesetUploadCreateRelation| e.id,
        ).push(v@[i as int].id));
        i += 1;
    }
    assert(v@.take(v@.len() as int) == v@);
    r
}

fn modify_relation_ids(v: &Vec<ChangesetUploadModifyRelation>) -> (r: Vec<i64>)
    ensures
        r@ == v@.map_values(|e: ChangesetUploadModifyRelation| e.id),
{
    let mut r: Vec<i64> = Vec::new();
    let mut i: usize = 0;
    while i < v.len()
        invariant
            i <= v@.len(),
            r@ == v@.take(i as int).map_values(|e: ChangesetUploadModifyRelation| e.id),
        decreases v@.len() - i,
    {
        r.push(v[i].id);
        assert(v@.take(i + 1).map_values(|e: ChangesetUploadModifyRelation| e.id) == v@.take(i as int).map_values(
            |e: ChangesetUploadModifyRelation| e.id,
        ).push(v@[i as int].id));
        i += 1;
    }
    assert(v@.take(v@.len() as int) == v@);
    r
}

fn delete_ids(v: &Vec<ChangesetUploadDeleteEntity>) -> (r: Vec<i64>)
    ensures
        r@ == v@.map_values(|e: ChangesetUploadDeleteEntity| e.id),
{
    let mut r: Vec<i64> = Vec::new();
    let mut i: usize = 0;
    while i < v.len()
        invariant
            i <= v@.len(),
            r@ == v@.take(i as int).map_values(|e: ChangesetUploadDeleteEntity| e.id),
        decreases v@.len() - i,
    {
        r.push(v[i].id);
        assert(v@.take(i + 1).map_values(|e: ChangesetUploadDeleteEntity| e.id) == v@.take(i as int).map_values(
            |e: ChangesetUploadDeleteEntity| e.id,
        ).push(v@[i as int].id));
        i += 1;
    }
    assert(v@.take(v@.len() as int) == v@);
    r
}

/// `a` followed by `b`.
fn concat_ids(a: Vec<i64>, b: &Vec<i64>) -> (r: Vec<i64>)
    ensures
        r@ == a@ + b@,
{
    let mut r = a;
    let mut i: usize = 0;
    let ghost a0 = r@;
    while i < b.len()
        invariant
            i <= b@.len(),
            r@ == a0 + b@.take(i as int),
        decreases b@.len() - i,
    {
        r.push(b[i]);
        assert(a0 + b@.take(i + 1) == (a0 + b@.take(i as int)).push(b@[i as int]));
        i += 1;
    }
    assert(b@.take(b@.len() as int) == b@);
    r
}

fn check_create_nodes(v: &Vec<ChangesetUploadCreateNode>) -> (r: Result<(), HttpStatus>)
    ensures
        r == first_error(v@, |e: ChangesetUploadCreateNode| node_check(e.geom, e.tags@)),
{
    let mut i: usize = 0;
    assert(v@.skip(0) == v@);
    while i < v.len()
        invariant
            i <= v@.len(),
            first_error(v@, |e: ChangesetUploadCreateNode| node_check(e.geom, e.tags@)) == first_error(v@.skip(i as int), |e: ChangesetUploadCreateNode| node_check(e.geom, e.tags@)),
        decreases v@.len() - i,
    {
        proof {
            lemma_first_error_step(v@, |e: ChangesetUploadCreateNode| node_check(e.geom, e.tags@), i as int);
        }
        let e = &v[i];
        validate_point(&e.geom)?;
        validate_tags(&e.tags)?;
        i += 1;
    }
    assert(v@.skip(i as int).len() == 0);
    Ok(())
}

fn check_modify_nodes(v: &Vec<ChangesetUploadModifyNode>) -> (r: Result<(), HttpStatus>)
    ensures
        r == first_error(v@, |e: ChangesetUploadModifyNode| node_check(e.geom, e.tags@)),
{
    let mut i: usize = 0;
    assert(v@.skip(0) == v@);
    while i < v.len()
        invariant
            i <= v@.len(),
            first_error(v@, |e: ChangesetUploadModifyNode| node_check(e.geom, e.tags@)) == first_error(v@.skip(i as int), |e: ChangesetUploadModifyNode| node_check(e.geom, e.tags@)),
        decreases v@.len() - i,
    {
        proof {
            lemma_first_error_step(v@, |e: ChangesetUploadModifyNode| node_check(e.geom, e.tags@), i as int);
        }
        let e = &v[i];
        validate_point(&e.geom)?;
        validate_tags(&e.tags)?;
        i += 1;
    }
    assert(v@.skip(i as int).len() == 0);
    Ok(())
}

fn check_create_ways(v: &Vec<ChangesetUploadCreateWay>) -> (r: Result<(), HttpStatus>)
    ensures
        r == first_error(v@, |e: ChangesetUploadCreateWay| way_check(e.geometry_kind, e.node_refs@, e.tags@)),
{
    let mut i: usize = 0;
    assert(v@.skip(0) == v@);
    while i < v.len()
        invariant
            i <= v@.len(),
            first_error(v@, |e: ChangesetUploadCreateWay| way_check(e.geometry_kind, e.node_refs@, e.tags@)) == first_error(v@.skip(i as int), |e: ChangesetUploadCreateWay| way_check(e.geometry_kind, e.node_refs@, e.tags@)),
        decreases v@.len() - i,
    {
        proof {
            lemma_first_error_step(v@, |e: ChangesetUploadCreateWay| way_check(e.geometry_kind, e.node_refs@, e.tags@), i as int);
        }
        let e = &v[i];
        validate_tags(&e.tags)?;
        validate_way(e.geometry_kind.as_str(), &e.node_refs)?;
        i += 1;
    }
    assert(v@.skip(i as int).len() == 0);
    Ok(())
}

fn check_modify_ways(v: &Vec<ChangesetUploadModifyWay>) -> (r: Result<(), HttpStatus>)
    ensures
        r == first_error(v@, |e: ChangesetUploadModifyWay| way_check(e.geometry_kind, e.node_refs@, e.tags@)),
{
    let mut i: usize = 0;
    assert(v@.skip(0) == v@);
    while i < v.len()
        invariant
            i <= v@.len(),
            first_error(v@, |e: ChangesetUploadModifyWay| way_check(e.geometry_kind, e.node_refs@, e.tags@)) == first_error(v@.skip(i as int), |e: ChangesetUploadModifyWay| way_check(e.geometry_kind, e.node_refs@, e.tags@)),
        decreases v@.len() - i,
    {
        proof {
            lemma_first_error_step(v@, |e: ChangesetUploadModifyWay| way_check(e.geometry_kind, e.node_refs@, e.tags@), i as int);
        }
        let e = &v[i];
        validate_tags(&e.tags)?;
        validate_way(e.geometry_kind.as_str(), &e.node_refs)?;
        i += 1;
    }
    assert(v@.skip(i as int).len() == 0);
    Ok(())
}

fn check_create_relations(v: &Vec<ChangesetUploadCreateRelation>) -> (r: Result<(), HttpStatus>)
    ensures
        r == first_error(v@, |e: ChangesetUploadCreateRelation| relation_check(e.relation_type@, e.members@, e.tags@)),
{
    let mut i: usize = 0;
    assert(v@.skip(0) == v@);
    while i < v.len()
        invariant
            i <= v@.len(),
            first_error(v@, |e: ChangesetUploadCreateRelation| relation_check(e.relation_type@, e.members@, e.tags@)) == first_error(v@.skip(i as int), |e: ChangesetUploadCreateRelation| relation_check(e.relation_type@, e.members@, e.tags@)),
        decreases v@.len() - i,
    {
        proof {
            lemma_first_error_step(v@, |e: ChangesetUploadCreateRelation| relation_check(e.relation_type@, e.members@, e.tags@), i as int);
        }
        let e = &v[i];
        validate_relation(e.relation_type.as_str(), &e.members, &e.tags)?;
        i += 1;
    }
    assert(v@.skip(i as int).len() == 0);
    Ok(())
}

fn check_modify_relations(v: &Vec<ChangesetUploadModifyRelation>) -> (r: Result<(), HttpStatus>)
    ensures
        r == first_error(v@, |e: ChangesetUploadModifyRelation| relation_check(e.relation_type@, e.members@, e.tags@)),
{
    let mut i: usize = 0;
    assert(v@.skip(0) == v@);
    while i < v.len()
        invariant
            i <= v@.len(),
            first_error(v@, |e: ChangesetUploadModifyRelation| relation_check(e.relation_type@, e.members@, e.tags@)) == first_error(v@.skip(i as int), |e: ChangesetUploadModifyRelation| relation_check(e.relation_type@, e.members@, e.tags@)),
        decreases v@.len() - i,
    {
        proof {
            lemma_first_error_step(v@, |e: ChangesetUploadModifyRelation| relation_check(e.relation_type@, e.members@, e.tags@), i as int);
        }
        let e = &v[i];
        validate_relation(e.relation_type.as_str(), &e.members, &e.tags)?;
        i += 1;
    }
    assert(v@.skip(i as int).len() == 0);
    Ok(())
}

proof fn lemma_no_duplicate_prefix(a: Seq<i64>, b: Seq<i64>)
    requires
        !has_duplicate(a + b),
    ensures
        !has_duplicate(a),
{
    assert forall|i: int, j: int| 0 <= i < j < a.len() implies !(#[trigger] a[i] == #[trigger] a[j]) by {
        assert((a + b)[i] == a[i] && (a + b)[j] == a[j]);
    }
}

/// Validates a bulk upload before any of it is staged.
pub fn validate_upload(input: &ChangesetUploadRequest) -> (r: Result<(), HttpStatus>)
    ensures
        r == spec_validate_upload(*input),
{
    let create_nodes = create_node_ids(&input.create.nodes);
    let create_ways = create_way_ids(&input.create.ways);
    let create_relations = create_relation_ids(&input.create.relations);
    let modify_nodes = modify_node_ids(&input.modify.nodes);
    let modify_ways = modify_way_ids(&input.modify.ways);
    let modify_relations = modify_relation_ids(&input.modify.relations);
    let delete_nodes = delete_ids(&input.delete.nodes);
    let delete_ways = delete_ids(&input.delete.ways);
    let delete_relations = delete_ids(&input.delete.relations);
    let ghost (cn, mn, dn) = (create_nodes@, modify_nodes@, delete_nodes@);
    let ghost (cw, mw, dw) = (create_ways@, modify_ways@, delete_ways@);
    let ghost (cr, mr, dr) = (create_relations@, modify_relations@, delete_relations@);
    let nodes = concat_ids(concat_ids(copy_ids(&create_nodes), &modify_nodes), &delete_nodes);
    let ways = concat_ids(concat_ids(copy_ids(&create_ways), &modify_ways), &delete_ways);
    let relations = concat_ids(
        concat_ids(copy_ids(&create_relations), &modify_relations),
        &delete_relations,
    );
    validate_operation_ids(&nodes, false)?;
    validate_operation_ids(&ways, false)?;
    validate_operation_ids(&relations, false)?;
    proof {
        lemma_no_duplicate_prefix(cn + mn, dn);
        lemma_no_duplicate_prefix(cn, mn);
        lemma_no_duplicate_prefix(cw + mw, dw);
        lemma_no_duplicate_prefix(cw, mw);
        lemma_no_duplicate_prefix(cr + mr, dr);
        lemma_no_duplicate_prefix(cr, mr);
    }
    validate_operation_ids(&create_nodes, true)?;
    validate_operation_ids(&create_ways, true)?;
    validate_operation_ids(&create_relations, true)?;
    check_create_nodes(&input.create.nodes)?;
    check_modify_nodes(&input.modify.nodes)?;
    check_create_ways(&input.create.ways)?;
    check_modify_ways(&input.modify.ways)?;
    check_create_relations(&input.create.relations)?;
    check_modify_relations(&input.modify.relations)
}

/// A copy of `v`.
fn copy_ids(v: &Vec<i64>) -> (r: Vec<i64>)
    ensures
        r@ == v@,
{
    concat_ids(Vec::new(), v)
}

/// The diff entry for an uploaded entity.
pub fn diff_entry(old_id: i64, new_id: i64, new_version: i32) -> (r: ChangesetUploadDiffEntry)
    ensures
        r == (ChangesetUploadDiffEntry { old_id, new_id, new_version }),
{
    ChangesetUploadDiffEntry { old_id, new_id, new_version }
}

/// The id that a client id stands for: its mapped id when the map has one, else itself.
pub open spec fn spec_resolve_id(id: i64, ids: Map<i64, i64>) -> i64 {
    if ids.contains_key(id) {
        ids[id]
    } else {
        id
    }
}

/// Replaces a client-local id by the id created for it, if any.
pub fn resolve_id(id: i64, ids: &HashMap<i64, i64>) -> (r: i64)
    ensures
        r == spec_resolve_id(id, ids@),
{
    broadcast use vstd::std_specs::hash::group_hash_axioms;

    match ids.get(&id) {
        Some(v) => *v,
        None => id,
    }
}

/// The id a member refers to once client-local ids of its entity kind are resolved; members of
/// an unknown kind keep their id.
pub open spec fn spec_resolve_member_id(
    member: RelationMember,
    node_ids: Map<i64, i64>,
    way_ids: Map<i64, i64>,
    relation_ids: Map<i64, i64>,
) -> i64 {
    if member.member_type@ == "node"@ {
        spec_resolve_id(member.member_id, node_ids)
    } else if member.member_type@ == "way"@ {
        spec_resolve_id(member.member_id, way_ids)
    } else if member.member_type@ == "relation"@ {
        spec_resolve_id(member.member_id, relation_ids)
    } else {
        member.member_id
    }
}

/// Resolves a member's client-local id using the id map of its entity kind.
pub fn resolve_member(
    member: RelationMember,
    node_ids: &HashMap<i64, i64>,
    way_ids: &HashMap<i64, i64>,
    relation_ids: &HashMap<i64, i64>,
) -> (r: RelationMember)
    ensures
        r.member_type == member.member_type,
        r.role == member.role,
        r.member_id == spec_resolve_member_id(member, node_ids@, way_ids@, relation_ids@),
{
    let kind = member.member_type.as_str();
    let member_id = if str_eq(kind, "node") {
        resolve_id(member.member_id, node_ids)
    } else if str_eq(kind, "way") {
        resolve_id(member.member_id, way_ids)
    } else if str_eq(kind, "relation") {
        resolve_id(member.member_id, relation_ids)
    } else {
        member.member_id
    };
    RelationMember { member_type: member.member_type, member_id, role: member.role }
}

/// Resolves each node reference of a way.
pub fn resolve_refs(refs: &Vec<i64>, node_ids: &HashMap<i64, i64>) -> (r: Vec<i64>)
    ensures
        r@.len() == refs@.len(),
        forall|i: int| 0 <= i < refs@.len() ==> r@[i] == spec_resolve_id(#[trigger] refs@[i], node_ids@),
{
    let mut r: Vec<i64> = Vec::new();
    let mut i: usize = 0;
    while i < refs.len()
        invariant
            i <= refs@.len(),
            r@.len() == i,
            forall|j: int| 0 <= j < i ==> r@[j] == spec_resolve_id(#[trigger] refs@[j], node_ids@),
        decreases refs@.len() - i,
    {
        r.push(resolve_id(refs[i], node_ids));
        i += 1;
    }
    r
}

/// Resolves each member of a relation.
pub fn resolve_members(
    members: Vec<RelationMember>,
    node_ids: &HashMap<i64, i64>,
    way_ids: &HashMap<i64, i64>,
    relation_ids: &HashMap<i64, i64>,
) -> (r: Vec<RelationMember>)
    ensures
        r@.len() == members@.len(),
        forall|i: int|
            0 <= i < members@.len() ==> (#[trigger] r@[i]).member_type == members@[i].member_type
                && r@[i].role == members@[i].role && r@[i].member_id == spec_resolve_member_id(
                members@[i],
                node_ids@,
                way_ids@,
                relation_ids@,
            ),
{
    let mut r: Vec<RelationMember> = Vec::new();
    let mut rest = members;
    let ghost all = rest@;
    let ghost n = all.len();
    while rest.len() > 0
        invariant
            r@.len() + rest@.len() == n,
            all.len() == n,
            forall|k: int| 0 <= k < rest@.len() ==> #[trigger] rest@[k] == all[r@.len() + k],
            forall|i: int|
                0 <= i < r@.len() ==> (#[trigger] r@[i]).member_type == all[i].member_type
                    && r@[i].role == all[i].role && r@[i].member_id == spec_resolve_member_id(
                    all[i],
                    node_ids@,
                    way_ids@,
                    relation_ids@,
                ),
        decreases rest@.len(),
    {
        let m = rest.remove(0);
        assert(m == all[r@.len() as int]);
        r.push(resolve_member(m, node_ids, way_ids, relation_ids));
    }
    r
}

// ---- upload progress ----

/// What an upload has staged so far: the ids created for client-local ids, by entity kind, and
/// the diff entries recorded, by entity kind.
pub struct UploadProgress {
    pub node_ids: HashMap<i64, i64>,
    pub way_ids: HashMap<i64, i64>,
    pub relation_ids: HashMap<i64, i64>,
    pub nodes: Vec<ChangesetUploadDiffEntry>,
    pub ways: Vec<ChangesetUploadDiffEntry>,
    pub relations: Vec<ChangesetUploadDiffEntry>,
}

impl UploadProgress {
    /// The created ids of one entity kind, by client-local id.
    pub open spec fn ids_of(self, kind: EntityKind) -> Map<i64, i64> {
        match kind {
            EntityKind::Node => self.node_ids@,
            EntityKind::Way => self.way_ids@,
            EntityKind::Relation => self.relation_ids@,
        }
    }

    /// The diff entries recorded for one entity kind.
    pub open spec fn entries_of(self, kind: EntityKind) -> Seq<ChangesetUploadDiffEntry> {
        match kind {
            EntityKind::Node => self.nodes@,
            EntityKind::Way => self.ways@,
            EntityKind::Relation => self.relations@,
        }
    }

    /// An upload that has staged nothing.
    pub fn new() -> (p: Self)
        ensures
            forall|k: EntityKind| p.ids_of(k) == Map::<i64, i64>::empty(),
            forall|k: EntityKind| p.entries_of(k) == Seq::<ChangesetUploadDiffEntry>::empty(),
    {
        UploadProgress {
            node_ids: HashMap::new(),
            way_ids: HashMap::new(),
            relation_ids: HashMap::new(),
            nodes: Vec::new(),
            ways: Vec::new(),
            relations: Vec::new(),
        }
    }

    /// Records the creation of client entity `old_id` of `kind` as `new_id`: later references
    /// to `old_id` resolve to `new_id`, and the diff gains an entry.
    pub fn record_create(&mut self, kind: EntityKind, old_id: i64, new_id: i64, new_version: i32)
        ensures
            final(self).ids_of(kind) == old(self).ids_of(kind).insert(old_id, new_id),
            final(self).entries_of(kind) == old(self).entries_of(kind).push(
                diff_entry_spec(old_id, new_id, new_version),
            ),
            forall|k: EntityKind|
                k != kind ==> final(self).ids_of(k) == old(self).ids_of(k) && final(self).entries_of(
                    k,
                ) == old(self).entries_of(k),
    {
        broadcast use vstd::std_specs::hash::group_hash_axioms;

        let entry = diff_entry(old_id, new_id, new_version);
        match kind {
            EntityKind::Node => {
                self.node_ids.insert(old_id, new_id);
                self.nodes.push(entry);
            },
            EntityKind::Way => {
                self.way_ids.insert(old_id, new_id);
                self.ways.push(entry);
            },
            EntityKind::Relation => {
                self.relation_ids.insert(old_id, new_id);
                self.relations.push(entry);
            },
        }
    }

    /// Records the update of entity `id` of `kind` to version `new_version`.
    pub fn record_update(&mut self, kind: EntityKind, id: i64, new_id: i64, new_version: i32)
        ensures
            final(self).entries_of(kind) == old(self).entries_of(kind).push(
                diff_entry_spec(id, new_id, new_version),
            ),
            forall|k: EntityKind| final(self).ids_of(k) == old(self).ids_of(k),
            forall|k: EntityKind| k != kind ==> final(self).entries_of(k) == old(self).entries_of(k),
    {
        let entry = diff_entry(id, new_id, new_version);
        match kind {
            EntityKind::Node => self.nodes.push(entry),
            EntityKind::Way => self.ways.push(entry),
            EntityKind::Relation => self.relations.push(entry),
        }
    }

    /// The node references of a way, with client-local ids of created nodes resolved.
    pub fn way_refs(&self, refs: &Vec<i64>) -> (r: Vec<i64>)
        ensures
            r@.len() == refs@.len(),
            forall|i: int|
                0 <= i < refs@.len() ==> r@[i] == spec_resolve_id(
                    #[trigger] refs@[i],
                    self.node_ids@,
                ),
    {
        resolve_refs(refs, &self.node_ids)
    }

    /// The members of a relation, with client-local ids of created entities resolved by kind.
    pub fn relation_members(&self, members: Vec<RelationMember>) -> (r: Vec<RelationMember>)
        ensures
            r@.len() == members@.len(),
            forall|i: int|
                0 <= i < members@.len() ==> (#[trigger] r@[i]).member_type
                    == members@[i].member_type && r@[i].role == members@[i].role
                    && r@[i].member_id == spec_resolve_member_id(
                    members@[i],
                    self.node_ids@,
                    self.way_ids@,
                    self.relation_ids@,
                ),
    {
        resolve_members(members, &self.node_ids, &self.way_ids, &self.relation_ids)
    }

    /// The diff of the upload.
    pub fn into_result(self) -> (r: ChangesetUploadDiffResult)
        ensures
            r.nodes@ == self.nodes@,
            r.ways@ == self.ways@,
            r.relations@ == self.relations@,
    {
        ChangesetUploadDiffResult { nodes: self.nodes, ways: self.ways, relations: self.relations }
    }
}

/// The diff entry of an uploaded entity.
pub open spec fn diff_entry_spec(old_id: i64, new_id: i64, new_version: i32) -> ChangesetUploadDiffEntry {
    ChangesetUploadDiffEntry { old_id, new_id, new_version }
}

/// After an entity is created for a client-local id, references to that id resolve to the
/// created id.
pub proof fn law_created_id_resolves(ids: Map<i64, i64>, old_id: i64, new_id: i64)
    ensures
        spec_resolve_id(old_id, ids.insert(old_id, new_id)) == new_id,
{
}

/// Ids that no creation recorded resolve to themselves; recording a creation leaves the
/// resolution of every other id unchanged.
pub proof fn law_other_ids_unchanged(ids: Map<i64, i64>, old_id: i64, new_id: i64, id: i64)
    requires
        id != old_id,
    ensures
        spec_resolve_id(id, ids.insert(old_id, new_id)) == spec_resolve_id(id, ids),
        !ids.contains_key(id) ==> spec_resolve_id(id, ids) == id,
{
}

} // verus!
