use catlas_api::types::{GeometryKind, HttpStatus, Point, RelationMember, Tags};
use catlas_api::upload::{
    validate_upload, ChangesetUploadCreate, ChangesetUploadCreateNode, ChangesetUploadCreateRelation,
    ChangesetUploadCreateWay, ChangesetUploadDeleteEntity, ChangesetUploadDeleteGroup,
    ChangesetUploadModify, ChangesetUploadModifyNode, ChangesetUploadRequest,
};

fn point(x: f64, y: f64, z: f64) -> Point {
    Point { x: x.to_bits(), y: y.to_bits(), z: z.to_bits() }
}

fn empty() -> ChangesetUploadRequest {
    ChangesetUploadRequest {
        create: ChangesetUploadCreate { nodes: vec![], ways: vec![], relations: vec![] },
        modify: ChangesetUploadModify { nodes: vec![], ways: vec![], relations: vec![] },
        delete: ChangesetUploadDeleteGroup { nodes: vec![], ways: vec![], relations: vec![] },
    }
}

fn create_node(id: i64, geom: Point) -> ChangesetUploadCreateNode {
    ChangesetUploadCreateNode { id, geom, tags: Tags::new() }
}

fn square_upload() -> ChangesetUploadRequest {
    let mut req = empty();
    req.create.nodes = vec![
        create_node(-1, point(0.0, 64.0, 0.0)),
        create_node(-2, point(10.0, 64.0, 0.0)),
        create_node(-3, point(10.0, 64.0, 10.0)),
    ];
    req.create.ways = vec![ChangesetUploadCreateWay {
        id: -1,
        geometry_kind: GeometryKind::Area,
        node_refs: vec![-1, -2, -3, -1],
        tags: Tags::from_pairs(vec![("building".to_string(), "yes".to_string())]),
    }];
    req.create.relations = vec![ChangesetUploadCreateRelation {
        id: -1,
        relation_type: "multipolygon".to_string(),
        members: vec![RelationMember {
            member_type: "way".to_string(),
            member_id: -1,
            role: Some("outer".to_string()),
        }],
        tags: Tags::new(),
    }];
    req
}

#[test]
fn accepts_an_empty_upload() {
    assert_eq!(validate_upload(&empty()), Ok(()));
}

#[test]
fn accepts_a_well_formed_upload() {
    assert_eq!(validate_upload(&square_upload()), Ok(()));
}

#[test]
fn rejects_an_id_used_by_two_operations() {
    let mut req = square_upload();
    req.delete.nodes = vec![ChangesetUploadDeleteEntity { id: -1, expected_version: 1 }];
    assert_eq!(validate_upload(&req), Err(HttpStatus::BadRequest));
}

#[test]
fn rejects_a_created_entity_with_a_non_negative_id() {
    let mut req = empty();
    req.create.nodes = vec![create_node(0, point(0.0, 0.0, 0.0))];
    assert_eq!(validate_upload(&req), Err(HttpStatus::BadRequest));
}

#[test]
fn checks_ids_before_coordinates() {
    let mut req = empty();
    req.create.nodes = vec![create_node(3, point(f64::NAN, 0.0, 0.0))];
    assert_eq!(validate_upload(&req), Err(HttpStatus::BadRequest));
}

#[test]
fn rejects_a_non_finite_coordinate() {
    let mut req = square_upload();
    req.create.nodes[1] = create_node(-2, point(0.0, f64::INFINITY, 0.0));
    assert_eq!(validate_upload(&req), Err(HttpStatus::UnprocessableEntity));
}

#[test]
fn rejects_a_reserved_tag_on_a_modified_node() {
    let mut req = empty();
    req.modify.nodes = vec![ChangesetUploadModifyNode {
        id: 7,
        expected_version: 2,
        geom: point(1.0, 2.0, 3.0),
        tags: Tags::from_pairs(vec![("version".to_string(), "3".to_string())]),
    }];
    assert_eq!(validate_upload(&req), Err(HttpStatus::BadRequest));
}

#[test]
fn rejects_a_line_without_two_distinct_nodes() {
    let mut req = square_upload();
    req.create.ways[0].geometry_kind = GeometryKind::Line;
    req.create.ways[0].node_refs = vec![-1, -1];
    assert_eq!(validate_upload(&req), Err(HttpStatus::UnprocessableEntity));
}

#[test]
fn rejects_a_relation_that_is_not_a_multipolygon() {
    let mut req = square_upload();
    req.create.relations[0].relation_type = "route".to_string();
    assert_eq!(validate_upload(&req), Err(HttpStatus::UnprocessableEntity));
}

#[test]
fn rejects_a_multipolygon_without_members() {
    let mut req = square_upload();
    req.create.relations[0].members = vec![];
    assert_eq!(validate_upload(&req), Err(HttpStatus::BadRequest));
}
