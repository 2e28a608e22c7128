use std::collections::HashSet;

use catlas_api::drafts::{member_children, way_children, way_is_closed};
use catlas_api::errors::{
    error_code, error_message, error_status, fallback_span_name, span_name, world_creation_status,
};
use catlas_api::references::{effective_nodes_exist, member_exists, member_kind};
use catlas_api::topology::WayNodeRow;
use catlas_api::types::{
    ChangesetStatus, DomainError, EntityKind, GeometryKind, HttpStatus, Nullable, RelationMember,
};
use catlas_api::viewport::{parse_geometry_kind, viewport_node_ids, ViewportWayNode};

#[test]
fn domain_errors_map_to_statuses() {
    let cases = [
        (DomainError::VersionConflict, HttpStatus::Conflict),
        (DomainError::IdConflict, HttpStatus::Conflict),
        (DomainError::NodeNotFound, HttpStatus::NotFound),
        (DomainError::WayNotFound, HttpStatus::NotFound),
        (DomainError::RelationNotFound, HttpStatus::NotFound),
        (DomainError::EntityNotFound, HttpStatus::NotFound),
        (DomainError::ChangesetNotOwned, HttpStatus::NotFound),
        (DomainError::InvalidReference, HttpStatus::UnprocessableEntity),
        (DomainError::InvalidTopology, HttpStatus::UnprocessableEntity),
        (DomainError::InvalidGeometryState, HttpStatus::UnprocessableEntity),
        (DomainError::InvalidNodeDraft, HttpStatus::UnprocessableEntity),
        (DomainError::InvalidWayDraft, HttpStatus::UnprocessableEntity),
        (DomainError::InvalidRelationDraft, HttpStatus::UnprocessableEntity),
        (DomainError::MissingWayVersion, HttpStatus::InternalServerError),
        (DomainError::MissingRelationVersion, HttpStatus::InternalServerError),
        (DomainError::WorldSlugExists, HttpStatus::InternalServerError),
    ];
    for (error, status) in cases {
        assert_eq!(error_status(error.message()), status, "{}", error.message());
    }
    assert_eq!(
        error_status("duplicate key value violates unique constraint \"worlds_slug_key\""),
        HttpStatus::Conflict
    );
    assert_eq!(error_status("duplicate key value"), HttpStatus::InternalServerError);
    assert_eq!(world_creation_status("world slug already exists"), HttpStatus::Conflict);
    assert_eq!(world_creation_status("node not found"), HttpStatus::NotFound);
    assert_eq!(HttpStatus::UnprocessableEntity.code(), 422);
}

#[test]
fn error_replies_name_their_code() {
    assert_eq!(error_code(400), "validation");
    assert_eq!(error_code(409), "version_conflict");
    assert_eq!(error_code(422), "invalid_geometry_state");
    assert_eq!(error_code(500), "unknown");
    assert_eq!(error_message(404), "not_found");
    assert_eq!(error_message(500), "request failed");
}

#[test]
fn spans_are_named_by_route_template() {
    assert_eq!(span_name("GET", "GET /api/users/42", Some("/api/users/:id")), "GET /api/users/:id");
    assert_eq!(span_name("GET", "GET /api/users/42", None), "GET /api/users/42");
    assert_eq!(fallback_span_name("POST", "/api/worlds"), "POST /api/worlds");
}

#[test]
fn referenced_nodes_must_exist_for_the_changeset() {
    let published = HashSet::from([1, 2]);
    let staged = HashSet::from([3]);
    let deleted = HashSet::from([2]);
    assert!(effective_nodes_exist(&vec![1, 3], &published, &staged, &deleted));
    assert!(!effective_nodes_exist(&vec![1, 2], &published, &staged, &deleted));
    assert!(!effective_nodes_exist(&vec![4], &published, &staged, &deleted));
    assert!(effective_nodes_exist(&vec![], &published, &staged, &deleted));
}

#[test]
fn members_exist_unless_deleted() {
    assert_eq!(member_kind("way"), Some(EntityKind::Way));
    assert_eq!(member_kind("area"), None);
    assert!(member_exists(false, true, false));
    assert!(member_exists(false, false, true));
    assert!(!member_exists(true, true, true));
    assert!(!member_exists(false, false, false));
}

#[test]
fn viewports_carry_each_node_once() {
    let way_nodes = vec![
        ViewportWayNode { way_id: 1, seq: 0, node_id: 5, changeset_id: 9 },
        ViewportWayNode { way_id: 1, seq: 1, node_id: 6, changeset_id: 9 },
        ViewportWayNode { way_id: 1, seq: 2, node_id: 5, changeset_id: 9 },
    ];
    assert_eq!(viewport_node_ids(&way_nodes, &vec![7, 6, 8]), vec![5, 6, 7, 8]);
    assert_eq!(parse_geometry_kind("area".to_owned()), Ok(GeometryKind::Area));
    assert_eq!(parse_geometry_kind("line".to_owned()), Ok(GeometryKind::Line));
    assert_eq!(
        parse_geometry_kind("point".to_owned()),
        Err("invalid geometry kind from database: point".to_owned())
    );
    assert_eq!(
        parse_geometry_kind("Line".to_owned()),
        Err("invalid geometry kind from database: Line".to_owned())
    );
    for kind in [GeometryKind::Line, GeometryKind::Area] {
        assert_eq!(parse_geometry_kind(kind.as_str().to_owned()), Ok(kind));
    }
    assert_eq!(GeometryKind::Area.as_str(), "area");
}

#[test]
fn staged_children_are_numbered_in_order() {
    assert!(way_is_closed(&vec![1, 2, 3, 1]));
    assert!(!way_is_closed(&vec![1, 2]));
    assert!(way_is_closed(&vec![]));
    assert_eq!(
        way_children(7, &vec![4, 5]),
        vec![
            WayNodeRow { way_id: 7, seq: 0, node_id: 4 },
            WayNodeRow { way_id: 7, seq: 1, node_id: 5 },
        ]
    );
    let members = member_children(
        9,
        &vec![RelationMember {
            member_type: "way".to_owned(),
            member_id: 3,
            role: Some("outer".to_owned()),
        }],
    );
    assert_eq!(members[0].relation_id, 9);
    assert_eq!(members[0].seq, 0);
    assert_eq!(members[0].member_type, "way");
    assert_eq!(members[0].role.as_deref(), Some("outer"));
}

#[test]
fn changeset_states_read_back_from_their_names() {
    for status in [ChangesetStatus::Open, ChangesetStatus::Published, ChangesetStatus::Abandoned] {
        assert_eq!(ChangesetStatus::from_name(status.as_str()), Some(status));
    }
    assert_eq!(ChangesetStatus::from_name("closed"), None);
}

#[test]
fn nullable_values_know_when_they_are_null() {
    let absent: Nullable<i64> = None.into();
    let present: Nullable<i64> = Some(3).into();
    assert!(absent.is_null());
    assert!(!present.is_null());
}
