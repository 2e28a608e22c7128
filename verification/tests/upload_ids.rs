use std::collections::HashMap;

use catlas_api::types::{EntityKind, RelationMember};
use catlas_api::upload::{resolve_id, resolve_member, UploadProgress};
use catlas_api::validation::validate_operation_ids;

#[test]
fn resolves_local_entity_ids_by_type() {
    let mut ids = HashMap::new();
    ids.insert(-1, 42);
    assert_eq!(resolve_id(-1, &ids), 42);
    assert_eq!(resolve_id(7, &ids), 7);
}

#[test]
fn resolves_relation_member_ids_using_their_entity_type() {
    let node_ids = HashMap::from([(-1, 11)]);
    let way_ids = HashMap::from([(-1, 22)]);
    let relation_ids = HashMap::from([(-1, 33)]);

    assert_eq!(
        resolve_member(
            RelationMember {
                member_type: "node".into(),
                member_id: -1,
                role: None,
            },
            &node_ids,
            &way_ids,
            &relation_ids,
        )
        .member_id,
        11
    );
    assert_eq!(
        resolve_member(
            RelationMember {
                member_type: "way".into(),
                member_id: -1,
                role: Some("outer".into()),
            },
            &node_ids,
            &way_ids,
            &relation_ids,
        )
        .member_id,
        22
    );
}

#[test]
fn requires_negative_unique_create_ids() {
    let valid = vec![-1_i64, -2];
    let positive = vec![1_i64];
    let duplicate = vec![-1_i64, -1];

    assert!(validate_operation_ids(&valid, true).is_ok());
    assert!(validate_operation_ids(&positive, true).is_err());
    assert!(validate_operation_ids(&duplicate, false).is_err());
}

#[test]
fn member_of_unknown_type_keeps_its_id() {
    let ids = HashMap::from([(-1, 11)]);
    let member = resolve_member(
        RelationMember {
            member_type: "area".into(),
            member_id: -1,
            role: None,
        },
        &ids,
        &ids,
        &ids,
    );
    assert_eq!(member.member_id, -1);
    assert_eq!(member.member_type, "area");
}

#[test]
fn recorded_creations_resolve_later_references() {
    let mut progress = UploadProgress::new();
    progress.record_create(EntityKind::Node, -1, 100, 1);
    progress.record_create(EntityKind::Way, -1, 200, 1);
    progress.record_update(EntityKind::Node, 7, 7, 3);

    assert_eq!(progress.way_refs(&vec![-1, 5, -1]), vec![100, 5, 100]);
    let members = progress.relation_members(vec![
        RelationMember {
            member_type: "way".into(),
            member_id: -1,
            role: Some("outer".into()),
        },
        RelationMember {
            member_type: "relation".into(),
            member_id: -1,
            role: None,
        },
    ]);
    assert_eq!(members[0].member_id, 200);
    assert_eq!(members[1].member_id, -1);

    let diff = progress.into_result();
    assert_eq!(diff.nodes.len(), 2);
    assert_eq!(diff.nodes[0].old_id, -1);
    assert_eq!(diff.nodes[0].new_id, 100);
    assert_eq!(diff.nodes[1].new_version, 3);
    assert_eq!(diff.ways.len(), 1);
    assert_eq!(diff.ways[0].new_id, 200);
    assert!(diff.relations.is_empty());
}
