use std::collections::{HashMap, HashSet};

use catlas_api::publication::{
    check_id_conflicts, check_version_conflicts, live_members, live_way_nodes, plan_publication,
    relation_parent_versions, way_parent_versions, DraftHeader, NodeDraft, RelationDraft, WayDraft,
};
use catlas_api::topology::{MemberRow, WayNodeRow};
use catlas_api::types::{DomainError, Tags};

fn header(id: i64, operation: &str, base_version: Option<i32>) -> DraftHeader {
    DraftHeader {
        id,
        operation: operation.to_owned(),
        base_version,
    }
}

fn node_draft(id: i64, operation: &str, complete: bool) -> NodeDraft {
    NodeDraft {
        id,
        operation: operation.to_owned(),
        x: Some(1.0_f64.to_bits()),
        y: Some(2.0_f64.to_bits()),
        z: if complete { Some(3.0_f64.to_bits()) } else { None },
        tags: None,
        staged_by: 1,
    }
}

fn way_draft(id: i64, operation: &str, kind: Option<&str>) -> WayDraft {
    WayDraft {
        id,
        operation: operation.to_owned(),
        geometry_kind: kind.map(str::to_owned),
        is_closed: None,
        tags: Some(Tags::from_pairs(vec![("name".to_owned(), "Hall".to_owned())])),
        staged_by: 2,
    }
}

fn relation_draft(id: i64, operation: &str, kind: Option<&str>) -> RelationDraft {
    RelationDraft {
        id,
        operation: operation.to_owned(),
        relation_type: kind.map(str::to_owned),
        tags: None,
        staged_by: 3,
    }
}

#[test]
fn stale_base_versions_conflict() {
    let current = HashMap::from([(1, 3), (2, 5)]);
    assert_eq!(
        check_version_conflicts(&vec![header(1, "update", Some(3)), header(9, "create", None)], &current),
        Ok(())
    );
    assert_eq!(
        check_version_conflicts(&vec![header(2, "delete", Some(4))], &current),
        Err(DomainError::VersionConflict)
    );
    assert_eq!(
        check_version_conflicts(&vec![header(8, "update", Some(1))], &current),
        Err(DomainError::VersionConflict)
    );
}

#[test]
fn creations_may_not_reuse_published_ids() {
    let published = HashSet::from([1, 2]);
    assert_eq!(check_id_conflicts(&vec![header(3, "create", None)], &published), Ok(()));
    assert_eq!(check_id_conflicts(&vec![header(1, "update", Some(1))], &published), Ok(()));
    assert_eq!(
        check_id_conflicts(&vec![header(2, "create", None)], &published),
        Err(DomainError::IdConflict)
    );
}

#[test]
fn plans_rows_by_operation() {
    let nodes = vec![node_draft(1, "create", true), node_draft(2, "delete", false), node_draft(3, "update", true)];
    let ways = vec![way_draft(10, "create", Some("area")), way_draft(11, "delete", None)];
    let relations = vec![relation_draft(20, "update", Some("multipolygon"))];
    let plan = plan_publication(&nodes, &ways, &relations).ok().unwrap();
    assert_eq!(plan.node_creates.len(), 1);
    assert_eq!(plan.node_creates[0].id, 1);
    assert_eq!(plan.node_creates[0].z, 3.0_f64.to_bits());
    assert!(plan.node_creates[0].tags.is_empty());
    assert_eq!(plan.node_updates[0].id, 3);
    assert_eq!(plan.node_deletes, vec![(2, 1)]);
    assert_eq!(plan.way_creates[0].geometry_kind, "area");
    assert!(!plan.way_creates[0].is_closed);
    assert_eq!(*plan.way_creates[0].tags.entries(), vec![("name".to_owned(), "Hall".to_owned())]);
    assert_eq!(plan.way_deletes, vec![(11, 2)]);
    assert!(plan.way_updates.is_empty());
    assert_eq!(plan.relation_updates[0].relation_type, "multipolygon");
    assert!(plan.relation_creates.is_empty());
    assert!(plan.relation_deletes.is_empty());
}

#[test]
fn incomplete_drafts_fail_in_publication_order() {
    let complete_nodes = vec![node_draft(1, "create", true)];
    let broken_update = vec![node_draft(1, "update", false)];
    let broken_way = vec![way_draft(10, "create", None)];
    let broken_relation = vec![relation_draft(20, "create", None)];
    assert_eq!(
        plan_publication(&broken_update, &broken_way, &vec![]).err(),
        Some(DomainError::InvalidWayDraft)
    );
    assert_eq!(
        plan_publication(&broken_update, &vec![], &vec![]).err(),
        Some(DomainError::InvalidNodeDraft)
    );
    assert_eq!(
        plan_publication(&complete_nodes, &vec![], &broken_relation).err(),
        Some(DomainError::InvalidRelationDraft)
    );
    assert!(plan_publication(&vec![node_draft(1, "delete", false)], &vec![], &vec![]).is_ok());
}

#[test]
fn deleted_parents_lose_their_child_lists() {
    let rows = vec![
        WayNodeRow { way_id: 1, seq: 0, node_id: 5 },
        WayNodeRow { way_id: 2, seq: 0, node_id: 6 },
        WayNodeRow { way_id: 1, seq: 1, node_id: 7 },
    ];
    let live = live_way_nodes(&rows, &vec![2]);
    assert_eq!(live, vec![rows[0], rows[2]]);

    let members = vec![
        MemberRow {
            relation_id: 3,
            seq: 0,
            member_type: "way".to_owned(),
            member_id: 1,
            role: Some("outer".to_owned()),
        },
        MemberRow {
            relation_id: 4,
            seq: 0,
            member_type: "way".to_owned(),
            member_id: 2,
            role: None,
        },
    ];
    let live = live_members(&members, &vec![3]);
    assert_eq!(live.len(), 1);
    assert_eq!(live[0].relation_id, 4);
    assert_eq!(live[0].role, None);
}

#[test]
fn history_entries_need_their_parent_version() {
    let versions = HashMap::from([(1, 4), (2, 7)]);
    assert_eq!(way_parent_versions(&vec![2, 1, 2], &versions), Ok(vec![7, 4, 7]));
    assert_eq!(
        way_parent_versions(&vec![1, 3], &versions),
        Err(DomainError::MissingWayVersion)
    );
    assert_eq!(
        relation_parent_versions(&vec![9], &versions),
        Err(DomainError::MissingRelationVersion)
    );
}
