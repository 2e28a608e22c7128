use catlas_api::topology::{
    area_ring, validate_topology, validate_topology_links, CoreNodeRow, CoreWayRow, DraftNodeRow,
    DraftParentRow, MemberRow, TopologyInput, WayNodeRow,
};
use catlas_api::types::DomainError;

fn node(id: i64, operation: &str, x: f64, z: f64) -> DraftNodeRow {
    DraftNodeRow {
        id,
        operation: operation.to_owned(),
        position: Some((x.to_bits(), z.to_bits())),
    }
}

fn parent(id: i64, operation: &str, kind: Option<&str>) -> DraftParentRow {
    DraftParentRow {
        id,
        operation: operation.to_owned(),
        kind: kind.map(str::to_owned),
    }
}

fn way_node(way_id: i64, seq: i32, node_id: i64) -> WayNodeRow {
    WayNodeRow {
        way_id,
        seq,
        node_id,
    }
}

fn member(relation_id: i64, seq: i32, member_type: &str, member_id: i64, role: Option<&str>) -> MemberRow {
    MemberRow {
        relation_id,
        seq,
        member_type: member_type.to_owned(),
        member_id,
        role: role.map(str::to_owned),
    }
}

/// A square area (way 10) over four staged nodes, inside a multipolygon (relation 20).
fn square() -> TopologyInput {
    TopologyInput {
        draft_nodes: vec![
            node(1, "create", 0.0, 0.0),
            node(2, "create", 10.0, 0.0),
            node(3, "create", 10.0, 10.0),
            node(4, "create", 0.0, 10.0),
        ],
        core_nodes: Vec::new(),
        core_ways: Vec::new(),
        draft_ways: vec![parent(10, "create", Some("area"))],
        core_way_nodes: Vec::new(),
        draft_way_nodes: vec![
            way_node(10, 0, 1),
            way_node(10, 1, 2),
            way_node(10, 2, 3),
            way_node(10, 3, 4),
            way_node(10, 4, 1),
        ],
        core_relations: Vec::new(),
        draft_relations: vec![parent(20, "create", Some("multipolygon"))],
        core_members: Vec::new(),
        draft_members: vec![member(20, 0, "way", 10, Some("outer"))],
    }
}

#[test]
fn accepts_a_closed_multipolygon() {
    let g = square();
    assert_eq!(validate_topology_links(&g), Ok(()));
    assert_eq!(validate_topology(&g, &vec![true]), Ok(()));
}

#[test]
fn rejects_a_way_listing_a_missing_node() {
    let mut g = square();
    g.draft_way_nodes.push(way_node(10, 5, 99));
    assert_eq!(validate_topology_links(&g), Err(DomainError::InvalidReference));
    assert_eq!(validate_topology(&g, &vec![true]), Err(DomainError::InvalidReference));
}

#[test]
fn rejects_deleting_a_node_a_published_way_lists() {
    let mut g = square();
    g.core_nodes.push(CoreNodeRow { id: 5, x: 0, z: 0 });
    g.core_ways.push(CoreWayRow { id: 30, kind: "line".to_owned() });
    g.core_way_nodes.push(way_node(30, 0, 5));
    g.draft_nodes.push(DraftNodeRow {
        id: 5,
        operation: "delete".to_owned(),
        position: None,
    });
    assert_eq!(validate_topology_links(&g), Err(DomainError::InvalidTopology));
}

#[test]
fn rejects_relations_with_dangling_self_or_repeated_members() {
    let mut dangling = square();
    dangling.draft_members.push(member(20, 1, "node", 77, None));
    assert_eq!(validate_topology_links(&dangling), Err(DomainError::InvalidReference));

    let mut selfish = square();
    selfish.draft_members.push(member(20, 1, "relation", 20, None));
    assert_eq!(validate_topology_links(&selfish), Err(DomainError::InvalidTopology));

    let mut repeated = square();
    repeated.draft_members.push(member(20, 1, "way", 10, Some("inner")));
    assert_eq!(validate_topology_links(&repeated), Err(DomainError::InvalidTopology));
}

#[test]
fn rejects_deleting_a_way_a_published_relation_lists() {
    let mut g = square();
    g.core_ways.push(CoreWayRow { id: 31, kind: "area".to_owned() });
    g.draft_ways.push(parent(31, "delete", None));
    g.core_relations.push(40);
    g.core_members.push(member(40, 0, "way", 31, None));
    assert_eq!(validate_topology(&g, &vec![true, true]), Err(DomainError::InvalidTopology));
}

#[test]
fn rejects_degenerate_or_unclosed_areas() {
    let mut thin = square();
    thin.draft_way_nodes = vec![way_node(10, 0, 1), way_node(10, 1, 2), way_node(10, 2, 1)];
    assert_eq!(validate_topology(&thin, &vec![true]), Err(DomainError::InvalidGeometryState));
    assert_eq!(validate_topology(&square(), &vec![false]), Err(DomainError::InvalidGeometryState));
}

#[test]
fn rejects_relations_that_are_not_valid_multipolygons() {
    let mut route = square();
    route.draft_relations[0].kind = Some("route".to_owned());
    assert_eq!(validate_topology(&route, &vec![true]), Err(DomainError::InvalidTopology));

    let mut inner_only = square();
    inner_only.draft_members[0].role = Some("inner".to_owned());
    assert_eq!(validate_topology(&inner_only, &vec![true]), Err(DomainError::InvalidTopology));

    let mut empty = square();
    empty.draft_members.clear();
    assert_eq!(validate_topology(&empty, &vec![true]), Err(DomainError::InvalidTopology));

    let mut line_member = square();
    line_member.draft_ways[0].kind = Some("line".to_owned());
    assert_eq!(validate_topology(&line_member, &vec![true]), Err(DomainError::InvalidTopology));
}

#[test]
fn deleted_relations_need_no_members() {
    let mut g = square();
    g.draft_relations = vec![parent(20, "delete", None)];
    g.draft_members.clear();
    assert_eq!(validate_topology(&g, &vec![true]), Ok(()));
}

#[test]
fn area_rings_follow_the_node_order_and_skip_missing_nodes() {
    let mut g = square();
    g.draft_way_nodes.reverse();
    g.draft_way_nodes.push(way_node(10, 9, 99));
    let ring = area_ring(&g, 10);
    let bits = |x: f64, z: f64| (x.to_bits(), z.to_bits());
    assert_eq!(
        ring,
        vec![
            bits(0.0, 0.0),
            bits(10.0, 0.0),
            bits(10.0, 10.0),
            bits(0.0, 10.0),
            bits(0.0, 0.0)
        ]
    );
}

#[test]
fn published_positions_are_replaced_by_staged_ones() {
    let mut g = square();
    g.core_nodes.push(CoreNodeRow { id: 1, x: 5, z: 6 });
    g.draft_nodes[0] = node(1, "update", 1.0, 2.0);
    let ring = area_ring(&g, 10);
    assert_eq!(ring[0], (1.0_f64.to_bits(), 2.0_f64.to_bits()));
}
