use catlas_api::types::{HttpStatus, Point, Tags};
use catlas_api::validation::{validate_point, validate_tags, validate_way};

#[test]
fn validates_way_topology() {
    assert!(validate_way("line", &vec![1, 2]).is_ok());
    assert!(validate_way("line", &vec![1]).is_err());
    assert!(validate_way("area", &vec![1, 2, 3, 1]).is_ok());
    assert!(validate_way("area", &vec![1, 2, 1, 1]).is_err());
    assert!(validate_way("area", &vec![1, 2, 3]).is_err());
}

#[test]
fn rejects_non_finite_points_and_reserved_tags() {
    assert!(validate_point(&Point {
        x: 0.0_f64.to_bits(),
        y: f64::NAN.to_bits(),
        z: 1.0_f64.to_bits(),
    })
    .is_err());
    let tags = Tags::from_pairs(vec![("version".to_owned(), "user-value".to_owned())]);
    assert!(validate_tags(&tags).is_err());
}

#[test]
fn finite_points_and_plain_tags_pass() {
    assert!(validate_point(&Point {
        x: 1.5_f64.to_bits(),
        y: (-2.0_f64).to_bits(),
        z: 0.0_f64.to_bits(),
    })
    .is_ok());
    assert_eq!(
        validate_point(&Point {
            x: f64::INFINITY.to_bits(),
            y: 0.0_f64.to_bits(),
            z: 0.0_f64.to_bits(),
        }),
        Err(HttpStatus::UnprocessableEntity)
    );
    let tags = Tags::from_pairs(vec![("name".to_owned(), "Tower".to_owned())]);
    assert!(validate_tags(&tags).is_ok());
}
