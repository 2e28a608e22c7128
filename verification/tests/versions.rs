use catlas_api::types::DomainError;
use catlas_api::versions::{expected_version, proposed_version, EntityState};

#[test]
fn distinguishes_required_and_proposed_versions() {
    let published = EntityState {
        operation: "core".into(),
        base_version: None,
        current_version: Some(4),
    };
    assert_eq!(expected_version(&published).unwrap(), 4);
    assert_eq!(proposed_version(&published).unwrap(), 5);

    let staged = EntityState {
        operation: "update".into(),
        base_version: Some(4),
        current_version: Some(4),
    };
    assert_eq!(expected_version(&staged).unwrap(), 5);
    assert_eq!(proposed_version(&staged).unwrap(), 5);
}

#[test]
fn created_drafts_stay_at_version_one() {
    let created = EntityState {
        operation: "create".into(),
        base_version: None,
        current_version: None,
    };
    assert_eq!(expected_version(&created).unwrap(), 1);
    assert_eq!(proposed_version(&created).unwrap(), 1);
}

#[test]
fn versions_of_an_unknown_entity_are_refused() {
    let unknown = EntityState {
        operation: "update".into(),
        base_version: None,
        current_version: None,
    };
    assert_eq!(expected_version(&unknown).unwrap_err(), DomainError::EntityNotFound);
    assert_eq!(proposed_version(&unknown).unwrap_err(), DomainError::EntityNotFound);
}

#[test]
fn a_published_entity_at_the_last_version_is_still_expected_at_it() {
    let last = EntityState {
        operation: "core".into(),
        base_version: None,
        current_version: Some(i32::MAX),
    };
    assert_eq!(expected_version(&last).unwrap(), i32::MAX);
}
