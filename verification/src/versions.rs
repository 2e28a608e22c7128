//! Optimistic versioning of draft edits: which version a client must send and which version
//! an edit will publish.

use vstd::prelude::*;

use crate::text::str_eq;
use crate::types::{DomainError, EntityKind};

verus! {

/// The draft state of an entity within one changeset: the staged operation (`create`,
/// `update`, `delete`, or `core` when nothing is staged), the published version the staged
/// edit is based on, and the current published version.
#[derive(Debug, Clone)]
pub struct EntityState {
    pub operation: String,
    pub base_version: Option<i32>,
    pub current_version: Option<i32>,
}

/// The staged base version, else the published version.
pub open spec fn known_version(state: EntityState) -> Option<i32> {
    match state.base_version {
        Some(b) => Some(b),
        None => state.current_version,
    }
}

/// Whether the state is a creation staged in the changeset.
pub open spec fn is_create(state: EntityState) -> bool {
    state.operation@ == "create"@
}

/// The version a client must name to edit the entity: 1 for a staged creation, one past the
/// base of a staged edit, else the published version.
pub open spec fn spec_expected_version(state: EntityState) -> Option<int> {
    if is_create(state) {
        Some(1)
    } else {
        match known_version(state) {
            Some(v) => Some(if state.base_version is Some {
                v + 1
            } else {
                v as int
            }),
            None => None,
        }
    }
}

/// The version the entity will have once the changeset is published: 1 for a creation,
/// else one past the version the edit is based on.
pub open spec fn spec_proposed_version(state: EntityState) -> Option<int> {
    if is_create(state) {
        Some(1)
    } else {
        match known_version(state) {
            Some(v) => Some(v + 1),
            None => None,
        }
    }
}

/// Versions fit in `i32` with room for one more.
pub open spec fn versions_in_range(state: EntityState) -> bool {
    known_version(state) != Some(i32::MAX)
}

/// Whether the versions of a state leave room for the next one.
pub fn versions_fit(state: &EntityState) -> (r: bool)
    ensures
        r == versions_in_range(*state),
{
    match state.base_version {
        Some(b) => b != i32::MAX,
        None => state.current_version != Some(i32::MAX),
    }
}

/// The version a client must send to edit the entity.
pub fn expected_version(state: &EntityState) -> (r: Result<i32, DomainError>)
    requires
        state.base_version != Some(i32::MAX),
    ensures
        match spec_expected_version(*state) {
            Some(v) => r == Ok::<i32, DomainError>(v as i32),
            None => r == Err::<i32, DomainError>(DomainError::EntityNotFound),
        },
{
    if str_eq(state.operation.as_str(), "create") {
        return Ok(1);
    }
    let base = match state.base_version {
        Some(b) => b,
        None => match state.current_version {
            Some(c) => c,
            None => return Err(DomainError::EntityNotFound),
        },
    };
    Ok(
        if state.base_version.is_some() {
            base + 1
        } else {
            base
        },
    )
}

/// The version the edit will publish.
pub fn proposed_version(state: &EntityState) -> (r: Result<i32, DomainError>)
    requires
        versions_in_range(*state),
    ensures
        match spec_proposed_version(*state) {
            Some(v) => r == Ok::<i32, DomainError>(v as i32),
            None => r == Err::<i32, DomainError>(DomainError::EntityNotFound),
        },
{
    if str_eq(state.operation.as_str(), "create") {
        return Ok(1);
    }
    match state.base_version {
        Some(b) => Ok(b + 1),
        None => match state.current_version {
            Some(c) => Ok(c + 1),
            None => Err(DomainError::EntityNotFound),
        },
    }
}

/// Re-editing a staged update asks for the version it will publish; editing a published
/// entity asks for its current version and publishes the next one.
pub proof fn law_expected_and_proposed_versions(state: EntityState)
    requires
        !is_create(state),
        known_version(state) is Some,
    ensures
        state.base_version is Some ==> spec_expected_version(state) == spec_proposed_version(state),
        state.base_version is None ==> spec_proposed_version(state)->0 == spec_expected_version(
            state,
        )->0 + 1,
{
}

/// The error for an entity that has neither a staged edit nor a live published row.
pub open spec fn not_found(kind: EntityKind) -> DomainError {
    match kind {
        EntityKind::Node => DomainError::NodeNotFound,
        EntityKind::Way => DomainError::WayNotFound,
        EntityKind::Relation => DomainError::RelationNotFound,
    }
}

/// The state of an entity in a changeset from its staged draft row `(operation, base_version)`
/// and its live published version: the draft row wins, else the published row is the state.
pub fn entity_state(
    kind: EntityKind,
    draft_row: Option<(String, Option<i32>)>,
    current: Option<i32>,
) -> (r: Result<EntityState, DomainError>)
    ensures
        match draft_row {
            Some((operation, base_version)) => r matches Ok(s) && s.operation == operation
                && s.base_version == base_version && s.current_version == current,
            None => match current {
                Some(v) => r matches Ok(s) && s.operation@ == "core"@ && s.base_version is None
                    && s.current_version == Some(v),
                None => r == Err::<EntityState, DomainError>(not_found(kind)),
            },
        },
{
    match draft_row {
        Some((operation, base_version)) => Ok(
            EntityState { operation, base_version, current_version: current },
        ),
        None => match current {
            Some(v) => Ok(
                EntityState {
                    operation: "core".to_owned(),
                    base_version: None,
                    current_version: Some(v),
                },
            ),
            None => Err(
                match kind {
                    EntityKind::Node => DomainError::NodeNotFound,
                    EntityKind::Way => DomainError::WayNotFound,
                    EntityKind::Relation => DomainError::RelationNotFound,
                },
            ),
        },
    }
}

/// The operation a staged draft row records.
#[derive(Debug, Clone, Copy, PartialEq, Eq, Structural)]
pub enum DraftOperation {
    Create,
    Update,
    Delete,
}

impl DraftOperation {
    pub open spec fn spec_name(self) -> Seq<char> {
        match self {
            DraftOperation::Create => "create"@,
            DraftOperation::Update => "update"@,
            DraftOperation::Delete => "delete"@,
        }
    }

    /// The name stored in draft rows.
    pub fn as_str(&self) -> (s: &'static str)
        ensures
            s@ == self.spec_name(),
    {
        match self {
            DraftOperation::Create => "create",
            DraftOperation::Update => "update",
            DraftOperation::Delete => "delete",
        }
    }
}

/// The draft row a patch writes and the version it answers with.
#[derive(Debug, Clone, Copy, PartialEq, Eq, Structural)]
pub struct PatchPlan {
    pub operation: DraftOperation,
    pub base_version: Option<i32>,
    pub proposed_version: i32,
}

/// Plans a patch of an entity whose state is `state`, sent with version `expected`. A staged
/// creation stays a creation; anything else becomes an update based on the known version.
pub fn plan_patch(state: &EntityState, expected: i32) -> (r: Result<PatchPlan, DomainError>)
    requires
        versions_in_range(*state),
    ensures
        match spec_expected_version(*state) {
            None => r == Err::<PatchPlan, DomainError>(DomainError::EntityNotFound),
            Some(v) => if expected != v {
                r == Err::<PatchPlan, DomainError>(DomainError::VersionConflict)
            } else if is_create(*state) {
                r == Ok::<PatchPlan, DomainError>(
                    PatchPlan {
                        operation: DraftOperation::Create,
                        base_version: None,
                        proposed_version: 1,
                    },
                )
            } else {
                r == Ok::<PatchPlan, DomainError>(
                    PatchPlan {
                        operation: DraftOperation::Update,
                        base_version: known_version(*state),
                        proposed_version: (known_version(*state)->0 + 1) as i32,
                    },
                )
            },
        },
{
    let required = expected_version(state)?;
    if expected != required {
        return Err(DomainError::VersionConflict);
    }
    let proposed = proposed_version(state)?;
    if str_eq(state.operation.as_str(), "create") {
        Ok(PatchPlan { operation: DraftOperation::Create, base_version: None, proposed_version: 1 })
    } else {
        let base = match state.base_version {
            Some(b) => Some(b),
            None => state.current_version,
        };
        Ok(PatchPlan { operation: DraftOperation::Update, base_version: base, proposed_version: proposed })
    }
}

/// What deleting an entity does to the changeset's drafts.
#[derive(Debug, Clone, Copy, PartialEq, Eq, Structural)]
pub enum DeletePlan {
    /// The entity was created in this changeset: its draft row is removed.
    RemoveDraft,
    /// A deletion based on the given published version is staged.
    StageDelete(i32),
}

/// Plans the deletion of an entity whose state is `state`, sent with version `expected`.
pub fn plan_delete(state: &EntityState, expected: i32) -> (r: Result<DeletePlan, DomainError>)
    requires
        versions_in_range(*state),
    ensures
        match spec_expected_version(*state) {
            None => r == Err::<DeletePlan, DomainError>(DomainError::EntityNotFound),
            Some(v) => if expected != v {
                r == Err::<DeletePlan, DomainError>(DomainError::VersionConflict)
            } else if is_create(*state) {
                r == Ok::<DeletePlan, DomainError>(DeletePlan::RemoveDraft)
            } else {
                r == Ok::<DeletePlan, DomainError>(
                    DeletePlan::StageDelete(known_version(*state)->0),
                )
            },
        },
{
    let want = expected_version(state)?;
    if expected != want {
        return Err(DomainError::VersionConflict);
    }
    if str_eq(state.operation.as_str(), "create") {
        return Ok(DeletePlan::RemoveDraft);
    }
    match state.base_version {
        Some(b) => Ok(DeletePlan::StageDelete(b)),
        None => match state.current_version {
            Some(c) => Ok(DeletePlan::StageDelete(c)),
            None => Err(DomainError::EntityNotFound),
        },
    }
}

} // verus!
