//! Plain data types shared by the API modules.

use vstd::prelude::*;

pub use crate::tags::Tags;

verus! {

/// The HTTP status a request is refused with.
#[derive(Debug, Clone, Copy, PartialEq, Eq, Structural)]
pub enum HttpStatus {
    /// 400
    BadRequest,
    /// 401
    Unauthorized,
    /// 404
    NotFound,
    /// 409
    Conflict,
    /// 422
    UnprocessableEntity,
    /// 500
    InternalServerError,
}

impl HttpStatus {
    pub open spec fn spec_code(self) -> u16 {
        match self {
            HttpStatus::BadRequest => 400,
            HttpStatus::Unauthorized => 401,
            HttpStatus::NotFound => 404,
            HttpStatus::Conflict => 409,
            HttpStatus::UnprocessableEntity => 422,
            HttpStatus::InternalServerError => 500,
        }
    }

    /// The numeric status code.
    pub fn code(&self) -> (c: u16)
        ensures
            c == self.spec_code(),
    {
        match self {
            HttpStatus::BadRequest => 400,
            HttpStatus::Unauthorized => 401,
            HttpStatus::NotFound => 404,
            HttpStatus::Conflict => 409,
            HttpStatus::UnprocessableEntity => 422,
            HttpStatus::InternalServerError => 500,
        }
    }
}

/// The geometric interpretation of a way.
#[derive(Debug, Clone, Copy, PartialEq, Eq, Structural)]
pub enum GeometryKind {
    Line,
    Area,
}

impl GeometryKind {
    /// The lowercase wire name of the kind.
    pub open spec fn spec_name(self) -> Seq<char> {
        match self {
            GeometryKind::Line => "line"@,
            GeometryKind::Area => "area"@,
        }
    }

    pub fn as_str(&self) -> (s: &'static str)
        ensures
            s@ == self.spec_name(),
    {
        match self {
            GeometryKind::Line => "line",
            GeometryKind::Area => "area",
        }
    }
}

/// A public user.
#[derive(Debug, Clone)]
pub struct User {
    pub id: i64,
    pub user_id: String,
    pub username: String,
}

/// Node coordinates as IEEE 754 binary64 bit patterns (`f64::to_bits`).
#[derive(Debug, Clone, Copy, PartialEq, Eq, Structural)]
pub struct Point {
    pub x: u64,
    pub y: u64,
    pub z: u64,
}

/// A relation member reference.
#[derive(Debug, Clone)]
pub struct RelationMember {
    pub member_type: String,
    pub member_id: i64,
    pub role: Option<String>,
}

/// A new node staged in a changeset.
#[derive(Debug, Clone)]
pub struct NodeInput {
    pub changeset_id: i64,
    pub geom: Point,
    pub tags: Tags,
}

/// A replacement node state staged in a changeset.
#[derive(Debug, Clone)]
pub struct NodePatch {
    pub changeset_id: i64,
    pub expected_version: i32,
    pub geom: Point,
    pub tags: Tags,
}

/// A new way staged in a changeset.
#[derive(Debug, Clone)]
pub struct WayInput {
    pub changeset_id: i64,
    pub geometry_kind: GeometryKind,
    pub node_refs: Vec<i64>,
    pub tags: Tags,
}

/// A replacement way state staged in a changeset.
#[derive(Debug, Clone)]
pub struct WayPatch {
    pub changeset_id: i64,
    pub expected_version: i32,
    pub geometry_kind: GeometryKind,
    pub node_refs: Vec<i64>,
    pub tags: Tags,
}

/// A new relation staged in a changeset.
#[derive(Debug, Clone)]
pub struct RelationInput {
    pub changeset_id: i64,
    pub relation_type: String,
    pub members: Vec<RelationMember>,
    pub tags: Tags,
}

/// A replacement relation state staged in a changeset.
#[derive(Debug, Clone)]
pub struct RelationPatch {
    pub changeset_id: i64,
    pub expected_version: i32,
    pub relation_type: String,
    pub members: Vec<RelationMember>,
    pub tags: Tags,
}

/// A deletion staged in a changeset.
#[derive(Debug, Clone, Copy, PartialEq, Eq, Structural)]
pub struct DeleteInput {
    pub changeset_id: i64,
    pub expected_version: i32,
}

/// An entity id with the version it has (or will have once published).
#[derive(Debug, Clone, Copy, PartialEq, Eq, Structural)]
pub struct IdVersion {
    pub id: i64,
    pub version: i32,
}

/// The kinds of geospatial entity.
#[derive(Debug, Clone, Copy, PartialEq, Eq, Structural)]
pub enum EntityKind {
    Node,
    Way,
    Relation,
}

/// A failure of a domain rule while staging or publishing a changeset.
#[derive(Debug, Clone, Copy, PartialEq, Eq, Structural)]
pub enum DomainError {
    VersionConflict,
    IdConflict,
    NodeNotFound,
    WayNotFound,
    RelationNotFound,
    EntityNotFound,
    ChangesetNotOwned,
    InvalidReference,
    InvalidTopology,
    InvalidGeometryState,
    InvalidNodeDraft,
    InvalidWayDraft,
    InvalidRelationDraft,
    MissingWayVersion,
    MissingRelationVersion,
    WorldSlugExists,
}

impl DomainError {
    /// The error message, as the database layer reports it.
    pub open spec fn spec_message(self) -> Seq<char> {
        match self {
            DomainError::VersionConflict => "version conflict"@,
            DomainError::IdConflict => "id conflict"@,
            DomainError::NodeNotFound => "node not found"@,
            DomainError::WayNotFound => "way not found"@,
            DomainError::RelationNotFound => "relation not found"@,
            DomainError::EntityNotFound => "entity not found"@,
            DomainError::ChangesetNotOwned => "changeset not found or not owned"@,
            DomainError::InvalidReference => "invalid reference"@,
            DomainError::InvalidTopology => "invalid topology"@,
            DomainError::InvalidGeometryState => "invalid geometry state"@,
            DomainError::InvalidNodeDraft => "invalid node draft"@,
            DomainError::InvalidWayDraft => "invalid way draft"@,
            DomainError::InvalidRelationDraft => "invalid relation draft"@,
            DomainError::MissingWayVersion => "missing way version"@,
            DomainError::MissingRelationVersion => "missing relation version"@,
            DomainError::WorldSlugExists => "world slug already exists"@,
        }
    }

    pub fn message(&self) -> (m: &'static str)
        ensures
            m@ == self.spec_message(),
    {
        match self {
            DomainError::VersionConflict => "version conflict",
            DomainError::IdConflict => "id conflict",
            DomainError::NodeNotFound => "node not found",
            DomainError::WayNotFound => "way not found",
            DomainError::RelationNotFound => "relation not found",
            DomainError::EntityNotFound => "entity not found",
            DomainError::ChangesetNotOwned => "changeset not found or not owned",
            DomainError::InvalidReference => "invalid reference",
            DomainError::InvalidTopology => "invalid topology",
            DomainError::InvalidGeometryState => "invalid geometry state",
            DomainError::InvalidNodeDraft => "invalid node draft",
            DomainError::InvalidWayDraft => "invalid way draft",
            DomainError::InvalidRelationDraft => "invalid relation draft",
            DomainError::MissingWayVersion => "missing way version",
            DomainError::MissingRelationVersion => "missing relation version",
            DomainError::WorldSlugExists => "world slug already exists",
        }
    }
}

/// The lifecycle state of a changeset.
#[derive(Debug, Clone, Copy, PartialEq, Eq, Structural)]
pub enum ChangesetStatus {
    Open,
    Published,
    Abandoned,
}

impl ChangesetStatus {
    /// The stored name of the state.
    pub open spec fn spec_name(self) -> Seq<char> {
        match self {
            ChangesetStatus::Open => "open"@,
            ChangesetStatus::Published => "published"@,
            ChangesetStatus::Abandoned => "abandoned"@,
        }
    }

    /// The state a stored name denotes.
    pub open spec fn spec_named(name: Seq<char>) -> Option<ChangesetStatus> {
        if name == "open"@ {
            Some(ChangesetStatus::Open)
        } else if name == "published"@ {
            Some(ChangesetStatus::Published)
        } else if name == "abandoned"@ {
            Some(ChangesetStatus::Abandoned)
        } else {
            None
        }
    }

    /// The stored name of the state.
    pub fn as_str(&self) -> (r: &'static str)
        ensures
            r@ == self.spec_name(),
    {
        match self {
            ChangesetStatus::Open => "open",
            ChangesetStatus::Published => "published",
            ChangesetStatus::Abandoned => "abandoned",
        }
    }

    /// Reads a stored state name; other names denote no state.
    pub fn from_name(name: &str) -> (r: Option<ChangesetStatus>)
        ensures
            r == Self::spec_named(name@),
    {
        if crate::text::str_eq(name, "open") {
            Some(ChangesetStatus::Open)
        } else if crate::text::str_eq(name, "published") {
            Some(ChangesetStatus::Published)
        } else if crate::text::str_eq(name, "abandoned") {
            Some(ChangesetStatus::Abandoned)
        } else {
            None
        }
    }
}

/// Every state reads back from its stored name.
pub proof fn law_changeset_status_round_trip(status: ChangesetStatus)
    ensures
        ChangesetStatus::spec_named(status.spec_name()) == Some(status),
{
    reveal_strlit("open");
    reveal_strlit("published");
    reveal_strlit("abandoned");
    assert("published"@.len() != "open"@.len());
    assert("abandoned"@.len() != "open"@.len());
    assert("abandoned"@[0] != "published"@[0]);
}

/// The body of a changeset creation.
#[derive(Debug, Clone)]
pub struct ChangesetInput {
    pub comment: Option<String>,
}

/// The body of a world creation.
#[derive(Debug, Clone)]
pub struct WorldInput {
    pub slug: String,
    pub name: String,
}

/// A value that is sent as `null` when absent.
#[derive(Debug, Clone)]
pub struct Nullable<T>(pub Option<T>);

impl<T> Nullable<T> {
    /// Whether the value is absent.
    pub fn is_null(&self) -> (r: bool)
        ensures
            r == self.0 is None,
    {
        self.0.is_none()
    }
}

impl<T> From<Option<T>> for Nullable<T> {
    fn from(value: Option<T>) -> (r: Self) {
        Nullable(value)
    }
}

impl<T> vstd::std_specs::convert::FromSpecImpl<Option<T>> for Nullable<T> {
    open spec fn obeys_from_spec() -> bool {
        true
    }

    open spec fn from_spec(v: Option<T>) -> Self {
        Nullable(v)
    }
}

/// The reply of an operation that returns nothing.
#[derive(Debug, Clone, Copy, PartialEq, Eq, Structural)]
pub enum NoContent {
    NoContent,
}

} // verus!
