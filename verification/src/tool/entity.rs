//! A row of the tool registry.

use vstd::prelude::*;

use crate::json::{Json, JsonView};

verus! {

/// What a tool may do when it runs.
#[derive(Clone, Copy, Debug, PartialEq, Eq, Structural)]
pub enum Risk {
    ReadOnly,
    Write,
    Destructive,
}

/// How far a tool has come: written, reviewed, in circulation.
#[derive(Clone, Copy, Debug, PartialEq, Eq, Structural)]
pub enum Status {
    Draft,
    Validated,
    Active,
}

impl DeepView for Risk {
    type V = Risk;

    open spec fn deep_view(&self) -> Risk {
        *self
    }
}

impl DeepView for Status {
    type V = Status;

    open spec fn deep_view(&self) -> Status {
        *self
    }
}

pub open spec fn risk_name(risk: Risk) -> Seq<char> {
    match risk {
        Risk::ReadOnly => "ReadOnly"@,
        Risk::Write => "Write"@,
        Risk::Destructive => "Destructive"@,
    }
}

impl Risk {
    pub fn name(self) -> (name: &'static str)
        ensures
            name@ == risk_name(self),
    {
        match self {
            Risk::ReadOnly => "ReadOnly",
            Risk::Write => "Write",
            Risk::Destructive => "Destructive",
        }
    }
}

/// A tool of the registry. One without an owner belongs to the system. A tool that declares its sources is run from
/// them.
#[derive(Debug, PartialEq, Eq)]
pub struct Tool {
    pub id: i64,
    pub user_id: Option<u128>,
    pub slug: String,
    pub name: String,
    pub description: String,
    pub input_schema: Json,
    pub output_schema: Json,
    pub connection_id: Option<i64>,
    pub risk: Risk,
    pub timeout_seconds: i32,
    pub status: Status,
    pub sources: Option<Json>,
}

#[verifier::ext_equal]
pub struct ToolView {
    pub id: i64,
    pub user_id: Option<u128>,
    pub slug: Seq<char>,
    pub name: Seq<char>,
    pub description: Seq<char>,
    pub input_schema: JsonView,
    pub output_schema: JsonView,
    pub connection_id: Option<i64>,
    pub risk: Risk,
    pub timeout_seconds: i32,
    pub status: Status,
    pub sources: Option<JsonView>,
}

impl DeepView for Tool {
    type V = ToolView;

    open spec fn deep_view(&self) -> ToolView {
        ToolView {
            id: self.id,
            user_id: self.user_id,
            slug: self.slug@,
            name: self.name@,
            description: self.description@,
            input_schema: self.input_schema.deep_view(),
            output_schema: self.output_schema.deep_view(),
            connection_id: self.connection_id,
            risk: self.risk,
            timeout_seconds: self.timeout_seconds,
            status: self.status,
            sources: self.sources.deep_view(),
        }
    }
}

/// The index that keeps one slug for one owner. It is no constraint of the table's own, so synchronising the schema
/// cannot drop it.
pub const MANUAL_UNIQUE_INDEX_NAME: &'static str = "tools_owner_slug_idx";

pub const UNIQUE_SLUG_PER_OWNER: &'static str =
    "CREATE UNIQUE INDEX IF NOT EXISTS tools_owner_slug_idx ON tool.tools (COALESCE(user_id, '00000000-0000-0000-0000-000000000000'::uuid), slug)";

pub const SLUG_LOOKUP_INDEX: &'static str =
    "CREATE INDEX IF NOT EXISTS tools_user_slug_idx ON tool.tools (user_id, slug)";

pub const INDEX_STATEMENTS_CREATED_AFTER_SCHEMA_SYNC: [&'static str; 2] = [UNIQUE_SLUG_PER_OWNER, SLUG_LOOKUP_INDEX];

/// The state by which Postgres names an object that is not there.
pub const POSTGRES_UNDEFINED_OBJECT_SQLSTATE: &'static str = "42704";

/// Whether a database error, given by its state and its message, is the one that synchronising the schema always
/// meets: it tries to drop the index as a constraint. The index is untouched, so that is no reason to stop.
pub fn is_missing_manual_unique_index(code: Option<&str>, message: &str) -> (answer: bool)
    ensures
        answer == (code.deep_view() == Some(POSTGRES_UNDEFINED_OBJECT_SQLSTATE@) && crate::text::holds_of(
            message@,
            MANUAL_UNIQUE_INDEX_NAME@,
        )),
{
    match code {
        Some(code) => crate::text::same(code, POSTGRES_UNDEFINED_OBJECT_SQLSTATE) && crate::text::holds(
            message,
            MANUAL_UNIQUE_INDEX_NAME,
        ),
        None => false,
    }
}

/// Each risk has a name of its own.
pub proof fn law_each_risk_has_its_own_name()
    ensures
        risk_name(Risk::ReadOnly) == "ReadOnly"@,
        risk_name(Risk::Write) == "Write"@,
        risk_name(Risk::Destructive) == "Destructive"@,
{
}

/// The view of a tool shows each of its parts under that part's own name.
pub proof fn law_the_view_of_a_tool_is_its_own(tool: Tool)
    ensures
        tool.deep_view().id == tool.id,
        tool.deep_view().user_id == tool.user_id,
        tool.deep_view().slug == tool.slug@,
        tool.deep_view().name == tool.name@,
        tool.deep_view().description == tool.description@,
        tool.deep_view().input_schema == tool.input_schema.deep_view(),
        tool.deep_view().output_schema == tool.output_schema.deep_view(),
        tool.deep_view().connection_id == tool.connection_id,
        tool.deep_view().risk == tool.risk,
        tool.deep_view().timeout_seconds == tool.timeout_seconds,
        tool.deep_view().status == tool.status,
        tool.deep_view().sources == tool.sources.deep_view(),
{
}

} // verus!
