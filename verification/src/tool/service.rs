//! The life of a tool, from its definition to a call: what may be registered, who sees it, and what a call comes to.

use vstd::prelude::*;

use crate::collect::{keep, outcome};
use crate::json::{group_json_views, json_parsed, parse, Json, JsonView};
use crate::text::{cat2, cat3, cat5, chars_of, dec, dec_signed, decimal, decimal_signed, is_blank, quote, quoted, same, trimmed};
use crate::tool::args::{limit_of, urls_of, Fetch, ReadDocument, Search};
use crate::tool::entity::{Risk, Status, Tool, ToolView};
use crate::tool::error::{ToolError, ToolErrorView};
use crate::tool::policy::{check_policy, PolicyDecision};
use crate::tool::tools::declarative::{parse_sources, sources_of, SourceSet, SourceSetView};
use crate::tool::slugs::{is_reserved, reserved, KB_READ_DOCUMENT, KB_SEARCH, WEB_FETCH, WEB_SEARCH};

verus! {

broadcast use group_json_views;

pub const MAX_SLUG_CHARS: usize = 64;

pub const MAX_NAME_CHARS: usize = 128;

pub const MAX_DESCRIPTION_CHARS: usize = 8192;

pub const MIN_TIMEOUT_SECONDS: i32 = 1;

pub const MAX_TIMEOUT_SECONDS: i32 = 300;

/// How long any request of a tool may take, in seconds: as long as the longest a tool may ask for.
pub const DEFAULT_TOOL_HTTP_TIMEOUT: u64 = 300;

/// A tool to be registered. It is made by [`NewTool::checked`] alone, so it always fits the registry.
#[derive(Debug, PartialEq, Eq)]
pub struct NewTool {
    slug: String,
    name: String,
    description: String,
    input_schema: Json,
    output_schema: Json,
    risk: Risk,
    timeout_seconds: i32,
}

#[verifier::ext_equal]
pub struct NewToolView {
    pub slug: Seq<char>,
    pub name: Seq<char>,
    pub description: Seq<char>,
    pub input_schema: JsonView,
    pub output_schema: JsonView,
    pub risk: Risk,
    pub timeout_seconds: i32,
}

impl DeepView for NewTool {
    type V = NewToolView;

    closed spec fn deep_view(&self) -> NewToolView {
        NewToolView {
            slug: self.slug@,
            name: self.name@,
            description: self.description@,
            input_schema: self.input_schema.deep_view(),
            output_schema: self.output_schema.deep_view(),
            risk: self.risk,
            timeout_seconds: self.timeout_seconds,
        }
    }
}

/// Why a text of a definition is refused.
pub open spec fn text_fault(field: Seq<char>, value: Seq<char>, most: nat) -> Option<Seq<char>> {
    if trimmed(value).len() == 0 {
        Some(field + " is required"@)
    } else if value.len() > most {
        Some(field + " is "@ + dec(value.len()) + " characters, the maximum is "@ + dec(most))
    } else {
        None
    }
}

fn bounded(field: &str, value: &str, max_chars: usize) -> (checked: Result<(), ToolError>)
    ensures
        (match checked {
            Ok(()) => text_fault(field@, value@, max_chars as nat) is None,
            Err(error) => text_fault(field@, value@, max_chars as nat) matches Some(reason)
                && error.deep_view() == ToolErrorView::InvalidRequest(reason),
        }),
{
    if is_blank(value) {
        return Err(ToolError::InvalidRequest(cat2(field, " is required")));
    }
    let length: usize = chars_of(value).len();
    if length > max_chars {
        return Err(
            ToolError::InvalidRequest(
                cat5(
                    field,
                    " is ",
                    decimal(length as u64).as_str(),
                    " characters, the maximum is ",
                    decimal(max_chars as u64).as_str(),
                ),
            ),
        );
    }
    Ok(())
}

/// Why a definition is refused: the first of its faults.
pub open spec fn definition_fault(tool: NewToolView) -> Option<Seq<char>> {
    if text_fault("slug"@, tool.slug, MAX_SLUG_CHARS as nat) is Some {
        text_fault("slug"@, tool.slug, MAX_SLUG_CHARS as nat)
    } else if text_fault("name"@, tool.name, MAX_NAME_CHARS as nat) is Some {
        text_fault("name"@, tool.name, MAX_NAME_CHARS as nat)
    } else if text_fault("description"@, tool.description, MAX_DESCRIPTION_CHARS as nat) is Some {
        text_fault("description"@, tool.description, MAX_DESCRIPTION_CHARS as nat)
    } else if !(tool.input_schema is Object) || !(tool.output_schema is Object) {
        Some("input_schema and output_schema must be JSON objects"@)
    } else if !(MIN_TIMEOUT_SECONDS <= tool.timeout_seconds <= MAX_TIMEOUT_SECONDS) {
        Some(
            "timeout_seconds must be between "@ + dec_signed(MIN_TIMEOUT_SECONDS as int) + " and "@ + dec_signed(
                MAX_TIMEOUT_SECONDS as int,
            ) + (", got "@ + dec_signed(tool.timeout_seconds as int)),
        )
    } else {
        None
    }
}

impl NewTool {
    pub fn checked(
        slug: String,
        name: String,
        description: String,
        input_schema: Json,
        output_schema: Json,
        risk: Risk,
        timeout_seconds: i32,
    ) -> (tool: Result<NewTool, ToolError>)
        ensures
            ({
                let asked = NewToolView {
                    slug: slug@,
                    name: name@,
                    description: description@,
                    input_schema: input_schema.deep_view(),
                    output_schema: output_schema.deep_view(),
                    risk,
                    timeout_seconds,
                };
                match tool {
                    Ok(tool) => definition_fault(asked) is None && tool.deep_view() == asked,
                    Err(error) => definition_fault(asked) matches Some(reason) && error.deep_view()
                        == ToolErrorView::InvalidRequest(reason),
                }
            }),
    {
        bounded("slug", slug.as_str(), MAX_SLUG_CHARS)?;
        bounded("name", name.as_str(), MAX_NAME_CHARS)?;
        bounded("description", description.as_str(), MAX_DESCRIPTION_CHARS)?;
        let objects: bool = match (&input_schema, &output_schema) {
            (Json::Object(_), Json::Object(_)) => true,
            _ => false,
        };
        if !objects {
            return Err(
                ToolError::InvalidRequest("input_schema and output_schema must be JSON objects".to_owned()),
            );
        }
        if !(timeout_seconds >= MIN_TIMEOUT_SECONDS && timeout_seconds <= MAX_TIMEOUT_SECONDS) {
            let got: String = cat2(", got ", decimal_signed(timeout_seconds as i64).as_str());
            return Err(
                ToolError::InvalidRequest(
                    cat5(
                        "timeout_seconds must be between ",
                        decimal_signed(MIN_TIMEOUT_SECONDS as i64).as_str(),
                        " and ",
                        decimal_signed(MAX_TIMEOUT_SECONDS as i64).as_str(),
                        got.as_str(),
                    ),
                ),
            );
        }
        Ok(NewTool { slug, name, description, input_schema, output_schema, risk, timeout_seconds })
    }
}

pub open spec fn claims_reserved(user_id: Option<u128>, slug: Seq<char>) -> bool {
    user_id is Some && is_reserved(slug)
}

/// A user may not take the name of one of the system's own tools.
pub fn claims_reserved_slug(user_id: Option<u128>, slug: &str) -> (answer: bool)
    ensures
        answer == claims_reserved(user_id, slug@),
{
    user_id.is_some() && reserved(slug)
}

/// The row a new tool starts as: a draft, whoever owns it.
pub open spec fn row_of(user_id: Option<u128>, tool: NewToolView, id: i64) -> ToolView {
    ToolView {
        id,
        user_id,
        slug: tool.slug,
        name: tool.name,
        description: tool.description,
        input_schema: tool.input_schema,
        output_schema: tool.output_schema,
        connection_id: None,
        risk: tool.risk,
        timeout_seconds: tool.timeout_seconds,
        status: Status::Draft,
        sources: None,
    }
}

pub open spec fn created_of(user_id: Option<u128>, tool: NewToolView) -> Result<ToolView, ToolErrorView> {
    if claims_reserved(user_id, tool.slug) {
        Err(ToolErrorView::InvalidRequest("slug "@ + quoted(tool.slug) + " is reserved for a system tool"@))
    } else {
        Ok(row_of(user_id, tool, 0))
    }
}

/// The row to store for a new tool. Its identifier is zero until the storage gives it one.
pub fn create_tool(user_id: Option<u128>, new_tool: NewTool) -> (row: Result<Tool, ToolError>)
    ensures
        outcome(row) == created_of(user_id, new_tool.deep_view()),
{
    if claims_reserved_slug(user_id, new_tool.slug.as_str()) {
        return Err(
            ToolError::InvalidRequest(
                cat3("slug ", quote(new_tool.slug.as_str()).as_str(), " is reserved for a system tool"),
            ),
        );
    }
    Ok(
        Tool {
            id: 0,
            user_id,
            slug: new_tool.slug,
            name: new_tool.name,
            description: new_tool.description,
            input_schema: new_tool.input_schema,
            output_schema: new_tool.output_schema,
            connection_id: None,
            risk: new_tool.risk,
            timeout_seconds: new_tool.timeout_seconds,
            status: Status::Draft,
            sources: None,
        },
    )
}

pub open spec fn owned_of(tool_id: i64, user_id: u128, found: Option<ToolView>) -> Result<ToolView, ToolErrorView> {
    match found {
        Some(tool) if tool.id == tool_id && tool.user_id == Some(user_id) => Ok(tool),
        _ => Err(ToolErrorView::NotFound(tool_id)),
    }
}

/// The tool a user asked for by its identifier. A tool of someone else, or of the system, is not found.
pub fn user_owned_tool(tool_id: i64, user_id: u128, found: Option<Tool>) -> (tool: Result<Tool, ToolError>)
    ensures
        outcome(tool) == owned_of(tool_id, user_id, found.deep_view()),
{
    if let Some(tool) = found {
        if tool.id == tool_id {
            if let Some(owner) = tool.user_id {
                if owner == user_id {
                    return Ok(tool);
                }
            }
        }
    }
    Err(ToolError::NotFound(tool_id))
}

pub open spec fn activated_of(tool: ToolView) -> Result<Status, ToolErrorView> {
    if tool.status == Status::Validated {
        Ok(Status::Active)
    } else {
        Err(ToolErrorView::InvalidRequest("tool "@ + dec_signed(tool.id as int) + " is not Validated"@))
    }
}

/// Where a tool stands once it is activated. Only a tool that passed its review, and no further, may be.
pub fn activate_tool(tool: &Tool) -> (status: Result<Status, ToolError>)
    ensures
        outcome(status) == activated_of(tool.deep_view()),
{
    match tool.status {
        Status::Validated => Ok(Status::Active),
        Status::Draft | Status::Active => Err(
            ToolError::InvalidRequest(cat3("tool ", decimal_signed(tool.id).as_str(), " is not Validated")),
        ),
    }
}

/// A tool is in the catalog of whoever asks: it is active, and belongs to the system or to them.
pub open spec fn is_listed(viewer: Option<u128>, tool: ToolView) -> bool {
    tool.status == Status::Active && (tool.user_id is None || tool.user_id == viewer)
}

pub open spec fn listed_of(viewer: Option<u128>, tools: Seq<ToolView>) -> Seq<ToolView>
    decreases tools.len(),
{
    if tools.len() == 0 {
        seq![]
    } else if is_listed(viewer, tools.last()) {
        listed_of(viewer, tools.drop_last()).push(tools.last())
    } else {
        listed_of(viewer, tools.drop_last())
    }
}

fn lists(viewer: Option<u128>, tool: &Tool) -> (answer: bool)
    ensures
        answer == is_listed(viewer, tool.deep_view()),
{
    let active: bool = match tool.status {
        Status::Active => true,
        Status::Draft | Status::Validated => false,
    };
    active && match (tool.user_id, viewer) {
        (None, _) => true,
        (Some(owner), Some(viewer)) => owner == viewer,
        (Some(_), None) => false,
    }
}

/// The catalog of whoever asks, in the order the registry holds it.
pub fn list_tools(viewer: Option<u128>, tools: Vec<Tool>) -> (listed: Vec<Tool>)
    ensures
        listed.deep_view() == listed_of(viewer, tools.deep_view()),
{
    let ghost views = tools.deep_view();
    let mut left: Vec<Tool> = tools;
    let mut listed: Vec<Tool> = Vec::new();
    let mut i: usize = 0;
    let total: usize = left.len();
    assert(views.skip(0) =~= views);
    assert(listed.deep_view() =~= listed_of(viewer, views.take(0)));
    while left.len() > 0
        invariant
            i + left@.len() == total,
            total == views.len(),
            left.deep_view() == views.skip(i as int),
            listed.deep_view() == listed_of(viewer, views.take(i as int)),
        decreases left@.len(),
    {
        let ghost before = left@;
        assert(left.deep_view()[0] == before[0].deep_view());
        assert forall|k: int| 1 <= k < before.len() implies views[i + k] == (#[trigger] before[k]).deep_view() by {
            assert(left.deep_view()[k] == views.skip(i as int)[k]);
        }
        let tool: Tool = left.remove(0);
        assert(left.deep_view() =~= views.skip(i as int + 1)) by {
            assert forall|k: int| 0 <= k < left@.len() implies left.deep_view()[k] == views.skip(i as int + 1)[k] by {
                assert(left@[k] == before[k + 1]);
            }
        }
        assert(views.take(i as int + 1).drop_last() =~= views.take(i as int));
        assert(views[i as int] == tool.deep_view());
        if lists(viewer, &tool) {
            keep(&mut listed, tool);
        }
        i += 1;
    }
    assert(views.take(i as int) =~= views);
    listed
}

/// The tool a caller means by a slug: their own, or else the system's.
pub open spec fn found_of(caller: Option<u128>, slug: Seq<char>, tools: Seq<ToolView>) -> Option<ToolView> {
    let own = first_with(caller, slug, tools);
    if caller is Some && own is Some {
        own
    } else {
        first_with(None, slug, tools)
    }
}

/// The first tool of an owner under a slug.
pub open spec fn first_with(owner: Option<u128>, slug: Seq<char>, tools: Seq<ToolView>) -> Option<ToolView>
    decreases tools.len(),
{
    if tools.len() == 0 {
        None
    } else if tools[0].user_id == owner && tools[0].slug == slug {
        Some(tools[0])
    } else {
        first_with(owner, slug, tools.drop_first())
    }
}

fn place_with(owner: Option<u128>, slug: &str, tools: &Vec<Tool>) -> (place: Option<usize>)
    ensures
        (match place {
            Some(i) => i < tools@.len() && first_with(owner, slug@, tools.deep_view()) == Some(
                tools@[i as int].deep_view(),
            ),
            None => first_with(owner, slug@, tools.deep_view()) is None,
        }),
{
    let ghost views = tools.deep_view();
    assert(views.skip(0) =~= views);
    for i in 0..tools.len()
        invariant
            views == tools.deep_view(),
            first_with(owner, slug@, views.skip(i as int)) == first_with(owner, slug@, views),
    {
        assert(views.skip(i as int).drop_first() =~= views.skip(i as int + 1));
        assert(views[i as int] == tools@[i as int].deep_view());
        let owned: bool = match (tools[i].user_id, owner) {
            (None, None) => true,
            (Some(one), Some(other)) => one == other,
            _ => false,
        };
        if owned && same(tools[i].slug.as_str(), slug) {
            return Some(i);
        }
    }
    None
}

/// The tool a caller means by a slug, out of what the registry holds.
pub fn find_tool(caller: Option<u128>, slug: &str, tools: Vec<Tool>) -> (tool: Option<Tool>)
    ensures
        tool.deep_view() == found_of(caller, slug@, tools.deep_view()),
{
    let mut tools = tools;
    if caller.is_some() {
        if let Some(i) = place_with(caller, slug, &tools) {
            return Some(tools.remove(i));
        }
    }
    match place_with(None, slug, &tools) {
        Some(i) => Some(tools.remove(i)),
        None => None,
    }
}

/// How long a tool may run, in seconds: what it asks for, kept within the bounds.
pub open spec fn timeout_of(timeout_seconds: i32) -> u64 {
    if timeout_seconds < MIN_TIMEOUT_SECONDS {
        MIN_TIMEOUT_SECONDS as u64
    } else if timeout_seconds > MAX_TIMEOUT_SECONDS {
        MAX_TIMEOUT_SECONDS as u64
    } else {
        timeout_seconds as u64
    }
}

pub fn registered_timeout(timeout_seconds: i32) -> (seconds: u64)
    ensures
        seconds == timeout_of(timeout_seconds),
        MIN_TIMEOUT_SECONDS <= seconds <= MAX_TIMEOUT_SECONDS,
{
    if timeout_seconds < MIN_TIMEOUT_SECONDS {
        MIN_TIMEOUT_SECONDS as u64
    } else if timeout_seconds > MAX_TIMEOUT_SECONDS {
        MAX_TIMEOUT_SECONDS as u64
    } else {
        timeout_seconds as u64
    }
}

/// What a call came to.
#[derive(Debug, PartialEq, Eq)]
pub enum ExecuteOutcome {
    Output(Json),
    RequiresApproval,
    NotExecutable(String),
    Error(String),
}

#[verifier::ext_equal]
pub enum ExecuteOutcomeView {
    Output(JsonView),
    RequiresApproval,
    NotExecutable(Seq<char>),
    Error(Seq<char>),
}

impl DeepView for ExecuteOutcome {
    type V = ExecuteOutcomeView;

    open spec fn deep_view(&self) -> ExecuteOutcomeView {
        match self {
            ExecuteOutcome::Output(value) => ExecuteOutcomeView::Output(value.deep_view()),
            ExecuteOutcome::RequiresApproval => ExecuteOutcomeView::RequiresApproval,
            ExecuteOutcome::NotExecutable(reason) => ExecuteOutcomeView::NotExecutable(reason@),
            ExecuteOutcome::Error(message) => ExecuteOutcomeView::Error(message@),
        }
    }
}

/// The tools that the service runs itself.
#[derive(Clone, Copy, Debug, PartialEq, Eq, Structural)]
pub enum BuiltIn {
    WebSearch,
    WebFetch,
    KbSearch,
    KbReadDocument,
}

/// What follows the first look at a call.
#[derive(Debug)]
pub enum Call {
    /// Nothing runs: the call has come to its outcome.
    Done(ExecuteOutcome),
    /// The tool's own sources are asked, for no longer than so many seconds.
    Declarative { sources: Json, input_schema: Json, input: Json, timeout: u64 },
    /// The service runs one of its own tools.
    System { tool: BuiltIn, input: Json, timeout: u64 },
}

#[verifier::ext_equal]
pub enum CallView {
    Done(ExecuteOutcomeView),
    Declarative { sources: JsonView, input_schema: JsonView, input: JsonView, timeout: u64 },
    System { tool: BuiltIn, input: JsonView, timeout: u64 },
}

impl DeepView for Call {
    type V = CallView;

    open spec fn deep_view(&self) -> CallView {
        match self {
            Call::Done(outcome) => CallView::Done(outcome.deep_view()),
            Call::Declarative { sources, input_schema, input, timeout } => CallView::Declarative {
                sources: sources.deep_view(),
                input_schema: input_schema.deep_view(),
                input: input.deep_view(),
                timeout: *timeout,
            },
            Call::System { tool, input, timeout } => CallView::System {
                tool: *tool,
                input: input.deep_view(),
                timeout: *timeout,
            },
        }
    }
}

/// The service's own tool under a slug.
pub open spec fn built_in(slug: Seq<char>) -> Option<BuiltIn> {
    if slug == WEB_SEARCH@ {
        Some(BuiltIn::WebSearch)
    } else if slug == WEB_FETCH@ {
        Some(BuiltIn::WebFetch)
    } else if slug == KB_SEARCH@ {
        Some(BuiltIn::KbSearch)
    } else if slug == KB_READ_DOCUMENT@ {
        Some(BuiltIn::KbReadDocument)
    } else {
        None
    }
}

fn built_in_for(slug: &str) -> (tool: Option<BuiltIn>)
    ensures
        tool == built_in(slug@),
{
    if same(slug, WEB_SEARCH) {
        Some(BuiltIn::WebSearch)
    } else if same(slug, WEB_FETCH) {
        Some(BuiltIn::WebFetch)
    } else if same(slug, KB_SEARCH) {
        Some(BuiltIn::KbSearch)
    } else if same(slug, KB_READ_DOCUMENT) {
        Some(BuiltIn::KbReadDocument)
    } else {
        None
    }
}

/// What a tool that nothing runs is answered.
pub open spec fn not_runnable(slug: Seq<char>) -> Seq<char> {
    "tool "@ + quoted(slug)
        + " has no runnable implementation yet — user-created tools need Integrations Service"@
}

/// The first look at a call, its input read already. A tool that may not run at once is not run, whatever its input
/// is; an input that is no JSON is the caller's fault; then the tool's own sources go before the service's own tools.
pub open spec fn call_of(tool: Option<ToolView>, slug: Seq<char>, input: Result<JsonView, Seq<char>>) -> Result<
    CallView,
    ToolErrorView,
> {
    match tool {
        None => Ok(CallView::Done(ExecuteOutcomeView::Error("no tool with slug "@ + quoted(slug)))),
        Some(tool) => if tool.risk != Risk::ReadOnly {
            Ok(CallView::Done(ExecuteOutcomeView::RequiresApproval))
        } else {
            match input {
                Err(error) => Err(ToolErrorView::InvalidRequest(error)),
                Ok(input) => {
                    let timeout = timeout_of(tool.timeout_seconds);
                    match tool.sources {
                        Some(sources) => Ok(
                            CallView::Declarative {
                                sources,
                                input_schema: tool.input_schema,
                                input,
                                timeout,
                            },
                        ),
                        None => match built_in(slug) {
                            Some(tool) => Ok(CallView::System { tool, input, timeout }),
                            None => Ok(
                                CallView::Done(ExecuteOutcomeView::NotExecutable(not_runnable(slug))),
                            ),
                        },
                    }
                },
            }
        },
    }
}

/// What follows for a call whose input was read.
pub fn dispatch(tool: Option<Tool>, slug: &str, input: Result<Json, String>) -> (call: Result<Call, ToolError>)
    ensures
        outcome(call) == call_of(tool.deep_view(), slug@, outcome(input)),
{
    match tool {
        None => Ok(Call::Done(ExecuteOutcome::Error(cat2("no tool with slug ", quote(slug).as_str())))),
        Some(tool) => {
            if check_policy(tool.risk) == PolicyDecision::RequiresApproval {
                return Ok(Call::Done(ExecuteOutcome::RequiresApproval));
            }
            match input {
                Err(error) => Err(ToolError::InvalidRequest(error)),
                Ok(input) => {
                    let timeout: u64 = registered_timeout(tool.timeout_seconds);
                    match tool.sources {
                        Some(sources) => Ok(
                            Call::Declarative { sources, input_schema: tool.input_schema, input, timeout },
                        ),
                        None => match built_in_for(slug) {
                            Some(tool) => Ok(Call::System { tool, input, timeout }),
                            None => Ok(
                                Call::Done(
                                    ExecuteOutcome::NotExecutable(
                                        cat3(
                                            "tool ",
                                            quote(slug).as_str(),
                                            " has no runnable implementation yet — user-created tools need Integrations Service",
                                        ),
                                    ),
                                ),
                            ),
                        },
                    }
                },
            }
        },
    }
}

/// What follows for a call: the tool the caller means is looked up, and its input is read.
pub fn execute(caller: Option<u128>, slug: &str, input_json: &str, tools: Vec<Tool>) -> (call: Result<
    Call,
    ToolError,
>)
    ensures
        outcome(call) == call_of(
            found_of(caller, slug@, tools.deep_view()),
            slug@,
            json_parsed(vstd::utf8::encode_utf8(input_json@)),
        ),
{
    let tool: Option<Tool> = find_tool(caller, slug, tools);
    let input: Result<Json, String> = parse(input_json.as_bytes());
    dispatch(tool, slug, input)
}

/// What a search comes to before anyone is asked: the query and how many results, or the outcome.
pub open spec fn search_of(args: Result<(Seq<char>, Option<u8>), Seq<char>>) -> Result<(Seq<char>, u8), ExecuteOutcomeView> {
    match args {
        Err(problem) => Err(ExecuteOutcomeView::Error(problem)),
        Ok((query, limit)) => match limit_of(limit) {
            Ok(limit) => Ok((query, limit)),
            Err(problem) => Err(ExecuteOutcomeView::Error(problem)),
        },
    }
}

pub open spec fn search_args(args: Result<Search, String>) -> Result<(Seq<char>, Option<u8>), Seq<char>> {
    match args {
        Ok(search) => Ok((search.query@, search.limit)),
        Err(problem) => Err(problem@),
    }
}

/// The query and the number of results of a search, on the web or in the knowledge base.
pub fn begin_search(args: Result<Search, String>) -> (asked: Result<(String, u8), ExecuteOutcome>)
    ensures
        (match asked {
            Ok((query, limit)) => search_of(search_args(args)) == Ok::<(Seq<char>, u8), ExecuteOutcomeView>(
                (query@, limit),
            ),
            Err(done) => search_of(search_args(args)) == Err::<(Seq<char>, u8), ExecuteOutcomeView>(
                done.deep_view(),
            ),
        }),
{
    match args {
        Err(problem) => Err(ExecuteOutcome::Error(problem)),
        Ok(search) => match search.checked_limit() {
            Ok(limit) => Ok((search.query, limit)),
            Err(problem) => Err(ExecuteOutcome::Error(problem)),
        },
    }
}

/// The first URL that a guard refused.
pub open spec fn first_refusal(guards: Seq<Option<Seq<char>>>) -> Option<Seq<char>>
    decreases guards.len(),
{
    if guards.len() == 0 {
        None
    } else if guards[0] is Some {
        guards[0]
    } else {
        first_refusal(guards.drop_first())
    }
}

/// Nothing is fetched unless every URL is public.
pub fn ensure_all_urls_public(guards: &Vec<Option<String>>) -> (refusal: Option<String>)
    ensures
        refusal.deep_view() == first_refusal(guards.deep_view()),
{
    let ghost views = guards.deep_view();
    assert(views.skip(0) =~= views);
    for i in 0..guards.len()
        invariant
            views == guards.deep_view(),
            first_refusal(views.skip(i as int)) == first_refusal(views),
    {
        assert(views.skip(i as int).drop_first() =~= views.skip(i as int + 1));
        assert(views[i as int] == guards@[i as int].deep_view());
        if let Some(reason) = &guards[i] {
            return Some(reason.clone());
        }
    }
    None
}

pub open spec fn fetch_args(args: Result<Fetch, String>) -> Result<(Option<Seq<char>>, Option<Seq<Seq<char>>>), Seq<char>> {
    match args {
        Ok(fetch) => Ok((fetch.url.deep_view(), fetch.urls.deep_view())),
        Err(problem) => Err(problem@),
    }
}

pub open spec fn fetch_of(args: Result<(Option<Seq<char>>, Option<Seq<Seq<char>>>), Seq<char>>) -> Result<
    Seq<Seq<char>>,
    ExecuteOutcomeView,
> {
    match args {
        Err(problem) => Err(ExecuteOutcomeView::Error(problem)),
        Ok((url, urls)) => match urls_of(url, urls) {
            Ok(urls) => Ok(urls),
            Err(problem) => Err(ExecuteOutcomeView::Error(problem)),
        },
    }
}

/// The URLs to fetch. They are still to be guarded.
pub fn begin_fetch(args: Result<Fetch, String>) -> (urls: Result<Vec<String>, ExecuteOutcome>)
    ensures
        outcome(urls) == fetch_of(fetch_args(args)),
{
    match args {
        Err(problem) => Err(ExecuteOutcome::Error(problem)),
        Ok(fetch) => match fetch.checked_urls() {
            Ok(urls) => Ok(urls),
            Err(problem) => Err(ExecuteOutcome::Error(problem)),
        },
    }
}

/// A document to read: its source, its identifier and its version, which is empty where none is given.
pub fn begin_read(args: Result<ReadDocument, String>) -> (asked: Result<(String, String, String), ExecuteOutcome>)
    ensures
        (match asked {
            Ok((source, source_id, version)) => args matches Ok(wanted) && source@ == wanted.source@
                && source_id@ == wanted.source_id@ && version@ == match wanted.version {
                Some(version) => version@,
                None => seq![],
            },
            Err(done) => args matches Err(problem) && done.deep_view() == ExecuteOutcomeView::Error(problem@),
        }),
{
    match args {
        Err(problem) => Err(ExecuteOutcome::Error(problem)),
        Ok(wanted) => {
            let version: String = match wanted.version {
                Some(version) => version,
                None => String::new(),
            };
            Ok((wanted.source, wanted.source_id, version))
        },
    }
}

pub open spec fn declared_of(read: Result<SourceSetView, Seq<char>>, input_schema: JsonView) -> Result<
    SourceSetView,
    ExecuteOutcomeView,
> {
    match sources_of(read, input_schema) {
        Ok(set) => Ok(set),
        Err(problem) => Err(ExecuteOutcomeView::NotExecutable(problem)),
    }
}

/// The sources a tool declares, checked. A tool whose sources do not hold together is not executable.
pub fn begin_declarative(read: Result<SourceSet, String>, input_schema: &Json) -> (set: Result<
    SourceSet,
    ExecuteOutcome,
>)
    ensures
        outcome(set) == declared_of(outcome(read), input_schema.deep_view()),
{
    match parse_sources(read, input_schema) {
        Ok(set) => Ok(set),
        Err(problem) => Err(ExecuteOutcome::NotExecutable(problem)),
    }
}

pub open spec fn finished_of(result: Result<JsonView, Seq<char>>) -> ExecuteOutcomeView {
    match result {
        Ok(value) => ExecuteOutcomeView::Output(value),
        Err(message) => ExecuteOutcomeView::Error(message),
    }
}

/// What a run came to: its answer, or its failure as the model reads it.
pub fn finished(result: Result<Json, String>) -> (done: ExecuteOutcome)
    ensures
        done.deep_view() == finished_of(outcome(result)),
{
    match result {
        Ok(value) => ExecuteOutcome::Output(value),
        Err(message) => ExecuteOutcome::Error(message),
    }
}

/// A tool that changes something is never run by a call, whatever its slug, its sources and its input are.
pub proof fn law_only_a_read_only_tool_runs(
    tool: Option<ToolView>,
    slug: Seq<char>,
    input: Result<JsonView, Seq<char>>,
)
    ensures
        ({
            let call = call_of(tool, slug, input);
            (call is Ok && !(call->Ok_0 is Done)) ==> tool is Some && tool->Some_0.risk == Risk::ReadOnly
        }),
        (tool is Some && tool->Some_0.risk != Risk::ReadOnly) ==> call_of(tool, slug, input) == Ok::<
            CallView,
            ToolErrorView,
        >(CallView::Done(ExecuteOutcomeView::RequiresApproval)),
{
}

proof fn lemma_first_with(owner: Option<u128>, slug: Seq<char>, tools: Seq<ToolView>)
    ensures
        first_with(owner, slug, tools) matches Some(tool) ==> tools.contains(tool) && tool.user_id == owner
            && tool.slug == slug,
        first_with(owner, slug, tools) is None ==> forall|i: int|
            0 <= i < tools.len() ==> !((#[trigger] tools[i]).user_id == owner && tools[i].slug == slug),
    decreases tools.len(),
{
    if tools.len() > 0 {
        if tools[0].user_id == owner && tools[0].slug == slug {
            assert(tools.contains(tools[0]));
        } else {
            let rest = tools.drop_first();
            lemma_first_with(owner, slug, rest);
            if let Some(tool) = first_with(owner, slug, rest) {
                let k = choose|k: int| 0 <= k < rest.len() && rest[k] == tool;
                assert(tools[k + 1] == tool);
            } else {
                assert forall|i: int| 0 <= i < tools.len() implies !((#[trigger] tools[i]).user_id == owner
                    && tools[i].slug == slug) by {
                    if i > 0 {
                        assert(rest[i - 1] == tools[i]);
                    }
                }
            }
        }
    }
}

/// A call reaches the caller's own tool or the system's, never someone else's, and the caller's own goes first.
pub proof fn law_a_call_reaches_the_callers_own_tool_first(
    caller: Option<u128>,
    slug: Seq<char>,
    tools: Seq<ToolView>,
)
    ensures
        found_of(caller, slug, tools) matches Some(tool) ==> tools.contains(tool) && tool.slug == slug && (
        tool.user_id is None || tool.user_id == caller),
        (caller is Some && exists|i: int|
            0 <= i < tools.len() && (#[trigger] tools[i]).user_id == caller && tools[i].slug == slug) ==> (
        found_of(caller, slug, tools) matches Some(tool) && tool.user_id == caller),
{
    lemma_first_with(caller, slug, tools);
    lemma_first_with(None, slug, tools);
}

/// A catalog shows every active tool of the system and of whoever asks, and nothing else: no draft, and nothing of
/// another user.
pub proof fn law_a_catalog_hides_other_users_tools(viewer: Option<u128>, tools: Seq<ToolView>, tool: ToolView)
    ensures
        listed_of(viewer, tools).contains(tool) <==> tools.contains(tool) && is_listed(viewer, tool),
    decreases tools.len(),
{
    if tools.len() > 0 {
        let earlier = tools.drop_last();
        law_a_catalog_hides_other_users_tools(viewer, earlier, tool);
        assert(tools.contains(tool) <==> earlier.contains(tool) || tools.last() == tool) by {
            if tools.contains(tool) {
                let k = choose|k: int| 0 <= k < tools.len() && tools[k] == tool;
                if k < earlier.len() {
                    assert(earlier[k] == tool);
                }
            }
            if earlier.contains(tool) {
                let k = choose|k: int| 0 <= k < earlier.len() && earlier[k] == tool;
                assert(tools[k] == tool);
            }
        }
        if is_listed(viewer, tools.last()) {
            let before = listed_of(viewer, earlier);
            let after = before.push(tools.last());
            assert(after[before.len() as int] == tools.last());
            assert(after.contains(tool) <==> before.contains(tool) || tools.last() == tool) by {
                if before.contains(tool) {
                    let k = choose|k: int| 0 <= k < before.len() && before[k] == tool;
                    assert(after[k] == tool);
                }
                if after.contains(tool) {
                    let k = choose|k: int| 0 <= k < after.len() && after[k] == tool;
                    if k < before.len() {
                        assert(before[k] == tool);
                    }
                }
            }
        }
    }
}

/// Nobody's tool goes into circulation unreviewed: a new tool is a draft, and only a tool that passed its review is
/// activated.
pub proof fn law_a_tool_is_reviewed_before_it_is_active(
    user_id: Option<u128>,
    new_tool: NewToolView,
    tool: ToolView,
)
    ensures
        created_of(user_id, new_tool) matches Ok(row) ==> row.status == Status::Draft && activated_of(row)
            is Err,
        activated_of(tool) is Ok <==> tool.status == Status::Validated,
        user_id is Some && is_reserved(new_tool.slug) ==> created_of(user_id, new_tool) is Err,
{
}

/// A definition that is registered asks for a timeout that is kept as it is.
pub proof fn law_a_registered_timeout_is_kept(tool: NewToolView)
    requires
        definition_fault(tool) is None,
    ensures
        timeout_of(tool.timeout_seconds) == tool.timeout_seconds,
{
}

/// A definition is registered exactly where its texts are there and short enough, its schemas are objects and its time
/// is within the bounds.
pub proof fn law_what_a_definition_has_to_be(tool: NewToolView)
    ensures
        definition_fault(tool) is None <==> {
            &&& trimmed(tool.slug).len() > 0
            &&& tool.slug.len() <= 64
            &&& trimmed(tool.name).len() > 0
            &&& tool.name.len() <= 128
            &&& trimmed(tool.description).len() > 0
            &&& tool.description.len() <= 8_192
            &&& tool.input_schema is Object
            &&& tool.output_schema is Object
            &&& 1 <= tool.timeout_seconds <= 300
        },
{
}

/// The first fault of a definition is told by the name of its own field.
pub proof fn law_a_fault_names_its_own_field(tool: NewToolView)
    ensures
        trimmed(tool.slug).len() == 0 ==> definition_fault(tool) == Some("slug"@ + " is required"@),
        text_fault("slug"@, tool.slug, 64) is None && trimmed(tool.name).len() == 0 ==> definition_fault(tool)
            == Some("name"@ + " is required"@),
        text_fault("slug"@, tool.slug, 64) is None && text_fault("name"@, tool.name, 128) is None && trimmed(
            tool.description,
        ).len() == 0 ==> definition_fault(tool) == Some("description"@ + " is required"@),
        trimmed(tool.slug).len() > 0 && tool.slug.len() > 64 ==> definition_fault(tool) == Some(
            "slug"@ + " is "@ + dec(tool.slug.len()) + " characters, the maximum is "@ + dec(64),
        ),
{
}

/// A row that is stored for a new tool says what the definition says, each part in its own field, and belongs to whoever
/// registered it.
pub proof fn law_a_new_row_says_what_was_defined(user_id: Option<u128>, tool: NewToolView)
    ensures
        created_of(user_id, tool) matches Ok(row) ==> {
            &&& row.user_id == user_id
            &&& row.slug == tool.slug
            &&& row.name == tool.name
            &&& row.description == tool.description
            &&& row.input_schema == tool.input_schema
            &&& row.output_schema == tool.output_schema
            &&& row.risk == tool.risk
            &&& row.timeout_seconds == tool.timeout_seconds
            &&& row.status == Status::Draft
            &&& row.connection_id is None
            &&& row.sources is None
        },
        created_of(user_id, tool) is Err <==> user_id is Some && is_reserved(tool.slug),
        created_of(user_id, tool) matches Err(error) ==> error == ToolErrorView::InvalidRequest(
            "slug "@ + quoted(tool.slug) + " is reserved for a system tool"@,
        ),
{
}

/// A tool is handed to whoever asks for it by its own identifier and owns it, unchanged; to anyone else it is as if it
/// were not there.
pub proof fn law_only_the_owner_gets_a_tool(tool_id: i64, user_id: u128, tool: ToolView)
    ensures
        tool.id == tool_id && tool.user_id == Some(user_id) ==> owned_of(tool_id, user_id, Some(tool)) == Ok::<
            ToolView,
            ToolErrorView,
        >(tool),
        tool.id != tool_id || tool.user_id != Some(user_id) ==> owned_of(tool_id, user_id, Some(tool)) == Err::<
            ToolView,
            ToolErrorView,
        >(ToolErrorView::NotFound(tool_id)),
        owned_of(tool_id, user_id, None) == Err::<ToolView, ToolErrorView>(ToolErrorView::NotFound(tool_id)),
        activated_of(tool) matches Ok(status) ==> status == Status::Active,
        activated_of(tool) matches Err(error) ==> error == ToolErrorView::InvalidRequest(
            "tool "@ + dec_signed(tool.id as int) + " is not Validated"@,
        ),
{
}

/// A tool is found by its owner and its slug: the first of the caller's own, or else the first of the system's.
pub proof fn law_a_tool_is_found_by_owner_and_slug(
    caller: Option<u128>,
    slug: Seq<char>,
    tools: Seq<ToolView>,
    i: int,
)
    requires
        0 <= i < tools.len(),
        tools[i].slug == slug,
        forall|k: int| 0 <= k < i ==> !((#[trigger] tools[k]).user_id == tools[i].user_id && tools[k].slug == slug),
    ensures
        tools[i].user_id == caller ==> found_of(caller, slug, tools) == Some(tools[i]),
        tools[i].user_id is None && (forall|k: int|
            0 <= k < tools.len() ==> !((#[trigger] tools[k]).user_id == caller && tools[k].slug == slug))
            ==> found_of(caller, slug, tools) == Some(tools[i]),
{
    lemma_first_with_is_first(tools[i].user_id, slug, tools, i);
    lemma_first_with(caller, slug, tools);
}

proof fn lemma_first_with_is_first(owner: Option<u128>, slug: Seq<char>, tools: Seq<ToolView>, i: int)
    requires
        0 <= i < tools.len(),
        tools[i].user_id == owner,
        tools[i].slug == slug,
        forall|k: int| 0 <= k < i ==> !((#[trigger] tools[k]).user_id == owner && tools[k].slug == slug),
    ensures
        first_with(owner, slug, tools) == Some(tools[i]),
    decreases i,
{
    if i > 0 {
        let rest = tools.drop_first();
        assert forall|k: int| 0 <= k < i - 1 implies !((#[trigger] rest[k]).user_id == owner && rest[k].slug
            == slug) by {
            assert(rest[k] == tools[k + 1]);
        }
        lemma_first_with_is_first(owner, slug, rest, i - 1);
    }
}

/// A catalog keeps the order of the registry: what is listed of a longer registry is what was listed of the shorter one
/// and, behind it, the tool that came last where it is listed.
pub proof fn law_a_catalog_keeps_the_order(viewer: Option<u128>, tools: Seq<ToolView>, tool: ToolView)
    ensures
        tool.status == Status::Active && (tool.user_id is None || tool.user_id == viewer) ==> listed_of(
            viewer,
            tools.push(tool),
        ) == listed_of(viewer, tools).push(tool),
        !(tool.status == Status::Active && (tool.user_id is None || tool.user_id == viewer)) ==> listed_of(
            viewer,
            tools.push(tool),
        ) == listed_of(viewer, tools),
        listed_of(viewer, seq![]).len() == 0,
{
    assert(tools.push(tool).drop_last() =~= tools);
}

/// A tool runs for as long as it asks for, and for no less than one second and no more than five minutes.
pub proof fn law_a_tool_runs_for_as_long_as_it_asks(timeout_seconds: i32)
    ensures
        1 <= timeout_seconds <= 300 ==> timeout_of(timeout_seconds) == timeout_seconds,
        timeout_seconds < 1 ==> timeout_of(timeout_seconds) == 1,
        timeout_seconds > 300 ==> timeout_of(timeout_seconds) == 300,
{
}

/// Each slug of the service's own runs its own tool.
pub proof fn law_each_slug_runs_its_own_tool(slug: Seq<char>)
    ensures
        built_in(slug) == Some(BuiltIn::WebSearch) <==> slug == "web_search"@,
        built_in(slug) == Some(BuiltIn::WebFetch) <==> slug == "web_fetch"@,
        built_in(slug) == Some(BuiltIn::KbSearch) <==> slug == "kb_search"@,
        built_in(slug) == Some(BuiltIn::KbReadDocument) <==> slug == "kb_read_document"@,
{
    reveal_strlit("web_search");
    reveal_strlit("web_fetch");
    reveal_strlit("kb_search");
    reveal_strlit("kb_read_document");
    assert("web_search"@.len() == 10 && "web_fetch"@.len() == 9 && "kb_search"@.len() == 9
        && "kb_read_document"@.len() == 16);
    assert("web_fetch"@[0] != "kb_search"@[0]);
}

/// What runs gets the caller's own input and the tool's own time. A tool that declares sources is run from those, by its
/// own schema; one that does not is run by the service where its slug is one of the service's.
pub proof fn law_a_call_runs_the_tool_that_was_found(tool: ToolView, slug: Seq<char>, input: JsonView)
    requires
        tool.risk == Risk::ReadOnly,
    ensures
        tool.sources matches Some(declared) ==> (call_of(Some(tool), slug, Ok(input)) matches Ok(
            CallView::Declarative { sources, input_schema, input: given, timeout },
        ) && sources == declared && input_schema == tool.input_schema && given == input && timeout
            == timeout_of(tool.timeout_seconds)),
        tool.sources is None ==> (built_in(slug) matches Some(own) ==> (call_of(
            Some(tool),
            slug,
            Ok(input),
        ) matches Ok(CallView::System { tool: run, input: given, timeout }) && run == own && given == input
            && timeout == timeout_of(tool.timeout_seconds))),
        tool.sources is None && built_in(slug) is None ==> call_of(Some(tool), slug, Ok(input)) == Ok::<
            CallView,
            ToolErrorView,
        >(
            CallView::Done(
                ExecuteOutcomeView::NotExecutable(
                    "tool "@ + quoted(slug)
                        + " has no runnable implementation yet — user-created tools need Integrations Service"@,
                ),
            ),
        ),
{
}

/// What is answered where nothing runs: no tool, a tool that needs approval, or an input that is no JSON.
pub proof fn law_what_is_answered_where_nothing_runs(
    tool: ToolView,
    slug: Seq<char>,
    input: Result<JsonView, Seq<char>>,
)
    ensures
        call_of(None, slug, input) == Ok::<CallView, ToolErrorView>(
            CallView::Done(ExecuteOutcomeView::Error("no tool with slug "@ + quoted(slug))),
        ),
        tool.risk != Risk::ReadOnly ==> call_of(Some(tool), slug, input) == Ok::<CallView, ToolErrorView>(
            CallView::Done(ExecuteOutcomeView::RequiresApproval),
        ),
        tool.risk == Risk::ReadOnly ==> (input matches Err(error) ==> call_of(Some(tool), slug, input) == Err::<
            CallView,
            ToolErrorView,
        >(ToolErrorView::InvalidRequest(error))),
{
}

/// A search asks for the caller's own query and as many results as they want, five where they do not say.
pub proof fn law_a_search_asks_what_was_asked(query: Seq<char>, limit: Option<u8>, problem: Seq<char>)
    ensures
        limit is None ==> search_of(Ok((query, limit))) == Ok::<(Seq<char>, u8), ExecuteOutcomeView>((query, 5u8)),
        limit matches Some(n) ==> (1 <= n <= 20 ==> search_of(Ok((query, limit))) == Ok::<
            (Seq<char>, u8),
            ExecuteOutcomeView,
        >((query, n))),
        limit matches Some(n) ==> (!(1 <= n <= 20) ==> (search_of(Ok((query, limit))) matches Err(
            ExecuteOutcomeView::Error(_),
        ))),
        search_of(Err(problem)) == Err::<(Seq<char>, u8), ExecuteOutcomeView>(
            ExecuteOutcomeView::Error(problem),
        ),
{
}

/// A fetch asks for every URL that was named, in order: the candidates where there are some, or else the one.
pub proof fn law_a_fetch_asks_for_what_was_named(
    url: Option<Seq<char>>,
    urls: Option<Seq<Seq<char>>>,
    problem: Seq<char>,
)
    ensures
        urls matches Some(named) ==> (0 < named.len() <= 5 ==> fetch_of(Ok((url, urls))) == Ok::<
            Seq<Seq<char>>,
            ExecuteOutcomeView,
        >(named)),
        urls is None ==> (url matches Some(one) ==> fetch_of(Ok((url, urls))) == Ok::<
            Seq<Seq<char>>,
            ExecuteOutcomeView,
        >(seq![one])),
        urls matches Some(named) ==> (named.len() == 0 || named.len() > 5 ==> (fetch_of(
            Ok((url, urls)),
        ) matches Err(ExecuteOutcomeView::Error(_)))),
        urls is None && url is None ==> fetch_of(Ok((url, urls))) == Err::<Seq<Seq<char>>, ExecuteOutcomeView>(
            ExecuteOutcomeView::Error("url is required"@),
        ),
        fetch_of(Err(problem)) == Err::<Seq<Seq<char>>, ExecuteOutcomeView>(
            ExecuteOutcomeView::Error(problem),
        ),
{
}

/// What a run came to is what the call comes to: its value as the output, its message as the error.
pub proof fn law_a_run_is_answered_as_it_came_out(value: JsonView, message: Seq<char>)
    ensures
        finished_of(Ok(value)) == ExecuteOutcomeView::Output(value),
        finished_of(Err(message)) == ExecuteOutcomeView::Error(message),
{
}

/// A URL that is refused stops a fetch, and it is the first refusal that is told.
pub proof fn law_the_first_refusal_is_told(guards: Seq<Option<Seq<char>>>)
    ensures
        first_refusal(guards) is None <==> forall|i: int|
            0 <= i < guards.len() ==> (#[trigger] guards[i]) is None,
        first_refusal(guards) matches Some(reason) ==> exists|i: int|
            0 <= i < guards.len() && #[trigger] guards[i] == Some(reason) && forall|k: int|
                0 <= k < i ==> (#[trigger] guards[k]) is None,
    decreases guards.len(),
{
    if guards.len() > 0 {
        let rest = guards.drop_first();
        law_the_first_refusal_is_told(rest);
        assert(forall|i: int| 0 <= i < rest.len() ==> #[trigger] rest[i] == guards[i + 1]);
        if guards[0] is None {
            if let Some(reason) = first_refusal(rest) {
                let i = choose|i: int|
                    0 <= i < rest.len() && #[trigger] rest[i] == Some(reason) && forall|k: int|
                        0 <= k < i ==> (#[trigger] rest[k]) is None;
                assert(guards[i + 1] == Some(reason));
                assert forall|k: int| 0 <= k < i + 1 implies (#[trigger] guards[k]) is None by {
                    if k > 0 {
                        assert(guards[k] == rest[k - 1]);
                    }
                }
            } else {
                assert forall|k: int| 0 <= k < guards.len() implies (#[trigger] guards[k]) is None by {
                    if k > 0 {
                        assert(guards[k] == rest[k - 1]);
                    }
                }
            }
        } else {
            assert(guards[0] == first_refusal(guards));
        }
    }
}

/// The arguments of a search and of a fetch are handed on as they were read.
pub proof fn law_arguments_are_handed_on_as_they_were_read(search: Search, fetch: Fetch, problem: String)
    ensures
        search_args(Ok(search)) == Ok::<(Seq<char>, Option<u8>), Seq<char>>((search.query@, search.limit)),
        search_args(Err(problem)) == Err::<(Seq<char>, Option<u8>), Seq<char>>(problem@),
        fetch_args(Ok(fetch)) == Ok::<(Option<Seq<char>>, Option<Seq<Seq<char>>>), Seq<char>>(
            (fetch.url.deep_view(), fetch.urls.deep_view()),
        ),
        fetch_args(Err(problem)) == Err::<(Option<Seq<char>>, Option<Seq<Seq<char>>>), Seq<char>>(problem@),
{
}

/// What is told of schemas that are no objects, and of a time out of its bounds.
pub proof fn law_what_is_told_of_schemas_and_times(tool: NewToolView)
    requires
        text_fault("slug"@, tool.slug, 64) is None,
        text_fault("name"@, tool.name, 128) is None,
        text_fault("description"@, tool.description, 8_192) is None,
    ensures
        tool.input_schema !is Object || tool.output_schema !is Object ==> definition_fault(tool) == Some(
            "input_schema and output_schema must be JSON objects"@,
        ),
        tool.input_schema is Object && tool.output_schema is Object && !(1 <= tool.timeout_seconds <= 300)
            ==> definition_fault(tool) == Some(
            "timeout_seconds must be between "@ + dec_signed(1) + " and "@ + dec_signed(300) + (", got "@
                + dec_signed(tool.timeout_seconds as int)),
        ),
{
}

} // verus!
