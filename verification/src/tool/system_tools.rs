//! The tools that the service provides itself, and how they get into the registry. They are vetted when they are
//! written, so they skip the review that a user's tool goes through.

use vstd::prelude::*;

use crate::json::{entry_views, group_json_views, law_a_value_is_the_same_as_itself, same_value, Json, JsonView};
use crate::text::same;
use crate::tool::entity::{Risk, Status, Tool, ToolView};
use crate::tool::error::{ToolError, ToolErrorView};
use crate::tool::service::{definition_fault, NewTool, NewToolView};
use crate::tool::slugs::{KB_READ_DOCUMENT, KB_SEARCH, WEB_FETCH, WEB_SEARCH};

verus! {

broadcast use group_json_views;

/// How long one of the service's own tools may run, in seconds.
pub const SYSTEM_TOOL_TIMEOUT_SECONDS: i32 = 30;

/// A tool as the service declares it.
#[derive(Debug, PartialEq, Eq)]
pub struct SystemTool {
    pub slug: String,
    pub name: String,
    pub description: String,
    pub risk: Risk,
    pub input_schema: Json,
}

#[verifier::ext_equal]
pub struct SystemToolView {
    pub slug: Seq<char>,
    pub name: Seq<char>,
    pub description: Seq<char>,
    pub risk: Risk,
    pub input_schema: JsonView,
}

impl DeepView for SystemTool {
    type V = SystemToolView;

    open spec fn deep_view(&self) -> SystemToolView {
        SystemToolView {
            slug: self.slug@,
            name: self.name@,
            description: self.description@,
            risk: self.risk,
            input_schema: self.input_schema.deep_view(),
        }
    }
}

pub open spec fn declared(slug: Seq<char>, name: Seq<char>, description: Seq<char>, input_schema: JsonView) -> SystemToolView {
    SystemToolView { slug, name, description, risk: Risk::ReadOnly, input_schema }
}

/// Every tool of the service's own, given the schemas of what a search, a fetch and a document take.
pub open spec fn definitions_of(search: JsonView, fetch: JsonView, read_document: JsonView) -> Seq<SystemToolView> {
    seq![
        declared(
            WEB_SEARCH@,
            "Web search"@,
            "Searches the public web and returns matching pages with a title, URL and snippet."@,
            search,
        ),
        declared(
            WEB_FETCH@,
            "Fetch a web page"@,
            "Fetches a page and returns its readable title and text. Pass several urls to fetch candidates at once and get whichever answers first — do that when several pages would each answer the question and you cannot tell which will respond."@,
            fetch,
        ),
        declared(
            KB_SEARCH@,
            "Knowledge base search"@,
            "Searches this project's knowledge base."@,
            search,
        ),
        declared(
            KB_READ_DOCUMENT@,
            "Read a knowledge base document"@,
            "Reads the full text of one knowledge base document, identified by the source and source_id a knowledge base search result carries."@,
            read_document,
        ),
    ]
}

fn declare(slug: &str, name: &str, description: &str, input_schema: Json) -> (tool: SystemTool)
    ensures
        tool.deep_view() == declared(slug@, name@, description@, input_schema.deep_view()),
{
    SystemTool {
        slug: slug.to_owned(),
        name: name.to_owned(),
        description: description.to_owned(),
        risk: Risk::ReadOnly,
        input_schema,
    }
}

pub fn system_tool_definitions(search: &Json, fetch: &Json, read_document: &Json) -> (tools: Vec<SystemTool>)
    ensures
        tools.deep_view() == definitions_of(
            search.deep_view(),
            fetch.deep_view(),
            read_document.deep_view(),
        ),
{
    let tools: Vec<SystemTool> = vec![
        declare(
            WEB_SEARCH,
            "Web search",
            "Searches the public web and returns matching pages with a title, URL and snippet.",
            search.copy(),
        ),
        declare(
            WEB_FETCH,
            "Fetch a web page",
            "Fetches a page and returns its readable title and text. Pass several urls to fetch candidates at once and get whichever answers first — do that when several pages would each answer the question and you cannot tell which will respond.",
            fetch.copy(),
        ),
        declare(
            KB_SEARCH,
            "Knowledge base search",
            "Searches this project's knowledge base.",
            search.copy(),
        ),
        declare(
            KB_READ_DOCUMENT,
            "Read a knowledge base document",
            "Reads the full text of one knowledge base document, identified by the source and source_id a knowledge base search result carries.",
            read_document.copy(),
        ),
    ];
    assert(tools.deep_view() =~= definitions_of(
        search.deep_view(),
        fetch.deep_view(),
        read_document.deep_view(),
    ));
    tools
}

/// A row is in circulation and says what its declaration says.
pub open spec fn is_seeded(row: ToolView, definition: SystemToolView) -> bool {
    &&& row.status == Status::Active
    &&& row.name == definition.name
    &&& row.description == definition.description
    &&& same_value(row.input_schema, definition.input_schema)
}

/// Nothing is left to do for a tool whose row is there and up to date.
pub fn seeding_already_finished(existing: Option<&Tool>, definition: &SystemTool) -> (finished: bool)
    ensures
        finished == (existing is Some && is_seeded(existing->Some_0.deep_view(), definition.deep_view())),
{
    match existing {
        None => false,
        Some(row) => {
            let active: bool = match row.status {
                Status::Active => true,
                Status::Draft | Status::Validated => false,
            };
            active && same(row.name.as_str(), definition.name.as_str()) && same(
                row.description.as_str(),
                definition.description.as_str(),
            ) && row.input_schema.equals(&definition.input_schema)
        },
    }
}

/// The schema of what a tool returns where nothing more is said: any object.
pub open spec fn any_object() -> JsonView {
    JsonView::Object(seq![("type"@, JsonView::Text("object"@))])
}

pub fn any_object_schema() -> (schema: Json)
    ensures
        schema.deep_view() == any_object(),
{
    let entries: Vec<(String, Json)> = vec![("type".to_owned(), Json::Text("object".to_owned()))];
    assert(entry_views(entries@) =~= seq![("type"@, JsonView::Text("object"@))]);
    Json::Object(entries)
}

/// What a declaration registers.
pub open spec fn registered(definition: SystemToolView) -> NewToolView {
    NewToolView {
        slug: definition.slug,
        name: definition.name,
        description: definition.description,
        input_schema: definition.input_schema,
        output_schema: any_object(),
        risk: definition.risk,
        timeout_seconds: SYSTEM_TOOL_TIMEOUT_SECONDS,
    }
}

/// The tool to register for a declaration that has no row yet.
pub fn system_new_tool(definition: &SystemTool) -> (tool: Result<NewTool, ToolError>)
    ensures
        (match tool {
            Ok(tool) => definition_fault(registered(definition.deep_view())) is None && tool.deep_view()
                == registered(definition.deep_view()),
            Err(error) => definition_fault(registered(definition.deep_view())) matches Some(reason)
                && error.deep_view() == ToolErrorView::InvalidRequest(reason),
        }),
{
    NewTool::checked(
        definition.slug.clone(),
        definition.name.clone(),
        definition.description.clone(),
        definition.input_schema.copy(),
        any_object_schema(),
        definition.risk,
        SYSTEM_TOOL_TIMEOUT_SECONDS,
    )
}

/// A row brought up to its declaration and put into circulation.
pub open spec fn refreshed(row: ToolView, definition: SystemToolView) -> ToolView {
    ToolView {
        status: Status::Active,
        name: definition.name,
        description: definition.description,
        input_schema: definition.input_schema,
        ..row
    }
}

/// Puts one of the service's own tools into circulation, with no review.
pub fn activate_without_llm_review(row: Tool, definition: &SystemTool) -> (active: Tool)
    ensures
        active.deep_view() == refreshed(row.deep_view(), definition.deep_view()),
{
    Tool {
        status: Status::Active,
        name: definition.name.clone(),
        description: definition.description.clone(),
        input_schema: definition.input_schema.copy(),
        ..row
    }
}

/// Seeding is done once: a row that was brought up to its declaration is left alone from then on.
pub proof fn law_seeding_is_done_once(row: ToolView, definition: SystemToolView)
    ensures
        is_seeded(refreshed(row, definition), definition),
        is_seeded(row, definition) ==> refreshed(row, definition).status == row.status && refreshed(
            row,
            definition,
        ).name == row.name && refreshed(row, definition).description == row.description,
        refreshed(row, definition).user_id == row.user_id,
        refreshed(row, definition).slug == row.slug,
        refreshed(row, definition).risk == row.risk,
{
    law_a_value_is_the_same_as_itself(definition.input_schema);
}

/// Every tool that the service declares only reads.
pub proof fn law_every_system_tool_is_read_only(search: JsonView, fetch: JsonView, read_document: JsonView, i: int)
    requires
        0 <= i < definitions_of(search, fetch, read_document).len(),
    ensures
        definitions_of(search, fetch, read_document)[i].risk == Risk::ReadOnly,
        crate::tool::slugs::is_reserved(definitions_of(search, fetch, read_document)[i].slug),
        crate::tool::service::built_in(definitions_of(search, fetch, read_document)[i].slug) is Some,
{
}

/// What the service declares: each tool under its own slug, with the schema of its own arguments.
pub proof fn law_what_the_service_declares(search: JsonView, fetch: JsonView, read_document: JsonView)
    ensures
        ({
            let tools = definitions_of(search, fetch, read_document);
            &&& tools.len() == 4
            &&& tools[0].slug == "web_search"@
            &&& tools[0].input_schema == search
            &&& tools[0].name == "Web search"@
            &&& tools[1].slug == "web_fetch"@
            &&& tools[1].input_schema == fetch
            &&& tools[1].name == "Fetch a web page"@
            &&& tools[2].slug == "kb_search"@
            &&& tools[2].input_schema == search
            &&& tools[2].name == "Knowledge base search"@
            &&& tools[3].slug == "kb_read_document"@
            &&& tools[3].input_schema == read_document
            &&& tools[3].name == "Read a knowledge base document"@
            &&& tools[0].description
                == "Searches the public web and returns matching pages with a title, URL and snippet."@
            &&& tools[2].description == "Searches this project's knowledge base."@
        }),
{
}

/// A declaration registers what it says, each part in its own field, and a row that is brought up to it says the same;
/// everything else of the row stays.
pub proof fn law_a_declaration_registers_what_it_says(definition: SystemToolView, row: ToolView)
    ensures
        registered(definition).slug == definition.slug,
        registered(definition).name == definition.name,
        registered(definition).description == definition.description,
        registered(definition).input_schema == definition.input_schema,
        registered(definition).risk == definition.risk,
        registered(definition).timeout_seconds == 30,
        registered(definition).output_schema.at("type"@) == JsonView::Text("object"@),
        refreshed(row, definition).name == definition.name,
        refreshed(row, definition).description == definition.description,
        refreshed(row, definition).input_schema == definition.input_schema,
        refreshed(row, definition).status == Status::Active,
        refreshed(row, definition).id == row.id,
        refreshed(row, definition).output_schema == row.output_schema,
        refreshed(row, definition).timeout_seconds == row.timeout_seconds,
        refreshed(row, definition).connection_id == row.connection_id,
        refreshed(row, definition).sources == row.sources,
{
    crate::json::lemma_holds(any_object()->Object_0, 0);
}

/// A row is left alone exactly where it is in circulation and says what its declaration says.
pub proof fn law_a_row_is_left_alone_where_it_is_up_to_date(row: ToolView, definition: SystemToolView)
    ensures
        is_seeded(row, definition) ==> row.status == Status::Active && row.name == definition.name
            && row.description == definition.description,
        row.status == Status::Active && row.name == definition.name && row.description
            == definition.description && row.input_schema == definition.input_schema ==> is_seeded(
            row,
            definition,
        ),
        row.status != Status::Active || row.name != definition.name || row.description
            != definition.description ==> !is_seeded(row, definition),
{
    law_a_value_is_the_same_as_itself(definition.input_schema);
}

/// The view of a declaration shows each of its parts under that part's own name.
pub proof fn law_the_view_of_a_system_tool_is_its_own(system_tool: SystemTool)
    ensures
        system_tool.deep_view().slug == system_tool.slug@,
        system_tool.deep_view().name == system_tool.name@,
        system_tool.deep_view().description == system_tool.description@,
        system_tool.deep_view().risk == system_tool.risk,
        system_tool.deep_view().input_schema == system_tool.input_schema.deep_view(),
{
}

/// How the service describes what reads a page and what reads a document.
pub proof fn law_how_reading_is_described(search: JsonView, fetch: JsonView, read_document: JsonView)
    ensures
        definitions_of(search, fetch, read_document)[1].description
            == "Fetches a page and returns its readable title and text. Pass several urls to fetch candidates at once and get whichever answers first — do that when several pages would each answer the question and you cannot tell which will respond."@,
        definitions_of(search, fetch, read_document)[3].description
            == "Reads the full text of one knowledge base document, identified by the source and source_id a knowledge base search result carries."@,
{
}

} // verus!
