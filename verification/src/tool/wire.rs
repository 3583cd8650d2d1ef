//! What callers send to the tool service and what they get back.

use vstd::prelude::*;

use crate::collect::{keep, outcome};
use crate::json::{compact_text, json_parsed, json_text, parse, Json, JsonView};
use crate::rpc::{invalid, ErrorCode, RpcError, RpcErrorView};
use crate::text::{cat2, dec_signed, decimal_signed, parse_i64, parsed_signed};
use crate::tool::entity::{Risk, Status, Tool, ToolView};
use crate::tool::error::{seen, ToolErrorView};
use crate::tool::service::{
    create_tool, created_of, definition_fault, ExecuteOutcome, ExecuteOutcomeView, NewTool, NewToolView,
};

verus! {

/// The tool a caller wants to register. A risk that is not one of the three is absent, and shown as it was sent.
#[derive(Debug, PartialEq, Eq)]
pub struct CreateToolRequest {
    pub slug: String,
    pub name: String,
    pub description: String,
    pub input_schema_json: String,
    pub output_schema_json: String,
    pub risk: Option<Risk>,
    pub risk_shown: String,
    pub timeout_seconds: i32,
}

#[verifier::ext_equal]
pub struct CreateToolRequestView {
    pub slug: Seq<char>,
    pub name: Seq<char>,
    pub description: Seq<char>,
    pub input_schema_json: Seq<char>,
    pub output_schema_json: Seq<char>,
    pub risk: Option<Risk>,
    pub risk_shown: Seq<char>,
    pub timeout_seconds: i32,
}

pub open spec fn create_view(request: CreateToolRequest) -> CreateToolRequestView {
    CreateToolRequestView {
        slug: request.slug@,
        name: request.name@,
        description: request.description@,
        input_schema_json: request.input_schema_json@,
        output_schema_json: request.output_schema_json@,
        risk: request.risk,
        risk_shown: request.risk_shown@,
        timeout_seconds: request.timeout_seconds,
    }
}

/// A risk as a caller may name it.
pub open spec fn risk_of(risk: Option<Risk>, shown: Seq<char>) -> Result<Risk, RpcErrorView> {
    match risk {
        Some(risk) => Ok(risk),
        None => Err(invalid("risk must be one of READ_ONLY, WRITE, DESTRUCTIVE, got "@ + shown)),
    }
}

pub fn risk_from_proto(risk: Option<Risk>, shown: &str) -> (known: Result<Risk, RpcError>)
    ensures
        outcome(known) == risk_of(risk, shown@),
{
    match risk {
        Some(risk) => Ok(risk),
        None => Err(
            RpcError::invalid_argument(
                cat2("risk must be one of READ_ONLY, WRITE, DESTRUCTIVE, got ", shown),
            ),
        ),
    }
}

/// What is told to a caller who did not say who they are.
pub open spec fn nobody(method: Seq<char>) -> RpcErrorView {
    invalid(method + " needs a Principal in the request metadata"@)
}

/// The row to store for a request, its schemas read already. The faults come in this order: who asks, either schema,
/// the risk, the definition, the slug.
pub open spec fn creation_of(
    principal: Option<u128>,
    request: CreateToolRequestView,
    input: Result<JsonView, Seq<char>>,
    output: Result<JsonView, Seq<char>>,
) -> Result<ToolView, RpcErrorView> {
    if principal is None {
        Err(nobody("CreateTool"@))
    } else if input is Err {
        Err(invalid(input->Err_0))
    } else if output is Err {
        Err(invalid(output->Err_0))
    } else {
        match risk_of(request.risk, request.risk_shown) {
            Err(error) => Err(error),
            Ok(risk) => {
                let tool = NewToolView {
                    slug: request.slug,
                    name: request.name,
                    description: request.description,
                    input_schema: input->Ok_0,
                    output_schema: output->Ok_0,
                    risk,
                    timeout_seconds: request.timeout_seconds,
                };
                match definition_fault(tool) {
                    Some(reason) => Err(seen(ToolErrorView::InvalidRequest(reason))),
                    None => match created_of(principal, tool) {
                        Ok(row) => Ok(row),
                        Err(error) => Err(seen(error)),
                    },
                }
            },
        }
    }
}

/// The row to store for a request whose schemas were read.
pub fn create_with(
    principal: Option<u128>,
    request: CreateToolRequest,
    input: Result<Json, String>,
    output: Result<Json, String>,
) -> (row: Result<Tool, RpcError>)
    ensures
        outcome(row) == creation_of(principal, create_view(request), outcome(input), outcome(output)),
{
    if principal.is_none() {
        return Err(
            RpcError::invalid_argument(
                cat2("CreateTool", " needs a Principal in the request metadata"),
            ),
        );
    }
    let input: Json = match input {
        Ok(input) => input,
        Err(error) => {
            return Err(RpcError::invalid_argument(error));
        },
    };
    let output: Json = match output {
        Ok(output) => output,
        Err(error) => {
            return Err(RpcError::invalid_argument(error));
        },
    };
    let risk: Risk = risk_from_proto(request.risk, request.risk_shown.as_str())?;
    match NewTool::checked(
        request.slug,
        request.name,
        request.description,
        input,
        output,
        risk,
        request.timeout_seconds,
    ) {
        Err(error) => Err(error.to_rpc()),
        Ok(tool) => match create_tool(principal, tool) {
            Ok(row) => Ok(row),
            Err(error) => Err(error.to_rpc()),
        },
    }
}

/// The row to store for a request.
pub fn begin_create(principal: Option<u128>, request: CreateToolRequest) -> (row: Result<Tool, RpcError>)
    ensures
        outcome(row) == creation_of(
            principal,
            create_view(request),
            json_parsed(vstd::utf8::encode_utf8(request.input_schema_json@)),
            json_parsed(vstd::utf8::encode_utf8(request.output_schema_json@)),
        ),
{
    let input: Result<Json, String> = parse(request.input_schema_json.as_str().as_bytes());
    let output: Result<Json, String> = parse(request.output_schema_json.as_str().as_bytes());
    create_with(principal, request, input, output)
}

pub open spec fn address_of(principal: Option<u128>, method: Seq<char>, tool_id: Seq<char>) -> Result<
    (i64, u128),
    RpcErrorView,
> {
    match principal {
        None => Err(nobody(method)),
        Some(user_id) => match parsed_signed(tool_id) {
            Some(id) => Ok((id as i64, user_id)),
            None => Err(invalid("tool_id is not a valid id"@)),
        },
    }
}

/// The tool and the user that a request to validate or to activate a tool is about.
pub fn addressed(principal: Option<u128>, method: &str, tool_id: &str) -> (address: Result<(i64, u128), RpcError>)
    ensures
        outcome(address) == address_of(principal, method@, tool_id@),
{
    match principal {
        None => Err(
            RpcError::invalid_argument(cat2(method, " needs a Principal in the request metadata")),
        ),
        Some(user_id) => match parse_i64(tool_id) {
            Some(id) => Ok((id, user_id)),
            None => Err(RpcError::invalid_argument("tool_id is not a valid id".to_owned())),
        },
    }
}

/// A tool as the catalog shows it.
#[derive(Debug, PartialEq, Eq)]
pub struct ListedTool {
    pub id: String,
    pub slug: String,
    pub name: String,
    pub description: String,
    pub input_schema_json: String,
    pub risk: Risk,
    pub status: Status,
}

#[verifier::ext_equal]
pub struct ListedToolView {
    pub id: Seq<char>,
    pub slug: Seq<char>,
    pub name: Seq<char>,
    pub description: Seq<char>,
    pub input_schema_json: Seq<char>,
    pub risk: Risk,
    pub status: Status,
}

impl DeepView for ListedTool {
    type V = ListedToolView;

    open spec fn deep_view(&self) -> ListedToolView {
        ListedToolView {
            id: self.id@,
            slug: self.slug@,
            name: self.name@,
            description: self.description@,
            input_schema_json: self.input_schema_json@,
            risk: self.risk,
            status: self.status,
        }
    }
}

pub open spec fn shown(tool: ToolView) -> ListedToolView {
    ListedToolView {
        id: dec_signed(tool.id as int),
        slug: tool.slug,
        name: tool.name,
        description: tool.description,
        input_schema_json: json_text(tool.input_schema),
        risk: tool.risk,
        status: tool.status,
    }
}

/// Tools as the catalog shows them.
pub fn list_response(tools: &Vec<Tool>) -> (listed: Vec<ListedTool>)
    ensures
        listed.deep_view() == tools.deep_view().map_values(|tool: ToolView| shown(tool)),
{
    let ghost all = tools.deep_view().map_values(|tool: ToolView| shown(tool));
    let mut listed: Vec<ListedTool> = Vec::new();
    assert(listed.deep_view() =~= all.take(0));
    for i in 0..tools.len()
        invariant
            all == tools.deep_view().map_values(|tool: ToolView| shown(tool)),
            listed.deep_view() == all.take(i as int),
    {
        let tool: &Tool = &tools[i];
        assert(tools.deep_view()[i as int] == tool.deep_view());
        keep(
            &mut listed,
            ListedTool {
                id: decimal_signed(tool.id),
                slug: tool.slug.clone(),
                name: tool.name.clone(),
                description: tool.description.clone(),
                input_schema_json: compact_text(&tool.input_schema),
                risk: tool.risk,
                status: tool.status,
            },
        );
        assert(listed.deep_view() =~= all.take(i as int + 1));
    }
    assert(all.take(tools@.len() as int) =~= all);
    listed
}

#[derive(Clone, Copy, Debug, PartialEq, Eq, Structural)]
pub enum ExecuteStatus {
    Succeeded,
    RequiresApproval,
    NotExecutable,
    Failed,
}

/// What a call is answered: the output of a call that succeeded, or the message of one that did not.
#[derive(Debug, PartialEq, Eq)]
pub struct ExecuteResponse {
    pub status: ExecuteStatus,
    pub output_json: String,
    pub error_message: String,
}

#[verifier::ext_equal]
pub struct ExecuteResponseView {
    pub status: ExecuteStatus,
    pub output_json: Seq<char>,
    pub error_message: Seq<char>,
}

impl DeepView for ExecuteResponse {
    type V = ExecuteResponseView;

    open spec fn deep_view(&self) -> ExecuteResponseView {
        ExecuteResponseView {
            status: self.status,
            output_json: self.output_json@,
            error_message: self.error_message@,
        }
    }
}

pub open spec fn response_of(done: ExecuteOutcomeView) -> ExecuteResponseView {
    match done {
        ExecuteOutcomeView::Output(value) => ExecuteResponseView {
            status: ExecuteStatus::Succeeded,
            output_json: json_text(value),
            error_message: seq![],
        },
        ExecuteOutcomeView::RequiresApproval => ExecuteResponseView {
            status: ExecuteStatus::RequiresApproval,
            output_json: seq![],
            error_message: seq![],
        },
        ExecuteOutcomeView::NotExecutable(message) => ExecuteResponseView {
            status: ExecuteStatus::NotExecutable,
            output_json: seq![],
            error_message: message,
        },
        ExecuteOutcomeView::Error(message) => ExecuteResponseView {
            status: ExecuteStatus::Failed,
            output_json: seq![],
            error_message: message,
        },
    }
}

/// What a call is answered.
pub fn execute_response(done: ExecuteOutcome) -> (response: ExecuteResponse)
    ensures
        response.deep_view() == response_of(done.deep_view()),
{
    match done {
        ExecuteOutcome::Output(value) => ExecuteResponse {
            status: ExecuteStatus::Succeeded,
            output_json: compact_text(&value),
            error_message: String::new(),
        },
        ExecuteOutcome::RequiresApproval => ExecuteResponse {
            status: ExecuteStatus::RequiresApproval,
            output_json: String::new(),
            error_message: String::new(),
        },
        ExecuteOutcome::NotExecutable(message) => ExecuteResponse {
            status: ExecuteStatus::NotExecutable,
            output_json: String::new(),
            error_message: message,
        },
        ExecuteOutcome::Error(message) => ExecuteResponse {
            status: ExecuteStatus::Failed,
            output_json: String::new(),
            error_message: message,
        },
    }
}

/// What is stored for a request is a draft of whoever asked: nobody registers a tool for someone else, or one that is
/// in circulation at once.
pub proof fn law_a_request_creates_the_callers_own_draft(
    principal: Option<u128>,
    request: CreateToolRequestView,
    input: Result<JsonView, Seq<char>>,
    output: Result<JsonView, Seq<char>>,
)
    ensures
        creation_of(principal, request, input, output) matches Ok(row) ==> principal is Some && row.user_id
            == principal && row.status == Status::Draft && row.sources is None,
{
}

/// Every tool is shown in its own place: its identifier in decimal, and its own slug, name, description, input schema,
/// risk and status, each under its own name.
pub proof fn law_a_tool_is_shown_as_it_is_stored(tools: Seq<ToolView>, i: int)
    requires
        0 <= i < tools.len(),
    ensures
        ({
            let listed = tools.map_values(|tool: ToolView| shown(tool));
            &&& listed.len() == tools.len()
            &&& listed[i].id == dec_signed(tools[i].id as int)
            &&& listed[i].slug == tools[i].slug
            &&& listed[i].name == tools[i].name
            &&& listed[i].description == tools[i].description
            &&& listed[i].input_schema_json == json_text(tools[i].input_schema)
            &&& listed[i].risk == tools[i].risk
            &&& listed[i].status == tools[i].status
        }),
{
}

/// A tool's identifier, as it is shown, addresses that very tool, for whoever asks.
pub proof fn law_a_shown_tool_is_addressed_by_its_id(tool: ToolView, user_id: u128, method: Seq<char>)
    ensures
        address_of(Some(user_id), method, shown(tool).id) == Ok::<(i64, u128), RpcErrorView>(
            (tool.id, user_id),
        ),
        address_of(None, method, shown(tool).id) is Err,
{
    crate::text::law_a_written_number_reads_back(tool.id as int);
}

/// What is stored for a request is what the request says, each part in its own field.
pub proof fn law_a_request_is_stored_as_it_was_made(
    principal: Option<u128>,
    request: CreateToolRequestView,
    input: Result<JsonView, Seq<char>>,
    output: Result<JsonView, Seq<char>>,
)
    requires
        creation_of(principal, request, input, output) is Ok,
    ensures
        ({
            let row = creation_of(principal, request, input, output)->Ok_0;
            &&& row.slug == request.slug
            &&& row.name == request.name
            &&& row.description == request.description
            &&& input == Ok::<JsonView, Seq<char>>(row.input_schema)
            &&& output == Ok::<JsonView, Seq<char>>(row.output_schema)
            &&& request.risk == Some(row.risk)
            &&& row.timeout_seconds == request.timeout_seconds
            &&& row.user_id == principal
            &&& row.status == Status::Draft
            &&& row.sources is None
        }),
{
}

/// A request that is turned away is the caller's to change: nothing else can go wrong before the row is stored.
pub proof fn law_a_refused_request_is_the_callers_to_change(
    principal: Option<u128>,
    request: CreateToolRequestView,
    input: Result<JsonView, Seq<char>>,
    output: Result<JsonView, Seq<char>>,
)
    ensures
        creation_of(principal, request, input, output) matches Err(error) ==> error.code
            == ErrorCode::InvalidArgument,
        principal is None || input is Err || output is Err || request.risk is None ==> creation_of(
            principal,
            request,
            input,
            output,
        ) is Err,
{
}

/// What a call came to is answered as it was: the output of one that succeeded is its JSON text, the message of one
/// that did not is its own, and neither stands where the other belongs.
pub proof fn law_a_call_is_answered_as_it_came_out(done: ExecuteOutcomeView)
    ensures
        ({
            let answer = response_of(done);
            &&& done matches ExecuteOutcomeView::Output(value) ==> answer.status
                == ExecuteStatus::Succeeded && answer.output_json == json_text(value)
                && answer.error_message.len() == 0
            &&& done matches ExecuteOutcomeView::Error(message) ==> answer.status == ExecuteStatus::Failed
                && answer.error_message == message && answer.output_json.len() == 0
            &&& done matches ExecuteOutcomeView::NotExecutable(message) ==> answer.status
                == ExecuteStatus::NotExecutable && answer.error_message == message
                && answer.output_json.len() == 0
            &&& done is RequiresApproval ==> answer.status == ExecuteStatus::RequiresApproval
                && answer.output_json.len() == 0 && answer.error_message.len() == 0
        }),
{
}

/// What is told of a request that cannot be stored, in the order of its faults: nobody asks, a schema does not read, the
/// risk is none.
pub proof fn law_what_is_told_of_a_creation(
    principal: u128,
    request: CreateToolRequestView,
    input: Result<JsonView, Seq<char>>,
    output: Result<JsonView, Seq<char>>,
)
    ensures
        creation_of(None, request, input, output) == Err::<ToolView, RpcErrorView>(
            invalid("CreateTool"@ + " needs a Principal in the request metadata"@),
        ),
        input matches Err(error) ==> creation_of(Some(principal), request, input, output) == Err::<
            ToolView,
            RpcErrorView,
        >(invalid(error)),
        input is Ok ==> (output matches Err(error) ==> creation_of(Some(principal), request, input, output) == Err::<
            ToolView,
            RpcErrorView,
        >(invalid(error))),
        input is Ok && output is Ok && request.risk is None ==> creation_of(Some(principal), request, input, output)
            == Err::<ToolView, RpcErrorView>(
            invalid("risk must be one of READ_ONLY, WRITE, DESTRUCTIVE, got "@ + request.risk_shown),
        ),
{
}

/// What is told where a tool cannot be addressed.
pub proof fn law_what_is_told_of_an_address(user_id: u128, method: Seq<char>, tool_id: Seq<char>)
    ensures
        address_of(None, method, tool_id) == Err::<(i64, u128), RpcErrorView>(
            invalid(method + " needs a Principal in the request metadata"@),
        ),
        parsed_signed(tool_id) is None ==> address_of(Some(user_id), method, tool_id) == Err::<
            (i64, u128),
            RpcErrorView,
        >(invalid("tool_id is not a valid id"@)),
{
}

/// The view of a listed tool shows each of its parts under that part's own name.
pub proof fn law_the_view_of_a_listed_tool_is_its_own(listed_tool: ListedTool)
    ensures
        listed_tool.deep_view().id == listed_tool.id@,
        listed_tool.deep_view().slug == listed_tool.slug@,
        listed_tool.deep_view().name == listed_tool.name@,
        listed_tool.deep_view().description == listed_tool.description@,
        listed_tool.deep_view().input_schema_json == listed_tool.input_schema_json@,
        listed_tool.deep_view().risk == listed_tool.risk,
        listed_tool.deep_view().status == listed_tool.status,
{
}

/// The view of a response shows each of its parts under that part's own name.
pub proof fn law_the_view_of_a_execute_response_is_its_own(execute_response: ExecuteResponse)
    ensures
        execute_response.deep_view().status == execute_response.status,
        execute_response.deep_view().output_json == execute_response.output_json@,
        execute_response.deep_view().error_message == execute_response.error_message@,
{
}

/// The view of a request shows each of its parts under that part's own name.
pub proof fn law_the_view_of_a_create_request_is_its_own(request: CreateToolRequest)
    ensures
        create_view(request).slug == request.slug@,
        create_view(request).name == request.name@,
        create_view(request).description == request.description@,
        create_view(request).input_schema_json == request.input_schema_json@,
        create_view(request).output_schema_json == request.output_schema_json@,
        create_view(request).risk == request.risk,
        create_view(request).risk_shown == request.risk_shown@,
        create_view(request).timeout_seconds == request.timeout_seconds,
{
}

} // verus!
