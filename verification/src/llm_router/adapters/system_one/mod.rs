//! Adapter for any provider speaking the System One standard: one base URL, one key, one model of that class.

use vstd::prelude::*;

use crate::collect::outcome;
use crate::json::{compact_text, group_json_views, json_text, Json, JsonView};
use crate::llm_router::adapters::{error_for_status, status_error, ClientFaults};
use crate::llm_router::decision::{
    ModelCard, ModelCardView, NotDecided, NotDecidedView, Question, QuestionView, Verdict, VerdictView,
};
use crate::llm_router::provider::{CallError, CallErrorView};
use crate::text::{cat2, cat3, dec, join, joined_with, trim_end_char, trimmed_end};

pub mod answers;
pub mod body;

use answers::{card_of, model_card, read_verdict, verdict_of};

verus! {

broadcast use group_json_views;

pub const DECIDE_PATH: &'static str = "/v1/systemone";

pub const MODELS_PATH: &'static str = "/v1/models";

/// This adapter's own deadline for one call to the vendor, in milliseconds: a decision is not generated prose,
/// so it is seconds rather than the minute a completion gets.
///
/// It is the inner half of a pair with the deadline of the caller, and has to stay below it: the outer one
/// starts earlier, and when it fires first the attempt is never recorded.
pub const REQUEST_TIMEOUT: u64 = 1_500;

/// What the service still has to do after the vendor answers, in nanoseconds: decode the response, write the
/// audit row, encode the reply.
pub const ROOM_TO_RECORD_THE_ATTEMPT: u64 = 400_000_000;

/// A caller whose deadline has all but expired still gets one attempt rather than a timeout of no length, which
/// an HTTP client reads as no timeout at all. In nanoseconds.
pub const TOO_LITTLE_TIME_IS_STILL_ONE_ATTEMPT: u64 = 100_000_000;

/// How long a call may take, in nanoseconds: what is left of the caller's deadline, less the room to record the
/// attempt, no more than the ceiling and no less than one attempt. Without a deadline the ceiling stands.
pub open spec fn allowed_time(ceiling: u64, left: Option<u64>) -> u64 {
    match left {
        None => ceiling,
        Some(left) => {
            let room = if left >= ROOM_TO_RECORD_THE_ATTEMPT {
                (left - ROOM_TO_RECORD_THE_ATTEMPT) as u64
            } else {
                0
            };
            let capped = if room <= ceiling {
                room
            } else {
                ceiling
            };
            if capped >= TOO_LITTLE_TIME_IS_STILL_ONE_ATTEMPT {
                capped
            } else {
                TOO_LITTLE_TIME_IS_STILL_ONE_ATTEMPT
            }
        },
    }
}

/// The settings of an adapter: where its provider is, the key it shows, and the longest a call may take, in
/// nanoseconds.
#[derive(Debug)]
pub struct SystemOne {
    pub base_url: String,
    pub api_key: String,
    pub ceiling: u64,
}

impl SystemOne {
    pub fn new(base_url: &str, api_key: String, ceiling: u64) -> (adapter: SystemOne)
        ensures
            adapter.base_url@ == trimmed_end(base_url@, '/'),
            adapter.api_key@ == api_key@,
            adapter.ceiling == ceiling,
    {
        SystemOne { base_url: trim_end_char(base_url, '/'), api_key, ceiling }
    }

    pub fn within(&self, left: Option<u64>) -> (allowed: u64)
        ensures
            allowed == allowed_time(self.ceiling, left),
    {
        match left {
            None => self.ceiling,
            Some(left) => {
                let room: u64 = left.saturating_sub(ROOM_TO_RECORD_THE_ATTEMPT);
                let capped: u64 = if room <= self.ceiling {
                    room
                } else {
                    self.ceiling
                };
                if capped >= TOO_LITTLE_TIME_IS_STILL_ONE_ATTEMPT {
                    capped
                } else {
                    TOO_LITTLE_TIME_IS_STILL_ONE_ATTEMPT
                }
            },
        }
    }

    pub fn decide_url(&self) -> (url: String)
        ensures
            url@ == self.base_url@ + DECIDE_PATH@,
    {
        cat2(self.base_url.as_str(), DECIDE_PATH)
    }

    pub fn models_url(&self) -> (url: String)
        ensures
            url@ == self.base_url@ + MODELS_PATH@,
    {
        cat2(self.base_url.as_str(), MODELS_PATH)
    }
}

/// A caller's deadline leaves room to record the attempt whenever it leaves more than half a second, and a call ends
/// before the deadline whenever more is left than one attempt takes at least. The time allowed never rises above the
/// ceiling it had, and it is never zero where a deadline is given.
pub proof fn law_the_callers_deadline_bounds_the_call(ceiling: u64, left: u64)
    ensures
        left > ROOM_TO_RECORD_THE_ATTEMPT + TOO_LITTLE_TIME_IS_STILL_ONE_ATTEMPT ==> allowed_time(
            ceiling,
            Some(left),
        ) + ROOM_TO_RECORD_THE_ATTEMPT <= left,
        left > TOO_LITTLE_TIME_IS_STILL_ONE_ATTEMPT ==> allowed_time(ceiling, Some(left)) < left,
        ceiling >= TOO_LITTLE_TIME_IS_STILL_ONE_ATTEMPT ==> allowed_time(ceiling, Some(left)) <= ceiling,
        allowed_time(ceiling, Some(left)) >= TOO_LITTLE_TIME_IS_STILL_ONE_ATTEMPT,
        left <= ROOM_TO_RECORD_THE_ATTEMPT ==> allowed_time(ceiling, Some(left))
            == TOO_LITTLE_TIME_IS_STILL_ONE_ATTEMPT,
{
}

/// A step of the path to a field: its name, or its JSON text where it is no name.
pub open spec fn step_of(step: JsonView) -> Seq<char> {
    match step {
        JsonView::Text(text) => text,
        _ => json_text(step),
    }
}

fn location_step(step: &Json) -> (text: String)
    ensures
        text@ == step_of(step.deep_view()),
{
    match step {
        Json::Text(text) => text.clone(),
        _ => compact_text(step),
    }
}

pub open spec fn location_of(failure: JsonView) -> Seq<char> {
    match failure.at("loc"@) {
        JsonView::Array(path) => joined_with(path.map_values(|step: JsonView| step_of(step)), "."@),
        _ => seq![],
    }
}

/// One failure as it is told: where, what, or both.
pub open spec fn failure_of(failure: JsonView) -> Seq<char> {
    let at = location_of(failure);
    let said = failure.at("msg"@).text();
    if at.len() == 0 {
        said
    } else if said.len() == 0 {
        at
    } else {
        at + ": "@ + said
    }
}

fn location(failure: &Json) -> (at: String)
    ensures
        at@ == location_of(failure.deep_view()),
{
    match failure.get("loc") {
        Some(Json::Array(path)) => {
            let mut steps: Vec<String> = Vec::new();
            for i in 0..path.len()
                invariant
                    steps@.len() == i,
                    forall|k: int|
                        0 <= k < i ==> (#[trigger] steps@[k])@ == step_of(path@[k].deep_view()),
            {
                steps.push(location_step(&path[i]));
            }
            assert(steps.deep_view() =~= path.deep_view().map_values(|step: JsonView| step_of(step)));
            join(&steps, ".")
        },
        _ => String::new(),
    }
}

fn validation_failure(failure: &Json) -> (told: String)
    ensures
        told@ == failure_of(failure.deep_view()),
{
    let at: String = location(failure);
    let said: String = failure.text_at("msg");
    if at.as_str().is_empty() {
        said
    } else if said.as_str().is_empty() {
        at
    } else {
        cat3(at.as_str(), ": ", said.as_str())
    }
}

/// What a provider says under `detail`: an object for a rejected call, a list of failures for a body it could
/// not process.
pub open spec fn detail_of(detail: JsonView) -> Option<Seq<char>> {
    match detail {
        JsonView::Object(_) => match detail.get("message"@) {
            Some(message) => message.as_str(),
            None => detail.at("error_type"@).as_str(),
        },
        JsonView::Array(failures) => if failures.len() == 0 {
            None
        } else {
            Some(
                joined_with(failures.map_values(|failure: JsonView| failure_of(failure)), "; "@),
            )
        },
        _ => None,
    }
}

fn owned(text: Option<&str>) -> (copy: Option<String>)
    ensures
        copy.deep_view() == text.deep_view(),
{
    match text {
        Some(text) => Some(text.to_owned()),
        None => None,
    }
}

fn detailed(detail: &Json) -> (said: Option<String>)
    ensures
        said.deep_view() == detail_of(detail.deep_view()),
{
    match detail {
        Json::Object(_) => {
            match detail.get("message") {
                Some(message) => owned(message.as_str()),
                None => match detail.get("error_type") {
                    Some(error_type) => owned(error_type.as_str()),
                    None => None,
                },
            }
        },
        Json::Array(items) => {
            if items.len() == 0 {
                return None;
            }
            let mut failures: Vec<String> = Vec::new();
            for i in 0..items.len()
                invariant
                    failures@.len() == i,
                    forall|k: int|
                        0 <= k < i ==> (#[trigger] failures@[k])@ == failure_of(items@[k].deep_view()),
            {
                failures.push(validation_failure(&items[i]));
            }
            assert(failures.deep_view() =~= items.deep_view().map_values(
                |failure: JsonView| failure_of(failure),
            ));
            Some(join(&failures, "; "))
        },
        _ => None,
    }
}

/// The reason a provider gives for a refusal, wherever it puts it.
pub open spec fn message_of(body: JsonView) -> Option<Seq<char>> {
    match detail_of(body.at("detail"@)) {
        Some(said) => Some(said),
        None => match body.at("error"@) {
            JsonView::Text(text) => Some(text),
            _ => match body.at("message"@) {
                JsonView::Text(text) => Some(text),
                _ => body.at("detail"@).as_str(),
            },
        },
    }
}

pub fn provider_message(body: &Json) -> (said: Option<String>)
    ensures
        said.deep_view() == message_of(body.deep_view()),
{
    if let Some(detail) = body.get("detail") {
        let said: Option<String> = detailed(detail);
        if said.is_some() {
            return said;
        }
    }
    if let Some(Json::Text(text)) = body.get("error") {
        return Some(text.clone());
    }
    if let Some(Json::Text(text)) = body.get("message") {
        return Some(text.clone());
    }
    match body.get("detail") {
        Some(detail) => owned(detail.as_str()),
        None => None,
    }
}

/// What a refusal means: its status, with the reason in the reply where the reply could be read.
pub open spec fn refusal_of(
    status: u16,
    reply: Result<JsonView, CallErrorView>,
    faults: ClientFaults,
) -> CallErrorView {
    status_error(
        status,
        match reply {
            Ok(body) => message_of(body),
            Err(_) => None,
        },
        faults,
    )
}

pub fn failure(status: u16, reply: Result<Json, CallError>, faults: ClientFaults) -> (error: CallError)
    ensures
        error.deep_view() == refusal_of(status, outcome(reply), faults),
{
    let detail: Option<String> = match reply {
        Ok(body) => provider_message(&body),
        Err(_) => None,
    };
    error_for_status(status, detail, faults)
}

/// A status that says the call succeeded.
pub open spec fn is_success(status: u16) -> bool {
    200 <= status < 300
}

/// What a call that got an answer came to: the reply of a success, the refusal of anything else.
pub open spec fn answer_to_call(
    status: u16,
    reply: Result<JsonView, CallErrorView>,
    faults: ClientFaults,
) -> Result<JsonView, CallErrorView> {
    if is_success(status) {
        reply
    } else {
        Err(refusal_of(status, reply, faults))
    }
}

pub fn answered(status: u16, reply: Result<Json, CallError>, faults: ClientFaults) -> (answer: Result<
    Json,
    CallError,
>)
    ensures
        outcome(answer) == answer_to_call(status, outcome(reply), faults),
{
    if status >= 200 && status < 300 {
        reply
    } else {
        Err(failure(status, reply, faults))
    }
}

/// What a decision came to: the verdict in the reply, or what was sent and why there is none.
pub open spec fn decided_of(
    answer: Result<JsonView, CallErrorView>,
    questions: Seq<QuestionView>,
    sent: JsonView,
) -> Result<VerdictView, NotDecidedView> {
    let read = match answer {
        Ok(body) => verdict_of(body, questions, sent),
        Err(error) => Err(error),
    };
    match read {
        Ok(verdict) => Ok(verdict),
        Err(error) => Err(NotDecidedView { sent, error }),
    }
}

pub fn decide(answer: Result<Json, CallError>, questions: &Vec<Question>, sent: Json) -> (decided: Result<
    Verdict,
    NotDecided,
>)
    ensures
        outcome(decided) == decided_of(outcome(answer), questions.deep_view(), sent.deep_view()),
{
    let read: Result<Verdict, CallError> = match answer {
        Ok(body) => read_verdict(&body, questions, &sent),
        Err(error) => Err(error),
    };
    match read {
        Ok(verdict) => Ok(verdict),
        Err(error) => Err(NotDecided { sent, error }),
    }
}

/// The models a provider lists, or the fault of a listing that cannot be read.
pub open spec fn listing_of(body: JsonView) -> Result<Seq<ModelCardView>, CallErrorView> {
    match body.at("models"@) {
        JsonView::Array(models) => Ok(models.map_values(|model: JsonView| card_of(model))),
        _ => Err(
            CallErrorView::Final(
                "the provider listed its models in a shape this adapter cannot read"@,
            ),
        ),
    }
}

pub fn models(body: &Json) -> (listed: Result<Vec<ModelCard>, CallError>)
    ensures
        outcome(listed) == listing_of(body.deep_view()),
{
    match body.get("models") {
        Some(Json::Array(items)) => {
            let mut cards: Vec<ModelCard> = Vec::new();
            for i in 0..items.len()
                invariant
                    cards@.len() == i,
                    forall|k: int|
                        0 <= k < i ==> (#[trigger] cards@[k]).deep_view() == card_of(
                            items@[k].deep_view(),
                        ),
            {
                cards.push(model_card(&items[i]));
            }
            assert(cards.deep_view() =~= items.deep_view().map_values(
                |model: JsonView| card_of(model),
            ));
            Ok(cards)
        },
        _ => Err(
            CallError::Final(
                "the provider listed its models in a shape this adapter cannot read".to_owned(),
            ),
        ),
    }
}

/// Where the caller sets no deadline, a call gets the adapter's own time. Otherwise it gets the least of that and of
/// what is left once the attempt can still be recorded, and never so little that it is no attempt.
pub proof fn law_a_call_gets_the_time_that_is_left(ceiling: u64, left: u64)
    ensures
        allowed_time(ceiling, None) == ceiling,
        left >= 500_000_000 && left - 400_000_000 <= ceiling ==> allowed_time(ceiling, Some(left)) == left
            - 400_000_000,
        left >= 400_000_000 && left - 400_000_000 > ceiling && ceiling >= 100_000_000 ==> allowed_time(
            ceiling,
            Some(left),
        ) == ceiling,
        left < 500_000_000 || ceiling < 100_000_000 ==> allowed_time(ceiling, Some(left)) == 100_000_000,
{
}

/// What a refusal says is what the provider said. A list of failures is told failure by failure, each with the place it
/// is about; an object by its message, or by the name of its error where it has none; and where neither reads, by the
/// plain texts that providers use instead, in their order.
pub proof fn law_a_refusal_repeats_the_provider(body: JsonView)
    ensures
        body.at("detail"@) matches JsonView::Array(failures) ==> (failures.len() > 0 ==> message_of(body)
            == Some(
            joined_with(failures.map_values(|failure: JsonView| failure_of(failure)), "; "@),
        )),
        body.at("detail"@).at("message"@) matches JsonView::Text(text) ==> message_of(body) == Some(text),
        body.at("detail"@).get("message"@) is None ==> (body.at("detail"@).at(
            "error_type"@,
        ) matches JsonView::Text(text) ==> message_of(body) == Some(text)),
        body.at("detail"@) is Null ==> (body.at("error"@) matches JsonView::Text(text) ==> message_of(body)
            == Some(text)),
        body.at("detail"@) is Null && body.at("error"@) !is Text ==> (body.at(
            "message"@,
        ) matches JsonView::Text(text) ==> message_of(body) == Some(text)),
        body.at("error"@) !is Text && body.at("message"@) !is Text ==> (body.at(
            "detail"@,
        ) matches JsonView::Text(text) ==> message_of(body) == Some(text)),
        body.at("detail"@) is Null && body.at("error"@) !is Text && body.at("message"@) !is Text
            ==> message_of(body) is None,
{
}

/// One failure of a list is told with its place before what is said of it, and with whichever of the two there is where
/// the other is missing.
pub proof fn law_a_failure_is_told_with_its_place(failure: JsonView, said: Seq<char>, path: Seq<JsonView>)
    requires
        failure.at("msg"@) == JsonView::Text(said),
        failure.at("loc"@) == JsonView::Array(path),
        forall|k: int| 0 <= k < path.len() ==> (#[trigger] path[k]) is Text,
    ensures
        ({
            let place = joined_with(path.map_values(|step: JsonView| step.text()), "."@);
            &&& place.len() == 0 ==> failure_of(failure) == said
            &&& said.len() == 0 ==> failure_of(failure) == place
            &&& place.len() > 0 && said.len() > 0 ==> failure_of(failure) == place + ": "@ + said
        }),
{
    assert(path.map_values(|step: JsonView| step.text()) =~= path.map_values(
        |step: JsonView| step_of(step),
    ));
}

/// A step of a place that is no text is told as its JSON.
pub proof fn law_a_step_is_told_as_it_is(step: JsonView)
    ensures
        step matches JsonView::Text(text) ==> step_of(step) == text,
        step !is Text ==> step_of(step) == json_text(step),
{
}

/// A call that succeeded is answered with its reply, and one that did not with an error that tells the status and, where
/// the reply says why, that too.
pub proof fn law_a_status_decides_what_a_call_is_answered(
    status: u16,
    reply: Result<JsonView, CallErrorView>,
    faults: ClientFaults,
)
    ensures
        200 <= status < 300 ==> answer_to_call(status, reply, faults) == reply,
        !(200 <= status < 300) ==> (answer_to_call(status, reply, faults) matches Err(error)
            && error.message() == (match reply {
            Ok(body) => match message_of(body) {
                Some(said) => "the provider answered "@ + dec(status as nat) + ": "@ + said,
                None => "the provider answered "@ + dec(status as nat),
            },
            Err(_) => "the provider answered "@ + dec(status as nat),
        })),
{
}

/// A decision that was not made keeps what was sent and the error that stopped it.
pub proof fn law_what_was_sent_is_kept_either_way(
    answer: Result<JsonView, CallErrorView>,
    questions: Seq<QuestionView>,
    sent: JsonView,
)
    ensures
        decided_of(answer, questions, sent) matches Ok(verdict) ==> verdict.sent == sent && (
        answer matches Ok(body) && verdict.reply == body && verdict_of(body, questions, sent) == Ok::<
            VerdictView,
            CallErrorView,
        >(verdict)),
        decided_of(answer, questions, sent) matches Err(failed) ==> failed.sent == sent && (match answer {
            Err(error) => failed.error == error,
            Ok(body) => verdict_of(body, questions, sent) == Err::<VerdictView, CallErrorView>(
                failed.error,
            ),
        }),
{
}

/// A listing holds one card for each model of the reply, in its order.
pub proof fn law_every_model_listed_gets_its_own_card(body: JsonView, i: int)
    ensures
        listing_of(body) is Ok <==> body.at("models"@) is Array,
        listing_of(body) matches Err(error) ==> error is Final,
        body.at("models"@) matches JsonView::Array(models) ==> (0 <= i < models.len() ==> {
            let cards = listing_of(body)->Ok_0;
            &&& cards.len() == models.len()
            &&& models[i].at("name"@) matches JsonView::Text(text) ==> cards[i].name == text
            &&& models[i].at("description"@) matches JsonView::Text(text) ==> cards[i].description == text
            &&& models[i].at("release_date"@) matches JsonView::Text(text) ==> cards[i].release_date == text
        }),
{
}

/// A failure without a list for its place is told by what is said of it alone.
pub proof fn law_a_failure_without_a_place_is_told_alone(failure: JsonView)
    requires
        failure.at("loc"@) !is Array,
    ensures
        failure.at("msg"@) matches JsonView::Text(said) ==> failure_of(failure) == said,
        failure.at("msg"@) !is Text ==> failure_of(failure).len() == 0,
{
}

/// What is told of a listing that does not read.
pub proof fn law_what_is_told_of_a_listing(body: JsonView)
    requires
        body.at("models"@) !is Array,
    ensures
        listing_of(body) == Err::<Seq<ModelCardView>, CallErrorView>(
            CallErrorView::Final("the provider listed its models in a shape this adapter cannot read"@),
        ),
{
}

} // verus!
