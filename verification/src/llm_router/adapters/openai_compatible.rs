//! Adapter for any provider speaking the OpenAI chat-completions API: one base URL, one key, the standard
//! settings.

use vstd::prelude::*;

use crate::collect::outcome;
use crate::json::{
    entry_if, entry_views, group_json_views, integer_of, lemma_holds, lookup, put_if, Json, JsonView, Number,
};
use crate::llm_router::adapters::system_one::is_success;
use crate::llm_router::adapters::{as_count, count_of, error_for_status, status_error, ClientFaults};
use crate::llm_router::provider::{
    CallError, CallErrorView, Completion, CompletionView, FinishReason, Prompt, PromptView, ResponseFormat, Sampling,
};
use crate::number::{finite, is_finite};
use crate::text::{cat2, cat3, cat4, dec_signed, decimal_signed, same, trim_end_char, trimmed_end};

verus! {

broadcast use group_json_views;

pub const COMPLETIONS_PATH: &'static str = "/chat/completions";

pub const KEY_PATH: &'static str = "/key";

/// The settings of an adapter. The routing policy is the operator's own JSON, forwarded as it was written.
#[derive(Debug)]
pub struct OpenAiCompatible {
    pub base_url: String,
    pub api_key: String,
    pub provider_routing: Option<Json>,
}

impl OpenAiCompatible {
    pub fn new(base_url: &str, api_key: String, provider_routing: Option<Json>) -> (adapter:
        OpenAiCompatible)
        ensures
            adapter.base_url@ == trimmed_end(base_url@, '/'),
            adapter.api_key@ == api_key@,
            adapter.provider_routing == provider_routing,
    {
        OpenAiCompatible { base_url: trim_end_char(base_url, '/'), api_key, provider_routing }
    }

    pub fn completions_url(&self) -> (url: String)
        ensures
            url@ == self.base_url@ + COMPLETIONS_PATH@,
    {
        cat2(self.base_url.as_str(), COMPLETIONS_PATH)
    }

    pub fn key_url(&self) -> (url: String)
        ensures
            url@ == self.base_url@ + KEY_PATH@,
    {
        cat2(self.base_url.as_str(), KEY_PATH)
    }
}

/// A double as JSON: null where it is no finite number.
pub open spec fn double_json(bits: u64) -> JsonView {
    if is_finite(bits) {
        JsonView::Number(Number::Float(bits))
    } else {
        JsonView::Null
    }
}

fn json_double(bits: u64) -> (json: Json)
    ensures
        json.deep_view() == double_json(bits),
{
    if finite(bits) {
        Json::Number(Number::Float(bits))
    } else {
        Json::Null
    }
}

/// An integer as JSON.
pub open spec fn integer_json(n: int) -> JsonView {
    if n >= 0 {
        JsonView::Number(Number::PosInt(n as u64))
    } else {
        JsonView::Number(Number::NegInt(n as i64))
    }
}

fn json_integer(n: i64) -> (json: Json)
    ensures
        json.deep_view() == integer_json(n as int),
{
    if n >= 0 {
        Json::Number(Number::PosInt(n as u64))
    } else {
        Json::Number(Number::NegInt(n))
    }
}

pub open spec fn double_setting(value: Option<u64>) -> Option<JsonView> {
    match value {
        Some(bits) => Some(double_json(bits)),
        None => None,
    }
}

fn set_double(body: &mut Vec<(String, Json)>, field: &str, value: Option<u64>)
    ensures
        entry_views(final(body)@) == entry_views(old(body)@) + entry_if(field@, double_setting(value)),
{
    put_if(
        body,
        field,
        match value {
            Some(bits) => Some(json_double(bits)),
            None => None,
        },
    );
}

pub open spec fn integer_setting(value: Option<int>) -> Option<JsonView> {
    match value {
        Some(n) => Some(integer_json(n)),
        None => None,
    }
}

pub open spec fn widened(value: Option<i32>) -> Option<int> {
    match value {
        Some(n) => Some(n as int),
        None => None,
    }
}

fn set_small(body: &mut Vec<(String, Json)>, field: &str, value: Option<i32>)
    ensures
        entry_views(final(body)@) == entry_views(old(body)@) + entry_if(
            field@,
            integer_setting(widened(value)),
        ),
{
    put_if(
        body,
        field,
        match value {
            Some(n) => Some(json_integer(n as i64)),
            None => None,
        },
    );
}

/// A message of a chat.
pub open spec fn message_json(role: Seq<char>, content: Seq<char>) -> JsonView {
    JsonView::Object(
        seq![("content"@, JsonView::Text(content)), ("role"@, JsonView::Text(role))],
    )
}

fn message(role: &str, content: &str) -> (json: Json)
    ensures
        json.deep_view() == message_json(role@, content@),
{
    let mut entries: Vec<(String, Json)> = Vec::new();
    entries.push(("content".to_owned(), Json::Text(content.to_owned())));
    entries.push(("role".to_owned(), Json::Text(role.to_owned())));
    assert(entry_views(entries@) =~= message_json(role@, content@)->Object_0);
    Json::Object(entries)
}

/// The messages of a prompt: a system message only where there is one.
pub open spec fn messages_of(prompt: PromptView) -> Seq<JsonView> {
    let user = seq![message_json("user"@, prompt.user)];
    if prompt.system.len() == 0 {
        user
    } else {
        seq![message_json("system"@, prompt.system)] + user
    }
}

fn messages(prompt: &Prompt) -> (items: Vec<Json>)
    ensures
        items.deep_view() == messages_of(prompt.deep_view()),
{
    let mut items: Vec<Json> = Vec::new();
    if !prompt.system.as_str().is_empty() {
        items.push(message("system", prompt.system.as_str()));
    }
    items.push(message("user", prompt.user.as_str()));
    assert(items.deep_view() =~= messages_of(prompt.deep_view()));
    items
}

/// The name of a format, where the provider knows it by one.
pub open spec fn format_name(format: Option<ResponseFormat>) -> Option<Seq<char>> {
    match format {
        Some(ResponseFormat::Text) => Some("text"@),
        Some(ResponseFormat::JsonObject) => Some("json_object"@),
        _ => None,
    }
}

/// An object of one entry that holds a text.
pub open spec fn named_text(name: Seq<char>, text: Seq<char>) -> JsonView {
    JsonView::Object(seq![(name, JsonView::Text(text))])
}

fn one_text(name: &str, text: &str) -> (json: Json)
    ensures
        json.deep_view() == named_text(name@, text@),
{
    let mut entries: Vec<(String, Json)> = Vec::new();
    entries.push((name.to_owned(), Json::Text(text.to_owned())));
    assert(entry_views(entries@) =~= named_text(name@, text@)->Object_0);
    Json::Object(entries)
}

pub open spec fn format_setting(format: Option<ResponseFormat>) -> Option<JsonView> {
    match format_name(format) {
        Some(name) => Some(named_text("type"@, name)),
        None => None,
    }
}

fn response_format(format: Option<ResponseFormat>) -> (json: Option<Json>)
    ensures
        json.deep_view() == format_setting(format),
{
    match format {
        Some(ResponseFormat::Text) => Some(one_text("type", "text")),
        Some(ResponseFormat::JsonObject) => Some(one_text("type", "json_object")),
        _ => None,
    }
}

pub open spec fn bias_setting(bias: Seq<(Seq<char>, u64)>) -> Option<JsonView> {
    if bias.len() == 0 {
        None
    } else {
        Some(
            JsonView::Object(
                bias.map_values(|entry: (Seq<char>, u64)| (entry.0, double_json(entry.1))),
            ),
        )
    }
}

fn logit_bias(bias: &Vec<(String, u64)>) -> (json: Option<Json>)
    ensures
        json.deep_view() == bias_setting(bias.deep_view()),
{
    if bias.len() == 0 {
        return None;
    }
    let mut entries: Vec<(String, Json)> = Vec::new();
    for i in 0..bias.len()
        invariant
            entries@.len() == i,
            forall|k: int|
                0 <= k < i ==> (#[trigger] entries@[k]).0@ == bias@[k].0@ && entries@[k].1.deep_view()
                    == double_json(bias@[k].1),
    {
        entries.push((bias[i].0.clone(), json_double(bias[i].1)));
    }
    assert(entry_views(entries@) =~= bias.deep_view().map_values(
        |entry: (Seq<char>, u64)| (entry.0, double_json(entry.1)),
    ));
    Some(Json::Object(entries))
}

pub open spec fn stop_setting(stop: Seq<Seq<char>>) -> Option<JsonView> {
    if stop.len() == 0 {
        None
    } else {
        Some(JsonView::Array(stop.map_values(|text: Seq<char>| JsonView::Text(text))))
    }
}

fn stop_sequences(stop: &Vec<String>) -> (json: Option<Json>)
    ensures
        json.deep_view() == stop_setting(stop.deep_view()),
{
    if stop.len() == 0 {
        return None;
    }
    let mut items: Vec<Json> = Vec::new();
    for i in 0..stop.len()
        invariant
            items@.len() == i,
            forall|k: int|
                0 <= k < i ==> (#[trigger] items@[k]).deep_view() == JsonView::Text(stop@[k]@),
    {
        items.push(Json::Text(stop[i].clone()));
    }
    assert(items.deep_view() =~= stop.deep_view().map_values(|text: Seq<char>| JsonView::Text(text)));
    Some(Json::Array(items))
}

/// The body of a completion, entries in the order of their names: the model, the messages, every setting the
/// caller set and none that the caller did not, reasoning turned off where the tier does not reason, and the
/// operator's routing policy as it was written.
pub open spec fn request_body_of(
    model: Seq<char>,
    prompt: PromptView,
    reasoning: bool,
    routing: Option<JsonView>,
) -> JsonView {
    let sampling = prompt.sampling;
    JsonView::Object(
        entry_if("frequency_penalty"@, double_setting(sampling.frequency_penalty)) + entry_if(
            "logit_bias"@,
            bias_setting(sampling.logit_bias),
        ) + entry_if(
            "logprobs"@,
            match sampling.logprobs {
                Some(on) => Some(JsonView::Bool(on)),
                None => None,
            },
        ) + entry_if("max_tokens"@, integer_setting(widened(sampling.max_tokens))) + entry_if(
            "messages"@,
            Some(JsonView::Array(messages_of(prompt))),
        ) + entry_if("model"@, Some(JsonView::Text(model))) + entry_if(
            "presence_penalty"@,
            double_setting(sampling.presence_penalty),
        ) + entry_if("provider"@, routing) + entry_if(
            "reasoning"@,
            if reasoning {
                None
            } else {
                Some(named_text("effort"@, "none"@))
            },
        ) + entry_if("response_format"@, format_setting(sampling.response_format)) + entry_if(
            "seed"@,
            integer_setting(
                match sampling.seed {
                    Some(n) => Some(n as int),
                    None => None,
                },
            ),
        ) + entry_if("stop"@, stop_setting(sampling.stop)) + entry_if(
            "temperature"@,
            double_setting(sampling.temperature),
        ) + entry_if("top_logprobs"@, integer_setting(widened(sampling.top_logprobs))) + entry_if(
            "top_p"@,
            double_setting(sampling.top_p),
        ),
    )
}

pub fn request_body(model: &str, prompt: &Prompt, reasoning: bool, routing: Option<&Json>) -> (body: Json)
    ensures
        body.deep_view() == request_body_of(
            model@,
            prompt.deep_view(),
            reasoning,
            routing.deep_view(),
        ),
{
    let sampling: &Sampling = &prompt.sampling;
    let mut body: Vec<(String, Json)> = Vec::new();
    assert(entry_views(body@) =~= seq![]);
    set_double(&mut body, "frequency_penalty", sampling.frequency_penalty);
    assert(entry_views(body@) =~= entry_if(
        "frequency_penalty"@,
        double_setting(sampling.frequency_penalty),
    ));
    put_if(&mut body, "logit_bias", logit_bias(&sampling.logit_bias));
    put_if(
        &mut body,
        "logprobs",
        match sampling.logprobs {
            Some(on) => Some(Json::Bool(on)),
            None => None,
        },
    );
    set_small(&mut body, "max_tokens", sampling.max_tokens);
    put_if(&mut body, "messages", Some(Json::Array(messages(prompt))));
    put_if(&mut body, "model", Some(Json::Text(model.to_owned())));
    set_double(&mut body, "presence_penalty", sampling.presence_penalty);
    put_if(
        &mut body,
        "provider",
        match routing {
            Some(policy) => Some(policy.copy()),
            None => None,
        },
    );
    put_if(
        &mut body,
        "reasoning",
        if reasoning {
            None
        } else {
            Some(one_text("effort", "none"))
        },
    );
    put_if(&mut body, "response_format", response_format(sampling.response_format));
    put_if(
        &mut body,
        "seed",
        match sampling.seed {
            Some(n) => Some(json_integer(n)),
            None => None,
        },
    );
    put_if(&mut body, "stop", stop_sequences(&sampling.stop));
    set_double(&mut body, "temperature", sampling.temperature);
    set_small(&mut body, "top_logprobs", sampling.top_logprobs);
    set_double(&mut body, "top_p", sampling.top_p);
    Json::Object(body)
}

/// Why a choice is no answer, where the provider reports a failure inside it: by the reason it finished, by an
/// error it attached, or by both.
pub open spec fn choice_error_of(choice: JsonView) -> Option<Seq<char>> {
    let error = choice.at("error"@);
    if choice.at("finish_reason"@).text() != "error"@ && error !is Object {
        None
    } else {
        let detail = match error.at("message"@) {
            JsonView::Text(text) => text,
            _ => "the provider stopped partway through generating"@,
        };
        Some(
            match integer_of(error.at("code"@)) {
                Some(code) => detail + " (provider code "@ + dec_signed(code as int) + ")"@,
                None => detail,
            },
        )
    }
}

fn choice_error(choice: &Json) -> (fault: Option<String>)
    ensures
        fault.deep_view() == choice_error_of(choice.deep_view()),
{
    let reported: String = choice.text_at("finish_reason");
    let failed: bool = same(reported.as_str(), "error");
    let error: Option<&Json> = choice.get("error");
    let attached: bool = match error {
        Some(Json::Object(_)) => true,
        _ => false,
    };
    if !failed && !attached {
        return None;
    }
    let (detail, code): (Option<&str>, Option<i64>) = match error {
        Some(error) => (
            error.str_at("message"),
            match error.get("code") {
                Some(code) => code.as_i64(),
                None => None,
            },
        ),
        None => (None, None),
    };
    let detail: &str = match detail {
        Some(detail) => detail,
        None => "the provider stopped partway through generating",
    };
    Some(
        match code {
            Some(code) => cat4(detail, " (provider code ", decimal_signed(code).as_str(), ")"),
            None => detail.to_owned(),
        },
    )
}

pub open spec fn finish_of(reported: Seq<char>) -> FinishReason {
    if reported == "stop"@ {
        FinishReason::Stop
    } else if reported == "length"@ {
        FinishReason::Length
    } else if reported == "content_filter"@ {
        FinishReason::ContentFilter
    } else if reported == "tool_calls"@ {
        FinishReason::ToolCalls
    } else {
        FinishReason::Unspecified
    }
}

pub fn finish_reason_from(reported: &str) -> (reason: FinishReason)
    ensures
        reason == finish_of(reported@),
{
    if same(reported, "stop") {
        FinishReason::Stop
    } else if same(reported, "length") {
        FinishReason::Length
    } else if same(reported, "content_filter") {
        FinishReason::ContentFilter
    } else if same(reported, "tool_calls") {
        FinishReason::ToolCalls
    } else {
        FinishReason::Unspecified
    }
}

/// The first choice of a reply.
pub open spec fn first_choice(body: JsonView) -> Option<JsonView> {
    match body.at("choices"@) {
        JsonView::Array(choices) => if choices.len() > 0 {
            Some(choices[0])
        } else {
            None
        },
        _ => None,
    }
}

/// What a reply completes. Text that a failed choice carries was cut off and is no reply; a reply without
/// content is final where the model spent its tokens on reasoning, and worth retrying otherwise.
pub open spec fn completion_of(body: JsonView) -> Result<CompletionView, CallErrorView> {
    match first_choice(body) {
        None => Err(
            CallErrorView::WorthRetrying(
                match body.at("error"@).at("message"@) {
                    JsonView::Text(text) => text,
                    _ => "the reply carried no choices"@,
                },
            ),
        ),
        Some(choice) => match choice_error_of(choice) {
            Some(detail) => Err(CallErrorView::WorthRetrying(detail)),
            None => {
                let content = choice.at("message"@).at("content"@).text();
                let spent = count_of(
                    body.at("usage"@).at("completion_tokens_details"@).at("reasoning_tokens"@),
                );
                if content.len() > 0 {
                    Ok(
                        CompletionView {
                            content,
                            tokens_in: count_of(body.at("usage"@).at("prompt_tokens"@)),
                            tokens_out: count_of(body.at("usage"@).at("completion_tokens"@)),
                            finish_reason: finish_of(choice.at("finish_reason"@).text()),
                            reply: body,
                        },
                    )
                } else if spent > 0 {
                    Err(
                        CallErrorView::Final(
                            "the model spent "@ + dec_signed(spent as int)
                                + " completion tokens on reasoning and returned no content"@,
                        ),
                    )
                } else {
                    Err(CallErrorView::WorthRetrying("the model returned no content"@))
                }
            },
        },
    }
}

fn text_under(value: Option<&Json>, key: &str) -> (text: String)
    ensures
        text@ == (match value {
            Some(json) => json.deep_view(),
            None => JsonView::Null,
        }).at(key@).text(),
{
    match value {
        Some(json) => json.text_at(key),
        None => String::new(),
    }
}

fn usage_count(body: &Json, field: &str) -> (count: i32)
    ensures
        count == count_of(body.deep_view().at("usage"@).at(field@)),
{
    match body.get("usage") {
        Some(usage) => as_count(usage.get(field)),
        None => 0,
    }
}

fn reasoning_tokens(body: &Json) -> (count: i32)
    ensures
        count == count_of(
            body.deep_view().at("usage"@).at("completion_tokens_details"@).at("reasoning_tokens"@),
        ),
{
    match body.get("usage") {
        Some(usage) => match usage.get("completion_tokens_details") {
            Some(details) => as_count(details.get("reasoning_tokens")),
            None => 0,
        },
        None => 0,
    }
}

fn choice_of(body: &Json) -> (choice: Option<&Json>)
    ensures
        choice.deep_view() == first_choice(body.deep_view()),
{
    match body.get("choices") {
        Some(Json::Array(choices)) => if choices.len() > 0 {
            Some(&choices[0])
        } else {
            None
        },
        _ => None,
    }
}

pub fn read_completion(body: &Json) -> (read: Result<Completion, CallError>)
    ensures
        outcome(read) == completion_of(body.deep_view()),
{
    let choice: &Json = match choice_of(body) {
        Some(choice) => choice,
        None => {
            let detail: Option<&str> = match body.get("error") {
                Some(error) => error.str_at("message"),
                None => None,
            };
            return Err(
                CallError::WorthRetrying(
                    match detail {
                        Some(detail) => detail.to_owned(),
                        None => "the reply carried no choices".to_owned(),
                    },
                ),
            );
        },
    };
    if let Some(detail) = choice_error(choice) {
        return Err(CallError::WorthRetrying(detail));
    }
    let content: String = text_under(choice.get("message"), "content");
    if content.as_str().is_empty() {
        let spent: i32 = reasoning_tokens(body);
        return Err(
            if spent > 0 {
                CallError::Final(
                    cat3(
                        "the model spent ",
                        decimal_signed(spent as i64).as_str(),
                        " completion tokens on reasoning and returned no content",
                    ),
                )
            } else {
                CallError::WorthRetrying("the model returned no content".to_owned())
            },
        );
    }
    Ok(
        Completion {
            content,
            tokens_in: usage_count(body, "prompt_tokens"),
            tokens_out: usage_count(body, "completion_tokens"),
            finish_reason: finish_reason_from(choice.text_at("finish_reason").as_str()),
            reply: body.copy(),
        },
    )
}

/// What a call that got an answer came to. Nothing of the caller's reaches the provider here, so no refusal is
/// ever the caller's.
pub open spec fn call_of(status: u16, reply: Result<JsonView, CallErrorView>) -> Result<
    CompletionView,
    CallErrorView,
> {
    if !is_success(status) {
        Err(status_error(status, None, ClientFaults::AlwaysFinal))
    } else {
        match reply {
            Ok(body) => completion_of(body),
            Err(error) => Err(error),
        }
    }
}

pub fn complete(status: u16, reply: Result<Json, CallError>) -> (completed: Result<
    Completion,
    CallError,
>)
    ensures
        outcome(completed) == call_of(status, outcome(reply)),
{
    if !(status >= 200 && status < 300) {
        return Err(error_for_status(status, None, ClientFaults::AlwaysFinal));
    }
    match reply {
        Ok(body) => read_completion(&body),
        Err(error) => Err(error),
    }
}

/// A choice that reports a failure is never an answer, however much text it carries, and is worth retrying.
pub proof fn law_a_failed_choice_is_never_an_answer(body: JsonView)
    requires
        first_choice(body) is Some,
        first_choice(body)->Some_0.at("finish_reason"@).text() == "error"@ || first_choice(
            body,
        )->Some_0.at("error"@) is Object,
    ensures
        completion_of(body) matches Err(error) && error is WorthRetrying,
{
}

/// A completion always holds text, and the whole reply it was read from.
pub proof fn law_a_completion_holds_text(body: JsonView)
    requires
        completion_of(body) is Ok,
    ensures
        completion_of(body)->Ok_0.content.len() > 0,
        completion_of(body)->Ok_0.reply == body,
{
}

/// Nothing a provider answers on this path is ever reported as the caller's own fault.
pub proof fn law_a_completion_is_never_refused(status: u16, body: JsonView)
    ensures
        call_of(status, Ok(body)) matches Err(error) ==> error !is Refused,
{
}

/// The entries of a list of fields, each sent only where it says something.
pub open spec fn sent_fields(fields: Seq<(Seq<char>, Option<JsonView>)>) -> Seq<(Seq<char>, JsonView)>
    decreases fields.len(),
{
    if fields.len() == 0 {
        seq![]
    } else {
        sent_fields(fields.drop_last()) + entry_if(fields.last().0, fields.last().1)
    }
}

proof fn lemma_lookup_after(
    entries: Seq<(Seq<char>, JsonView)>,
    more: Seq<(Seq<char>, JsonView)>,
    key: Seq<char>,
)
    ensures
        lookup(entries + more, key) == (match lookup(entries, key) {
            Some(value) => Some(value),
            None => lookup(more, key),
        }),
    decreases entries.len(),
{
    if entries.len() == 0 {
        assert(entries + more =~= more);
    } else {
        assert((entries + more).drop_first() =~= entries.drop_first() + more);
        lemma_lookup_after(entries.drop_first(), more, key);
    }
}

proof fn lemma_sent_fields(fields: Seq<(Seq<char>, Option<JsonView>)>, key: Seq<char>)
    requires
        forall|i: int, k: int|
            0 <= i < k < fields.len() ==> (#[trigger] fields[i]).0 != (#[trigger] fields[k]).0,
    ensures
        forall|i: int|
            0 <= i < fields.len() && (#[trigger] fields[i]).0 == key ==> lookup(
                sent_fields(fields),
                key,
            ) == fields[i].1,
        (forall|i: int| 0 <= i < fields.len() ==> (#[trigger] fields[i]).0 != key) ==> lookup(
            sent_fields(fields),
            key,
        ) is None,
    decreases fields.len(),
{
    if fields.len() > 0 {
        let before = fields.drop_last();
        assert forall|i: int, k: int| 0 <= i < k < before.len() implies (#[trigger] before[i]).0 != (
        #[trigger] before[k]).0 by {
            assert(before[i] == fields[i] && before[k] == fields[k]);
        }
        lemma_sent_fields(before, key);
        let last = entry_if(fields.last().0, fields.last().1);
        lemma_lookup_after(sent_fields(before), last, key);
        assert(lookup(last, key) == if fields.last().0 == key {
            fields.last().1
        } else {
            None
        }) by {
            if last.len() > 0 {
                assert(last.drop_first() =~= seq![]);
                assert(lookup(last.drop_first(), key) is None);
            }
        }
        assert(fields.last() == fields[fields.len() - 1]);
        assert forall|i: int| 0 <= i < fields.len() && (#[trigger] fields[i]).0 == key implies lookup(
            sent_fields(fields),
            key,
        ) == fields[i].1 by {
            if i < before.len() {
                assert(before[i] == fields[i]);
            } else {
                assert forall|k: int| 0 <= k < before.len() implies (#[trigger] before[k]).0 != key by {
                    assert(before[k] == fields[k]);
                }
            }
        }
        if forall|i: int| 0 <= i < fields.len() ==> (#[trigger] fields[i]).0 != key {
            assert forall|k: int| 0 <= k < before.len() implies (#[trigger] before[k]).0 != key by {
                assert(before[k] == fields[k]);
            }
        }
    }
}

/// The fields of a completion's body, by name.
pub open spec fn body_fields(
    model: Seq<char>,
    prompt: PromptView,
    reasoning: bool,
    routing: Option<JsonView>,
) -> Seq<(Seq<char>, Option<JsonView>)> {
    let sampling = prompt.sampling;
    seq![
        ("frequency_penalty"@, double_setting(sampling.frequency_penalty)),
        ("logit_bias"@, bias_setting(sampling.logit_bias)),
        (
            "logprobs"@,
            match sampling.logprobs {
                Some(on) => Some(JsonView::Bool(on)),
                None => None,
            },
        ),
        ("max_tokens"@, integer_setting(widened(sampling.max_tokens))),
        ("messages"@, Some(JsonView::Array(messages_of(prompt)))),
        ("model"@, Some(JsonView::Text(model))),
        ("presence_penalty"@, double_setting(sampling.presence_penalty)),
        ("provider"@, routing),
        (
            "reasoning"@,
            if reasoning {
                None
            } else {
                Some(named_text("effort"@, "none"@))
            },
        ),
        ("response_format"@, format_setting(sampling.response_format)),
        (
            "seed"@,
            integer_setting(
                match sampling.seed {
                    Some(n) => Some(n as int),
                    None => None,
                },
            ),
        ),
        ("stop"@, stop_setting(sampling.stop)),
        ("temperature"@, double_setting(sampling.temperature)),
        ("top_logprobs"@, integer_setting(widened(sampling.top_logprobs))),
        ("top_p"@, double_setting(sampling.top_p)),
    ]
}

proof fn lemma_field_names_differ(fields: Seq<(Seq<char>, Option<JsonView>)>)
    requires
        fields.len() == 15,
        fields[0].0 == "frequency_penalty"@,
        fields[1].0 == "logit_bias"@,
        fields[2].0 == "logprobs"@,
        fields[3].0 == "max_tokens"@,
        fields[4].0 == "messages"@,
        fields[5].0 == "model"@,
        fields[6].0 == "presence_penalty"@,
        fields[7].0 == "provider"@,
        fields[8].0 == "reasoning"@,
        fields[9].0 == "response_format"@,
        fields[10].0 == "seed"@,
        fields[11].0 == "stop"@,
        fields[12].0 == "temperature"@,
        fields[13].0 == "top_logprobs"@,
        fields[14].0 == "top_p"@,
    ensures
        forall|i: int, k: int|
            0 <= i < k < fields.len() ==> (#[trigger] fields[i]).0 != (#[trigger] fields[k]).0,
{
    reveal_strlit("frequency_penalty");
    reveal_strlit("logit_bias");
    reveal_strlit("logprobs");
    reveal_strlit("max_tokens");
    reveal_strlit("messages");
    reveal_strlit("model");
    reveal_strlit("presence_penalty");
    reveal_strlit("provider");
    reveal_strlit("reasoning");
    reveal_strlit("response_format");
    reveal_strlit("seed");
    reveal_strlit("stop");
    reveal_strlit("temperature");
    reveal_strlit("top_logprobs");
    reveal_strlit("top_p");
    assert("seed"@[1] != "stop"@[1]);
    assert forall|i: int, k: int| 0 <= i < k < fields.len() implies (#[trigger] fields[i]).0 != (
    #[trigger] fields[k]).0 by {
        if fields[i].0 == fields[k].0 {
            assert(fields[i].0.len() == fields[k].0.len());
            assert(fields[i].0[0] == fields[k].0[0]);
            assert(fields[i].0[1] == fields[k].0[1]);
        }
    }
}

/// Every setting the caller set is passed through under its name, and none that the caller left unset is sent
/// at all; the routing policy is forwarded as it was written, and its absence leaves no trace.
pub proof fn law_settings_are_sent_exactly_where_they_are_set(
    model: Seq<char>,
    prompt: PromptView,
    reasoning: bool,
    routing: Option<JsonView>,
    i: int,
)
    requires
        0 <= i < 15,
    ensures
        request_body_of(model, prompt, reasoning, routing).get(
            body_fields(model, prompt, reasoning, routing)[i].0,
        ) == body_fields(model, prompt, reasoning, routing)[i].1,
{
    let fields = body_fields(model, prompt, reasoning, routing);
    lemma_field_names_differ(fields);
    lemma_sent_fields(fields, fields[i].0);
    assert(sent_fields(fields) =~= request_body_of(model, prompt, reasoning, routing)->Object_0) by {
        lemma_fifteen_fields(fields);
    }
}

proof fn lemma_one_more_field(fields: Seq<(Seq<char>, Option<JsonView>)>, i: int)
    requires
        0 <= i < fields.len(),
    ensures
        sent_fields(fields.take(i + 1)) == sent_fields(fields.take(i)) + entry_if(
            fields[i].0,
            fields[i].1,
        ),
{
    assert(fields.take(i + 1).drop_last() =~= fields.take(i));
}

proof fn lemma_fifteen_fields(fields: Seq<(Seq<char>, Option<JsonView>)>)
    requires
        fields.len() == 15,
    ensures
        sent_fields(fields) == entry_if(fields[0].0, fields[0].1) + entry_if(fields[1].0, fields[1].1) + entry_if(fields[2].0, fields[2].1) + entry_if(fields[3].0, fields[3].1) + entry_if(fields[4].0, fields[4].1) + entry_if(fields[5].0, fields[5].1) + entry_if(fields[6].0, fields[6].1) + entry_if(fields[7].0, fields[7].1) + entry_if(fields[8].0, fields[8].1) + entry_if(fields[9].0, fields[9].1) + entry_if(fields[10].0, fields[10].1) + entry_if(fields[11].0, fields[11].1) + entry_if(fields[12].0, fields[12].1) + entry_if(fields[13].0, fields[13].1) + entry_if(fields[14].0, fields[14].1),
{
    assert(sent_fields(fields.take(0)) =~= seq![]);
    lemma_one_more_field(fields, 0);
    lemma_one_more_field(fields, 1);
    lemma_one_more_field(fields, 2);
    lemma_one_more_field(fields, 3);
    lemma_one_more_field(fields, 4);
    lemma_one_more_field(fields, 5);
    lemma_one_more_field(fields, 6);
    lemma_one_more_field(fields, 7);
    lemma_one_more_field(fields, 8);
    lemma_one_more_field(fields, 9);
    lemma_one_more_field(fields, 10);
    lemma_one_more_field(fields, 11);
    lemma_one_more_field(fields, 12);
    lemma_one_more_field(fields, 13);
    lemma_one_more_field(fields, 14);
    assert(fields.take(15) =~= fields);
    assert(seq![] + entry_if(fields[0].0, fields[0].1) =~= entry_if(fields[0].0, fields[0].1));
}

proof fn lemma_message(role: Seq<char>, content: Seq<char>)
    ensures
        message_json(role, content).at("role"@) == JsonView::Text(role),
        message_json(role, content).at("content"@) == JsonView::Text(content),
{
    reveal_strlit("role");
    reveal_strlit("content");
    let entries = message_json(role, content)->Object_0;
    assert(entries[0].0.len() != entries[1].0.len());
    lemma_holds(entries, 0);
    lemma_holds(entries, 1);
}

/// The body of every completion ends with one message of the user, the prompt's own text. Where the prompt has a
/// system text, one message of the system stands before it and holds that text; there is no other message.
pub proof fn law_a_prompt_is_sent_as_its_messages(
    model: Seq<char>,
    prompt: PromptView,
    reasoning: bool,
    routing: Option<JsonView>,
)
    ensures
        request_body_of(model, prompt, reasoning, routing).at("messages"@) matches JsonView::Array(items)
            && {
            &&& items.len() == if prompt.system.len() == 0 {
                1nat
            } else {
                2
            }
            &&& items.last().at("role"@) == JsonView::Text("user"@)
            &&& items.last().at("content"@) == JsonView::Text(prompt.user)
            &&& prompt.system.len() > 0 ==> items[0].at("role"@) == JsonView::Text("system"@)
                && items[0].at("content"@) == JsonView::Text(prompt.system)
            &&& forall|i: int|
                0 <= i < items.len() ==> ((#[trigger] items[i]) matches JsonView::Object(entries)
                    && entries.len() == 2)
        },
{
    law_settings_are_sent_exactly_where_they_are_set(model, prompt, reasoning, routing, 4);
    lemma_message("user"@, prompt.user);
    lemma_message("system"@, prompt.system);
    let items = messages_of(prompt);
    assert(items.last() == message_json("user"@, prompt.user));
    if prompt.system.len() > 0 {
        assert(items[0] == message_json("system"@, prompt.system));
    }
}

/// A number as it is written: itself, and null where it is no finite number.
pub open spec fn is_written(bits: u64, written: Option<JsonView>) -> bool {
    written == Some(
        if is_finite(bits) {
            JsonView::Number(Number::Float(bits))
        } else {
            JsonView::Null
        },
    )
}

/// Every number the caller set is sent under its own name, a setting left unset is not sent, and no setting stands
/// in for another.
pub proof fn law_each_number_is_sent_under_its_own_name(
    model: Seq<char>,
    prompt: PromptView,
    reasoning: bool,
    routing: Option<JsonView>,
)
    ensures
        ({
            let body = request_body_of(model, prompt, reasoning, routing);
            let set = prompt.sampling;
            &&& body.get("temperature"@) is Some <==> set.temperature is Some
            &&& set.temperature matches Some(bits) ==> is_written(bits, body.get("temperature"@))
            &&& body.get("top_p"@) is Some <==> set.top_p is Some
            &&& set.top_p matches Some(bits) ==> is_written(bits, body.get("top_p"@))
            &&& body.get("frequency_penalty"@) is Some <==> set.frequency_penalty is Some
            &&& set.frequency_penalty matches Some(bits) ==> is_written(
                bits,
                body.get("frequency_penalty"@),
            )
            &&& body.get("presence_penalty"@) is Some <==> set.presence_penalty is Some
            &&& set.presence_penalty matches Some(bits) ==> is_written(
                bits,
                body.get("presence_penalty"@),
            )
            &&& body.get("max_tokens"@) is Some <==> set.max_tokens is Some
            &&& set.max_tokens matches Some(n) ==> integer_of(body.at("max_tokens"@)) == Some(n as i64)
            &&& body.get("top_logprobs"@) is Some <==> set.top_logprobs is Some
            &&& set.top_logprobs matches Some(n) ==> integer_of(body.at("top_logprobs"@)) == Some(
                n as i64,
            )
            &&& body.get("seed"@) is Some <==> set.seed is Some
            &&& set.seed matches Some(n) ==> integer_of(body.at("seed"@)) == Some(n)
            &&& body.get("logprobs"@) is Some <==> set.logprobs is Some
            &&& set.logprobs matches Some(on) ==> body.at("logprobs"@) == JsonView::Bool(on)
        }),
{
    law_settings_are_sent_exactly_where_they_are_set(model, prompt, reasoning, routing, 0);
    law_settings_are_sent_exactly_where_they_are_set(model, prompt, reasoning, routing, 2);
    law_settings_are_sent_exactly_where_they_are_set(model, prompt, reasoning, routing, 3);
    law_settings_are_sent_exactly_where_they_are_set(model, prompt, reasoning, routing, 6);
    law_settings_are_sent_exactly_where_they_are_set(model, prompt, reasoning, routing, 10);
    law_settings_are_sent_exactly_where_they_are_set(model, prompt, reasoning, routing, 12);
    law_settings_are_sent_exactly_where_they_are_set(model, prompt, reasoning, routing, 13);
    law_settings_are_sent_exactly_where_they_are_set(model, prompt, reasoning, routing, 14);
}

/// The model is the one asked for, every sequence to stop at and every bias is sent in the caller's order, the format
/// is named where it has a name, reasoning is turned off exactly where the tier does not reason, and the operator's
/// routing policy goes along unchanged.
pub proof fn law_the_rest_of_a_body_is_what_was_asked(
    model: Seq<char>,
    prompt: PromptView,
    reasoning: bool,
    routing: Option<JsonView>,
)
    ensures
        ({
            let body = request_body_of(model, prompt, reasoning, routing);
            let set = prompt.sampling;
            &&& body.get("model"@) == Some(JsonView::Text(model))
            &&& body.get("provider"@) == routing
            &&& body.get("reasoning"@) is None <==> reasoning
            &&& !reasoning ==> body.at("reasoning"@).at("effort"@) == JsonView::Text("none"@)
            &&& body.get("stop"@) is None <==> set.stop.len() == 0
            &&& set.stop.len() > 0 ==> (body.at("stop"@) matches JsonView::Array(items) && items.len()
                == set.stop.len() && forall|i: int|
                0 <= i < items.len() ==> #[trigger] items[i] == JsonView::Text(set.stop[i]))
            &&& body.get("logit_bias"@) is None <==> set.logit_bias.len() == 0
            &&& set.logit_bias.len() > 0 ==> (body.at("logit_bias"@) matches JsonView::Object(entries)
                && entries.len() == set.logit_bias.len() && forall|i: int|
                0 <= i < entries.len() ==> (#[trigger] entries[i]).0 == set.logit_bias[i].0
                    && is_written(set.logit_bias[i].1, Some(entries[i].1)))
            &&& set.response_format == Some(ResponseFormat::Text) ==> body.at("response_format"@).at(
                "type"@,
            ) == JsonView::Text("text"@)
            &&& set.response_format == Some(ResponseFormat::JsonObject) ==> body.at(
                "response_format"@,
            ).at("type"@) == JsonView::Text("json_object"@)
            &&& set.response_format != Some(ResponseFormat::Text) && set.response_format != Some(
                ResponseFormat::JsonObject,
            ) <==> body.get("response_format"@) is None
        }),
{
    law_settings_are_sent_exactly_where_they_are_set(model, prompt, reasoning, routing, 1);
    law_settings_are_sent_exactly_where_they_are_set(model, prompt, reasoning, routing, 5);
    law_settings_are_sent_exactly_where_they_are_set(model, prompt, reasoning, routing, 7);
    law_settings_are_sent_exactly_where_they_are_set(model, prompt, reasoning, routing, 8);
    law_settings_are_sent_exactly_where_they_are_set(model, prompt, reasoning, routing, 9);
    law_settings_are_sent_exactly_where_they_are_set(model, prompt, reasoning, routing, 11);
    lemma_holds(named_text("effort"@, "none"@)->Object_0, 0);
    lemma_holds(named_text("type"@, "text"@)->Object_0, 0);
    lemma_holds(named_text("type"@, "json_object"@)->Object_0, 0);
}

/// Nothing stands in a body but the fields named here: a key that is none of them finds nothing.
pub proof fn law_a_body_holds_nothing_else(
    model: Seq<char>,
    prompt: PromptView,
    reasoning: bool,
    routing: Option<JsonView>,
    key: Seq<char>,
)
    requires
        key != "frequency_penalty"@,
        key != "logit_bias"@,
        key != "logprobs"@,
        key != "max_tokens"@,
        key != "messages"@,
        key != "model"@,
        key != "presence_penalty"@,
        key != "provider"@,
        key != "reasoning"@,
        key != "response_format"@,
        key != "seed"@,
        key != "stop"@,
        key != "temperature"@,
        key != "top_logprobs"@,
        key != "top_p"@,
    ensures
        request_body_of(model, prompt, reasoning, routing).get(key) is None,
{
    let fields = body_fields(model, prompt, reasoning, routing);
    lemma_field_names_differ(fields);
    lemma_sent_fields(fields, key);
    lemma_fifteen_fields(fields);
    assert(sent_fields(fields) =~= request_body_of(model, prompt, reasoning, routing)->Object_0);
}

/// A completion is the text of the reply's first choice, with the tokens that the reply says went in and came out and
/// the reason for which that choice finished.
pub proof fn law_a_completion_is_the_first_choice(body: JsonView)
    requires
        completion_of(body) is Ok,
    ensures
        ({
            let read = completion_of(body)->Ok_0;
            &&& body.at("choices"@) matches JsonView::Array(choices) && choices.len() > 0 && {
                &&& choices[0].at("message"@).at("content"@) == JsonView::Text(read.content)
                &&& read.finish_reason == FinishReason::Stop <==> choices[0].at("finish_reason"@)
                    == JsonView::Text("stop"@)
                &&& read.finish_reason == FinishReason::Length <==> choices[0].at("finish_reason"@)
                    == JsonView::Text("length"@)
                &&& read.finish_reason == FinishReason::ContentFilter <==> choices[0].at(
                    "finish_reason"@,
                ) == JsonView::Text("content_filter"@)
                &&& read.finish_reason == FinishReason::ToolCalls <==> choices[0].at("finish_reason"@)
                    == JsonView::Text("tool_calls"@)
            }
            &&& integer_of(body.at("usage"@).at("prompt_tokens"@)) matches Some(n) ==> (i32::MIN <= n
                <= i32::MAX ==> read.tokens_in == n)
            &&& integer_of(body.at("usage"@).at("completion_tokens"@)) matches Some(n) ==> (i32::MIN <= n
                <= i32::MAX ==> read.tokens_out == n)
            &&& read.reply == body
        }),
{
    reveal_strlit("stop");
    reveal_strlit("length");
    reveal_strlit("content_filter");
    reveal_strlit("tool_calls");
    assert("stop"@.len() == 4 && "length"@.len() == 6 && "content_filter"@.len() == 14
        && "tool_calls"@.len() == 10);
}

/// A reply whose first choice says something, and reports no failure, is never turned away: only a reply without a
/// choice, a choice that failed and a choice without text are.
pub proof fn law_a_choice_that_says_something_is_an_answer(body: JsonView, choices: Seq<JsonView>, content: Seq<char>)
    requires
        body.at("choices"@) == JsonView::Array(choices),
        choices.len() > 0,
        choices[0].at("message"@).at("content"@) == JsonView::Text(content),
        content.len() > 0,
        choices[0].at("finish_reason"@) != JsonView::Text("error"@),
        choices[0].at("error"@) !is Object,
    ensures
        completion_of(body) matches Ok(read) && read.content == content,
{
    reveal_strlit("error");
    assert("error"@.len() == 5);
}

/// Why a reply is no answer. Without a choice, the reply's own error says why; a choice that failed is told by the
/// message of its error; and a model that spent its tokens on reasoning is not asked again.
pub proof fn law_why_a_reply_is_no_answer(body: JsonView)
    ensures
        !(body.at("choices"@) is Array && body.at("choices"@)->Array_0.len() > 0) ==> (completion_of(
            body,
        ) matches Err(CallErrorView::WorthRetrying(detail)) && (body.at("error"@).at(
            "message"@,
        ) matches JsonView::Text(text) ==> detail == text)),
        body.at("choices"@) matches JsonView::Array(choices) ==> (choices.len() > 0 && (choices[0].at(
            "finish_reason"@,
        ) == JsonView::Text("error"@) || choices[0].at("error"@) is Object) ==> (completion_of(
            body,
        ) matches Err(CallErrorView::WorthRetrying(detail)) && (choices[0].at("error"@).at(
            "message"@,
        ) matches JsonView::Text(text) ==> text.is_prefix_of(detail)))),
        completion_of(body) matches Err(error) ==> error is Final || error is WorthRetrying,
        completion_of(body) matches Err(CallErrorView::Final(_)) ==> (integer_of(
            body.at("usage"@).at("completion_tokens_details"@).at("reasoning_tokens"@),
        ) matches Some(n) && n > 0),
{
    if body.at("choices"@) is Array && body.at("choices"@)->Array_0.len() > 0 {
        let choice = body.at("choices"@)->Array_0[0];
        if let JsonView::Text(text) = choice.at("error"@).at("message"@) {
            if let Some(detail) = choice_error_of(choice) {
                assert(detail.take(text.len() as int) =~= text);
                assert(text.is_prefix_of(detail));
            }
        }
    }
}

/// How a choice that failed is told: in the words of its error, with the provider's own code where it gives one; and how
/// a reply without text is.
pub proof fn law_how_a_failed_choice_is_told(body: JsonView, choices: Seq<JsonView>, said: Seq<char>)
    requires
        body.at("choices"@) == JsonView::Array(choices),
        choices.len() > 0,
    ensures
        choices[0].at("error"@) is Object && choices[0].at("error"@).at("message"@) == JsonView::Text(said) ==> (
        integer_of(choices[0].at("error"@).at("code"@)) matches Some(code) ==> completion_of(body) == Err::<
            CompletionView,
            CallErrorView,
        >(CallErrorView::WorthRetrying(said + " (provider code "@ + dec_signed(code as int) + ")"@))),
        choices[0].at("error"@) is Object && choices[0].at("error"@).at("message"@) == JsonView::Text(said)
            && integer_of(choices[0].at("error"@).at("code"@)) is None ==> completion_of(body) == Err::<
            CompletionView,
            CallErrorView,
        >(CallErrorView::WorthRetrying(said)),
        choices[0].at("error"@) is Object && choices[0].at("error"@).at("message"@) !is Text && integer_of(
            choices[0].at("error"@).at("code"@),
        ) is None ==> completion_of(body) == Err::<CompletionView, CallErrorView>(
            CallErrorView::WorthRetrying("the provider stopped partway through generating"@),
        ),
        choices[0].at("error"@) !is Object && choices[0].at("finish_reason"@) !is Text && choices[0].at(
            "message"@,
        ).at("content"@) !is Text && integer_of(
            body.at("usage"@).at("completion_tokens_details"@).at("reasoning_tokens"@),
        ) is None ==> completion_of(body) == Err::<CompletionView, CallErrorView>(
            CallErrorView::WorthRetrying("the model returned no content"@),
        ),
        choices[0].at("error"@) !is Object && choices[0].at("finish_reason"@) !is Text && choices[0].at(
            "message"@,
        ).at("content"@) !is Text ==> (integer_of(
            body.at("usage"@).at("completion_tokens_details"@).at("reasoning_tokens"@),
        ) matches Some(n) ==> (0 < n <= i32::MAX ==> completion_of(body) == Err::<CompletionView, CallErrorView>(
            CallErrorView::Final(
                "the model spent "@ + dec_signed(n as int)
                    + " completion tokens on reasoning and returned no content"@,
            ),
        ))),
{
    reveal_strlit("error");
    assert("error"@.len() == 5);
}

/// A call whose status is no success fails by its status alone, whatever the reply holds; otherwise the reply is read.
pub proof fn law_a_status_decides_before_the_reply(status: u16, reply: Result<JsonView, CallErrorView>)
    ensures
        !(200 <= status < 300) ==> call_of(status, reply) == Err::<CompletionView, CallErrorView>(
            status_error(status, None, ClientFaults::AlwaysFinal),
        ),
        200 <= status < 300 ==> (reply matches Ok(body) ==> call_of(status, reply) == completion_of(body)),
        200 <= status < 300 ==> (reply matches Err(error) ==> call_of(status, reply) == Err::<
            CompletionView,
            CallErrorView,
        >(error)),
{
}

/// What is told of a reply without a choice that says nothing of why.
pub proof fn law_what_is_told_of_a_reply_without_a_choice(body: JsonView)
    requires
        body.at("choices"@) !is Array,
        body.at("error"@).at("message"@) !is Text,
    ensures
        completion_of(body) == Err::<CompletionView, CallErrorView>(
            CallErrorView::WorthRetrying("the reply carried no choices"@),
        ),
{
}

} // verus!
