//! What every provider integration needs: a key check, a bounded read of the reply, and one classification of
//! the status a provider answered with.

use vstd::prelude::*;

use crate::collect::outcome;
use crate::json::{integer_of, json_parsed, parse, Json, JsonView, Number};
use crate::llm_router::provider::{CallError, CallErrorView};
use crate::text::{cat2, cat3, cat4, dec, decimal};

pub mod openai_compatible;
pub mod system_one;

verus! {

/// The most a reply may hold: 4 MiB.
pub const MAX_PROVIDER_RESPONSE_BYTES: usize = 4_194_304;

pub const REQUEST_TIMEOUT_STATUS: u16 = 408;

pub const TOO_MANY_REQUESTS: u16 = 429;

pub const FIRST_SERVER_FAULT: u16 = 500;

#[derive(Debug, PartialEq, Eq)]
pub enum KeyCheck {
    Rejected,
    Unreachable(String),
}

/// How a client fault of a provider is reported. The completion path sends a prompt this service assembled, so
/// every client fault there is ours; the decision path sends the caller's own state and questions, so the
/// faults about the body are the caller's to fix.
#[derive(Clone, Copy, Debug, PartialEq, Eq, Structural)]
pub enum ClientFaults {
    AlwaysFinal,
    RefusedWhenBodyShaped,
}

/// A timeout, a rate limit or a server fault: it says nothing about the request or the key that met it.
pub open spec fn is_transient(status: u16) -> bool {
    status == REQUEST_TIMEOUT_STATUS || status == TOO_MANY_REQUESTS || status >= FIRST_SERVER_FAULT
}

/// The client faults that describe the body the caller wrote, as against those that describe this deployment.
pub open spec fn is_body_shaped(status: u16) -> bool {
    status == 400 || status == 409 || status == 413 || status == 422
}

fn transient(status: u16) -> (answer: bool)
    ensures
        answer == is_transient(status),
{
    status == REQUEST_TIMEOUT_STATUS || status == TOO_MANY_REQUESTS || status >= FIRST_SERVER_FAULT
}

/// A key the provider actively refuses stops startup. A rate limit or a server fault is no answer about a key,
/// so it is reported as unreachable.
pub fn key_accepted(status: u16) -> (checked: Result<(), KeyCheck>)
    ensures
        (match checked {
            Ok(()) => !is_transient(status) && !(400 <= status < 500),
            Err(KeyCheck::Rejected) => !is_transient(status) && 400 <= status < 500,
            Err(KeyCheck::Unreachable(why)) => is_transient(status) && why@ == "the provider answered "@
                + dec(status as nat) + " on the key probe"@,
        }),
{
    if transient(status) {
        return Err(
            KeyCheck::Unreachable(
                cat3(
                    "the provider answered ",
                    decimal(status as u64).as_str(),
                    " on the key probe",
                ),
            ),
        );
    }
    if status >= 400 && status < 500 {
        return Err(KeyCheck::Rejected);
    }
    Ok(())
}

pub open spec fn status_message(status: u16, detail: Option<Seq<char>>) -> Seq<char> {
    match detail {
        Some(detail) => "the provider answered "@ + dec(status as nat) + ": "@ + detail,
        None => "the provider answered "@ + dec(status as nat),
    }
}

/// What a status means: worth retrying, the caller's to fix, or final.
pub open spec fn status_error(
    status: u16,
    detail: Option<Seq<char>>,
    faults: ClientFaults,
) -> CallErrorView {
    let message = status_message(status, detail);
    if is_transient(status) {
        CallErrorView::WorthRetrying(message)
    } else if faults == ClientFaults::RefusedWhenBodyShaped && is_body_shaped(status) {
        CallErrorView::Refused(message)
    } else {
        CallErrorView::Final(message)
    }
}

pub fn error_for_status(status: u16, detail: Option<String>, faults: ClientFaults) -> (error: CallError)
    ensures
        error.deep_view() == status_error(status, detail.deep_view(), faults),
{
    let code: String = decimal(status as u64);
    let message: String = match detail {
        Some(detail) => cat4("the provider answered ", code.as_str(), ": ", detail.as_str()),
        None => cat2("the provider answered ", code.as_str()),
    };
    if transient(status) {
        return CallError::WorthRetrying(message);
    }
    let body_shaped: bool = status == 400 || status == 409 || status == 413 || status == 422;
    if faults == ClientFaults::RefusedWhenBodyShaped && body_shaped {
        return CallError::Refused(message);
    }
    CallError::Final(message)
}

/// A status that is transient is worth retrying on either path; one that is not is the caller's to fix only
/// where the caller wrote the body and the fault is about it; everything else is this deployment's.
pub proof fn law_a_status_is_classified_once(status: u16, detail: Option<Seq<char>>, faults: ClientFaults)
    ensures
        status_error(status, detail, faults) is WorthRetrying <==> is_transient(status),
        status_error(status, detail, faults) is Refused <==> (faults
            == ClientFaults::RefusedWhenBodyShaped && is_body_shaped(status)),
        faults == ClientFaults::AlwaysFinal ==> status_error(status, detail, faults) !is Refused,
        status_error(status, detail, faults).message() == status_message(status, detail),
{
}

/// A call that got no answer at all.
pub open spec fn unreachable_error(timed_out: bool, error: Seq<char>) -> CallErrorView {
    if timed_out {
        CallErrorView::WorthRetrying("the provider did not answer in time"@)
    } else {
        CallErrorView::WorthRetrying("could not reach the provider: "@ + error)
    }
}

pub fn unreachable_provider(timed_out: bool, error: &str) -> (failed: CallError)
    ensures
        failed.deep_view() == unreachable_error(timed_out, error@),
{
    CallError::WorthRetrying(
        if timed_out {
            "the provider did not answer in time".to_owned()
        } else {
            cat2("could not reach the provider: ", error)
        },
    )
}

/// A token count as it is recorded: the integer the provider gave, and zero for anything that does not read as
/// one of 32 bits.
pub open spec fn count_of(value: JsonView) -> i32 {
    match value {
        JsonView::Number(Number::PosInt(n)) if n <= i32::MAX => n as i32,
        JsonView::Number(Number::NegInt(n)) if i32::MIN <= n <= i32::MAX => n as i32,
        _ => 0,
    }
}

pub fn as_count(value: Option<&Json>) -> (count: i32)
    ensures
        count == (match value {
            Some(json) => count_of(json.deep_view()),
            None => 0,
        }),
{
    match value {
        Some(Json::Number(Number::PosInt(n))) if *n <= i32::MAX as u64 => *n as i32,
        Some(Json::Number(Number::NegInt(n))) if i32::MIN as i64 <= *n && *n <= i32::MAX as i64 => {
            *n as i32
        },
        _ => 0,
    }
}

pub open spec fn too_large() -> CallErrorView {
    CallErrorView::WorthRetrying(
        "the provider response is larger than "@ + dec(MAX_PROVIDER_RESPONSE_BYTES as nat) + " bytes"@,
    )
}

fn provider_response_too_large() -> (error: CallError)
    ensures
        error.deep_view() == too_large(),
{
    CallError::WorthRetrying(
        cat3(
            "the provider response is larger than ",
            decimal(MAX_PROVIDER_RESPONSE_BYTES as u64).as_str(),
            " bytes",
        ),
    )
}

pub open spec fn unreadable(error: Seq<char>) -> CallErrorView {
    CallErrorView::WorthRetrying("the provider sent a reply we cannot read: "@ + error)
}

pub fn unreadable_reply(error: &str) -> (failed: CallError)
    ensures
        failed.deep_view() == unreadable(error@),
{
    CallError::WorthRetrying(cat2("the provider sent a reply we cannot read: ", error))
}

/// What a reply of these bytes says: too large, unreadable, or the JSON it holds.
pub open spec fn reply_of(bytes: Seq<u8>) -> Result<JsonView, CallErrorView> {
    if bytes.len() > MAX_PROVIDER_RESPONSE_BYTES {
        Err(too_large())
    } else {
        match json_parsed(bytes) {
            Ok(json) => Ok(json),
            Err(error) => Err(unreadable(error)),
        }
    }
}

/// The bytes of a reply while it arrives, never more than a reply may hold.
#[derive(Debug)]
pub struct ReplyBuffer {
    bytes: Vec<u8>,
}

impl View for ReplyBuffer {
    type V = Seq<u8>;

    closed spec fn view(&self) -> Seq<u8> {
        self.bytes@
    }
}

impl ReplyBuffer {
    pub open spec fn well_formed(self) -> bool {
        self@.len() <= MAX_PROVIDER_RESPONSE_BYTES
    }

    /// An empty buffer, unless the reply already declares itself too large.
    pub fn new(declared: Option<u64>) -> (started: Result<ReplyBuffer, CallError>)
        ensures
            (match started {
                Ok(buffer) => buffer@ == Seq::<u8>::empty() && buffer.well_formed() && !(declared is Some
                    && declared->Some_0 > MAX_PROVIDER_RESPONSE_BYTES),
                Err(error) => declared is Some && declared->Some_0 > MAX_PROVIDER_RESPONSE_BYTES
                    && error.deep_view() == too_large(),
            }),
    {
        if let Some(length) = declared {
            if length > MAX_PROVIDER_RESPONSE_BYTES as u64 {
                return Err(provider_response_too_large());
            }
        }
        Ok(ReplyBuffer { bytes: Vec::new() })
    }

    /// Takes one more chunk, unless the reply would grow too large.
    pub fn take(&mut self, chunk: &[u8]) -> (taken: Result<(), CallError>)
        requires
            old(self).well_formed(),
        ensures
            final(self).well_formed(),
            (match taken {
                Ok(()) => final(self)@ == old(self)@ + chunk@,
                Err(error) => final(self)@ == old(self)@ && old(self)@.len() + chunk@.len()
                    > MAX_PROVIDER_RESPONSE_BYTES && error.deep_view() == too_large(),
            }),
    {
        if chunk.len() > MAX_PROVIDER_RESPONSE_BYTES - self.bytes.len() {
            return Err(provider_response_too_large());
        }
        self.bytes.extend_from_slice(chunk);
        Ok(())
    }

    /// The JSON a finished reply holds.
    pub fn read(&self) -> (read: Result<Json, CallError>)
        requires
            self.well_formed(),
        ensures
            outcome(read) == reply_of(self@),
    {
        match parse(self.bytes.as_slice()) {
            Ok(json) => Ok(json),
            Err(error) => Err(unreadable_reply(error.as_str())),
        }
    }
}

pub open spec fn flattened(chunks: Seq<Seq<u8>>) -> Seq<u8>
    decreases chunks.len(),
{
    if chunks.len() == 0 {
        seq![]
    } else {
        flattened(chunks.drop_last()) + chunks.last()
    }
}

proof fn lemma_flattened_grows(chunks: Seq<Seq<u8>>, i: int)
    requires
        0 <= i <= chunks.len(),
    ensures
        flattened(chunks.take(i)).len() <= flattened(chunks).len(),
    decreases chunks.len() - i,
{
    if i < chunks.len() {
        assert(chunks.take(i + 1).drop_last() =~= chunks.take(i));
        lemma_flattened_grows(chunks, i + 1);
    } else {
        assert(chunks.take(i) =~= chunks);
    }
}

/// A whole reply, chunk by chunk: refused as soon as it declares or holds more than a reply may, and read as
/// JSON otherwise.
pub fn read_provider_response(declared: Option<u64>, chunks: &Vec<Vec<u8>>) -> (read: Result<
    Json,
    CallError,
>)
    ensures
        outcome(read) == if declared is Some && declared->Some_0 > MAX_PROVIDER_RESPONSE_BYTES {
            Err::<JsonView, CallErrorView>(too_large())
        } else {
            reply_of(flattened(chunks.deep_view()))
        },
{
    let mut buffer: ReplyBuffer = ReplyBuffer::new(declared)?;
    let ghost views = chunks.deep_view();
    for i in 0..chunks.len()
        invariant
            views == chunks.deep_view(),
            !(declared is Some && declared->Some_0 > MAX_PROVIDER_RESPONSE_BYTES),
            buffer.well_formed(),
            buffer@ == flattened(views.take(i as int)),
    {
        assert(views.take(i as int + 1).drop_last() =~= views.take(i as int));
        assert(views[i as int] =~= chunks@[i as int]@);
        if let Err(error) = buffer.take(chunks[i].as_slice()) {
            proof {
                lemma_flattened_grows(views, i as int + 1);
            }
            return Err(error);
        }
    }
    assert(views.take(views.len() as int) =~= views);
    buffer.read()
}

/// Which statuses are worth another try, which say that the caller's own body was refused, and what is told of each.
pub proof fn law_what_a_status_stands_for(status: u16, detail: Option<Seq<char>>)
    ensures
        status == 408 || status == 429 || status >= 500 <==> status_error(
            status,
            detail,
            ClientFaults::AlwaysFinal,
        ) is WorthRetrying,
        status == 408 || status == 429 || status >= 500 <==> status_error(
            status,
            detail,
            ClientFaults::RefusedWhenBodyShaped,
        ) is WorthRetrying,
        status == 400 || status == 409 || status == 413 || status == 422 <==> status_error(
            status,
            detail,
            ClientFaults::RefusedWhenBodyShaped,
        ) is Refused,
        status_error(status, detail, ClientFaults::AlwaysFinal) !is Refused,
        status_error(status, None, ClientFaults::AlwaysFinal).message() == "the provider answered "@ + dec(
            status as nat,
        ),
        detail matches Some(said) ==> status_error(
            status,
            detail,
            ClientFaults::RefusedWhenBodyShaped,
        ).message() == "the provider answered "@ + dec(status as nat) + ": "@ + said,
        detail matches Some(said) ==> status_error(status, detail, ClientFaults::AlwaysFinal).message()
            == "the provider answered "@ + dec(status as nat) + ": "@ + said,
{
}

/// A provider that cannot be reached is worth another try, and what went wrong is told.
pub proof fn law_an_unreachable_provider_is_worth_another_try(timed_out: bool, error: Seq<char>)
    ensures
        unreachable_error(timed_out, error) is WorthRetrying,
        !timed_out ==> unreachable_error(timed_out, error).message() == "could not reach the provider: "@
            + error,
        timed_out ==> unreachable_error(timed_out, error).message() == "the provider did not answer in time"@,
{
}

/// A count of tokens is the integer that the reply holds, and zero where it holds none that fits.
pub proof fn law_a_count_is_the_integer_given(value: JsonView)
    ensures
        integer_of(value) matches Some(n) ==> count_of(value) == if i32::MIN <= n <= i32::MAX {
            n as int
        } else {
            0
        },
        integer_of(value) is None ==> count_of(value) == 0,
{
}

/// A reply of no more than 4 MiB is read as the JSON it holds; a larger one, and one that does not read, is worth
/// another try.
pub proof fn law_a_reply_is_read_as_the_json_it_holds(bytes: Seq<u8>)
    ensures
        bytes.len() <= 4_194_304 ==> (json_parsed(bytes) matches Ok(json) ==> reply_of(bytes) == Ok::<
            JsonView,
            CallErrorView,
        >(json)),
        bytes.len() <= 4_194_304 ==> (json_parsed(bytes) matches Err(error) ==> reply_of(bytes) == Err::<
            JsonView,
            CallErrorView,
        >(CallErrorView::WorthRetrying("the provider sent a reply we cannot read: "@ + error))),
        bytes.len() > 4_194_304 ==> (reply_of(bytes) matches Err(error) && error is WorthRetrying),
{
}

/// Chunks come to the same bytes however they are cut.
pub proof fn law_chunks_are_put_together_in_order(first: Seq<Seq<u8>>, then: Seq<Seq<u8>>)
    ensures
        flattened(first + then) == flattened(first) + flattened(then),
        first.len() == 1 ==> flattened(first) == first[0],
        first.len() == 0 ==> flattened(first).len() == 0,
    decreases then.len(),
{
    if first.len() == 1 {
        assert(first.drop_last() =~= seq![]);
        assert(flattened(first.drop_last()) =~= seq![]);
        assert(flattened(first) =~= first[0]);
    }
    if then.len() == 0 {
        assert(first + then =~= first);
        assert(flattened(first) + flattened(then) =~= flattened(first));
    } else {
        assert((first + then).drop_last() =~= first + then.drop_last());
        assert((first + then).last() == then.last());
        law_chunks_are_put_together_in_order(first, then.drop_last());
        assert(flattened(first + then) =~= flattened(first) + flattened(then));
    }
}

/// A reply that is too large is told with the limit.
pub proof fn law_what_is_told_of_a_large_reply(bytes: Seq<u8>)
    requires
        bytes.len() > 4_194_304,
    ensures
        reply_of(bytes) == Err::<JsonView, CallErrorView>(
            CallErrorView::WorthRetrying(
                "the provider response is larger than "@ + dec(4_194_304) + " bytes"@,
            ),
        ),
{
}

} // verus!
