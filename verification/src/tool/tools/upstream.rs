//! What the tools share when they ask a public service: the URL with its query, and reading the reply.

use vstd::prelude::*;

use crate::text::{cat2, contains_of};
use crate::tool::tools::web_fetch::{show_status, status_text};

verus! {

/// The URL that `url` writes for a base with pairs appended to its query, or the text of its error where the base is
/// no URL.
pub uninterp spec fn url_with_query(base: Seq<char>, pairs: Seq<(Seq<char>, Seq<char>)>) -> Result<
    Seq<char>,
    Seq<char>,
>;

/// The longest base to which a query is appended, in characters.
pub const MAX_BASE_CHARS: usize = 2048;

/// `url::Url::parse`, `query_pairs_mut` with `extend_pairs`, and the text of the URL. It depends on the base and the
/// pairs alone. `url` keeps the place where the query starts, and that where the fragment starts, in 32 bits, and
/// panics where one does not fit. So a long base is left out, and a base with a fragment, which stands behind the
/// query.
#[verifier::external_body]
pub(crate) fn with_query(base: &str, pairs: &Vec<(String, String)>) -> (url: Result<String, String>)
    requires
        base@.len() <= MAX_BASE_CHARS,
        !contains_of(base@, '#'),
    ensures
        (match url {
            Ok(url) => url_with_query(base@, pairs.deep_view()) == Ok::<Seq<char>, Seq<char>>(url@),
            Err(error) => url_with_query(base@, pairs.deep_view()) == Err::<Seq<char>, Seq<char>>(error@),
        }),
{
    let mut url = url::Url::parse(base).map_err(|error| error.to_string())?;
    url.query_pairs_mut().extend_pairs(pairs);
    Ok(url.into())
}

pub open spec fn is_success(status: u16) -> bool {
    200 <= status < 300
}

/// What a status that is no success is told as.
pub open spec fn refused(status: u16) -> Seq<char> {
    "returned "@ + status_text(status)
}

/// A reply is read only where its status is a success.
pub fn accepted(status: u16) -> (checked: Result<(), String>)
    ensures
        (match checked {
            Ok(()) => is_success(status),
            Err(message) => !is_success(status) && message@ == refused(status),
        }),
{
    if status >= 200 && status < 300 {
        Ok(())
    } else {
        Err(cat2("returned ", show_status(status).as_str()))
    }
}

/// What a body that does not read as the expected shape is told as.
pub open spec fn misshapen(error: Seq<char>) -> Seq<char> {
    "unexpected response shape: "@ + error
}

/// A body that was read, or the failure to read it as it is told.
pub fn shaped<T>(read: Result<T, String>) -> (reply: Result<T, String>)
    ensures
        (match reply {
            Ok(value) => read == Ok::<T, String>(value),
            Err(message) => read is Err && message@ == misshapen(read->Err_0@),
        }),
{
    match read {
        Ok(value) => Ok(value),
        Err(error) => Err(cat2("unexpected response shape: ", error.as_str())),
    }
}

/// The first of two texts, where there is one.
pub open spec fn or_text(first: Option<Seq<char>>, second: Seq<char>) -> Seq<char> {
    match first {
        Some(text) => text,
        None => second,
    }
}

pub fn text_or(first: Option<String>, second: &str) -> (text: String)
    ensures
        text@ == or_text(first.deep_view(), second@),
{
    match first {
        Some(text) => text,
        None => second.to_owned(),
    }
}

/// A status is a success between 200 and 299, and any other is told with the status.
pub proof fn law_what_a_status_is_told_as(status: u16, error: Seq<char>)
    ensures
        is_success(status) <==> 200 <= status <= 299,
        refused(status) == "returned "@ + status_text(status),
        misshapen(error) == "unexpected response shape: "@ + error,
{
}

/// A text that is there is taken, and the other only where it is not.
pub proof fn law_a_text_that_is_there_is_taken(first: Seq<char>, second: Seq<char>)
    ensures
        or_text(Some(first), second) == first,
        or_text(None, second) == second,
{
}

} // verus!
