//! Getting a page: the guard that keeps a fetch on public hosts, hop by hop, and what a reply has to hold to be
//! read.

use vstd::prelude::*;

use crate::collect::outcome;
use crate::json::{entry_views, group_json_views, lemma_holds, Json, JsonView};
use crate::text::{
    byte_len, cat2, cat3, cat4, cat5, dec, decimal, ends_with, ends_with_of, holds, holds_of, join,
    joined_with, lowered, quote, quoted, same, same_ignoring_case, trim_end_char, trim_start_char,
    trimmed_end, trimmed_start, utf8_len,
};

verus! {

broadcast use group_json_views;

/// The most a page may hold: 5 MiB.
pub const MAX_FETCH_BYTES: usize = 5_242_880;

pub const MIN_READABLE_TEXT_CHARS: usize = 40;

/// How many pages are waited for before the fullest of them is chosen.
pub const ANSWERS_BEFORE_CHOOSING: usize = 2;

pub const MAX_URL_CHARS: usize = 4_096;

/// How many hops a chain of redirects may take before it is abandoned.
pub const MAX_REDIRECT_HOPS: usize = 10;

pub const NOT_PUBLIC: &'static str =
    "url must point at a public host, not a loopback, private, or link-local address";

/// The scheme and the host of a text that `http` reads as a URI.
pub uninterp spec fn uri_of(raw: Seq<char>) -> Option<(Option<Seq<char>>, Option<Seq<char>>)>;

/// What is read of a URI: its scheme and its host, each where it has one.
pub open spec fn uri_parts(parts: Option<(Option<String>, Option<String>)>) -> Option<
    (Option<Seq<char>>, Option<Seq<char>>),
> {
    match parts {
        Some((scheme, host)) => Some((scheme.deep_view(), host.deep_view())),
        None => None,
    }
}

/// `http::Uri`'s `FromStr`, `scheme_str` and `host`: the scheme and the host of the URI, and nothing where the text
/// is none. They depend on the text alone.
#[verifier::external_body]
fn parse_uri(raw: &str) -> (parts: Option<(Option<String>, Option<String>)>)
    ensures
        uri_parts(parts) == uri_of(raw@),
{
    let uri = raw.parse::<http::Uri>().ok()?;
    Some((uri.scheme_str().map(str::to_owned), uri.host().map(str::to_owned)))
}

/// The host of an absolute http or https URL.
pub open spec fn web_host(uri: Option<(Option<Seq<char>>, Option<Seq<char>>)>) -> Option<Seq<char>> {
    match uri {
        Some((Some(scheme), Some(host))) => if scheme == "http"@ || scheme == "https"@ {
            Some(host)
        } else {
            None
        },
        _ => None,
    }
}

/// A host that is never public, by its name alone.
pub open spec fn is_local_name(host: Seq<char>) -> bool {
    ||| host.len() == 0
    ||| lowered(host) == lowered("localhost"@)
    ||| ends_with_of(host, ".localhost"@)
}

/// A host as an address is read from it: without the brackets around it.
pub open spec fn literal_of(host: Seq<char>) -> Seq<char> {
    trimmed_end(trimmed_start(host, '['), ']')
}

/// The host a URL names, given what was read of the URL; or why it cannot be fetched, whatever it resolves to.
pub open spec fn host_of(
    raw: Seq<char>,
    uri: Option<(Option<Seq<char>>, Option<Seq<char>>)>,
) -> Result<Seq<char>, Seq<char>> {
    if raw.len() == 0 {
        Err("url is required"@)
    } else if raw.len() > MAX_URL_CHARS {
        Err("url is longer than "@ + dec(MAX_URL_CHARS as nat) + " characters"@)
    } else {
        match web_host(uri) {
            None => Err("url must be an absolute http or https URL"@),
            Some(host) => if is_local_name(host) {
                Err(NOT_PUBLIC@)
            } else {
                Ok(literal_of(host))
            },
        }
    }
}

/// Checks a URL given what was read of it.
pub fn checked_host(raw: &str, uri: Option<(Option<String>, Option<String>)>) -> (host: Result<
    String,
    String,
>)
    ensures
        outcome(host) == host_of(raw@, uri_parts(uri)),
{
    if raw.is_empty() {
        return Err("url is required".to_owned());
    }
    if raw.unicode_len() > MAX_URL_CHARS {
        return Err(
            cat3("url is longer than ", decimal(MAX_URL_CHARS as u64).as_str(), " characters"),
        );
    }
    let host: String = match uri {
        Some((Some(scheme), Some(host))) if same(scheme.as_str(), "http") || same(
            scheme.as_str(),
            "https",
        ) => host,
        _ => {
            return Err("url must be an absolute http or https URL".to_owned());
        },
    };
    if host.as_str().is_empty() || same_ignoring_case(host.as_str(), "localhost") || ends_with(
        host.as_str(),
        ".localhost",
    ) {
        return Err(NOT_PUBLIC.to_owned());
    }
    Ok(trim_end_char(trim_start_char(host.as_str(), '[').as_str(), ']'))
}

/// The host that has to be looked up before a URL may be fetched.
pub fn url_host(raw: &str) -> (host: Result<String, String>)
    ensures
        outcome(host) == host_of(raw@, uri_of(raw@)),
{
    checked_host(raw, parse_uri(raw))
}

/// An address: the four bytes of a short one, or the eight groups of a long one.
#[derive(Clone, Copy, Debug, PartialEq, Eq, Structural)]
pub enum Ip {
    V4(u8, u8, u8, u8),
    V6(u16, u16, u16, u16, u16, u16, u16, u16),
}

/// A short address that is not public: loopback, private, link-local, unspecified, broadcast or multicast.
pub open spec fn is_private_v4(a: u8, b: u8, c: u8, d: u8) -> bool {
    ||| a == 127
    ||| a == 10
    ||| a == 172 && 16 <= b <= 31
    ||| a == 192 && b == 168
    ||| a == 169 && b == 254
    ||| a == 0 && b == 0 && c == 0 && d == 0
    ||| a == 255 && b == 255 && c == 255 && d == 255
    ||| 224 <= a <= 239
}

/// An address that is not public. A long one is not public either where it stands for a short one that is not.
pub open spec fn is_private(ip: Ip) -> bool {
    match ip {
        Ip::V4(a, b, c, d) => is_private_v4(a, b, c, d),
        Ip::V6(s0, s1, s2, s3, s4, s5, s6, s7) => {
            let high = s0 == 0 && s1 == 0 && s2 == 0 && s3 == 0 && s4 == 0;
            ||| high && s5 == 0 && s6 == 0 && s7 <= 1
            ||| s0 >= 0xff00
            ||| 0xfc00 <= s0 <= 0xfdff
            ||| 0xfe80 <= s0 <= 0xfebf
            ||| high && s5 == 0xffff && is_private_v4(
                (s6 / 256) as u8,
                (s6 % 256) as u8,
                (s7 / 256) as u8,
                (s7 % 256) as u8,
            )
        },
    }
}

fn private_v4(a: u8, b: u8, c: u8, d: u8) -> (answer: bool)
    ensures
        answer == is_private_v4(a, b, c, d),
{
    a == 127 || a == 10 || (a == 172 && b >= 16 && b <= 31) || (a == 192 && b == 168) || (a == 169 && b
        == 254) || (a == 0 && b == 0 && c == 0 && d == 0) || (a == 255 && b == 255 && c == 255 && d == 255)
        || (a >= 224 && a <= 239)
}

pub fn is_private_ip(ip: Ip) -> (answer: bool)
    ensures
        answer == is_private(ip),
{
    match ip {
        Ip::V4(a, b, c, d) => private_v4(a, b, c, d),
        Ip::V6(s0, s1, s2, s3, s4, s5, s6, s7) => {
            let high: bool = s0 == 0 && s1 == 0 && s2 == 0 && s3 == 0 && s4 == 0;
            (high && s5 == 0 && s6 == 0 && s7 <= 1) || s0 >= 0xff00 || (s0 >= 0xfc00 && s0 <= 0xfdff) || (
            s0 >= 0xfe80 && s0 <= 0xfebf) || (high && s5 == 0xffff && private_v4(
                (s6 / 256) as u8,
                (s6 % 256) as u8,
                (s7 / 256) as u8,
                (s7 % 256) as u8,
            ))
        },
    }
}

/// Where a host was found: it is an address itself, it resolves to addresses, or it could not be resolved.
#[derive(Debug, PartialEq, Eq)]
pub enum Found {
    Literal(Ip),
    Resolved(Vec<Ip>),
    Unresolved(String),
}

pub enum FoundView {
    Literal(Ip),
    Resolved(Seq<Ip>),
    Unresolved(Seq<char>),
}

impl DeepView for Found {
    type V = FoundView;

    open spec fn deep_view(&self) -> FoundView {
        match self {
            Found::Literal(ip) => FoundView::Literal(*ip),
            Found::Resolved(addresses) => FoundView::Resolved(addresses@),
            Found::Unresolved(error) => FoundView::Unresolved(error@),
        }
    }
}

/// Why a host may not be fetched, given where it was found: every address it has must be public.
pub open spec fn found_fault(found: FoundView) -> Option<Seq<char>> {
    match found {
        FoundView::Literal(ip) => if is_private(ip) {
            Some(NOT_PUBLIC@)
        } else {
            None
        },
        FoundView::Unresolved(error) => Some("url host could not be resolved: "@ + error),
        FoundView::Resolved(addresses) => if exists|i: int|
            0 <= i < addresses.len() && is_private(#[trigger] addresses[i]) {
            Some(NOT_PUBLIC@)
        } else if addresses.len() == 0 {
            Some("url host did not resolve to an address"@)
        } else {
            None
        },
    }
}

/// Why a URL may not be fetched.
pub open spec fn url_fault(
    raw: Seq<char>,
    uri: Option<(Option<Seq<char>>, Option<Seq<char>>)>,
    found: FoundView,
) -> Option<Seq<char>> {
    match host_of(raw, uri) {
        Err(error) => Some(error),
        Ok(_) => found_fault(found),
    }
}

/// A check passed, or failed with the fault it found.
pub open spec fn finds(checked: Result<(), String>, fault: Option<Seq<char>>) -> bool {
    match checked {
        Ok(()) => fault is None,
        Err(error) => fault == Some(error@),
    }
}

pub fn public_ip(ip: Ip) -> (checked: Result<(), String>)
    ensures
        finds(checked, found_fault(FoundView::Literal(ip))),
{
    if is_private_ip(ip) {
        Err(NOT_PUBLIC.to_owned())
    } else {
        Ok(())
    }
}

fn check_found(found: &Found) -> (checked: Result<(), String>)
    ensures
        finds(checked, found_fault(found.deep_view())),
{
    match found {
        Found::Literal(ip) => public_ip(*ip),
        Found::Unresolved(error) => Err(cat2("url host could not be resolved: ", error.as_str())),
        Found::Resolved(addresses) => {
            for i in 0..addresses.len()
                invariant
                    found.deep_view() == FoundView::Resolved(addresses@),
                    forall|k: int| 0 <= k < i ==> !is_private(#[trigger] addresses@[k]),
            {
                if is_private_ip(addresses[i]) {
                    return Err(NOT_PUBLIC.to_owned());
                }
            }
            if addresses.len() == 0 {
                return Err("url host did not resolve to an address".to_owned());
            }
            Ok(())
        },
    }
}

/// Whether a URL may be fetched, given where the host that `url_host` names was found.
pub fn ensure_public_url(raw: &str, found: &Found) -> (checked: Result<(), String>)
    ensures
        finds(checked, url_fault(raw@, uri_of(raw@), found.deep_view())),
{
    if let Err(error) = url_host(raw) {
        return Err(error);
    }
    check_found(found)
}

/// A URL that passes names a host on the web that is not local by name, and every address it has is public.
pub proof fn law_only_public_hosts_pass(
    raw: Seq<char>,
    uri: Option<(Option<Seq<char>>, Option<Seq<char>>)>,
    found: FoundView,
)
    requires
        url_fault(raw, uri, found) is None,
    ensures
        0 < raw.len() <= MAX_URL_CHARS,
        web_host(uri) is Some,
        !is_local_name(web_host(uri)->Some_0),
        found matches FoundView::Literal(ip) ==> !is_private(ip),
        found matches FoundView::Resolved(addresses) ==> addresses.len() > 0 && forall|i: int|
            0 <= i < addresses.len() ==> !is_private(#[trigger] addresses[i]),
        found !is Unresolved,
{
}

/// A page as it was read: its title, and its text.
#[derive(Debug, PartialEq, Eq)]
pub struct Extracted {
    pub title: Option<String>,
    pub main_text: String,
}

pub struct ExtractedView {
    pub title: Option<Seq<char>>,
    pub main_text: Seq<char>,
}

impl DeepView for Extracted {
    type V = ExtractedView;

    open spec fn deep_view(&self) -> ExtractedView {
        ExtractedView { title: self.title.deep_view(), main_text: self.main_text@ }
    }
}

pub open spec fn page_json(page: ExtractedView) -> JsonView {
    JsonView::Object(
        seq![
            ("text"@, JsonView::Text(page.main_text)),
            (
                "title"@,
                match page.title {
                    Some(title) => JsonView::Text(title),
                    None => JsonView::Null,
                },
            ),
        ],
    )
}

pub fn readable_page_json(page: &Extracted) -> (json: Json)
    ensures
        json.deep_view() == page_json(page.deep_view()),
{
    let mut entries: Vec<(String, Json)> = Vec::new();
    entries.push(("text".to_owned(), Json::Text(page.main_text.clone())));
    entries.push(
        (
            "title".to_owned(),
            match &page.title {
                Some(title) => Json::Text(title.clone()),
                None => Json::Null,
            },
        ),
    );
    assert(entry_views(entries@) =~= page_json(page.deep_view())->Object_0);
    Json::Object(entries)
}

/// The text that the standard library's lower case of a text is.
pub uninterp spec fn lowercase_of(text: Seq<char>) -> Seq<char>;

/// `str::to_lowercase` of the standard library, which depends on the text alone.
#[verifier::external_body]
fn lowercase(text: &str) -> (result: String)
    ensures
        result@ == lowercase_of(text@),
{
    text.to_lowercase()
}

/// How a request went wrong: it timed out, it could not connect, it was redirected too often, its reply could not
/// be read, or something else.
#[derive(Debug, PartialEq, Eq)]
pub enum SendFault {
    TimedOut,
    Connect(String),
    Redirect,
    Body,
    Other(String),
}

pub enum SendFaultView {
    TimedOut,
    Connect(Seq<char>),
    Redirect,
    Body,
    Other(Seq<char>),
}

impl DeepView for SendFault {
    type V = SendFaultView;

    open spec fn deep_view(&self) -> SendFaultView {
        match self {
            SendFault::TimedOut => SendFaultView::TimedOut,
            SendFault::Connect(detail) => SendFaultView::Connect(detail@),
            SendFault::Redirect => SendFaultView::Redirect,
            SendFault::Body => SendFaultView::Body,
            SendFault::Other(error) => SendFaultView::Other(error@),
        }
    }
}

/// Why a connection failed, given the detail and the detail in lower case.
pub open spec fn connect_reason(detail: Seq<char>, lower: Seq<char>) -> Seq<char> {
    if holds_of(lower, "dns"@) || holds_of(lower, "name or service not known"@) {
        "host could not be resolved ("@ + detail + ")"@
    } else if holds_of(lower, "refused"@) {
        "connection refused ("@ + detail + ")"@
    } else if detail.len() == 0 {
        "could not connect"@
    } else {
        "could not connect ("@ + detail + ")"@
    }
}

pub fn connect_failure(detail: &str, lower: &str) -> (reason: String)
    ensures
        reason@ == connect_reason(detail@, lower@),
{
    if holds(lower, "dns") || holds(lower, "name or service not known") {
        cat3("host could not be resolved (", detail, ")")
    } else if holds(lower, "refused") {
        cat3("connection refused (", detail, ")")
    } else if detail.is_empty() {
        "could not connect".to_owned()
    } else {
        cat3("could not connect (", detail, ")")
    }
}

/// A failed request as it is told: what actually went wrong, with the URL it went wrong at.
pub open spec fn send_failure(url: Seq<char>, fault: SendFaultView) -> Seq<char> {
    "fetch "@ + url + " failed: "@ + match fault {
        SendFaultView::TimedOut => "timed out"@,
        SendFaultView::Connect(detail) => connect_reason(detail, lowercase_of(detail)),
        SendFaultView::Redirect => "too many redirects"@,
        SendFaultView::Body => "the response body could not be read"@,
        SendFaultView::Other(error) => "the request failed ("@ + error + ")"@,
    }
}

pub fn readable_send_failure(url: &str, fault: &SendFault) -> (told: String)
    ensures
        told@ == send_failure(url@, fault.deep_view()),
{
    let reason: String = match fault {
        SendFault::TimedOut => "timed out".to_owned(),
        SendFault::Connect(detail) => connect_failure(
            detail.as_str(),
            lowercase(detail.as_str()).as_str(),
        ),
        SendFault::Redirect => "too many redirects".to_owned(),
        SendFault::Body => "the response body could not be read".to_owned(),
        SendFault::Other(error) => cat3("the request failed (", error.as_str(), ")"),
    };
    cat4("fetch ", url, " failed: ", reason.as_str())
}

/// Why a redirect could not be resolved: the URL it came from, or the place it points at.
#[derive(Debug, PartialEq, Eq)]
pub enum ResolveFault {
    From(String),
    Location(String),
}

pub enum ResolveFaultView {
    From(Seq<char>),
    Location(Seq<char>),
}

impl DeepView for ResolveFault {
    type V = ResolveFaultView;

    open spec fn deep_view(&self) -> ResolveFaultView {
        match self {
            ResolveFault::From(error) => ResolveFaultView::From(error@),
            ResolveFault::Location(error) => ResolveFaultView::Location(error@),
        }
    }
}

/// The place a location points at, seen from a URL, as `url` resolves it.
pub uninterp spec fn joined_url(from: Seq<char>, location: Seq<char>) -> Result<
    Seq<char>,
    ResolveFaultView,
>;

/// `url::Url::parse` of the first text, and its `join` with the second: the URL they come to, or the text of the
/// error and which of the two it is of. It depends on the two texts alone.
#[verifier::external_body]
fn join_url(from: &str, location: &str) -> (joined: Result<String, ResolveFault>)
    ensures
        outcome(joined) == joined_url(from@, location@),
{
    let base = url::Url::parse(from).map_err(|e| ResolveFault::From(e.to_string()))?;
    base.join(location).map(String::from).map_err(|e| ResolveFault::Location(e.to_string()))
}

pub open spec fn resolve_told(
    from: Seq<char>,
    location: Seq<char>,
    joined: Result<Seq<char>, ResolveFaultView>,
) -> Result<Seq<char>, Seq<char>> {
    match joined {
        Ok(next) => Ok(next),
        Err(ResolveFaultView::From(error)) => Err(
            "could not read "@ + from + " as a URL: "@ + error,
        ),
        Err(ResolveFaultView::Location(error)) => Err(
            "could not resolve redirect target "@ + quoted(location) + ": "@ + error,
        ),
    }
}

/// Tells what resolving a redirect came to.
pub fn resolved(from: &str, location: &str, joined: Result<String, ResolveFault>) -> (next: Result<
    String,
    String,
>)
    ensures
        outcome(next) == resolve_told(from@, location@, outcome(joined)),
{
    match joined {
        Ok(next) => Ok(next),
        Err(ResolveFault::From(error)) => Err(
            cat4("could not read ", from, " as a URL: ", error.as_str()),
        ),
        Err(ResolveFault::Location(error)) => Err(
            cat4(
                "could not resolve redirect target ",
                quote(location).as_str(),
                ": ",
                error.as_str(),
            ),
        ),
    }
}

/// A relative location is resolved against the URL it came from.
pub fn resolve(from: &str, location: &str) -> (next: Result<String, String>)
    ensures
        outcome(next) == resolve_told(from@, location@, joined_url(from@, location@)),
{
    resolved(from, location, join_url(from, location))
}

/// Where a reply redirects to: nowhere, unless its status is one of a redirect and its location reads as text.
pub fn redirect_target(status: u16, location: Option<String>) -> (target: Option<String>)
    ensures
        target.deep_view() == if 300 <= status < 400 {
            location.deep_view()
        } else {
            None
        },
{
    if status >= 300 && status < 400 {
        location
    } else {
        None
    }
}

/// A chain of redirects under way: the URL it started from, the one to ask next, and the hops it took.
#[derive(Debug, PartialEq, Eq)]
pub struct Chain {
    pub url: String,
    pub here: String,
    pub hops: usize,
}

pub struct ChainView {
    pub url: Seq<char>,
    pub here: Seq<char>,
    pub hops: nat,
}

impl DeepView for Chain {
    type V = ChainView;

    open spec fn deep_view(&self) -> ChainView {
        ChainView { url: self.url@, here: self.here@, hops: self.hops as nat }
    }
}

/// What a hop comes to: the next URL is asked only where the guard lets it pass, and not past the last hop a chain
/// may take.
pub open spec fn hop_of(chain: ChainView, next: Seq<char>, fault: Option<Seq<char>>) -> Result<
    ChainView,
    Seq<char>,
> {
    match fault {
        Some(reason) => Err(reason),
        None => if chain.hops >= MAX_REDIRECT_HOPS {
            Err(
                chain.url + " redirected more than "@ + dec(MAX_REDIRECT_HOPS as nat)
                    + " times, so the chain was abandoned"@,
            )
        } else {
            Ok(ChainView { here: next, hops: chain.hops + 1, ..chain })
        },
    }
}

impl Chain {
    pub fn start(url: &str) -> (chain: Chain)
        ensures
            chain.deep_view() == (ChainView { url: url@, here: url@, hops: 0 }),
    {
        Chain { url: url.to_owned(), here: url.to_owned(), hops: 0 }
    }

    /// Follows a redirect, given what the guard said of the URL it points at.
    pub fn follow(self, next: String, guard: Result<(), String>) -> (followed: Result<Chain, String>)
        requires
            self.hops <= MAX_REDIRECT_HOPS,
        ensures
            outcome(followed) == hop_of(
                self.deep_view(),
                next@,
                match guard {
                    Ok(()) => None,
                    Err(reason) => Some(reason@),
                },
            ),
            followed is Ok ==> followed->Ok_0.hops <= MAX_REDIRECT_HOPS,
    {
        if let Err(reason) = guard {
            return Err(reason);
        }
        if self.hops >= MAX_REDIRECT_HOPS {
            return Err(
                cat4(
                    self.url.as_str(),
                    " redirected more than ",
                    decimal(MAX_REDIRECT_HOPS as u64).as_str(),
                    " times, so the chain was abandoned",
                ),
            );
        }
        Ok(Chain { url: self.url, here: next, hops: self.hops + 1 })
    }
}

/// A chain after a run of hops, each a URL with what the guard said of it.
pub open spec fn chased(chain: ChainView, hops: Seq<(Seq<char>, Option<Seq<char>>)>) -> Result<
    ChainView,
    Seq<char>,
>
    decreases hops.len(),
{
    if hops.len() == 0 {
        Ok(chain)
    } else {
        match chased(chain, hops.drop_last()) {
            Err(error) => Err(error),
            Ok(before) => hop_of(before, hops.last().0, hops.last().1),
        }
    }
}

/// Every URL a chain asks after its first was let pass by the guard, it is the one asked last that is asked next,
/// and no chain takes more hops than it may.
pub proof fn law_every_hop_is_guarded(url: Seq<char>, hops: Seq<(Seq<char>, Option<Seq<char>>)>)
    requires
        chased(ChainView { url, here: url, hops: 0 }, hops) is Ok,
    ensures
        hops.len() <= MAX_REDIRECT_HOPS,
        forall|i: int| 0 <= i < hops.len() ==> (#[trigger] hops[i]).1 is None,
        hops.len() > 0 ==> chased(ChainView { url, here: url, hops: 0 }, hops)->Ok_0.here
            == hops.last().0,
        chased(ChainView { url, here: url, hops: 0 }, hops)->Ok_0.hops == hops.len(),
    decreases hops.len(),
{
    if hops.len() > 0 {
        law_every_hop_is_guarded(url, hops.drop_last());
        assert forall|i: int| 0 <= i < hops.len() implies (#[trigger] hops[i]).1 is None by {
            if i < hops.len() - 1 {
                assert(hops.drop_last()[i] == hops[i]);
            }
        }
    }
}

/// The text that `http` writes for a status.
pub uninterp spec fn status_text(status: u16) -> Seq<char>;

/// `http::StatusCode`'s `from_u16` and `Display`: the code and its reason, and no text at all for a number that is no
/// status. It depends on the number alone.
#[verifier::external_body]
pub(crate) fn show_status(status: u16) -> (text: String)
    ensures
        text@ == status_text(status),
{
    http::StatusCode::from_u16(status).map(|code| code.to_string()).unwrap_or_default()
}

/// The bytes of a reply while it arrives, never more than a limit.
#[derive(Debug)]
pub struct Body {
    bytes: Vec<u8>,
    limit: usize,
}

impl Body {
    pub closed spec fn held(self) -> Seq<u8> {
        self.bytes@
    }

    pub closed spec fn most(self) -> nat {
        self.limit as nat
    }

    pub open spec fn well_formed(self) -> bool {
        self.held().len() <= self.most()
    }

    pub fn new(limit: usize) -> (body: Body)
        ensures
            body.held() == Seq::<u8>::empty(),
            body.most() == limit,
            body.well_formed(),
    {
        Body { bytes: Vec::new(), limit }
    }

    /// Takes one more chunk and says whether it still fits; one that does not is not kept.
    pub fn take(&mut self, chunk: &[u8]) -> (fits: bool)
        requires
            old(self).well_formed(),
        ensures
            final(self).well_formed(),
            final(self).most() == old(self).most(),
            fits == (old(self).held().len() + chunk@.len() <= old(self).most()),
            final(self).held() == if fits {
                old(self).held() + chunk@
            } else {
                old(self).held()
            },
    {
        if chunk.len() > self.limit - self.bytes.len() {
            return false;
        }
        self.bytes.extend_from_slice(chunk);
        true
    }

    pub fn bytes(&self) -> (bytes: &Vec<u8>)
        ensures
            bytes@ == self.held(),
    {
        &self.bytes
    }
}

pub open spec fn oversized(url: Seq<char>) -> Seq<char> {
    url + " exceeded "@ + dec(MAX_FETCH_BYTES as nat) + " bytes, refusing to download the rest"@
}

pub fn oversized_page(url: &str) -> (told: String)
    ensures
        told@ == oversized(url@),
{
    cat4(
        url,
        " exceeded ",
        decimal(MAX_FETCH_BYTES as u64).as_str(),
        " bytes, refusing to download the rest",
    )
}

/// A status has to say that a page came at all.
pub fn check_status(url: &str, status: u16) -> (checked: Result<(), String>)
    ensures
        finds(
            checked,
            if 200 <= status < 300 {
                None
            } else {
                Some("fetch "@ + url@ + " returned "@ + status_text(status))
            },
        ),
{
    if status >= 200 && status < 300 {
        return Ok(());
    }
    Err(cat4("fetch ", url, " returned ", show_status(status).as_str()))
}

/// A page is an answer only where it carries text to read.
pub open spec fn readable_of(url: Seq<char>, page: ExtractedView) -> Result<ExtractedView, Seq<char>> {
    if page.main_text.len() < MIN_READABLE_TEXT_CHARS {
        Err(
            "fetch "@ + url + " extracted under "@ + dec(MIN_READABLE_TEXT_CHARS as nat)
                + " characters of text, so the page carried no readable content to answer from"@,
        )
    } else {
        Ok(page)
    }
}

pub fn readable(url: &str, page: Extracted) -> (read: Result<Extracted, String>)
    ensures
        outcome(read) == readable_of(url@, page.deep_view()),
{
    if page.main_text.as_str().unicode_len() < MIN_READABLE_TEXT_CHARS {
        return Err(
            cat5(
                "fetch ",
                url,
                " extracted under ",
                decimal(MIN_READABLE_TEXT_CHARS as u64).as_str(),
                " characters of text, so the page carried no readable content to answer from",
            ),
        );
    }
    Ok(page)
}

/// The position of the fullest page, the last of them where several are as full.
pub open spec fn fullest(pages: Seq<(Seq<char>, ExtractedView)>) -> int
    decreases pages.len(),
{
    if pages.len() <= 1 {
        0
    } else {
        let before = fullest(pages.drop_last());
        if utf8_len(pages.last().1.main_text) >= utf8_len(pages[before].1.main_text) {
            pages.len() - 1
        } else {
            before
        }
    }
}

/// The fullest page that came, or why none did: whoever answers first is decided by the network, which has nothing to
/// do with whether a page holds the answer.
pub open spec fn richest_of(pages: Seq<(Seq<char>, ExtractedView)>, failures: Seq<Seq<char>>) -> Result<
    ExtractedView,
    Seq<char>,
> {
    if pages.len() == 0 {
        Err("every url failed — "@ + joined_with(failures, "; "@))
    } else {
        Ok(pages[fullest(pages)].1)
    }
}

fn copy_page(page: &Extracted) -> (copy: Extracted)
    ensures
        copy.deep_view() == page.deep_view(),
{
    Extracted {
        title: match &page.title {
            Some(title) => Some(title.clone()),
            None => None,
        },
        main_text: page.main_text.clone(),
    }
}

pub fn richest(pages: &Vec<(String, Extracted)>, failures: &Vec<String>) -> (page: Result<
    Extracted,
    String,
>)
    ensures
        outcome(page) == richest_of(pages.deep_view(), failures.deep_view()),
{
    if pages.len() == 0 {
        return Err(cat2("every url failed — ", join(failures, "; ").as_str()));
    }
    let ghost views = pages.deep_view();
    let mut best: usize = 0;
    for i in 1..pages.len()
        invariant
            views == pages.deep_view(),
            0 < i <= pages@.len(),
            best < i,
            best == fullest(views.take(i as int)),
    {
        let ghost seen = views.take(i as int + 1);
        assert(seen.drop_last() =~= views.take(i as int));
        assert(seen.last().1.main_text == pages@[i as int].1.main_text@);
        assert(seen[best as int].1.main_text == pages@[best as int].1.main_text@);
        if byte_len(pages[i].1.main_text.as_str()) >= byte_len(pages[best].1.main_text.as_str()) {
            best = i;
        }
    }
    assert(views.take(views.len() as int) =~= views);
    Ok(copy_page(&pages[best].1))
}

/// No page that came is fuller than the one that is chosen.
pub proof fn law_the_fullest_page_wins(pages: Seq<(Seq<char>, ExtractedView)>)
    requires
        pages.len() > 0,
    ensures
        0 <= fullest(pages) < pages.len(),
        forall|i: int|
            0 <= i < pages.len() ==> utf8_len((#[trigger] pages[i]).1.main_text) <= utf8_len(
                pages[fullest(pages)].1.main_text,
            ),
        forall|i: int|
            fullest(pages) < i < pages.len() ==> utf8_len((#[trigger] pages[i]).1.main_text) < utf8_len(
                pages[fullest(pages)].1.main_text,
            ),
    decreases pages.len(),
{
    if pages.len() > 1 {
        let before = pages.drop_last();
        law_the_fullest_page_wins(before);
        assert forall|i: int| 0 <= i < pages.len() implies utf8_len((#[trigger] pages[i]).1.main_text)
            <= utf8_len(pages[fullest(pages)].1.main_text) by {
            if i < before.len() {
                assert(before[i] == pages[i]);
            }
        }
        assert forall|i: int| fullest(pages) < i < pages.len() implies utf8_len(
            (#[trigger] pages[i]).1.main_text,
        ) < utf8_len(pages[fullest(pages)].1.main_text) by {
            if i < before.len() {
                assert(before[i] == pages[i]);
            }
        }
    }
}

/// A page is shown with its own text and its own title, each under its own name, and null where it has no title.
pub proof fn law_a_page_is_shown_as_it_was_read(page: ExtractedView)
    ensures
        page_json(page).at("text"@) == JsonView::Text(page.main_text),
        page.title matches Some(title) ==> page_json(page).at("title"@) == JsonView::Text(title),
        page.title is None ==> page_json(page).get("title"@) == Some(JsonView::Null),
{
    reveal_strlit("text");
    reveal_strlit("title");
    let entries = page_json(page)->Object_0;
    assert(entries[0].0 == "text"@ && entries[1].0 == "title"@);
    assert("text"@.len() != "title"@.len());
    lemma_holds(entries, 0);
    lemma_holds(entries, 1);
}

/// The number that a short address is.
pub open spec fn number_of_v4(a: u8, b: u8, c: u8, d: u8) -> int {
    a * 0x100_0000 + b * 0x1_0000 + c * 0x100 + d
}

/// Which short addresses are not public, by the numbers they are: six ranges, and the lowest and the highest of all.
pub proof fn law_which_short_addresses_are_not_public(a: u8, b: u8, c: u8, d: u8)
    ensures
        is_private(Ip::V4(a, b, c, d)) <==> {
            let n = number_of_v4(a, b, c, d);
            ||| n == 0
            ||| 0x0a00_0000 <= n <= 0x0aff_ffff
            ||| 0x7f00_0000 <= n <= 0x7fff_ffff
            ||| 0xa9fe_0000 <= n <= 0xa9fe_ffff
            ||| 0xac10_0000 <= n <= 0xac1f_ffff
            ||| 0xc0a8_0000 <= n <= 0xc0a8_ffff
            ||| 0xe000_0000 <= n <= 0xefff_ffff
            ||| n == 0xffff_ffff
        },
{
}

/// Which long addresses are not public: the unspecified one, loopback, those of a site, of a link and of a group, and
/// those that stand for a short one that is not.
pub proof fn law_which_long_addresses_are_not_public(
    s0: u16,
    s1: u16,
    s2: u16,
    s3: u16,
    s4: u16,
    s5: u16,
    s6: u16,
    s7: u16,
    a: u8,
    b: u8,
    c: u8,
    d: u8,
)
    ensures
        is_private(Ip::V6(0, 0, 0, 0, 0, 0, 0, 0)),
        is_private(Ip::V6(0, 0, 0, 0, 0, 0, 0, 1)),
        0xfc00 <= s0 <= 0xfdff || 0xfe80 <= s0 <= 0xfebf || 0xff00 <= s0 ==> is_private(
            Ip::V6(s0, s1, s2, s3, s4, s5, s6, s7),
        ),
        0 < s0 < 0xfc00 || 0xfe00 <= s0 < 0xfe80 || 0xfec0 <= s0 < 0xff00 ==> !is_private(
            Ip::V6(s0, s1, s2, s3, s4, s5, s6, s7),
        ),
        is_private(Ip::V6(0, 0, 0, 0, 0, 0xffff, (a * 256 + b) as u16, (c * 256 + d) as u16)) <==> is_private(
            Ip::V4(a, b, c, d),
        ),
        s0 == 0 && s5 != 0xffff && (s1 != 0 || s2 != 0 || s3 != 0 || s4 != 0 || s5 != 0 || s6 != 0 || s7 > 1)
            ==> !is_private(Ip::V6(s0, s1, s2, s3, s4, s5, s6, s7)),
{
    assert((a * 256 + b) as u16 / 256 == a && (a * 256 + b) as u16 % 256 == b);
    assert((c * 256 + d) as u16 / 256 == c && (c * 256 + d) as u16 % 256 == d);
}

/// A URL is fetched exactly where it is no longer than it may be, is one of the web, names a host that is not local, and
/// every address of that host is public; and the host looked up is the one the URL names, without the brackets.
pub proof fn law_when_a_url_is_fetched(
    raw: Seq<char>,
    scheme: Seq<char>,
    host: Seq<char>,
    addresses: Seq<Ip>,
)
    requires
        0 < raw.len() <= 4_096,
        scheme == "http"@ || scheme == "https"@,
        host.len() > 0,
        lowered(host) != lowered("localhost"@),
        !ends_with_of(host, ".localhost"@),
    ensures
        host_of(raw, Some((Some(scheme), Some(host)))) == Ok::<Seq<char>, Seq<char>>(
            trimmed_end(trimmed_start(host, '['), ']'),
        ),
        addresses.len() > 0 && (forall|i: int|
            0 <= i < addresses.len() ==> !is_private(#[trigger] addresses[i])) ==> url_fault(
            raw,
            Some((Some(scheme), Some(host))),
            FoundView::Resolved(addresses),
        ) is None,
        (exists|i: int| 0 <= i < addresses.len() && is_private(#[trigger] addresses[i])) ==> url_fault(
            raw,
            Some((Some(scheme), Some(host))),
            FoundView::Resolved(addresses),
        ) == Some("url must point at a public host, not a loopback, private, or link-local address"@),
        addresses.len() == 0 ==> url_fault(
            raw,
            Some((Some(scheme), Some(host))),
            FoundView::Resolved(addresses),
        ) is Some,
{
}

/// What is no URL of the web, is too long, or names a local host is refused before anything is looked up.
pub proof fn law_what_is_refused_before_it_is_looked_up(
    raw: Seq<char>,
    uri: Option<(Option<Seq<char>>, Option<Seq<char>>)>,
    found: FoundView,
)
    ensures
        raw.len() == 0 || raw.len() > 4_096 ==> url_fault(raw, uri, found) is Some,
        uri is None ==> url_fault(raw, uri, found) is Some,
        uri matches Some((scheme, host)) ==> (scheme is None || host is None || (scheme != Some("http"@) && scheme
            != Some("https"@)) ==> url_fault(raw, uri, found) is Some),
        uri matches Some((scheme, Some(host))) ==> (host.len() == 0 || lowered(host) == lowered("localhost"@)
            || ends_with_of(host, ".localhost"@) ==> url_fault(raw, uri, found) is Some),
{
}

/// How a failed request is told: the URL first, and then what went wrong.
pub proof fn law_how_a_failed_request_is_told(url: Seq<char>, detail: Seq<char>)
    ensures
        send_failure(url, SendFaultView::TimedOut) == "fetch "@ + url + " failed: "@ + "timed out"@,
        send_failure(url, SendFaultView::Redirect) == "fetch "@ + url + " failed: "@ + "too many redirects"@,
        send_failure(url, SendFaultView::Body) == "fetch "@ + url + " failed: "@
            + "the response body could not be read"@,
        send_failure(url, SendFaultView::Other(detail)) == "fetch "@ + url + " failed: "@ + ("the request failed ("@
            + detail + ")"@),
        send_failure(url, SendFaultView::Connect(detail)) == "fetch "@ + url + " failed: "@ + connect_reason(
            detail,
            lowercase_of(detail),
        ),
        forall|lower: Seq<char>|
            holds_of(lower, "dns"@) ==> #[trigger] connect_reason(detail, lower)
                == "host could not be resolved ("@ + detail + ")"@,
        forall|lower: Seq<char>|
            !holds_of(lower, "dns"@) && !holds_of(lower, "name or service not known"@) && holds_of(
                lower,
                "refused"@,
            ) ==> #[trigger] connect_reason(detail, lower) == "connection refused ("@ + detail + ")"@,
        forall|lower: Seq<char>|
            !holds_of(lower, "dns"@) && !holds_of(lower, "name or service not known"@) && !holds_of(
                lower,
                "refused"@,
            ) ==> #[trigger] connect_reason(detail, lower) == if detail.len() == 0 {
                "could not connect"@
            } else {
                "could not connect ("@ + detail + ")"@
            },
{
}

/// A redirect leads where the location points, seen from where it came; what cannot be resolved is told with the part
/// that is at fault.
pub proof fn law_a_redirect_leads_where_it_points(from: Seq<char>, location: Seq<char>, next: Seq<char>, error: Seq<char>)
    ensures
        resolve_told(from, location, Ok(next)) == Ok::<Seq<char>, Seq<char>>(next),
        resolve_told(from, location, Err(ResolveFaultView::From(error))) == Err::<Seq<char>, Seq<char>>(
            "could not read "@ + from + " as a URL: "@ + error,
        ),
        resolve_told(from, location, Err(ResolveFaultView::Location(error))) == Err::<Seq<char>, Seq<char>>(
            "could not resolve redirect target "@ + quoted(location) + ": "@ + error,
        ),
{
}

/// A hop asks the next URL, keeps the first one and counts itself; a guard that refuses, or a tenth hop before it, ends
/// the chain.
pub proof fn law_a_hop_asks_the_next_url(chain: ChainView, next: Seq<char>, reason: Seq<char>)
    ensures
        chain.hops < 10 ==> (hop_of(chain, next, None) matches Ok(after) && after.here == next && after.url
            == chain.url && after.hops == chain.hops + 1),
        chain.hops >= 10 ==> hop_of(chain, next, None) == Err::<ChainView, Seq<char>>(
            chain.url + " redirected more than "@ + dec(10) + " times, so the chain was abandoned"@,
        ),
        hop_of(chain, next, Some(reason)) == Err::<ChainView, Seq<char>>(reason),
{
}

/// A page is an answer exactly where it holds forty characters of text, and then as it was read.
pub proof fn law_a_page_has_to_hold_text(url: Seq<char>, page: ExtractedView)
    ensures
        page.main_text.len() >= 40 ==> readable_of(url, page) == Ok::<ExtractedView, Seq<char>>(page),
        page.main_text.len() < 40 ==> readable_of(url, page) == Err::<ExtractedView, Seq<char>>(
            "fetch "@ + url + " extracted under "@ + dec(40)
                + " characters of text, so the page carried no readable content to answer from"@,
        ),
        oversized(url) == url + " exceeded "@ + dec(5_242_880) + " bytes, refusing to download the rest"@,
{
}

/// The page that is chosen is one of those that came, as it was read, and none of them is fuller; where none came, every
/// failure is told.
pub proof fn law_the_page_chosen_is_one_that_came(
    pages: Seq<(Seq<char>, ExtractedView)>,
    failures: Seq<Seq<char>>,
)
    ensures
        richest_of(pages, failures) is Ok <==> pages.len() > 0,
        richest_of(pages, failures) matches Ok(page) ==> exists|i: int|
            0 <= i < pages.len() && (#[trigger] pages[i]).1 == page && forall|k: int|
                0 <= k < pages.len() ==> utf8_len((#[trigger] pages[k]).1.main_text) <= utf8_len(page.main_text),
        pages.len() == 0 ==> richest_of(pages, failures) == Err::<ExtractedView, Seq<char>>(
            "every url failed — "@ + joined_with(failures, "; "@),
        ),
{
    if pages.len() > 0 {
        law_the_fullest_page_wins(pages);
        let i = fullest(pages);
        assert(pages[i].1 == richest_of(pages, failures)->Ok_0);
    }
}

/// What is told of a host that may not be fetched.
pub proof fn law_what_is_told_of_a_host(raw: Seq<char>, error: Seq<char>, ip: Ip)
    ensures
        found_fault(FoundView::Unresolved(error)) == Some("url host could not be resolved: "@ + error),
        found_fault(FoundView::Resolved(seq![])) == Some("url host did not resolve to an address"@),
        found_fault(FoundView::Literal(ip)) is Some <==> is_private(ip),
        found_fault(FoundView::Literal(ip)) matches Some(told) ==> told
            == "url must point at a public host, not a loopback, private, or link-local address"@,
        raw.len() == 0 ==> host_of(raw, None) == Err::<Seq<char>, Seq<char>>("url is required"@),
        raw.len() > 4_096 ==> host_of(raw, None) == Err::<Seq<char>, Seq<char>>(
            "url is longer than "@ + dec(4_096) + " characters"@,
        ),
        0 < raw.len() <= 4_096 ==> host_of(raw, None) == Err::<Seq<char>, Seq<char>>(
            "url must be an absolute http or https URL"@,
        ),
{
}

/// The view of a chain shows each of its parts under that part's own name.
pub proof fn law_the_view_of_a_chain_is_its_own(chain: Chain)
    ensures
        chain.deep_view().url == chain.url@,
        chain.deep_view().here == chain.here@,
        chain.deep_view().hops == chain.hops as nat,
{
}

/// What was read of a URI keeps its scheme and its host apart.
pub proof fn law_a_uri_keeps_its_parts_apart(scheme: String, host: String)
    ensures
        uri_parts(Some((Some(scheme), Some(host)))) == Some((Some(scheme@), Some(host@))),
        uri_parts(Some((None, Some(host)))) == Some((None::<Seq<char>>, Some(host@))),
        uri_parts(Some((Some(scheme), None))) == Some((Some(scheme@), None::<Seq<char>>)),
        uri_parts(None) is None,
{
}

} // verus!
