//! Web search: which provider serves it, what it is asked, and its results.

use vstd::prelude::*;

use crate::collect::{keep, outcome};
use crate::json::{
    entry_if, entry_views, group_json_views, law_a_key_finds_its_first_entry, lemma_holds, put_if, Json, JsonView,
};
use crate::text::{cat2, contains_of, dec, decimal};
use crate::tool::tools::upstream::{MAX_BASE_CHARS, is_success, url_with_query, with_query};
use crate::tool::tools::web_fetch::{show_status, status_text};

verus! {

broadcast use group_json_views;

/// One hit of a search. Its text is there only where the page was fetched ahead.
#[derive(Debug, PartialEq, Eq)]
pub struct SearchResult {
    pub title: String,
    pub url: String,
    pub snippet: String,
    pub text: Option<String>,
}

#[verifier::ext_equal]
pub struct SearchResultView {
    pub title: Seq<char>,
    pub url: Seq<char>,
    pub snippet: Seq<char>,
    pub text: Option<Seq<char>>,
}

impl DeepView for SearchResult {
    type V = SearchResultView;

    open spec fn deep_view(&self) -> SearchResultView {
        SearchResultView {
            title: self.title@,
            url: self.url@,
            snippet: self.snippet@,
            text: self.text.deep_view(),
        }
    }
}

/// A hit as the model reads it. A hit without text has no key for it at all.
pub open spec fn hit_json(hit: SearchResultView) -> JsonView {
    JsonView::Object(
        seq![("snippet"@, JsonView::Text(hit.snippet))] + entry_if(
            "text"@,
            match hit.text {
                Some(text) => Some(JsonView::Text(text)),
                None => None,
            },
        ) + seq![("title"@, JsonView::Text(hit.title)), ("url"@, JsonView::Text(hit.url))],
    )
}

fn render_hit(hit: &SearchResult) -> (json: Json)
    ensures
        json.deep_view() == hit_json(hit.deep_view()),
{
    let mut entries: Vec<(String, Json)> = vec![("snippet".to_owned(), Json::Text(hit.snippet.clone()))];
    assert(entry_views(entries@) =~= seq![("snippet"@, JsonView::Text(hit.snippet@))]);
    put_if(
        &mut entries,
        "text",
        match &hit.text {
            Some(text) => Some(Json::Text(text.clone())),
            None => None,
        },
    );
    let ghost before = entry_views(entries@);
    entries.push(("title".to_owned(), Json::Text(hit.title.clone())));
    entries.push(("url".to_owned(), Json::Text(hit.url.clone())));
    assert(entry_views(entries@) =~= before + seq![
        ("title"@, JsonView::Text(hit.title@)),
        ("url"@, JsonView::Text(hit.url@)),
    ]);
    Json::Object(entries)
}

/// The hits of a search as the model reads them.
pub fn results_json(results: &Vec<SearchResult>) -> (json: Json)
    ensures
        json.deep_view() == JsonView::Array(
            results.deep_view().map_values(|hit: SearchResultView| hit_json(hit)),
        ),
{
    let ghost rendered = results.deep_view().map_values(|hit: SearchResultView| hit_json(hit));
    let mut items: Vec<Json> = Vec::new();
    assert(items.deep_view() =~= rendered.take(0));
    for i in 0..results.len()
        invariant
            rendered == results.deep_view().map_values(|hit: SearchResultView| hit_json(hit)),
            items.deep_view() == rendered.take(i as int),
    {
        assert(results.deep_view()[i as int] == results@[i as int].deep_view());
        keep(&mut items, render_hit(&results[i]));
        assert(items.deep_view() =~= rendered.take(i as int + 1));
    }
    assert(rendered.take(results@.len() as int) =~= rendered);
    Json::Array(items)
}

/// The provider that serves web search.
#[derive(Clone, Copy, Debug, PartialEq, Eq, Structural)]
pub enum AnySearchProvider {
    You,
    Brave,
    Unconfigured,
}

pub open spec fn provider_for(you_api_key: Seq<char>, brave_api_key: Seq<char>) -> AnySearchProvider {
    if you_api_key.len() > 0 {
        AnySearchProvider::You
    } else if brave_api_key.len() > 0 {
        AnySearchProvider::Brave
    } else {
        AnySearchProvider::Unconfigured
    }
}

pub const YOU_SEARCH_URL: &'static str = "https://ydc-index.io/v1/search";

pub const BRAVE_SEARCH_URL: &'static str = "https://api.search.brave.com/res/v1/web/search";

/// What to ask a provider: the URL, and the header that carries the key.
#[derive(Debug, PartialEq, Eq)]
pub struct SearchRequest {
    pub url: String,
    pub key_header: String,
}

pub struct SearchRequestView {
    pub url: Seq<char>,
    pub key_header: Seq<char>,
}

impl DeepView for SearchRequest {
    type V = SearchRequestView;

    open spec fn deep_view(&self) -> SearchRequestView {
        SearchRequestView { url: self.url@, key_header: self.key_header@ }
    }
}

pub open spec fn request_for(provider: AnySearchProvider, query: Seq<char>, limit: u8) -> Result<
    SearchRequestView,
    Seq<char>,
> {
    let count = ("count"@, dec(limit as nat));
    match provider {
        AnySearchProvider::Unconfigured => Err(
            "web search is not configured: set YOU_SEARCH_API_KEY or BRAVE_SEARCH_API_KEY"@,
        ),
        AnySearchProvider::You => match url_with_query(YOU_SEARCH_URL@, seq![("query"@, query), count]) {
            Ok(url) => Ok(SearchRequestView { url, key_header: "X-API-Key"@ }),
            Err(error) => Err(error),
        },
        AnySearchProvider::Brave => match url_with_query(BRAVE_SEARCH_URL@, seq![("q"@, query), count]) {
            Ok(url) => Ok(SearchRequestView { url, key_header: "X-Subscription-Token"@ }),
            Err(error) => Err(error),
        },
    }
}

/// What a status that is no success is told as.
pub open spec fn status_fault(provider: AnySearchProvider, status: u16) -> Option<Seq<char>> {
    if is_success(status) {
        None
    } else {
        match provider {
            AnySearchProvider::You => Some("you.com search returned "@ + status_text(status)),
            AnySearchProvider::Brave => Some("brave search returned "@ + status_text(status)),
            AnySearchProvider::Unconfigured => None,
        }
    }
}

impl AnySearchProvider {
    /// You.com where it has a key, else Brave where that has one, else none.
    pub fn from_api_keys(you_api_key: &str, brave_api_key: &str) -> (provider: AnySearchProvider)
        ensures
            provider == provider_for(you_api_key@, brave_api_key@),
    {
        proof {
            vstd::utf8::encode_utf8_decode_utf8(you_api_key@);
        }
        if !you_api_key.is_empty() {
            AnySearchProvider::You
        } else if !brave_api_key.is_empty() {
            AnySearchProvider::Brave
        } else {
            AnySearchProvider::Unconfigured
        }
    }

    /// What to ask the provider for a query.
    pub fn request(self, query: &str, limit: u8) -> (request: Result<SearchRequest, String>)
        ensures
            outcome(request) == request_for(self, query@, limit),
    {
        let count: (String, String) = ("count".to_owned(), decimal(limit as u64));
        proof {
            reveal_strlit("https://ydc-index.io/v1/search");
            reveal_strlit("https://api.search.brave.com/res/v1/web/search");
            assert(YOU_SEARCH_URL@.len() <= MAX_BASE_CHARS && !contains_of(YOU_SEARCH_URL@, '#'));
            assert(BRAVE_SEARCH_URL@.len() <= MAX_BASE_CHARS && !contains_of(BRAVE_SEARCH_URL@, '#'));
        }
        match self {
            AnySearchProvider::Unconfigured => Err(
                "web search is not configured: set YOU_SEARCH_API_KEY or BRAVE_SEARCH_API_KEY".to_owned(),
            ),
            AnySearchProvider::You => {
                let pairs: Vec<(String, String)> = vec![("query".to_owned(), query.to_owned()), count];
                assert(pairs.deep_view() =~= seq![("query"@, query@), ("count"@, dec(limit as nat))]);
                let url: String = with_query(YOU_SEARCH_URL, &pairs)?;
                Ok(SearchRequest { url, key_header: "X-API-Key".to_owned() })
            },
            AnySearchProvider::Brave => {
                let pairs: Vec<(String, String)> = vec![("q".to_owned(), query.to_owned()), count];
                assert(pairs.deep_view() =~= seq![("q"@, query@), ("count"@, dec(limit as nat))]);
                let url: String = with_query(BRAVE_SEARCH_URL, &pairs)?;
                Ok(SearchRequest { url, key_header: "X-Subscription-Token".to_owned() })
            },
        }
    }

    /// A reply is read only where its status is a success. A provider that is not configured is never asked.
    pub fn check_status(self, status: u16) -> (fault: Option<String>)
        ensures
            fault.deep_view() == status_fault(self, status),
    {
        if status >= 200 && status < 300 {
            return None;
        }
        match self {
            AnySearchProvider::You => Some(cat2("you.com search returned ", show_status(status).as_str())),
            AnySearchProvider::Brave => Some(cat2("brave search returned ", show_status(status).as_str())),
            AnySearchProvider::Unconfigured => None,
        }
    }
}

/// One hit as either provider writes it.
#[derive(Debug)]
pub struct ProviderHit {
    pub title: String,
    pub url: String,
    pub description: String,
}

pub struct ProviderHitView {
    pub title: Seq<char>,
    pub url: Seq<char>,
    pub description: Seq<char>,
}

impl DeepView for ProviderHit {
    type V = ProviderHitView;

    open spec fn deep_view(&self) -> ProviderHitView {
        ProviderHitView { title: self.title@, url: self.url@, description: self.description@ }
    }
}

/// A provider's hit as a search result, with no text yet.
pub open spec fn hit_of(hit: ProviderHitView) -> SearchResultView {
    SearchResultView { title: hit.title, url: hit.url, snippet: hit.description, text: None }
}

/// The first of a list's hits, no more than a limit.
pub open spec fn first_hits(hits: Seq<ProviderHitView>, limit: u8) -> Seq<ProviderHitView> {
    if hits.len() <= limit {
        hits
    } else {
        hits.take(limit as int)
    }
}

/// A provider's hits as search results. You.com may send more than it was asked for, and is cut to the limit; what
/// Brave sends is kept whole. A provider that is not configured sends nothing.
pub open spec fn results_of(provider: AnySearchProvider, hits: Option<Seq<ProviderHitView>>, limit: u8) -> Seq<
    SearchResultView,
> {
    match (provider, hits) {
        (AnySearchProvider::You, Some(hits)) => first_hits(hits, limit).map_values(
            |hit: ProviderHitView| hit_of(hit),
        ),
        (AnySearchProvider::Brave, Some(hits)) => hits.map_values(|hit: ProviderHitView| hit_of(hit)),
        _ => seq![],
    }
}

/// The first of a provider's hits, as search results.
fn converted(hits: &Vec<ProviderHit>, kept: usize) -> (results: Vec<SearchResult>)
    requires
        kept <= hits@.len(),
    ensures
        results.deep_view() == hits.deep_view().take(kept as int).map_values(
            |hit: ProviderHitView| hit_of(hit),
        ),
{
    let ghost views = hits.deep_view();
    let mut results: Vec<SearchResult> = Vec::new();
    assert(results.deep_view() =~= seq![]);
    for i in 0..kept
        invariant
            kept <= hits@.len(),
            views == hits.deep_view(),
            results.deep_view() == views.take(i as int).map_values(|hit: ProviderHitView| hit_of(hit)),
    {
        let hit: &ProviderHit = &hits[i];
        assert(views[i as int] == hit.deep_view());
        keep(
            &mut results,
            SearchResult {
                title: hit.title.clone(),
                url: hit.url.clone(),
                snippet: hit.description.clone(),
                text: None,
            },
        );
        assert(results.deep_view() =~= views.take(i as int + 1).map_values(
            |hit: ProviderHitView| hit_of(hit),
        ));
    }
    results
}

impl AnySearchProvider {
    /// The provider's hits as search results.
    pub fn search_results(self, hits: Option<Vec<ProviderHit>>, limit: u8) -> (results: Vec<SearchResult>)
        ensures
            results.deep_view() == results_of(self, hits.deep_view(), limit),
    {
        match (self, hits) {
            (AnySearchProvider::You, Some(hits)) => {
                let kept: usize = if hits.len() <= limit as usize {
                    hits.len()
                } else {
                    limit as usize
                };
                assert(hits.deep_view().take(kept as int) =~= first_hits(hits.deep_view(), limit));
                converted(&hits, kept)
            },
            (AnySearchProvider::Brave, Some(hits)) => {
                let all: usize = hits.len();
                assert(hits.deep_view().take(all as int) =~= hits.deep_view());
                converted(&hits, all)
            },
            _ => {
                let none: Vec<SearchResult> = Vec::new();
                assert(none.deep_view() =~= seq![]);
                none
            },
        }
    }
}

/// A search of You.com never returns more results than were asked for, and one of Brave returns all that came. Both
/// keep the provider's order.
pub proof fn law_a_search_keeps_what_it_may(hits: Seq<ProviderHitView>, limit: u8)
    ensures
        ({
            let cut = results_of(AnySearchProvider::You, Some(hits), limit);
            &&& cut.len() <= limit
            &&& hits.len() <= limit ==> cut.len() == hits.len()
            &&& hits.len() > limit ==> cut.len() == limit
            &&& forall|i: int| 0 <= i < cut.len() ==> #[trigger] cut[i] == hit_of(hits[i])
        }),
        ({
            let whole = results_of(AnySearchProvider::Brave, Some(hits), limit);
            &&& whole.len() == hits.len()
            &&& forall|i: int| 0 <= i < whole.len() ==> #[trigger] whole[i] == hit_of(hits[i])
        }),
{
}

/// A hit is shown with its own title, URL and snippet, each under its own name, and with its text exactly where it has
/// one; hits are shown in their order.
pub proof fn law_a_hit_is_shown_as_it_is(results: Seq<SearchResultView>, i: int)
    requires
        0 <= i < results.len(),
    ensures
        ({
            let shown = results.map_values(|hit: SearchResultView| hit_json(hit));
            &&& shown.len() == results.len()
            &&& shown[i].at("title"@) == JsonView::Text(results[i].title)
            &&& shown[i].at("url"@) == JsonView::Text(results[i].url)
            &&& shown[i].at("snippet"@) == JsonView::Text(results[i].snippet)
            &&& results[i].text matches Some(text) ==> shown[i].at("text"@) == JsonView::Text(text)
            &&& results[i].text is None ==> shown[i].get("text"@) is None
        }),
{
    reveal_strlit("snippet");
    reveal_strlit("text");
    reveal_strlit("title");
    reveal_strlit("url");
    assert("snippet"@.len() == 7 && "text"@.len() == 4 && "title"@.len() == 5 && "url"@.len() == 3);
    let entries = hit_json(results[i])->Object_0;
    let last = entries.len() - 1;
    assert(entries[0].0 == "snippet"@);
    assert(entries[last - 1].0 == "title"@);
    assert(entries[last].0 == "url"@);
    if results[i].text is Some {
        assert(entries[1].0 == "text"@);
        lemma_holds(entries, 1);
    } else {
        assert(last == 2);
        law_a_key_finds_its_first_entry(entries, "text"@);
    }
    lemma_holds(entries, 0);
    lemma_holds(entries, last - 1);
    lemma_holds(entries, last);
}

/// A provider's hit becomes a result with the same title and URL, its description as the snippet, and no text yet.
pub proof fn law_a_hit_keeps_what_the_provider_wrote(
    provider: AnySearchProvider,
    hits: Seq<ProviderHitView>,
    limit: u8,
    i: int,
)
    requires
        0 <= i < results_of(provider, Some(hits), limit).len(),
    ensures
        i < hits.len(),
        results_of(provider, Some(hits), limit)[i].title == hits[i].title,
        results_of(provider, Some(hits), limit)[i].url == hits[i].url,
        results_of(provider, Some(hits), limit)[i].snippet == hits[i].description,
        results_of(provider, Some(hits), limit)[i].text is None,
        results_of(provider, None, limit).len() == 0,
        results_of(AnySearchProvider::Unconfigured, Some(hits), limit).len() == 0,
{
}

/// You.com serves where it has a key, Brave where only it has one, and nobody where neither has.
pub proof fn law_a_provider_serves_where_it_has_a_key(you_api_key: Seq<char>, brave_api_key: Seq<char>)
    ensures
        provider_for(you_api_key, brave_api_key) == AnySearchProvider::You <==> you_api_key.len() > 0,
        provider_for(you_api_key, brave_api_key) == AnySearchProvider::Brave <==> you_api_key.len() == 0
            && brave_api_key.len() > 0,
        provider_for(you_api_key, brave_api_key) == AnySearchProvider::Unconfigured <==> you_api_key.len() == 0
            && brave_api_key.len() == 0,
{
}

/// A provider is asked at its own address, for the caller's query and as many results as they want, with its own key
/// header.
pub proof fn law_a_provider_is_asked_for_the_query(query: Seq<char>, limit: u8)
    ensures
        ({
            let url = url_with_query(
                "https://ydc-index.io/v1/search"@,
                seq![("query"@, query), ("count"@, dec(limit as nat))],
            );
            &&& url matches Ok(url) ==> (request_for(AnySearchProvider::You, query, limit) matches Ok(request)
                && request.url == url && request.key_header == "X-API-Key"@)
            &&& url matches Err(error) ==> request_for(AnySearchProvider::You, query, limit) == Err::<
                SearchRequestView,
                Seq<char>,
            >(error)
        }),
        ({
            let url = url_with_query(
                "https://api.search.brave.com/res/v1/web/search"@,
                seq![("q"@, query), ("count"@, dec(limit as nat))],
            );
            &&& url matches Ok(url) ==> (request_for(AnySearchProvider::Brave, query, limit) matches Ok(request)
                && request.url == url && request.key_header == "X-Subscription-Token"@)
            &&& url matches Err(error) ==> request_for(AnySearchProvider::Brave, query, limit) == Err::<
                SearchRequestView,
                Seq<char>,
            >(error)
        }),
        request_for(AnySearchProvider::Unconfigured, query, limit) == Err::<SearchRequestView, Seq<char>>(
            "web search is not configured: set YOU_SEARCH_API_KEY or BRAVE_SEARCH_API_KEY"@,
        ),
{
}

/// A reply is read where its status is a success, and otherwise the provider that sent it is named with the status.
pub proof fn law_a_failed_search_names_its_provider(status: u16)
    ensures
        200 <= status < 300 ==> status_fault(AnySearchProvider::You, status) is None && status_fault(
            AnySearchProvider::Brave,
            status,
        ) is None,
        !(200 <= status < 300) ==> status_fault(AnySearchProvider::You, status) == Some(
            "you.com search returned "@ + status_text(status),
        ),
        !(200 <= status < 300) ==> status_fault(AnySearchProvider::Brave, status) == Some(
            "brave search returned "@ + status_text(status),
        ),
{
}

/// The view of a hit shows each of its parts under that part's own name.
pub proof fn law_the_view_of_a_search_result_is_its_own(search_result: SearchResult)
    ensures
        search_result.deep_view().title == search_result.title@,
        search_result.deep_view().url == search_result.url@,
        search_result.deep_view().snippet == search_result.snippet@,
        search_result.deep_view().text == search_result.text.deep_view(),
{
}

/// The view of a request shows each of its parts under that part's own name.
pub proof fn law_the_view_of_a_search_request_is_its_own(search_request: SearchRequest)
    ensures
        search_request.deep_view().url == search_request.url@,
        search_request.deep_view().key_header == search_request.key_header@,
{
}

/// The view of a provider's hit shows each of its parts under that part's own name.
pub proof fn law_the_view_of_a_provider_hit_is_its_own(provider_hit: ProviderHit)
    ensures
        provider_hit.deep_view().title == provider_hit.title@,
        provider_hit.deep_view().url == provider_hit.url@,
        provider_hit.deep_view().description == provider_hit.description@,
{
}

} // verus!
