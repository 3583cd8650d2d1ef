//! The arguments that the built-in tools take, and the limits on them.

use vstd::prelude::*;

use crate::text::{cat2, cat3, cat4, dec, decimal};

verus! {

pub const MIN_SEARCH_LIMIT: u8 = 1;

pub const DEFAULT_SEARCH_LIMIT: u8 = 5;

pub const MAX_SEARCH_LIMIT: u8 = 20;

pub const MAX_URLS: usize = 5;

/// A search, on the web or in the knowledge base.
#[derive(Debug, PartialEq, Eq)]
pub struct Search {
    pub query: String,
    pub limit: Option<u8>,
}

/// How many results a search returns, or why the number asked for is refused.
pub open spec fn limit_of(limit: Option<u8>) -> Result<u8, Seq<char>> {
    match limit {
        None => Ok(DEFAULT_SEARCH_LIMIT),
        Some(n) => if MIN_SEARCH_LIMIT <= n <= MAX_SEARCH_LIMIT {
            Ok(n)
        } else {
            Err(
                "limit must be between "@ + dec(MIN_SEARCH_LIMIT as nat) + " and "@ + dec(
                    MAX_SEARCH_LIMIT as nat,
                ) + (", got "@ + dec(n as nat)),
            )
        },
    }
}

impl Search {
    pub fn checked_limit(&self) -> (limit: Result<u8, String>)
        ensures
            (match limit {
                Ok(n) => limit_of(self.limit) == Ok::<u8, Seq<char>>(n),
                Err(message) => limit_of(self.limit) == Err::<u8, Seq<char>>(message@),
            }),
    {
        match self.limit {
            None => Ok(DEFAULT_SEARCH_LIMIT),
            Some(n) => {
                if n >= MIN_SEARCH_LIMIT && n <= MAX_SEARCH_LIMIT {
                    return Ok(n);
                }
                let got: String = cat2(", got ", decimal(n as u64).as_str());
                Err(
                    cat2(
                        cat4(
                            "limit must be between ",
                            decimal(MIN_SEARCH_LIMIT as u64).as_str(),
                            " and ",
                            decimal(MAX_SEARCH_LIMIT as u64).as_str(),
                        ).as_str(),
                        got.as_str(),
                    ),
                )
            },
        }
    }
}

/// Pages to fetch: one URL, or several candidates. Where both are given the candidates count.
#[derive(Debug, PartialEq, Eq)]
pub struct Fetch {
    pub url: Option<String>,
    pub urls: Option<Vec<String>>,
}

/// The URLs a fetch names.
pub open spec fn named_urls(url: Option<Seq<char>>, urls: Option<Seq<Seq<char>>>) -> Seq<Seq<char>> {
    match urls {
        Some(urls) => urls,
        None => match url {
            Some(url) => seq![url],
            None => seq![],
        },
    }
}

pub open spec fn urls_of(url: Option<Seq<char>>, urls: Option<Seq<Seq<char>>>) -> Result<
    Seq<Seq<char>>,
    Seq<char>,
> {
    let named = named_urls(url, urls);
    if named.len() == 0 {
        Err("url is required"@)
    } else if named.len() > MAX_URLS {
        Err("at most "@ + dec(MAX_URLS as nat) + " urls can be fetched at once"@)
    } else {
        Ok(named)
    }
}

impl Fetch {
    pub fn checked_urls(self) -> (urls: Result<Vec<String>, String>)
        ensures
            crate::collect::outcome(urls) == urls_of(self.url.deep_view(), self.urls.deep_view()),
    {
        let urls: Vec<String> = match self.urls {
            Some(urls) => urls,
            None => match self.url {
                Some(url) => vec![url],
                None => Vec::new(),
            },
        };
        assert(urls.deep_view() =~= named_urls(self.url.deep_view(), self.urls.deep_view()));
        if urls.len() == 0 {
            return Err("url is required".to_owned());
        }
        if urls.len() > MAX_URLS {
            return Err(cat3("at most ", decimal(MAX_URLS as u64).as_str(), " urls can be fetched at once"));
        }
        Ok(urls)
    }
}

/// A document of the knowledge base, as a search result names it.
#[derive(Debug, PartialEq, Eq)]
pub struct ReadDocument {
    pub source: String,
    pub source_id: String,
    pub version: Option<String>,
}

/// A limit that is accepted lies between the two bounds, and so does the one that stands in for a limit not given.
pub proof fn law_an_accepted_limit_is_in_range(limit: Option<u8>)
    ensures
        limit_of(limit) matches Ok(n) ==> MIN_SEARCH_LIMIT <= n <= MAX_SEARCH_LIMIT,
        limit_of(limit) is Err <==> limit is Some && !(MIN_SEARCH_LIMIT <= limit->Some_0 <= MAX_SEARCH_LIMIT),
{
}

/// A search returns as many results as were asked for between one and twenty, five where nothing was asked for, and
/// refuses any other number by naming it.
pub proof fn law_a_search_returns_what_was_asked(n: u8)
    ensures
        limit_of(None) == Ok::<u8, Seq<char>>(5u8),
        1 <= n <= 20 ==> limit_of(Some(n)) == Ok::<u8, Seq<char>>(n),
        !(1 <= n <= 20) ==> limit_of(Some(n)) == Err::<u8, Seq<char>>(
            "limit must be between "@ + dec(1) + " and "@ + dec(20) + (", got "@ + dec(n as nat)),
        ),
{
}

/// The candidates count where there are some, and the one URL where there are none; no fewer than one and no more than
/// five are fetched.
pub proof fn law_the_candidates_count_first(url: Option<Seq<char>>, urls: Seq<Seq<char>>)
    ensures
        named_urls(url, Some(urls)) == urls,
        url matches Some(one) ==> named_urls(url, None) == seq![one],
        url is None ==> named_urls(url, None).len() == 0,
        urls_of(url, Some(urls)) is Ok <==> 1 <= urls.len() <= 5,
        urls_of(url, Some(urls)) matches Ok(named) ==> named == urls,
        urls_of(url, None) is Ok <==> url is Some,
        urls.len() == 0 ==> urls_of(url, Some(urls)) == Err::<Seq<Seq<char>>, Seq<char>>("url is required"@),
        urls.len() > 5 ==> urls_of(url, Some(urls)) == Err::<Seq<Seq<char>>, Seq<char>>(
            "at most "@ + dec(5) + " urls can be fetched at once"@,
        ),
{
}

} // verus!
