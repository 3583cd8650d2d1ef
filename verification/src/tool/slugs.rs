//! The slugs of the tools that the service itself provides. Any other slug belongs to a tool that a user or the
//! operator registered.

use vstd::prelude::*;

use crate::text::same;

verus! {

pub const WEB_SEARCH: &'static str = "web_search";

pub const WEB_FETCH: &'static str = "web_fetch";

pub const KB_SEARCH: &'static str = "kb_search";

pub const KB_READ_DOCUMENT: &'static str = "kb_read_document";

pub const WEATHER: &'static str = "weather";

pub const FX_RATE: &'static str = "fx_rate";

pub const STOCK_QUOTE: &'static str = "stock_quote";

/// Every slug that no user and no operator may take.
pub const ALL: [&'static str; 7] = [
    WEB_SEARCH,
    WEB_FETCH,
    KB_SEARCH,
    KB_READ_DOCUMENT,
    WEATHER,
    FX_RATE,
    STOCK_QUOTE,
];

pub open spec fn is_reserved(slug: Seq<char>) -> bool {
    ||| slug == WEB_SEARCH@
    ||| slug == WEB_FETCH@
    ||| slug == KB_SEARCH@
    ||| slug == KB_READ_DOCUMENT@
    ||| slug == WEATHER@
    ||| slug == FX_RATE@
    ||| slug == STOCK_QUOTE@
}

pub fn reserved(slug: &str) -> (answer: bool)
    ensures
        answer == is_reserved(slug@),
{
    same(slug, WEB_SEARCH) || same(slug, WEB_FETCH) || same(slug, KB_SEARCH) || same(slug, KB_READ_DOCUMENT)
        || same(slug, WEATHER) || same(slug, FX_RATE) || same(slug, STOCK_QUOTE)
}

/// The slugs in the list are those that are reserved, and no others.
pub proof fn law_the_list_is_what_is_reserved(slug: Seq<char>)
    ensures
        is_reserved(slug) <==> exists|i: int| 0 <= i < ALL@.len() && (#[trigger] ALL@[i])@ == slug,
{
    assert(ALL@.len() == 7);
    assert(ALL@[0] == WEB_SEARCH);
    assert(ALL@[1] == WEB_FETCH);
    assert(ALL@[2] == KB_SEARCH);
    assert(ALL@[3] == KB_READ_DOCUMENT);
    assert(ALL@[4] == WEATHER);
    assert(ALL@[5] == FX_RATE);
    assert(ALL@[6] == STOCK_QUOTE);
}

/// The slugs that are reserved, by their texts.
pub proof fn law_what_is_reserved(slug: Seq<char>)
    ensures
        is_reserved(slug) <==> slug == "web_search"@ || slug == "web_fetch"@ || slug == "kb_search"@ || slug
            == "kb_read_document"@ || slug == "weather"@ || slug == "fx_rate"@ || slug == "stock_quote"@,
{
}

} // verus!
