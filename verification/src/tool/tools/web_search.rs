//! Fetching the best hits of a search ahead, so that the model can answer from the pages themselves.

use vstd::prelude::*;

use crate::collect::keep;
use crate::text::same;
use crate::tool::providers::{SearchResult, SearchResultView};

verus! {

/// How many of the first hits are worth a fetch.
pub const PREFETCH_CANDIDATES: usize = 4;

/// How many pages are enough.
pub const PREFETCH_TAKE: usize = 2;

/// How long one fetch may take, in seconds.
pub const PREFETCH_TIMEOUT: u64 = 1;

/// A hit is a candidate by its place: it is among the first, and a guard let its URL pass. A hit without a verdict is
/// none.
pub open spec fn is_candidate(public: Seq<bool>, i: int) -> bool {
    0 <= i < PREFETCH_CANDIDATES && i < public.len() && public[i]
}

/// The URLs of the candidates.
pub open spec fn candidates_of(results: Seq<SearchResultView>, public: Seq<bool>) -> Seq<Seq<char>>
    decreases results.len(),
{
    if results.len() == 0 {
        seq![]
    } else {
        let earlier = candidates_of(results.drop_last(), public);
        let i = results.len() - 1;
        if is_candidate(public, i) {
            earlier.push(results.last().url)
        } else {
            earlier
        }
    }
}

/// The URLs to fetch.
pub fn candidates(results: &Vec<SearchResult>, public: &Vec<bool>) -> (urls: Vec<String>)
    ensures
        urls.deep_view() == candidates_of(results.deep_view(), public@),
{
    let ghost views = results.deep_view();
    let mut urls: Vec<String> = Vec::new();
    assert(urls.deep_view() =~= candidates_of(views.take(0), public@));
    for i in 0..results.len()
        invariant
            views == results.deep_view(),
            urls.deep_view() == candidates_of(views.take(i as int), public@),
    {
        assert(views.take(i as int + 1).drop_last() =~= views.take(i as int));
        assert(views[i as int] == results@[i as int].deep_view());
        if i < PREFETCH_CANDIDATES && i < public.len() && public[i] {
            keep(&mut urls, results[i].url.clone());
        }
    }
    assert(views.take(results@.len() as int) =~= views);
    urls
}

/// The text fetched for a URL, the last where it was fetched more than once.
pub open spec fn text_for(fetched: Seq<(Seq<char>, Seq<char>)>, url: Seq<char>) -> Option<Seq<char>>
    decreases fetched.len(),
{
    if fetched.len() == 0 {
        None
    } else if fetched.last().0 == url {
        Some(fetched.last().1)
    } else {
        text_for(fetched.drop_last(), url)
    }
}

/// A hit with the text that was fetched for it, where there is one.
pub open spec fn attached(hit: SearchResultView, fetched: Seq<(Seq<char>, Seq<char>)>) -> SearchResultView {
    match text_for(fetched, hit.url) {
        Some(text) => SearchResultView { text: Some(text), ..hit },
        None => hit,
    }
}

fn find_text(fetched: &Vec<(String, String)>, url: &str) -> (text: Option<String>)
    ensures
        text.deep_view() == text_for(fetched.deep_view(), url@),
{
    let ghost views = fetched.deep_view();
    let mut i: usize = fetched.len();
    assert(views.take(i as int) =~= views);
    while i > 0
        invariant
            i <= fetched@.len(),
            views == fetched.deep_view(),
            text_for(views.take(i as int), url@) == text_for(views, url@),
        decreases i,
    {
        i -= 1;
        assert(views.take(i as int + 1).drop_last() =~= views.take(i as int));
        assert(views[i as int] == (fetched@[i as int].0@, fetched@[i as int].1@));
        if same(fetched[i].0.as_str(), url) {
            return Some(fetched[i].1.clone());
        }
    }
    None
}

/// The hits of a search after a prefetch: a candidate has the text that was fetched for it, and every other hit stays
/// as it was.
pub open spec fn prefetched(
    results: Seq<SearchResultView>,
    public: Seq<bool>,
    fetched: Seq<(Seq<char>, Seq<char>)>,
) -> Seq<SearchResultView> {
    Seq::new(
        results.len(),
        |i: int|
            if is_candidate(public, i) {
                attached(results[i], fetched)
            } else {
                results[i]
            },
    )
}

/// Attaches the text of the pages that were fetched to the candidates they belong to.
pub fn attach_prefetched_text(
    results: &mut Vec<SearchResult>,
    public: &Vec<bool>,
    fetched: &Vec<(String, String)>,
)
    ensures
        final(results).deep_view() == prefetched(old(results).deep_view(), public@, fetched.deep_view()),
{
    let ghost before = results.deep_view();
    let ghost after = prefetched(before, public@, fetched.deep_view());
    let length: usize = results.len();
    for i in 0..length
        invariant
            length == results@.len(),
            length == before.len(),
            after == prefetched(before, public@, fetched.deep_view()),
            forall|k: int| 0 <= k < i ==> (#[trigger] results@[k]).deep_view() == after[k],
            forall|k: int| i <= k < length ==> (#[trigger] results@[k]).deep_view() == before[k],
    {
        let ghost hit = results@[i as int].deep_view();
        if i < PREFETCH_CANDIDATES && i < public.len() && public[i] {
            match find_text(fetched, results[i].url.as_str()) {
                Some(text) => {
                    results[i].text = Some(text);
                },
                None => {},
            }
            assert(results@[i as int].deep_view() =~= attached(hit, fetched.deep_view()));
        }
    }
    assert(results.deep_view() =~= after);
}

/// Prefetching only ever adds text: no hit is lost, added, moved or otherwise changed. A hit that is not among the
/// first, that the guard refused or whose page was not fetched stays as it was.
pub proof fn law_prefetching_only_adds_text(
    results: Seq<SearchResultView>,
    public: Seq<bool>,
    fetched: Seq<(Seq<char>, Seq<char>)>,
    i: int,
)
    requires
        0 <= i < results.len(),
    ensures
        ({
            let after = prefetched(results, public, fetched);
            &&& after.len() == results.len()
            &&& after[i].title == results[i].title
            &&& after[i].url == results[i].url
            &&& after[i].snippet == results[i].snippet
            &&& i >= PREFETCH_CANDIDATES ==> after[i] == results[i]
            &&& i < public.len() && !public[i] ==> after[i] == results[i]
            &&& text_for(fetched, results[i].url) is None ==> after[i] == results[i]
            &&& is_candidate(public, i) && text_for(fetched, results[i].url) is Some ==> after[i].text
                == text_for(fetched, results[i].url)
            &&& after[i].text == results[i].text || after[i].text is Some
        }),
{
}

/// Only the first hits are fetched, and of those only what the guard let pass.
pub proof fn law_only_guarded_top_hits_are_fetched(results: Seq<SearchResultView>, public: Seq<bool>, url: Seq<char>)
    requires
        candidates_of(results, public).contains(url),
    ensures
        exists|i: int|
            0 <= i < results.len() && is_candidate(public, i) && (#[trigger] results[i]).url == url,
        candidates_of(results, public).len() <= PREFETCH_CANDIDATES,
    decreases results.len(),
{
    lemma_few_candidates(results, public);
    let earlier = candidates_of(results.drop_last(), public);
    if earlier.contains(url) {
        law_only_guarded_top_hits_are_fetched(results.drop_last(), public, url);
        let i = choose|i: int|
            0 <= i < results.drop_last().len() && is_candidate(public, i) && (
            #[trigger] results.drop_last()[i]).url == url;
        assert(results[i].url == url);
    } else {
        let k = choose|k: int|
            0 <= k < candidates_of(results, public).len() && candidates_of(results, public)[k] == url;
        assert(k == earlier.len()) by {
            if k < earlier.len() {
                assert(earlier[k] == url);
            }
        }
        assert(results[results.len() - 1].url == url);
    }
}

proof fn lemma_few_candidates(results: Seq<SearchResultView>, public: Seq<bool>)
    ensures
        candidates_of(results, public).len() <= results.len(),
        candidates_of(results, public).len() <= PREFETCH_CANDIDATES,
    decreases results.len(),
{
    if results.len() > 0 {
        lemma_few_candidates(results.drop_last(), public);
    }
}

/// The text fetched for a URL is what was fetched for that very URL, the last where it was fetched more than once.
pub proof fn law_a_text_belongs_to_its_url(fetched: Seq<(Seq<char>, Seq<char>)>, url: Seq<char>)
    ensures
        text_for(fetched, url) is None <==> forall|i: int|
            0 <= i < fetched.len() ==> (#[trigger] fetched[i]).0 != url,
        text_for(fetched, url) matches Some(text) ==> exists|i: int|
            0 <= i < fetched.len() && #[trigger] fetched[i] == (url, text) && forall|k: int|
                i < k < fetched.len() ==> (#[trigger] fetched[k]).0 != url,
    decreases fetched.len(),
{
    if fetched.len() > 0 {
        let before = fetched.drop_last();
        let last = fetched.len() - 1;
        assert(fetched.last() == fetched[last]);
        law_a_text_belongs_to_its_url(before, url);
        assert(forall|i: int| 0 <= i < before.len() ==> #[trigger] before[i] == fetched[i]);
        if fetched[last].0 != url {
            if let Some(text) = text_for(before, url) {
                let i = choose|i: int|
                    0 <= i < before.len() && #[trigger] before[i] == (url, text) && forall|k: int|
                        i < k < before.len() ==> (#[trigger] before[k]).0 != url;
                assert(fetched[i] == (url, text));
                assert forall|k: int| i < k < fetched.len() implies (#[trigger] fetched[k]).0 != url by {
                    if k < last {
                        assert(before[k] == fetched[k]);
                    }
                }
            } else {
                assert forall|k: int| 0 <= k < fetched.len() implies (#[trigger] fetched[k]).0 != url by {
                    if k < last {
                        assert(before[k] == fetched[k]);
                    }
                }
            }
        } else {
            assert(fetched[last] == (url, fetched[last].1));
        }
    }
}

/// Among the first four hits every one that the guard let pass is fetched, at its own URL and in its order.
pub proof fn law_every_guarded_top_hit_is_fetched(results: Seq<SearchResultView>, public: Seq<bool>, hit: SearchResultView)
    ensures
        results.len() < 4 && results.len() < public.len() && public[results.len() as int] ==> candidates_of(
            results.push(hit),
            public,
        ) == candidates_of(results, public).push(hit.url),
        !(results.len() < 4 && results.len() < public.len() && public[results.len() as int]) ==> candidates_of(
            results.push(hit),
            public,
        ) == candidates_of(results, public),
        candidates_of(seq![], public).len() == 0,
{
    assert(results.push(hit).drop_last() =~= results);
}

} // verus!
