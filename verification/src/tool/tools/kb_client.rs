//! What the knowledge base answers, as the model reads it.

use vstd::prelude::*;

use crate::collect::keep;
use crate::json::{entry_views, group_json_views, lemma_holds, Json, JsonView};

verus! {

broadcast use group_json_views;

/// How long one call may take, in seconds.
pub const CALL_TIMEOUT: u64 = 20;

/// One hit of a search in the knowledge base. The source and the identifier name the document to read.
#[derive(Debug, PartialEq, Eq)]
pub struct KbSearchResultJson {
    pub title: String,
    pub snippet: String,
    pub source: String,
    pub source_id: String,
}

pub struct KbSearchResultView {
    pub title: Seq<char>,
    pub snippet: Seq<char>,
    pub source: Seq<char>,
    pub source_id: Seq<char>,
}

impl DeepView for KbSearchResultJson {
    type V = KbSearchResultView;

    open spec fn deep_view(&self) -> KbSearchResultView {
        KbSearchResultView {
            title: self.title@,
            snippet: self.snippet@,
            source: self.source@,
            source_id: self.source_id@,
        }
    }
}

pub open spec fn kb_hit_json(hit: KbSearchResultView) -> JsonView {
    JsonView::Object(
        seq![
            ("snippet"@, JsonView::Text(hit.snippet)),
            ("source"@, JsonView::Text(hit.source)),
            ("source_id"@, JsonView::Text(hit.source_id)),
            ("title"@, JsonView::Text(hit.title)),
        ],
    )
}

/// The hits as the model reads them.
pub fn kb_results_json(results: &Vec<KbSearchResultJson>) -> (json: Json)
    ensures
        json.deep_view() == JsonView::Array(
            results.deep_view().map_values(|hit: KbSearchResultView| kb_hit_json(hit)),
        ),
{
    let ghost rendered = results.deep_view().map_values(|hit: KbSearchResultView| kb_hit_json(hit));
    let mut items: Vec<Json> = Vec::new();
    assert(items.deep_view() =~= rendered.take(0));
    for i in 0..results.len()
        invariant
            rendered == results.deep_view().map_values(|hit: KbSearchResultView| kb_hit_json(hit)),
            items.deep_view() == rendered.take(i as int),
    {
        let hit: &KbSearchResultJson = &results[i];
        let entries: Vec<(String, Json)> = vec![
            ("snippet".to_owned(), Json::Text(hit.snippet.clone())),
            ("source".to_owned(), Json::Text(hit.source.clone())),
            ("source_id".to_owned(), Json::Text(hit.source_id.clone())),
            ("title".to_owned(), Json::Text(hit.title.clone())),
        ];
        assert(results.deep_view()[i as int] == hit.deep_view());
        assert(entry_views(entries@) =~= kb_hit_json(hit.deep_view())->Object_0);
        keep(&mut items, Json::Object(entries));
        assert(items.deep_view() =~= rendered.take(i as int + 1));
    }
    assert(rendered.take(results@.len() as int) =~= rendered);
    Json::Array(items)
}

/// A document as the model reads it.
pub fn document_json(content: String) -> (json: Json)
    ensures
        json.deep_view() == JsonView::Object(seq![("content"@, JsonView::Text(content@))]),
{
    let entries: Vec<(String, Json)> = vec![("content".to_owned(), Json::Text(content))];
    assert(entry_views(entries@) =~= seq![("content"@, JsonView::Text(content@))]);
    Json::Object(entries)
}

/// A hit is shown with its own title, snippet, source and identifier, each under its own name, and hits keep their order.
pub proof fn law_a_hit_is_shown_as_it_is(results: Seq<KbSearchResultView>, i: int)
    requires
        0 <= i < results.len(),
    ensures
        ({
            let shown = results.map_values(|hit: KbSearchResultView| kb_hit_json(hit));
            &&& shown.len() == results.len()
            &&& shown[i].at("title"@) == JsonView::Text(results[i].title)
            &&& shown[i].at("snippet"@) == JsonView::Text(results[i].snippet)
            &&& shown[i].at("source"@) == JsonView::Text(results[i].source)
            &&& shown[i].at("source_id"@) == JsonView::Text(results[i].source_id)
        }),
{
    reveal_strlit("snippet");
    reveal_strlit("source");
    reveal_strlit("source_id");
    reveal_strlit("title");
    assert("snippet"@.len() == 7 && "source"@.len() == 6 && "source_id"@.len() == 9 && "title"@.len() == 5);
    let entries = kb_hit_json(results[i])->Object_0;
    assert(entries[0].0 == "snippet"@ && entries[1].0 == "source"@ && entries[2].0 == "source_id"@
        && entries[3].0 == "title"@);
    lemma_holds(entries, 0);
    lemma_holds(entries, 1);
    lemma_holds(entries, 2);
    lemma_holds(entries, 3);
}

/// The view of a hit shows each of its parts under that part's own name.
pub proof fn law_the_view_of_a_kb_search_result_json_is_its_own(hit: KbSearchResultJson)
    ensures
        hit.deep_view().title == hit.title@,
        hit.deep_view().snippet == hit.snippet@,
        hit.deep_view().source == hit.source@,
        hit.deep_view().source_id == hit.source_id@,
{
}

} // verus!
