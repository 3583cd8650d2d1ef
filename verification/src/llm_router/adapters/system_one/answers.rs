//! Reads a System One reply into the typed answers the caller asked for, checking every value against the
//! question that produced it: the provider's payload is a claim about the caller's own scale, not a fact.

use vstd::prelude::*;

use crate::collect::{
    collected, first_where, keep, law_the_first_failure_is_told, law_the_first_wanted_item_is_found,
    lemma_collected_failure, lemma_collected_fails, lemma_collected_items, lemma_collected_next, outcome,
};
use crate::json::{
    double_text, entry_views, group_json_views, integer_of, lookup, position, show_double, Json, JsonView, Number,
};
use crate::llm_router::adapters::system_one::body::{kind_name, kind_name_of};
use crate::llm_router::adapters::{as_count, count_of};
use crate::llm_router::decision::{
    Answer, AnswerView, ChoiceAnswer, ChoiceOption, ChoiceOptionView, Given, GivenView, ModelCard,
    ModelCardView, NoulAnswer, Question, QuestionKind, QuestionKindView, QuestionView, ScoreAnswer,
    Verdict, VerdictView,
};
use crate::llm_router::provider::{CallError, CallErrorView};
use crate::number::{is_within, within};
use crate::text::{cat3, cat4, cat5, cat7, dec, decimal, parse_u32, parsed_whole, same};

verus! {

broadcast use group_json_views;

pub open spec fn number_of(id: Seq<char>, field: Seq<char>, value: JsonView) -> Result<
    Number,
    CallErrorView,
> {
    match value {
        JsonView::Number(number) => Ok(number),
        _ => Err(
            CallErrorView::Final(
                "the provider answered "@ + id + " with no readable "@ + field,
            ),
        ),
    }
}

fn number(id: &str, field: &str, value: Option<&Json>) -> (read: Result<Number, CallError>)
    ensures
        outcome(read) == number_of(id@, field@, given_or_null(value)),
{
    match value {
        Some(Json::Number(number)) => Ok(*number),
        _ => Err(
            CallError::Final(cat4("the provider answered ", id, " with no readable ", field)),
        ),
    }
}

pub open spec fn given_or_null(value: Option<&Json>) -> JsonView {
    match value {
        Some(json) => json.deep_view(),
        None => JsonView::Null,
    }
}

/// A probability is a number between zero and one.
pub open spec fn probability_of(id: Seq<char>, field: Seq<char>, value: JsonView) -> Result<
    Number,
    CallErrorView,
> {
    match number_of(id, field, value) {
        Err(error) => Err(error),
        Ok(number) => if within(number, 1) {
            Ok(number)
        } else {
            Err(
                CallErrorView::Final(
                    "the provider answered "@ + id + " with a "@ + field + " of "@ + double_text(number)
                        + ", which is not between 0 and 1"@,
                ),
            )
        },
    }
}

fn probability(id: &str, field: &str, value: Option<&Json>) -> (read: Result<Number, CallError>)
    ensures
        outcome(read) == probability_of(id@, field@, given_or_null(value)),
{
    let read: Number = number(id, field, value)?;
    if !is_within(read, 1) {
        return Err(
            CallError::Final(
                cat7(
                    "the provider answered ",
                    id,
                    " with a ",
                    field,
                    " of ",
                    show_double(read).as_str(),
                    ", which is not between 0 and 1",
                ),
            ),
        );
    }
    Ok(read)
}

/// The highest score a scale of so many levels allows.
pub open spec fn highest_score(levels: nat) -> nat {
    if levels == 0 {
        0
    } else if levels - 1 <= u32::MAX {
        (levels - 1) as nat
    } else {
        u32::MAX as nat
    }
}

/// A score is a weighted position on the caller's own scale: between zero and one less than its levels.
pub open spec fn score_of(id: Seq<char>, value: JsonView, levels: nat) -> Result<
    Number,
    CallErrorView,
> {
    match number_of(id, "score"@, value) {
        Err(error) => Err(error),
        Ok(number) => if within(number, highest_score(levels)) {
            Ok(number)
        } else {
            Err(
                CallErrorView::Final(
                    "the provider answered "@ + id + " with a score of "@ + double_text(number)
                        + ", outside the 0 to "@ + dec(highest_score(levels)) + " scale of the "@ + dec(
                        levels,
                    ) + " levels it was asked about"@,
                ),
            )
        },
    }
}

fn scored(id: &str, value: Option<&Json>, levels: usize) -> (read: Result<Number, CallError>)
    ensures
        outcome(read) == score_of(id@, given_or_null(value), levels as nat),
{
    let read: Number = number(id, "score", value)?;
    let highest: u32 = if levels == 0 {
        0
    } else if levels - 1 <= u32::MAX as usize {
        (levels - 1) as u32
    } else {
        u32::MAX
    };
    if !is_within(read, highest) {
        return Err(
            CallError::Final(
                cat5(
                    cat5(
                        "the provider answered ",
                        id,
                        " with a score of ",
                        show_double(read).as_str(),
                        ", outside the 0 to ",
                    ).as_str(),
                    decimal(highest as u64).as_str(),
                    " scale of the ",
                    decimal(levels as u64).as_str(),
                    " levels it was asked about",
                ),
            ),
        );
    }
    Ok(read)
}

/// A confidence the provider left out fails safe at zero; one it sent but that does not read does not.
pub open spec fn confidence_of(id: Seq<char>, value: Option<JsonView>) -> Result<
    Number,
    CallErrorView,
> {
    match value {
        None => Ok(Number::Float(0)),
        Some(value) => probability_of(id, "confidence"@, value),
    }
}

fn confidence(id: &str, value: Option<&Json>) -> (read: Result<Number, CallError>)
    ensures
        outcome(read) == confidence_of(id@, value.deep_view()),
{
    match value {
        None => Ok(Number::Float(0)),
        Some(value) => probability(id, "confidence", Some(value)),
    }
}

/// A field the provider gave: one sent as null means the same as one left out.
pub open spec fn given_field(answer: JsonView, field: Seq<char>) -> Option<JsonView> {
    match answer.get(field) {
        Some(JsonView::Null) => None,
        found => found,
    }
}

fn given_value<'a>(answer: &'a Json, field: &str) -> (given: Option<&'a Json>)
    ensures
        given.deep_view() == given_field(answer.deep_view(), field@),
{
    match answer.get(field) {
        Some(Json::Null) => None,
        found => found,
    }
}

pub open spec fn object_of(id: Seq<char>, field: Seq<char>, value: Option<JsonView>) -> Result<
    Option<Seq<(Seq<char>, JsonView)>>,
    CallErrorView,
> {
    match value {
        None => Ok(None),
        Some(JsonView::Object(entries)) => Ok(Some(entries)),
        Some(_) => Err(
            CallErrorView::Final(
                "the provider answered "@ + id + " with a "@ + field + " that is not an object"@,
            ),
        ),
    }
}

fn object<'a>(id: &str, field: &str, value: Option<&'a Json>) -> (read: Result<
    Option<&'a Vec<(String, Json)>>,
    CallError,
>)
    ensures
        (match read {
            Ok(Some(entries)) => object_of(id@, field@, value.deep_view()) == Ok::<
                Option<Seq<(Seq<char>, JsonView)>>,
                CallErrorView,
            >(Some(entry_views(entries@))),
            Ok(None) => object_of(id@, field@, value.deep_view()) == Ok::<
                Option<Seq<(Seq<char>, JsonView)>>,
                CallErrorView,
            >(None),
            Err(error) => object_of(id@, field@, value.deep_view()) == Err::<
                Option<Seq<(Seq<char>, JsonView)>>,
                CallErrorView,
            >(error.deep_view()),
        }),
{
    match value {
        None => Ok(None),
        Some(Json::Object(entries)) => Ok(Some(entries)),
        Some(_) => Err(
            CallError::Final(
                cat5("the provider answered ", id, " with a ", field, " that is not an object"),
            ),
        ),
    }
}

/// The option of that name is one the caller offered.
pub open spec fn is_offered(options: Seq<ChoiceOptionView>, name: Seq<char>) -> bool {
    exists|i: int| 0 <= i < options.len() && (#[trigger] options[i]).name == name
}

fn offered(options: &Vec<ChoiceOption>, name: &str) -> (found: bool)
    ensures
        found == is_offered(options.deep_view(), name@),
{
    let ghost views = options.deep_view();
    for i in 0..options.len()
        invariant
            views == options.deep_view(),
            forall|k: int| 0 <= k < i ==> (#[trigger] views[k]).name != name@,
    {
        assert(views[i as int].name == options@[i as int].name@);
        if same(options[i].name.as_str(), name) {
            return true;
        }
    }
    false
}

pub open spec fn choice_of(id: Seq<char>, value: JsonView, options: Seq<ChoiceOptionView>) -> Result<
    Seq<char>,
    CallErrorView,
> {
    match value {
        JsonView::Text(chosen) => if is_offered(options, chosen) {
            Ok(chosen)
        } else {
            Err(
                CallErrorView::Final(
                    "the provider answered "@ + id + " with "@ + chosen + ", which was never offered"@,
                ),
            )
        },
        _ => Err(
            CallErrorView::Final(
                "the provider answered "@ + id + " with no readable choice"@,
            ),
        ),
    }
}

fn chosen_option(id: &str, value: Option<&Json>, options: &Vec<ChoiceOption>) -> (chosen: Result<
    String,
    CallError,
>)
    ensures
        outcome(chosen) == choice_of(id@, given_or_null(value), options.deep_view()),
{
    match value {
        Some(Json::Text(chosen)) => {
            if !offered(options, chosen.as_str()) {
                return Err(
                    CallError::Final(
                        cat5(
                            "the provider answered ",
                            id,
                            " with ",
                            chosen.as_str(),
                            ", which was never offered",
                        ),
                    ),
                );
            }
            Ok(chosen.clone())
        },
        _ => Err(CallError::Final(cat3("the provider answered ", id, " with no readable choice"))),
    }
}

/// One weight of a score: the level is a number below the number of levels, the weight a probability.
pub open spec fn level_weight(id: Seq<char>, entry: (Seq<char>, JsonView), levels: nat) -> Result<
    (u32, Number),
    CallErrorView,
> {
    match parsed_whole(entry.0, u32::MAX as nat) {
        None => Err(
            CallErrorView::Final(
                "the provider answered "@ + id + " with a level "@ + entry.0 + " that is not a number"@,
            ),
        ),
        Some(index) => if index >= levels {
            Err(
                CallErrorView::Final(
                    "the provider answered "@ + id + " with a level "@ + dec(index) + ", past the "@
                        + dec(levels) + " levels it was asked about"@,
                ),
            )
        } else {
            match probability_of(id, "probability"@, entry.1) {
                Err(error) => Err(error),
                Ok(weight) => Ok((index as u32, weight)),
            }
        },
    }
}

fn levelled_probability(id: &str, entry: &(String, Json), levels: usize) -> (read: Result<
    (u32, Number),
    CallError,
>)
    ensures
        outcome(read) == level_weight(id@, (entry.0@, entry.1.deep_view()), levels as nat),
{
    let level: &str = entry.0.as_str();
    let index: u32 = match parse_u32(level) {
        Some(index) => index,
        None => {
            return Err(
                CallError::Final(
                    cat5(
                        "the provider answered ",
                        id,
                        " with a level ",
                        level,
                        " that is not a number",
                    ),
                ),
            );
        },
    };
    if index as usize >= levels {
        return Err(
            CallError::Final(
                cat7(
                    "the provider answered ",
                    id,
                    " with a level ",
                    decimal(index as u64).as_str(),
                    ", past the ",
                    decimal(levels as u64).as_str(),
                    " levels it was asked about",
                ),
            ),
        );
    }
    let weight: Number = probability(id, "probability", Some(&entry.1))?;
    Ok((index, weight))
}

/// Some entry is for this level.
pub open spec fn names_level<V>(entries: Seq<(u32, V)>, level: u32) -> bool {
    exists|i: int| 0 <= i < entries.len() && (#[trigger] entries[i]).0 == level
}

/// The entries with one for each level: an entry stands where no later one is for the same level.
pub open spec fn latest<V>(entries: Seq<(u32, V)>) -> Seq<(u32, V)>
    decreases entries.len(),
{
    if entries.len() == 0 {
        seq![]
    } else {
        let rest = entries.drop_first();
        if names_level(rest, entries[0].0) {
            latest(rest)
        } else {
            seq![entries[0]] + latest(rest)
        }
    }
}

fn has_level<V: DeepView>(entries: &Vec<(u32, V)>, level: u32) -> (found: bool)
    ensures
        found == names_level(entries.deep_view(), level),
{
    let ghost views = entries.deep_view();
    for i in 0..entries.len()
        invariant
            views == entries.deep_view(),
            forall|k: int| 0 <= k < i ==> (#[trigger] views[k]).0 != level,
    {
        assert(views[i as int].0 == entries@[i as int].0);
        if entries[i].0 == level {
            return true;
        }
    }
    false
}

fn keep_latest<V: DeepView>(entries: Vec<(u32, V)>) -> (kept: Vec<(u32, V)>)
    ensures
        kept.deep_view() == latest(entries.deep_view()),
{
    let mut left: Vec<(u32, V)> = entries;
    let mut kept: Vec<(u32, V)> = Vec::new();
    let ghost whole = latest(left.deep_view());
    assert(kept.deep_view() + whole =~= whole);
    while left.len() > 0
        invariant
            whole == kept.deep_view() + latest(left.deep_view()),
            whole == latest(entries.deep_view()),
        decreases left@.len(),
    {
        let ghost before = left.deep_view();
        let ghost done = kept.deep_view();
        let entry: (u32, V) = left.remove(0);
        assert(before.drop_first() =~= left.deep_view());
        assert(before[0] == entry.deep_view());
        if !has_level(&left, entry.0) {
            keep(&mut kept, entry);
            assert(done + (seq![before[0]] + latest(left.deep_view())) =~= kept.deep_view() + latest(
                left.deep_view(),
            ));
        }
    }
    assert(kept.deep_view() + latest(left.deep_view()) =~= kept.deep_view());
    kept
}

proof fn lemma_latest_entry_was_given<V>(entries: Seq<(u32, V)>, i: int)
    requires
        0 <= i < latest(entries).len(),
    ensures
        exists|k: int|
            0 <= k < entries.len() && #[trigger] entries[k] == latest(entries)[i] && !names_level(
                entries.skip(k + 1),
                entries[k].0,
            ),
    decreases entries.len(),
{
    let rest = entries.drop_first();
    let dropped = names_level(rest, entries[0].0);
    if !dropped && i == 0 {
        assert(entries.skip(1) =~= rest);
        assert(entries[0] == latest(entries)[0]);
    } else {
        let j = if dropped {
            i
        } else {
            i - 1
        };
        lemma_latest_entry_was_given(rest, j);
        let k = choose|k: int|
            0 <= k < rest.len() && #[trigger] rest[k] == latest(rest)[j] && !names_level(
                rest.skip(k + 1),
                rest[k].0,
            );
        assert(entries[k + 1] == rest[k]);
        assert(entries.skip(k + 2) =~= rest.skip(k + 1));
    }
}

proof fn lemma_no_level_is_lost<V>(entries: Seq<(u32, V)>, level: u32)
    ensures
        names_level(latest(entries), level) <==> names_level(entries, level),
    decreases entries.len(),
{
    if entries.len() > 0 {
        let rest = entries.drop_first();
        lemma_no_level_is_lost(rest, level);
        if names_level(entries, level) {
            let i = choose|i: int| 0 <= i < entries.len() && (#[trigger] entries[i]).0 == level;
            if i > 0 {
                assert(rest[i - 1] == entries[i]);
                assert(names_level(rest, level));
                let j = choose|j: int| 0 <= j < latest(rest).len() && (#[trigger] latest(rest)[j]).0 == level;
                if !names_level(rest, entries[0].0) {
                    assert(latest(entries)[j + 1] == latest(rest)[j]);
                }
            } else if !names_level(rest, level) {
                assert(latest(entries)[0] == entries[0]);
            }
        }
        if names_level(latest(entries), level) {
            let i = choose|i: int| 0 <= i < latest(entries).len() && (#[trigger] latest(entries)[i]).0 == level;
            lemma_latest_entry_was_given(entries, i);
        }
    }
}

/// Every level that was named is kept once, with what was said of it last.
pub proof fn law_each_level_is_weighed_once<V>(entries: Seq<(u32, V)>)
    ensures
        forall|level: u32| #[trigger] names_level(latest(entries), level) <==> names_level(entries, level),
        forall|i: int, j: int|
            0 <= i < j < latest(entries).len() ==> (#[trigger] latest(entries)[i]).0 != (
            #[trigger] latest(entries)[j]).0,
        forall|i: int|
            0 <= i < latest(entries).len() ==> exists|k: int|
                0 <= k < entries.len() && #[trigger] entries[k] == #[trigger] latest(entries)[i] && !names_level(
                    entries.skip(k + 1),
                    entries[k].0,
                ),
    decreases entries.len(),
{
    assert forall|level: u32| #[trigger] names_level(latest(entries), level) <==> names_level(entries, level) by {
        lemma_no_level_is_lost(entries, level);
    }
    assert forall|i: int| 0 <= i < latest(entries).len() implies exists|k: int|
        0 <= k < entries.len() && #[trigger] entries[k] == #[trigger] latest(entries)[i] && !names_level(
            entries.skip(k + 1),
            entries[k].0,
        ) by {
        lemma_latest_entry_was_given(entries, i);
    }
    if entries.len() > 0 {
        let rest = entries.drop_first();
        law_each_level_is_weighed_once(rest);
        if names_level(rest, entries[0].0) {
            assert(latest(entries) == latest(rest));
        } else {
            assert(latest(entries) == seq![entries[0]] + latest(rest));
            assert forall|i: int, j: int| 0 <= i < j < latest(entries).len() implies (
            #[trigger] latest(entries)[i]).0 != (#[trigger] latest(entries)[j]).0 by {
                assert(latest(entries)[j] == latest(rest)[j - 1]);
                if i > 0 {
                    assert(latest(entries)[i] == latest(rest)[i - 1]);
                } else {
                    assert(!names_level(latest(rest), entries[0].0));
                }
            }
        }
    }
}

/// Entries for different levels are all kept.
proof fn lemma_different_levels_stay<V>(entries: Seq<(u32, V)>)
    requires
        forall|i: int, j: int|
            0 <= i < j < entries.len() ==> (#[trigger] entries[i]).0 != (#[trigger] entries[j]).0,
    ensures
        latest(entries) == entries,
    decreases entries.len(),
{
    if entries.len() > 0 {
        let rest = entries.drop_first();
        assert forall|i: int, j: int| 0 <= i < j < rest.len() implies (#[trigger] rest[i]).0 != (
        #[trigger] rest[j]).0 by {
            assert(rest[i] == entries[i + 1] && rest[j] == entries[j + 1]);
        }
        lemma_different_levels_stay(rest);
        assert(!names_level(rest, entries[0].0)) by {
            if names_level(rest, entries[0].0) {
                let k = choose|k: int| 0 <= k < rest.len() && (#[trigger] rest[k]).0 == entries[0].0;
                assert(rest[k] == entries[k + 1]);
            }
        }
        assert(seq![entries[0]] + rest =~= entries);
    } else {
        assert(entries =~= seq![]);
    }
}

/// The weights of a score by level, none where the provider gave none. One level may be written in more than one way
/// (`1` and `01`), and the last entry for it stands.
pub open spec fn level_weights(id: Seq<char>, value: Option<JsonView>, levels: nat) -> Result<
    Seq<(u32, Number)>,
    CallErrorView,
> {
    match object_of(id, "probabilities"@, value) {
        Err(error) => Err(error),
        Ok(None) => Ok(seq![]),
        Ok(Some(entries)) => match collected(
            entries.map_values(|entry: (Seq<char>, JsonView)| level_weight(id, entry, levels)),
        ) {
            Ok(weights) => Ok(latest(weights)),
            Err(error) => Err(error),
        },
    }
}

fn levelled_probabilities(id: &str, value: Option<&Json>, levels: usize) -> (read: Result<
    Vec<(u32, Number)>,
    CallError,
>)
    ensures
        outcome(read) == level_weights(id@, value.deep_view(), levels as nat),
{
    let entries: &Vec<(String, Json)> = match object(id, "probabilities", value)? {
        Some(entries) => entries,
        None => {
            let none: Vec<(u32, Number)> = Vec::new();
            assert(none.deep_view() =~= seq![]);
            return Ok(none);
        },
    };
    let ghost results = entry_views(entries@).map_values(
        |entry: (Seq<char>, JsonView)| level_weight(id@, entry, levels as nat),
    );
    let mut weights: Vec<(u32, Number)> = Vec::new();
    assert(weights.deep_view() =~= collected(results.take(0))->Ok_0);
    for i in 0..entries.len()
        invariant
            results == entry_views(entries@).map_values(
                |entry: (Seq<char>, JsonView)| level_weight(id@, entry, levels as nat),
            ),
            results.len() == entries@.len(),
            level_weights(id@, value.deep_view(), levels as nat) == (match collected(results) {
                Ok(weights) => Ok(latest(weights)),
                Err(error) => Err(error),
            }),
            collected(results.take(i as int)) == Ok::<Seq<(u32, Number)>, CallErrorView>(
                weights.deep_view(),
            ),
    {
        match levelled_probability(id, &entries[i], levels) {
            Ok(weight) => {
                proof {
                    lemma_collected_next(results, i as int);
                }
                keep(&mut weights, weight);
            },
            Err(error) => {
                proof {
                    lemma_collected_fails(results, i as int);
                }
                return Err(error);
            },
        }
    }
    assert(results.take(results.len() as int) =~= results);
    Ok(keep_latest(weights))
}

/// One weight of a choice: the name is one the caller offered, the weight a probability.
pub open spec fn option_weight(
    id: Seq<char>,
    entry: (Seq<char>, JsonView),
    options: Seq<ChoiceOptionView>,
) -> Result<(Seq<char>, Number), CallErrorView> {
    if !is_offered(options, entry.0) {
        Err(
            CallErrorView::Final(
                "the provider answered "@ + id + " with a probability for "@ + entry.0
                    + ", which was never offered"@,
            ),
        )
    } else {
        match probability_of(id, "probability"@, entry.1) {
            Err(error) => Err(error),
            Ok(weight) => Ok((entry.0, weight)),
        }
    }
}

fn named_probability(id: &str, entry: &(String, Json), options: &Vec<ChoiceOption>) -> (read: Result<
    (String, Number),
    CallError,
>)
    ensures
        outcome(read) == option_weight(id@, (entry.0@, entry.1.deep_view()), options.deep_view()),
{
    let name: &str = entry.0.as_str();
    if !offered(options, name) {
        return Err(
            CallError::Final(
                cat5(
                    "the provider answered ",
                    id,
                    " with a probability for ",
                    name,
                    ", which was never offered",
                ),
            ),
        );
    }
    let weight: Number = probability(id, "probability", Some(&entry.1))?;
    Ok((entry.0.clone(), weight))
}

/// The weights of a choice, option by option in the order of the reply; none where the provider gave none.
pub open spec fn option_weights(
    id: Seq<char>,
    value: Option<JsonView>,
    options: Seq<ChoiceOptionView>,
) -> Result<Seq<(Seq<char>, Number)>, CallErrorView> {
    match object_of(id, "probabilities"@, value) {
        Err(error) => Err(error),
        Ok(None) => Ok(seq![]),
        Ok(Some(entries)) => collected(
            entries.map_values(|entry: (Seq<char>, JsonView)| option_weight(id, entry, options)),
        ),
    }
}

fn named_probabilities(id: &str, value: Option<&Json>, options: &Vec<ChoiceOption>) -> (read: Result<
    Vec<(String, Number)>,
    CallError,
>)
    ensures
        outcome(read) == option_weights(id@, value.deep_view(), options.deep_view()),
{
    let entries: &Vec<(String, Json)> = match object(id, "probabilities", value)? {
        Some(entries) => entries,
        None => {
            let none: Vec<(String, Number)> = Vec::new();
            assert(none.deep_view() =~= seq![]);
            return Ok(none);
        },
    };
    let ghost views = options.deep_view();
    let ghost results = entry_views(entries@).map_values(
        |entry: (Seq<char>, JsonView)| option_weight(id@, entry, views),
    );
    let mut weights: Vec<(String, Number)> = Vec::new();
    assert(weights.deep_view() =~= collected(results.take(0))->Ok_0);
    for i in 0..entries.len()
        invariant
            views == options.deep_view(),
            results == entry_views(entries@).map_values(
                |entry: (Seq<char>, JsonView)| option_weight(id@, entry, views),
            ),
            results.len() == entries@.len(),
            option_weights(id@, value.deep_view(), views) == collected(results),
            collected(results.take(i as int)) == Ok::<Seq<(Seq<char>, Number)>, CallErrorView>(
                weights.deep_view(),
            ),
    {
        match named_probability(id, &entries[i], options) {
            Ok(weight) => {
                proof {
                    lemma_collected_next(results, i as int);
                }
                keep(&mut weights, weight);
            },
            Err(error) => {
                proof {
                    lemma_collected_fails(results, i as int);
                }
                return Err(error);
            },
        }
    }
    assert(results.take(results.len() as int) =~= results);
    Ok(weights)
}

/// The legend is the caller's own scale by index, never the provider's echo of it.
pub open spec fn legend_of(levels: Seq<Seq<char>>) -> Seq<(u32, Seq<char>)> {
    Seq::new(
        levels.len(),
        |i: int|
            (
                if i <= u32::MAX {
                    i as u32
                } else {
                    u32::MAX
                },
                levels[i],
            ),
    )
}

pub fn caller_legend(levels: &Vec<String>) -> (legend: Vec<(u32, String)>)
    ensures
        legend.deep_view() == legend_of(levels.deep_view()),
{
    let mut legend: Vec<(u32, String)> = Vec::new();
    for i in 0..levels.len()
        invariant
            legend@.len() == i,
            forall|k: int|
                0 <= k < i ==> (#[trigger] legend@[k]).deep_view() == legend_of(levels.deep_view())[k],
    {
        let index: u32 = if i <= u32::MAX as usize {
            i as u32
        } else {
            u32::MAX
        };
        legend.push((index, levels[i].clone()));
    }
    assert(legend.deep_view() =~= legend_of(levels.deep_view()));
    legend
}

/// The answer to one question: of the type it was asked, its values on the caller's own scale.
///
/// The decision values are read as strictly as the shape of the answer: a missing noul is no confident no, and
/// a missing score is not the lowest level. Confidence and probabilities are optional.
pub open spec fn answer_of(question: QuestionView, answer: JsonView) -> Result<
    AnswerView,
    CallErrorView,
> {
    let id = question.id;
    let reported = answer.at("type"@).text();
    match question.kind {
        QuestionKindView::Noul { .. } if reported == "noul"@ => match probability_of(
            id,
            "noul"@,
            answer.at("noul"@),
        ) {
            Err(error) => Err(error),
            Ok(noul) => Ok(AnswerView { id, answer: GivenView::Noul { noul } }),
        },
        QuestionKindView::Choice { options } if reported == "choice"@ => match choice_of(
            id,
            answer.at("choice"@),
            options,
        ) {
            Err(error) => Err(error),
            Ok(choice) => match option_weights(id, given_field(answer, "probabilities"@), options) {
                Err(error) => Err(error),
                Ok(weights) => match confidence_of(id, given_field(answer, "confidence"@)) {
                    Err(error) => Err(error),
                    Ok(confidence) => Ok(
                        AnswerView { id, answer: GivenView::Choice { choice, weights, confidence } },
                    ),
                },
            },
        },
        QuestionKindView::Score { levels } if reported == "score"@ => match score_of(
            id,
            answer.at("score"@),
            levels.len(),
        ) {
            Err(error) => Err(error),
            Ok(score) => match level_weights(
                id,
                given_field(answer, "probabilities"@),
                levels.len(),
            ) {
                Err(error) => Err(error),
                Ok(probabilities) => match confidence_of(id, given_field(answer, "confidence"@)) {
                    Err(error) => Err(error),
                    Ok(confidence) => Ok(
                        AnswerView {
                            id,
                            answer: GivenView::Score {
                                score,
                                legend: latest(legend_of(levels)),
                                probabilities,
                                confidence,
                            },
                        },
                    ),
                },
            },
        },
        _ => Err(
            CallErrorView::Final(
                "the provider answered "@ + id + " with a "@ + reported + ", not the "@ + kind_name_of(
                    question.kind,
                ) + " it was asked"@,
            ),
        ),
    }
}

pub fn read_answer(question: &Question, answer: &Json) -> (read: Result<Answer, CallError>)
    ensures
        outcome(read) == answer_of(question.deep_view(), answer.deep_view()),
{
    let id: &str = question.id.as_str();
    let reported: String = answer.text_at("type");
    let kind: &str = kind_name(&question.kind);
    proof {
        reveal_strlit("noul");
        reveal_strlit("choice");
        reveal_strlit("score");
    }
    if !same(reported.as_str(), kind) {
        return Err(
            CallError::Final(
                cat7(
                    "the provider answered ",
                    id,
                    " with a ",
                    reported.as_str(),
                    ", not the ",
                    kind,
                    " it was asked",
                ),
            ),
        );
    }
    let given: Given = match &question.kind {
        QuestionKind::Noul { .. } => {
            let noul: Number = probability(id, "noul", answer.get("noul"))?;
            Given::Noul(NoulAnswer { noul })
        },
        QuestionKind::Choice { options } => {
            let choice: String = chosen_option(id, answer.get("choice"), options)?;
            let probabilities: Vec<(String, Number)> = named_probabilities(
                id,
                given_value(answer, "probabilities"),
                options,
            )?;
            let confidence: Number = confidence(id, given_value(answer, "confidence"))?;
            Given::Choice(ChoiceAnswer { choice, probabilities, confidence })
        },
        QuestionKind::Score { levels } => {
            let score: Number = scored(id, answer.get("score"), levels.len())?;
            let probabilities: Vec<(u32, Number)> = levelled_probabilities(
                id,
                given_value(answer, "probabilities"),
                levels.len(),
            )?;
            let confidence: Number = confidence(id, given_value(answer, "confidence"))?;
            Given::Score(
                ScoreAnswer {
                    score,
                    legend: keep_latest(caller_legend(levels)),
                    probabilities,
                    confidence,
                },
            )
        },
    };
    Ok(Answer { id: question.id.clone(), answer: given })
}

pub open spec fn is_asked(questions: Seq<QuestionView>, id: Seq<char>) -> bool {
    exists|i: int| 0 <= i < questions.len() && (#[trigger] questions[i]).id == id
}

fn asked(questions: &Vec<Question>, id: &str) -> (found: bool)
    ensures
        found == is_asked(questions.deep_view(), id@),
{
    let ghost views = questions.deep_view();
    for i in 0..questions.len()
        invariant
            views == questions.deep_view(),
            forall|k: int| 0 <= k < i ==> (#[trigger] views[k]).id != id@,
    {
        assert(views[i as int].id == questions@[i as int].id@);
        if same(questions[i].id.as_str(), id) {
            return true;
        }
    }
    false
}

/// The first answer in the reply that no question asked for.
pub open spec fn unasked(entries: Seq<(Seq<char>, JsonView)>, questions: Seq<QuestionView>) -> Option<
    (Seq<char>, JsonView),
> {
    first_where(entries, |entry: (Seq<char>, JsonView)| !is_asked(questions, entry.0))
}

fn first_unasked(entries: &Vec<(String, Json)>, questions: &Vec<Question>) -> (found: Option<usize>)
    ensures
        (match found {
            Some(i) => i < entries@.len() && unasked(
                entry_views(entries@),
                questions.deep_view(),
            ) == Some(entry_views(entries@)[i as int]),
            None => unasked(entry_views(entries@), questions.deep_view()) is None,
        }),
{
    let ghost views = entry_views(entries@);
    let ghost asked_for = questions.deep_view();
    let mut i: usize = 0;
    assert(views.skip(0) =~= views);
    while i < entries.len()
        invariant
            i <= entries@.len(),
            views == entry_views(entries@),
            asked_for == questions.deep_view(),
            unasked(views.skip(i as int), asked_for) == unasked(views, asked_for),
        decreases entries@.len() - i,
    {
        if !asked(questions, entries[i].0.as_str()) {
            return Some(i);
        }
        assert(views.skip(i as int).drop_first() =~= views.skip(i as int + 1));
        i += 1;
    }
    None
}

/// What the reply says to one question.
pub open spec fn answered(question: QuestionView, entries: Seq<(Seq<char>, JsonView)>) -> Result<
    AnswerView,
    CallErrorView,
> {
    match lookup(entries, question.id) {
        None => Err(
            CallErrorView::Final("the provider left "@ + question.id + " unanswered"@),
        ),
        Some(answer) => answer_of(question, answer),
    }
}

/// What a reply says to the questions: every question answered, in the order they were asked, and nothing that
/// was not asked.
pub open spec fn answers_of(body: JsonView, questions: Seq<QuestionView>) -> Result<
    Seq<AnswerView>,
    CallErrorView,
> {
    match body.at("answers"@) {
        JsonView::Object(entries) => match unasked(entries, questions) {
            Some(entry) => Err(
                CallErrorView::Final(
                    "the provider answered "@ + entry.0 + ", which was never asked"@,
                ),
            ),
            None => collected(
                questions.map_values(|question: QuestionView| answered(question, entries)),
            ),
        },
        _ => Err(CallErrorView::WorthRetrying("the reply carried no answers"@)),
    }
}

pub open spec fn verdict_of(
    body: JsonView,
    questions: Seq<QuestionView>,
    sent: JsonView,
) -> Result<VerdictView, CallErrorView> {
    match answers_of(body, questions) {
        Err(error) => Err(error),
        Ok(answers) => Ok(
            VerdictView {
                model_used: body.at("model"@).text(),
                answers,
                tokens_in: count_of(body.at("usage"@).at("input_tokens"@)),
                tokens_out: count_of(body.at("usage"@).at("output_tokens"@)),
                sent,
                reply: body,
            },
        ),
    }
}

fn read_answers(body: &Json, questions: &Vec<Question>) -> (read: Result<Vec<Answer>, CallError>)
    ensures
        outcome(read) == answers_of(body.deep_view(), questions.deep_view()),
{
    let entries: &Vec<(String, Json)> = match body.get("answers") {
        Some(Json::Object(entries)) => entries,
        _ => {
            return Err(CallError::WorthRetrying("the reply carried no answers".to_owned()));
        },
    };
    let ghost views = entry_views(entries@);
    if let Some(i) = first_unasked(entries, questions) {
        return Err(
            CallError::Final(
                cat3("the provider answered ", entries[i].0.as_str(), ", which was never asked"),
            ),
        );
    }
    let ghost results = questions.deep_view().map_values(
        |question: QuestionView| answered(question, views),
    );
    let mut given: Vec<Answer> = Vec::new();
    assert(given.deep_view() =~= collected(results.take(0))->Ok_0);
    for i in 0..questions.len()
        invariant
            views == entry_views(entries@),
            results == questions.deep_view().map_values(
                |question: QuestionView| answered(question, views),
            ),
            results.len() == questions@.len(),
            answers_of(body.deep_view(), questions.deep_view()) == collected(results),
            collected(results.take(i as int)) == Ok::<Seq<AnswerView>, CallErrorView>(
                given.deep_view(),
            ),
    {
        let question: &Question = &questions[i];
        assert(results[i as int] == answered(question.deep_view(), views));
        let read: Result<Answer, CallError> = match position(entries, question.id.as_str()) {
            None => Err(
                CallError::Final(cat3("the provider left ", question.id.as_str(), " unanswered")),
            ),
            Some(k) => read_answer(question, &entries[k].1),
        };
        match read {
            Ok(answer) => {
                proof {
                    lemma_collected_next(results, i as int);
                }
                keep(&mut given, answer);
            },
            Err(error) => {
                proof {
                    lemma_collected_fails(results, i as int);
                }
                return Err(error);
            },
        }
    }
    assert(results.take(results.len() as int) =~= results);
    Ok(given)
}

fn usage_count(body: &Json, field: &str) -> (count: i32)
    ensures
        count == count_of(body.deep_view().at("usage"@).at(field@)),
{
    match body.get("usage") {
        Some(usage) => as_count(usage.get(field)),
        None => 0,
    }
}

pub fn read_verdict(body: &Json, questions: &Vec<Question>, sent: &Json) -> (read: Result<
    Verdict,
    CallError,
>)
    ensures
        outcome(read) == verdict_of(body.deep_view(), questions.deep_view(), sent.deep_view()),
{
    let answers: Vec<Answer> = read_answers(body, questions)?;
    Ok(
        Verdict {
            model_used: body.text_at("model"),
            answers,
            tokens_in: usage_count(body, "input_tokens"),
            tokens_out: usage_count(body, "output_tokens"),
            sent: sent.copy(),
            reply: body.copy(),
        },
    )
}

pub open spec fn card_of(model: JsonView) -> ModelCardView {
    ModelCardView {
        name: model.at("name"@).text(),
        description: model.at("description"@).text(),
        release_date: model.at("release_date"@).text(),
    }
}

pub fn model_card(model: &Json) -> (card: ModelCard)
    ensures
        card.deep_view() == card_of(model.deep_view()),
{
    ModelCard {
        name: model.text_at("name"),
        description: model.text_at("description"),
        release_date: model.text_at("release_date"),
    }
}

/// An answer on the caller's own scale: of the kind that was asked, every number between its bounds, every name
/// one that was offered, no level weighed twice, and the legend the caller's levels.
pub open spec fn answer_fits(given: GivenView, kind: QuestionKindView) -> bool {
    match (kind, given) {
        (QuestionKindView::Noul { .. }, GivenView::Noul { noul }) => within(noul, 1),
        (
            QuestionKindView::Choice { options },
            GivenView::Choice { choice, weights, confidence },
        ) => {
            &&& is_offered(options, choice)
            &&& forall|i: int|
                0 <= i < weights.len() ==> is_offered(options, (#[trigger] weights[i]).0) && within(
                    weights[i].1,
                    1,
                )
            &&& within(confidence, 1)
        },
        (
            QuestionKindView::Score { levels },
            GivenView::Score { score, legend, probabilities, confidence },
        ) => {
            &&& within(score, highest_score(levels.len()))
            &&& legend == latest(legend_of(levels))
            &&& levels.len() <= u32::MAX ==> legend == legend_of(levels)
            &&& forall|i: int, j: int|
                0 <= i < j < probabilities.len() ==> (#[trigger] probabilities[i]).0 != (
                #[trigger] probabilities[j]).0
            &&& forall|i: int|
                0 <= i < probabilities.len() ==> (#[trigger] probabilities[i]).0 < levels.len()
                    && within(probabilities[i].1, 1)
            &&& within(confidence, 1)
        },
        _ => false,
    }
}

/// The value that decides is the one the provider wrote: it is never made up where the reply leaves it out.
pub open spec fn value_was_given(given: GivenView, answer: JsonView) -> bool {
    match given {
        GivenView::Noul { noul } => answer.at("noul"@) == JsonView::Number(noul),
        GivenView::Choice { choice, .. } => answer.at("choice"@) == JsonView::Text(choice),
        GivenView::Score { score, .. } => answer.at("score"@) == JsonView::Number(score),
    }
}

proof fn lemma_answer_fits(question: QuestionView, answer: JsonView)
    requires
        answer_of(question, answer) is Ok,
    ensures
        answer_of(question, answer)->Ok_0.id == question.id,
        answer_fits(answer_of(question, answer)->Ok_0.answer, question.kind),
        value_was_given(answer_of(question, answer)->Ok_0.answer, answer),
{
    let id = question.id;
    match question.kind {
        QuestionKindView::Choice { options } => {
            if let Some(JsonView::Object(entries)) = given_field(answer, "probabilities"@) {
                let results = entries.map_values(
                    |entry: (Seq<char>, JsonView)| option_weight(id, entry, options),
                );
                lemma_collected_items(results);
                let weights = collected(results)->Ok_0;
                assert forall|i: int| 0 <= i < weights.len() implies is_offered(
                    options,
                    (#[trigger] weights[i]).0,
                ) && within(weights[i].1, 1) by {
                    assert(results[i] == option_weight(id, entries[i], options));
                }
            }
        },
        QuestionKindView::Score { levels } => {
            if let Some(JsonView::Object(entries)) = given_field(answer, "probabilities"@) {
                let results = entries.map_values(
                    |entry: (Seq<char>, JsonView)| level_weight(id, entry, levels.len()),
                );
                lemma_collected_items(results);
                let weights = collected(results)->Ok_0;
                assert forall|i: int| 0 <= i < weights.len() implies (#[trigger] weights[i]).0
                    < levels.len() && within(weights[i].1, 1) by {
                    assert(results[i] == level_weight(id, entries[i], levels.len()));
                }
                law_each_level_is_weighed_once(weights);
                let kept = latest(weights);
                assert forall|i: int| 0 <= i < kept.len() implies (#[trigger] kept[i]).0 < levels.len()
                    && within(kept[i].1, 1) by {
                    let k = choose|k: int| 0 <= k < weights.len() && #[trigger] weights[k] == kept[i];
                    assert(weights[k].0 < levels.len());
                }
            }
            if levels.len() <= u32::MAX {
                lemma_different_levels_stay(legend_of(levels));
            }
        },
        _ => {},
    }
}

proof fn lemma_nothing_unasked(entries: Seq<(Seq<char>, JsonView)>, questions: Seq<QuestionView>)
    requires
        unasked(entries, questions) is None,
    ensures
        forall|i: int| 0 <= i < entries.len() ==> is_asked(questions, (#[trigger] entries[i]).0),
    decreases entries.len(),
{
    if entries.len() > 0 {
        lemma_nothing_unasked(entries.drop_first(), questions);
        assert forall|i: int| 0 <= i < entries.len() implies is_asked(
            questions,
            (#[trigger] entries[i]).0,
        ) by {
            if i > 0 {
                assert(entries.drop_first()[i - 1] == entries[i]);
            }
        }
    }
}

/// A verdict answers every question, in the order the caller asked, each on the scale of its own question and
/// with the value the provider wrote; and the reply held nothing that was never asked.
pub proof fn law_every_question_is_answered_on_its_own_scale(
    body: JsonView,
    questions: Seq<QuestionView>,
    sent: JsonView,
)
    requires
        verdict_of(body, questions, sent) is Ok,
    ensures
        body.at("answers"@) is Object,
        verdict_of(body, questions, sent)->Ok_0.answers.len() == questions.len(),
        forall|i: int|
            #![trigger verdict_of(body, questions, sent)->Ok_0.answers[i]]
            0 <= i < questions.len() ==> {
                let answer = verdict_of(body, questions, sent)->Ok_0.answers[i];
                &&& answer.id == questions[i].id
                &&& answer_fits(answer.answer, questions[i].kind)
                &&& body.at("answers"@).get(questions[i].id) is Some
                &&& value_was_given(answer.answer, body.at("answers"@).at(questions[i].id))
            },
        forall|i: int|
            0 <= i < body.at("answers"@)->Object_0.len() ==> is_asked(
                questions,
                (#[trigger] body.at("answers"@)->Object_0[i]).0,
            ),
{
    let entries = body.at("answers"@)->Object_0;
    let results = questions.map_values(|question: QuestionView| answered(question, entries));
    lemma_nothing_unasked(entries, questions);
    lemma_collected_items(results);
    assert forall|i: int|
        #![trigger verdict_of(body, questions, sent)->Ok_0.answers[i]]
        0 <= i < questions.len() implies {
        let answer = verdict_of(body, questions, sent)->Ok_0.answers[i];
        &&& answer.id == questions[i].id
        &&& answer_fits(answer.answer, questions[i].kind)
        &&& body.at("answers"@).get(questions[i].id) is Some
        &&& value_was_given(answer.answer, body.at("answers"@).at(questions[i].id))
    } by {
        assert(results[i] == answered(questions[i], entries));
        lemma_answer_fits(questions[i], lookup(entries, questions[i].id)->Some_0);
    }
}

/// A fault in what the provider answered is never reported as the caller's own.
pub proof fn law_a_bad_reply_is_never_the_callers_fault(
    body: JsonView,
    questions: Seq<QuestionView>,
    sent: JsonView,
)
    requires
        verdict_of(body, questions, sent) is Err,
    ensures
        verdict_of(body, questions, sent)->Err_0 !is Refused,
        verdict_of(body, questions, sent)->Err_0 is WorthRetrying <==> body.at("answers"@) !is Object,
{
    if let JsonView::Object(entries) = body.at("answers"@) {
        if unasked(entries, questions) is None {
            let results = questions.map_values(|question: QuestionView| answered(question, entries));
            lemma_collected_failure(results);
            let i = choose|i: int|
                0 <= i < results.len() && #[trigger] results[i] == Err::<AnswerView, CallErrorView>(
                    collected(results)->Err_0,
                );
            assert(results[i] == answered(questions[i], entries));
            if lookup(entries, questions[i].id) is Some {
                lemma_answer_fault_is_final(questions[i], lookup(entries, questions[i].id)->Some_0);
            }
        }
    }
}

proof fn lemma_answer_fault_is_final(question: QuestionView, answer: JsonView)
    requires
        answer_of(question, answer) is Err,
    ensures
        answer_of(question, answer)->Err_0 is Final,
{
    let id = question.id;
    match question.kind {
        QuestionKindView::Choice { options } => {
            if let Some(JsonView::Object(entries)) = given_field(answer, "probabilities"@) {
                let results = entries.map_values(
                    |entry: (Seq<char>, JsonView)| option_weight(id, entry, options),
                );
                if collected(results) is Err {
                    lemma_collected_failure(results);
                }
            }
        },
        QuestionKindView::Score { levels } => {
            if let Some(JsonView::Object(entries)) = given_field(answer, "probabilities"@) {
                let results = entries.map_values(
                    |entry: (Seq<char>, JsonView)| level_weight(id, entry, levels.len()),
                );
                if collected(results) is Err {
                    lemma_collected_failure(results);
                }
            }
        },
        _ => {},
    }
}

/// A confidence is the number that the reply holds for it, and zero exactly where the reply leaves it out or holds null.
pub open spec fn confidence_was_given(confidence: Number, answer: JsonView) -> bool {
    &&& answer.at("confidence"@) is Number || answer.at("confidence"@) is Null
    &&& answer.at("confidence"@) matches JsonView::Number(n) ==> confidence == n
    &&& answer.at("confidence"@) is Null ==> confidence == Number::Float(0)
}

/// An entry of the reply weighs a level: its name is the level in digits, and its value the weight.
pub open spec fn weighs_level(entry: (Seq<char>, JsonView), level: u32) -> bool {
    parsed_whole(entry.0, u32::MAX as nat) == Some(level as nat)
}

/// A weight is the value of the last entry that weighs its level.
pub open spec fn is_last_weight(entries: Seq<(Seq<char>, JsonView)>, weight: (u32, Number)) -> bool {
    exists|j: int|
        0 <= j < entries.len() && weighs_level(#[trigger] entries[j], weight.0) && entries[j].1
            == JsonView::Number(weight.1) && forall|m: int|
            j < m < entries.len() ==> !weighs_level(#[trigger] entries[m], weight.0)
}

/// The level of an entry is among those weighed.
pub open spec fn is_weighed(probabilities: Seq<(u32, Number)>, entry: (Seq<char>, JsonView)) -> bool {
    exists|k: int|
        0 <= k < probabilities.len() && weighs_level(entry, (#[trigger] probabilities[k]).0)
}

/// Weights by level repeat the entries that weigh a level: each is the value of the last entry for its own level, and
/// no level that an entry weighs is missing.
pub open spec fn levels_repeat(entries: Seq<(Seq<char>, JsonView)>, probabilities: Seq<(u32, Number)>) -> bool {
    &&& forall|k: int| 0 <= k < probabilities.len() ==> is_last_weight(entries, #[trigger] probabilities[k])
    &&& forall|j: int| 0 <= j < entries.len() ==> is_weighed(probabilities, #[trigger] entries[j])
}

/// An answer repeats the reply's entry for its question, field by field: nothing is made up, and nothing that the
/// entry weighs is lost or weighed as something else.
pub open spec fn repeats_the_reply(kind: QuestionKindView, given: GivenView, answer: JsonView) -> bool {
    match (kind, given) {
        (QuestionKindView::Noul { .. }, GivenView::Noul { noul }) => {
            &&& answer.at("type"@) == JsonView::Text("noul"@)
            &&& answer.at("noul"@) == JsonView::Number(noul)
        },
        (
            QuestionKindView::Choice { .. },
            GivenView::Choice { choice, weights, confidence },
        ) => {
            &&& answer.at("type"@) == JsonView::Text("choice"@)
            &&& answer.at("choice"@) == JsonView::Text(choice)
            &&& confidence_was_given(confidence, answer)
            &&& answer.at("probabilities"@) is Object || answer.at("probabilities"@) is Null
            &&& answer.at("probabilities"@) is Null ==> weights.len() == 0
            &&& answer.at("probabilities"@) matches JsonView::Object(entries) ==> {
                &&& weights.len() == entries.len()
                &&& forall|k: int|
                    0 <= k < weights.len() ==> (#[trigger] weights[k]).0 == entries[k].0
                        && entries[k].1 == JsonView::Number(weights[k].1)
            }
        },
        (
            QuestionKindView::Score { levels },
            GivenView::Score { score, legend, probabilities, confidence },
        ) => {
            &&& answer.at("type"@) == JsonView::Text("score"@)
            &&& answer.at("score"@) == JsonView::Number(score)
            &&& confidence_was_given(confidence, answer)
            &&& levels.len() <= u32::MAX ==> {
                &&& legend.len() == levels.len()
                &&& forall|k: int|
                    0 <= k < legend.len() ==> #[trigger] legend[k] == (k as u32, levels[k])
            }
            &&& answer.at("probabilities"@) is Object || answer.at("probabilities"@) is Null
            &&& answer.at("probabilities"@) is Null ==> probabilities.len() == 0
            &&& answer.at("probabilities"@) matches JsonView::Object(entries) ==> levels_repeat(
                entries,
                probabilities,
            )
        },
        _ => false,
    }
}

proof fn lemma_choice_repeats(id: Seq<char>, answer: JsonView, options: Seq<ChoiceOptionView>)
    requires
        option_weights(id, given_field(answer, "probabilities"@), options) is Ok,
    ensures
        ({
            let weights = option_weights(id, given_field(answer, "probabilities"@), options)->Ok_0;
            &&& answer.at("probabilities"@) is Object || answer.at("probabilities"@) is Null
            &&& answer.at("probabilities"@) is Null ==> weights.len() == 0
            &&& answer.at("probabilities"@) matches JsonView::Object(entries) ==> {
                &&& weights.len() == entries.len()
                &&& forall|k: int|
                    0 <= k < weights.len() ==> (#[trigger] weights[k]).0 == entries[k].0
                        && entries[k].1 == JsonView::Number(weights[k].1)
            }
        }),
{
    if let JsonView::Object(entries) = answer.at("probabilities"@) {
        let results = entries.map_values(
            |entry: (Seq<char>, JsonView)| option_weight(id, entry, options),
        );
        lemma_collected_items(results);
        let weights = collected(results)->Ok_0;
        assert forall|k: int| 0 <= k < weights.len() implies (#[trigger] weights[k]).0 == entries[k].0
            && entries[k].1 == JsonView::Number(weights[k].1) by {
            assert(results[k] == option_weight(id, entries[k], options));
        }
    }
}

proof fn lemma_kept_weight_was_given(
    entries: Seq<(Seq<char>, JsonView)>,
    weights: Seq<(u32, Number)>,
    k: int,
)
    requires
        entries.len() == weights.len(),
        forall|j: int|
            0 <= j < weights.len() ==> weighs_level(entries[j], (#[trigger] weights[j]).0) && entries[j].1
                == JsonView::Number(weights[j].1),
        0 <= k < latest(weights).len(),
    ensures
        is_last_weight(entries, latest(weights)[k]),
{
    lemma_latest_entry_was_given(weights, k);
    let j = choose|j: int|
        0 <= j < weights.len() && #[trigger] weights[j] == latest(weights)[k] && !names_level(
            weights.skip(j + 1),
            weights[j].0,
        );
    assert forall|m: int| j < m < entries.len() implies !weighs_level(
        #[trigger] entries[m],
        latest(weights)[k].0,
    ) by {
        assert(weights.skip(j + 1)[m - j - 1] == weights[m]);
        assert(weighs_level(entries[m], weights[m].0));
    }
    assert(weighs_level(entries[j], latest(weights)[k].0));
}

proof fn lemma_weight_is_kept(
    entries: Seq<(Seq<char>, JsonView)>,
    weights: Seq<(u32, Number)>,
    j: int,
)
    requires
        0 <= j < weights.len(),
        weighs_level(entries[j], weights[j].0),
    ensures
        is_weighed(latest(weights), entries[j]),
{
    lemma_no_level_is_lost(weights, weights[j].0);
    assert(names_level(weights, weights[j].0));
    let k = choose|k: int|
        0 <= k < latest(weights).len() && (#[trigger] latest(weights)[k]).0 == weights[j].0;
    assert(weighs_level(entries[j], latest(weights)[k].0));
}

proof fn lemma_levels_repeat(id: Seq<char>, entries: Seq<(Seq<char>, JsonView)>, levels: nat)
    requires
        collected(
            entries.map_values(|entry: (Seq<char>, JsonView)| level_weight(id, entry, levels)),
        ) is Ok,
    ensures
        levels_repeat(
            entries,
            latest(
                collected(
                    entries.map_values(|entry: (Seq<char>, JsonView)| level_weight(id, entry, levels)),
                )->Ok_0,
            ),
        ),
{
    let results = entries.map_values(|entry: (Seq<char>, JsonView)| level_weight(id, entry, levels));
    lemma_collected_items(results);
    let weights = collected(results)->Ok_0;
    let kept = latest(weights);
    assert forall|j: int| 0 <= j < weights.len() implies weighs_level(
        entries[j],
        (#[trigger] weights[j]).0,
    ) && entries[j].1 == JsonView::Number(weights[j].1) by {
        assert(results[j] == level_weight(id, entries[j], levels));
    }
    assert forall|k: int| 0 <= k < kept.len() implies is_last_weight(entries, #[trigger] kept[k]) by {
        lemma_kept_weight_was_given(entries, weights, k);
    }
    assert forall|j: int| 0 <= j < entries.len() implies is_weighed(kept, #[trigger] entries[j]) by {
        assert(weighs_level(entries[j], weights[j].0));
        lemma_weight_is_kept(entries, weights, j);
    }
}

proof fn lemma_answer_repeats(question: QuestionView, answer: JsonView)
    requires
        answer_of(question, answer) is Ok,
    ensures
        answer_of(question, answer)->Ok_0.id == question.id,
        repeats_the_reply(question.kind, answer_of(question, answer)->Ok_0.answer, answer),
{
    reveal_strlit("noul");
    reveal_strlit("choice");
    reveal_strlit("score");
    assert("noul"@.len() == 4 && "choice"@.len() == 6 && "score"@.len() == 5);
    match question.kind {
        QuestionKindView::Choice { options } => {
            lemma_choice_repeats(question.id, answer, options);
        },
        QuestionKindView::Score { levels } => {
            if let JsonView::Object(entries) = answer.at("probabilities"@) {
                lemma_levels_repeat(question.id, entries, levels.len());
            }
            if levels.len() <= u32::MAX {
                lemma_different_levels_stay(legend_of(levels));
            }
        },
        _ => {},
    }
}

/// Every answer of a verdict repeats what the reply holds under its question's own name: its value, its confidence
/// where the reply holds one and zero only where it holds none, and each weight under the name or level that the
/// reply weighs.
pub proof fn law_an_answer_repeats_the_reply(
    body: JsonView,
    questions: Seq<QuestionView>,
    sent: JsonView,
    i: int,
)
    requires
        verdict_of(body, questions, sent) is Ok,
        0 <= i < questions.len(),
    ensures
        verdict_of(body, questions, sent)->Ok_0.answers.len() == questions.len(),
        verdict_of(body, questions, sent)->Ok_0.answers[i].id == questions[i].id,
        body.at("answers"@).get(questions[i].id) is Some,
        repeats_the_reply(
            questions[i].kind,
            verdict_of(body, questions, sent)->Ok_0.answers[i].answer,
            body.at("answers"@).at(questions[i].id),
        ),
{
    let entries = body.at("answers"@)->Object_0;
    let results = questions.map_values(|question: QuestionView| answered(question, entries));
    lemma_collected_items(results);
    assert(results[i] == answered(questions[i], entries));
    lemma_answer_repeats(questions[i], lookup(entries, questions[i].id)->Some_0);
}

/// A verdict names the model that the reply names, counts the tokens that the reply counts, and keeps what was sent
/// and what came back.
pub proof fn law_a_verdict_keeps_what_the_reply_says_of_itself(
    body: JsonView,
    questions: Seq<QuestionView>,
    sent: JsonView,
)
    requires
        verdict_of(body, questions, sent) is Ok,
    ensures
        ({
            let verdict = verdict_of(body, questions, sent)->Ok_0;
            &&& body.at("model"@) matches JsonView::Text(model) ==> verdict.model_used == model
            &&& body.at("model"@) !is Text ==> verdict.model_used.len() == 0
            &&& integer_of(body.at("usage"@).at("input_tokens"@)) matches Some(n) ==> (i32::MIN <= n
                <= i32::MAX ==> verdict.tokens_in == n)
            &&& integer_of(body.at("usage"@).at("output_tokens"@)) matches Some(n) ==> (i32::MIN <= n
                <= i32::MAX ==> verdict.tokens_out == n)
            &&& integer_of(body.at("usage"@).at("input_tokens"@)) is None ==> verdict.tokens_in == 0
            &&& integer_of(body.at("usage"@).at("output_tokens"@)) is None ==> verdict.tokens_out == 0
            &&& verdict.sent == sent
            &&& verdict.reply == body
        }),
{
}

/// A model card says of a model what the listing says of it, each text under its own name.
pub proof fn law_a_card_says_what_the_listing_says(model: JsonView)
    ensures
        model.at("name"@) matches JsonView::Text(text) ==> card_of(model).name == text,
        model.at("description"@) matches JsonView::Text(text) ==> card_of(model).description == text,
        model.at("release_date"@) matches JsonView::Text(text) ==> card_of(model).release_date == text,
        model.at("name"@) !is Text ==> card_of(model).name.len() == 0,
        model.at("description"@) !is Text ==> card_of(model).description.len() == 0,
        model.at("release_date"@) !is Text ==> card_of(model).release_date.len() == 0,
{
}

/// A confidence may be left out, be null, or be a number between zero and one.
pub open spec fn confidence_reads(answer: JsonView) -> bool {
    answer.at("confidence"@) is Null || (answer.at("confidence"@) matches JsonView::Number(n) && within(n, 1))
}

/// An entry of the reply reads as an answer of the kind that was asked, with every number between its bounds and every
/// name and level one that was asked about.
pub open spec fn reads_as(kind: QuestionKindView, answer: JsonView) -> bool {
    match kind {
        QuestionKindView::Noul { .. } => {
            &&& answer.at("type"@) == JsonView::Text("noul"@)
            &&& answer.at("noul"@) matches JsonView::Number(n) && within(n, 1)
        },
        QuestionKindView::Choice { options } => {
            &&& answer.at("type"@) == JsonView::Text("choice"@)
            &&& answer.at("choice"@) matches JsonView::Text(chosen) && exists|i: int|
                0 <= i < options.len() && (#[trigger] options[i]).name == chosen
            &&& answer.at("probabilities"@) is Null || answer.at("probabilities"@) is Object
            &&& answer.at("probabilities"@) matches JsonView::Object(entries) ==> forall|k: int|
                0 <= k < entries.len() ==> weighs_an_option(#[trigger] entries[k], options)
            &&& confidence_reads(answer)
        },
        QuestionKindView::Score { levels } => {
            &&& answer.at("type"@) == JsonView::Text("score"@)
            &&& answer.at("score"@) matches JsonView::Number(n) && within(n, highest_score(levels.len()))
            &&& answer.at("probabilities"@) is Null || answer.at("probabilities"@) is Object
            &&& answer.at("probabilities"@) matches JsonView::Object(entries) ==> forall|k: int|
                0 <= k < entries.len() ==> weighs_a_level(#[trigger] entries[k], levels.len())
            &&& confidence_reads(answer)
        },
    }
}

/// An entry weighs an option that was offered.
pub open spec fn weighs_an_option(entry: (Seq<char>, JsonView), options: Seq<ChoiceOptionView>) -> bool {
    &&& exists|i: int| 0 <= i < options.len() && (#[trigger] options[i]).name == entry.0
    &&& entry.1 matches JsonView::Number(n) && within(n, 1)
}

/// An entry weighs a level that was asked about.
pub open spec fn weighs_a_level(entry: (Seq<char>, JsonView), levels: nat) -> bool {
    &&& parsed_whole(entry.0, u32::MAX as nat) matches Some(level) && level < levels
    &&& entry.1 matches JsonView::Number(n) && within(n, 1)
}

proof fn lemma_option_weights_read(id: Seq<char>, entries: Seq<(Seq<char>, JsonView)>, options: Seq<ChoiceOptionView>)
    ensures
        collected(
            entries.map_values(|entry: (Seq<char>, JsonView)| option_weight(id, entry, options)),
        ) is Ok <==> forall|k: int| 0 <= k < entries.len() ==> weighs_an_option(#[trigger] entries[k], options),
{
    let results = entries.map_values(|entry: (Seq<char>, JsonView)| option_weight(id, entry, options));
    law_the_first_failure_is_told(results);
    assert forall|k: int| 0 <= k < entries.len() implies ((#[trigger] results[k]) is Ok <==> weighs_an_option(
        entries[k],
        options,
    )) by {
        assert(results[k] == option_weight(id, entries[k], options));
    }
    if forall|k: int| 0 <= k < entries.len() ==> weighs_an_option(#[trigger] entries[k], options) {
        assert forall|k: int| 0 <= k < results.len() implies (#[trigger] results[k]) is Ok by {
            assert(weighs_an_option(entries[k], options));
        }
    }
    if collected(results) is Ok {
        assert forall|k: int| 0 <= k < entries.len() implies weighs_an_option(#[trigger] entries[k], options) by {
            assert(results[k] is Ok);
        }
    }
}

proof fn lemma_level_weights_read(id: Seq<char>, entries: Seq<(Seq<char>, JsonView)>, levels: nat)
    ensures
        collected(
            entries.map_values(|entry: (Seq<char>, JsonView)| level_weight(id, entry, levels)),
        ) is Ok <==> forall|k: int| 0 <= k < entries.len() ==> weighs_a_level(#[trigger] entries[k], levels),
{
    let results = entries.map_values(|entry: (Seq<char>, JsonView)| level_weight(id, entry, levels));
    law_the_first_failure_is_told(results);
    assert forall|k: int| 0 <= k < entries.len() implies ((#[trigger] results[k]) is Ok <==> weighs_a_level(
        entries[k],
        levels,
    )) by {
        assert(results[k] == level_weight(id, entries[k], levels));
    }
    if forall|k: int| 0 <= k < entries.len() ==> weighs_a_level(#[trigger] entries[k], levels) {
        assert forall|k: int| 0 <= k < results.len() implies (#[trigger] results[k]) is Ok by {
            assert(weighs_a_level(entries[k], levels));
        }
    }
    if collected(results) is Ok {
        assert forall|k: int| 0 <= k < entries.len() implies weighs_a_level(#[trigger] entries[k], levels) by {
            assert(results[k] is Ok);
        }
    }
}

proof fn lemma_answer_reads(question: QuestionView, answer: JsonView)
    ensures
        answer_of(question, answer) is Ok <==> reads_as(question.kind, answer),
{
    reveal_strlit("noul");
    reveal_strlit("choice");
    reveal_strlit("score");
    assert("noul"@.len() == 4 && "choice"@.len() == 6 && "score"@.len() == 5);
    match question.kind {
        QuestionKindView::Choice { options } => {
            if let JsonView::Object(entries) = answer.at("probabilities"@) {
                lemma_option_weights_read(question.id, entries, options);
            }
        },
        QuestionKindView::Score { levels } => {
            if let JsonView::Object(entries) = answer.at("probabilities"@) {
                lemma_level_weights_read(question.id, entries, levels.len());
            }
        },
        _ => {},
    }
}

/// A reply is accepted exactly where it answers every question as it was asked, and answers nothing that was not asked.
pub proof fn law_when_a_reply_is_accepted(body: JsonView, questions: Seq<QuestionView>, sent: JsonView)
    ensures
        verdict_of(body, questions, sent) is Ok <==> {
            &&& body.at("answers"@) matches JsonView::Object(entries) && forall|i: int|
                0 <= i < entries.len() ==> is_asked(questions, (#[trigger] entries[i]).0)
            &&& forall|i: int|
                0 <= i < questions.len() ==> body.at("answers"@).get((#[trigger] questions[i]).id) is Some
                    && reads_as(questions[i].kind, body.at("answers"@).at(questions[i].id))
        },
{
    if let JsonView::Object(entries) = body.at("answers"@) {
        let stray = |entry: (Seq<char>, JsonView)| !is_asked(questions, entry.0);
        law_the_first_wanted_item_is_found(entries, stray);
        let results = questions.map_values(|question: QuestionView| answered(question, entries));
        law_the_first_failure_is_told(results);
        assert forall|i: int| 0 <= i < questions.len() implies ((#[trigger] results[i]) is Ok <==> body.at(
            "answers"@,
        ).get(questions[i].id) is Some && reads_as(questions[i].kind, body.at("answers"@).at(questions[i].id))) by {
            assert(results[i] == answered(questions[i], entries));
            if let Some(answer) = lookup(entries, questions[i].id) {
                lemma_answer_reads(questions[i], answer);
            }
        }
        if collected(results) is Ok {
            assert forall|i: int| 0 <= i < questions.len() implies body.at("answers"@).get(
                (#[trigger] questions[i]).id,
            ) is Some && reads_as(questions[i].kind, body.at("answers"@).at(questions[i].id)) by {
                assert(results[i] is Ok);
            }
        }
        if forall|i: int|
            0 <= i < questions.len() ==> body.at("answers"@).get((#[trigger] questions[i]).id) is Some
                && reads_as(questions[i].kind, body.at("answers"@).at(questions[i].id)) {
            assert forall|i: int| 0 <= i < results.len() implies (#[trigger] results[i]) is Ok by {
                assert(body.at("answers"@).get(questions[i].id) is Some);
            }
        }
        if unasked(entries, questions) is None {
            assert forall|i: int| 0 <= i < entries.len() implies is_asked(questions, (#[trigger] entries[i]).0) by {
                assert(!stray(entries[i]));
            }
        } else {
            let i = choose|i: int|
                0 <= i < entries.len() && #[trigger] entries[i] == unasked(entries, questions)->Some_0 && stray(
                    unasked(entries, questions)->Some_0,
                );
            assert(!is_asked(questions, entries[i].0));
        }
    }
}

/// The scale of a score runs from zero to one less than its levels.
pub proof fn law_how_high_a_score_may_be(levels: nat)
    ensures
        1 <= levels <= 0x1_0000_0000 ==> highest_score(levels) == levels - 1,
        levels == 0 ==> highest_score(levels) == 0,
{
}

/// What is told of an answer that does not read names the question it was to.
pub proof fn law_a_bad_answer_is_told_by_its_question(question: QuestionView, answer: JsonView)
    ensures
        answered(question, seq![]) == Err::<AnswerView, CallErrorView>(
            CallErrorView::Final("the provider left "@ + question.id + " unanswered"@),
        ),
        question.kind is Noul && answer.at("type"@) == JsonView::Text("noul"@) && answer.at("noul"@) !is Number
            ==> answer_of(question, answer) == Err::<AnswerView, CallErrorView>(
            CallErrorView::Final("the provider answered "@ + question.id + " with no readable "@ + "noul"@),
        ),
        question.kind matches QuestionKindView::Choice { options } ==> (answer.at("type"@) == JsonView::Text(
            "choice"@,
        ) ==> (answer.at("choice"@) matches JsonView::Text(chosen) ==> (!is_offered(options, chosen) ==> answer_of(
            question,
            answer,
        ) == Err::<AnswerView, CallErrorView>(
            CallErrorView::Final(
                "the provider answered "@ + question.id + " with "@ + chosen + ", which was never offered"@,
            ),
        )))),
        question.kind is Score && answer.at("type"@) == JsonView::Text("noul"@) ==> answer_of(question, answer)
            == Err::<AnswerView, CallErrorView>(
            CallErrorView::Final(
                "the provider answered "@ + question.id + " with a "@ + "noul"@ + ", not the "@ + "score"@
                    + " it was asked"@,
            ),
        ),
{
    reveal_strlit("noul");
    reveal_strlit("score");
    assert("noul"@.len() != "score"@.len());
}

/// What is told of a number, a name or a level that does not read: the question, and what is wrong with it.
pub proof fn law_what_is_told_of_a_value(
    id: Seq<char>,
    field: Seq<char>,
    number: Number,
    levels: nat,
    value: JsonView,
    entry: (Seq<char>, JsonView),
    options: Seq<ChoiceOptionView>,
)
    ensures
        !within(number, 1) ==> probability_of(id, field, JsonView::Number(number)) == Err::<Number, CallErrorView>(
            CallErrorView::Final(
                "the provider answered "@ + id + " with a "@ + field + " of "@ + double_text(number)
                    + ", which is not between 0 and 1"@,
            ),
        ),
        within(number, 1) ==> probability_of(id, field, JsonView::Number(number)) == Ok::<Number, CallErrorView>(
            number,
        ),
        !within(number, highest_score(levels)) ==> score_of(id, JsonView::Number(number), levels) == Err::<
            Number,
            CallErrorView,
        >(
            CallErrorView::Final(
                "the provider answered "@ + id + " with a score of "@ + double_text(number) + ", outside the 0 to "@
                    + dec(highest_score(levels)) + " scale of the "@ + dec(levels)
                    + " levels it was asked about"@,
            ),
        ),
        value !is Object ==> object_of(id, field, Some(value)) == Err::<
            Option<Seq<(Seq<char>, JsonView)>>,
            CallErrorView,
        >(CallErrorView::Final("the provider answered "@ + id + " with a "@ + field + " that is not an object"@)),
        value !is Text ==> choice_of(id, value, options) == Err::<Seq<char>, CallErrorView>(
            CallErrorView::Final("the provider answered "@ + id + " with no readable choice"@),
        ),
        parsed_whole(entry.0, u32::MAX as nat) is None ==> level_weight(id, entry, levels) == Err::<
            (u32, Number),
            CallErrorView,
        >(
            CallErrorView::Final(
                "the provider answered "@ + id + " with a level "@ + entry.0 + " that is not a number"@,
            ),
        ),
        parsed_whole(entry.0, u32::MAX as nat) matches Some(level) ==> (level >= levels ==> level_weight(
            id,
            entry,
            levels,
        ) == Err::<(u32, Number), CallErrorView>(
            CallErrorView::Final(
                "the provider answered "@ + id + " with a level "@ + dec(level) + ", past the "@ + dec(levels)
                    + " levels it was asked about"@,
            ),
        )),
        parsed_whole(entry.0, u32::MAX as nat) matches Some(level) ==> (level < levels && entry.1 !is Number
            ==> level_weight(id, entry, levels) == Err::<(u32, Number), CallErrorView>(
            CallErrorView::Final(
                "the provider answered "@ + id + " with no readable "@ + "probability"@,
            ),
        )),
        !is_offered(options, entry.0) ==> option_weight(id, entry, options) == Err::<
            (Seq<char>, Number),
            CallErrorView,
        >(
            CallErrorView::Final(
                "the provider answered "@ + id + " with a probability for "@ + entry.0
                    + ", which was never offered"@,
            ),
        ),
        is_offered(options, entry.0) && entry.1 !is Number ==> option_weight(id, entry, options) == Err::<
            (Seq<char>, Number),
            CallErrorView,
        >(CallErrorView::Final("the provider answered "@ + id + " with no readable "@ + "probability"@)),
{
}

/// What is told of a reply that answers nothing, or something that was not asked.
pub proof fn law_what_is_told_of_a_stray_reply(
    body: JsonView,
    entries: Seq<(Seq<char>, JsonView)>,
    questions: Seq<QuestionView>,
    sent: JsonView,
)
    ensures
        body.at("answers"@) !is Object ==> verdict_of(body, questions, sent) == Err::<VerdictView, CallErrorView>(
            CallErrorView::WorthRetrying("the reply carried no answers"@),
        ),
        body.at("answers"@) == JsonView::Object(entries) && entries.len() > 0 && !is_asked(questions, entries[0].0)
            ==> verdict_of(body, questions, sent) == Err::<VerdictView, CallErrorView>(
            CallErrorView::Final("the provider answered "@ + entries[0].0 + ", which was never asked"@),
        ),
{
}

} // verus!
