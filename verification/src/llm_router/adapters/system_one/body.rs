//! The two renderings of one decision: the object the provider's API takes, and the array the audit log keeps.

use vstd::prelude::*;

use crate::json::{
    entry_views, group_json_views, law_a_key_finds_its_first_entry, lemma_holds, lookup, Json, JsonView,
};
use crate::llm_router::decision::{
    ChoiceOption, ChoiceOptionView, Decision, DecisionView, Question, QuestionKind, QuestionKindView,
    QuestionView,
};

verus! {

broadcast use group_json_views;

/// The name of a kind on the provider's side.
pub open spec fn kind_name_of(kind: QuestionKindView) -> Seq<char> {
    match kind {
        QuestionKindView::Noul { .. } => "noul"@,
        QuestionKindView::Choice { .. } => "choice"@,
        QuestionKindView::Score { .. } => "score"@,
    }
}

pub fn kind_name(kind: &QuestionKind) -> (name: &'static str)
    ensures
        name@ == kind_name_of(kind.deep_view()),
{
    match kind {
        QuestionKind::Noul { .. } => "noul",
        QuestionKind::Choice { .. } => "choice",
        QuestionKind::Score { .. } => "score",
    }
}

/// The criteria of a noul that the caller wrote, each under the answer it stands for.
pub open spec fn noul_criteria_of(
    when_true: Option<Seq<char>>,
    when_false: Option<Seq<char>>,
) -> Seq<(Seq<char>, JsonView)> {
    let against = match when_false {
        Some(text) => seq![("false"@, JsonView::Text(text))],
        None => seq![],
    };
    match when_true {
        Some(text) => against.push(("true"@, JsonView::Text(text))),
        None => against,
    }
}

fn noul_criteria(when_true: &Option<String>, when_false: &Option<String>) -> (criteria: Vec<
    (String, Json),
>)
    ensures
        entry_views(criteria@) == noul_criteria_of(when_true.deep_view(), when_false.deep_view()),
{
    let mut criteria: Vec<(String, Json)> = Vec::new();
    if let Some(text) = when_false {
        criteria.push(("false".to_owned(), Json::Text(text.clone())));
    }
    if let Some(text) = when_true {
        criteria.push(("true".to_owned(), Json::Text(text.clone())));
    }
    assert(entry_views(criteria@) =~= noul_criteria_of(
        when_true.deep_view(),
        when_false.deep_view(),
    ));
    criteria
}

/// A description as JSON: null where the caller wrote none.
pub open spec fn description_of(option: ChoiceOptionView) -> JsonView {
    match option.description {
        Some(text) => JsonView::Text(text),
        None => JsonView::Null,
    }
}

fn description(option: &ChoiceOption) -> (json: Json)
    ensures
        json.deep_view() == description_of(option.deep_view()),
{
    match &option.description {
        Some(text) => Json::Text(text.clone()),
        None => Json::Null,
    }
}

pub open spec fn texts_of(texts: Seq<Seq<char>>) -> Seq<JsonView> {
    texts.map_values(|text: Seq<char>| JsonView::Text(text))
}

fn texts(written: &Vec<String>) -> (items: Vec<Json>)
    ensures
        items.deep_view() == texts_of(written.deep_view()),
{
    let mut items: Vec<Json> = Vec::new();
    for i in 0..written.len()
        invariant
            items@.len() == i,
            forall|k: int|
                0 <= k < i ==> (#[trigger] items@[k]).deep_view() == JsonView::Text(written@[k]@),
    {
        items.push(Json::Text(written[i].clone()));
    }
    assert(items.deep_view() =~= texts_of(written.deep_view()));
    items
}

/// What a question asks the model to read besides its instructions, as the provider takes it: options are
/// keyed by name, in the order they were offered.
pub open spec fn asked_criteria(kind: QuestionKindView) -> Option<JsonView> {
    match kind {
        QuestionKindView::Noul { when_true, when_false } => {
            let criteria = noul_criteria_of(when_true, when_false);
            if criteria.len() == 0 {
                None
            } else {
                Some(JsonView::Object(criteria))
            }
        },
        QuestionKindView::Choice { options } => Some(
            JsonView::Object(
                options.map_values(
                    |option: ChoiceOptionView| (option.name, description_of(option)),
                ),
            ),
        ),
        QuestionKindView::Score { levels } => Some(JsonView::Array(texts_of(levels))),
    }
}

/// One question as the provider takes it.
pub open spec fn asked_question(question: QuestionView) -> JsonView {
    let plain = seq![
        ("type"@, JsonView::Text(kind_name_of(question.kind))),
        ("instructions"@, question.instructions),
    ];
    match asked_criteria(question.kind) {
        Some(criteria) => JsonView::Object(plain.push(("criteria"@, criteria))),
        None => JsonView::Object(plain),
    }
}

/// The body a provider is sent: the questions keyed by id, in the order the caller asked them.
pub open spec fn decide_body_of(model: Seq<char>, decision: DecisionView) -> JsonView {
    JsonView::Object(
        seq![
            ("state"@, decision.state),
            ("model"@, JsonView::Text(model)),
            (
                "questions"@,
                JsonView::Object(
                    decision.questions.map_values(
                        |question: QuestionView| (question.id, asked_question(question)),
                    ),
                ),
            ),
        ],
    )
}

fn choice_criteria(options: &Vec<ChoiceOption>) -> (criteria: Vec<(String, Json)>)
    ensures
        entry_views(criteria@) == options.deep_view().map_values(
            |option: ChoiceOptionView| (option.name, description_of(option)),
        ),
{
    let mut criteria: Vec<(String, Json)> = Vec::new();
    for i in 0..options.len()
        invariant
            criteria@.len() == i,
            forall|k: int|
                0 <= k < i ==> (#[trigger] criteria@[k]).0@ == options@[k].name@
                    && criteria@[k].1.deep_view() == description_of(options@[k].deep_view()),
    {
        criteria.push((options[i].name.clone(), description(&options[i])));
    }
    assert(entry_views(criteria@) =~= options.deep_view().map_values(
        |option: ChoiceOptionView| (option.name, description_of(option)),
    ));
    criteria
}

fn question_body(question: &Question) -> (body: Json)
    ensures
        body.deep_view() == asked_question(question.deep_view()),
{
    let mut asked: Vec<(String, Json)> = Vec::new();
    asked.push(("type".to_owned(), Json::Text(kind_name(&question.kind).to_owned())));
    asked.push(("instructions".to_owned(), question.instructions.copy()));
    match &question.kind {
        QuestionKind::Noul { when_true, when_false } => {
            let criteria: Vec<(String, Json)> = noul_criteria(when_true, when_false);
            if criteria.len() > 0 {
                asked.push(("criteria".to_owned(), Json::Object(criteria)));
            }
        },
        QuestionKind::Choice { options } => {
            asked.push(("criteria".to_owned(), Json::Object(choice_criteria(options))));
        },
        QuestionKind::Score { levels } => {
            asked.push(("criteria".to_owned(), Json::Array(texts(levels))));
        },
    }
    assert(entry_views(asked@) =~= asked_question(question.deep_view())->Object_0);
    Json::Object(asked)
}

pub fn decide_body(model: &str, decision: &Decision) -> (body: Json)
    ensures
        body.deep_view() == decide_body_of(model@, decision.deep_view()),
{
    let questions: &Vec<Question> = &decision.questions;
    let mut asked: Vec<(String, Json)> = Vec::new();
    for i in 0..questions.len()
        invariant
            asked@.len() == i,
            forall|k: int|
                0 <= k < i ==> (#[trigger] asked@[k]).0@ == questions@[k].id@
                    && asked@[k].1.deep_view() == asked_question(questions@[k].deep_view()),
    {
        asked.push((questions[i].id.clone(), question_body(&questions[i])));
    }
    assert(entry_views(asked@) =~= questions.deep_view().map_values(
        |question: QuestionView| (question.id, asked_question(question)),
    ));
    let mut body: Vec<(String, Json)> = Vec::new();
    body.push(("state".to_owned(), decision.state.copy()));
    body.push(("model".to_owned(), Json::Text(model.to_owned())));
    body.push(("questions".to_owned(), Json::Object(asked)));
    assert(entry_views(body@) =~= decide_body_of(model@, decision.deep_view())->Object_0);
    Json::Object(body)
}

/// An option as the audit log keeps it.
pub open spec fn audited_option(option: ChoiceOptionView) -> JsonView {
    JsonView::Object(
        seq![("description"@, description_of(option)), ("name"@, JsonView::Text(option.name))],
    )
}

/// What a question asked the model to read, as the audit log keeps it: options are a list, in the order they
/// were offered.
pub open spec fn audited_criteria(kind: QuestionKindView) -> Option<JsonView> {
    match kind {
        QuestionKindView::Choice { options } => Some(
            JsonView::Array(
                options.map_values(|option: ChoiceOptionView| audited_option(option)),
            ),
        ),
        _ => asked_criteria(kind),
    }
}

/// One question as the audit log keeps it.
pub open spec fn audited_question_of(question: QuestionView) -> JsonView {
    let criteria = match audited_criteria(question.kind) {
        Some(criteria) => seq![("criteria"@, criteria)],
        None => seq![],
    };
    JsonView::Object(
        criteria + seq![
            ("id"@, JsonView::Text(question.id)),
            ("instructions"@, question.instructions),
            ("type"@, JsonView::Text(kind_name_of(question.kind))),
        ],
    )
}

/// The same request for the decision log. The questions are a list there, because stored JSON has no key order
/// of its own and the order the caller asked in is the reason they are taken as a list.
pub open spec fn audit_body_of(model: Seq<char>, decision: DecisionView) -> JsonView {
    JsonView::Object(
        seq![
            ("model"@, JsonView::Text(model)),
            (
                "questions"@,
                JsonView::Array(
                    decision.questions.map_values(
                        |question: QuestionView| audited_question_of(question),
                    ),
                ),
            ),
            ("state"@, decision.state),
        ],
    )
}

fn audited_options(options: &Vec<ChoiceOption>) -> (items: Vec<Json>)
    ensures
        items.deep_view() == options.deep_view().map_values(
            |option: ChoiceOptionView| audited_option(option),
        ),
{
    let mut items: Vec<Json> = Vec::new();
    for i in 0..options.len()
        invariant
            items@.len() == i,
            forall|k: int|
                0 <= k < i ==> (#[trigger] items@[k]).deep_view() == audited_option(
                    options@[k].deep_view(),
                ),
    {
        let mut entries: Vec<(String, Json)> = Vec::new();
        entries.push(("description".to_owned(), description(&options[i])));
        entries.push(("name".to_owned(), Json::Text(options[i].name.clone())));
        assert(entry_views(entries@) =~= audited_option(options@[i as int].deep_view())->Object_0);
        items.push(Json::Object(entries));
    }
    assert(items.deep_view() =~= options.deep_view().map_values(
        |option: ChoiceOptionView| audited_option(option),
    ));
    items
}

fn audited_question(question: &Question) -> (audited: Json)
    ensures
        audited.deep_view() == audited_question_of(question.deep_view()),
{
    let mut kept: Vec<(String, Json)> = Vec::new();
    match &question.kind {
        QuestionKind::Noul { when_true, when_false } => {
            let criteria: Vec<(String, Json)> = noul_criteria(when_true, when_false);
            if criteria.len() > 0 {
                kept.push(("criteria".to_owned(), Json::Object(criteria)));
            }
        },
        QuestionKind::Choice { options } => {
            kept.push(("criteria".to_owned(), Json::Array(audited_options(options))));
        },
        QuestionKind::Score { levels } => {
            kept.push(("criteria".to_owned(), Json::Array(texts(levels))));
        },
    }
    kept.push(("id".to_owned(), Json::Text(question.id.clone())));
    kept.push(("instructions".to_owned(), question.instructions.copy()));
    kept.push(("type".to_owned(), Json::Text(kind_name(&question.kind).to_owned())));
    assert(entry_views(kept@) =~= audited_question_of(question.deep_view())->Object_0);
    Json::Object(kept)
}

pub fn audit_body(model: &str, decision: &Decision) -> (body: Json)
    ensures
        body.deep_view() == audit_body_of(model@, decision.deep_view()),
{
    let questions: &Vec<Question> = &decision.questions;
    let mut asked: Vec<Json> = Vec::new();
    for i in 0..questions.len()
        invariant
            asked@.len() == i,
            forall|k: int|
                0 <= k < i ==> (#[trigger] asked@[k]).deep_view() == audited_question_of(
                    questions@[k].deep_view(),
                ),
    {
        asked.push(audited_question(&questions[i]));
    }
    assert(asked.deep_view() =~= questions.deep_view().map_values(
        |question: QuestionView| audited_question_of(question),
    ));
    let mut body: Vec<(String, Json)> = Vec::new();
    body.push(("model".to_owned(), Json::Text(model.to_owned())));
    body.push(("questions".to_owned(), Json::Array(asked)));
    body.push(("state".to_owned(), decision.state.copy()));
    assert(entry_views(body@) =~= audit_body_of(model@, decision.deep_view())->Object_0);
    Json::Object(body)
}

/// The order the caller asked in survives both renderings: the questions reach the provider keyed by id in that
/// order, and the log lists them in it.
pub proof fn law_the_order_asked_survives(model: Seq<char>, decision: DecisionView)
    ensures
        decide_body_of(model, decision).at("questions"@) matches JsonView::Object(sent) && {
            &&& sent.len() == decision.questions.len()
            &&& forall|i: int|
                0 <= i < sent.len() ==> (#[trigger] sent[i]).0 == decision.questions[i].id
        },
        audit_body_of(model, decision).at("questions"@) matches JsonView::Array(logged) && {
            &&& logged.len() == decision.questions.len()
            &&& forall|i: int|
                0 <= i < logged.len() ==> (#[trigger] logged[i]).at("id"@) == JsonView::Text(
                    decision.questions[i].id,
                )
        },
{
    lemma_names_differ();
    let sent = decide_body_of(model, decision)->Object_0;
    assert(sent[2].0 == "questions"@);
    assert(sent.drop_first().drop_first()[0] == sent[2]);
    reveal_with_fuel(lookup, 4);
    let logged = audit_body_of(model, decision)->Object_0;
    assert(logged.drop_first()[0] == logged[1]);
    assert forall|i: int| 0 <= i < decision.questions.len() implies audited_question_of(
        #[trigger] decision.questions[i],
    ).at("id"@) == JsonView::Text(decision.questions[i].id) by {
        let entries = audited_question_of(decision.questions[i])->Object_0;
        if audited_criteria(decision.questions[i].kind) is Some {
            assert(entries[0].0 == "criteria"@);
            assert(entries.drop_first()[0] == entries[1]);
            assert(entries[1].0 == "id"@);
        } else {
            assert(entries[0].0 == "id"@);
        }
    }
}

/// The options of a choice reach the provider in the order the caller offered them.
pub proof fn law_the_order_offered_survives(question: QuestionView)
    requires
        question.kind is Choice,
    ensures
        asked_question(question).at("criteria"@) matches JsonView::Object(sent) && {
            &&& sent.len() == question.kind->options.len()
            &&& forall|i: int|
                0 <= i < sent.len() ==> #[trigger] sent[i] == (
                    question.kind->options[i].name,
                    description_of(question.kind->options[i]),
                )
        },
{
    lemma_names_differ();
    let sent = asked_question(question)->Object_0;
    assert(sent[2].0 == "criteria"@);
    assert(sent.drop_first().drop_first()[0] == sent[2]);
    reveal_with_fuel(lookup, 4);
}

proof fn lemma_names_differ()
    ensures
        "state"@ != "questions"@,
        "model"@ != "questions"@,
        "criteria"@ != "id"@,
        "type"@ != "criteria"@,
        "instructions"@ != "criteria"@,
{
    reveal_strlit("state");
    reveal_strlit("model");
    reveal_strlit("questions");
    reveal_strlit("criteria");
    reveal_strlit("id");
    reveal_strlit("type");
    reveal_strlit("instructions");
    assert("state"@.len() != "questions"@.len());
    assert("model"@.len() != "questions"@.len());
    assert("criteria"@.len() != "id"@.len());
    assert("type"@.len() != "criteria"@.len());
    assert("instructions"@.len() != "criteria"@.len());
}

/// A yes-or-no question's criteria hold each statement under its own word, and no more.
pub open spec fn states_both(when_true: Option<Seq<char>>, when_false: Option<Seq<char>>, question: JsonView) -> bool {
    &&& question.get("criteria"@) is None <==> when_true is None && when_false is None
    &&& when_true matches Some(text) ==> question.at("criteria"@).at("true"@) == JsonView::Text(text)
    &&& when_true is None ==> question.at("criteria"@).get("true"@) is None
    &&& when_false matches Some(text) ==> question.at("criteria"@).at("false"@) == JsonView::Text(text)
    &&& when_false is None ==> question.at("criteria"@).get("false"@) is None
}

/// A score question's criteria are its levels, in the order of the scale.
pub open spec fn states_levels(levels: Seq<Seq<char>>, question: JsonView) -> bool {
    question.at("criteria"@) matches JsonView::Array(items) && items.len() == levels.len() && forall|k: int|
        0 <= k < items.len() ==> #[trigger] items[k] == JsonView::Text(levels[k])
}

/// A description as JSON: its text, and null where there is none.
pub open spec fn is_described(option: ChoiceOptionView, value: JsonView) -> bool {
    &&& option.description matches Some(text) ==> value == JsonView::Text(text)
    &&& option.description is None ==> value == JsonView::Null
}

/// A question as the provider gets it: its own instructions, the name of its kind, and what its kind spells out.
pub open spec fn is_put(question: QuestionView, sent: JsonView) -> bool {
    &&& sent.at("instructions"@) == question.instructions
    &&& question.kind matches QuestionKindView::Noul { when_true, when_false } ==> sent.at("type"@)
        == JsonView::Text("noul"@) && states_both(when_true, when_false, sent)
    &&& question.kind matches QuestionKindView::Score { levels } ==> sent.at("type"@) == JsonView::Text(
        "score"@,
    ) && states_levels(levels, sent)
    &&& question.kind matches QuestionKindView::Choice { options } ==> sent.at("type"@)
        == JsonView::Text("choice"@) && (sent.at("criteria"@) matches JsonView::Object(entries)
        && entries.len() == options.len() && forall|k: int|
        0 <= k < entries.len() ==> (#[trigger] entries[k]).0 == options[k].name && is_described(
            options[k],
            entries[k].1,
        ))
}

/// A question as the audit keeps it: its own name and instructions, the name of its kind, and what its kind spells
/// out, the options as a list so that their order is kept.
pub open spec fn is_audited(question: QuestionView, logged: JsonView) -> bool {
    &&& logged.at("id"@) == JsonView::Text(question.id)
    &&& logged.at("instructions"@) == question.instructions
    &&& question.kind matches QuestionKindView::Noul { when_true, when_false } ==> logged.at("type"@)
        == JsonView::Text("noul"@) && states_both(when_true, when_false, logged)
    &&& question.kind matches QuestionKindView::Score { levels } ==> logged.at("type"@)
        == JsonView::Text("score"@) && states_levels(levels, logged)
    &&& question.kind matches QuestionKindView::Choice { options } ==> logged.at("type"@)
        == JsonView::Text("choice"@) && (logged.at("criteria"@) matches JsonView::Array(items)
        && items.len() == options.len() && forall|k: int|
        0 <= k < items.len() ==> (#[trigger] items[k]).at("name"@) == JsonView::Text(options[k].name)
            && is_described(options[k], items[k].at("description"@)))
}

proof fn lemma_field_lengths()
    ensures
        "state"@.len() == 5,
        "model"@.len() == 5,
        "state"@ != "model"@,
        "questions"@.len() == 9,
        "criteria"@.len() == 8,
        "id"@.len() == 2,
        "type"@.len() == 4,
        "instructions"@.len() == 12,
        "true"@.len() == 4,
        "false"@.len() == 5,
        "name"@.len() == 4,
        "description"@.len() == 11,
{
    reveal_strlit("state");
    reveal_strlit("model");
    reveal_strlit("questions");
    reveal_strlit("criteria");
    reveal_strlit("id");
    reveal_strlit("type");
    reveal_strlit("instructions");
    reveal_strlit("true");
    reveal_strlit("false");
    reveal_strlit("name");
    reveal_strlit("description");
    assert("state"@[0] != "model"@[0]);
}

proof fn lemma_states_both(when_true: Option<Seq<char>>, when_false: Option<Seq<char>>, question: JsonView)
    requires
        question.get("criteria"@) == asked_criteria(QuestionKindView::Noul { when_true, when_false }),
    ensures
        states_both(when_true, when_false, question),
{
    lemma_field_lengths();
    let criteria = noul_criteria_of(when_true, when_false);
    if when_false is Some {
        assert(criteria[0].0 == "false"@);
        lemma_holds(criteria, 0);
    }
    if when_true is Some {
        let last = criteria.len() - 1;
        assert(criteria[last].0 == "true"@);
        assert forall|k: int| 0 <= k < last implies (#[trigger] criteria[k]).0 != "true"@ by {
            assert(criteria[k].0 == "false"@);
        }
        lemma_holds(criteria, last);
    }
    law_a_key_finds_its_first_entry(criteria, "true"@);
    law_a_key_finds_its_first_entry(criteria, "false"@);
}

proof fn lemma_asked_fields(question: QuestionView)
    ensures
        asked_question(question).at("type"@) == JsonView::Text(kind_name_of(question.kind)),
        asked_question(question).at("instructions"@) == question.instructions,
        asked_question(question).get("criteria"@) == asked_criteria(question.kind),
{
    lemma_field_lengths();
    let entries = asked_question(question)->Object_0;
    assert(entries[0].0 == "type"@);
    assert(entries[1].0 == "instructions"@);
    lemma_holds(entries, 0);
    lemma_holds(entries, 1);
    if asked_criteria(question.kind) is Some {
        assert(entries[2].0 == "criteria"@);
        lemma_holds(entries, 2);
    } else {
        law_a_key_finds_its_first_entry(entries, "criteria"@);
    }
}

proof fn lemma_asked(question: QuestionView)
    ensures
        is_put(question, asked_question(question)),
{
    lemma_asked_fields(question);
    let sent = asked_question(question);
    match question.kind {
        QuestionKindView::Noul { when_true, when_false } => {
            lemma_states_both(when_true, when_false, sent);
        },
        QuestionKindView::Choice { options } => {
            let entries = sent.at("criteria"@)->Object_0;
            assert forall|k: int| 0 <= k < entries.len() implies (#[trigger] entries[k]).0
                == options[k].name && is_described(options[k], entries[k].1) by {}
        },
        QuestionKindView::Score { levels } => {},
    }
}

proof fn lemma_audited_fields(question: QuestionView)
    ensures
        audited_question_of(question).at("id"@) == JsonView::Text(question.id),
        audited_question_of(question).at("type"@) == JsonView::Text(kind_name_of(question.kind)),
        audited_question_of(question).at("instructions"@) == question.instructions,
        audited_question_of(question).get("criteria"@) == audited_criteria(question.kind),
{
    lemma_field_lengths();
    let entries = audited_question_of(question)->Object_0;
    let first = if audited_criteria(question.kind) is Some {
        1int
    } else {
        0
    };
    assert(entries[first].0 == "id"@);
    assert(entries[first + 1].0 == "instructions"@);
    assert(entries[first + 2].0 == "type"@);
    if first == 1 {
        assert(entries[0].0 == "criteria"@);
        lemma_holds(entries, 0);
    }
    lemma_holds(entries, first);
    lemma_holds(entries, first + 1);
    lemma_holds(entries, first + 2);
    law_a_key_finds_its_first_entry(entries, "criteria"@);
}

proof fn lemma_audited_option(option: ChoiceOptionView)
    ensures
        audited_option(option).at("name"@) == JsonView::Text(option.name),
        is_described(option, audited_option(option).at("description"@)),
{
    lemma_field_lengths();
    let entries = audited_option(option)->Object_0;
    assert(entries[0].0 == "description"@);
    assert(entries[1].0 == "name"@);
    lemma_holds(entries, 0);
    lemma_holds(entries, 1);
}

proof fn lemma_audited(question: QuestionView)
    ensures
        is_audited(question, audited_question_of(question)),
{
    lemma_audited_fields(question);
    let logged = audited_question_of(question);
    match question.kind {
        QuestionKindView::Noul { when_true, when_false } => {
            lemma_states_both(when_true, when_false, logged);
        },
        QuestionKindView::Choice { options } => {
            let items = logged.at("criteria"@)->Array_0;
            assert forall|k: int| 0 <= k < items.len() implies (#[trigger] items[k]).at("name"@)
                == JsonView::Text(options[k].name) && is_described(options[k], items[k].at("description"@)) by {
                lemma_audited_option(options[k]);
            }
        },
        QuestionKindView::Score { levels } => {},
    }
}

/// The provider gets the caller's own state and the model that is asked, and every question under its own name and as
/// it was put.
pub proof fn law_every_question_is_sent_as_it_was_put(model: Seq<char>, decision: DecisionView, i: int)
    ensures
        decide_body_of(model, decision).at("state"@) == decision.state,
        decide_body_of(model, decision).at("model"@) == JsonView::Text(model),
        decide_body_of(model, decision).at("questions"@) matches JsonView::Object(sent) && sent.len()
            == decision.questions.len() && (0 <= i < sent.len() ==> sent[i].0 == decision.questions[i].id
            && is_put(decision.questions[i], sent[i].1)),
{
    lemma_field_lengths();
    let entries = decide_body_of(model, decision)->Object_0;
    assert(entries[0].0 == "state"@ && entries[1].0 == "model"@ && entries[2].0 == "questions"@);
    lemma_holds(entries, 0);
    lemma_holds(entries, 1);
    lemma_holds(entries, 2);
    if 0 <= i < decision.questions.len() {
        lemma_asked(decision.questions[i]);
    }
}

/// The audit keeps the same state, the same model and the same questions, each as it was put.
pub proof fn law_every_question_is_audited_as_it_was_put(model: Seq<char>, decision: DecisionView, i: int)
    ensures
        audit_body_of(model, decision).at("state"@) == decision.state,
        audit_body_of(model, decision).at("model"@) == JsonView::Text(model),
        audit_body_of(model, decision).at("questions"@) matches JsonView::Array(logged) && logged.len()
            == decision.questions.len() && (0 <= i < logged.len() ==> is_audited(
            decision.questions[i],
            logged[i],
        )),
{
    lemma_field_lengths();
    let entries = audit_body_of(model, decision)->Object_0;
    assert(entries[0].0 == "model"@ && entries[1].0 == "questions"@ && entries[2].0 == "state"@);
    lemma_holds(entries, 0);
    lemma_holds(entries, 1);
    lemma_holds(entries, 2);
    if 0 <= i < decision.questions.len() {
        lemma_audited(decision.questions[i]);
    }
}

} // verus!
