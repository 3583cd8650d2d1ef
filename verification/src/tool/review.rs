//! The review a submitted tool goes through before it may be activated: one question for each fact that has to hold,
//! and the verdict drawn from the answers. No answer, an answer under another name, or an answer of another kind never
//! approves anything.

use vstd::prelude::*;

use crate::collect::{first_where, keep, outcome};
use crate::json::{compact_text, json_text, Json, JsonView};
use crate::llm_router::budget::{
    AskedQuestion, AskedQuestionView, DecideRequest, DecideRequestView, Supplied, SuppliedView,
};
use crate::llm_router::decision::{QuestionKind, QuestionKindView};
use crate::number::{
    at_least, is_at_least, law_doubles_are_ordered_as_their_bits, scale, significand, INFINITY,
};
use crate::text::{
    cat2, cat3, cat4, dec_signed, decimal_signed, join, joined_with, law_every_part_stands_in_the_joined_text, same,
    stands_at,
};
use crate::tool::entity::{risk_name, Risk, Status, Tool, ToolView};
use crate::tool::error::{ToolError, ToolErrorView};

verus! {

/// How long one review may take, in milliseconds. It is longer than the adapter's own time to answer, so that the
/// adapter's failure is reported and recorded rather than cut off.
pub const VALIDATE_TIMEOUT: u64 = 10_000;

/// The double 0.7, by its bits. A wrong yes ships a tool nobody reviewed, a wrong no costs one resubmission: this leans
/// toward the cheaper mistake without asking for near certainty.
pub const APPROVAL_THRESHOLD: u64 = 0x3fe6_6666_6666_6666;

/// A fact about a submitted tool that has to hold.
#[derive(Clone, Copy, Debug, PartialEq, Eq, Structural)]
pub enum Criterion {
    InputSchema,
    OutputSchema,
    DescriptionPurpose,
    /// Asked only of a tool that changes something: of any other there is no true answer.
    DescriptionChanges,
    Timeout,
}

impl DeepView for Criterion {
    type V = Criterion;

    open spec fn deep_view(&self) -> Criterion {
        *self
    }
}

/// The name an answer comes back under.
pub open spec fn id_of(criterion: Criterion) -> Seq<char> {
    match criterion {
        Criterion::InputSchema => "input_schema"@,
        Criterion::OutputSchema => "output_schema"@,
        Criterion::DescriptionPurpose => "description_purpose"@,
        Criterion::DescriptionChanges => "description_changes"@,
        Criterion::Timeout => "timeout"@,
    }
}

/// The question that is asked.
pub open spec fn instructions_of(criterion: Criterion) -> Seq<char> {
    match criterion {
        Criterion::InputSchema =>
            "Is input_schema a plausible JSON Schema object for what this tool takes as input?"@,
        Criterion::OutputSchema => "Is output_schema a plausible JSON Schema object for what this tool returns?"@,
        Criterion::DescriptionPurpose => "Does the description clearly state what the tool does?"@,
        Criterion::DescriptionChanges => "Does the description state what this tool changes when it runs?"@,
        Criterion::Timeout => "Is timeout_seconds plausible for the work this tool does?"@,
    }
}

/// What a yes means.
pub open spec fn true_of(criterion: Criterion) -> Seq<char> {
    match criterion {
        Criterion::InputSchema => "input_schema is a plausible JSON Schema object describing the tool's input"@,
        Criterion::OutputSchema => "output_schema is a plausible JSON Schema object describing the tool's output"@,
        Criterion::DescriptionPurpose => "the description clearly states what the tool does"@,
        Criterion::DescriptionChanges => "the description states what this tool changes when it runs"@,
        Criterion::Timeout => "timeout_seconds is a plausible amount of time for this tool's work"@,
    }
}

/// What a no means, worded as the reason that the submitter reads.
pub open spec fn false_of(criterion: Criterion) -> Seq<char> {
    match criterion {
        Criterion::InputSchema =>
            "input_schema is missing, not an object, or not a plausible JSON Schema for this tool's input"@,
        Criterion::OutputSchema =>
            "output_schema is missing, not an object, or not a plausible JSON Schema for this tool's output"@,
        Criterion::DescriptionPurpose => "the description is missing, vague, or does not say what the tool does"@,
        Criterion::DescriptionChanges => "the description does not say what this tool changes when it runs"@,
        Criterion::Timeout =>
            "timeout_seconds is implausible for this tool's work — too short to complete it, or far longer than it should need"@,
    }
}

impl Criterion {
    pub fn id(self) -> (text: &'static str)
        ensures
            text@ == id_of(self),
    {
        match self {
            Criterion::InputSchema => "input_schema",
            Criterion::OutputSchema => "output_schema",
            Criterion::DescriptionPurpose => "description_purpose",
            Criterion::DescriptionChanges => "description_changes",
            Criterion::Timeout => "timeout",
        }
    }

    pub fn instructions(self) -> (text: &'static str)
        ensures
            text@ == instructions_of(self),
    {
        match self {
            Criterion::InputSchema =>
                "Is input_schema a plausible JSON Schema object for what this tool takes as input?",
            Criterion::OutputSchema =>
                "Is output_schema a plausible JSON Schema object for what this tool returns?",
            Criterion::DescriptionPurpose => "Does the description clearly state what the tool does?",
            Criterion::DescriptionChanges => "Does the description state what this tool changes when it runs?",
            Criterion::Timeout => "Is timeout_seconds plausible for the work this tool does?",
        }
    }

    pub fn when_true(self) -> (text: &'static str)
        ensures
            text@ == true_of(self),
    {
        match self {
            Criterion::InputSchema => "input_schema is a plausible JSON Schema object describing the tool's input",
            Criterion::OutputSchema =>
                "output_schema is a plausible JSON Schema object describing the tool's output",
            Criterion::DescriptionPurpose => "the description clearly states what the tool does",
            Criterion::DescriptionChanges => "the description states what this tool changes when it runs",
            Criterion::Timeout => "timeout_seconds is a plausible amount of time for this tool's work",
        }
    }

    pub fn when_false(self) -> (text: &'static str)
        ensures
            text@ == false_of(self),
    {
        match self {
            Criterion::InputSchema =>
                "input_schema is missing, not an object, or not a plausible JSON Schema for this tool's input",
            Criterion::OutputSchema =>
                "output_schema is missing, not an object, or not a plausible JSON Schema for this tool's output",
            Criterion::DescriptionPurpose => "the description is missing, vague, or does not say what the tool does",
            Criterion::DescriptionChanges => "the description does not say what this tool changes when it runs",
            Criterion::Timeout =>
                "timeout_seconds is implausible for this tool's work — too short to complete it, or far longer than it should need",
        }
    }
}

/// What a tool of a risk is reviewed for.
pub open spec fn criteria_of(risk: Risk) -> Seq<Criterion> {
    let always = seq![
        Criterion::InputSchema,
        Criterion::OutputSchema,
        Criterion::DescriptionPurpose,
        Criterion::Timeout,
    ];
    if risk == Risk::ReadOnly {
        always
    } else {
        always.push(Criterion::DescriptionChanges)
    }
}

pub fn criteria_for(risk: Risk) -> (criteria: Vec<Criterion>)
    ensures
        criteria@ == criteria_of(risk),
{
    let mut criteria: Vec<Criterion> = vec![
        Criterion::InputSchema,
        Criterion::OutputSchema,
        Criterion::DescriptionPurpose,
        Criterion::Timeout,
    ];
    match risk {
        Risk::ReadOnly => {},
        Risk::Write | Risk::Destructive => {
            criteria.push(Criterion::DescriptionChanges);
        },
    }
    criteria
}

/// What the decider is told about the tool.
pub open spec fn definition_of(tool: ToolView) -> Seq<char> {
    "name: "@ + tool.name + "\ndescription: "@ + tool.description + ("\ninput_schema: "@ + json_text(
        tool.input_schema,
    ) + "\noutput_schema: "@ + json_text(tool.output_schema)) + ("\nrisk: "@ + risk_name(tool.risk)
        + "\ntimeout_seconds: "@ + dec_signed(tool.timeout_seconds as int))
}

pub fn definition_text(tool: &Tool) -> (text: String)
    ensures
        text@ == definition_of(tool.deep_view()),
{
    let named: String = cat4("name: ", tool.name.as_str(), "\ndescription: ", tool.description.as_str());
    let schemas: String = cat4(
        "\ninput_schema: ",
        compact_text(&tool.input_schema).as_str(),
        "\noutput_schema: ",
        compact_text(&tool.output_schema).as_str(),
    );
    let rest: String = cat4(
        "\nrisk: ",
        tool.risk.name(),
        "\ntimeout_seconds: ",
        decimal_signed(tool.timeout_seconds as i64).as_str(),
    );
    cat3(named.as_str(), schemas.as_str(), rest.as_str())
}

/// The question that asks about a criterion.
pub open spec fn question_of(criterion: Criterion) -> AskedQuestionView {
    AskedQuestionView {
        id: id_of(criterion),
        instructions: SuppliedView::Read(JsonView::Text(instructions_of(criterion))),
        kind: Some(
            QuestionKindView::Noul {
                when_true: Some(true_of(criterion)),
                when_false: Some(false_of(criterion)),
            },
        ),
    }
}

pub fn criterion_question(criterion: Criterion) -> (question: AskedQuestion)
    ensures
        question.deep_view() == question_of(criterion),
{
    AskedQuestion {
        id: criterion.id().to_owned(),
        instructions: Supplied::Read(Json::Text(criterion.instructions().to_owned())),
        kind: Some(
            QuestionKind::Noul {
                when_true: Some(criterion.when_true().to_owned()),
                when_false: Some(criterion.when_false().to_owned()),
            },
        ),
    }
}

pub open spec fn request_of(tool: ToolView) -> DecideRequestView {
    DecideRequestView {
        state: SuppliedView::Read(JsonView::Text(definition_of(tool))),
        questions: criteria_of(tool.risk).map_values(|criterion: Criterion| question_of(criterion)),
    }
}

/// What is asked about a tool: its definition, and one question for each criterion.
pub open spec fn asked_of(tool: ToolView) -> Result<DecideRequestView, ToolErrorView> {
    if tool.status != Status::Draft {
        Err(ToolErrorView::InvalidRequest("tool "@ + dec_signed(tool.id as int) + " is not Draft"@))
    } else {
        Ok(request_of(tool))
    }
}

pub open spec fn is_reviewed(status: Status) -> bool {
    status != Status::Draft
}

pub fn already_reviewed(status: Status) -> (answer: bool)
    ensures
        answer == is_reviewed(status),
{
    match status {
        Status::Draft => false,
        Status::Validated | Status::Active => true,
    }
}

/// What to ask about a tool. One that was reviewed already is not reviewed again.
pub fn begin_review(tool: &Tool) -> (request: Result<DecideRequest, ToolError>)
    ensures
        outcome(request) == asked_of(tool.deep_view()),
{
    if already_reviewed(tool.status) {
        return Err(
            ToolError::InvalidRequest(
                cat3("tool ", decimal_signed(tool.id).as_str(), " is not Draft"),
            ),
        );
    }
    let criteria: Vec<Criterion> = criteria_for(tool.risk);
    let ghost asked = criteria@.map_values(|criterion: Criterion| question_of(criterion));
    let mut questions: Vec<AskedQuestion> = Vec::new();
    assert(questions.deep_view() =~= asked.take(0));
    for i in 0..criteria.len()
        invariant
            asked == criteria@.map_values(|criterion: Criterion| question_of(criterion)),
            questions.deep_view() == asked.take(i as int),
    {
        keep(&mut questions, criterion_question(criteria[i]));
        assert(questions.deep_view() =~= asked.take(i as int + 1));
    }
    assert(asked.take(criteria@.len() as int) =~= asked);
    Ok(DecideRequest { state: Supplied::Read(Json::Text(definition_text(tool))), questions })
}

/// What came back for one question: a yes or no with its probability, as the bits of a double, or anything else.
#[derive(Clone, Copy, Debug, PartialEq, Eq, Structural)]
pub enum Answered {
    Noul(u64),
    Other,
}

#[derive(Debug, PartialEq, Eq)]
pub struct ReviewAnswer {
    pub id: String,
    pub answer: Answered,
}

pub struct ReviewAnswerView {
    pub id: Seq<char>,
    pub answer: Answered,
}

impl DeepView for ReviewAnswer {
    type V = ReviewAnswerView;

    open spec fn deep_view(&self) -> ReviewAnswerView {
        ReviewAnswerView { id: self.id@, answer: self.answer }
    }
}

/// The first answer under a criterion's name is a yes, with enough probability.
pub open spec fn is_met(criterion: Criterion, answers: Seq<ReviewAnswerView>) -> bool {
    match first_where(answers, |answer: ReviewAnswerView| answer.id == id_of(criterion)) {
        Some(answer) => match answer.answer {
            Answered::Noul(bits) => at_least(bits, APPROVAL_THRESHOLD),
            Answered::Other => false,
        },
        None => false,
    }
}

pub fn criterion_met(criterion: Criterion, answers: &Vec<ReviewAnswer>) -> (met: bool)
    ensures
        met == is_met(criterion, answers.deep_view()),
{
    let ghost views = answers.deep_view();
    let ghost wanted = |answer: ReviewAnswerView| answer.id == id_of(criterion);
    assert(views.skip(0) =~= views);
    for i in 0..answers.len()
        invariant
            views == answers.deep_view(),
            wanted == (|answer: ReviewAnswerView| answer.id == id_of(criterion)),
            first_where(views.skip(i as int), wanted) == first_where(views, wanted),
    {
        assert(views.skip(i as int).drop_first() =~= views.skip(i as int + 1));
        assert(views[i as int] == answers@[i as int].deep_view());
        if same(answers[i].id.as_str(), criterion.id()) {
            assert(wanted(views.skip(i as int)[0]));
            return match answers[i].answer {
                Answered::Noul(bits) => is_at_least(bits, APPROVAL_THRESHOLD),
                Answered::Other => false,
            };
        }
    }
    false
}

/// The criteria that are not met, in the order they were asked.
pub open spec fn unmet(criteria: Seq<Criterion>, answers: Seq<ReviewAnswerView>) -> Seq<Criterion>
    decreases criteria.len(),
{
    if criteria.len() == 0 {
        seq![]
    } else if is_met(criteria.last(), answers) {
        unmet(criteria.drop_last(), answers)
    } else {
        unmet(criteria.drop_last(), answers).push(criteria.last())
    }
}

/// The reason a criterion gives for a refusal.
pub open spec fn reason_of(criterion: Criterion) -> Seq<char> {
    "- "@ + id_of(criterion) + ": "@ + false_of(criterion)
}

/// A refusal as the submitter reads it: every criterion that is not met, and why.
pub open spec fn refusal_of(failed: Seq<Criterion>) -> Seq<char> {
    "This tool definition does not meet the requirements:\n"@ + joined_with(
        failed.map_values(|criterion: Criterion| reason_of(criterion)),
        "\n"@,
    )
}

pub fn compose_refusal(failed: &Vec<Criterion>) -> (text: String)
    ensures
        text@ == refusal_of(failed@),
{
    let ghost told = failed@.map_values(|criterion: Criterion| reason_of(criterion));
    let mut reasons: Vec<String> = Vec::new();
    assert(reasons.deep_view() =~= told.take(0));
    for i in 0..failed.len()
        invariant
            told == failed@.map_values(|criterion: Criterion| reason_of(criterion)),
            reasons.deep_view() == told.take(i as int),
    {
        keep(&mut reasons, cat4("- ", failed[i].id(), ": ", failed[i].when_false()));
        assert(reasons.deep_view() =~= told.take(i as int + 1));
    }
    assert(told.take(failed@.len() as int) =~= told);
    cat2("This tool definition does not meet the requirements:\n", join(&reasons, "\n").as_str())
}

/// The verdict on a tool, what the submitter is told, and where the tool stands now.
#[derive(Debug, PartialEq, Eq)]
pub struct Review {
    pub approved: bool,
    pub feedback: String,
    pub status: Status,
}

#[verifier::ext_equal]
pub struct ReviewView {
    pub approved: bool,
    pub feedback: Seq<char>,
    pub status: Status,
}

impl DeepView for Review {
    type V = ReviewView;

    open spec fn deep_view(&self) -> ReviewView {
        ReviewView { approved: self.approved, feedback: self.feedback@, status: self.status }
    }
}

/// A tool is approved where every criterion is met.
pub open spec fn review_of(risk: Risk, answers: Seq<ReviewAnswerView>) -> ReviewView {
    let failed = unmet(criteria_of(risk), answers);
    if failed.len() == 0 {
        ReviewView { approved: true, feedback: seq![], status: Status::Validated }
    } else {
        ReviewView { approved: false, feedback: refusal_of(failed), status: Status::Draft }
    }
}

/// The verdict that the answers come to.
pub fn conclude_review(risk: Risk, answers: &Vec<ReviewAnswer>) -> (review: Review)
    ensures
        review.deep_view() == review_of(risk, answers.deep_view()),
{
    let criteria: Vec<Criterion> = criteria_for(risk);
    let mut failed: Vec<Criterion> = Vec::new();
    assert(failed@ =~= unmet(criteria@.take(0), answers.deep_view()));
    for i in 0..criteria.len()
        invariant
            failed@ == unmet(criteria@.take(i as int), answers.deep_view()),
    {
        assert(criteria@.take(i as int + 1).drop_last() =~= criteria@.take(i as int));
        if !criterion_met(criteria[i], answers) {
            failed.push(criteria[i]);
        }
    }
    assert(criteria@.take(criteria@.len() as int) =~= criteria@);
    if failed.len() == 0 {
        Review { approved: true, feedback: String::new(), status: Status::Validated }
    } else {
        Review { approved: false, feedback: compose_refusal(&failed), status: Status::Draft }
    }
}

/// What a failed call to the decider is reported as: the submitter's request where the decider refused it as invalid,
/// and otherwise a review that is unavailable. Neither is an approval.
pub open spec fn call_error_of(invalid_argument: bool, error: Seq<char>) -> ToolErrorView {
    if invalid_argument {
        ToolErrorView::InvalidRequest("the tool definition could not be reviewed: "@ + error)
    } else {
        ToolErrorView::ReviewUnavailable("tool review is temporarily unavailable: "@ + error)
    }
}

pub fn decide_call_error(invalid_argument: bool, error: &str) -> (reported: ToolError)
    ensures
        reported.deep_view() == call_error_of(invalid_argument, error@),
{
    if invalid_argument {
        ToolError::InvalidRequest(cat2("the tool definition could not be reviewed: ", error))
    } else {
        ToolError::ReviewUnavailable(cat2("tool review is temporarily unavailable: ", error))
    }
}

proof fn lemma_unmet(criteria: Seq<Criterion>, answers: Seq<ReviewAnswerView>)
    ensures
        forall|criterion: Criterion|
            unmet(criteria, answers).contains(criterion) <==> criteria.contains(criterion) && !is_met(
                criterion,
                answers,
            ),
    decreases criteria.len(),
{
    if criteria.len() > 0 {
        lemma_unmet(criteria.drop_last(), answers);
        let earlier = criteria.drop_last();
        assert forall|criterion: Criterion|
            unmet(criteria, answers).contains(criterion) <==> criteria.contains(criterion) && !is_met(
                criterion,
                answers,
            ) by {
            let before = unmet(earlier, answers);
            assert(criteria.contains(criterion) <==> earlier.contains(criterion) || criteria.last()
                == criterion) by {
                if criteria.contains(criterion) {
                    let k = choose|k: int| 0 <= k < criteria.len() && criteria[k] == criterion;
                    if k < earlier.len() {
                        assert(earlier[k] == criterion);
                    }
                }
                if earlier.contains(criterion) {
                    let k = choose|k: int| 0 <= k < earlier.len() && earlier[k] == criterion;
                    assert(criteria[k] == criterion);
                }
            }
            if !is_met(criteria.last(), answers) {
                let after = before.push(criteria.last());
                assert(after.contains(criterion) <==> before.contains(criterion) || criteria.last()
                    == criterion) by {
                    if before.contains(criterion) {
                        let k = choose|k: int| 0 <= k < before.len() && before[k] == criterion;
                        assert(after[k] == criterion);
                    }
                    assert(after[before.len() as int] == criteria.last());
                    if after.contains(criterion) {
                        let k = choose|k: int| 0 <= k < after.len() && after[k] == criterion;
                        if k < before.len() {
                            assert(before[k] == criterion);
                        }
                    }
                }
            }
        }
    }
}

/// A tool is approved exactly where every criterion of its risk is met, and a tool that is not approved stays a draft.
/// A criterion that got no answer under its own name, or no yes or no, is not met.
pub proof fn law_the_review_fails_closed(risk: Risk, answers: Seq<ReviewAnswerView>)
    ensures
        review_of(risk, answers).approved <==> (forall|criterion: Criterion|
            #[trigger] criteria_of(risk).contains(criterion) ==> is_met(criterion, answers)),
        review_of(risk, answers).status == Status::Validated <==> review_of(risk, answers).approved,
        !review_of(risk, answers).approved ==> review_of(risk, answers).status == Status::Draft,
        forall|criterion: Criterion|
            (forall|i: int| 0 <= i < answers.len() ==> (#[trigger] answers[i]).id != id_of(criterion))
                ==> !#[trigger] is_met(criterion, answers),
        forall|criterion: Criterion|
            (forall|i: int|
                0 <= i < answers.len() && (#[trigger] answers[i]).id == id_of(criterion) ==> answers[i].answer
                    is Other) ==> !#[trigger] is_met(criterion, answers),
{
    let criteria = criteria_of(risk);
    let failed = unmet(criteria, answers);
    lemma_unmet(criteria, answers);
    if failed.len() > 0 {
        assert(failed.contains(failed[0]));
    }
    if !review_of(risk, answers).approved {
        assert(criteria.contains(failed[0]) && !is_met(failed[0], answers));
    }
    assert forall|criterion: Criterion|
        (forall|i: int|
            0 <= i < answers.len() && (#[trigger] answers[i]).id == id_of(criterion) ==> answers[i].answer
                is Other) implies !#[trigger] is_met(criterion, answers) by {
        lemma_first_where(answers, |answer: ReviewAnswerView| answer.id == id_of(criterion));
    }
}

proof fn lemma_first_where<T>(items: Seq<T>, wanted: spec_fn(T) -> bool)
    ensures
        first_where(items, wanted) matches Some(item) ==> wanted(item) && exists|i: int|
            0 <= i < items.len() && #[trigger] items[i] == item,
    decreases items.len(),
{
    if items.len() > 0 && !wanted(items[0]) {
        lemma_first_where(items.drop_first(), wanted);
        if let Some(item) = first_where(items.drop_first(), wanted) {
            let k = choose|k: int| 0 <= k < items.drop_first().len() && items.drop_first()[k] == item;
            assert(items[k + 1] == item);
        }
    } else if items.len() > 0 {
        assert(items[0] == items[0]);
    }
}

/// A refusal names exactly the criteria that are not met: each of them is among what it tells, and none that is met.
pub proof fn law_a_refusal_names_what_failed(risk: Risk, answers: Seq<ReviewAnswerView>, criterion: Criterion)
    ensures
        unmet(criteria_of(risk), answers).contains(criterion) <==> criteria_of(risk).contains(criterion)
            && !is_met(criterion, answers),
        !review_of(risk, answers).approved ==> review_of(risk, answers).feedback == refusal_of(
            unmet(criteria_of(risk), answers),
        ),
        review_of(risk, answers).approved ==> review_of(risk, answers).feedback.len() == 0,
{
    lemma_unmet(criteria_of(risk), answers);
}

/// The adapter gives up before the review does, so that its own failure is what is reported and recorded.
pub proof fn law_the_review_outlasts_the_adapter()
    ensures
        VALIDATE_TIMEOUT > crate::llm_router::adapters::system_one::REQUEST_TIMEOUT,
{
}

/// What a tool changes is asked exactly of the tools that change something.
pub proof fn law_only_a_tool_that_changes_something_is_asked_what(risk: Risk)
    ensures
        criteria_of(risk).contains(Criterion::DescriptionChanges) <==> risk != Risk::ReadOnly,
{
    if risk != Risk::ReadOnly {
        assert(criteria_of(risk)[4] == Criterion::DescriptionChanges);
    }
}

/// What is asked for each criterion, and what the yes and the no of it say.
pub proof fn law_what_each_criterion_asks()
    ensures
        id_of(Criterion::InputSchema) == "input_schema"@,
        true_of(Criterion::InputSchema)
            == "input_schema is a plausible JSON Schema object describing the tool's input"@,
        false_of(Criterion::InputSchema)
            == "input_schema is missing, not an object, or not a plausible JSON Schema for this tool's input"@,
        instructions_of(Criterion::InputSchema)
            == "Is input_schema a plausible JSON Schema object for what this tool takes as input?"@,
        id_of(Criterion::OutputSchema) == "output_schema"@,
        true_of(Criterion::OutputSchema)
            == "output_schema is a plausible JSON Schema object describing the tool's output"@,
        false_of(Criterion::OutputSchema)
            == "output_schema is missing, not an object, or not a plausible JSON Schema for this tool's output"@,
        instructions_of(Criterion::OutputSchema)
            == "Is output_schema a plausible JSON Schema object for what this tool returns?"@,
        id_of(Criterion::DescriptionPurpose) == "description_purpose"@,
        true_of(Criterion::DescriptionPurpose) == "the description clearly states what the tool does"@,
        false_of(Criterion::DescriptionPurpose)
            == "the description is missing, vague, or does not say what the tool does"@,
        instructions_of(Criterion::DescriptionPurpose)
            == "Does the description clearly state what the tool does?"@,
        id_of(Criterion::DescriptionChanges) == "description_changes"@,
        true_of(Criterion::DescriptionChanges)
            == "the description states what this tool changes when it runs"@,
        false_of(Criterion::DescriptionChanges)
            == "the description does not say what this tool changes when it runs"@,
        instructions_of(Criterion::DescriptionChanges)
            == "Does the description state what this tool changes when it runs?"@,
        id_of(Criterion::Timeout) == "timeout"@,
        true_of(Criterion::Timeout)
            == "timeout_seconds is a plausible amount of time for this tool's work"@,
        false_of(Criterion::Timeout)
            == "timeout_seconds is implausible for this tool's work — too short to complete it, or far longer than it should need"@,
        instructions_of(Criterion::Timeout)
            == "Is timeout_seconds plausible for the work this tool does?"@,
{
}

/// No two criteria are asked under one name, so that no answer stands for two of them.
pub proof fn law_no_two_criteria_share_a_name(one: Criterion, other: Criterion)
    ensures
        id_of(one) == id_of(other) <==> one == other,
{
    reveal_strlit("input_schema");
    reveal_strlit("output_schema");
    reveal_strlit("description_purpose");
    reveal_strlit("description_changes");
    reveal_strlit("timeout");
    assert("description_purpose"@[12] != "description_changes"@[12]);
    assert("input_schema"@.len() == 12 && "output_schema"@.len() == 13 && "timeout"@.len() == 7);
}

/// Every tool is asked about both schemas, its purpose and its time, and one that changes something about that too;
/// each once, and nothing else.
pub proof fn law_what_a_tool_is_asked_about(risk: Risk)
    ensures
        criteria_of(risk).no_duplicates(),
        criteria_of(risk).contains(Criterion::InputSchema),
        criteria_of(risk).contains(Criterion::OutputSchema),
        criteria_of(risk).contains(Criterion::DescriptionPurpose),
        criteria_of(risk).contains(Criterion::Timeout),
        criteria_of(risk).contains(Criterion::DescriptionChanges) <==> risk != Risk::ReadOnly,
        criteria_of(risk).len() == if risk == Risk::ReadOnly {
            4nat
        } else {
            5
        },
{
    law_only_a_tool_that_changes_something_is_asked_what(risk);
    assert(criteria_of(risk)[0] == Criterion::InputSchema);
    assert(criteria_of(risk)[1] == Criterion::OutputSchema);
    assert(criteria_of(risk)[2] == Criterion::DescriptionPurpose);
    assert(criteria_of(risk)[3] == Criterion::Timeout);
}

/// A draft is asked one question for each criterion, under the criterion's own name. It is a yes or no: the yes says
/// what the criterion says when it holds, and the no says the very sentence that a refusal tells the submitter.
pub proof fn law_a_no_says_what_the_refusal_tells(tool: ToolView, i: int)
    requires
        tool.status == Status::Draft,
        0 <= i < criteria_of(tool.risk).len(),
    ensures
        asked_of(tool) matches Ok(request) && {
            let criterion = criteria_of(tool.risk)[i];
            &&& request.questions.len() == criteria_of(tool.risk).len()
            &&& request.questions[i].id == id_of(criterion)
            &&& request.questions[i].instructions matches SuppliedView::Read(JsonView::Text(asked))
                && asked == instructions_of(criterion)
            &&& request.questions[i].kind matches Some(
                QuestionKindView::Noul { when_true: Some(yes), when_false: Some(no) },
            ) && yes == true_of(criterion) && no == false_of(criterion) && refusal_of(seq![criterion])
                == "This tool definition does not meet the requirements:\n"@ + ("- "@
                + request.questions[i].id + ": "@ + no)
        },
{
    let criterion = criteria_of(tool.risk)[i];
    let told = seq![criterion].map_values(|criterion: Criterion| reason_of(criterion));
    assert(told =~= seq![reason_of(criterion)]);
}

/// A tool that is no draft is asked nothing.
pub proof fn law_only_a_draft_is_reviewed(tool: ToolView)
    ensures
        asked_of(tool) is Ok <==> tool.status == Status::Draft,
        asked_of(tool) matches Err(error) ==> error is InvalidRequest,
{
}

/// The decider reads each part of the tool's own definition behind its own label.
pub proof fn law_the_decider_reads_the_whole_definition(tool: ToolView)
    requires
        tool.status == Status::Draft,
    ensures
        asked_of(tool) matches Ok(request) && request.state matches SuppliedView::Read(
            JsonView::Text(told),
        ) && told == "name: "@ + tool.name + "\ndescription: "@ + tool.description + "\ninput_schema: "@
            + json_text(tool.input_schema) + "\noutput_schema: "@ + json_text(tool.output_schema)
            + "\nrisk: "@ + risk_name(tool.risk) + "\ntimeout_seconds: "@ + dec_signed(
            tool.timeout_seconds as int,
        ),
{
    assert(definition_of(tool) =~= "name: "@ + tool.name + "\ndescription: "@ + tool.description
        + "\ninput_schema: "@ + json_text(tool.input_schema) + "\noutput_schema: "@ + json_text(
        tool.output_schema,
    ) + "\nrisk: "@ + risk_name(tool.risk) + "\ntimeout_seconds: "@ + dec_signed(
        tool.timeout_seconds as int,
    ));
}

proof fn lemma_first_is_first<T>(items: Seq<T>, wanted: spec_fn(T) -> bool, i: int)
    requires
        0 <= i < items.len(),
        wanted(items[i]),
        forall|k: int| 0 <= k < i ==> !wanted(#[trigger] items[k]),
    ensures
        first_where(items, wanted) == Some(items[i]),
    decreases i,
{
    if i > 0 {
        assert(!wanted(items[0]));
        let rest = items.drop_first();
        assert forall|k: int| 0 <= k < i - 1 implies !wanted(#[trigger] rest[k]) by {
            assert(rest[k] == items[k + 1]);
        }
        lemma_first_is_first(rest, wanted, i - 1);
    }
}

/// The first answer under a criterion's name decides: the criterion is met where that answer is a yes or no whose
/// probability is a number no smaller than the threshold, and by nothing else.
pub proof fn law_the_first_answer_decides(criterion: Criterion, answers: Seq<ReviewAnswerView>, i: int)
    requires
        0 <= i < answers.len(),
        answers[i].id == id_of(criterion),
        forall|k: int| 0 <= k < i ==> (#[trigger] answers[k]).id != id_of(criterion),
    ensures
        is_met(criterion, answers) <==> (answers[i].answer matches Answered::Noul(bits)
            && APPROVAL_THRESHOLD <= bits <= INFINITY),
{
    let wanted = |answer: ReviewAnswerView| answer.id == id_of(criterion);
    lemma_first_is_first(answers, wanted, i);
    if let Answered::Noul(bits) = answers[i].answer {
        if bits < APPROVAL_THRESHOLD {
            law_doubles_are_ordered_as_their_bits(bits, APPROVAL_THRESHOLD);
        } else if APPROVAL_THRESHOLD < bits <= INFINITY {
            law_doubles_are_ordered_as_their_bits(APPROVAL_THRESHOLD, bits);
        }
    }
}

/// A refusal tells, for each criterion that is not met, the very sentence that a no to its question says.
pub proof fn law_a_refusal_tells_every_reason(risk: Risk, answers: Seq<ReviewAnswerView>, criterion: Criterion)
    requires
        criteria_of(risk).contains(criterion),
        !is_met(criterion, answers),
    ensures
        !review_of(risk, answers).approved,
        exists|at: int| #[trigger]
            stands_at(
                review_of(risk, answers).feedback,
                at,
                "- "@ + id_of(criterion) + ": "@ + false_of(criterion),
            ),
{
    lemma_unmet(criteria_of(risk), answers);
    let failed = unmet(criteria_of(risk), answers);
    assert(failed.contains(criterion));
    let i = choose|i: int| 0 <= i < failed.len() && failed[i] == criterion;
    let told = failed.map_values(|criterion: Criterion| reason_of(criterion));
    let heading = "This tool definition does not meet the requirements:\n"@;
    law_every_part_stands_in_the_joined_text(told, "\n"@, i);
    let joined = joined_with(told, "\n"@);
    let at = choose|at: int| #[trigger] stands_at(joined, at, told[i]);
    let reason = told[i];
    let feedback = heading + joined;
    assert(feedback.subrange(heading.len() + at, heading.len() + at + reason.len()) =~= joined.subrange(
        at,
        at + reason.len(),
    ));
    assert(reason == "- "@ + id_of(criterion) + ": "@ + false_of(criterion));
    assert(review_of(risk, answers).feedback == feedback);
    assert(stands_at(review_of(risk, answers).feedback, heading.len() + at, reason));
}

/// A review that could not be made is never an approval: it is the submitter's fault only where the decider said so,
/// and what the decider said is told behind it.
pub proof fn law_a_failed_review_says_why(invalid_argument: bool, error: Seq<char>)
    ensures
        invalid_argument ==> (call_error_of(invalid_argument, error) matches ToolErrorView::InvalidRequest(
            told,
        ) && told == "the tool definition could not be reviewed: "@ + error),
        !invalid_argument ==> (call_error_of(
            invalid_argument,
            error,
        ) matches ToolErrorView::ReviewUnavailable(told) && told
            == "tool review is temporarily unavailable: "@ + error),
{
}

/// A tool has been reviewed exactly where it is no draft any more, and then it is asked nothing again.
pub proof fn law_a_reviewed_tool_is_not_asked_again(tool: ToolView)
    ensures
        is_reviewed(tool.status) <==> tool.status == Status::Validated || tool.status == Status::Active,
        is_reviewed(tool.status) <==> asked_of(tool) is Err,
{
}

/// What is told of a tool that was reviewed already.
pub proof fn law_what_is_told_of_a_reviewed_tool(tool: ToolView)
    requires
        tool.status != Status::Draft,
    ensures
        asked_of(tool) == Err::<DecideRequestView, ToolErrorView>(
            ToolErrorView::InvalidRequest("tool "@ + dec_signed(tool.id as int) + " is not Draft"@),
        ),
{
}

/// A refusal tells its reasons one to a line, in the order they were asked.
pub proof fn law_a_refusal_tells_one_reason_to_a_line(first: Criterion, then: Criterion)
    ensures
        refusal_of(seq![first, then]) == "This tool definition does not meet the requirements:\n"@ + (("- "@ + id_of(
            first,
        ) + ": "@ + false_of(first)) + "\n"@ + ("- "@ + id_of(then) + ": "@ + false_of(then))),
{
    let told = seq![first, then].map_values(|criterion: Criterion| reason_of(criterion));
    assert(told =~= seq![reason_of(first), reason_of(then)]);
    assert(told.drop_last() =~= seq![reason_of(first)]);
    assert(joined_with(told.drop_last(), "\n"@) == reason_of(first));
}

/// The threshold is the double nearest to seven tenths: no double is closer.
pub proof fn law_the_threshold_is_seven_tenths()
    ensures
        scale(APPROVAL_THRESHOLD) == -53,
        significand(APPROVAL_THRESHOLD) * 10 <= 7 * 0x20_0000_0000_0000,
        7 * 0x20_0000_0000_0000 - significand(APPROVAL_THRESHOLD) * 10 <= 5,
{
}

} // verus!
