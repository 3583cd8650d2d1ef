//! Everything one decision may carry, and the check that turns a request over that budget into a free local
//! rejection rather than a paid refusal of the provider.

use vstd::prelude::*;

use crate::collect::{
    collected, keep, lemma_all_collected, lemma_collected_failure, lemma_collected_fails, lemma_collected_items,
    lemma_collected_next, outcome,
};
use crate::json::{compact_text, json_text, Json, JsonView};
use crate::llm_router::decision::{
    ChoiceOption, ChoiceOptionView, Decision, DecisionView, Question, QuestionKind, QuestionKindView,
    QuestionView,
};
use crate::rpc::{invalid, ErrorCode, RpcError, RpcErrorView};
use crate::text::{byte_len, cat2, cat3, cat5, cat7, dec, decimal, same, utf8_len};

verus! {

/// A ceiling this service chooses: the token budget below is the real constraint.
pub const MAX_QUESTIONS: usize = 64;

/// The ceilings the vendor publishes on its choice and score pages.
pub const MAX_CHOICE_OPTIONS: usize = 255;

pub const MAX_SCORE_LEVELS: usize = 10;

pub const MIN_SCORE_LEVELS: usize = 2;

pub const MAX_QUESTION_ID_BYTES: usize = 64;

/// The worst ratio of bytes to tokens this check assumes, having no tokenizer of its own: a lower ratio means
/// more tokens for the same bytes.
pub const WORST_CASE_BYTES_PER_TOKEN: usize = 2;

/// The vendor's ceiling for the state plus the longest question of one call, in tokens.
pub const VENDOR_STATE_PLUS_QUESTION_TOKENS: usize = 32_768;

/// The same ceiling in bytes, at the worst ratio.
pub const MAX_STATE_PLUS_QUESTION_BYTES: usize = VENDOR_STATE_PLUS_QUESTION_TOKENS
    * WORST_CASE_BYTES_PER_TOKEN;

/// The state alone, kept low enough that a question with options or levels still has headroom.
pub const MAX_STATE_BYTES: usize = 49_152;

pub const MAX_INSTRUCTIONS_BYTES: usize = 8_192;

/// The vendor's ceiling for the state plus every question of one call, in tokens.
pub const VENDOR_REQUEST_TOKENS: usize = 65_536;

/// The same ceiling in bytes, at the worst ratio.
pub const MAX_REQUEST_BYTES: usize = VENDOR_REQUEST_TOKENS * WORST_CASE_BYTES_PER_TOKEN;

/// An option name is the key its answer comes back under, exactly like a question id.
pub const MAX_OPTION_NAME_BYTES: usize = MAX_QUESTION_ID_BYTES;

pub const MAX_OPTION_DESCRIPTION_BYTES: usize = 1_024;

pub const MAX_LEVEL_BYTES: usize = 1_024;

/// The same numbers as they are published to callers.
#[derive(Clone, Copy, Debug, PartialEq, Eq, Structural)]
pub struct DecisionBudget {
    pub max_questions: i32,
    pub max_question_id_bytes: i32,
    pub max_instructions_bytes: i32,
    pub max_state_bytes: i32,
    pub max_choice_options: i32,
    pub max_option_name_bytes: i32,
    pub max_option_description_bytes: i32,
    pub min_score_levels: i32,
    pub max_score_levels: i32,
    pub max_level_bytes: i32,
    pub max_state_plus_question_bytes: i32,
    pub max_request_bytes: i32,
}

/// A JSON field of a request: left unset, read as the JSON it stands for, or impossible to read, with the
/// reason.
#[derive(Debug, PartialEq, Eq)]
pub enum Supplied {
    Unset,
    Read(Json),
    Unreadable(String),
}

/// A question as the caller sent it, before anything is checked.
#[derive(Debug, PartialEq, Eq)]
pub struct AskedQuestion {
    pub id: String,
    pub instructions: Supplied,
    pub kind: Option<QuestionKind>,
}

/// A request as the caller sent it, before anything is checked.
#[derive(Debug, PartialEq, Eq)]
pub struct DecideRequest {
    pub state: Supplied,
    pub questions: Vec<AskedQuestion>,
}

pub enum SuppliedView {
    Unset,
    Read(JsonView),
    Unreadable(Seq<char>),
}

#[verifier::ext_equal]
pub struct AskedQuestionView {
    pub id: Seq<char>,
    pub instructions: SuppliedView,
    pub kind: Option<QuestionKindView>,
}

#[verifier::ext_equal]
pub struct DecideRequestView {
    pub state: SuppliedView,
    pub questions: Seq<AskedQuestionView>,
}

impl DeepView for Supplied {
    type V = SuppliedView;

    open spec fn deep_view(&self) -> SuppliedView {
        match self {
            Supplied::Unset => SuppliedView::Unset,
            Supplied::Read(json) => SuppliedView::Read(json.deep_view()),
            Supplied::Unreadable(why) => SuppliedView::Unreadable(why@),
        }
    }
}

impl DeepView for AskedQuestion {
    type V = AskedQuestionView;

    open spec fn deep_view(&self) -> AskedQuestionView {
        AskedQuestionView {
            id: self.id@,
            instructions: self.instructions.deep_view(),
            kind: self.kind.deep_view(),
        }
    }
}

impl DeepView for DecideRequest {
    type V = DecideRequestView;

    open spec fn deep_view(&self) -> DecideRequestView {
        DecideRequestView { state: self.state.deep_view(), questions: self.questions.deep_view() }
    }
}

/// A limit as it is published: itself, or the greatest number of 32 bits.
pub fn counted(limit: usize) -> (published: i32)
    ensures
        published == if limit <= i32::MAX {
            limit as int
        } else {
            i32::MAX as int
        },
{
    if limit <= i32::MAX as usize {
        limit as i32
    } else {
        i32::MAX
    }
}

/// The budget that is enforced, as it is published.
pub open spec fn published_budget() -> DecisionBudget {
    DecisionBudget {
        max_questions: MAX_QUESTIONS as i32,
        max_question_id_bytes: MAX_QUESTION_ID_BYTES as i32,
        max_instructions_bytes: MAX_INSTRUCTIONS_BYTES as i32,
        max_state_bytes: MAX_STATE_BYTES as i32,
        max_choice_options: MAX_CHOICE_OPTIONS as i32,
        max_option_name_bytes: MAX_OPTION_NAME_BYTES as i32,
        max_option_description_bytes: MAX_OPTION_DESCRIPTION_BYTES as i32,
        min_score_levels: MIN_SCORE_LEVELS as i32,
        max_score_levels: MAX_SCORE_LEVELS as i32,
        max_level_bytes: MAX_LEVEL_BYTES as i32,
        max_state_plus_question_bytes: MAX_STATE_PLUS_QUESTION_BYTES as i32,
        max_request_bytes: MAX_REQUEST_BYTES as i32,
    }
}

pub fn published() -> (budget: DecisionBudget)
    ensures
        budget == published_budget(),
{
    DecisionBudget {
        max_questions: counted(MAX_QUESTIONS),
        max_question_id_bytes: counted(MAX_QUESTION_ID_BYTES),
        max_instructions_bytes: counted(MAX_INSTRUCTIONS_BYTES),
        max_state_bytes: counted(MAX_STATE_BYTES),
        max_choice_options: counted(MAX_CHOICE_OPTIONS),
        max_option_name_bytes: counted(MAX_OPTION_NAME_BYTES),
        max_option_description_bytes: counted(MAX_OPTION_DESCRIPTION_BYTES),
        min_score_levels: counted(MIN_SCORE_LEVELS),
        max_score_levels: counted(MAX_SCORE_LEVELS),
        max_level_bytes: counted(MAX_LEVEL_BYTES),
        max_state_plus_question_bytes: counted(MAX_STATE_PLUS_QUESTION_BYTES),
        max_request_bytes: counted(MAX_REQUEST_BYTES),
    }
}

/// A field the caller left unset is JSON null; one that cannot be read is refused rather than degraded to null.
pub open spec fn json_of(supplied: SuppliedView) -> Result<JsonView, Seq<char>> {
    match supplied {
        SuppliedView::Unset => Ok(JsonView::Null),
        SuppliedView::Read(json) => Ok(json),
        SuppliedView::Unreadable(why) => Err("could not be read as JSON: "@ + why),
    }
}

pub fn json_from(supplied: &Supplied) -> (read: Result<Json, String>)
    ensures
        outcome(read) == json_of(supplied.deep_view()),
{
    match supplied {
        Supplied::Unset => Ok(Json::Null),
        Supplied::Read(json) => Ok(json.copy()),
        Supplied::Unreadable(why) => Err(cat2("could not be read as JSON: ", why.as_str())),
    }
}

/// The bytes a value takes as JSON text.
pub open spec fn json_bytes(value: JsonView) -> nat {
    utf8_len(json_text(value))
}

/// A value that has to be set, and within a limit of bytes.
pub open spec fn budgeted(what: Seq<char>, value: JsonView, limit: nat) -> Result<
    JsonView,
    RpcErrorView,
> {
    if value == JsonView::Null {
        Err(invalid(what + " must be set"@))
    } else if json_bytes(value) > limit {
        Err(
            invalid(
                what + " is "@ + dec(json_bytes(value)) + " bytes of JSON, over the "@ + dec(limit)
                    + " byte limit"@,
            ),
        )
    } else {
        Ok(value)
    }
}

fn within_json_budget(what: &str, value: Json, limit: usize) -> (checked: Result<Json, RpcError>)
    ensures
        outcome(checked) == budgeted(what@, value.deep_view(), limit as nat),
{
    if let Json::Null = value {
        return Err(RpcError::invalid_argument(cat2(what, " must be set")));
    }
    let bytes: usize = byte_len(compact_text(&value).as_str());
    if bytes > limit {
        return Err(
            RpcError::invalid_argument(
                cat2(
                    cat5(
                        what,
                        " is ",
                        decimal(bytes as u64).as_str(),
                        " bytes of JSON, over the ",
                        decimal(limit as u64).as_str(),
                    ).as_str(),
                    " byte limit",
                ),
            ),
        );
    }
    Ok(value)
}

/// A text within a limit of bytes.
pub open spec fn bounded_text(
    id: Seq<char>,
    what: Seq<char>,
    written: Seq<char>,
    limit: nat,
) -> Result<Seq<char>, RpcErrorView> {
    if utf8_len(written) > limit {
        Err(
            invalid(
                what + " of question "@ + id + " is "@ + dec(utf8_len(written)) + " bytes, over the "@
                    + dec(limit) + " byte limit"@,
            ),
        )
    } else {
        Ok(written)
    }
}

fn bounded(id: &str, what: &str, written: String, limit: usize) -> (checked: Result<
    String,
    RpcError,
>)
    ensures
        outcome(checked) == bounded_text(id@, what@, written@, limit as nat),
{
    let bytes: usize = byte_len(written.as_str());
    if bytes > limit {
        return Err(
            RpcError::invalid_argument(
                cat2(
                    cat7(
                        what,
                        " of question ",
                        id,
                        " is ",
                        decimal(bytes as u64).as_str(),
                        " bytes, over the ",
                        decimal(limit as u64).as_str(),
                    ).as_str(),
                    " byte limit",
                ),
            ),
        );
    }
    Ok(written)
}

/// A text that may be left out, within a limit of bytes where it is not.
pub open spec fn bounded_option(
    id: Seq<char>,
    what: Seq<char>,
    written: Option<Seq<char>>,
    limit: nat,
) -> Result<Option<Seq<char>>, RpcErrorView> {
    match written {
        None => Ok(None),
        Some(text) => match bounded_text(id, what, text, limit) {
            Err(error) => Err(error),
            Ok(text) => Ok(Some(text)),
        },
    }
}

fn bounded_if_written(id: &str, what: &str, written: &Option<String>, limit: usize) -> (checked: Result<
    Option<String>,
    RpcError,
>)
    ensures
        outcome(checked) == bounded_option(id@, what@, written.deep_view(), limit as nat),
{
    match written {
        None => Ok(None),
        Some(text) => {
            let kept: String = bounded(id, what, text.clone(), limit)?;
            Ok(Some(kept))
        },
    }
}

fn criterion(id: &str, what: &str, written: &Option<String>) -> (checked: Result<
    Option<String>,
    RpcError,
>)
    ensures
        outcome(checked) == bounded_option(id@, what@, written.deep_view(), MAX_LEVEL_BYTES as nat),
{
    bounded_if_written(id, what, written, MAX_LEVEL_BYTES)
}

/// The levels of a score question: as many as the class takes, each within its limit.
pub open spec fn checked_levels(id: Seq<char>, levels: Seq<Seq<char>>) -> Result<
    QuestionKindView,
    RpcErrorView,
> {
    if levels.len() < MIN_SCORE_LEVELS {
        Err(
            invalid(
                "score question "@ + id + " needs at least "@ + dec(MIN_SCORE_LEVELS as nat) + " levels"@,
            ),
        )
    } else if levels.len() > MAX_SCORE_LEVELS {
        Err(
            invalid(
                "score question "@ + id + " names more than the "@ + dec(MAX_SCORE_LEVELS as nat)
                    + " levels this class takes"@,
            ),
        )
    } else {
        match collected(level_results(id, levels)) {
            Err(error) => Err(error),
            Ok(levels) => Ok(QuestionKindView::Score { levels }),
        }
    }
}

pub open spec fn level_results(id: Seq<char>, levels: Seq<Seq<char>>) -> Seq<
    Result<Seq<char>, RpcErrorView>,
> {
    Seq::new(
        levels.len(),
        |i: int| bounded_text(id, "level "@ + dec(i as nat), levels[i], MAX_LEVEL_BYTES as nat),
    )
}

fn validated_levels(id: &str, levels: &Vec<String>) -> (checked: Result<QuestionKind, RpcError>)
    ensures
        outcome(checked) == checked_levels(id@, levels.deep_view()),
{
    if levels.len() < MIN_SCORE_LEVELS {
        return Err(
            RpcError::invalid_argument(
                cat5(
                    "score question ",
                    id,
                    " needs at least ",
                    decimal(MIN_SCORE_LEVELS as u64).as_str(),
                    " levels",
                ),
            ),
        );
    }
    if levels.len() > MAX_SCORE_LEVELS {
        return Err(
            RpcError::invalid_argument(
                cat5(
                    "score question ",
                    id,
                    " names more than the ",
                    decimal(MAX_SCORE_LEVELS as u64).as_str(),
                    " levels this class takes",
                ),
            ),
        );
    }
    let ghost results = level_results(id@, levels.deep_view());
    let mut named: Vec<String> = Vec::new();
    assert(named.deep_view() =~= collected(results.take(0))->Ok_0);
    for i in 0..levels.len()
        invariant
            results == level_results(id@, levels.deep_view()),
            results.len() == levels@.len(),
            collected(results.take(i as int)) == Ok::<Seq<Seq<char>>, RpcErrorView>(
                named.deep_view(),
            ),
            checked_levels(id@, levels.deep_view()) == (match collected(results) {
                Err(error) => Err::<QuestionKindView, RpcErrorView>(error),
                Ok(levels) => Ok(QuestionKindView::Score { levels }),
            }),
    {
        let what: String = cat2("level ", decimal(i as u64).as_str());
        match bounded(id, what.as_str(), levels[i].clone(), MAX_LEVEL_BYTES) {
            Ok(level) => {
                proof {
                    lemma_collected_next(results, i as int);
                }
                keep(&mut named, level);
            },
            Err(error) => {
                proof {
                    lemma_collected_fails(results, i as int);
                }
                return Err(error);
            },
        }
    }
    assert(results.take(results.len() as int) =~= results);
    Ok(QuestionKind::Score { levels: named })
}

/// An option of that name stands before a position.
pub open spec fn named_before(options: Seq<ChoiceOptionView>, i: int, name: Seq<char>) -> bool {
    exists|k: int| 0 <= k < i && (#[trigger] options[k]).name == name
}

/// One option: named, within its limits, and not offered before.
pub open spec fn checked_option(id: Seq<char>, options: Seq<ChoiceOptionView>, i: int) -> Result<
    ChoiceOptionView,
    RpcErrorView,
> {
    let option = options[i];
    if option.name.len() == 0 {
        Err(invalid("every option of choice question "@ + id + " needs a name"@))
    } else {
        match bounded_text(
            id,
            "the name of option "@ + dec(i as nat),
            option.name,
            MAX_OPTION_NAME_BYTES as nat,
        ) {
            Err(error) => Err(error),
            Ok(name) => if named_before(options, i, name) {
                Err(
                    invalid(
                        "option "@ + name + " of choice question "@ + id + " is offered twice"@,
                    ),
                )
            } else {
                match bounded_option(
                    id,
                    "the description of option "@ + name,
                    option.description,
                    MAX_OPTION_DESCRIPTION_BYTES as nat,
                ) {
                    Err(error) => Err(error),
                    Ok(description) => Ok(ChoiceOptionView { name, description }),
                }
            },
        }
    }
}

pub open spec fn option_results(id: Seq<char>, options: Seq<ChoiceOptionView>) -> Seq<
    Result<ChoiceOptionView, RpcErrorView>,
> {
    Seq::new(options.len(), |i: int| checked_option(id, options, i))
}

/// The options of a choice question: at least one, no more than the class takes, each in order.
pub open spec fn checked_options(id: Seq<char>, options: Seq<ChoiceOptionView>) -> Result<
    QuestionKindView,
    RpcErrorView,
> {
    if options.len() == 0 {
        Err(invalid("choice question "@ + id + " names no options"@))
    } else if options.len() > MAX_CHOICE_OPTIONS {
        Err(
            invalid(
                "choice question "@ + id + " names more than the "@ + dec(MAX_CHOICE_OPTIONS as nat)
                    + " options this class takes"@,
            ),
        )
    } else {
        match collected(option_results(id, options)) {
            Err(error) => Err(error),
            Ok(options) => Ok(QuestionKindView::Choice { options }),
        }
    }
}

fn offered_before(options: &Vec<ChoiceOption>, i: usize, name: &str) -> (found: bool)
    requires
        i <= options@.len(),
    ensures
        found == named_before(options.deep_view(), i as int, name@),
{
    let ghost views = options.deep_view();
    for k in 0..i
        invariant
            i <= options@.len(),
            views == options.deep_view(),
            forall|j: int| 0 <= j < k ==> (#[trigger] views[j]).name != name@,
    {
        assert(views[k as int].name == options@[k as int].name@);
        if same(options[k].name.as_str(), name) {
            return true;
        }
    }
    false
}

fn validated_option(id: &str, options: &Vec<ChoiceOption>, i: usize) -> (checked: Result<
    ChoiceOption,
    RpcError,
>)
    requires
        i < options@.len(),
    ensures
        outcome(checked) == checked_option(id@, options.deep_view(), i as int),
{
    let option: &ChoiceOption = &options[i];
    assert(options.deep_view()[i as int] == option.deep_view());
    if option.name.as_str().is_empty() {
        return Err(
            RpcError::invalid_argument(
                cat3("every option of choice question ", id, " needs a name"),
            ),
        );
    }
    let what: String = cat2("the name of option ", decimal(i as u64).as_str());
    let name: String = bounded(id, what.as_str(), option.name.clone(), MAX_OPTION_NAME_BYTES)?;
    if offered_before(options, i, name.as_str()) {
        return Err(
            RpcError::invalid_argument(
                cat5("option ", name.as_str(), " of choice question ", id, " is offered twice"),
            ),
        );
    }
    let what: String = cat2("the description of option ", name.as_str());
    let description: Option<String> = bounded_if_written(
        id,
        what.as_str(),
        &option.description,
        MAX_OPTION_DESCRIPTION_BYTES,
    )?;
    Ok(ChoiceOption { name, description })
}

fn validated_options(id: &str, options: &Vec<ChoiceOption>) -> (checked: Result<
    QuestionKind,
    RpcError,
>)
    ensures
        outcome(checked) == checked_options(id@, options.deep_view()),
{
    if options.len() == 0 {
        return Err(
            RpcError::invalid_argument(cat3("choice question ", id, " names no options")),
        );
    }
    if options.len() > MAX_CHOICE_OPTIONS {
        return Err(
            RpcError::invalid_argument(
                cat5(
                    "choice question ",
                    id,
                    " names more than the ",
                    decimal(MAX_CHOICE_OPTIONS as u64).as_str(),
                    " options this class takes",
                ),
            ),
        );
    }
    let ghost results = option_results(id@, options.deep_view());
    let mut offered: Vec<ChoiceOption> = Vec::new();
    assert(offered.deep_view() =~= collected(results.take(0))->Ok_0);
    for i in 0..options.len()
        invariant
            results == option_results(id@, options.deep_view()),
            results.len() == options@.len(),
            collected(results.take(i as int)) == Ok::<Seq<ChoiceOptionView>, RpcErrorView>(
                offered.deep_view(),
            ),
            checked_options(id@, options.deep_view()) == (match collected(results) {
                Err(error) => Err::<QuestionKindView, RpcErrorView>(error),
                Ok(options) => Ok(QuestionKindView::Choice { options }),
            }),
    {
        match validated_option(id, options, i) {
            Ok(option) => {
                proof {
                    lemma_collected_next(results, i as int);
                }
                keep(&mut offered, option);
            },
            Err(error) => {
                proof {
                    lemma_collected_fails(results, i as int);
                }
                return Err(error);
            },
        }
    }
    assert(results.take(results.len() as int) =~= results);
    Ok(QuestionKind::Choice { options: offered })
}

/// What a question asks for, of a kind and within the limits of that kind.
pub open spec fn checked_kind(id: Seq<char>, kind: Option<QuestionKindView>) -> Result<
    QuestionKindView,
    RpcErrorView,
> {
    match kind {
        None => Err(invalid("question "@ + id + " names no kind"@)),
        Some(QuestionKindView::Noul { when_true, when_false }) => match bounded_option(
            id,
            "the whenTrue criterion"@,
            when_true,
            MAX_LEVEL_BYTES as nat,
        ) {
            Err(error) => Err(error),
            Ok(when_true) => match bounded_option(
                id,
                "the whenFalse criterion"@,
                when_false,
                MAX_LEVEL_BYTES as nat,
            ) {
                Err(error) => Err(error),
                Ok(when_false) => Ok(QuestionKindView::Noul { when_true, when_false }),
            },
        },
        Some(QuestionKindView::Choice { options }) => checked_options(id, options),
        Some(QuestionKindView::Score { levels }) => checked_levels(id, levels),
    }
}

fn validated_kind(id: &str, kind: &Option<QuestionKind>) -> (checked: Result<QuestionKind, RpcError>)
    ensures
        outcome(checked) == checked_kind(id@, kind.deep_view()),
{
    match kind {
        None => Err(RpcError::invalid_argument(cat3("question ", id, " names no kind"))),
        Some(QuestionKind::Noul { when_true, when_false }) => {
            let when_true: Option<String> = criterion(id, "the whenTrue criterion", when_true)?;
            let when_false: Option<String> = criterion(id, "the whenFalse criterion", when_false)?;
            Ok(QuestionKind::Noul { when_true, when_false })
        },
        Some(QuestionKind::Choice { options }) => validated_options(id, options),
        Some(QuestionKind::Score { levels }) => validated_levels(id, levels),
    }
}

/// A question whose instructions are set and whose kind is in order.
pub open spec fn checked_question(question: AskedQuestionView) -> Result<QuestionView, RpcErrorView> {
    match json_of(question.instructions) {
        Err(why) => Err(
            invalid("the instructions of question "@ + question.id + " "@ + why),
        ),
        Ok(instructions) => match budgeted(
            "the instructions of question "@ + question.id,
            instructions,
            MAX_INSTRUCTIONS_BYTES as nat,
        ) {
            Err(error) => Err(error),
            Ok(instructions) => match checked_kind(question.id, question.kind) {
                Err(error) => Err(error),
                Ok(kind) => Ok(QuestionView { id: question.id, instructions, kind }),
            },
        },
    }
}

fn validated_question(question: &AskedQuestion) -> (checked: Result<Question, RpcError>)
    ensures
        outcome(checked) == checked_question(question.deep_view()),
{
    let what: String = cat2("the instructions of question ", question.id.as_str());
    let instructions: Json = match json_from(&question.instructions) {
        Ok(json) => json,
        Err(why) => {
            return Err(RpcError::invalid_argument(cat3(what.as_str(), " ", why.as_str())));
        },
    };
    let instructions: Json = within_json_budget(
        what.as_str(),
        instructions,
        MAX_INSTRUCTIONS_BYTES,
    )?;
    let kind: QuestionKind = validated_kind(question.id.as_str(), &question.kind)?;
    Ok(Question { id: question.id.clone(), instructions, kind })
}

/// The sum of a list of sizes.
pub open spec fn total(sizes: Seq<nat>) -> nat
    decreases sizes.len(),
{
    if sizes.len() == 0 {
        0
    } else {
        total(sizes.drop_last()) + sizes.last()
    }
}

pub open spec fn written_bytes(written: Option<Seq<char>>) -> nat {
    match written {
        None => 0,
        Some(text) => utf8_len(text),
    }
}

pub open spec fn option_bytes(option: ChoiceOptionView) -> nat {
    utf8_len(option.name) + written_bytes(option.description)
}

/// The bytes of what a kind asks the model to read: criteria, option names and descriptions, or levels.
pub open spec fn kind_size(kind: QuestionKindView) -> nat {
    match kind {
        QuestionKindView::Noul { when_true, when_false } => written_bytes(when_true) + written_bytes(
            when_false,
        ),
        QuestionKindView::Choice { options } => total(
            options.map_values(|option: ChoiceOptionView| option_bytes(option)),
        ),
        QuestionKindView::Score { levels } => total(
            levels.map_values(|level: Seq<char>| utf8_len(level)),
        ),
    }
}

/// The bytes of everything about one question that counts toward the ceilings of the vendor.
pub open spec fn question_size(question: QuestionView) -> nat {
    json_bytes(question.instructions) + kind_size(question.kind)
}

/// An option within the limits of the class.
pub open spec fn option_fits(option: ChoiceOptionView) -> bool {
    &&& 0 < option.name.len()
    &&& utf8_len(option.name) <= MAX_OPTION_NAME_BYTES
    &&& written_bytes(option.description) <= MAX_OPTION_DESCRIPTION_BYTES
}

/// A kind within the limits of the class.
pub open spec fn kind_fits(kind: QuestionKindView) -> bool {
    match kind {
        QuestionKindView::Noul { when_true, when_false } => {
            &&& written_bytes(when_true) <= MAX_LEVEL_BYTES
            &&& written_bytes(when_false) <= MAX_LEVEL_BYTES
        },
        QuestionKindView::Choice { options } => {
            &&& 0 < options.len() <= MAX_CHOICE_OPTIONS
            &&& forall|i: int| 0 <= i < options.len() ==> option_fits(#[trigger] options[i])
            &&& forall|i: int, k: int|
                0 <= k < i < options.len() ==> (#[trigger] options[k]).name != (
                #[trigger] options[i]).name
        },
        QuestionKindView::Score { levels } => {
            &&& MIN_SCORE_LEVELS <= levels.len() <= MAX_SCORE_LEVELS
            &&& forall|i: int|
                0 <= i < levels.len() ==> utf8_len(#[trigger] levels[i]) <= MAX_LEVEL_BYTES
        },
    }
}

/// A question within the limits of the class.
pub open spec fn question_fits(question: QuestionView) -> bool {
    &&& question.instructions != JsonView::Null
    &&& json_bytes(question.instructions) <= MAX_INSTRUCTIONS_BYTES
    &&& kind_fits(question.kind)
}

/// A kind passes the check exactly where it fits, and then unchanged.
pub proof fn lemma_checked_kind(id: Seq<char>, kind: Option<QuestionKindView>)
    ensures
        checked_kind(id, kind) is Ok <==> kind is Some && kind_fits(kind->Some_0),
        checked_kind(id, kind) is Ok ==> checked_kind(id, kind)->Ok_0 == kind->Some_0,
{
    match kind {
        Some(QuestionKindView::Choice { options }) => {
            let results = option_results(id, options);
            if collected(results) is Ok {
                lemma_collected_items(results);
                assert forall|i: int| 0 <= i < options.len() implies option_fits(
                    #[trigger] options[i],
                ) && collected(results)->Ok_0[i] == options[i] by {
                    assert(results[i] == checked_option(id, options, i));
                }
                assert(collected(results)->Ok_0 =~= options);
                assert forall|i: int, k: int| 0 <= k < i < options.len() implies (
                #[trigger] options[k]).name != (#[trigger] options[i]).name by {
                    assert(results[i] == checked_option(id, options, i));
                }
            } else if kind_fits(kind->Some_0) {
                lemma_all_collected(results);
            }
        },
        Some(QuestionKindView::Score { levels }) => {
            let results = level_results(id, levels);
            if collected(results) is Ok {
                lemma_collected_items(results);
                assert forall|i: int| 0 <= i < levels.len() implies utf8_len(#[trigger] levels[i])
                    <= MAX_LEVEL_BYTES && collected(results)->Ok_0[i] == levels[i] by {
                    assert(results[i] is Ok);
                }
                assert(collected(results)->Ok_0 =~= levels);
            } else if kind_fits(kind->Some_0) {
                lemma_all_collected(results);
            }
        },
        _ => {},
    }
}

proof fn lemma_total_next(sizes: Seq<nat>, i: int)
    requires
        0 <= i < sizes.len(),
    ensures
        total(sizes.take(i + 1)) == total(sizes.take(i)) + sizes[i],
{
    assert(sizes.take(i + 1).drop_last() =~= sizes.take(i));
}

fn bytes_if_written(written: &Option<String>) -> (bytes: usize)
    ensures
        bytes == written_bytes(written.deep_view()),
{
    match written {
        None => 0,
        Some(text) => byte_len(text.as_str()),
    }
}

fn kind_bytes(kind: &QuestionKind) -> (bytes: usize)
    requires
        kind_fits(kind.deep_view()),
    ensures
        bytes == kind_size(kind.deep_view()),
        bytes <= MAX_CHOICE_OPTIONS * (MAX_OPTION_NAME_BYTES + MAX_OPTION_DESCRIPTION_BYTES),
{
    match kind {
        QuestionKind::Noul { when_true, when_false } => {
            bytes_if_written(when_true) + bytes_if_written(when_false)
        },
        QuestionKind::Choice { options } => {
            let ghost sizes = options.deep_view().map_values(
                |option: ChoiceOptionView| option_bytes(option),
            );
            let mut bytes: usize = 0;
            assert(sizes.take(0) =~= seq![]);
            for i in 0..options.len()
                invariant
                    kind_fits(QuestionKindView::Choice { options: options.deep_view() }),
                    sizes == options.deep_view().map_values(
                        |option: ChoiceOptionView| option_bytes(option),
                    ),
                    sizes.len() == options@.len() <= MAX_CHOICE_OPTIONS,
                    bytes == total(sizes.take(i as int)),
                    bytes <= i * 1088,
            {
                let option: &ChoiceOption = &options[i];
                assert(options.deep_view()[i as int] == option.deep_view());
                assert(option_fits(option.deep_view()));
                assert(sizes[i as int] == option_bytes(option.deep_view()));
                proof {
                    lemma_total_next(sizes, i as int);
                }
                bytes = bytes + (byte_len(option.name.as_str()) + bytes_if_written(&option.description));
            }
            assert(sizes.take(sizes.len() as int) =~= sizes);
            bytes
        },
        QuestionKind::Score { levels } => {
            let ghost sizes = levels.deep_view().map_values(|level: Seq<char>| utf8_len(level));
            let mut bytes: usize = 0;
            assert(sizes.take(0) =~= seq![]);
            for i in 0..levels.len()
                invariant
                    kind_fits(QuestionKindView::Score { levels: levels.deep_view() }),
                    sizes == levels.deep_view().map_values(|level: Seq<char>| utf8_len(level)),
                    sizes.len() == levels@.len() <= MAX_SCORE_LEVELS,
                    bytes == total(sizes.take(i as int)),
                    bytes <= i * 1024,
            {
                assert(levels.deep_view()[i as int] == levels@[i as int]@);
                assert(sizes[i as int] == utf8_len(levels@[i as int]@));
                proof {
                    lemma_total_next(sizes, i as int);
                }
                bytes = bytes + byte_len(levels[i].as_str());
            }
            assert(sizes.take(sizes.len() as int) =~= sizes);
            bytes
        },
    }
}

fn question_bytes(question: &Question) -> (bytes: usize)
    requires
        question_fits(question.deep_view()),
    ensures
        bytes == question_size(question.deep_view()),
        bytes <= MAX_INSTRUCTIONS_BYTES + MAX_CHOICE_OPTIONS * (MAX_OPTION_NAME_BYTES
            + MAX_OPTION_DESCRIPTION_BYTES),
{
    byte_len(compact_text(&question.instructions).as_str()) + kind_bytes(&question.kind)
}

/// A question too heavy for the vendor's ceiling once the state is added to it.
pub open spec fn too_heavy(state_bytes: nat, question: QuestionView) -> Option<RpcErrorView> {
    let bytes = question_size(question);
    if state_bytes + bytes > MAX_STATE_PLUS_QUESTION_BYTES {
        Some(
            invalid(
                "state is "@ + dec(state_bytes) + " bytes and question "@ + question.id + " is "@ + dec(
                    bytes,
                ) + " bytes; together they are "@ + dec(state_bytes + bytes) + " bytes, over the "@
                    + dec(MAX_STATE_PLUS_QUESTION_BYTES as nat)
                    + " byte limit the vendor holds state plus one question to"@,
            ),
        )
    } else {
        None
    }
}

fn within_state_and_question_budget(state_bytes: usize, question: &Question) -> (checked: Result<
    (),
    RpcError,
>)
    requires
        state_bytes <= MAX_STATE_BYTES,
        question_fits(question.deep_view()),
    ensures
        checked is Ok <==> too_heavy(state_bytes as nat, question.deep_view()) is None,
        checked is Err ==> too_heavy(state_bytes as nat, question.deep_view()) == Some(
            checked->Err_0.deep_view(),
        ),
{
    let bytes: usize = question_bytes(question);
    let combined: usize = state_bytes + bytes;
    if combined > MAX_STATE_PLUS_QUESTION_BYTES {
        let sizes: String = cat7(
            "state is ",
            decimal(state_bytes as u64).as_str(),
            " bytes and question ",
            question.id.as_str(),
            " is ",
            decimal(bytes as u64).as_str(),
            " bytes; together they are ",
        );
        return Err(
            RpcError::invalid_argument(
                cat5(
                    sizes.as_str(),
                    decimal(combined as u64).as_str(),
                    " bytes, over the ",
                    decimal(MAX_STATE_PLUS_QUESTION_BYTES as u64).as_str(),
                    " byte limit the vendor holds state plus one question to",
                ),
            ),
        );
    }
    Ok(())
}

/// The bytes of all the questions together.
pub open spec fn questions_size(questions: Seq<QuestionView>) -> nat {
    total(questions.map_values(|question: QuestionView| question_size(question)))
}

/// A request too heavy for the vendor's ceiling once every question is summed.
pub open spec fn too_heavy_together(state_bytes: nat, questions: Seq<QuestionView>) -> Option<
    RpcErrorView,
> {
    let bytes = questions_size(questions);
    if state_bytes + bytes > MAX_REQUEST_BYTES {
        Some(
            invalid(
                "state is "@ + dec(state_bytes) + " bytes and the "@ + dec(questions.len())
                    + " questions together are "@ + dec(bytes) + " bytes; the whole request is "@ + dec(
                    state_bytes + bytes,
                ) + " bytes, over the "@ + dec(MAX_REQUEST_BYTES as nat)
                    + " byte limit the vendor holds one Decide call to"@,
            ),
        )
    } else {
        None
    }
}

fn within_request_budget(state_bytes: usize, questions: &Vec<Question>) -> (checked: Result<
    (),
    RpcError,
>)
    requires
        state_bytes <= MAX_STATE_BYTES,
        questions@.len() <= MAX_QUESTIONS,
        forall|i: int|
            0 <= i < questions@.len() ==> question_fits((#[trigger] questions@[i]).deep_view()),
    ensures
        checked is Ok <==> too_heavy_together(state_bytes as nat, questions.deep_view()) is None,
        checked is Err ==> too_heavy_together(state_bytes as nat, questions.deep_view()) == Some(
            checked->Err_0.deep_view(),
        ),
{
    let ghost sizes = questions.deep_view().map_values(
        |question: QuestionView| question_size(question),
    );
    let mut together: usize = 0;
    assert(sizes.take(0) =~= seq![]);
    for i in 0..questions.len()
        invariant
            sizes == questions.deep_view().map_values(
                |question: QuestionView| question_size(question),
            ),
            sizes.len() == questions@.len() <= MAX_QUESTIONS,
            forall|k: int|
                0 <= k < questions@.len() ==> question_fits((#[trigger] questions@[k]).deep_view()),
            together == total(sizes.take(i as int)),
            together <= i * 285_632,
    {
        let question: &Question = &questions[i];
        assert(questions.deep_view()[i as int] == question.deep_view());
        assert(sizes[i as int] == question_size(question.deep_view()));
        proof {
            lemma_total_next(sizes, i as int);
        }
        together = together + question_bytes(question);
    }
    assert(sizes.take(sizes.len() as int) =~= sizes);
    let whole: usize = state_bytes + together;
    if whole > MAX_REQUEST_BYTES {
        let sums: String = cat7(
            "state is ",
            decimal(state_bytes as u64).as_str(),
            " bytes and the ",
            decimal(questions.len() as u64).as_str(),
            " questions together are ",
            decimal(together as u64).as_str(),
            " bytes; the whole request is ",
        );
        return Err(
            RpcError::invalid_argument(
                cat5(
                    sums.as_str(),
                    decimal(whole as u64).as_str(),
                    " bytes, over the ",
                    decimal(MAX_REQUEST_BYTES as u64).as_str(),
                    " byte limit the vendor holds one Decide call to",
                ),
            ),
        );
    }
    Ok(())
}

/// A question of that id stands before a position.
pub open spec fn asked_before(questions: Seq<AskedQuestionView>, i: int, id: Seq<char>) -> bool {
    exists|k: int| 0 <= k < i && (#[trigger] questions[k]).id == id
}

/// What is wrong with the id of a question: missing, too long, or asked before.
pub open spec fn id_fault(questions: Seq<AskedQuestionView>, i: int) -> Option<RpcErrorView> {
    let id = questions[i].id;
    if id.len() == 0 {
        Some(invalid("every question needs an id"@))
    } else if utf8_len(id) > MAX_QUESTION_ID_BYTES {
        Some(
            invalid(
                "question id "@ + id + " is over the "@ + dec(MAX_QUESTION_ID_BYTES as nat)
                    + " byte limit"@,
            ),
        )
    } else if asked_before(questions, i, id) {
        Some(invalid("question id "@ + id + " is asked twice"@))
    } else {
        None
    }
}

fn validated_id(questions: &Vec<AskedQuestion>, i: usize) -> (checked: Result<(), RpcError>)
    requires
        i < questions@.len(),
    ensures
        checked is Ok <==> id_fault(questions.deep_view(), i as int) is None,
        checked is Err ==> id_fault(questions.deep_view(), i as int) == Some(
            checked->Err_0.deep_view(),
        ),
{
    let ghost views = questions.deep_view();
    let id: &str = questions[i].id.as_str();
    assert(views[i as int].id == id@);
    if id.is_empty() {
        return Err(RpcError::invalid_argument("every question needs an id".to_owned()));
    }
    if byte_len(id) > MAX_QUESTION_ID_BYTES {
        return Err(
            RpcError::invalid_argument(
                cat5(
                    "question id ",
                    id,
                    " is over the ",
                    decimal(MAX_QUESTION_ID_BYTES as u64).as_str(),
                    " byte limit",
                ),
            ),
        );
    }
    for k in 0..i
        invariant
            i < questions@.len(),
            views == questions.deep_view(),
            id@ == views[i as int].id,
            0 < id@.len(),
            utf8_len(id@) <= MAX_QUESTION_ID_BYTES,
            forall|j: int| 0 <= j < k ==> (#[trigger] views[j]).id != id@,
    {
        assert(views[k as int].id == questions@[k as int].id@);
        if same(questions[k].id.as_str(), id) {
            return Err(
                RpcError::invalid_argument(cat3("question id ", id, " is asked twice")),
            );
        }
    }
    Ok(())
}

/// One question of a request, checked where it stands.
pub open spec fn checked_at(
    questions: Seq<AskedQuestionView>,
    i: int,
    state_bytes: nat,
) -> Result<QuestionView, RpcErrorView> {
    match id_fault(questions, i) {
        Some(error) => Err(error),
        None => match checked_question(questions[i]) {
            Err(error) => Err(error),
            Ok(question) => match too_heavy(state_bytes, question) {
                Some(error) => Err(error),
                None => Ok(question),
            },
        },
    }
}

pub open spec fn question_results(questions: Seq<AskedQuestionView>, state_bytes: nat) -> Seq<
    Result<QuestionView, RpcErrorView>,
> {
    Seq::new(questions.len(), |i: int| checked_at(questions, i, state_bytes))
}

/// What a request asks for, checked in this order: how many questions, the state, each question in turn, and
/// the whole of it.
pub open spec fn decision_of(request: DecideRequestView) -> Result<DecisionView, RpcErrorView> {
    if request.questions.len() == 0 {
        Err(invalid("questions must hold at least one question"@))
    } else if request.questions.len() > MAX_QUESTIONS {
        Err(
            invalid("questions must hold at most "@ + dec(MAX_QUESTIONS as nat) + " questions"@),
        )
    } else {
        match json_of(request.state) {
            Err(why) => Err(invalid("state "@ + why)),
            Ok(state) => match budgeted("state"@, state, MAX_STATE_BYTES as nat) {
                Err(error) => Err(error),
                Ok(state) => match collected(
                    question_results(request.questions, json_bytes(state)),
                ) {
                    Err(error) => Err(error),
                    Ok(questions) => match too_heavy_together(json_bytes(state), questions) {
                        Some(error) => Err(error),
                        None => Ok(DecisionView { state, questions }),
                    },
                },
            },
        }
    }
}

fn validated_questions(asked: &Vec<AskedQuestion>, state_bytes: usize) -> (checked: Result<
    Vec<Question>,
    RpcError,
>)
    requires
        state_bytes <= MAX_STATE_BYTES,
    ensures
        outcome(checked) == collected(question_results(asked.deep_view(), state_bytes as nat)),
        checked is Ok ==> checked->Ok_0@.len() == asked@.len() && forall|i: int|
            0 <= i < asked@.len() ==> question_fits((#[trigger] checked->Ok_0@[i]).deep_view()),
{
    let ghost results = question_results(asked.deep_view(), state_bytes as nat);
    let mut questions: Vec<Question> = Vec::new();
    assert(questions.deep_view() =~= collected(results.take(0))->Ok_0);
    for i in 0..asked.len()
        invariant
            state_bytes <= MAX_STATE_BYTES,
            results == question_results(asked.deep_view(), state_bytes as nat),
            results.len() == asked@.len(),
            questions@.len() == i,
            forall|k: int| 0 <= k < i ==> question_fits((#[trigger] questions@[k]).deep_view()),
            collected(results.take(i as int)) == Ok::<Seq<QuestionView>, RpcErrorView>(
                questions.deep_view(),
            ),
    {
        assert(results[i as int] == checked_at(asked.deep_view(), i as int, state_bytes as nat));
        assert(asked.deep_view()[i as int] == asked@[i as int].deep_view());
        if let Err(error) = validated_id(asked, i) {
            proof {
                lemma_collected_fails(results, i as int);
            }
            return Err(error);
        }
        let question: Question = match validated_question(&asked[i]) {
            Ok(question) => question,
            Err(error) => {
                proof {
                    lemma_collected_fails(results, i as int);
                }
                return Err(error);
            },
        };
        proof {
            lemma_checked_kind(asked@[i as int].id@, asked@[i as int].kind.deep_view());
        }
        if let Err(error) = within_state_and_question_budget(state_bytes, &question) {
            proof {
                lemma_collected_fails(results, i as int);
            }
            return Err(error);
        }
        proof {
            lemma_collected_next(results, i as int);
        }
        keep(&mut questions, question);
    }
    assert(results.take(results.len() as int) =~= results);
    Ok(questions)
}

pub fn validated_decision(request: &DecideRequest) -> (checked: Result<Decision, RpcError>)
    ensures
        outcome(checked) == decision_of(request.deep_view()),
{
    if request.questions.len() == 0 {
        return Err(
            RpcError::invalid_argument("questions must hold at least one question".to_owned()),
        );
    }
    if request.questions.len() > MAX_QUESTIONS {
        return Err(
            RpcError::invalid_argument(
                cat3(
                    "questions must hold at most ",
                    decimal(MAX_QUESTIONS as u64).as_str(),
                    " questions",
                ),
            ),
        );
    }
    let state: Json = match json_from(&request.state) {
        Ok(state) => state,
        Err(why) => {
            return Err(RpcError::invalid_argument(cat2("state ", why.as_str())));
        },
    };
    let state: Json = within_json_budget("state", state, MAX_STATE_BYTES)?;
    let state_bytes: usize = byte_len(compact_text(&state).as_str());
    let questions: Vec<Question> = validated_questions(&request.questions, state_bytes)?;
    if let Err(error) = within_request_budget(state_bytes, &questions) {
        return Err(error);
    }
    Ok(Decision { state, questions })
}

/// A kind within the numbers of a budget.
pub open spec fn kind_within(kind: QuestionKindView, budget: DecisionBudget) -> bool {
    match kind {
        QuestionKindView::Noul { when_true, when_false } => {
            &&& written_bytes(when_true) <= budget.max_level_bytes
            &&& written_bytes(when_false) <= budget.max_level_bytes
        },
        QuestionKindView::Choice { options } => {
            &&& 0 < options.len() <= budget.max_choice_options
            &&& forall|i: int|
                0 <= i < options.len() ==> {
                    &&& 0 < (#[trigger] options[i]).name.len()
                    &&& utf8_len(options[i].name) <= budget.max_option_name_bytes
                    &&& written_bytes(options[i].description) <= budget.max_option_description_bytes
                }
            &&& forall|i: int, k: int|
                0 <= k < i < options.len() ==> (#[trigger] options[k]).name != (
                #[trigger] options[i]).name
        },
        QuestionKindView::Score { levels } => {
            &&& budget.min_score_levels <= levels.len() <= budget.max_score_levels
            &&& forall|i: int|
                0 <= i < levels.len() ==> utf8_len(#[trigger] levels[i]) <= budget.max_level_bytes
        },
    }
}

/// A question that says everything it has to, within the numbers of a budget.
pub open spec fn question_within(question: AskedQuestionView, budget: DecisionBudget) -> bool {
    &&& 0 < question.id.len()
    &&& utf8_len(question.id) <= budget.max_question_id_bytes
    &&& json_of(question.instructions) is Ok
    &&& json_of(question.instructions)->Ok_0 != JsonView::Null
    &&& json_bytes(json_of(question.instructions)->Ok_0) <= budget.max_instructions_bytes
    &&& question.kind is Some
    &&& kind_within(question.kind->Some_0, budget)
}

/// The question a caller asked, as it is put to the provider.
pub open spec fn put(question: AskedQuestionView) -> QuestionView {
    QuestionView {
        id: question.id,
        instructions: json_of(question.instructions)->Ok_0,
        kind: question.kind->Some_0,
    }
}

/// A request within the numbers of a budget.
pub open spec fn request_within(request: DecideRequestView, budget: DecisionBudget) -> bool {
    let state = json_of(request.state)->Ok_0;
    let questions = request.questions;
    &&& 0 < questions.len() <= budget.max_questions
    &&& json_of(request.state) is Ok
    &&& state != JsonView::Null
    &&& json_bytes(state) <= budget.max_state_bytes
    &&& questions_within(questions, json_bytes(state), budget)
    &&& json_bytes(state) + questions_size(
        questions.map_values(|question: AskedQuestionView| put(question)),
    ) <= budget.max_request_bytes
}

/// The published budget is the budget that is enforced: a request passes exactly where it is within the
/// published numbers, and what passes is put to the provider as it was asked, in the order it was asked.
pub proof fn law_published_budget_is_enforced(request: DecideRequestView)
    ensures
        decision_of(request) is Ok <==> request_within(request, published_budget()),
        decision_of(request) matches Ok(decision) ==> {
            &&& decision.state == json_of(request.state)->Ok_0
            &&& decision.questions == request.questions.map_values(
                |question: AskedQuestionView| put(question),
            )
        },
{
    let budget = published_budget();
    let questions = request.questions;
    let state = json_of(request.state)->Ok_0;
    let bytes = json_bytes(state);
    let results = question_results(questions, bytes);
    let asked = questions.map_values(|question: AskedQuestionView| put(question));
    lemma_checked_questions(questions, bytes);
    if questions_within(questions, bytes, budget) {
        assert(collected(results)->Ok_0 =~= asked);
    }
}

/// The part of a budget that each question answers to where it stands.
pub open spec fn questions_within(
    questions: Seq<AskedQuestionView>,
    state_bytes: nat,
    budget: DecisionBudget,
) -> bool {
    &&& forall|i: int| 0 <= i < questions.len() ==> question_within(#[trigger] questions[i], budget)
    &&& forall|i: int, k: int|
        0 <= k < i < questions.len() ==> (#[trigger] questions[k]).id != (#[trigger] questions[i]).id
    &&& forall|i: int|
        0 <= i < questions.len() ==> state_bytes + question_size(put(#[trigger] questions[i]))
            <= budget.max_state_plus_question_bytes
}

proof fn lemma_checked_questions(questions: Seq<AskedQuestionView>, bytes: nat)
    ensures
        collected(question_results(questions, bytes)) is Ok <==> questions_within(
            questions,
            bytes,
            published_budget(),
        ),
        collected(question_results(questions, bytes)) matches Ok(checked) ==> {
            &&& checked.len() == questions.len()
            &&& forall|i: int| 0 <= i < questions.len() ==> checked[i] == put(#[trigger] questions[i])
        },
{
    let budget = published_budget();
    let results = question_results(questions, bytes);
    if collected(results) is Ok {
        lemma_collected_items(results);
        assert forall|i: int| 0 <= i < questions.len() implies {
            &&& question_within(#[trigger] questions[i], budget)
            &&& collected(results)->Ok_0[i] == put(questions[i])
            &&& id_fault(questions, i) is None
            &&& bytes + question_size(put(questions[i])) <= budget.max_state_plus_question_bytes
        } by {
            assert(results[i] == checked_at(questions, i, bytes));
            lemma_checked_question(questions[i]);
        }
        assert forall|i: int, k: int| 0 <= k < i < questions.len() implies (#[trigger] questions[k]).id
            != (#[trigger] questions[i]).id by {
            assert(id_fault(questions, i) is None);
        }
    }
    if questions_within(questions, bytes, budget) {
        assert forall|i: int| 0 <= i < results.len() implies #[trigger] results[i] is Ok by {
            assert(question_within(questions[i], budget));
            lemma_checked_question(questions[i]);
            assert(!asked_before(questions, i, questions[i].id));
        }
        lemma_all_collected(results);
    }
}

proof fn lemma_checked_question(question: AskedQuestionView)
    ensures
        0 < question.id.len() && utf8_len(question.id) <= MAX_QUESTION_ID_BYTES ==> (checked_question(
            question,
        ) is Ok <==> question_within(question, published_budget())),
        checked_question(question) is Ok ==> checked_question(question)->Ok_0 == put(question),
{
    lemma_checked_kind(question.id, question.kind);
    if question.kind is Some {
        lemma_kind_within(question.kind->Some_0);
    }
}

proof fn lemma_kind_within(kind: QuestionKindView)
    ensures
        kind_within(kind, published_budget()) <==> kind_fits(kind),
{
    match kind {
        QuestionKindView::Choice { options } => {
            assert(kind_within(kind, published_budget()) ==> forall|i: int|
                0 <= i < options.len() ==> option_fits(#[trigger] options[i]));
            assert(kind_fits(kind) ==> forall|i: int|
                0 <= i < options.len() ==> option_fits(#[trigger] options[i]));
        },
        _ => {},
    }
}

/// The state plus one question's instructions stay under the vendor's ceiling of tokens, even at the worst
/// ratio of bytes to tokens.
pub proof fn law_state_plus_instructions_stays_under_the_ceiling(request: DecideRequestView, i: int)
    requires
        decision_of(request) is Ok,
        0 <= i < request.questions.len(),
    ensures
        (json_bytes(decision_of(request)->Ok_0.state) + json_bytes(
            decision_of(request)->Ok_0.questions[i].instructions,
        )) / (WORST_CASE_BYTES_PER_TOKEN as nat) < VENDOR_STATE_PLUS_QUESTION_TOKENS,
{
    law_published_budget_is_enforced(request);
    assert(question_within(request.questions[i], published_budget()));
}

/// The numbers that are published, which are the numbers that are enforced.
pub proof fn law_the_published_numbers()
    ensures
        published_budget().max_questions == 64,
        published_budget().max_question_id_bytes == 64,
        published_budget().max_instructions_bytes == 8_192,
        published_budget().max_state_bytes == 49_152,
        published_budget().max_choice_options == 255,
        published_budget().max_option_name_bytes == 64,
        published_budget().max_option_description_bytes == 1_024,
        published_budget().min_score_levels == 2,
        published_budget().max_score_levels == 10,
        published_budget().max_level_bytes == 1_024,
        published_budget().max_state_plus_question_bytes == 65_536,
        published_budget().max_request_bytes == 131_072,
{
}

/// A decision is the request: the state that was given, and every question in its place, under its own name, with its
/// own instructions and its own kind.
pub proof fn law_a_decision_is_the_request(request: DecideRequestView, i: int)
    requires
        decision_of(request) is Ok,
    ensures
        request.state matches SuppliedView::Read(state) && decision_of(request)->Ok_0.state == state,
        decision_of(request)->Ok_0.questions.len() == request.questions.len(),
        0 <= i < request.questions.len() ==> {
            let asked = request.questions[i];
            let question = decision_of(request)->Ok_0.questions[i];
            &&& question.id == asked.id
            &&& asked.instructions matches SuppliedView::Read(instructions) && question.instructions
                == instructions
            &&& asked.kind == Some(question.kind)
        },
{
    law_published_budget_is_enforced(request);
    if 0 <= i < request.questions.len() {
        assert(question_within(request.questions[i], published_budget()));
    }
}

/// Everything a question asks the model to read counts: its instructions, both criteria, every option's name and
/// description, every level.
pub proof fn law_everything_that_is_read_counts(
    question: QuestionView,
    options: Seq<ChoiceOptionView>,
    option: ChoiceOptionView,
    levels: Seq<Seq<char>>,
    level: Seq<char>,
    one: Seq<char>,
    other: Seq<char>,
)
    ensures
        question_size(question) == utf8_len(json_text(question.instructions)) + kind_size(question.kind),
        kind_size(QuestionKindView::Noul { when_true: None, when_false: None }) == 0,
        kind_size(QuestionKindView::Noul { when_true: Some(one), when_false: None }) == utf8_len(one),
        kind_size(QuestionKindView::Noul { when_true: None, when_false: Some(other) }) == utf8_len(other),
        kind_size(QuestionKindView::Noul { when_true: Some(one), when_false: Some(other) }) == utf8_len(one)
            + utf8_len(other),
        kind_size(QuestionKindView::Choice { options: options.push(option) }) == kind_size(
            QuestionKindView::Choice { options },
        ) + utf8_len(option.name) + (match option.description {
            Some(text) => utf8_len(text),
            None => 0,
        }),
        kind_size(QuestionKindView::Score { levels: levels.push(level) }) == kind_size(
            QuestionKindView::Score { levels },
        ) + utf8_len(level),
        kind_size(QuestionKindView::Choice { options: seq![] }) == 0,
        kind_size(QuestionKindView::Score { levels: seq![] }) == 0,
{
    let named = options.map_values(|option: ChoiceOptionView| option_bytes(option));
    let more = options.push(option).map_values(|option: ChoiceOptionView| option_bytes(option));
    assert(more.drop_last() =~= named);
    assert(more.last() == option_bytes(option));
    let sizes = levels.map_values(|level: Seq<char>| utf8_len(level));
    let grown = levels.push(level).map_values(|level: Seq<char>| utf8_len(level));
    assert(grown.drop_last() =~= sizes);
    assert(grown.last() == utf8_len(level));
}

/// So does every question of a request.
pub proof fn law_every_question_counts(questions: Seq<QuestionView>, question: QuestionView)
    ensures
        questions_size(questions.push(question)) == questions_size(questions) + question_size(question),
        questions_size(seq![]) == 0,
{
    let sizes = questions.map_values(|question: QuestionView| question_size(question));
    let grown = questions.push(question).map_values(|question: QuestionView| question_size(question));
    assert(grown.drop_last() =~= sizes);
    assert(grown.last() == question_size(question));
}

/// A sum grows by what is added to it.
pub proof fn law_a_sum_grows_by_what_is_added(sizes: Seq<nat>, size: nat)
    ensures
        total(sizes.push(size)) == total(sizes) + size,
        total(seq![]) == 0,
{
    assert(sizes.push(size).drop_last() =~= sizes);
}

/// A request that is refused is the caller's to change, and what is missing is never read as null.
pub proof fn law_a_refused_decision_is_the_callers_to_change(request: DecideRequestView)
    ensures
        decision_of(request) matches Err(error) ==> error.code == ErrorCode::InvalidArgument,
        request.state !is Read ==> decision_of(request) is Err,
        request.questions.len() == 0 || request.questions.len() > 64 ==> decision_of(request) is Err,
        json_of(SuppliedView::Unset) == Ok::<JsonView, Seq<char>>(JsonView::Null),
        forall|why: Seq<char>| #[trigger]
            json_of(SuppliedView::Unreadable(why)) == Err::<JsonView, Seq<char>>(
                "could not be read as JSON: "@ + why,
            ),
{
    if 0 < request.questions.len() <= MAX_QUESTIONS && json_of(request.state) is Ok {
        let state = json_of(request.state)->Ok_0;
        let results = question_results(request.questions, json_bytes(state));
        if collected(results) is Err {
            lemma_collected_failure(results);
            let i = choose|i: int|
                0 <= i < results.len() && #[trigger] results[i] == Err::<QuestionView, RpcErrorView>(
                    collected(results)->Err_0,
                );
            assert(results[i] == checked_at(request.questions, i, json_bytes(state)));
            lemma_kind_fault_is_invalid(request.questions[i].id, request.questions[i].kind);
        }
    }
}

proof fn lemma_kind_fault_is_invalid(id: Seq<char>, kind: Option<QuestionKindView>)
    ensures
        checked_kind(id, kind) matches Err(error) ==> error.code == ErrorCode::InvalidArgument,
{
    match kind {
        Some(QuestionKindView::Choice { options }) => {
            let results = option_results(id, options);
            if collected(results) is Err {
                lemma_collected_failure(results);
                let i = choose|i: int|
                    0 <= i < results.len() && #[trigger] results[i] == Err::<ChoiceOptionView, RpcErrorView>(
                        collected(results)->Err_0,
                    );
                assert(results[i] == checked_option(id, options, i));
            }
        },
        Some(QuestionKindView::Score { levels }) => {
            let results = level_results(id, levels);
            if collected(results) is Err {
                lemma_collected_failure(results);
                let i = choose|i: int|
                    0 <= i < results.len() && #[trigger] results[i] == Err::<Seq<char>, RpcErrorView>(
                        collected(results)->Err_0,
                    );
                assert(results[i] == bounded_text(
                    id,
                    "level "@ + dec(i as nat),
                    levels[i],
                    MAX_LEVEL_BYTES as nat,
                ));
            }
        },
        _ => {},
    }
}

/// What is told of a request that asks nothing, asks too much, or gives no state that reads.
pub proof fn law_what_is_told_of_a_request(request: DecideRequestView, why: Seq<char>)
    ensures
        request.questions.len() == 0 ==> decision_of(request) == Err::<DecisionView, RpcErrorView>(
            invalid("questions must hold at least one question"@),
        ),
        request.questions.len() > 64 ==> decision_of(request) == Err::<DecisionView, RpcErrorView>(
            invalid("questions must hold at most "@ + dec(64) + " questions"@),
        ),
        0 < request.questions.len() <= 64 && (request.state is Unset || request.state == SuppliedView::Read(
            JsonView::Null,
        )) ==> decision_of(request) == Err::<DecisionView, RpcErrorView>(invalid("state"@ + " must be set"@)),
        0 < request.questions.len() <= 64 && request.state == SuppliedView::Unreadable(why) ==> decision_of(request)
            == Err::<DecisionView, RpcErrorView>(invalid("state "@ + ("could not be read as JSON: "@ + why))),
        0 < request.questions.len() <= 64 ==> (request.state matches SuppliedView::Read(state) ==> (state
            != JsonView::Null && utf8_len(json_text(state)) > 49_152 ==> decision_of(request) == Err::<
            DecisionView,
            RpcErrorView,
        >(
            invalid(
                "state"@ + " is "@ + dec(utf8_len(json_text(state))) + " bytes of JSON, over the "@ + dec(49_152)
                    + " byte limit"@,
            ),
        ))),
{
}

/// What is told of a question where it stands: its name first, then its instructions, then its kind, and last its weight.
pub proof fn law_what_is_told_of_a_question(questions: Seq<AskedQuestionView>, i: int, state_bytes: nat)
    requires
        0 <= i < questions.len(),
    ensures
        questions[i].id.len() == 0 ==> checked_at(questions, i, state_bytes) == Err::<QuestionView, RpcErrorView>(
            invalid("every question needs an id"@),
        ),
        questions[i].id.len() > 0 && utf8_len(questions[i].id) > 64 ==> checked_at(questions, i, state_bytes)
            == Err::<QuestionView, RpcErrorView>(
            invalid("question id "@ + questions[i].id + " is over the "@ + dec(64) + " byte limit"@),
        ),
        questions[i].id.len() > 0 && utf8_len(questions[i].id) <= 64 && (exists|k: int|
            0 <= k < i && (#[trigger] questions[k]).id == questions[i].id) ==> checked_at(
            questions,
            i,
            state_bytes,
        ) == Err::<QuestionView, RpcErrorView>(
            invalid("question id "@ + questions[i].id + " is asked twice"@),
        ),
        id_fault(questions, i) is None <==> {
            &&& 0 < questions[i].id.len()
            &&& utf8_len(questions[i].id) <= 64
            &&& forall|k: int| 0 <= k < i ==> (#[trigger] questions[k]).id != questions[i].id
        },
        id_fault(questions, i) is None && questions[i].instructions is Unset ==> checked_at(
            questions,
            i,
            state_bytes,
        ) == Err::<QuestionView, RpcErrorView>(
            invalid("the instructions of question "@ + questions[i].id + " must be set"@),
        ),
{
}

/// What is told of a kind: that there is none, too few or too many of what it lists, or which of them is at fault.
pub proof fn law_what_is_told_of_a_kind(
    id: Seq<char>,
    options: Seq<ChoiceOptionView>,
    levels: Seq<Seq<char>>,
    when_true: Seq<char>,
)
    ensures
        checked_kind(id, None) == Err::<QuestionKindView, RpcErrorView>(
            invalid("question "@ + id + " names no kind"@),
        ),
        levels.len() < 2 ==> checked_kind(id, Some(QuestionKindView::Score { levels })) == Err::<
            QuestionKindView,
            RpcErrorView,
        >(invalid("score question "@ + id + " needs at least "@ + dec(2) + " levels"@)),
        levels.len() > 10 ==> checked_kind(id, Some(QuestionKindView::Score { levels })) == Err::<
            QuestionKindView,
            RpcErrorView,
        >(
            invalid(
                "score question "@ + id + " names more than the "@ + dec(10) + " levels this class takes"@,
            ),
        ),
        utf8_len(when_true) > 1_024 ==> checked_kind(
            id,
            Some(QuestionKindView::Noul { when_true: Some(when_true), when_false: None }),
        ) == Err::<QuestionKindView, RpcErrorView>(
            invalid(
                "the whenTrue criterion"@ + " of question "@ + id + " is "@ + dec(utf8_len(when_true))
                    + " bytes, over the "@ + dec(1_024) + " byte limit"@,
            ),
        ),
        utf8_len(when_true) > 1_024 ==> checked_kind(
            id,
            Some(QuestionKindView::Noul { when_true: None, when_false: Some(when_true) }),
        ) == Err::<QuestionKindView, RpcErrorView>(
            invalid(
                "the whenFalse criterion"@ + " of question "@ + id + " is "@ + dec(utf8_len(when_true))
                    + " bytes, over the "@ + dec(1_024) + " byte limit"@,
            ),
        ),
        checked_kind(id, Some(QuestionKindView::Choice { options })) is Ok ==> 0 < options.len() <= 255,
        checked_kind(id, Some(QuestionKindView::Score { levels })) is Ok ==> 2 <= levels.len() <= 10,
{
    lemma_checked_kind(id, Some(QuestionKindView::Choice { options }));
    lemma_checked_kind(id, Some(QuestionKindView::Score { levels }));
}

/// What is told of an option: that it has no name, that its name or its description is too long, or that it was offered
/// before.
pub proof fn law_what_is_told_of_an_option(id: Seq<char>, options: Seq<ChoiceOptionView>, i: int)
    requires
        0 <= i < options.len(),
    ensures
        options[i].name.len() == 0 ==> checked_option(id, options, i) == Err::<ChoiceOptionView, RpcErrorView>(
            invalid("every option of choice question "@ + id + " needs a name"@),
        ),
        options[i].name.len() > 0 && utf8_len(options[i].name) <= 64 && (exists|k: int|
            0 <= k < i && (#[trigger] options[k]).name == options[i].name) ==> checked_option(id, options, i)
            == Err::<ChoiceOptionView, RpcErrorView>(
            invalid("option "@ + options[i].name + " of choice question "@ + id + " is offered twice"@),
        ),
        checked_option(id, options, i) matches Ok(option) ==> option == options[i],
        checked_option(id, options, i) is Ok <==> {
            &&& 0 < options[i].name.len()
            &&& utf8_len(options[i].name) <= 64
            &&& forall|k: int| 0 <= k < i ==> (#[trigger] options[k]).name != options[i].name
            &&& options[i].description matches Some(text) ==> utf8_len(text) <= 1_024
        },
{
}

/// What is told of a request that is too heavy: the sizes, and the limit they are over.
pub proof fn law_what_is_told_of_too_much(state_bytes: nat, question: QuestionView, questions: Seq<QuestionView>)
    ensures
        state_bytes + question_size(question) > 65_536 ==> too_heavy(state_bytes, question) == Some(
            invalid(
                "state is "@ + dec(state_bytes) + " bytes and question "@ + question.id + " is "@ + dec(
                    question_size(question),
                ) + " bytes; together they are "@ + dec(state_bytes + question_size(question))
                    + " bytes, over the "@ + dec(65_536)
                    + " byte limit the vendor holds state plus one question to"@,
            ),
        ),
        state_bytes + question_size(question) <= 65_536 ==> too_heavy(state_bytes, question) is None,
        state_bytes + questions_size(questions) <= 131_072 ==> too_heavy_together(state_bytes, questions) is None,
        state_bytes + questions_size(questions) > 131_072 ==> too_heavy_together(state_bytes, questions) == Some(
            invalid(
                "state is "@ + dec(state_bytes) + " bytes and the "@ + dec(questions.len())
                    + " questions together are "@ + dec(questions_size(questions))
                    + " bytes; the whole request is "@ + dec(state_bytes + questions_size(questions))
                    + " bytes, over the "@ + dec(131_072)
                    + " byte limit the vendor holds one Decide call to"@,
            ),
        ),
{
}

/// What is told of a list of options that is empty or too long, and of a level, a name or a description that is.
pub proof fn law_what_is_told_of_a_list(
    id: Seq<char>,
    options: Seq<ChoiceOptionView>,
    levels: Seq<Seq<char>>,
    i: int,
)
    ensures
        options.len() == 0 ==> checked_options(id, options) == Err::<QuestionKindView, RpcErrorView>(
            invalid("choice question "@ + id + " names no options"@),
        ),
        options.len() > 255 ==> checked_options(id, options) == Err::<QuestionKindView, RpcErrorView>(
            invalid(
                "choice question "@ + id + " names more than the "@ + dec(255) + " options this class takes"@,
            ),
        ),
        0 <= i < levels.len() && utf8_len(levels[i]) > 1_024 ==> level_results(id, levels)[i] == Err::<
            Seq<char>,
            RpcErrorView,
        >(
            invalid(
                "level "@ + dec(i as nat) + " of question "@ + id + " is "@ + dec(utf8_len(levels[i]))
                    + " bytes, over the "@ + dec(1_024) + " byte limit"@,
            ),
        ),
        0 <= i < options.len() && 0 < options[i].name.len() && utf8_len(options[i].name) > 64 ==> checked_option(
            id,
            options,
            i,
        ) == Err::<ChoiceOptionView, RpcErrorView>(
            invalid(
                "the name of option "@ + dec(i as nat) + " of question "@ + id + " is "@ + dec(
                    utf8_len(options[i].name),
                ) + " bytes, over the "@ + dec(64) + " byte limit"@,
            ),
        ),
        0 <= i < options.len() && 0 < options[i].name.len() && utf8_len(options[i].name) <= 64 && (forall|k: int|
            0 <= k < i ==> (#[trigger] options[k]).name != options[i].name) ==> (options[i].description matches Some(
            text,
        ) ==> (utf8_len(text) > 1_024 ==> checked_option(id, options, i) == Err::<ChoiceOptionView, RpcErrorView>(
            invalid(
                "the description of option "@ + options[i].name + " of question "@ + id + " is "@ + dec(
                    utf8_len(text),
                ) + " bytes, over the "@ + dec(1_024) + " byte limit"@,
            ),
        ))),
{
}

} // verus!
