//! What a System One integration is asked and answers: a state and typed questions in, typed answers out.

use vstd::prelude::*;

use crate::json::{Json, JsonView, Number};
use crate::llm_router::provider::{CallError, CallErrorView};

verus! {

#[derive(Debug, PartialEq, Eq)]
pub struct ChoiceOption {
    pub name: String,
    pub description: Option<String>,
}

/// The order of `levels` is the scale itself, lowest first; the order of `options` is the caller's own.
#[derive(Debug, PartialEq, Eq)]
pub enum QuestionKind {
    Noul { when_true: Option<String>, when_false: Option<String> },
    Choice { options: Vec<ChoiceOption> },
    Score { levels: Vec<String> },
}

#[derive(Debug, PartialEq, Eq)]
pub struct Question {
    pub id: String,
    pub instructions: Json,
    pub kind: QuestionKind,
}

#[derive(Debug, PartialEq, Eq)]
pub struct Decision {
    pub state: Json,
    pub questions: Vec<Question>,
}

#[derive(Debug, PartialEq, Eq)]
pub struct NoulAnswer {
    pub noul: Number,
}

#[derive(Debug, PartialEq, Eq)]
pub struct ChoiceAnswer {
    pub choice: String,
    pub probabilities: Vec<(String, Number)>,
    pub confidence: Number,
}

/// The legend and the probabilities hold each level once.
#[derive(Debug, PartialEq, Eq)]
pub struct ScoreAnswer {
    pub score: Number,
    pub legend: Vec<(u32, String)>,
    pub probabilities: Vec<(u32, Number)>,
    pub confidence: Number,
}

#[derive(Debug, PartialEq, Eq)]
pub enum Given {
    Noul(NoulAnswer),
    Choice(ChoiceAnswer),
    Score(ScoreAnswer),
}

#[derive(Debug, PartialEq, Eq)]
pub struct Answer {
    pub id: String,
    pub answer: Given,
}

/// What a provider decided, with the request it was sent and the reply it gave.
#[derive(Debug, PartialEq, Eq)]
pub struct Verdict {
    pub model_used: String,
    pub answers: Vec<Answer>,
    pub tokens_in: i32,
    pub tokens_out: i32,
    pub sent: Json,
    pub reply: Json,
}

#[derive(Debug, PartialEq, Eq)]
pub struct NotDecided {
    pub sent: Json,
    pub error: CallError,
}

#[derive(Debug, PartialEq, Eq)]
pub struct ModelCard {
    pub name: String,
    pub description: String,
    pub release_date: String,
}

#[verifier::ext_equal]
pub struct ChoiceOptionView {
    pub name: Seq<char>,
    pub description: Option<Seq<char>>,
}

#[verifier::ext_equal]
pub enum QuestionKindView {
    Noul { when_true: Option<Seq<char>>, when_false: Option<Seq<char>> },
    Choice { options: Seq<ChoiceOptionView> },
    Score { levels: Seq<Seq<char>> },
}

#[verifier::ext_equal]
pub struct QuestionView {
    pub id: Seq<char>,
    pub instructions: JsonView,
    pub kind: QuestionKindView,
}

#[verifier::ext_equal]
pub struct DecisionView {
    pub state: JsonView,
    pub questions: Seq<QuestionView>,
}

#[verifier::ext_equal]
pub enum GivenView {
    Noul { noul: Number },
    Choice { choice: Seq<char>, weights: Seq<(Seq<char>, Number)>, confidence: Number },
    Score {
        score: Number,
        legend: Seq<(u32, Seq<char>)>,
        probabilities: Seq<(u32, Number)>,
        confidence: Number,
    },
}

#[verifier::ext_equal]
pub struct AnswerView {
    pub id: Seq<char>,
    pub answer: GivenView,
}

#[verifier::ext_equal]
pub struct VerdictView {
    pub model_used: Seq<char>,
    pub answers: Seq<AnswerView>,
    pub tokens_in: i32,
    pub tokens_out: i32,
    pub sent: JsonView,
    pub reply: JsonView,
}

pub struct NotDecidedView {
    pub sent: JsonView,
    pub error: CallErrorView,
}

pub struct ModelCardView {
    pub name: Seq<char>,
    pub description: Seq<char>,
    pub release_date: Seq<char>,
}

impl DeepView for ChoiceOption {
    type V = ChoiceOptionView;

    open spec fn deep_view(&self) -> ChoiceOptionView {
        ChoiceOptionView { name: self.name@, description: self.description.deep_view() }
    }
}

impl DeepView for QuestionKind {
    type V = QuestionKindView;

    open spec fn deep_view(&self) -> QuestionKindView {
        match self {
            QuestionKind::Noul { when_true, when_false } => QuestionKindView::Noul {
                when_true: when_true.deep_view(),
                when_false: when_false.deep_view(),
            },
            QuestionKind::Choice { options } => QuestionKindView::Choice {
                options: options.deep_view(),
            },
            QuestionKind::Score { levels } => QuestionKindView::Score {
                levels: levels.deep_view(),
            },
        }
    }
}

impl DeepView for Question {
    type V = QuestionView;

    open spec fn deep_view(&self) -> QuestionView {
        QuestionView {
            id: self.id@,
            instructions: self.instructions.deep_view(),
            kind: self.kind.deep_view(),
        }
    }
}

impl DeepView for Decision {
    type V = DecisionView;

    open spec fn deep_view(&self) -> DecisionView {
        DecisionView { state: self.state.deep_view(), questions: self.questions.deep_view() }
    }
}

impl DeepView for Given {
    type V = GivenView;

    open spec fn deep_view(&self) -> GivenView {
        match self {
            Given::Noul(given) => GivenView::Noul { noul: given.noul },
            Given::Choice(given) => GivenView::Choice {
                choice: given.choice@,
                weights: given.probabilities.deep_view(),
                confidence: given.confidence,
            },
            Given::Score(given) => GivenView::Score {
                score: given.score,
                legend: given.legend.deep_view(),
                probabilities: given.probabilities.deep_view(),
                confidence: given.confidence,
            },
        }
    }
}

impl DeepView for Answer {
    type V = AnswerView;

    open spec fn deep_view(&self) -> AnswerView {
        AnswerView { id: self.id@, answer: self.answer.deep_view() }
    }
}

impl DeepView for Verdict {
    type V = VerdictView;

    open spec fn deep_view(&self) -> VerdictView {
        VerdictView {
            model_used: self.model_used@,
            answers: self.answers.deep_view(),
            tokens_in: self.tokens_in,
            tokens_out: self.tokens_out,
            sent: self.sent.deep_view(),
            reply: self.reply.deep_view(),
        }
    }
}

impl DeepView for NotDecided {
    type V = NotDecidedView;

    open spec fn deep_view(&self) -> NotDecidedView {
        NotDecidedView { sent: self.sent.deep_view(), error: self.error.deep_view() }
    }
}

impl DeepView for ModelCard {
    type V = ModelCardView;

    open spec fn deep_view(&self) -> ModelCardView {
        ModelCardView {
            name: self.name@,
            description: self.description@,
            release_date: self.release_date@,
        }
    }
}

/// The view of a verdict shows each of its parts under that part's own name.
pub proof fn law_the_view_of_a_verdict_is_its_own(verdict: Verdict)
    ensures
        verdict.deep_view().model_used == verdict.model_used@,
        verdict.deep_view().answers == verdict.answers.deep_view(),
        verdict.deep_view().tokens_in == verdict.tokens_in,
        verdict.deep_view().tokens_out == verdict.tokens_out,
        verdict.deep_view().sent == verdict.sent.deep_view(),
        verdict.deep_view().reply == verdict.reply.deep_view(),
{
}

/// The view of a model card shows each of its parts under that part's own name.
pub proof fn law_the_view_of_a_model_card_is_its_own(model_card: ModelCard)
    ensures
        model_card.deep_view().name == model_card.name@,
        model_card.deep_view().description == model_card.description@,
        model_card.deep_view().release_date == model_card.release_date@,
{
}

/// The view of a kind shows what a yes and a no mean in their own places, and options and levels in their order.
pub proof fn law_the_view_of_a_kind_is_its_own(kind: QuestionKind)
    ensures
        kind matches QuestionKind::Noul { when_true, when_false } ==> (kind.deep_view() matches QuestionKindView::Noul {
            when_true: yes,
            when_false: no,
        } && yes == when_true.deep_view() && no == when_false.deep_view()),
        kind matches QuestionKind::Choice { options } ==> (kind.deep_view() matches QuestionKindView::Choice {
            options: shown,
        } && shown.len() == options@.len() && forall|i: int|
            0 <= i < shown.len() ==> (#[trigger] shown[i]).name == options@[i].name@ && shown[i].description
                == options@[i].description.deep_view()),
        kind matches QuestionKind::Score { levels } ==> (kind.deep_view() matches QuestionKindView::Score {
            levels: shown,
        } && shown.len() == levels@.len() && forall|i: int|
            0 <= i < shown.len() ==> #[trigger] shown[i] == levels@[i]@),
{
}

} // verus!
