//! Runs a prompt on its tier's primary model and falls back to the backup vendor when the failure is worth
//! retrying.

use vstd::prelude::*;

use crate::collect::outcome;
use crate::llm_router::provider::{
    CallError, CallErrorView, Completion, CompletionView, QualityTier,
};
use crate::llm_router::tiers::{TierModels, Tiers};
use crate::text::cat2;

verus! {

/// The pause before the backup is asked, in milliseconds.
pub const PAUSE_BEFORE_BACKUP: u64 = 250;

#[derive(Debug, PartialEq, Eq)]
pub struct Answer {
    pub completion: Completion,
    pub model_used: String,
    pub used_backup: bool,
}

#[derive(Debug, PartialEq, Eq)]
pub struct Failed {
    pub error: CallError,
    pub model_used: String,
    pub used_backup: bool,
}

pub struct AnswerView {
    pub completion: CompletionView,
    pub model_used: Seq<char>,
    pub used_backup: bool,
}

pub struct FailedView {
    pub error: CallErrorView,
    pub model_used: Seq<char>,
    pub used_backup: bool,
}

impl DeepView for Answer {
    type V = AnswerView;

    open spec fn deep_view(&self) -> AnswerView {
        AnswerView {
            completion: self.completion.deep_view(),
            model_used: self.model_used@,
            used_backup: self.used_backup,
        }
    }
}

impl DeepView for Failed {
    type V = FailedView;

    open spec fn deep_view(&self) -> FailedView {
        FailedView {
            error: self.error.deep_view(),
            model_used: self.model_used@,
            used_backup: self.used_backup,
        }
    }
}

/// The name of a tier.
pub open spec fn tier_name_of(tier: QualityTier) -> Seq<char> {
    match tier {
        QualityTier::Unspecified => "Unspecified"@,
        QualityTier::Low => "Low"@,
        QualityTier::Medium => "Medium"@,
        QualityTier::High => "High"@,
    }
}

pub fn tier_name(tier: QualityTier) -> (name: &'static str)
    ensures
        name@ == tier_name_of(tier),
{
    match tier {
        QualityTier::Unspecified => "Unspecified",
        QualityTier::Low => "Low",
        QualityTier::Medium => "Medium",
        QualityTier::High => "High",
    }
}

/// A call on its way: the two models of its tier, and which of them is being asked.
#[derive(Debug)]
pub struct Route {
    pub primary: String,
    pub backup: String,
    pub on_backup: bool,
}

pub struct RouteView {
    pub primary: Seq<char>,
    pub backup: Seq<char>,
    pub on_backup: bool,
}

impl DeepView for Route {
    type V = RouteView;

    open spec fn deep_view(&self) -> RouteView {
        RouteView { primary: self.primary@, backup: self.backup@, on_backup: self.on_backup }
    }
}

impl RouteView {
    /// The model that is being asked.
    pub open spec fn asked(self) -> Seq<char> {
        if self.on_backup {
            self.backup
        } else {
            self.primary
        }
    }
}

/// What to do after a model answered.
#[derive(Debug)]
pub enum Step {
    Answered(Answer),
    GaveUp(Failed),
    /// Pause, then ask the backup.
    AskBackup(Route),
}

pub enum StepView {
    Answered(AnswerView),
    GaveUp(FailedView),
    AskBackup(RouteView),
}

impl DeepView for Step {
    type V = StepView;

    open spec fn deep_view(&self) -> StepView {
        match self {
            Step::Answered(answer) => StepView::Answered(answer.deep_view()),
            Step::GaveUp(failed) => StepView::GaveUp(failed.deep_view()),
            Step::AskBackup(route) => StepView::AskBackup(route.deep_view()),
        }
    }
}

/// Where a call starts: at the primary of its tier, or nowhere where no models serve the tier.
pub open spec fn start_of(models: Option<TierModels>, tier: QualityTier) -> Result<
    RouteView,
    FailedView,
> {
    match models {
        None => Err(
            FailedView {
                error: CallErrorView::Final(
                    "no models are configured for tier "@ + tier_name_of(tier),
                ),
                model_used: seq![],
                used_backup: false,
            },
        ),
        Some(models) => Ok(
            RouteView { primary: models.primary@, backup: models.backup@, on_backup: false },
        ),
    }
}

/// What comes after an answer: it is handed back with the model that gave it; a failure worth retrying moves
/// from the primary to the backup; any other failure, and any failure of the backup, is reported as it came.
pub open spec fn step_of(route: RouteView, answer: Result<CompletionView, CallErrorView>) -> StepView {
    match answer {
        Ok(completion) => StepView::Answered(
            AnswerView { completion, model_used: route.asked(), used_backup: route.on_backup },
        ),
        Err(error) => if error is WorthRetrying && !route.on_backup {
            StepView::AskBackup(RouteView { on_backup: true, ..route })
        } else {
            StepView::GaveUp(
                FailedView { error, model_used: route.asked(), used_backup: route.on_backup },
            )
        },
    }
}

impl Route {
    pub fn start(tiers: &Tiers, tier: QualityTier) -> (started: Result<Route, Failed>)
        ensures
            outcome(started) == start_of(tiers.spec_models(tier), tier),
    {
        match tiers.models(tier) {
            None => {
                let none: String = String::new();
                assert(none@ =~= seq![]);
                Err(
                    Failed {
                        error: CallError::Final(
                            cat2("no models are configured for tier ", tier_name(tier)),
                        ),
                        model_used: none,
                        used_backup: false,
                    },
                )
            },
            Some(models) => Ok(
                Route {
                    primary: models.primary.clone(),
                    backup: models.backup.clone(),
                    on_backup: false,
                },
            ),
        }
    }

    pub fn model(&self) -> (model: &str)
        ensures
            model@ == self.deep_view().asked(),
    {
        if self.on_backup {
            self.backup.as_str()
        } else {
            self.primary.as_str()
        }
    }

    pub fn answered(self, answer: Result<Completion, CallError>) -> (step: Step)
        ensures
            step.deep_view() == step_of(self.deep_view(), outcome(answer)),
    {
        match answer {
            Ok(completion) => {
                let model_used: String = self.model().to_owned();
                Step::Answered(Answer { completion, model_used, used_backup: self.on_backup })
            },
            Err(error) => {
                let retry: bool = match &error {
                    CallError::WorthRetrying(_) => true,
                    _ => false,
                };
                if retry && !self.on_backup {
                    Step::AskBackup(
                        Route { primary: self.primary, backup: self.backup, on_backup: true },
                    )
                } else {
                    let model_used: String = self.model().to_owned();
                    Step::GaveUp(Failed { error, model_used, used_backup: self.on_backup })
                }
            },
        }
    }
}

/// The backup is asked exactly where the primary failed in a way worth retrying, and at most once: a request
/// that one vendor read and refused never reaches the other, and a call ends after two models at the latest.
pub proof fn law_the_backup_is_asked_only_where_a_retry_may_help(
    route: RouteView,
    answer: Result<CompletionView, CallErrorView>,
)
    ensures
        step_of(route, answer) is AskBackup <==> (!route.on_backup && (answer matches Err(error)
            && error is WorthRetrying)),
        step_of(route, answer) matches StepView::AskBackup(next) ==> next.on_backup && next.asked()
            == route.backup,
        route.on_backup ==> step_of(route, answer) !is AskBackup,
{
}

/// A call that ran its course: it started, each answer was followed by the step it calls for, and it ended.
pub open spec fn runs_to(
    models: Option<TierModels>,
    tier: QualityTier,
    primary: Result<CompletionView, CallErrorView>,
    backup: Result<CompletionView, CallErrorView>,
    end: StepView,
) -> bool {
    match start_of(models, tier) {
        Err(failed) => end == StepView::GaveUp(failed),
        Ok(route) => match step_of(route, primary) {
            StepView::AskBackup(next) => end == step_of(next, backup),
            step => end == step,
        },
    }
}

/// What a call comes to, given what the primary of its tier answers and what the backup does: a working primary
/// decides alone, a primary that is refused for good is reported, and where the backup was asked its answer or
/// its failure is what is reported. A tier that no models serve asks none.
pub proof fn law_what_a_call_comes_to(
    models: Option<TierModels>,
    tier: QualityTier,
    primary: Result<CompletionView, CallErrorView>,
    backup: Result<CompletionView, CallErrorView>,
    end: StepView,
)
    requires
        runs_to(models, tier, primary, backup, end),
    ensures
        models is None ==> end == StepView::GaveUp(start_of(models, tier)->Err_0),
        models matches Some(models) ==> end == (match (primary, backup) {
            (Ok(completion), _) => StepView::Answered(
                AnswerView { completion, model_used: models.primary@, used_backup: false },
            ),
            (Err(CallErrorView::WorthRetrying(_)), Ok(completion)) => StepView::Answered(
                AnswerView { completion, model_used: models.backup@, used_backup: true },
            ),
            (Err(CallErrorView::WorthRetrying(_)), Err(error)) => StepView::GaveUp(
                FailedView { error, model_used: models.backup@, used_backup: true },
            ),
            (Err(error), _) => StepView::GaveUp(
                FailedView { error, model_used: models.primary@, used_backup: false },
            ),
        }),
{
}

/// A call starts at the primary of its tier with the backup in reserve, and where no models serve the tier it ends with
/// an error that names the tier.
pub proof fn law_a_call_starts_at_the_primary(models: TierModels, tier: QualityTier)
    ensures
        start_of(Some(models), tier) matches Ok(route) && route.primary == models.primary@ && route.backup
            == models.backup@ && !route.on_backup && route.asked() == models.primary@,
        start_of(None, tier) matches Err(failed) && failed.error == CallErrorView::Final(
            "no models are configured for tier "@ + tier_name_of(tier),
        ) && failed.model_used.len() == 0 && !failed.used_backup,
        tier_name_of(QualityTier::Low) == "Low"@,
        tier_name_of(QualityTier::Medium) == "Medium"@,
        tier_name_of(QualityTier::High) == "High"@,
        tier_name_of(QualityTier::Unspecified) == "Unspecified"@,
{
}

/// An answer is handed back as it came, under the name of the model that gave it; so is a failure.
pub proof fn law_an_answer_is_handed_back_with_its_model(
    route: RouteView,
    completion: CompletionView,
    error: CallErrorView,
)
    ensures
        step_of(route, Ok(completion)) matches StepView::Answered(answer) && answer.completion == completion
            && answer.used_backup == route.on_backup && answer.model_used == (if route.on_backup {
            route.backup
        } else {
            route.primary
        }),
        step_of(route, Err(error)) matches StepView::GaveUp(failed) ==> failed.error == error
            && failed.used_backup == route.on_backup && failed.model_used == (if route.on_backup {
            route.backup
        } else {
            route.primary
        }),
        step_of(route, Err(error)) matches StepView::AskBackup(next) ==> next.primary == route.primary
            && next.backup == route.backup && next.on_backup && !route.on_backup && error is WorthRetrying,
{
}

/// The view of a route shows each of its parts under that part's own name.
pub proof fn law_the_view_of_a_route_is_its_own(route: Route)
    ensures
        route.deep_view().primary == route.primary@,
        route.deep_view().backup == route.backup@,
        route.deep_view().on_backup == route.on_backup,
{
}

} // verus!
