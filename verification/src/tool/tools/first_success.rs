//! Asking several sources the same question at once and taking the first answer.
//!
//! The sources are public services that fail for a moment far more often than for good, so when all of them fail
//! the whole race is run once more. Whoever runs the race starts the sources it is told to, each no longer than
//! [`PER_SOURCE_TIMEOUT`], and reports each as it finishes.

use vstd::prelude::*;

use crate::collect::keep;
use crate::text::{
    cat2, cat3, dec, decimal, join, joined_with, law_every_part_stands_in_the_joined_text, stands_at,
};
use crate::tool::race::{Fault, FaultView};

verus! {

/// How long one source may take, in seconds.
pub const PER_SOURCE_TIMEOUT: u64 = 6;

/// How long to wait before the race is run again, in milliseconds.
pub const RETRY_DELAY: u64 = 500;

/// A race under way.
#[derive(Debug)]
pub struct FirstSuccess {
    names: Vec<String>,
    retried: bool,
    running: Vec<usize>,
    errors: Vec<String>,
}

/// A race as mathematics: the sources by name, whether this is its second run, the sources that have not finished
/// and what the others said.
#[verifier::ext_equal]
pub struct FirstSuccessView {
    pub names: Seq<Seq<char>>,
    pub retried: bool,
    pub running: Seq<usize>,
    pub errors: Seq<Seq<char>>,
}

/// What to do after a source finished.
#[derive(Debug)]
pub enum Next<T> {
    /// Take this answer and drop the sources that still run.
    Won(T),
    /// Wait for the next source to finish.
    Wait(FirstSuccess),
    /// Every source failed for the first time: wait for [`RETRY_DELAY`] and start all of them again.
    Retry(FirstSuccess),
    /// Every source failed twice.
    Failed(String),
}

#[verifier::ext_equal]
#[verifier::reject_recursive_types(T)]
pub enum NextView<T> {
    Won(T),
    Wait(FirstSuccessView),
    Retry(FirstSuccessView),
    Failed(Seq<char>),
}

impl View for FirstSuccess {
    type V = FirstSuccessView;

    closed spec fn view(&self) -> FirstSuccessView {
        FirstSuccessView {
            names: self.names.deep_view(),
            retried: self.retried,
            running: self.running@,
            errors: self.errors.deep_view(),
        }
    }
}

impl<T> View for Next<T> {
    type V = NextView<T>;

    open spec fn view(&self) -> NextView<T> {
        match self {
            Next::Won(value) => NextView::Won(*value),
            Next::Wait(race) => NextView::Wait(race@),
            Next::Retry(race) => NextView::Retry(race@),
            Next::Failed(message) => NextView::Failed(message@),
        }
    }
}

pub open spec fn all_of(n: nat) -> Seq<usize> {
    Seq::new(n, |i: int| i as usize)
}

/// A run of the race at its start: every source runs.
pub open spec fn run_started(names: Seq<Seq<char>>, retried: bool) -> FirstSuccessView {
    FirstSuccessView { names, retried, running: all_of(names.len()), errors: seq![] }
}

/// A failure as it is told, with the name of the source.
pub open spec fn told(name: Seq<char>, fault: FaultView) -> Seq<char> {
    match fault {
        FaultView::Said(reason) => name + ": "@ + reason,
        FaultView::TimedOut => name + ": timed out after "@ + (dec(PER_SOURCE_TIMEOUT as nat) + "s"@),
    }
}

impl FirstSuccessView {
    /// Something runs, every source runs or has failed, and no source is counted twice.
    pub open spec fn well_formed(self) -> bool {
        &&& 0 < self.running.len()
        &&& self.names.len() <= usize::MAX
        &&& self.running.no_duplicates()
        &&& forall|i: int| 0 <= i < self.running.len() ==> (#[trigger] self.running[i]) < self.names.len()
        &&& self.running.len() + self.errors.len() == self.names.len()
    }

    /// How many more failures the race bears.
    pub open spec fn bears(self) -> nat {
        self.running.len() + if self.retried {
            0
        } else {
            self.names.len()
        }
    }

    /// The race with one source's failure noted.
    pub open spec fn noted(self, source: usize, fault: FaultView) -> FirstSuccessView {
        FirstSuccessView {
            running: self.running.remove_value(source),
            errors: self.errors.push(told(self.names[source as int], fault)),
            ..self
        }
    }

    /// What follows when a source finishes.
    pub open spec fn after<T>(self, source: usize, result: Result<T, FaultView>) -> NextView<T> {
        match result {
            Ok(value) => NextView::Won(value),
            Err(fault) => {
                let noted = self.noted(source, fault);
                if noted.running.len() > 0 {
                    NextView::Wait(noted)
                } else if !self.retried {
                    NextView::Retry(run_started(self.names, true))
                } else {
                    NextView::Failed("all sources failed: "@ + joined_with(noted.errors, "; "@))
                }
            },
        }
    }
}

/// Removing a running source leaves the others.
proof fn lemma_removed(running: Seq<usize>, source: usize)
    requires
        running.contains(source),
        running.no_duplicates(),
    ensures
        running.remove_value(source).len() == running.len() - 1,
        running.remove_value(source).no_duplicates(),
        !running.remove_value(source).contains(source),
        forall|k: int|
            0 <= k < running.remove_value(source).len() ==> running.contains(
                #[trigger] running.remove_value(source)[k],
            ),
{
    let i = running.index_of_first(source)->Some_0;
    running.index_of_first_ensures(source);
    let left = running.remove(i);
    assert(running.remove_value(source) =~= left);
    assert forall|k: int| 0 <= k < left.len() implies #[trigger] left[k] == running[if k < i {
        k
    } else {
        k + 1
    }] by {}
}

/// A race is well-formed at the start of either run, and bears as many failures as it has sources in each run that
/// is left.
pub proof fn law_every_run_starts_whole(names: Seq<Seq<char>>, retried: bool)
    requires
        0 < names.len() <= usize::MAX,
    ensures
        run_started(names, retried).well_formed(),
        run_started(names, retried).bears() == if retried {
            names.len()
        } else {
            2 * names.len()
        },
{
}

/// Every failure of a source that runs leaves a well-formed race that bears one failure less, and the race gives up
/// only where it bears none. It gives up with what each source said in its second run.
pub proof fn law_a_failure_is_borne_or_final<T>(race: FirstSuccessView, source: usize, fault: FaultView)
    requires
        race.well_formed(),
        race.running.contains(source),
    ensures
        (match race.after::<T>(source, Err(fault)) {
            NextView::Won(_) => false,
            NextView::Wait(left) => left.well_formed() && left.bears() == race.bears() - 1 && left.retried
                == race.retried && left.names == race.names,
            NextView::Retry(left) => left.well_formed() && left.bears() == race.bears() - 1
                && !race.retried && left.retried && left.names == race.names,
            NextView::Failed(_) => race.bears() == 1 && race.retried && race.noted(source, fault).errors.len()
                == race.names.len(),
        }),
{
    lemma_removed(race.running, source);
    let noted = race.noted(source, fault);
    assert forall|i: int| 0 <= i < noted.running.len() implies (#[trigger] noted.running[i])
        < race.names.len() by {
        assert(race.running.contains(noted.running[i]));
    }
    if noted.running.len() == 0 && !race.retried {
        law_every_run_starts_whole(race.names, true);
    }
}

impl FirstSuccess {
    /// The first run of a race over the sources of these names.
    pub fn start(names: Vec<String>) -> (race: Result<FirstSuccess, String>)
        ensures
            (match race {
                Ok(race) => names@.len() > 0 && race@ == run_started(names.deep_view(), false)
                    && race@.well_formed(),
                Err(message) => names@.len() == 0 && message@ == "no sources configured"@,
            }),
    {
        if names.len() == 0 {
            return Err("no sources configured".to_owned());
        }
        let ghost views = names.deep_view();
        let race = FirstSuccess { running: every(names.len()), names, retried: false, errors: Vec::new() };
        proof {
            assert(race@.errors =~= seq![]);
            law_every_run_starts_whole(views, false);
        }
        Ok(race)
    }

    /// The sources that have not finished, by their place in the list.
    pub fn running(&self) -> (sources: &Vec<usize>)
        ensures
            sources@ == self@.running,
    {
        &self.running
    }

    /// Notes that a source finished, and says what to do next.
    pub fn finished<T>(self, source: usize, result: Result<T, Fault>) -> (next: Next<T>)
        requires
            self@.well_formed(),
            self@.running.contains(source),
        ensures
            next@ == self@.after(
                source,
                match result {
                    Ok(value) => Ok(value),
                    Err(fault) => Err(fault.deep_view()),
                },
            ),
            (match next {
                Next::Wait(race) => race@.well_formed(),
                Next::Retry(race) => race@.well_formed(),
                _ => true,
            }),
    {
        match result {
            Ok(value) => Next::Won(value),
            Err(fault) => {
                let ghost before = self@;
                let ghost view = fault.deep_view();
                let mut race = self;
                assert(race.names.deep_view()[source as int] == race.names@[source as int]@) by {
                    let k = choose|k: int| 0 <= k < before.running.len() && before.running[k] == source;
                    assert(before.running[k] < before.names.len());
                }
                assert(source < race.names@.len()) by {
                    let k = choose|k: int| 0 <= k < before.running.len() && before.running[k] == source;
                    assert(before.running[k] < before.names.len());
                }
                let name: &str = race.names[source].as_str();
                let said: String = match &fault {
                    Fault::Said(reason) => cat3(name, ": ", reason.as_str()),
                    Fault::TimedOut => cat3(
                        name,
                        ": timed out after ",
                        cat2(decimal(PER_SOURCE_TIMEOUT).as_str(), "s").as_str(),
                    ),
                };
                race.running = without(race.running, source);
                keep(&mut race.errors, said);
                assert(race@ =~= before.noted(source, view));
                proof {
                    law_a_failure_is_borne_or_final::<T>(before, source, view);
                }
                if race.running.len() > 0 {
                    return Next::Wait(race);
                }
                if !race.retried {
                    let again = FirstSuccess {
                        running: every(race.names.len()),
                        names: race.names,
                        retried: true,
                        errors: Vec::new(),
                    };
                    assert(again@ =~= run_started(before.names, true));
                    return Next::Retry(again);
                }
                Next::Failed(cat2("all sources failed: ", join(&race.errors, "; ").as_str()))
            },
        }
    }
}

fn every(n: usize) -> (places: Vec<usize>)
    ensures
        places@ == all_of(n as nat),
{
    let mut places: Vec<usize> = Vec::new();
    for i in 0..n
        invariant
            places@ == all_of(i as nat),
    {
        places.push(i);
        assert(places@ =~= all_of(i as nat + 1));
    }
    places
}

fn without(running: Vec<usize>, source: usize) -> (left: Vec<usize>)
    requires
        running@.contains(source),
    ensures
        left@ == running@.remove_value(source),
{
    let mut left = running;
    let ghost before = left@;
    proof {
        before.index_of_first_ensures(source);
    }
    let length: usize = left.len();
    let mut at: usize = 0;
    while left[at] != source
        invariant
            left@ == before,
            length == before.len(),
            at < before.len(),
            before.contains(source),
            forall|k: int| 0 <= k < at ==> before[k] != source,
        decreases before.len() - at,
    {
        assert(at + 1 < length) by {
            let k = choose|k: int| 0 <= k < before.len() && before[k] == source;
            assert(k > at);
        }
        at += 1;
    }
    left.remove(at);
    left
}

/// The race after a run of failures, each of a source that ran.
pub open spec fn after_failures<T>(
    race: FirstSuccessView,
    failures: Seq<(usize, FaultView)>,
) -> NextView<T>
    decreases failures.len(),
{
    if failures.len() == 0 {
        NextView::Wait(race)
    } else {
        match after_failures::<T>(race, failures.drop_last()) {
            NextView::Wait(left) => left.after::<T>(failures.last().0, Err(failures.last().1)),
            NextView::Retry(left) => left.after::<T>(failures.last().0, Err(failures.last().1)),
            end => end,
        }
    }
}

/// Each failure is one of a source that ran then.
pub open spec fn is_run_of_failures(race: FirstSuccessView, failures: Seq<(usize, FaultView)>) -> bool
    decreases failures.len(),
{
    failures.len() > 0 ==> {
        &&& is_run_of_failures(race, failures.drop_last())
        &&& match after_failures::<()>(race, failures.drop_last()) {
            NextView::Wait(left) => left.running.contains(failures.last().0),
            NextView::Retry(left) => left.running.contains(failures.last().0),
            _ => false,
        }
    }
}

/// While every source fails, the race is run twice and no more: it gives up exactly when each source has failed
/// twice, and starts again exactly when each has failed once.
pub proof fn law_the_race_is_retried_once(names: Seq<Seq<char>>, failures: Seq<(usize, FaultView)>)
    requires
        0 < names.len() <= usize::MAX,
        is_run_of_failures(run_started(names, false), failures),
    ensures
        failures.len() <= 2 * names.len(),
        after_failures::<()>(run_started(names, false), failures) is Failed <==> failures.len() == 2
            * names.len(),
        after_failures::<()>(run_started(names, false), failures) is Retry <==> failures.len()
            == names.len(),
{
    lemma_borne(names, failures);
}

proof fn lemma_borne(names: Seq<Seq<char>>, failures: Seq<(usize, FaultView)>)
    requires
        0 < names.len() <= usize::MAX,
        is_run_of_failures(run_started(names, false), failures),
    ensures
        (match after_failures::<()>(run_started(names, false), failures) {
            NextView::Won(_) => false,
            NextView::Wait(left) => left.well_formed() && left.names == names && left.bears()
                + failures.len() == 2 * names.len() && failures.len() != names.len(),
            NextView::Retry(left) => left.well_formed() && left.names == names && left.bears()
                + failures.len() == 2 * names.len() && left.retried && failures.len() == names.len(),
            NextView::Failed(_) => failures.len() == 2 * names.len(),
        }),
    decreases failures.len(),
{
    let start = run_started(names, false);
    if failures.len() == 0 {
        law_every_run_starts_whole(names, false);
    } else {
        lemma_borne(names, failures.drop_last());
        let (source, fault) = failures.last();
        match after_failures::<()>(start, failures.drop_last()) {
            NextView::Wait(left) => {
                law_a_failure_is_borne_or_final::<()>(left, source, fault);
            },
            NextView::Retry(left) => {
                law_a_failure_is_borne_or_final::<()>(left, source, fault);
            },
            _ => {},
        }
    }
}

/// The first source that answers wins with its own answer, whatever the others did.
pub proof fn law_the_first_answer_wins<T>(race: FirstSuccessView, source: usize, value: T)
    ensures
        race.after::<T>(source, Ok(value)) == NextView::<T>::Won(value),
{
}

/// A failure is told with the name of the source that failed, and what it said or that it took too long.
pub proof fn law_a_failure_is_told_with_its_source(race: FirstSuccessView, source: usize, reason: Seq<char>)
    requires
        source < race.names.len(),
    ensures
        race.noted(source, FaultView::Said(reason)).errors.len() == race.errors.len() + 1,
        race.noted(source, FaultView::Said(reason)).errors.last() == race.names[source as int] + ": "@ + reason,
        race.noted(source, FaultView::Said(reason)).errors.drop_last() == race.errors,
        race.noted(source, FaultView::TimedOut).errors.last() == race.names[source as int]
            + ": timed out after "@ + (dec(6) + "s"@),
        race.noted(source, FaultView::TimedOut).names == race.names,
        race.noted(source, FaultView::TimedOut).retried == race.retried,
{
    assert(race.noted(source, FaultView::Said(reason)).errors.drop_last() =~= race.errors);
}

/// Where every source failed twice, each failure of the second run stands in what is told.
pub proof fn law_every_failure_of_the_last_run_is_told<T>(
    race: FirstSuccessView,
    source: usize,
    fault: FaultView,
    i: int,
)
    requires
        race.after::<T>(source, Err(fault)) is Failed,
        0 <= i < race.noted(source, fault).errors.len(),
    ensures
        exists|at: int| #[trigger]
            stands_at(race.after::<T>(source, Err(fault))->Failed_0, at, race.noted(source, fault).errors[i]),
{
    let errors = race.noted(source, fault).errors;
    let start = "all sources failed: "@;
    let joined = joined_with(errors, "; "@);
    law_every_part_stands_in_the_joined_text(errors, "; "@, i);
    let at = choose|at: int| #[trigger] stands_at(joined, at, errors[i]);
    assert((start + joined).subrange(start.len() + at, start.len() + at + errors[i].len()) =~= joined.subrange(
        at,
        at + errors[i].len(),
    ));
    assert(stands_at(race.after::<T>(source, Err(fault))->Failed_0, start.len() + at, errors[i]));
}

/// Each run starts every source, in its order, and with nothing told of it yet.
pub proof fn law_each_run_starts_every_source(names: Seq<Seq<char>>, retried: bool, i: int)
    requires
        0 <= i < names.len() <= usize::MAX,
    ensures
        run_started(names, retried).running.len() == names.len(),
        run_started(names, retried).running[i] == i,
        run_started(names, retried).errors.len() == 0,
        run_started(names, retried).names == names,
        run_started(names, retried).retried == retried,
{
}

/// What is told where the last of a single source's two runs fails.
pub proof fn law_what_is_told_of_a_single_source<T>(name: Seq<char>, reason: Seq<char>)
    ensures
        run_started(seq![name], true).after::<T>(0, Err(FaultView::Said(reason))) == NextView::<T>::Failed(
            "all sources failed: "@ + (name + ": "@ + reason),
        ),
{
    let race = run_started(seq![name], true);
    assert(race.running =~= seq![0usize]);
    assert(race.running.contains(0usize)) by {
        assert(race.running[0] == 0);
    }
    lemma_removed(race.running, 0);
    let errors = race.noted(0, FaultView::Said(reason)).errors;
    assert(errors =~= seq![name + ": "@ + reason]);
}

} // verus!
