//! A race: start a fan-out of independent operations, keep the first successes and cancel the rest where they
//! stand. It knows nothing of what the operations do: whoever runs the race starts the operations it is told
//! to, and reports each as it finishes.

use vstd::prelude::*;

use crate::text::{cat2, cat3};

verus! {

/// Why an operation did not succeed: what it said, or that it ran out of time.
#[derive(Debug, PartialEq, Eq)]
pub enum Fault {
    Said(String),
    TimedOut,
}

pub enum FaultView {
    Said(Seq<char>),
    TimedOut,
}

impl DeepView for Fault {
    type V = FaultView;

    open spec fn deep_view(&self) -> FaultView {
        match self {
            Fault::Said(reason) => FaultView::Said(reason@),
            Fault::TimedOut => FaultView::TimedOut,
        }
    }
}

/// The text that the standard library's `Debug` writes for a duration of so many nanoseconds.
pub uninterp spec fn duration_text(nanoseconds: u64) -> Seq<char>;

/// `Duration`'s `Debug` of the standard library, which depends on the length of the duration alone.
#[verifier::external_body]
fn show_duration(nanoseconds: u64) -> (text: String)
    ensures
        text@ == duration_text(nanoseconds),
{
    format!("{:?}", std::time::Duration::from_nanos(nanoseconds))
}

/// A failure as it is told, with the name of the operation.
pub open spec fn failure_of(name: Seq<char>, fault: FaultView, timeout: Seq<char>) -> Seq<char> {
    name + ": "@ + match fault {
        FaultView::Said(reason) => reason,
        FaultView::TimedOut => "timed out after "@ + timeout,
    }
}

/// What a race produced. A partial answer is a normal outcome: only the caller knows whether fewer successes
/// than it wanted are enough.
#[derive(Debug)]
pub struct Outcome<T> {
    /// The successes in the order they arrived, each with the name of the operation that produced it.
    pub taken: Vec<(String, T)>,
    /// One text for each operation that was started and did not succeed. Operations still running when enough
    /// had succeeded appear nowhere: they have no verdict.
    pub failures: Vec<String>,
}

/// A race under way.
#[derive(Debug)]
pub struct Race<T> {
    names: Vec<String>,
    width: usize,
    quorum: usize,
    timeout: u64,
    next: usize,
    running: Vec<usize>,
    taken: Vec<(String, T)>,
    failures: Vec<String>,
}

/// A race as mathematics: the operations by name, how many may run at once, how many successes are enough, the
/// first operation that was not started, those that run, and what came back.
#[verifier::ext_equal]
#[verifier::reject_recursive_types(T)]
pub struct RaceView<T> {
    pub names: Seq<Seq<char>>,
    pub width: nat,
    pub quorum: nat,
    pub timeout: u64,
    pub next: nat,
    pub running: Seq<usize>,
    pub taken: Seq<(Seq<char>, T)>,
    pub failures: Seq<Seq<char>>,
}

pub open spec fn named<T>(taken: Seq<(String, T)>) -> Seq<(Seq<char>, T)> {
    taken.map_values(|entry: (String, T)| (entry.0@, entry.1))
}

impl<T> View for Race<T> {
    type V = RaceView<T>;

    closed spec fn view(&self) -> RaceView<T> {
        RaceView {
            names: self.names.deep_view(),
            width: self.width as nat,
            quorum: self.quorum as nat,
            timeout: self.timeout,
            next: self.next as nat,
            running: self.running@,
            taken: named(self.taken@),
            failures: self.failures.deep_view(),
        }
    }
}

pub open spec fn at_least_one(n: nat) -> nat {
    if n == 0 {
        1
    } else {
        n
    }
}

pub open spec fn at_most(n: nat, most: nat) -> nat {
    if n <= most {
        n
    } else {
        most
    }
}

/// A race at its start: the first operations run, as many as may run at once. A race without operations is over
/// with a failure that says so.
pub open spec fn started<T>(names: Seq<Seq<char>>, fan_out: nat, take: nat, timeout: u64) -> RaceView<T> {
    let width = at_least_one(fan_out);
    let next = at_most(width, names.len());
    RaceView {
        names,
        width,
        quorum: at_least_one(take),
        timeout,
        next,
        running: Seq::new(next, |i: int| i as usize),
        taken: seq![],
        failures: if names.len() == 0 {
            seq!["no operations to race"@]
        } else {
            seq![]
        },
    }
}

impl<T> RaceView<T> {
    /// Enough succeeded, or nothing runs any more.
    pub open spec fn is_over(self) -> bool {
        self.taken.len() >= self.quorum || self.running.len() == 0
    }

    /// The race with one operation's verdict noted, and nothing started in its place yet.
    pub open spec fn noted(self, op: usize, result: Result<T, FaultView>) -> RaceView<T> {
        let running = self.running.remove_value(op);
        match result {
            Ok(value) => RaceView {
                running,
                taken: self.taken.push((self.names[op as int], value)),
                ..self
            },
            Err(fault) => RaceView {
                running,
                failures: self.failures.push(
                    failure_of(self.names[op as int], fault, duration_text(self.timeout)),
                ),
                ..self
            },
        }
    }

    /// A finished operation makes room for the next in line, unless enough have succeeded.
    pub open spec fn starts_next(self) -> bool {
        self.taken.len() < self.quorum && self.next < self.names.len()
    }

    pub open spec fn refilled(self) -> RaceView<T> {
        if self.starts_next() {
            RaceView { running: self.running.push(self.next as usize), next: self.next + 1, ..self }
        } else {
            self
        }
    }

    /// The race after an operation finished.
    pub open spec fn after(self, op: usize, result: Result<T, FaultView>) -> RaceView<T> {
        self.noted(op, result).refilled()
    }

    /// What holds of every race: never more run than may, each operation is started once and in order, every one
    /// that was started runs, succeeded or failed, no more succeed than are enough, and the width stays full
    /// while there are operations to start.
    pub open spec fn well_formed(self) -> bool {
        &&& self.names.len() <= usize::MAX
        &&& 0 < self.width
        &&& 0 < self.quorum
        &&& self.next <= self.names.len()
        &&& self.running.len() <= self.width
        &&& self.running.no_duplicates()
        &&& forall|i: int| 0 <= i < self.running.len() ==> (#[trigger] self.running[i]) < self.next
        &&& self.names.len() > 0 ==> self.running.len() + self.taken.len() + self.failures.len()
            == self.next
        &&& self.taken.len() <= self.quorum
        &&& !self.is_over() ==> self.running.len() == self.width || self.next == self.names.len()
    }
}

/// A race is well-formed at its start.
pub proof fn law_a_race_starts_well<T>(names: Seq<Seq<char>>, fan_out: nat, take: nat, timeout: u64)
    requires
        names.len() <= usize::MAX,
    ensures
        started::<T>(names, fan_out, take, timeout).well_formed(),
{
}

/// Every verdict of an operation that runs keeps a race well-formed: at most the width of operations run, and at
/// most the quorum succeeds.
pub proof fn law_a_race_stays_well<T>(race: RaceView<T>, op: usize, result: Result<T, FaultView>)
    requires
        race.well_formed(),
        !race.is_over(),
        race.running.contains(op),
    ensures
        race.after(op, result).well_formed(),
        !race.after(op, result).running.contains(op),
{
    let i = race.running.index_of_first(op)->Some_0;
    race.running.index_of_first_ensures(op);
    assert(race.running.remove_value(op) =~= race.running.remove(i));
    let left = race.running.remove(i);
    assert forall|k: int| 0 <= k < left.len() implies #[trigger] left[k] == race.running[if k < i {
        k
    } else {
        k + 1
    }] by {}
    assert(left.no_duplicates());
    assert(race.running.len() + race.taken.len() + race.failures.len() == race.next);
}

/// What an operation's end says.
pub open spec fn verdict_of<T>(result: Result<T, Fault>) -> Result<T, FaultView> {
    match result {
        Ok(value) => Ok(value),
        Err(fault) => Err(fault.deep_view()),
    }
}

impl<T> Race<T> {
    /// A race of the operations of these names: at most `fan_out` at a time, each no longer than `timeout`
    /// nanoseconds, until `take` of them have succeeded.
    pub fn new(names: Vec<String>, fan_out: usize, take: usize, timeout: u64) -> (race: Race<T>)
        ensures
            race@ == started::<T>(names.deep_view(), fan_out as nat, take as nat, timeout),
            race@.well_formed(),
    {
        let width: usize = if fan_out == 0 {
            1
        } else {
            fan_out
        };
        let quorum: usize = if take == 0 {
            1
        } else {
            take
        };
        let next: usize = if width <= names.len() {
            width
        } else {
            names.len()
        };
        let mut running: Vec<usize> = Vec::new();
        for i in 0..next
            invariant
                running@ == Seq::new(i as nat, |k: int| k as usize),
        {
            running.push(i);
            assert(running@ =~= Seq::new(i as nat + 1, |k: int| k as usize));
        }
        let mut failures: Vec<String> = Vec::new();
        if names.len() == 0 {
            failures.push("no operations to race".to_owned());
        }
        let race: Race<T> = Race {
            names,
            width,
            quorum,
            timeout,
            next,
            running,
            taken: Vec::new(),
            failures,
        };
        proof {
            let view = started::<T>(race.names.deep_view(), fan_out as nat, take as nat, timeout);
            assert(race@.failures =~= view.failures);
            assert(race@.taken =~= view.taken);
            law_a_race_starts_well::<T>(
                race.names.deep_view(),
                fan_out as nat,
                take as nat,
                timeout,
            );
        }
        race
    }

    /// The operations that run, by their place in the list.
    pub fn running(&self) -> (ops: &Vec<usize>)
        ensures
            ops@ == self@.running,
    {
        &self.running
    }

    pub fn is_over(&self) -> (over: bool)
        ensures
            over == self@.is_over(),
    {
        self.taken.len() >= self.quorum || self.running.len() == 0
    }

    /// Notes that an operation finished, and says which one to start in its place, if any.
    pub fn finished(&mut self, op: usize, result: Result<T, Fault>) -> (start: Option<usize>)
        requires
            old(self)@.well_formed(),
            !old(self)@.is_over(),
            old(self)@.running.contains(op),
        ensures
            final(self)@ == old(self)@.after(op, verdict_of(result)),
            final(self)@.well_formed(),
            start == if final(self)@.next > old(self)@.next {
                Some(old(self)@.next as usize)
            } else {
                None
            },
    {
        let ghost before = self@;
        let ghost verdict = verdict_of(result);
        proof {
            law_a_race_stays_well(before, op, verdict);
            self.running@.index_of_first_ensures(op);
        }
        let length: usize = self.running.len();
        let mut at: usize = 0;
        while self.running[at] != op
            invariant
                length == self.running@.len(),
                at < self.running@.len(),
                self@ == before,
                self.running@ == before.running,
                before.running.contains(op),
                forall|k: int| 0 <= k < at ==> self.running@[k] != op,
            decreases self.running@.len() - at,
        {
            assert(at + 1 < length) by {
                let k = choose|k: int| 0 <= k < before.running.len() && before.running[k] == op;
                assert(k > at);
            }
            at += 1;
        }
        assert(self.running@.remove_value(op) == self.running@.remove(at as int)) by {
            self.running@.index_of_first_ensures(op);
        }
        self.running.remove(at);
        assert(self.names.deep_view()[op as int] == self.names@[op as int]@);
        match result {
            Ok(value) => {
                let name: String = self.names[op].clone();
                self.taken.push((name, value));
                assert(named(self.taken@) =~= before.noted(op, verdict).taken);
            },
            Err(fault) => {
                let told: String = match &fault {
                    Fault::Said(reason) => cat3(self.names[op].as_str(), ": ", reason.as_str()),
                    Fault::TimedOut => cat2(
                        cat2(self.names[op].as_str(), ": ").as_str(),
                        cat2("timed out after ", show_duration(self.timeout).as_str()).as_str(),
                    ),
                };
                self.failures.push(told);
                assert(self.failures.deep_view() =~= before.failures.push(told@));
            },
        }
        assert(self@ =~= before.noted(op, verdict));
        if self.taken.len() < self.quorum && self.next < self.names.len() {
            let start: usize = self.next;
            self.running.push(start);
            self.next = start + 1;
            assert(self@ =~= before.after(op, verdict));
            Some(start)
        } else {
            None
        }
    }

    pub fn outcome(self) -> (outcome: Outcome<T>)
        ensures
            named(outcome.taken@) == self@.taken,
            outcome.failures.deep_view() == self@.failures,
    {
        Outcome { taken: self.taken, failures: self.failures }
    }
}

/// A race after a run of verdicts, each of an operation that ran while the race was not over.
pub open spec fn run_of<T>(race: RaceView<T>, verdicts: Seq<(usize, Result<T, FaultView>)>) -> RaceView<T>
    decreases verdicts.len(),
{
    if verdicts.len() == 0 {
        race
    } else {
        run_of(race, verdicts.drop_last()).after(verdicts.last().0, verdicts.last().1)
    }
}

pub open spec fn is_run<T>(race: RaceView<T>, verdicts: Seq<(usize, Result<T, FaultView>)>) -> bool
    decreases verdicts.len(),
{
    if verdicts.len() == 0 {
        true
    } else {
        let before = run_of(race, verdicts.drop_last());
        &&& is_run(race, verdicts.drop_last())
        &&& !before.is_over()
        &&& before.running.contains(verdicts.last().0)
    }
}

/// The successes of a run, in the order they arrived.
pub open spec fn successes<T>(
    names: Seq<Seq<char>>,
    verdicts: Seq<(usize, Result<T, FaultView>)>,
) -> Seq<(Seq<char>, T)>
    decreases verdicts.len(),
{
    if verdicts.len() == 0 {
        seq![]
    } else {
        let earlier = successes(names, verdicts.drop_last());
        match verdicts.last().1 {
            Ok(value) => earlier.push((names[verdicts.last().0 as int], value)),
            Err(_) => earlier,
        }
    }
}

/// The failures of a run, in the order they arrived, each with the name of its operation.
pub open spec fn failures_told<T>(
    race: RaceView<T>,
    verdicts: Seq<(usize, Result<T, FaultView>)>,
) -> Seq<Seq<char>>
    decreases verdicts.len(),
{
    if verdicts.len() == 0 {
        race.failures
    } else {
        let earlier = failures_told(race, verdicts.drop_last());
        match verdicts.last().1 {
            Ok(_) => earlier,
            Err(fault) => earlier.push(
                failure_of(
                    race.names[verdicts.last().0 as int],
                    fault,
                    duration_text(race.timeout),
                ),
            ),
        }
    }
}

/// However the operations finish: the successes are kept in the order they arrived and never more than enough,
/// every failure is told with the name of its operation, and a race that is over without enough successes has a
/// verdict from every operation.
pub proof fn law_what_a_race_keeps<T>(
    names: Seq<Seq<char>>,
    fan_out: nat,
    take: nat,
    timeout: u64,
    verdicts: Seq<(usize, Result<T, FaultView>)>,
)
    requires
        0 < names.len() <= usize::MAX,
        is_run(started::<T>(names, fan_out, take, timeout), verdicts),
    ensures
        run_of(started::<T>(names, fan_out, take, timeout), verdicts).well_formed(),
        run_of(started::<T>(names, fan_out, take, timeout), verdicts).taken == successes(
            names,
            verdicts,
        ),
        run_of(started::<T>(names, fan_out, take, timeout), verdicts).failures == failures_told(
            started::<T>(names, fan_out, take, timeout),
            verdicts,
        ),
        run_of(started::<T>(names, fan_out, take, timeout), verdicts).taken.len() <= at_least_one(take),
        ({
            let race = run_of(started::<T>(names, fan_out, take, timeout), verdicts);
            race.is_over() && race.taken.len() < race.quorum ==> race.next == names.len()
                && race.taken.len() + race.failures.len() == names.len()
        }),
{
    lemma_run(names, fan_out, take, timeout, verdicts);
}

proof fn lemma_run<T>(
    names: Seq<Seq<char>>,
    fan_out: nat,
    take: nat,
    timeout: u64,
    verdicts: Seq<(usize, Result<T, FaultView>)>,
)
    requires
        0 < names.len() <= usize::MAX,
        is_run(started::<T>(names, fan_out, take, timeout), verdicts),
    ensures
        ({
            let start = started::<T>(names, fan_out, take, timeout);
            let race = run_of(start, verdicts);
            &&& race.well_formed()
            &&& race.names == names
            &&& race.quorum == at_least_one(take)
            &&& race.timeout == timeout
            &&& race.taken == successes(names, verdicts)
            &&& race.failures == failures_told(start, verdicts)
            &&& race.taken.len() < race.quorum && race.running.len() == 0 ==> race.next == names.len()
        }),
    decreases verdicts.len(),
{
    let start = started::<T>(names, fan_out, take, timeout);
    if verdicts.len() == 0 {
        law_a_race_starts_well::<T>(names, fan_out, take, timeout);
    } else {
        lemma_run(names, fan_out, take, timeout, verdicts.drop_last());
        let before = run_of(start, verdicts.drop_last());
        law_a_race_stays_well(before, verdicts.last().0, verdicts.last().1);
    }
}

/// A success is kept with the name of the operation that had it and the value that it had, behind those before it; a
/// failure is told with the name of its operation, behind those before it.
pub proof fn law_a_verdict_is_noted_under_its_own_name<T>(race: RaceView<T>, op: usize, value: T, reason: Seq<char>)
    requires
        op < race.names.len(),
    ensures
        race.after(op, Ok(value)).taken == race.taken.push((race.names[op as int], value)),
        race.after(op, Ok(value)).failures == race.failures,
        race.after(op, Err(FaultView::Said(reason))).taken == race.taken,
        race.after(op, Err(FaultView::Said(reason))).failures == race.failures.push(
            race.names[op as int] + ": "@ + reason,
        ),
        race.after(op, Err(FaultView::TimedOut)).failures == race.failures.push(
            race.names[op as int] + ": "@ + ("timed out after "@ + duration_text(race.timeout)),
        ),
        race.after(op, Ok(value)).names == race.names,
        race.after(op, Ok(value)).quorum == race.quorum,
        race.after(op, Ok(value)).width == race.width,
        race.after(op, Ok(value)).timeout == race.timeout,
{
}

/// An operation is started in the place of one that finished exactly where some are left and not enough have succeeded,
/// and it is the next in line.
pub proof fn law_the_next_in_line_is_started<T>(race: RaceView<T>, op: usize, result: Result<T, FaultView>)
    ensures
        ({
            let after = race.after(op, result);
            let enough = after.taken.len() >= race.quorum;
            &&& after.next == race.next || after.next == race.next + 1
            &&& after.next == race.next + 1 <==> !enough && race.next < race.names.len()
            &&& after.next == race.next + 1 ==> after.running.last() == race.next as usize
        }),
{
}

/// A race starts as many operations as may run at once, the first ones, and stops at as many successes as are wanted; it
/// runs one at a time, and wants one, where it was told none.
pub proof fn law_how_a_race_starts<T>(names: Seq<Seq<char>>, fan_out: nat, take: nat, timeout: u64, i: int)
    requires
        names.len() <= usize::MAX,
    ensures
        ({
            let race = started::<T>(names, fan_out, take, timeout);
            &&& race.names == names
            &&& race.timeout == timeout
            &&& race.taken.len() == 0
            &&& fan_out > 0 ==> race.width == fan_out
            &&& fan_out == 0 ==> race.width == 1
            &&& take > 0 ==> race.quorum == take
            &&& take == 0 ==> race.quorum == 1
            &&& race.running.len() == race.next
            &&& race.next <= names.len() && race.next <= race.width
            &&& race.next == names.len() || race.next == race.width
            &&& 0 <= i < race.running.len() ==> race.running[i] == i
            &&& names.len() == 0 ==> race.failures == seq!["no operations to race"@]
            &&& names.len() > 0 ==> race.failures.len() == 0
        }),
{
}

/// A race is over exactly where enough have succeeded or nothing runs any more.
pub proof fn law_when_a_race_is_over<T>(race: RaceView<T>)
    ensures
        race.is_over() <==> race.taken.len() >= race.quorum || race.running.len() == 0,
{
}

} // verus!
