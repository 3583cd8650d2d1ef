//! The audit tables and their monthly partitions: which months are opened ahead, and which payloads a sweep drops.
//!
//! A partition is dropped whole, so a payload lives by the month it was written in: one of month M leaves once the
//! month after next opens.

use vstd::prelude::*;

use crate::collect::keep;
use crate::text::{
    cat2, cat3, cat4, cat5, chars_of, dec_signed, decimal_signed, digit, digits_value, is_digit, starts_with,
    starts_with_of,
};

verus! {

pub const SCHEMA: &'static str = "llm_router";

pub const MONTHS_OPEN_AHEAD: u32 = 1;

pub const PAYLOAD_RETENTION_MONTHS: u32 = 1;

/// The lock under which one process at a time creates the tables or works on their partitions.
pub const MAINTENANCE_LOCK: i64 = 0x6c6c_6d72_7061_7274;

/// The audit tables.
#[derive(Clone, Copy, Debug, PartialEq, Eq, Structural)]
pub enum Parent {
    Requests,
    RequestPayloads,
    Decisions,
    DecisionPayloads,
}

impl DeepView for Parent {
    type V = Parent;

    open spec fn deep_view(&self) -> Parent {
        *self
    }
}

pub open spec fn table_of(parent: Parent) -> Seq<char> {
    match parent {
        Parent::Requests => "requests"@,
        Parent::RequestPayloads => "request_payloads"@,
        Parent::Decisions => "decisions"@,
        Parent::DecisionPayloads => "decision_payloads"@,
    }
}

impl Parent {
    pub fn table(self) -> (name: &'static str)
        ensures
            name@ == table_of(self),
    {
        match self {
            Parent::Requests => "requests",
            Parent::RequestPayloads => "request_payloads",
            Parent::Decisions => "decisions",
            Parent::DecisionPayloads => "decision_payloads",
        }
    }
}

pub const REQUESTS_TABLE_STATEMENT: &'static str =
    "CREATE TABLE IF NOT EXISTS llm_router.requests ( id bigserial NOT NULL, tier varchar(32) NOT NULL, model_used varchar(128) NOT NULL, used_backup boolean NOT NULL, tokens_in integer NOT NULL, tokens_out integer NOT NULL, latency_ms integer NOT NULL, outcome varchar(16) NOT NULL, finish_reason varchar(32) NOT NULL, created_at timestamptz NOT NULL, PRIMARY KEY (created_at, id) ) PARTITION BY RANGE (created_at)";

pub const REQUEST_PAYLOADS_TABLE_STATEMENT: &'static str =
    "CREATE TABLE IF NOT EXISTS llm_router.request_payloads ( id bigserial NOT NULL, request_id bigint NOT NULL, sent jsonb NOT NULL, received jsonb NOT NULL, created_at timestamptz NOT NULL, PRIMARY KEY (created_at, id), UNIQUE (created_at, request_id) ) PARTITION BY RANGE (created_at)";

pub const DECISIONS_TABLE_STATEMENT: &'static str =
    "CREATE TABLE IF NOT EXISTS llm_router.decisions ( id bigserial NOT NULL, model_used varchar(128) NOT NULL, questions smallint NOT NULL, tokens_in integer NOT NULL, tokens_out integer NOT NULL, latency_ms integer NOT NULL, outcome varchar(16) NOT NULL, created_at timestamptz NOT NULL, PRIMARY KEY (created_at, id) ) PARTITION BY RANGE (created_at)";

pub const DECISION_PAYLOADS_TABLE_STATEMENT: &'static str =
    "CREATE TABLE IF NOT EXISTS llm_router.decision_payloads ( id bigserial NOT NULL, decision_id bigint NOT NULL, sent jsonb NOT NULL, received jsonb NOT NULL, created_at timestamptz NOT NULL, PRIMARY KEY (created_at, id), UNIQUE (created_at, decision_id) ) PARTITION BY RANGE (created_at)";

pub open spec fn statement_of(parent: Parent) -> Seq<char> {
    match parent {
        Parent::Requests => REQUESTS_TABLE_STATEMENT@,
        Parent::RequestPayloads => REQUEST_PAYLOADS_TABLE_STATEMENT@,
        Parent::Decisions => DECISIONS_TABLE_STATEMENT@,
        Parent::DecisionPayloads => DECISION_PAYLOADS_TABLE_STATEMENT@,
    }
}

impl Parent {
    /// The statement that creates the table, partitioned by the time its rows were written.
    pub fn statement(self) -> (statement: &'static str)
        ensures
            statement@ == statement_of(self),
    {
        match self {
            Parent::Requests => REQUESTS_TABLE_STATEMENT,
            Parent::RequestPayloads => REQUEST_PAYLOADS_TABLE_STATEMENT,
            Parent::Decisions => DECISIONS_TABLE_STATEMENT,
            Parent::DecisionPayloads => DECISION_PAYLOADS_TABLE_STATEMENT,
        }
    }
}

pub open spec fn all_parents() -> Seq<Parent> {
    seq![Parent::Requests, Parent::RequestPayloads, Parent::Decisions, Parent::DecisionPayloads]
}

pub fn parents() -> (parents: Vec<Parent>)
    ensures
        parents@ == all_parents(),
{
    vec![Parent::Requests, Parent::RequestPayloads, Parent::Decisions, Parent::DecisionPayloads]
}

/// A month of a year that takes no more than four digits.
#[derive(Clone, Copy, Debug, PartialEq, Eq, Structural)]
pub struct Month {
    pub year: u32,
    pub month: u32,
}

impl DeepView for Month {
    type V = Month;

    open spec fn deep_view(&self) -> Month {
        *self
    }
}

impl Month {
    pub open spec fn well_formed(self) -> bool {
        self.year <= 9_999 && 1 <= self.month <= 12
    }

    /// The months from the start of the calendar.
    pub open spec fn index(self) -> int {
        self.year * 12 + self.month - 1
    }

    /// How many days the month has.
    pub open spec fn days(self) -> int {
        if self.month == 2 {
            if self.year % 4 == 0 && (self.year % 100 != 0 || self.year % 400 == 0) {
                29
            } else {
                28
            }
        } else if self.month == 4 || self.month == 6 || self.month == 9 || self.month == 11 {
            30
        } else {
            31
        }
    }
}

/// The month at a distance from the start of the calendar.
pub open spec fn month_at(index: int) -> Month {
    Month { year: (index / 12) as u32, month: (index % 12 + 1) as u32 }
}

/// The month so many months later.
pub fn add_months(month: Month, later: u32) -> (then: Month)
    requires
        month.well_formed(),
        month.index() + later < 120_000,
    ensures
        then == month_at(month.index() + later),
        then.well_formed(),
        then.index() == month.index() + later,
{
    let index: u32 = month.year * 12 + (month.month - 1) + later;
    Month { year: index / 12, month: index % 12 + 1 }
}

/// The month so many months earlier.
pub fn subtract_months(month: Month, earlier: u32) -> (then: Month)
    requires
        month.well_formed(),
        earlier <= month.index(),
    ensures
        then == month_at(month.index() - earlier),
        then.well_formed(),
        then.index() == month.index() - earlier,
{
    let index: u32 = month.year * 12 + (month.month - 1) - earlier;
    Month { year: index / 12, month: index % 12 + 1 }
}

/// A number below a hundred in two digits.
pub open spec fn two_digits(n: nat) -> Seq<char> {
    seq![digit(n / 10), digit(n % 10)]
}

fn write_two(n: u32) -> (text: String)
    requires
        n < 100,
    ensures
        text@ == two_digits(n as nat),
{
    let mut text = String::new();
    text.push((48u8 + (n / 10) as u8) as char);
    text.push((48u8 + (n % 10) as u8) as char);
    assert(text@ =~= two_digits(n as nat));
    text
}

/// The name of a table's partition for a month.
pub open spec fn name_of(table: Seq<char>, month: Month) -> Seq<char> {
    table + "_y"@ + two_digits(month.year as nat / 100) + two_digits(month.year as nat % 100) + ("m"@ + two_digits(
        month.month as nat,
    ))
}

pub fn partition_name(table: &str, month: Month) -> (name: String)
    requires
        month.well_formed(),
    ensures
        name@ == name_of(table@, month),
{
    let high: String = write_two(month.year / 100);
    let low: String = write_two(month.year % 100);
    let tail: String = cat2("m", write_two(month.month).as_str());
    cat5(table, "_y", high.as_str(), low.as_str(), tail.as_str())
}

/// The number that a digit stands for.
pub open spec fn digit_value(c: char) -> int {
    c as int - '0' as int
}

/// What stands behind a table's name in the name of one of its partitions: four digits, a letter and two digits.
pub open spec fn month_in(tail: Seq<char>) -> Option<Month> {
    if tail.len() == 7 && is_digit(tail[0]) && is_digit(tail[1]) && is_digit(tail[2]) && is_digit(tail[3])
        && tail[4] == 'm' && is_digit(tail[5]) && is_digit(tail[6]) {
        let month = Month {
            year: (digit_value(tail[0]) * 1000 + digit_value(tail[1]) * 100 + digit_value(tail[2]) * 10
                + digit_value(tail[3])) as u32,
            month: (digit_value(tail[5]) * 10 + digit_value(tail[6])) as u32,
        };
        if 1 <= month.month <= 12 {
            Some(month)
        } else {
            None
        }
    } else {
        None
    }
}

/// The month of a partition, by its name.
pub open spec fn month_named(table: Seq<char>, name: Seq<char>) -> Option<Month> {
    let prefix = table + "_y"@;
    if starts_with_of(name, prefix) {
        month_in(name.skip(prefix.len() as int))
    } else {
        None
    }
}

fn value_of(c: char) -> (value: u32)
    requires
        is_digit(c),
    ensures
        value == digit_value(c),
        value <= 9,
{
    (c as u32) - 48
}

fn digit_char(c: char) -> (answer: bool)
    ensures
        answer == is_digit(c),
{
    c >= '0' && c <= '9'
}

/// The month that one of a table's partitions holds, where the name is one of a partition.
pub fn month_of(table: &str, name: &str) -> (month: Option<Month>)
    ensures
        month == month_named(table@, name@),
        month matches Some(month) ==> month.well_formed(),
{
    let prefix: String = cat2(table, "_y");
    if !starts_with(name, prefix.as_str()) {
        return None;
    }
    let skipped: usize = chars_of(prefix.as_str()).len();
    let chars: Vec<char> = chars_of(name);
    let ghost tail = name@.skip(skipped as int);
    if chars.len() - skipped != 7 {
        return None;
    }
    let t0: char = chars[skipped];
    let t1: char = chars[skipped + 1];
    let t2: char = chars[skipped + 2];
    let t3: char = chars[skipped + 3];
    let t4: char = chars[skipped + 4];
    let t5: char = chars[skipped + 5];
    let t6: char = chars[skipped + 6];
    assert(tail =~= seq![t0, t1, t2, t3, t4, t5, t6]);
    if !(digit_char(t0) && digit_char(t1) && digit_char(t2) && digit_char(t3) && t4 == 'm' && digit_char(t5)
        && digit_char(t6)) {
        return None;
    }
    let month = Month {
        year: value_of(t0) * 1000 + value_of(t1) * 100 + value_of(t2) * 10 + value_of(t3),
        month: value_of(t5) * 10 + value_of(t6),
    };
    if month.month >= 1 && month.month <= 12 {
        Some(month)
    } else {
        None
    }
}

/// The first month that is kept.
pub open spec fn cutoff_of(now: Month, retention: u32) -> int {
    now.index() - retention
}

/// A partition is dropped: it is one of the table's, and its month is past retention.
pub open spec fn is_dropped(table: Seq<char>, name: Seq<char>, now: Month, retention: u32) -> bool {
    match month_named(table, name) {
        Some(month) => month.index() < cutoff_of(now, retention),
        None => false,
    }
}

pub open spec fn dropped_of(table: Seq<char>, names: Seq<Seq<char>>, now: Month, retention: u32) -> Seq<Seq<char>>
    decreases names.len(),
{
    if names.len() == 0 {
        seq![]
    } else if is_dropped(table, names.last(), now, retention) {
        dropped_of(table, names.drop_last(), now, retention).push(names.last())
    } else {
        dropped_of(table, names.drop_last(), now, retention)
    }
}

/// The partitions of a table that are past retention, out of those that are there. Whatever is not named as one of
/// its partitions is left alone.
pub fn past_retention(table: &str, names: &Vec<String>, now: Month, retention: u32) -> (dropped: Vec<String>)
    requires
        now.well_formed(),
    ensures
        dropped.deep_view() == dropped_of(table@, names.deep_view(), now, retention),
{
    let ghost views = names.deep_view();
    let mut dropped: Vec<String> = Vec::new();
    assert(dropped.deep_view() =~= dropped_of(table@, views.take(0), now, retention));
    for i in 0..names.len()
        invariant
            now.well_formed(),
            views == names.deep_view(),
            dropped.deep_view() == dropped_of(table@, views.take(i as int), now, retention),
    {
        assert(views.take(i as int + 1).drop_last() =~= views.take(i as int));
        assert(views[i as int] == names@[i as int]@);
        if let Some(month) = month_of(table, names[i].as_str()) {
            let held: u64 = (month.year * 12 + (month.month - 1)) as u64;
            let today: u64 = (now.year * 12 + (now.month - 1)) as u64;
            if held + (retention as u64) < today {
                keep(&mut dropped, names[i].clone());
            }
        }
    }
    assert(views.take(names@.len() as int) =~= views);
    dropped
}

/// The months that have to be open now: this one and the next ones.
pub open spec fn open_of(now: Month, ahead: u32) -> Seq<Month> {
    Seq::new(ahead as nat + 1, |i: int| month_at(now.index() + i))
}

pub fn months_to_open(now: Month, ahead: u32) -> (months: Vec<Month>)
    requires
        now.well_formed(),
        now.index() + ahead < 120_000,
    ensures
        months@ == open_of(now, ahead),
        forall|i: int| 0 <= i < months@.len() ==> (#[trigger] months@[i]).well_formed(),
{
    let mut months: Vec<Month> = Vec::new();
    let mut i: u32 = 0;
    while i <= ahead
        invariant
            now.well_formed(),
            now.index() + ahead < 120_000,
            i <= ahead + 1,
            months@.len() == i,
            forall|k: int|
                0 <= k < i ==> (#[trigger] months@[k]) == month_at(now.index() + k) && months@[k].well_formed(),
        decreases ahead + 1 - i,
    {
        months.push(add_months(now, i));
        i += 1;
    }
    assert(months@ =~= open_of(now, ahead));
    months
}

/// A day as Postgres reads it: the first of a month.
pub open spec fn first_day(month: Month) -> Seq<char> {
    "'"@ + two_digits(month.year as nat / 100) + two_digits(month.year as nat % 100) + ("-"@ + two_digits(
        month.month as nat,
    ) + "-01 00:00:00+00'"@)
}

fn write_first_day(month: Month) -> (text: String)
    requires
        month.well_formed(),
    ensures
        text@ == first_day(month),
{
    let high: String = write_two(month.year / 100);
    let low: String = write_two(month.year % 100);
    let tail: String = cat3("-", write_two(month.month).as_str(), "-01 00:00:00+00'");
    cat4("'", high.as_str(), low.as_str(), tail.as_str())
}

/// The statement that opens a table's partition for a month, from its first day to the first of the next.
pub fn open_statement(table: &str, month: Month) -> (statement: String)
    requires
        month.well_formed(),
        month.index() + 1 < 120_000,
    ensures
        statement@ == "CREATE TABLE IF NOT EXISTS "@ + SCHEMA@ + "."@ + name_of(table@, month) + (" PARTITION OF "@
            + SCHEMA@ + "."@ + table@) + (" FOR VALUES FROM ("@ + first_day(month) + ") TO ("@ + first_day(
            month_at(month.index() + 1),
        ) + ")"@),
{
    let next: Month = add_months(month, 1);
    let created: String = cat4(
        "CREATE TABLE IF NOT EXISTS ",
        SCHEMA,
        ".",
        partition_name(table, month).as_str(),
    );
    let of: String = cat4(" PARTITION OF ", SCHEMA, ".", table);
    let range: String = cat5(
        " FOR VALUES FROM (",
        write_first_day(month).as_str(),
        ") TO (",
        write_first_day(next).as_str(),
        ")",
    );
    cat3(created.as_str(), of.as_str(), range.as_str())
}

/// The statement that drops a partition.
pub fn drop_statement(name: &str) -> (statement: String)
    ensures
        statement@ == "DROP TABLE IF EXISTS "@ + SCHEMA@ + "."@ + name@,
{
    cat4("DROP TABLE IF EXISTS ", SCHEMA, ".", name)
}

/// The statement that waits for the maintenance lock and holds it until the transaction ends.
pub fn lock_statement() -> (statement: String)
    ensures
        statement@ == "SELECT pg_advisory_xact_lock("@ + dec_signed(MAINTENANCE_LOCK as int) + ")"@,
{
    cat3("SELECT pg_advisory_xact_lock(", decimal_signed(MAINTENANCE_LOCK).as_str(), ")")
}

/// The tables that are there without being partitioned.
pub open spec fn plain_of(parents: Seq<Parent>, partitioned: Seq<bool>) -> Seq<Seq<char>>
    decreases parents.len(),
{
    if parents.len() == 0 {
        seq![]
    } else {
        let earlier = plain_of(parents.drop_last(), partitioned);
        let i = parents.len() - 1;
        if i < partitioned.len() && partitioned[i] {
            earlier
        } else {
            earlier.push(table_of(parents.last()))
        }
    }
}

/// The audit tables that are not partitioned, by name: creating them again would silently do nothing.
pub fn plain_parents(partitioned: &Vec<bool>) -> (plain: Vec<String>)
    ensures
        plain.deep_view() == plain_of(all_parents(), partitioned@),
{
    let all: Vec<Parent> = parents();
    let mut plain: Vec<String> = Vec::new();
    assert(plain.deep_view() =~= plain_of(all@.take(0), partitioned@));
    for i in 0..all.len()
        invariant
            plain.deep_view() == plain_of(all@.take(i as int), partitioned@),
    {
        assert(all@.take(i as int + 1).drop_last() =~= all@.take(i as int));
        if !(i < partitioned.len() && partitioned[i]) {
            keep(&mut plain, all[i].table().to_owned());
        }
    }
    assert(all@.take(all@.len() as int) =~= all@);
    plain
}

/// The partitions a sweep dropped.
#[derive(Debug, PartialEq, Eq)]
pub struct Swept {
    pub request_payloads: Vec<String>,
    pub decision_payloads: Vec<String>,
}

impl Swept {
    pub fn is_empty(&self) -> (empty: bool)
        ensures
            empty == (self.request_payloads@.len() == 0 && self.decision_payloads@.len() == 0),
    {
        self.request_payloads.len() == 0 && self.decision_payloads.len() == 0
    }
}

/// A partition's name tells its month.
pub proof fn law_a_partition_is_found_by_its_name(table: Seq<char>, month: Month)
    requires
        month.well_formed(),
    ensures
        month_named(table, name_of(table, month)) == Some(month),
{
    reveal_strlit("_y");
    reveal_strlit("m");
    let prefix = table + "_y"@;
    let name = name_of(table, month);
    let high = two_digits(month.year as nat / 100);
    let low = two_digits(month.year as nat % 100);
    let last = two_digits(month.month as nat);
    let tail = name.skip(prefix.len() as int);
    assert(name.take(prefix.len() as int) =~= prefix);
    assert(tail =~= high + low + ("m"@ + last));
    assert(tail =~= seq![high[0], high[1], low[0], low[1], 'm', last[0], last[1]]);
    lemma_digit(month.year as nat / 100 / 10);
    lemma_digit(month.year as nat / 100 % 10);
    lemma_digit(month.year as nat % 100 / 10);
    lemma_digit(month.year as nat % 100 % 10);
    lemma_digit(month.month as nat / 10);
    lemma_digit(month.month as nat % 10);
}

proof fn lemma_digit(n: nat)
    requires
        n < 10,
    ensures
        is_digit(digit(n)),
        digit_value(digit(n)) == n,
{
}

/// A payload is kept through the month after the one it was written in, and leaves once the month after that opens.
pub proof fn law_a_payload_leaves_when_the_month_after_next_opens(table: Seq<char>, written: Month, now: Month)
    requires
        written.well_formed(),
        now.well_formed(),
    ensures
        is_dropped(table, name_of(table, written), now, PAYLOAD_RETENTION_MONTHS) <==> now.index()
            >= written.index() + 2,
{
    law_a_partition_is_found_by_its_name(table, written);
}

/// A payload lives at least as long as the month after the one it was written in, and at most as long as both: never
/// less than 28 days, never more than 62.
pub proof fn law_how_long_a_payload_lives(written: Month, day: int)
    requires
        written.well_formed(),
        written.index() + 1 < 120_000,
        1 <= day <= written.days(),
    ensures
        ({
            let next = month_at(written.index() + 1);
            let whole_days_left = written.days() - day + next.days();
            &&& next.days() <= whole_days_left
            &&& whole_days_left + 1 <= written.days() + next.days()
            &&& 28 <= whole_days_left
            &&& whole_days_left + 1 <= 62
        }),
{
}

/// The next month is open before the month turns.
pub proof fn law_the_next_month_is_open(now: Month)
    requires
        now.well_formed(),
    ensures
        open_of(now, MONTHS_OPEN_AHEAD).contains(month_at(now.index() + 1)),
        open_of(now, MONTHS_OPEN_AHEAD).contains(month_at(now.index())),
{
    assert(open_of(now, MONTHS_OPEN_AHEAD)[1] == month_at(now.index() + 1));
    assert(open_of(now, MONTHS_OPEN_AHEAD)[0] == month_at(now.index()));
}

/// A month and its distance from the start of the calendar name each other, and months follow one another: December is
/// followed by the next year's January.
pub proof fn law_months_follow_one_another(month: Month)
    requires
        month.well_formed(),
    ensures
        month_at(month.index()) == month,
        month.month < 12 ==> month_at(month.index() + 1) == (Month {
            year: month.year,
            month: (month.month + 1) as u32,
        }),
        month.month == 12 ==> month_at(month.index() + 1) == (Month {
            year: (month.year + 1) as u32,
            month: 1,
        }),
{
}

/// No two months share a partition, whatever the table.
pub proof fn law_no_two_months_share_a_partition(table: Seq<char>, one: Month, other: Month)
    requires
        one.well_formed(),
        other.well_formed(),
    ensures
        name_of(table, one) == name_of(table, other) <==> one == other,
        starts_with_of(name_of(table, one), table + "_y"@),
{
    law_a_partition_is_found_by_its_name(table, one);
    law_a_partition_is_found_by_its_name(table, other);
}

/// A partition begins on the first day of its month, written with the year, the month and the day in that order.
pub proof fn law_a_month_begins_on_its_first_day(month: Month)
    requires
        month.well_formed(),
    ensures
        first_day(month).len() == 24,
        first_day(month).take(1) == "'"@,
        digits_value(first_day(month).subrange(1, 5)) == month.year,
        first_day(month)[5] == '-',
        digits_value(first_day(month).subrange(6, 8)) == month.month,
        first_day(month).skip(8) == "-01 00:00:00+00'"@,
{
    reveal_strlit("'");
    reveal_strlit("-");
    reveal_strlit("-01 00:00:00+00'");
    reveal_with_fuel(digits_value, 5);
    let high = two_digits(month.year as nat / 100);
    let low = two_digits(month.year as nat % 100);
    let last = two_digits(month.month as nat);
    let day = first_day(month);
    lemma_digit(month.year as nat / 100 / 10);
    lemma_digit(month.year as nat / 100 % 10);
    lemma_digit(month.year as nat % 100 / 10);
    lemma_digit(month.year as nat % 100 % 10);
    lemma_digit(month.month as nat / 10);
    lemma_digit(month.month as nat % 10);
    assert(day.take(1) =~= "'"@);
    assert(day.skip(8) =~= "-01 00:00:00+00'"@);
    let year = day.subrange(1, 5);
    assert(year =~= seq![high[0], high[1], low[0], low[1]]);
    assert(year.drop_last() =~= seq![high[0], high[1], low[0]]);
    assert(year.drop_last().drop_last() =~= seq![high[0], high[1]]);
    assert(year.drop_last().drop_last().drop_last() =~= seq![high[0]]);
    assert(year.drop_last().drop_last().drop_last().drop_last() =~= seq![]);
    let number = day.subrange(6, 8);
    assert(number =~= seq![last[0], last[1]]);
    assert(number.drop_last() =~= seq![last[0]]);
    assert(number.drop_last().drop_last() =~= seq![]);
}

/// What is dropped are partitions of the table that were there and whose month lies before the first one that is kept,
/// all of them and nothing else, in the order they were found.
pub proof fn law_only_what_is_past_retention_is_dropped(
    table: Seq<char>,
    names: Seq<Seq<char>>,
    now: Month,
    retention: u32,
    name: Seq<char>,
)
    ensures
        dropped_of(table, names, now, retention).contains(name) <==> names.contains(name) && (month_named(
            table,
            name,
        ) matches Some(month) && month.index() + retention < now.index()),
        dropped_of(table, names, now, retention).len() <= names.len(),
        month_named(table, name) matches Some(month) ==> 1 <= month.month <= 12 && starts_with_of(
            name,
            table + "_y"@,
        ) && name.len() == table.len() + 9,
    decreases names.len(),
{
    reveal_strlit("_y");
    if names.len() > 0 {
        let before = names.drop_last();
        law_only_what_is_past_retention_is_dropped(table, before, now, retention, name);
        let kept = dropped_of(table, before, now, retention);
        assert(names.contains(name) <==> before.contains(name) || names.last() == name) by {
            if names.contains(name) {
                let k = choose|k: int| 0 <= k < names.len() && names[k] == name;
                if k < before.len() {
                    assert(before[k] == name);
                }
            }
            if before.contains(name) {
                let k = choose|k: int| 0 <= k < before.len() && before[k] == name;
                assert(names[k] == name);
            }
        }
        let after = kept.push(names.last());
        assert(after.contains(name) <==> kept.contains(name) || names.last() == name) by {
            assert(after[kept.len() as int] == names.last());
            if after.contains(name) {
                let k = choose|k: int| 0 <= k < after.len() && after[k] == name;
                if k < kept.len() {
                    assert(kept[k] == name);
                }
            }
            if kept.contains(name) {
                let k = choose|k: int| 0 <= k < kept.len() && kept[k] == name;
                assert(after[k] == name);
            }
        }
    }
}

/// The months that are open are this one and as many after it, in order.
pub proof fn law_the_months_that_are_open(now: Month, ahead: u32, i: int)
    requires
        now.well_formed(),
        now.index() + ahead < 120_000,
        0 <= i <= ahead,
    ensures
        open_of(now, ahead).len() == ahead + 1,
        open_of(now, ahead)[0] == now,
        open_of(now, ahead)[i].index() == now.index() + i,
        open_of(now, ahead)[i].well_formed(),
{
}

/// Each kind of row has a table of its own.
pub proof fn law_each_kind_of_row_has_its_own_table(one: Parent, other: Parent)
    ensures
        table_of(one) == table_of(other) <==> one == other,
        table_of(Parent::Requests) == "requests"@,
        table_of(Parent::RequestPayloads) == "request_payloads"@,
        table_of(Parent::Decisions) == "decisions"@,
        table_of(Parent::DecisionPayloads) == "decision_payloads"@,
        all_parents().no_duplicates(),
        all_parents().contains(one),
{
    reveal_strlit("requests");
    reveal_strlit("request_payloads");
    reveal_strlit("decisions");
    reveal_strlit("decision_payloads");
    assert("requests"@.len() == 8 && "request_payloads"@.len() == 16 && "decisions"@.len() == 9
        && "decision_payloads"@.len() == 17);
    let all = all_parents();
    assert(all[0] == Parent::Requests && all[1] == Parent::RequestPayloads && all[2] == Parent::Decisions
        && all[3] == Parent::DecisionPayloads);
}

/// The table that a statement creates is the one of its own kind.
pub proof fn law_a_statement_creates_its_own_table(parent: Parent)
    ensures
        starts_with_of(
            statement_of(parent),
            "CREATE TABLE IF NOT EXISTS llm_router."@ + table_of(parent) + " ("@,
        ),
{
    reveal_strlit("CREATE TABLE IF NOT EXISTS llm_router.");
    reveal_strlit("requests");
    reveal_strlit("request_payloads");
    reveal_strlit("decisions");
    reveal_strlit("decision_payloads");
    reveal_strlit(" (");
    let start = "CREATE TABLE IF NOT EXISTS llm_router."@ + table_of(parent) + " ("@;
    match parent {
        Parent::Requests => {
            reveal_strlit("CREATE TABLE IF NOT EXISTS llm_router.requests ( id bigserial NOT NULL, tier varchar(32) NOT NULL, model_used varchar(128) NOT NULL, used_backup boolean NOT NULL, tokens_in integer NOT NULL, tokens_out integer NOT NULL, latency_ms integer NOT NULL, outcome varchar(16) NOT NULL, finish_reason varchar(32) NOT NULL, created_at timestamptz NOT NULL, PRIMARY KEY (created_at, id) ) PARTITION BY RANGE (created_at)");
        },
        Parent::RequestPayloads => {
            reveal_strlit("CREATE TABLE IF NOT EXISTS llm_router.request_payloads ( id bigserial NOT NULL, request_id bigint NOT NULL, sent jsonb NOT NULL, received jsonb NOT NULL, created_at timestamptz NOT NULL, PRIMARY KEY (created_at, id), UNIQUE (created_at, request_id) ) PARTITION BY RANGE (created_at)");
        },
        Parent::Decisions => {
            reveal_strlit("CREATE TABLE IF NOT EXISTS llm_router.decisions ( id bigserial NOT NULL, model_used varchar(128) NOT NULL, questions smallint NOT NULL, tokens_in integer NOT NULL, tokens_out integer NOT NULL, latency_ms integer NOT NULL, outcome varchar(16) NOT NULL, created_at timestamptz NOT NULL, PRIMARY KEY (created_at, id) ) PARTITION BY RANGE (created_at)");
        },
        Parent::DecisionPayloads => {
            reveal_strlit("CREATE TABLE IF NOT EXISTS llm_router.decision_payloads ( id bigserial NOT NULL, decision_id bigint NOT NULL, sent jsonb NOT NULL, received jsonb NOT NULL, created_at timestamptz NOT NULL, PRIMARY KEY (created_at, id), UNIQUE (created_at, decision_id) ) PARTITION BY RANGE (created_at)");
        },
    }
    assert(statement_of(parent).take(start.len() as int) =~= start);
}

/// Every table that is not partitioned is named, and none that is.
pub proof fn law_every_plain_table_is_named(parents: Seq<Parent>, partitioned: Seq<bool>, i: int)
    requires
        0 <= i < parents.len(),
        parents.len() <= partitioned.len(),
        parents.no_duplicates(),
    ensures
        plain_of(parents, partitioned).contains(table_of(parents[i])) <==> !partitioned[i],
    decreases parents.len(),
{
    let before = parents.drop_last();
    let last = parents.len() - 1;
    let named = plain_of(before, partitioned);
    lemma_plain_names(before, partitioned, table_of(parents.last()));
    if i < last {
        law_each_kind_of_row_has_its_own_table(parents[i], parents[last]);
        law_every_plain_table_is_named(before, partitioned, i);
        let after = named.push(table_of(parents.last()));
        assert(after.contains(table_of(parents[i])) <==> named.contains(table_of(parents[i]))) by {
            if after.contains(table_of(parents[i])) {
                let k = choose|k: int| 0 <= k < after.len() && after[k] == table_of(parents[i]);
                assert(k < named.len());
                assert(named[k] == table_of(parents[i]));
            }
            if named.contains(table_of(parents[i])) {
                let k = choose|k: int| 0 <= k < named.len() && named[k] == table_of(parents[i]);
                assert(after[k] == table_of(parents[i]));
            }
        }
    } else if !partitioned[i] {
        let after = named.push(table_of(parents.last()));
        assert(after[named.len() as int] == table_of(parents[i]));
    } else if named.contains(table_of(parents[i])) {
        let k = choose|k: int|
            0 <= k < before.len() && table_of(#[trigger] before[k]) == table_of(parents.last());
        law_each_kind_of_row_has_its_own_table(parents[k], parents[last]);
    }
}

proof fn lemma_plain_names(parents: Seq<Parent>, partitioned: Seq<bool>, name: Seq<char>)
    ensures
        plain_of(parents, partitioned).contains(name) ==> exists|k: int|
            0 <= k < parents.len() && table_of(#[trigger] parents[k]) == name,
    decreases parents.len(),
{
    if parents.len() > 0 && plain_of(parents, partitioned).contains(name) {
        let before = parents.drop_last();
        let named = plain_of(before, partitioned);
        lemma_plain_names(before, partitioned, name);
        let all = plain_of(parents, partitioned);
        let at = choose|at: int| 0 <= at < all.len() && all[at] == name;
        if at < named.len() {
            assert(named[at] == name);
            let k = choose|k: int| 0 <= k < before.len() && table_of(#[trigger] before[k]) == name;
            assert(table_of(parents[k]) == name);
        } else {
            assert(table_of(parents[parents.len() - 1]) == name);
        }
    }
}

/// How many days a month has.
pub proof fn law_how_many_days_a_month_has(month: Month)
    requires
        month.well_formed(),
    ensures
        28 <= month.days() <= 31,
        month.month == 2 ==> (month.days() == 29 <==> (month.year % 4 == 0 && month.year % 100 != 0) || month.year
            % 400 == 0),
        month.month == 2 ==> month.days() <= 29,
        month.month == 4 || month.month == 6 || month.month == 9 || month.month == 11 <==> month.days() == 30,
{
}

} // verus!
