//! The run logs: the third root under Epik's home, and the only one that
//! is not a cache.
//!
//! Every conducted run writes its full event stream — `FeatureEvent`s for
//! a feature run, `RunEvent`s for an issue run — as JSON lines to one file
//! per run, `<logs>/<owner>/<name>/<kind>-<number>-<start>.jsonl`, where
//! `<start>` is the run's wall-clock start in RFC 3339 spelled with `-`
//! for `:`, which some filesystems refuse. The contract is the opposite
//! of [`crate::git`]'s roots: `repos/` and `work/` are caches of GitHub,
//! deletable at the cost of time alone, while the log is the only copy of
//! the run's narration — no Epik code deletes it, and the file is opened
//! to append, so nothing ever truncates what an earlier run wrote.

use crate::github::Repo;
use crate::preflight;
use crate::text;
use vstd::prelude::*;

pub mod laws;

verus! {

/// Where the run logs live under Epik's home.
pub const LOGS: &'static str = "logs";

/// Which run a log narrates: the file name's first word.
#[derive(Clone, Copy, Debug, Eq, PartialEq, Structural)]
pub enum Kind {
    Feature,
    Issue,
}

impl Kind {
    /// The kind in words.
    pub open spec fn words(&self) -> Seq<char> {
        match self {
            Kind::Feature => "feature"@,
            Kind::Issue => "issue"@,
        }
    }

    /// The kind in words.
    pub fn to_string(&self) -> (r: String)
        ensures
            r@ == self.words(),
    {
        match self {
            Kind::Feature => "feature".to_owned(),
            Kind::Issue => "issue".to_owned(),
        }
    }
}

// ----- the calendar -----

/// Whether a year has a 29th of February.
pub open spec fn is_leap(year: int) -> bool {
    year % 4 == 0 && (year % 100 != 0 || year % 400 == 0)
}

/// How many days a year has.
pub open spec fn days_in_year(year: int) -> int {
    if is_leap(year) {
        366
    } else {
        365
    }
}

/// How many days a month has.
pub open spec fn days_in_month(year: int, month: int) -> int {
    if month == 2 {
        if is_leap(year) {
            29
        } else {
            28
        }
    } else if month == 4 || month == 6 || month == 9 || month == 11 {
        30
    } else {
        31
    }
}

/// How many days there are from the epoch to a year's first.
pub open spec fn days_before_year(year: int) -> int
    decreases year,
{
    if year <= 1970 {
        0
    } else {
        days_before_year(year - 1) + days_in_year(year - 1)
    }
}

/// How many days of a year there are before a month's first.
pub open spec fn days_before_month(year: int, month: int) -> int
    decreases month,
{
    if month <= 1 {
        0
    } else {
        days_before_month(year, month - 1) + days_in_month(year, month - 1)
    }
}

/// A day of the civil calendar.
#[derive(Clone, Copy, Debug, Eq, PartialEq, Structural)]
pub struct Date {
    pub year: u64,
    pub month: u64,
    pub day: u64,
}

impl Date {
    /// Whether there is such a day, from the epoch on.
    pub open spec fn is_civil(&self) -> bool {
        &&& 1970 <= self.year
        &&& 1 <= self.month <= 12
        &&& 1 <= self.day <= days_in_month(self.year as int, self.month as int)
    }

    /// How many days after the epoch it is.
    pub open spec fn days(&self) -> int {
        days_before_year(self.year as int) + days_before_month(
            self.year as int,
            self.month as int,
        ) + self.day - 1
    }
}

/// How many leap years there are before a year, from the year nought on.
spec fn leaps(year: int) -> int {
    (year - 1) / 4 - (year - 1) / 100 + (year - 1) / 400
}

/// The days before a year, counted at once.
proof fn days_before_year_counted(year: int)
    requires
        year >= 1970,
    ensures
        days_before_year(year) == 365 * (year - 1970) + leaps(year) - 477,
    decreases year,
{
    if year > 1970 {
        days_before_year_counted(year - 1);
        leaps_step(year - 1);
    }
}

/// Each year adds itself to the leap years before the next.
proof fn leaps_step(year: int)
    ensures
        leaps(year + 1) == leaps(year) + if is_leap(year) {
            1int
        } else {
            0int
        },
{
    assert(year / 4 == (year - 1) / 4 + if year % 4 == 0 {
        1int
    } else {
        0int
    });
    assert(year / 100 == (year - 1) / 100 + if year % 100 == 0 {
        1int
    } else {
        0int
    });
    assert(year / 400 == (year - 1) / 400 + if year % 400 == 0 {
        1int
    } else {
        0int
    });
}

/// The days before a month, counted from March where it comes after
/// February.
proof fn days_before_month_counted(year: int, month: int)
    requires
        1 <= month <= 12,
    ensures
        month == 1 ==> days_before_month(year, month) == 0,
        month == 2 ==> days_before_month(year, month) == 31,
        month >= 3 ==> days_before_month(year, month) == 31 + days_in_month(year, 2) + (153 * (month
            - 3) + 2) / 5,
{
    reveal_with_fuel(days_before_month, 13);
}

/// Which year of its era of four hundred a day falls in, when years begin
/// in March.
proof fn year_of_era(doe: int, yoe: int)
    requires
        0 <= doe < 146_097,
        yoe == (doe - doe / 1_460 + doe / 36_524 - doe / 146_096) / 365,
    ensures
        0 <= yoe < 400,
        0 <= doe - (365 * yoe + yoe / 4 - yoe / 100) <= 365,
        doe - (365 * yoe + yoe / 4 - yoe / 100) == 365 ==> is_leap(yoe + 1),
{
    let century = doe / 36_524;
    let last = doe / 146_096;
    assert(0 <= century <= 4);
    assert(0 <= last <= 1);
    let n = doe - doe / 1_460 + century - last;
    assert(365 * yoe <= n < 365 * yoe + 365);
}

/// Which month a day of a year that begins in March falls in.
proof fn month_of_year(doy: int, mp: int)
    requires
        0 <= doy <= 365,
        mp == (5 * doy + 2) / 153,
    ensures
        0 <= mp <= 11,
        (153 * mp + 2) / 5 <= doy,
        mp < 11 ==> doy < (153 * (mp + 1) + 2) / 5,
{
}

/// The day of the civil calendar that is so many days after the epoch.
pub fn civil(days: u64) -> (date: Date)
    requires
        days <= u64::MAX / 86_400,
    ensures
        date.is_civil(),
        date.days() == days,
{
    // Civil-from-days (Howard Hinnant's algorithm) in the 0000-03-01 era;
    // unsigned arithmetic suffices for any post-epoch clock.
    let shifted: u64 = days + 719_468;
    let era: u64 = shifted / 146_097;
    let doe: u64 = shifted % 146_097;
    let yoe: u64 = (doe - doe / 1_460 + doe / 36_524 - doe / 146_096) / 365;
    proof {
        year_of_era(doe as int, yoe as int);
    }
    let doy: u64 = doe - (365 * yoe + yoe / 4 - yoe / 100);
    let mp: u64 = (5 * doy + 2) / 153;
    proof {
        month_of_year(doy as int, mp as int);
    }
    let day: u64 = doy - (153 * mp + 2) / 5 + 1;
    let month: u64 = if mp < 10 {
        mp + 3
    } else {
        mp - 9
    };
    let year: u64 = yoe + era * 400 + if month <= 2 {
        1
    } else {
        0
    };
    let date = Date { year, month, day };
    proof {
        let march = yoe + era * 400;
        era_of_leaps(era as int, yoe as int);
        assert(year >= 1970) by {
            if year < 1970 {
                assert(march <= 1969);
                assert(era <= 4);
                assert(shifted == era * 146_097 + doe);
            }
        }
        days_before_year_counted(year as int);
        days_before_month_counted(year as int, month as int);
        if mp < 10 {
            leaps_step(march);
        }
    }
    date
}

/// The leap years of whole eras, and of the years into the last.
proof fn era_of_leaps(era: int, yoe: int)
    requires
        0 <= era,
        0 <= yoe < 400,
    ensures
        leaps(yoe + era * 400 + 1) == era * 97 + yoe / 4 - yoe / 100,
        is_leap(yoe + era * 400 + 1) == is_leap(yoe + 1),
{
}

/// Law: no two days of the calendar are as many days after the epoch, so
/// the days after the epoch say which day it is.
pub proof fn a_day_has_one_date(a: Date, b: Date)
    requires
        a.is_civil(),
        b.is_civil(),
        a.days() == b.days(),
    ensures
        a == b,
{
    within_its_year(a);
    within_its_year(b);
    if a.year < b.year {
        years_mount(a.year as int, b.year as int);
    } else if b.year < a.year {
        years_mount(b.year as int, a.year as int);
    } else if a.month < b.month {
        months_mount(a.year as int, a.month as int, b.month as int);
    } else if b.month < a.month {
        months_mount(a.year as int, b.month as int, a.month as int);
    }
}

/// A later year has all of an earlier one before it.
proof fn years_mount(a: int, b: int)
    requires
        1970 <= a < b,
    ensures
        days_before_year(a) + days_in_year(a) <= days_before_year(b),
    decreases b,
{
    if a < b - 1 {
        years_mount(a, b - 1);
    }
}

/// A later month has all of an earlier one before it.
proof fn months_mount(year: int, a: int, b: int)
    requires
        1 <= a < b <= 13,
    ensures
        days_before_month(year, a) + days_in_month(year, a) <= days_before_month(year, b),
    decreases b,
{
    if a < b - 1 {
        months_mount(year, a, b - 1);
    }
}

/// A day is within its year.
proof fn within_its_year(date: Date)
    requires
        date.is_civil(),
    ensures
        0 <= days_before_month(date.year as int, date.month as int) + date.day - 1 < days_in_year(
            date.year as int,
        ),
{
    months_mount(date.year as int, date.month as int, 13);
    assert(days_before_month(date.year as int, 13) == days_in_year(date.year as int)) by {
        reveal_with_fuel(days_before_month, 14);
    }
    assert(days_before_month(date.year as int, date.month as int) >= 0) by {
        if date.month > 1 {
            months_mount(date.year as int, 1, date.month as int);
        }
    }
}

// ----- the names -----

/// A start as UTC RFC 3339 to the second, with `-` for `:`.
pub open spec fn spelled(date: Date, seconds: nat) -> Seq<char> {
    text::padded(date.year as nat, 4) + "-"@ + text::padded(date.month as nat, 2) + "-"@
        + text::padded(date.day as nat, 2) + "T"@ + text::padded(seconds / 3600 % 24, 2) + "-"@
        + text::padded(seconds / 60 % 60, 2) + "-"@ + text::padded(seconds % 60, 2) + "Z"@
}

/// The spelling of a start, so many seconds after the epoch.
pub open spec fn stamped(seconds: nat, stamp: Seq<char>) -> bool {
    exists|date: Date|
        #![trigger date.is_civil()]
        date.is_civil() && date.days() == seconds / 86_400 && stamp == spelled(date, seconds)
}

/// A start, in seconds since the epoch. A clock before 1970 is a broken
/// clock; the epoch is as honest a name for its readings as any.
pub open spec fn since_epoch(start: int) -> nat {
    if start < 0 {
        0
    } else {
        start as nat
    }
}

/// A start, so many seconds after the epoch or, below zero, before it, as
/// UTC RFC 3339 to the second, with `-` for `:` — colons are illegal in
/// file names on some filesystems, and nothing else about the form needs to
/// bend.
pub fn stamp(start: i64) -> (r: String)
    ensures
        stamped(since_epoch(start as int), r@),
{
    let seconds: u64 = if start < 0 {
        0
    } else {
        start as u64
    };
    let date = civil(seconds / 86_400);
    let year = text::zero_padded(date.year, 4);
    let month = text::zero_padded(date.month, 2);
    let day = text::zero_padded(date.day, 2);
    let hours = text::zero_padded(seconds / 3600 % 24, 2);
    let minutes = text::zero_padded(seconds / 60 % 60, 2);
    let secs = text::zero_padded(seconds % 60, 2);
    let front = text::cat5(year.as_str(), "-", month.as_str(), "-", day.as_str());
    let middle = text::cat5(front.as_str(), "T", hours.as_str(), "-", minutes.as_str());
    let r = text::cat4(middle.as_str(), "-", secs.as_str(), "Z");
    proof {
        assert(r@ == spelled(date, seconds as nat));
        assert(date.is_civil());
    }
    r
}

/// Law: a start has one spelling.
pub proof fn a_start_has_one_stamp(seconds: nat, a: Seq<char>, b: Seq<char>)
    requires
        stamped(seconds, a),
        stamped(seconds, b),
    ensures
        a == b,
{
    let first = choose|date: Date|
        #![trigger date.is_civil()]
        date.is_civil() && date.days() == seconds / 86_400 && a == spelled(date, seconds);
    let second = choose|date: Date|
        #![trigger date.is_civil()]
        date.is_civil() && date.days() == seconds / 86_400 && b == spelled(date, seconds);
    a_day_has_one_date(first, second);
}

/// The log root, held: one value says where the narration lands.
#[derive(Clone, Debug, Eq, PartialEq)]
pub struct Logs {
    root: String,
}

impl View for Logs {
    type V = Seq<char>;

    closed spec fn view(&self) -> Seq<char> {
        self.root@
    }
}

impl Logs {
    /// The root beneath Epik's home.
    pub fn new(home: &str) -> (r: Self)
        ensures
            r@ == preflight::within(home@, LOGS@),
    {
        Logs { root: preflight::join(home, LOGS) }
    }

    /// A root where the caller says.
    pub fn rooted(root: &str) -> (r: Self)
        ensures
            r@ == root@,
    {
        Logs { root: root.to_owned() }
    }

    /// The directory that holds a repository's logs.
    pub open spec fn directory_of(&self, repo: Repo) -> Seq<char> {
        preflight::within(preflight::within(self@, repo.owner@), repo.name@)
    }

    /// The directory that holds a repository's logs.
    pub fn directory(&self, repo: &Repo) -> (r: String)
        ensures
            r@ == self.directory_of(*repo),
    {
        let owner = preflight::join(self.root.as_str(), repo.owner.as_str());
        preflight::join(owner.as_str(), repo.name.as_str())
    }

    /// Where a `kind` run of `number` that started so many seconds after
    /// the epoch writes its log, whether or not it exists yet.
    pub fn path(&self, repo: &Repo, kind: Kind, number: u64, start: i64) -> (r: String)
        ensures
            exists|stamp: Seq<char>| #[trigger]
                stamped(since_epoch(start as int), stamp) && r@ == preflight::within(
                    self.directory_of(*repo),
                    kind.words() + "-"@ + text::decimal(number as nat) + "-"@ + stamp + ".jsonl"@,
                ),
    {
        let directory = self.directory(repo);
        let kind = kind.to_string();
        let number = text::number(number);
        let stamp = stamp(start);
        let front = text::cat4(kind.as_str(), "-", number.as_str(), "-");
        let name = text::cat3(front.as_str(), stamp.as_str(), ".jsonl");
        proof {
            assert(stamped(since_epoch(start as int), stamp@));
        }
        preflight::join(directory.as_str(), name.as_str())
    }
}

} // verus!
