//! What holds of every log's name.

use crate::github::Repo;
use crate::logs;
use crate::logs::{Date, Kind, Logs};
use crate::preflight;
use crate::text;
use vstd::prelude::*;

verus! {

/// Law: the calendar opens at the epoch.
pub proof fn the_calendar_opens_at_the_epoch(r: Date)
    requires
        call_ensures(logs::civil, (0u64,), r),
    ensures
        r.year == 1970,
        r.month == 1,
        r.day == 1,
{
    let first = Date { year: 1970, month: 1, day: 1 };
    assert(first.is_civil());
    assert(first.days() == 0) by {
        reveal_with_fuel(logs::days_before_year, 2);
        reveal_with_fuel(logs::days_before_month, 2);
    }
    logs::a_day_has_one_date(r, first);
}

/// How many days a month has, counted out.
pub open spec fn month_lasts(year: int, month: int) -> int {
    if month == 2 {
        if year % 400 == 0 || (year % 4 == 0 && year % 100 != 0) {
            29
        } else {
            28
        }
    } else if month == 4 || month == 6 || month == 9 || month == 11 {
        30
    } else {
        31
    }
}

/// Law: a day is followed by the next: within the month while it lasts,
/// then by the first of the next month, and after the last of December by
/// the first of January a year on.
pub proof fn a_day_is_followed_by_the_next(days: u64, today: Date, tomorrow: Date)
    requires
        days < u64::MAX,
        call_ensures(logs::civil, (days,), today),
        call_ensures(logs::civil, ((days + 1) as u64,), tomorrow),
        today.year < u64::MAX,
    ensures
        ({
            let last = month_lasts(today.year as int, today.month as int);
            &&& today.day <= last
            &&& today.day < last ==> tomorrow == (Date {
                day: (today.day + 1) as u64,
                ..today
            })
            &&& today.day == last && today.month < 12 ==> tomorrow == (Date {
                year: today.year,
                month: (today.month + 1) as u64,
                day: 1,
            })
            &&& today.day == last && today.month == 12 ==> tomorrow == (Date {
                year: (today.year + 1) as u64,
                month: 1,
                day: 1,
            })
        }),
{
    let last = month_lasts(today.year as int, today.month as int);
    assert(last == logs::days_in_month(today.year as int, today.month as int));
    if today.day < last {
        let next = Date { day: (today.day + 1) as u64, ..today };
        assert(next.is_civil());
        assert(next.days() == days + 1);
        logs::a_day_has_one_date(tomorrow, next);
    } else if today.month < 12 {
        let next = Date { year: today.year, month: (today.month + 1) as u64, day: 1 };
        assert(next.is_civil());
        assert(next.days() == days + 1);
        logs::a_day_has_one_date(tomorrow, next);
    } else {
        let next = Date { year: (today.year + 1) as u64, month: 1, day: 1 };
        assert(next.is_civil());
        assert(logs::days_before_month(today.year as int, 12) + 31 == logs::days_in_year(
            today.year as int,
        )) by {
            reveal_with_fuel(logs::days_before_month, 13);
        }
        assert(logs::days_before_month(next.year as int, 1) == 0);
        assert(next.days() == days + 1);
        logs::a_day_has_one_date(tomorrow, next);
    }
}

/// Law: a start is stamped with its own date, year first, and then with its
/// hour, its minute and its second; one before the epoch is stamped as the
/// epoch.
pub proof fn a_start_is_stamped_with_its_date_and_time(start: i64, date: Date, r: String)
    requires
        start >= 0,
        call_ensures(logs::civil, ((start as u64 / 86_400) as u64,), date),
        call_ensures(logs::stamp, (start,), r),
    ensures
        ({
            let second = start as nat % 60;
            let minute = start as nat / 60 % 60;
            let hour = start as nat / 3600 % 24;
            r@ == text::padded(date.year as nat, 4) + "-"@ + text::padded(date.month as nat, 2)
                + "-"@ + text::padded(date.day as nat, 2) + "T"@ + text::padded(hour, 2) + "-"@
                + text::padded(minute, 2) + "-"@ + text::padded(second, 2) + "Z"@
        }),
{
    let seconds = logs::since_epoch(start as int);
    let other = choose|date: Date|
        #![trigger date.is_civil()]
        date.is_civil() && date.days() == seconds / 86_400 && r@ == logs::spelled(date, seconds);
    logs::a_day_has_one_date(date, other);
}

/// Law: a start before the epoch is stamped as the epoch itself.
pub proof fn before_the_epoch_is_the_epoch(start: i64, r: String, epoch: String)
    requires
        start < 0,
        call_ensures(logs::stamp, (start,), r),
        call_ensures(logs::stamp, (0i64,), epoch),
    ensures
        r@ == epoch@,
{
    logs::a_start_has_one_stamp(0, r@, epoch@);
}

/// Law: a log lies in its repository's directory, under its owner's, and is
/// named by its kind, its number and its start.
pub proof fn a_log_is_named_by_its_run(
    root: &str,
    held: &Logs,
    repo: &Repo,
    kind: Kind,
    number: u64,
    start: i64,
    stamp: String,
    word: String,
    r: String,
)
    requires
        call_ensures(Logs::rooted, (root,), *held),
        call_ensures(logs::stamp, (start,), stamp),
        call_ensures(Kind::to_string, (&kind,), word),
        call_ensures(Logs::path, (held, repo, kind, number, start), r),
    ensures
        word@ == (if kind is Feature {
            "feature"@
        } else {
            "issue"@
        }),
        r@ == preflight::within(
            preflight::within(preflight::within(root@, repo.owner@), repo.name@),
            word@ + "-"@ + text::decimal(number as nat) + "-"@ + stamp@ + ".jsonl"@,
        ),
{
    let seconds = logs::since_epoch(start as int);
    let other = choose|stamp: Seq<char>| #[trigger]
        logs::stamped(seconds, stamp) && r@ == preflight::within(
            held.directory_of(*repo),
            kind.words() + "-"@ + text::decimal(number as nat) + "-"@ + stamp + ".jsonl"@,
        );
    logs::a_start_has_one_stamp(seconds, stamp@, other);
}

} // verus!
