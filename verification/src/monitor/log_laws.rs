//! What holds of every log and of everyone who reads one.

use crate::monitor;
use crate::monitor::{Change, Entry, Log, Polled, Progress, Watch};
use crate::feature::RunId;
use vstd::prelude::*;

verus! {

/// Law: what is recorded is the next entry of the log, under the next
/// number and with the clock's own stamp; everything before it stays.
pub proof fn a_change_is_the_next_entry<C: Fn() -> u64>(log: &mut Log<C>, change: Change)
    requires
        call_ensures(Log::<C>::record, (log, change), ()),
    ensures
        final(log)@.len() == old(log)@.len() + 1,
        final(log)@.drop_last() == old(log)@,
        final(log)@.last().change == change@,
        final(log)@.last().seq == old(log)@.len() as u64,
        call_ensures(old(log).stamped_by(), (), final(log)@.last().at),
{
    assert(final(log)@.drop_last() =~= old(log)@);
}

/// Law: a reader is given every entry from its place on, in order, and none
/// where there is none.
pub proof fn a_reader_is_given_the_rest<C: Fn() -> u64>(
    log: &Log<C>,
    cursor: u64,
    r: Vec<Entry>,
    k: int,
)
    requires
        log.wf(),
        call_ensures(Log::<C>::since, (log, cursor), r),
    ensures
        cursor <= log@.len() ==> r@.len() == log@.len() - cursor,
        cursor > log@.len() ==> r@.len() == 0,
        0 <= k < r@.len() ==> r@[k]@ == log@[cursor + k],
{
    assert(monitor::entry_views(r@).len() == r@.len());
    if 0 <= k < r@.len() {
        assert(monitor::entry_views(r@)[k] == r@[k]@);
    }
}

/// Law: a reader that waits is answered as soon as there is an entry for
/// it, is told that there is none once its time is up, and waits else, for
/// what is left of its time.
pub proof fn a_reader_waits_for_what_is_left<C: Fn() -> u64>(
    log: &Log<C>,
    cursor: u64,
    waited: u64,
    timeout: u64,
    r: Polled,
)
    requires
        log.wf(),
        call_ensures(Log::<C>::wait_after, (log, cursor, waited, timeout), r),
    ensures
        cursor < log@.len() ==> r is Entries && r->Entries_0@.len() == log@.len() - cursor,
        cursor >= log@.len() && waited >= timeout ==> r is Entries && r->Entries_0@.len() == 0,
        cursor >= log@.len() && waited < timeout ==> r is Wait && r->Wait_0 == timeout - waited,
{
    if r is Entries {
        assert(monitor::entry_views(r->Entries_0@).len() == r->Entries_0@.len());
    }
}

/// Law: an entry counts just when it is newer than what was applied, and
/// one that does not changes nothing.
pub proof fn an_entry_counts_once(progress: &mut Progress, entry: &Entry, r: bool)
    requires
        call_ensures(Progress::absorb, (progress, entry), r),
    ensures
        r <==> old(progress)@.applied is None || entry.seq > old(progress)@.applied->0,
        !r ==> final(progress)@ == old(progress)@,
        r ==> final(progress)@.applied == Some(entry.seq),
        final(progress)@ == old(progress)@.after(entry@),
{
}

/// Law: a build is watched just where it was reserved, and is that build.
pub proof fn a_watch_is_of_its_run(progress: &Progress, run: RunId, r: Option<&Watch>)
    requires
        progress.wf(),
        call_ensures(Progress::watch, (progress, run), r),
    ensures
        r is Some <==> progress@.watches.dom().contains(run.0),
        r is Some ==> (r->0)@ == progress@.watches[run.0],
{
}

} // verus!
