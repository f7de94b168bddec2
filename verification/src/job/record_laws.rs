//! What holds of every record of a run.

use crate::agent::claude_code;
use crate::agent::claude_code::Update;
use crate::job;
use crate::job::{Commits, Event, Order, Phase, Record, Workspace};
use crate::text;
use vstd::prelude::*;

verus! {

/// Law: a record opens as its order and its workspace, running, with
/// nothing told and nothing observed.
pub proof fn a_record_opens_running(order: Order, workspace: Workspace, r: Record)
    requires
        call_ensures(Record::new, (order, workspace), r),
    ensures
        r.order == order,
        r.workspace == workspace,
        r.phase is Running,
        r.narration@.len() == 0,
        r.stderr@.len() == 0,
        r.commits is None,
{
}

/// Law: an exit ends the run with that exit; a line of either stream does
/// not; and no event changes what was ordered or observed.
pub proof fn an_event_moves_its_own_part(record: &mut Record, event: Event)
    requires
        call_ensures(Record::absorb, (record, event), ()),
    ensures
        final(record).order == old(record).order,
        final(record).workspace == old(record).workspace,
        final(record).commits == old(record).commits,
        event is Exited ==> final(record).phase == Phase::Finished(event->Exited_0),
        !(event is Exited) ==> final(record).phase == old(record).phase,
        !(event is Stdout) ==> claude_code::update_views(final(record).narration@)
            == claude_code::update_views(old(record).narration@),
        !(event is Stderr) ==> text::views(final(record).stderr@) == text::views(
            old(record).stderr@,
        ),
{
}

/// Law: a line of stderr is kept after those before it, and of more than
/// fifty only the oldest is let go.
pub proof fn stderr_keeps_its_newest_lines(record: &mut Record, event: Event)
    requires
        call_ensures(Record::absorb, (record, event), ()),
        event is Stderr,
        old(record).stderr@.len() <= 50,
    ensures
        final(record).stderr@.len() > 0,
        final(record).stderr@.last()@ == event->Stderr_line@,
        old(record).stderr@.len() < 50 ==> final(record).stderr@.len() == old(record).stderr@.len()
            + 1,
        old(record).stderr@.len() == 50 ==> final(record).stderr@.len() == 50,
{
    let after = text::views(final(record).stderr@);
    assert(after.len() == final(record).stderr@.len());
    assert(text::views(old(record).stderr@).len() == old(record).stderr@.len());
    assert(after.last() == final(record).stderr@.last()@);
}

/// Law: what a line of stdout came to is told after what was told before,
/// and of more than a thousand only the newest are kept.
pub proof fn narration_keeps_its_newest(record: &mut Record, updates: Vec<Update>, i: int)
    requires
        call_ensures(Record::narrate, (record, updates), ()),
    ensures
        final(record).narration@.len() <= 1000,
        old(record).narration@.len() + updates@.len() <= 1000 ==> final(record).narration@.len()
            == old(record).narration@.len() + updates@.len(),
        0 <= i < updates@.len()
            && i < 1000
            ==> final(record).narration@[final(record).narration@.len() - 1 - i]@
            == updates@[updates@.len() - 1 - i]@,
{
    let before = claude_code::update_views(old(record).narration@);
    let more = claude_code::update_views(updates@);
    let after = claude_code::update_views(final(record).narration@);
    assert(before.len() == old(record).narration@.len());
    assert(more.len() == updates@.len());
    assert(after.len() == final(record).narration@.len());
    if 0 <= i < updates@.len() && i < 1000 {
        let k = after.len() - 1 - i;
        assert(after[k] == final(record).narration@[k]@);
        assert(more[more.len() - 1 - i] == updates@[updates@.len() - 1 - i]@);
    }
}

/// Law: the result of a run is the last that was told, and there is none
/// just where none was.
pub proof fn the_last_result_is_the_result(record: &Record, r: Option<&Update>, i: int)
    requires
        call_ensures(Record::result, (record,), r),
        0 <= i < record.narration@.len(),
        record.narration@[i] is Result,
    ensures
        r is Some,
        *(r->0) is Result,
        (forall|j: int|
            i < j < record.narration@.len() ==> !((#[trigger] record.narration@[j]) is Result))
            ==> *(r->0) == record.narration@[i],
{
    assert(job::is_result(record.narration@[i]@));
    if r is Some {
        let k = choose|k: int|
            0 <= k < record.narration@.len() && #[trigger] record.narration@[k] == *(r->0)
                && job::is_result((r->0)@) && forall|j: int|
                k < j < record.narration@.len() ==> !job::is_result(
                    (#[trigger] record.narration@[j])@,
                );
        if k < i {
            assert(!job::is_result(record.narration@[i]@));
        }
    }
}

/// Law: what is observed is what is kept, and a run that was lost is lost
/// in its own words.
pub proof fn what_is_observed_is_kept(
    record: &mut Record,
    commits: Commits,
    other: &mut Record,
    words: String,
)
    requires
        call_ensures(Record::observed, (record, commits), ()),
        call_ensures(Record::lose, (other, words), ()),
    ensures
        final(record).commits == Some(commits),
        final(record).phase == old(record).phase,
        final(record).narration == old(record).narration,
        final(other).phase == Phase::Lost(words),
        final(other).commits == old(other).commits,
        final(other).narration == old(other).narration,
{
}

} // verus!
