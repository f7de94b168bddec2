//! The log is the record: a watcher that folds the log of a build has, after
//! every write, the build's own states.

use crate::feature::record;
use crate::feature::record::BuildView;
use crate::feature::{ProblemView, State};
use crate::monitor;
use crate::monitor::{ChangeView, EntryView, ProgressView};
use vstd::prelude::*;

verus! {

/// What a watcher sees that has heard the whole log.
pub open spec fn folded(log: Seq<EntryView>) -> ProgressView {
    ProgressView::nothing().after_all(log)
}

/// Whether the log tells of a build what the build says of itself.
pub open spec fn tells(log: Seq<EntryView>, build: BuildView) -> bool {
    let seen = folded(log).watches;
    &&& seen.dom().contains(build.run.0)
    &&& seen[build.run.0].plan == Some(build.plan)
    &&& seen[build.run.0].problems == build.problems.map_values(
        |problem: ProblemView| problem.words(),
    )
    &&& seen[build.run.0].states == build.states
}

/// The fold after one entry more of a dense log.
proof fn folding_goes_on(log: Seq<EntryView>, n: int)
    requires
        monitor::dense(log),
        log.len() <= u64::MAX,
        0 <= n < log.len(),
    ensures
        folded(log.take(n)).counts(log[n]),
        folded(log.take(n + 1)) == folded(log.take(n)).after(log[n]),
{
    monitor::a_replay_reaches_its_end(log, n);
    assert(log.take(n + 1).drop_last() =~= log.take(n));
    assert(log.take(n + 1).last() == log[n]);
}

/// Law: once Started is recorded of a build that was reserved, the log
/// tells of it what it says of itself.
pub proof fn a_started_build_is_told(
    before: Seq<EntryView>,
    after: Seq<EntryView>,
    build: BuildView,
    check: Option<Seq<char>>,
)
    requires
        monitor::dense(after),
        after.len() <= u64::MAX,
        record::extends(before, after),
        record::changes(after) == record::changes(before).push(
            ChangeView::Started {
                run: build.run,
                plan: build.plan,
                problems: build.problems.map_values(|problem: ProblemView| problem.words()),
                states: build.states,
                check,
            },
        ),
        folded(before).watches.dom().contains(build.run.0),
    ensures
        tells(after, build),
{
    let n = before.len() as int;
    assert(record::changes(after).len() == after.len());
    assert(record::changes(after)[n] == after[n].change);
    folding_goes_on(after, n);
    assert(after.take(n + 1) =~= after);
}

/// The fold after some of the moves of a write: the issues moved by then
/// are where the write has them, and the rest where they were.
proof fn moves_are_folded(
    before: Seq<EntryView>,
    after: Seq<EntryView>,
    build: BuildView,
    moved: Seq<Seq<char>>,
    states: Map<Seq<char>, State>,
    k: int,
)
    requires
        tells(before, build),
        monitor::dense(after),
        after.len() <= u64::MAX,
        record::speaks(before, after, build.run, moved, states),
        0 <= k <= moved.len(),
    ensures
        ({
            let seen = folded(after.take(before.len() + k)).watches;
            let watch = seen[build.run.0];
            &&& seen.dom().contains(build.run.0)
            &&& watch.plan == Some(build.plan)
            &&& watch.problems == build.problems.map_values(
                |problem: ProblemView| problem.words(),
            )
            &&& forall|id: Seq<char>| #[trigger]
                watch.states.dom().contains(id) == (build.states.dom().contains(id) || moved.take(
                    k,
                ).contains(id))
            &&& forall|id: Seq<char>| #[trigger]
                watch.states.dom().contains(id) ==> watch.states[id] == if moved.take(k).contains(
                    id,
                ) {
                    states[id]
                } else {
                    build.states[id]
                }
        }),
    decreases k,
{
    let n = before.len() as int;
    assert(record::changes(after).len() == after.len());
    assert(record::moves(build.run, moved, states).len() == moved.len());
    if k == 0 {
        assert(after.take(n) =~= before);
    } else {
        moves_are_folded(before, after, build, moved, states, k - 1);
        let at = n + k - 1;
        assert(record::changes(after)[at] == after[at].change);
        assert(record::moves(build.run, moved, states)[k - 1] == after[at].change);
        folding_goes_on(after, at);
        let id = moved[k - 1];
        assert forall|other: Seq<char>| #[trigger]
            moved.take(k).contains(other) == (moved.take(k - 1).contains(other) || other
                == id) by {
            if moved.take(k).contains(other) {
                let q = choose|q: int| 0 <= q < k && #[trigger] moved.take(k)[q] == other;
                if q < k - 1 {
                    assert(moved.take(k - 1)[q] == other);
                }
            }
            if moved.take(k - 1).contains(other) {
                let q = choose|q: int| 0 <= q < k - 1 && #[trigger] moved.take(k - 1)[q] == other;
                assert(moved.take(k)[q] == other);
            }
            assert(moved.take(k)[k - 1] == id);
        }
    }
}

/// A write that leaves the issues it does not speak of alone is told whole.
proof fn a_write_is_told(
    before: Seq<EntryView>,
    after: Seq<EntryView>,
    build: BuildView,
    moved: Seq<Seq<char>>,
    next: BuildView,
)
    requires
        tells(before, build),
        monitor::dense(after),
        after.len() <= u64::MAX,
        record::speaks(before, after, build.run, moved, next.states),
        next.run == build.run,
        next.plan == build.plan,
        next.problems == build.problems,
        forall|id: Seq<char>| #[trigger]
            next.states.dom().contains(id) == (build.states.dom().contains(id) || moved.contains(
                id,
            )),
        forall|id: Seq<char>| #[trigger]
            next.states.dom().contains(id) && !moved.contains(id) ==> next.states[id]
                == build.states[id],
    ensures
        tells(after, next),
{
    let n = moved.len() as int;
    moves_are_folded(before, after, build, moved, next.states, n);
    assert(record::changes(after).len() == after.len());
    assert(record::moves(build.run, moved, next.states).len() == moved.len());
    assert(after.take(before.len() + n) =~= after);
    assert(moved.take(n) =~= moved);
    let watch = folded(after).watches[build.run.0];
    assert(watch.states =~= next.states) by {
        assert forall|id: Seq<char>| #[trigger] watch.states.dom().contains(id)
            == next.states.dom().contains(id) by {}
        assert(watch.states.dom() =~= next.states.dom());
    }
}

/// Law: what one issue's move writes, the log tells.
pub proof fn a_move_is_told(
    before: Seq<EntryView>,
    after: Seq<EntryView>,
    build: BuildView,
    id: Seq<char>,
    state: State,
)
    requires
        tells(before, build),
        monitor::dense(after),
        after.len() <= u64::MAX,
        record::speaks(before, after, build.run, seq![id], build.moved(id, state).states),
    ensures
        tells(after, build.moved(id, state)),
{
    assert forall|other: Seq<char>| seq![id].contains(other) == (other == id) by {
        assert(seq![id][0] == id);
    }
    a_write_is_told(before, after, build, seq![id], build.moved(id, state));
}

/// Law: what an issue's failure writes, the log tells — the skips of what
/// it dooms among it.
pub proof fn a_failure_is_told(
    before: Seq<EntryView>,
    after: Seq<EntryView>,
    build: BuildView,
    id: Seq<char>,
    state: State,
    skipped: Seq<Seq<char>>,
    next: BuildView,
)
    requires
        tells(before, build),
        monitor::dense(after),
        after.len() <= u64::MAX,
        build.moved(id, state).dooms(next),
        forall|other: Seq<char>| #[trigger]
            skipped.contains(other) == (build.moved(id, state).is_waiting(other)
                && next.states[other] is Skipped),
        record::speaks(before, after, build.run, seq![id] + skipped, next.states),
    ensures
        tells(after, next),
{
    let moved = seq![id] + skipped;
    let failed = build.moved(id, state);
    assert forall|other: Seq<char>| #[trigger]
        moved.contains(other) == (other == id || skipped.contains(other)) by {
        assert(moved[0] == id);
        if skipped.contains(other) {
            let q = choose|q: int| 0 <= q < skipped.len() && skipped[q] == other;
            assert(moved[q + 1] == other);
        }
        if moved.contains(other) {
            let q = choose|q: int| 0 <= q < moved.len() && moved[q] == other;
            if q > 0 {
                assert(skipped[q - 1] == other);
            }
        }
    }
    assert forall|other: Seq<char>| #[trigger]
        next.states.dom().contains(other) == (build.states.dom().contains(other) || moved.contains(
            other,
        )) by {
        assert(failed.states.dom().contains(other) == (build.states.dom().contains(other) || other
            == id));
    }
    assert forall|other: Seq<char>| #[trigger]
        next.states.dom().contains(other) && !moved.contains(other) implies next.states[other]
        == build.states[other] by {
        assert(failed.states.dom().contains(other));
        if failed.is_waiting(other) {
            assert(!skipped.contains(other));
        }
    }
    a_write_is_told(before, after, build, moved, next);
}

} // verus!
