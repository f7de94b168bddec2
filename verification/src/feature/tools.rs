//! The chat verbs of a feature build: `start_feature` launches one and
//! answers as soon as it is running; `feature_status` reads the record.
//!
//! The record — [`Builds`] — is keyed by [`RunId`], and as many features
//! build at once as are asked for: each owns a feature branch nobody else
//! writes to, and the one place they could collide — merging into the
//! default branch — is the human's, never Epik's. Nothing here arbitrates.
//! The guard that remains is git's: a branch has one worktree, so a second
//! build of a feature still building is refused, in words naming the build
//! that holds the branch.
//! Launching is two-phase all the same: the run id is reserved before
//! the check card is raised, so the build has a name from the moment
//! it is asked for, and the flight fills the reservation once the
//! build is running.
//!
//! The check is a precondition, not an instruction: before anything is
//! dispatched, the launch raises the question itself —
//! [`check::detect`](crate::check::detect) prefills the card, the answered
//! command is the one in force, and a decline is the skip: the build runs
//! on observation alone and the record says the branch is unchecked.
//! Asking is never a thing the persona has to remember.
//!
//! A window watches by another door: the record speaks every change to the
//! host's [`Log`], from the reservation on —
//! [`Reserved`](Change::Reserved) before the card is raised, so a build is
//! visible from the moment it is asked for, and
//! [`Abandoned`](Change::Abandoned) with the reason when a launch fails
//! before the build runs.

use crate::chat::{Answer, Ask, ToolSpec, ToolSpecView};
use crate::check::Check;
use crate::feature;
use crate::feature::record;
use crate::feature::record::{Build, BuildView};
use crate::feature::{Issue, IssueId, Plan, Problem, ProblemView, RunId, State};
use crate::ids;
use crate::ids::IdSet;
use crate::json;
use crate::json::{Json, JsonView};
use crate::monitor::{Change, ChangeView, Log};
use crate::text;
use crate::tools;
use crate::tree;
use vstd::prelude::*;

verus! {

/// A feature, by the issue at its root.
#[derive(Debug, Eq, PartialEq)]
pub struct Feature(pub IssueId);

impl Clone for Feature {
    fn clone(&self) -> (r: Self)
        ensures
            r == *self,
    {
        Feature(self.0.clone())
    }
}

impl Feature {
    /// The branch a feature builds on where none is named.
    pub fn branch(&self) -> (r: String)
        ensures
            r@ == "feature-"@ + self.0@,
    {
        text::cat2("feature-", self.0.as_str())
    }
}

/// One launched feature build, as the record keeps it: the build in
/// flight, and afterwards the build that flew.
#[derive(Debug)]
pub struct Flight {
    pub feature: Feature,
    /// The local clone the build runs in.
    pub repository: String,
    /// The feature branch the merges land on.
    pub branch: String,
    /// The check command in force — `None` when the user declined: the
    /// branch is unchecked, and the record says so.
    pub check: Option<String>,
}

/// One entry of the record: a launch under way — reserved before the
/// check card is raised, so status can name it before anyone is asked
/// — or the build itself.
#[derive(Debug)]
pub enum Entry {
    /// The reservation: the launch is validating, asking, establishing.
    Starting { feature: Feature, repository: String, branch: String },
    /// The build, running or finished.
    Flight(Flight),
}

/// The record of feature builds, by run id. Finished builds stay
/// readable — status outlives completion.
#[derive(Debug)]
pub struct Builds {
    entries: Vec<(RunId, Entry)>,
    /// The next run id. A counter rather than the record's maximum, so a
    /// released reservation never recycles its id onto a later build.
    next: u64,
}

/// A run id held while a launch is under way: taken before the check
/// card is raised, filled with the [`Flight`] once the build is
/// running. Abandoned — the launch failed — it releases its entry with
/// the reason recorded, so no reservation ever vanishes from the log
/// unexplained.
#[derive(Debug)]
pub struct Reservation {
    run: RunId,
}

impl Reservation {
    /// The reserved run id.
    pub closed spec fn id(&self) -> RunId {
        self.run
    }

    /// The reserved run id.
    pub fn run(&self) -> (r: RunId)
        ensures
            r == self.id(),
    {
        self.run
    }
}

/// The entries without those of one run.
pub open spec fn without(entries: Seq<(RunId, Entry)>, run: RunId) -> Seq<(RunId, Entry)>
    decreases entries.len(),
{
    if entries.len() == 0 {
        Seq::empty()
    } else if entries.last().0 == run {
        without(entries.drop_last(), run)
    } else {
        without(entries.drop_last(), run).push(entries.last())
    }
}

/// Whether a run has an entry.
pub open spec fn keeps(entries: Seq<(RunId, Entry)>, run: RunId) -> bool {
    exists|i: int| 0 <= i < entries.len() && (#[trigger] entries[i]).0 == run
}

/// Whether the runs are in the order they were reserved, each once, all
/// before `next`.
pub open spec fn numbered(entries: Seq<(RunId, Entry)>, next: u64) -> bool {
    &&& forall|i: int, j: int|
        0 <= i < j < entries.len() ==> (#[trigger] entries[i]).0.0 < (#[trigger] entries[j]).0.0
    &&& forall|i: int| 0 <= i < entries.len() ==> (#[trigger] entries[i]).0.0 < next
}

/// What the log has to say of an abandoned launch that gave no reason.
pub const UNSAID: &'static str = "the launch ended without saying why";

/// Releasing one run keeps the others, in order.
pub proof fn releasing_keeps_the_rest(entries: Seq<(RunId, Entry)>, next: u64, run: RunId)
    requires
        numbered(entries, next),
    ensures
        numbered(without(entries, run), next),
        !keeps(without(entries, run), run),
        forall|i: int|
            0 <= i < entries.len() && (#[trigger] entries[i]).0 != run ==> without(
                entries,
                run,
            ).contains(entries[i]),
        forall|k: int|
            0 <= k < without(entries, run).len() ==> entries.contains(
                #[trigger] without(entries, run)[k],
            ),
    decreases entries.len(),
{
    if entries.len() > 0 {
        let front = entries.drop_last();
        let kept = without(front, run);
        let after = without(entries, run);
        assert(numbered(front, next)) by {
            assert forall|i: int, j: int| 0 <= i < j < front.len() implies (
            #[trigger] front[i]).0.0 < (#[trigger] front[j]).0.0 by {
                assert(entries[i].0.0 < entries[j].0.0);
            }
            assert forall|i: int| 0 <= i < front.len() implies (#[trigger] front[i]).0.0 < next by {
                assert(entries[i].0.0 < next);
            }
        }
        releasing_keeps_the_rest(front, next, run);
        assert forall|k: int| 0 <= k < kept.len() implies (#[trigger] kept[k]).0.0
            < entries.last().0.0 by {
            assert(front.contains(kept[k]));
            let i = choose|i: int| 0 <= i < front.len() && front[i] == kept[k];
            assert(entries[i].0.0 < entries[entries.len() - 1].0.0);
        }
        assert forall|i: int| 0 <= i < entries.len() && (#[trigger] entries[i]).0
            != run implies after.contains(entries[i]) by {
            if i < front.len() {
                assert(front[i] == entries[i]);
                assert(kept.contains(entries[i]));
                let k = choose|k: int| 0 <= k < kept.len() && kept[k] == entries[i];
                assert(after[k] == entries[i]);
            } else {
                assert(after.last() == entries[i]);
            }
        }
        assert forall|k: int| 0 <= k < after.len() implies entries.contains(
            #[trigger] after[k],
        ) by {
            if k < kept.len() {
                assert(after[k] == kept[k]);
                assert(front.contains(kept[k]));
                let i = choose|i: int| 0 <= i < front.len() && front[i] == kept[k];
                assert(entries[i] == after[k]);
            } else {
                assert(entries[entries.len() - 1] == after[k]);
            }
        }
        if keeps(after, run) {
            let k = choose|k: int| 0 <= k < after.len() && (#[trigger] after[k]).0 == run;
            if k < kept.len() {
                assert(kept[k].0 == run);
            }
        }
        assert forall|i: int, j: int| 0 <= i < j < after.len() implies (#[trigger] after[i]).0.0 < (
        #[trigger] after[j]).0.0 by {
            if j < kept.len() {
                assert(kept[i].0.0 < kept[j].0.0);
            } else {
                assert(after[i] == kept[i]);
            }
        }
        assert forall|k: int| 0 <= k < after.len() implies (#[trigger] after[k]).0.0 < next by {
            assert(entries.contains(after[k]));
            let i = choose|i: int| 0 <= i < entries.len() && entries[i] == after[k];
            assert(entries[i].0.0 < next);
        }
    }
}

impl Builds {
    /// The entries, in the order their runs were reserved.
    pub closed spec fn kept(&self) -> Seq<(RunId, Entry)> {
        self.entries@
    }

    /// The next run id.
    pub closed spec fn upcoming(&self) -> u64 {
        self.next
    }

    /// Whether the runs are in order, each once, all before the next.
    pub open spec fn wf(&self) -> bool {
        numbered(self.kept(), self.upcoming())
    }

    /// An empty record.
    pub fn new() -> (r: Self)
        ensures
            r.wf(),
            r.kept() == Seq::<(RunId, Entry)>::empty(),
            r.upcoming() == 1,
    {
        Builds { entries: Vec::new(), next: 1 }
    }

    /// Whether there is a run id left to reserve.
    pub fn has_room(&self) -> (r: bool)
        ensures
            r == (self.upcoming() < u64::MAX),
    {
        self.next < u64::MAX
    }

    /// Reserves the next run id for a launch. The reservation exists so the
    /// build has a name before any card is raised or any branch
    /// established: Reserved is recorded here, so a watcher sees the build
    /// from the moment it is asked for, and status answers for it meanwhile.
    /// Fill it when the build is running; abandon it and the entry goes,
    /// though its id is never reused.
    pub fn reserve<C: Fn() -> u64>(
        &mut self,
        log: &mut Log<C>,
        feature: Feature,
        repository: String,
        branch: String,
        base: Option<String>,
    ) -> (r: Reservation)
        requires
            old(self).wf(),
            old(self).upcoming() < u64::MAX,
            old(log).wf(),
            call_requires(old(log).stamped_by(), ()),
        ensures
            final(self).wf(),
            r.id() == RunId(old(self).upcoming()),
            final(self).upcoming() == old(self).upcoming() + 1,
            final(self).kept() == old(self).kept().push(
                (r.id(), (Entry::Starting { feature, repository, branch })),
            ),
            final(log).wf(),
            final(log).stamped_by() == old(log).stamped_by(),
            record::extends(old(log)@, final(log)@),
            record::clocked(old(log).stamped_by(), old(log)@, final(log)@),
            record::changes(final(log)@) == record::changes(old(log)@).push(
                ChangeView::Reserved {
                    run: r.id(),
                    feature: feature.0@,
                    repository: repository@,
                    branch: branch@,
                    base: text::optional(base),
                },
            ),
    {
        let run = RunId(self.next);
        self.next = self.next + 1;
        let change = Change::Reserved {
            run,
            feature: feature.0.clone(),
            repository: repository.clone(),
            branch: branch.clone(),
            base,
        };
        self.entries.push((run, Entry::Starting { feature, repository, branch }));
        let ghost before = log@;
        let ghost said = change@;
        log.record(change);
        proof {
            assert(log@.take(before.len() as int) =~= before);
            assert(record::changes(log@) =~= record::changes(before).push(said));
        }
        Reservation { run }
    }

    /// The build is running: the flight takes the reservation's place in
    /// the record.
    pub fn fill(&mut self, reservation: Reservation, flight: Flight) -> (r: RunId)
        requires
            old(self).wf(),
            keeps(old(self).kept(), reservation.id()),
        ensures
            final(self).wf(),
            final(self).upcoming() == old(self).upcoming(),
            r == reservation.id(),
            exists|i: int|
                0 <= i < old(self).kept().len() && (#[trigger] old(self).kept()[i]).0 == r
                    && final(self).kept() == old(self).kept().update(
                    i,
                    (r, Entry::Flight(flight)),
                ),
    {
        let run = reservation.run;
        let ghost before = self.entries@;
        let mut i: usize = 0;
        let n: usize = self.entries.len();
        while self.entries[i].0.0 != run.0
            invariant
                self.entries@ == before,
                i < before.len() == n,
                exists|k: int| i <= k < before.len() && (#[trigger] before[k]).0 == run,
            decreases before.len() - i,
        {
            i = i + 1;
        }
        self.entries.set(i, (run, Entry::Flight(flight)));
        proof {
            assert(before[i as int].0 == run);
            assert(self.entries@ =~= before.update(i as int, (run, Entry::Flight(flight))));
            assert forall|a: int, b: int| 0 <= a < b < self.entries@.len() implies (
            #[trigger] self.entries@[a]).0.0 < (#[trigger] self.entries@[b]).0.0 by {
                assert(before[a].0.0 < before[b].0.0);
            }
            assert forall|a: int| 0 <= a < self.entries@.len() implies (
            #[trigger] self.entries@[a]).0.0 < self.next by {
                assert(before[a].0.0 < self.next);
            }
        }
        run
    }

    /// The launch failed: `reason` is recorded, and the entry released.
    pub fn abandon<C: Fn() -> u64>(
        &mut self,
        log: &mut Log<C>,
        reservation: Reservation,
        reason: String,
    )
        requires
            old(self).wf(),
            old(log).wf(),
            call_requires(old(log).stamped_by(), ()),
        ensures
            final(self).wf(),
            final(self).upcoming() == old(self).upcoming(),
            final(self).kept() == without(old(self).kept(), reservation.id()),
            final(log).wf(),
            final(log).stamped_by() == old(log).stamped_by(),
            record::extends(old(log)@, final(log)@),
            record::clocked(old(log).stamped_by(), old(log)@, final(log)@),
            record::changes(final(log)@) == record::changes(old(log)@).push(
                ChangeView::Abandoned { run: reservation.id(), reason: reason@ },
            ),
    {
        let run = reservation.run;
        let change = Change::Abandoned { run, reason };
        let ghost before = log@;
        let ghost said = change@;
        log.record(change);
        proof {
            assert(log@.take(before.len() as int) =~= before);
            assert(record::changes(log@) =~= record::changes(before).push(said));
        }
        self.release(run);
    }

    fn release(&mut self, run: RunId)
        requires
            old(self).wf(),
        ensures
            final(self).wf(),
            final(self).upcoming() == old(self).upcoming(),
            final(self).kept() == without(old(self).kept(), run),
    {
        let ghost all = self.entries@;
        proof {
            releasing_keeps_the_rest(all, self.next, run);
        }
        let mut i: usize = 0;
        let n: usize = self.entries.len();
        // The entry goes where it stands; a run has one.
        while i < n && self.entries[i].0.0 != run.0
            invariant
                i <= n == self.entries@.len(),
                self.entries@ == all,
                forall|k: int| 0 <= k < i ==> (#[trigger] all[k]).0 != run,
            decreases n - i,
        {
            i = i + 1;
        }
        if i < n {
            self.entries.remove(i);
            proof {
                assert(all[i as int].0 == run);
                removed(all, self.next, run, i as int);
                assert(self.entries@ =~= all.remove(i as int));
            }
        } else {
            proof {
                nothing_removed(all, run);
            }
        }
    }

    /// A reservation given up without a word: the log says so.
    pub fn give_up<C: Fn() -> u64>(&mut self, log: &mut Log<C>, reservation: Reservation)
        requires
            old(self).wf(),
            old(log).wf(),
            call_requires(old(log).stamped_by(), ()),
        ensures
            final(self).wf(),
            final(self).upcoming() == old(self).upcoming(),
            final(self).kept() == without(old(self).kept(), reservation.id()),
            final(log).wf(),
            final(log).stamped_by() == old(log).stamped_by(),
            record::extends(old(log)@, final(log)@),
            record::clocked(old(log).stamped_by(), old(log)@, final(log)@),
            record::changes(final(log)@) == record::changes(old(log)@).push(
                ChangeView::Abandoned { run: reservation.id(), reason: UNSAID@ },
            ),
    {
        self.abandon(log, reservation, UNSAID.to_owned());
    }

    /// Fills the reservation with the flight a launch yielded — or, when
    /// the launch failed, abandons it with the launch's own words, so no
    /// path between reserving and running can fail silently.
    ///
    /// # Errors
    ///
    /// The launch's own words.
    pub fn fill_with<C: Fn() -> u64>(
        &mut self,
        log: &mut Log<C>,
        reservation: Reservation,
        launched: Result<Flight, String>,
    ) -> (r: Result<RunId, String>)
        requires
            old(self).wf(),
            keeps(old(self).kept(), reservation.id()),
            old(log).wf(),
            call_requires(old(log).stamped_by(), ()),
        ensures
            final(self).wf(),
            final(self).upcoming() == old(self).upcoming(),
            final(log).wf(),
            final(log).stamped_by() == old(log).stamped_by(),
            record::extends(old(log)@, final(log)@),
            record::clocked(old(log).stamped_by(), old(log)@, final(log)@),
            match launched {
                Ok(flight) => {
                    &&& r == Ok::<RunId, String>(reservation.id())
                    &&& final(log)@ == old(log)@
                    &&& exists|i: int|
                        0 <= i < old(self).kept().len() && (#[trigger] old(self).kept()[i]).0
                            == reservation.id() && final(self).kept() == old(self).kept().update(
                            i,
                            (reservation.id(), Entry::Flight(flight)),
                        )
                },
                Err(words) => {
                    &&& r == Err::<RunId, String>(words)
                    &&& final(self).kept() == without(old(self).kept(), reservation.id())
                    &&& record::changes(final(log)@) == record::changes(old(log)@).push(
                        ChangeView::Abandoned { run: reservation.id(), reason: words@ },
                    )
                },
            },
    {
        match launched {
            Ok(flight) => {
                proof {
                    assert(log@.take(log@.len() as int) =~= log@);
                }
                Ok(self.fill(reservation, flight))
            },
            Err(words) => {
                self.abandon(log, reservation, words.clone());
                Err(words)
            },
        }
    }

    /// The run ids the record holds, in order.
    pub fn runs(&self) -> (r: Vec<RunId>)
        ensures
            r@ == self.kept().map_values(|entry: (RunId, Entry)| entry.0),
    {
        let mut runs: Vec<RunId> = Vec::new();
        let mut i: usize = 0;
        while i < self.entries.len()
            invariant
                i <= self.entries@.len(),
                runs@.len() == i,
                forall|k: int| 0 <= k < i ==> #[trigger] runs@[k] == self.entries@[k].0,
            decreases self.entries@.len() - i,
        {
            runs.push(self.entries[i].0);
            i = i + 1;
        }
        proof {
            assert(runs@ =~= self.kept().map_values(|entry: (RunId, Entry)| entry.0));
        }
        runs
    }
}

/// Releasing a run takes its one entry out.
proof fn removed(entries: Seq<(RunId, Entry)>, next: u64, run: RunId, at: int)
    requires
        numbered(entries, next),
        0 <= at < entries.len(),
        entries[at].0 == run,
    ensures
        without(entries, run) == entries.remove(at),
    decreases entries.len(),
{
    let front = entries.drop_last();
    assert(numbered(front, next)) by {
        assert forall|i: int, j: int| 0 <= i < j < front.len() implies (#[trigger] front[i]).0.0 < (
        #[trigger] front[j]).0.0 by {
            assert(entries[i].0.0 < entries[j].0.0);
        }
        assert forall|i: int| 0 <= i < front.len() implies (#[trigger] front[i]).0.0 < next by {
            assert(entries[i].0.0 < next);
        }
    }
    if at == entries.len() - 1 {
        assert forall|k: int| 0 <= k < front.len() implies (#[trigger] front[k]).0 != run by {
            assert(entries[k].0.0 < entries[at].0.0);
        }
        nothing_removed(front, run);
        assert(entries.remove(at) =~= front);
    } else {
        assert(entries[at].0.0 < entries[entries.len() - 1].0.0);
        removed(front, next, run, at);
        assert(entries.remove(at) =~= front.remove(at).push(entries.last()));
    }
}

/// Releasing a run that has no entry changes nothing.
proof fn nothing_removed(entries: Seq<(RunId, Entry)>, run: RunId)
    requires
        forall|k: int| 0 <= k < entries.len() ==> (#[trigger] entries[k]).0 != run,
    ensures
        without(entries, run) == entries,
    decreases entries.len(),
{
    if entries.len() > 0 {
        let front = entries.drop_last();
        assert forall|k: int| 0 <= k < front.len() implies (#[trigger] front[k]).0 != run by {
            assert(entries[k].0 != run);
        }
        nothing_removed(front, run);
        assert(front.push(entries.last()) =~= entries);
    }
}

/// A spent id is never reused: whatever has been released meanwhile, the
/// run a later reservation takes is not one the record has ever had.
pub proof fn a_run_id_is_never_reused(
    before: Seq<(RunId, Entry)>,
    next: u64,
    released: RunId,
    later: RunId,
)
    requires
        numbered(before, next),
        keeps(before, released),
        later.0 >= next,
    ensures
        later != released,
        !keeps(without(before, released), later),
{
    let i = choose|i: int| 0 <= i < before.len() && (#[trigger] before[i]).0 == released;
    assert(before[i].0.0 < next);
    releasing_keeps_the_rest(before, next, released);
    let after = without(before, released);
    if keeps(after, later) {
        let k = choose|k: int| 0 <= k < after.len() && (#[trigger] after[k]).0 == later;
        assert(after[k].0.0 < next);
    }
}

// ----- launching -----

/// The wording of the check card.
pub open spec fn card_of(feature: Seq<char>, branch: Seq<char>) -> Seq<char> {
    "Feature "@ + feature + " builds on branch "@ + branch
        + ", and every merge onto it is judged by one command run in the feature workspace: the merge lands only when the command exits 0. Confirm or edit this repository's own check command, or skip the check to build on observation alone."@
}

/// The wording of the check card, composed by the machinery — the
/// persona never decides whether or how to ask.
pub fn asked(feature: &Feature, branch: &str) -> (r: String)
    ensures
        r@ == card_of(feature.0@, branch@),
{
    text::cat5(
        "Feature ",
        feature.0.as_str(),
        " builds on branch ",
        branch,
        ", and every merge onto it is judged by one command run in the feature workspace: the merge lands only when the command exits 0. Confirm or edit this repository's own check command, or skip the check to build on observation alone.",
    )
}

/// The check card: what is asked, with detection's proposal prefilled.
pub fn ask(feature: &Feature, branch: &str, proposal: Option<Check>) -> (r: Ask)
    ensures
        r is Check,
        r->Check_prompt@ == card_of(feature.0@, branch@),
        text::optional(r->proposal) == (match proposal {
            Some(check) => Some(check.command@),
            None => None,
        }),
{
    let proposal = match proposal {
        Some(check) => Some(check.command),
        None => None,
    };
    Ask::Check { prompt: asked(feature, branch), proposal }
}

/// The command an answer puts in force, if any.
pub open spec fn in_force(answer: Answer) -> Option<Seq<char>> {
    match answer {
        Answer::Check { command } => if text::trimmed(command@).len() > 0 {
            Some(command@)
        } else {
            None
        },
        _ => None,
    }
}

/// The answer, read: a confirmed command is the one in force; a decline
/// is the skip. An empty command is a decline wearing a keyboard —
/// `sh -c ""` exits 0, a check that checks nothing — and any other
/// answer kind never comes off a check card, so it reads as the skip
/// too.
pub fn confirmed(answer: &Answer) -> (r: Option<Check>)
    ensures
        match r {
            Some(check) => in_force(*answer) == Some(check.command@),
            None => in_force(*answer) is None,
        },
{
    match answer {
        Answer::Check { command } => if text::is_empty(text::trim(command.as_str()).as_str()) {
            None
        } else {
            Some(Check { command: command.clone() })
        },
        _ => None,
    }
}

/// What `start_feature` was asked for.
#[derive(Debug, Eq, PartialEq)]
pub struct Start {
    /// The repository as the tracker names it.
    pub repo: String,
    /// The local clone to build in.
    pub repository: String,
    pub feature: Feature,
    /// The feature branch: the one named, or the feature's own.
    pub branch: String,
    /// Where the branch starts, where that is named.
    pub base: Option<String>,
}

/// A [`Start`] over sequences.
pub struct StartView {
    pub repo: Seq<char>,
    pub repository: Seq<char>,
    pub feature: Seq<char>,
    pub branch: Seq<char>,
    pub base: Option<Seq<char>>,
}

impl View for Start {
    type V = StartView;

    open spec fn view(&self) -> StartView {
        StartView {
            repo: self.repo@,
            repository: self.repository@,
            feature: self.feature.0@,
            branch: self.branch@,
            base: text::optional(self.base),
        }
    }
}

/// What a call of `start_feature` asks for: the first argument that is
/// missing or ill-typed is what is wrong with it.
pub open spec fn start_of(arguments: JsonView) -> Result<StartView, Seq<char>> {
    match tools::filled_of(arguments, "repo"@) {
        Err(words) => Err(words),
        Ok(repo) => match tools::filled_of(arguments, "repository"@) {
            Err(words) => Err(words),
            Ok(repository) => match tools::number_of(arguments, "feature"@) {
                Err(words) => Err(words),
                Ok(number) => match tools::optional_of(arguments, "branch"@) {
                    Err(words) => Err(words),
                    Ok(branch) => match tools::optional_of(arguments, "base"@) {
                        Err(words) => Err(words),
                        Ok(base) => Ok(
                            StartView {
                                repo,
                                repository,
                                feature: text::decimal(number),
                                branch: match branch {
                                    Some(branch) => branch,
                                    None => "feature-"@ + text::decimal(number),
                                },
                                base,
                            },
                        ),
                    },
                },
            },
        },
    }
}

impl Start {
    /// What a call of `start_feature` asks for.
    ///
    /// # Errors
    ///
    /// Words for the first argument that is missing or ill-typed.
    pub fn read(arguments: &Json) -> (r: Result<Start, String>)
        ensures
            match r {
                Ok(start) => start_of(arguments@) == Ok::<StartView, Seq<char>>(start@),
                Err(words) => start_of(arguments@) == Err::<StartView, Seq<char>>(words@),
            },
    {
        let repo = match tools::non_empty(arguments, "repo") {
            Ok(repo) => repo,
            Err(words) => return Err(words),
        };
        let repository = match tools::non_empty(arguments, "repository") {
            Ok(repository) => repository,
            Err(words) => return Err(words),
        };
        let feature = match tools::number(arguments, "feature") {
            Ok(number) => Feature(IssueId::from(number)),
            Err(words) => return Err(words),
        };
        let branch = match tools::optional(arguments, "branch") {
            Ok(Some(branch)) => branch,
            Ok(None) => feature.branch(),
            Err(words) => return Err(words),
        };
        let base = match tools::optional(arguments, "base") {
            Ok(base) => base,
            Err(words) => return Err(words),
        };
        Ok(Start { repo, repository, feature, branch, base })
    }

    /// The words for a branch a build already holds.
    pub fn held(&self, holder: &str) -> (r: String)
        ensures
            r@ == "feature branch "@ + text::quoted_as(self.branch@)
                + " is already checked out by a build at "@ + holder@
                + "; one build owns a feature branch at a time"@,
    {
        let branch = text::quoted(self.branch.as_str());
        text::cat5(
            "feature branch ",
            branch.as_str(),
            " is already checked out by a build at ",
            holder,
            "; one build owns a feature branch at a time",
        )
    }

    /// The flight of this launch, once its build is running.
    pub fn flight(&self, check: Option<String>) -> (r: Flight)
        ensures
            r.feature == self.feature,
            r.repository == self.repository,
            r.branch == self.branch,
            r.check == check,
    {
        Flight {
            feature: self.feature.clone(),
            repository: self.repository.clone(),
            branch: self.branch.clone(),
            check,
        }
    }

    /// The answer to a launch whose build is running.
    pub fn answer(
        &self,
        run: RunId,
        base: &str,
        check: &Option<String>,
        plan: &Plan,
    ) -> (r: Json)
        ensures
            r@ == started_answer(run, self@, base@, text::optional(*check), plan@),
    {
        let none = IdSet::new();
        let issues: usize = plan.work(&none).len();
        let problems = plan.problems();
        let words = worded(&problems);
        proof {
            assert(problem_words(problems@) =~= plan@.problems_of().map_values(
                |problem: ProblemView| problem.words(),
            ));
        }
        Json::record().with("started", Json::Bool(true)).with("run", Json::Whole(run.0)).with(
            "feature",
            Json::string(self.feature.0.as_str()),
        ).with("repository", Json::string(self.repository.as_str())).with(
            "branch",
            Json::string(self.branch.as_str()),
        ).with("base", Json::string(base)).with("check", Json::string_or_null(check)).with(
            "issues",
            Json::Whole(issues as u64),
        ).with("problems", Json::strings(&words))
    }
}

/// The words of a row of problems.
pub open spec fn problem_words(problems: Seq<Problem>) -> Seq<Seq<char>> {
    problems.map_values(|problem: Problem| problem@.words())
}

pub(crate) fn worded(problems: &Vec<Problem>) -> (r: Vec<String>)
    ensures
        text::views(r@) == problem_words(problems@),
{
    let mut words: Vec<String> = Vec::new();
    let mut i: usize = 0;
    while i < problems.len()
        invariant
            i <= problems@.len(),
            words@.len() == i,
            forall|k: int| 0 <= k < i ==> (#[trigger] words@[k])@ == problems@[k]@.words(),
        decreases problems@.len() - i,
    {
        words.push(problems[i].to_string());
        i = i + 1;
    }
    proof {
        assert(text::views(words@) =~= problem_words(problems@));
    }
    words
}

/// The answer to a launch whose build is running.
pub open spec fn started_answer(
    run: RunId,
    start: StartView,
    base: Seq<char>,
    check: Option<Seq<char>>,
    plan: feature::PlanView,
) -> JsonView {
    JsonView::record().with("started"@, JsonView::Bool(true)).with(
        "run"@,
        JsonView::Whole(run.0 as nat),
    ).with("feature"@, JsonView::Text(start.feature)).with(
        "repository"@,
        JsonView::Text(start.repository),
    ).with("branch"@, JsonView::Text(start.branch)).with("base"@, JsonView::Text(base)).with(
        "check"@,
        json::text_or_null(check),
    ).with("issues"@, JsonView::Whole(plan.work_of(Set::empty()).len())).with(
        "problems"@,
        json::texts_of(plan.problems_of().map_values(|problem: ProblemView| problem.words())),
    )
}

// ----- status -----

/// The entry a status is asked for.
pub open spec fn entry_of(entries: Seq<(RunId, Entry)>, run: nat) -> Option<(RunId, Entry)>
    decreases entries.len(),
{
    if entries.len() == 0 {
        None
    } else if entries.last().0.0 == run {
        Some(entries.last())
    } else {
        entry_of(entries.drop_last(), run)
    }
}

/// What a status is read from.
pub enum Selected<'a> {
    /// There is nothing to read: this is the answer.
    Answer(Json),
    /// The flight to be read.
    Flight(RunId, &'a Flight),
}

/// The answer where no build has been started.
pub open spec fn no_builds() -> JsonView {
    JsonView::record().with("run"@, JsonView::Null).with(
        "note"@,
        JsonView::Text("no feature build has been started"@),
    )
}

/// The answer for a launch still under way.
pub open spec fn not_started(
    run: RunId,
    feature: Seq<char>,
    repository: Seq<char>,
    branch: Seq<char>,
) -> JsonView {
    JsonView::record().with("run"@, JsonView::Whole(run.0 as nat)).with(
        "feature"@,
        JsonView::Text(feature),
    ).with("repository"@, JsonView::Text(repository)).with("branch"@, JsonView::Text(branch)).with(
        "finished"@,
        JsonView::Bool(false),
    ).with(
        "note"@,
        JsonView::Text(
            "the build has not started: the check card is unanswered or the feature branch is being established"@,
        ),
    )
}

impl Builds {
    /// What a call of `feature_status` is to be read from: the run asked
    /// for, or the most recently started one where none is.
    ///
    /// # Errors
    ///
    /// Words for a run nobody started.
    pub fn select<'a>(&'a self, arguments: &Json) -> (r: Result<Selected<'a>, String>)
        ensures
            ({
                let asked = arguments@.whole_at("run"@);
                let entry = match asked {
                    Some(run) => entry_of(self.kept(), run),
                    None => if self.kept().len() > 0 {
                        Some(self.kept().last())
                    } else {
                        None
                    },
                };
                match r {
                    Err(words) => {
                        &&& asked is Some && entry is None
                        &&& words@ == "no feature build has run id "@ + text::decimal(asked->0)
                    },
                    Ok(Selected::Answer(answer)) => match entry {
                        None => asked is None && answer@ == no_builds(),
                        Some((run, Entry::Starting { feature, repository, branch })) => answer@
                            == not_started(run, feature.0@, repository@, branch@),
                        Some((_, Entry::Flight(_))) => false,
                    },
                    Ok(Selected::Flight(run, flight)) => entry == Some(
                        (run, Entry::Flight(*flight)),
                    ),
                }
            }),
    {
        let n: usize = self.entries.len();
        let mut at: usize = n;
        match arguments.whole_at("run") {
            Some(asked) => {
                let ghost all = self.entries@;
                proof {
                    assert(all.take(n as int) =~= all);
                }
                while at > 0 && self.entries[at - 1].0.0 != asked
                    invariant
                        at <= n == self.entries@.len(),
                        all == self.entries@,
                        entry_of(all, asked as nat) == entry_of(all.take(at as int), asked as nat),
                    decreases at,
                {
                    proof {
                        assert(all.take(at as int).drop_last() =~= all.take(at - 1));
                    }
                    at = at - 1;
                }
                if at == 0 {
                    let id = text::number(asked);
                    return Err(text::cat2("no feature build has run id ", id.as_str()));
                }
            },
            None => {
                if n == 0 {
                    return Ok(
                        Selected::Answer(
                            Json::record().with("run", Json::Null).with(
                                "note",
                                Json::string("no feature build has been started"),
                            ),
                        ),
                    );
                }
            },
        }
        let run = self.entries[at - 1].0;
        match &self.entries[at - 1].1 {
            Entry::Starting { feature, repository, branch } => Ok(
                Selected::Answer(
                    Json::record().with("run", Json::Whole(run.0)).with(
                        "feature",
                        Json::string(feature.0.as_str()),
                    ).with("repository", Json::string(repository.as_str())).with(
                        "branch",
                        Json::string(branch.as_str()),
                    ).with("finished", Json::Bool(false)).with(
                        "note",
                        Json::string(
                            "the build has not started: the check card is unanswered or the feature branch is being established",
                        ),
                    ),
                ),
            ),
            Entry::Flight(flight) => Ok(Selected::Flight(run, flight)),
        }
    }
}

/// A state as the answer spells it.
pub open spec fn state_view(state: State) -> JsonView {
    let named = JsonView::record();
    match state {
        State::Waiting => named.with("state"@, JsonView::Text("waiting"@)),
        State::Running => named.with("state"@, JsonView::Text("running"@)),
        State::Merging => named.with("state"@, JsonView::Text("merging"@)),
        State::Merged { commit, checked } => named.with("state"@, JsonView::Text("merged"@)).with(
            "commit"@,
            JsonView::Text(commit@),
        ).with("checked"@, JsonView::Bool(checked)),
        State::Failed { report } => named.with("state"@, JsonView::Text("failed"@)).with(
            "report"@,
            JsonView::Text(report@),
        ),
        State::Skipped { reason } => named.with("state"@, JsonView::Text("skipped"@)).with(
            "reason"@,
            JsonView::Text(reason@),
        ),
    }
}

/// A state as the answer spells it.
pub fn state_json(state: &State) -> (r: Json)
    ensures
        r@ == state_view(*state),
{
    let named = Json::record();
    match state {
        State::Waiting => named.with("state", Json::string("waiting")),
        State::Running => named.with("state", Json::string("running")),
        State::Merging => named.with("state", Json::string("merging")),
        State::Merged { commit, checked } => named.with("state", Json::string("merged")).with(
            "commit",
            Json::string(commit.as_str()),
        ).with("checked", Json::Bool(*checked)),
        State::Failed { report } => named.with("state", Json::string("failed")).with(
            "report",
            Json::string(report.as_str()),
        ),
        State::Skipped { reason } => named.with("state", Json::string("skipped")).with(
            "reason",
            Json::string(reason.as_str()),
        ),
    }
}

/// The title of the last node called `id`, if there is one.
pub open spec fn title_of(nodes: Seq<Issue>, id: Seq<char>) -> Option<Seq<char>>
    decreases nodes.len(),
{
    if nodes.len() == 0 {
        None
    } else if nodes.last().id@ == id {
        Some(nodes.last().title@)
    } else {
        title_of(nodes.drop_last(), id)
    }
}

/// One issue as the answer spells it.
pub open spec fn issue_view(nodes: Seq<Issue>, id: Seq<char>, state: State) -> JsonView {
    state_view(state).with("id"@, JsonView::Text(id)).with(
        "title"@,
        json::text_or_null(title_of(nodes, id)),
    )
}

/// The issues as the answer spells them, by name.
pub open spec fn issues_view(
    nodes: Seq<Issue>,
    listed: Seq<Seq<char>>,
    states: Map<Seq<char>, State>,
) -> JsonView {
    JsonView::Array(listed.map_values(|id: Seq<char>| issue_view(nodes, id, states[id])))
}

/// Whether a row lists the names of a map, in order.
pub open spec fn lists(listed: Seq<Seq<char>>, states: Map<Seq<char>, State>) -> bool {
    &&& ids::ascending(listed)
    &&& forall|id: Seq<char>| #[trigger] states.dom().contains(id) <==> listed.contains(id)
}

/// What git answered, where it did.
pub open spec fn answered(tip: Result<String, String>) -> Option<Seq<char>> {
    match tip {
        Ok(commit) => Some(commit@),
        Err(_) => None,
    }
}

/// The answer for a flight.
pub open spec fn flight_answer(
    run: RunId,
    flight: Flight,
    tip: Option<Seq<char>>,
    build: BuildView,
    listed: Seq<Seq<char>>,
) -> JsonView {
    JsonView::record().with("run"@, JsonView::Whole(run.0 as nat)).with(
        "feature"@,
        JsonView::Text(flight.feature.0@),
    ).with("repository"@, JsonView::Text(flight.repository@)).with(
        "branch"@,
        JsonView::Text(flight.branch@),
    ).with("tip"@, json::text_or_null(tip)).with(
        "check"@,
        json::text_or_null(text::optional(flight.check)),
    ).with("finished"@, JsonView::Bool(build.is_finished())).with(
        "problems"@,
        json::texts_of(build.problems.map_values(|problem: ProblemView| problem.words())),
    ).with("issues"@, issues_view(build.plan.tree.nodes(), listed, build.states))
}

fn titled(nodes: &Vec<&Issue>, id: &str) -> (r: Option<String>)
    ensures
        text::optional(r) == title_of(tree::reached(nodes@), id@),
{
    let ghost all = tree::reached(nodes@);
    let mut at: usize = nodes.len();
    proof {
        assert(all.take(at as int) =~= all);
    }
    while at > 0
        invariant
            at <= nodes@.len() == all.len(),
            all == tree::reached(nodes@),
            title_of(all, id@) == title_of(all.take(at as int), id@),
        decreases at,
    {
        proof {
            assert(all.take(at as int).last() == *nodes@[at - 1]);
            assert(all.take(at as int).drop_last() =~= all.take(at - 1));
        }
        if text::same(nodes[at - 1].id.as_str(), id) {
            return Some(nodes[at - 1].title.clone());
        }
        at = at - 1;
    }
    None
}

impl Flight {
    /// How a feature build is going — or went: each issue's state, the
    /// feature branch's tip, and the report of whatever failed. `tip` is
    /// what git answered for it: where it would not, there is none.
    pub fn status(&self, run: RunId, tip: &Result<String, String>, build: &Build) -> (r: Json)
        requires
            build.wf(),
        ensures
            exists|listed: Seq<Seq<char>>|
                #[trigger] lists(listed, build@.states) && r@ == flight_answer(
                    run,
                    *self,
                    answered(*tip),
                    build@,
                    listed,
                ),
    {
        let plan = build.plan();
        let nodes = plan.tree.nodes();
        let states = build.states();
        let ghost listed = states.listed();
        let ghost shown = listed.map_values(
            |id: Seq<char>| issue_view(build@.plan.tree.nodes(), id, build@.states[id]),
        );
        proof {
            states.listing();
        }
        let mut issues: Vec<Json> = Vec::new();
        let mut i: usize = 0;
        while i < states.len()
            invariant
                i <= listed.len() == shown.len(),
                states.wf(),
                states@ == build@.states,
                listed == states.listed(),
                tree::reached(nodes@) == build@.plan.tree.nodes(),
                issues@.len() == i,
                forall|k: int|
                    0 <= k < listed.len() ==> #[trigger] shown[k] == issue_view(
                        build@.plan.tree.nodes(),
                        listed[k],
                        build@.states[listed[k]],
                    ),
                forall|k: int| 0 <= k < i ==> (#[trigger] issues@[k])@ == shown[k],
            decreases listed.len() - i,
        {
            let (id, state) = states.entry(i);
            let title = titled(&nodes, id.as_str());
            issues.push(
                state_json(state).with("id", Json::string(id.as_str())).with(
                    "title",
                    Json::string_or_null(&title),
                ),
            );
            i = i + 1;
        }
        proof {
            json::item_views(issues@);
            assert(json::items_view(issues@) =~= shown);
        }
        let words = worded(build.problems());
        proof {
            assert(text::views(words@) =~= build@.problems.map_values(
                |problem: ProblemView| problem.words(),
            ));
        }
        let tip = match tip {
            Ok(commit) => Json::string(commit.as_str()),
            Err(_) => Json::Null,
        };
        let r = Json::record().with("run", Json::Whole(run.0)).with(
            "feature",
            Json::string(self.feature.0.as_str()),
        ).with("repository", Json::string(self.repository.as_str())).with(
            "branch",
            Json::string(self.branch.as_str()),
        ).with("tip", tip).with("check", Json::string_or_null(&self.check)).with(
            "finished",
            Json::Bool(build.finished()),
        ).with("problems", Json::strings(&words)).with("issues", Json::list(issues));
        proof {
            assert(lists(listed, build@.states));
        }
        r
    }
}

// ----- the tools as the wire advertises them -----

/// The `start_feature` tool.
pub open spec fn start_feature_spec() -> ToolSpecView {
    ToolSpecView {
        name: "start_feature"@,
        description:
            "Builds a whole feature — an issue and the sub-issues beneath it — in a local clone: up to four coding agents work the ready issues at once, each finished issue merges onto one feature branch, and the branch is pushed as work lands. Asks the user, in the window, for the check command every merge must pass — never ask that yourself. Returns as soon as the build is running, with the run id that names this build; several feature builds may run at once, each with its own run id, and one feature builds once at a time. The build then proceeds on its own for a long time, so tell the user the branch and run id and end your turn — the user will ask how it is going, and feature_status answers for the run."@,
        parameters: tools::schema_of(
            JsonView::record().with(
                "repo"@,
                tools::property_of(
                    "string"@,
                    "The repository as the tracker names it: one owner/name string on GitHub."@,
                ),
            ).with(
                "repository"@,
                tools::property_of(
                    "string"@,
                    "The absolute path of the local clone to build in (git_clone one first if none exists)."@,
                ),
            ).with(
                "feature"@,
                tools::property_of("integer"@, "The feature issue's number."@),
            ).with(
                "branch"@,
                tools::property_of(
                    "string"@,
                    "The feature branch's name; feature-<number> when omitted."@,
                ),
            ).with(
                "base"@,
                tools::property_of(
                    "string"@,
                    "The branch or commit the feature branch starts from; the repository's default branch when omitted."@,
                ),
            ),
            JsonView::row().also("repo"@).also("repository"@).also("feature"@),
        ),
    }
}

/// The `start_feature` tool: what the model reads of it.
pub fn start_feature() -> (r: ToolSpec)
    ensures
        r@ == start_feature_spec(),
{
    ToolSpec::function(
        "start_feature".to_owned(),
        "Builds a whole feature — an issue and the sub-issues beneath it — in a local clone: up to four coding agents work the ready issues at once, each finished issue merges onto one feature branch, and the branch is pushed as work lands. Asks the user, in the window, for the check command every merge must pass — never ask that yourself. Returns as soon as the build is running, with the run id that names this build; several feature builds may run at once, each with its own run id, and one feature builds once at a time. The build then proceeds on its own for a long time, so tell the user the branch and run id and end your turn — the user will ask how it is going, and feature_status answers for the run.".to_owned(),
        tools::schema(
            Json::record().with(
                "repo",
                tools::string_arg(
                    "The repository as the tracker names it: one owner/name string on GitHub.",
                ),
            ).with(
                "repository",
                tools::string_arg(
                    "The absolute path of the local clone to build in (git_clone one first if none exists).",
                ),
            ).with("feature", tools::number_arg("The feature issue's number.")).with(
                "branch",
                tools::string_arg("The feature branch's name; feature-<number> when omitted."),
            ).with(
                "base",
                tools::string_arg(
                    "The branch or commit the feature branch starts from; the repository's default branch when omitted.",
                ),
            ),
            Json::row().also("repo").also("repository").also("feature"),
        ),
    )
}

/// The `feature_status` tool.
pub open spec fn feature_status_spec() -> ToolSpecView {
    ToolSpecView {
        name: "feature_status"@,
        description:
            "How a feature build started by start_feature is going — or went: each issue's title and state (waiting, running, merging, merged, failed with its report, skipped with its reason), the feature branch's tip, the check in force (null means the branch is unchecked), and any problems with the plan's shape. Several feature builds may run at once: pass run — the run id start_feature answered with — to read a particular build; with run omitted, the most recently started build answers, whichever feature it is. Call it once when the user asks and report what it says; never poll it in a loop — the build runs on its own."@,
        parameters: JsonView::record().with("type"@, JsonView::Text("object"@)).with(
            "properties"@,
            JsonView::record().with(
                "run"@,
                tools::property_of(
                    "integer"@,
                    "The run id start_feature answered with, selecting that build; the most recently started build when omitted."@,
                ),
            ),
        ),
    }
}

/// The `feature_status` tool: what the model reads of it.
pub fn feature_status() -> (r: ToolSpec)
    ensures
        r@ == feature_status_spec(),
{
    ToolSpec::function(
        "feature_status".to_owned(),
        "How a feature build started by start_feature is going — or went: each issue's title and state (waiting, running, merging, merged, failed with its report, skipped with its reason), the feature branch's tip, the check in force (null means the branch is unchecked), and any problems with the plan's shape. Several feature builds may run at once: pass run — the run id start_feature answered with — to read a particular build; with run omitted, the most recently started build answers, whichever feature it is. Call it once when the user asks and report what it says; never poll it in a loop — the build runs on its own.".to_owned(),
        Json::record().with("type", Json::string("object")).with(
            "properties",
            Json::record().with(
                "run",
                tools::number_arg(
                    "The run id start_feature answered with, selecting that build; the most recently started build when omitted.",
                ),
            ),
        ),
    )
}

} // verus!
