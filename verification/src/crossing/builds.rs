//! The monitor's vocabulary: the entries of the log that a build is told
//! in, with the changes and the states in them.

use crate::crossing;
use crate::crossing::capabilities;
use crate::crossing::lines;
use crate::crossing::plans;
use crate::crossing::plans::PlanSaid;
use crate::feature::tools;
use crate::feature::{Blocking, Issue, IssueId, Plan, PlanView, RunId, State};
use crate::ids::IdMap;
use crate::json;
use crate::json::spelling;
use crate::json::{Json, JsonView};
use crate::monitor::{Change, Entry};
use crate::text;
use crate::tree::TreeView;
use vstd::prelude::*;

verus! {

// ----- a state -----

/// What a state says.
pub enum StateSaid {
    Waiting,
    Running,
    Merging,
    Merged { commit: Seq<char>, checked: bool },
    Failed { report: Seq<char> },
    Skipped { reason: Seq<char> },
}

/// What a state says.
pub open spec fn state_said(state: State) -> StateSaid {
    match state {
        State::Waiting => StateSaid::Waiting,
        State::Running => StateSaid::Running,
        State::Merging => StateSaid::Merging,
        State::Merged { commit, checked } => StateSaid::Merged { commit: commit@, checked },
        State::Failed { report } => StateSaid::Failed { report: report@ },
        State::Skipped { reason } => StateSaid::Skipped { reason: reason@ },
    }
}

/// A state out of JSON, when the value is one.
pub open spec fn state_of(value: JsonView, within: bool) -> Option<StateSaid> {
    if crossing::tagged(value, "state"@, "waiting"@, 0, within) {
        if value.fills(1) {
            Some(StateSaid::Waiting)
        } else {
            None
        }
    } else if crossing::tagged(value, "state"@, "running"@, 1, within) {
        if value.fills(1) {
            Some(StateSaid::Running)
        } else {
            None
        }
    } else if crossing::tagged(value, "state"@, "merging"@, 2, within) {
        if value.fills(1) {
            Some(StateSaid::Merging)
        } else {
            None
        }
    } else if crossing::tagged(value, "state"@, "merged"@, 3, within) {
        let commit = json::needed_text(value.part(1, "commit"@));
        let checked = crossing::needed_flag(value.part(2, "checked"@));
        if value.fills(3) && commit is Some && checked is Some {
            Some(StateSaid::Merged { commit: commit->0, checked: checked->0 })
        } else {
            None
        }
    } else if crossing::tagged(value, "state"@, "failed"@, 4, within) {
        let report = json::needed_text(value.part(1, "report"@));
        if value.fills(2) && report is Some {
            Some(StateSaid::Failed { report: report->0 })
        } else {
            None
        }
    } else if crossing::tagged(value, "state"@, "skipped"@, 5, within) {
        let reason = json::needed_text(value.part(1, "reason"@));
        if value.fills(2) && reason is Some {
            Some(StateSaid::Skipped { reason: reason->0 })
        } else {
            None
        }
    } else {
        None
    }
}

/// A state that must be there.
pub open spec fn needed_state(part: Option<JsonView>) -> Option<StateSaid> {
    match part {
        Some(value) => state_of(value, true),
        None => None,
    }
}

impl State {
    /// A state out of JSON, when the value is one.
    pub fn read(value: &Json) -> (r: Option<State>)
        ensures
            match r {
                Some(state) => state_of(value@, false) == Some(state_said(state)),
                None => state_of(value@, false) is None,
            },
    {
        State::read_either(value, false)
    }

    fn read_either(value: &Json, within: bool) -> (r: Option<State>)
        ensures
            match r {
                Some(state) => state_of(value@, within) == Some(state_said(state)),
                None => state_of(value@, within) is None,
            },
    {
        if crossing::is_tagged(value, "state", "waiting", 0, within) {
            if value.fills(1) {
                Some(State::Waiting)
            } else {
                None
            }
        } else if crossing::is_tagged(value, "state", "running", 1, within) {
            if value.fills(1) {
                Some(State::Running)
            } else {
                None
            }
        } else if crossing::is_tagged(value, "state", "merging", 2, within) {
            if value.fills(1) {
                Some(State::Merging)
            } else {
                None
            }
        } else if crossing::is_tagged(value, "state", "merged", 3, within) {
            if !value.fills(3) {
                return None;
            }
            let commit = match json::read_text(value.part(1, "commit")) {
                Some(commit) => commit,
                None => return None,
            };
            match crossing::read_flag(value.part(2, "checked")) {
                Some(checked) => Some(State::Merged { commit, checked }),
                None => None,
            }
        } else if crossing::is_tagged(value, "state", "failed", 4, within) {
            if !value.fills(2) {
                return None;
            }
            match json::read_text(value.part(1, "report")) {
                Some(report) => Some(State::Failed { report }),
                None => None,
            }
        } else if crossing::is_tagged(value, "state", "skipped", 5, within) {
            if !value.fills(2) {
                return None;
            }
            match json::read_text(value.part(1, "reason")) {
                Some(reason) => Some(State::Skipped { reason }),
                None => None,
            }
        } else {
            None
        }
    }
}

fn read_state(part: Option<&Json>) -> (r: Option<State>)
    ensures
        match r {
            Some(state) => needed_state(json::part_view(part)) == Some(state_said(state)),
            None => needed_state(json::part_view(part)) is None,
        },
{
    match part {
        Some(value) => State::read_either(value, true),
        None => None,
    }
}

/// Law: what is told of a state is read back as it was.
pub proof fn told_state_reads_back(state: State, within: bool)
    ensures
        state_of(tools::state_view(state), within) == Some(state_said(state)),
{
    reveal_strlit("waiting");
    reveal_strlit("running");
    reveal_strlit("merging");
    reveal_strlit("merged");
    reveal_strlit("failed");
    reveal_strlit("skipped");
    reveal_strlit("state");
    reveal_strlit("commit");
    reveal_strlit("checked");
    reveal_strlit("report");
    reveal_strlit("reason");
    assert("waiting"@[0] != "running"@[0]);
    assert("waiting"@[0] != "merging"@[0]);
    assert("waiting"@.len() != "merged"@.len());
    assert("waiting"@.len() != "failed"@.len());
    assert("waiting"@[0] != "skipped"@[0]);
    assert("running"@[0] != "merging"@[0]);
    assert("running"@.len() != "merged"@.len());
    assert("running"@.len() != "failed"@.len());
    assert("running"@[0] != "skipped"@[0]);
    assert("merging"@.len() != "merged"@.len());
    assert("merging"@.len() != "failed"@.len());
    assert("merging"@[0] != "skipped"@[0]);
    assert("merged"@[0] != "failed"@[0]);
    assert("merged"@.len() != "skipped"@.len());
    assert("failed"@.len() != "skipped"@.len());
    assert("state"@.len() != "commit"@.len());
    assert("state"@.len() != "checked"@.len());
    assert("commit"@.len() != "checked"@.len());
    assert("state"@.len() != "report"@.len());
    assert("state"@.len() != "reason"@.len());
    let word = match state {
        State::Waiting => "waiting"@,
        State::Running => "running"@,
        State::Merging => "merging"@,
        State::Merged { .. } => "merged"@,
        State::Failed { .. } => "failed"@,
        State::Skipped { .. } => "skipped"@,
    };
    let record = JsonView::record();
    crossing::put(record, "state"@, JsonView::Text(word));
    let named = record.with("state"@, JsonView::Text(word));
    match state {
        State::Merged { commit, checked } => {
            crossing::put(named, "commit"@, JsonView::Text(commit@));
            let named = named.with("commit"@, JsonView::Text(commit@));
            crossing::put(named, "checked"@, JsonView::Bool(checked));
        },
        State::Failed { report } => {
            crossing::put(named, "report"@, JsonView::Text(report@));
        },
        State::Skipped { reason } => {
            crossing::put(named, "reason"@, JsonView::Text(reason@));
        },
        _ => {},
    }
}

proof fn state_is_plain(state: State, room: nat)
    requires
        room > 0,
    ensures
        spelling::plain(tools::state_view(state), room),
{
    reveal_strlit("state");
    reveal_strlit("commit");
    reveal_strlit("checked");
    reveal_strlit("report");
    reveal_strlit("reason");
    assert("state"@.len() != "commit"@.len());
    assert("state"@.len() != "checked"@.len());
    assert("commit"@.len() != "checked"@.len());
    assert("state"@.len() != "report"@.len());
    assert("state"@.len() != "reason"@.len());
    let word = match state {
        State::Waiting => "waiting"@,
        State::Running => "running"@,
        State::Merging => "merging"@,
        State::Merged { .. } => "merged"@,
        State::Failed { .. } => "failed"@,
        State::Skipped { .. } => "skipped"@,
    };
    let record = JsonView::record();
    lines::put_plain(record, "state"@, JsonView::Text(word), room);
    let named = record.with("state"@, JsonView::Text(word));
    match state {
        State::Merged { commit, checked } => {
            lines::put_plain(named, "commit"@, JsonView::Text(commit@), room);
            let named = named.with("commit"@, JsonView::Text(commit@));
            lines::put_plain(named, "checked"@, JsonView::Bool(checked), room);
        },
        State::Failed { report } => {
            lines::put_plain(named, "report"@, JsonView::Text(report@), room);
        },
        State::Skipped { reason } => {
            lines::put_plain(named, "reason"@, JsonView::Text(reason@), room);
        },
        _ => {},
    }
}

proof fn state_alike(one: JsonView, other: JsonView, within: bool)
    requires
        spelling::alike(one, other),
    ensures
        state_of(one, within) == state_of(other, within),
{
    spelling::alike_fields(one, other);
}

// ----- the states of a build -----

/// Every issue's state, as JSON: a member for each, under the issue's
/// name.
pub open spec fn told_states(states: IdMap<State>) -> JsonView {
    JsonView::Object(
        Seq::new(
            states.listed().len(),
            |i: int| (states.listed()[i], tools::state_view(states@[states.listed()[i]])),
        ),
    )
}

/// What the states of a build say.
pub open spec fn states_said(states: Map<Seq<char>, State>) -> Map<Seq<char>, StateSaid> {
    states.map_values(|state: State| state_said(state))
}

/// Every issue's state out of the members of an object, when each is one.
pub open spec fn states_of(members: Seq<(Seq<char>, JsonView)>) -> Option<
    Map<Seq<char>, StateSaid>,
>
    decreases members.len(),
{
    if members.len() == 0 {
        Some(Map::empty())
    } else {
        match (states_of(members.drop_last()), state_of(members.last().1, true)) {
            (Some(front), Some(state)) => Some(front.insert(members.last().0, state)),
            _ => None,
        }
    }
}

/// The states of a build that must be there.
pub open spec fn needed_states(part: Option<JsonView>) -> Option<Map<Seq<char>, StateSaid>> {
    match part {
        Some(JsonView::Object(members)) => states_of(members),
        _ => None,
    }
}

fn tell_states(states: &IdMap<State>) -> (r: Json)
    requires
        states.wf(),
    ensures
        r@ == told_states(*states),
{
    let ghost shown = told_states(*states)->Object_0;
    let mut members: Vec<(String, Json)> = Vec::new();
    let mut i: usize = 0;
    while i < states.len()
        invariant
            states.wf(),
            shown == told_states(*states)->Object_0,
            i <= states.listed().len() == shown.len(),
            members@.len() == i,
            forall|k: int|
                0 <= k < i ==> ((#[trigger] members@[k]).0@, members@[k].1@) == shown[k],
        decreases states.listed().len() - i,
    {
        let (id, state) = states.entry(i);
        members.push((id.0.clone(), tools::state_json(state)));
        i = i + 1;
    }
    proof {
        json::member_views(members@);
        assert(json::members_view(members@) =~= shown);
    }
    Json::Object(members)
}

/// The states are read only where all that comes before is.
proof fn states_to_the_end(members: Seq<(Seq<char>, JsonView)>, i: int)
    requires
        0 <= i <= members.len(),
        states_of(members.take(i)) is None,
    ensures
        states_of(members) is None,
    decreases members.len() - i,
{
    if i == members.len() {
        assert(members.take(i) =~= members);
    } else {
        assert(members.take(i + 1).drop_last() =~= members.take(i));
        states_to_the_end(members, i + 1);
    }
}

fn read_states(part: Option<&Json>) -> (r: Option<IdMap<State>>)
    ensures
        match r {
            Some(states) => states.wf() && needed_states(json::part_view(part)) == Some(
                states_said(states@),
            ),
            None => needed_states(json::part_view(part)) is None,
        },
{
    let members = match part {
        Some(Json::Object(members)) => members,
        _ => return None,
    };
    let ghost view = json::members_view(members@);
    let mut states: IdMap<State> = IdMap::new();
    let mut i: usize = 0;
    proof {
        json::member_views(members@);
        assert(view.take(0) =~= Seq::empty());
        assert(states_said(states@) =~= Map::empty());
    }
    while i < members.len()
        invariant
            i <= members@.len() == view.len(),
            part == Some(&Json::Object(*members)),
            view == json::members_view(members@),
            forall|k: int|
                0 <= k < members@.len() ==> #[trigger] view[k] == (
                    members@[k].0@,
                    members@[k].1@,
                ),
            states.wf(),
            states_of(view.take(i as int)) == Some(states_said(states@)),
        decreases members@.len() - i,
    {
        proof {
            assert(view[i as int] == (members@[i as int].0@, members@[i as int].1@));
            assert(view.take(i + 1).drop_last() =~= view.take(i as int));
            assert(view.take(i + 1).last() == view[i as int]);
        }
        let ghost before = states@;
        match State::read_either(&members[i].1, true) {
            Some(state) => {
                let ghost kept = state;
                states.insert(IssueId(members[i].0.clone()), state);
                proof {
                    assert(states_said(states@) =~= states_said(before).insert(
                        members@[i as int].0@,
                        state_said(kept),
                    ));
                }
            },
            None => {
                proof {
                    states_to_the_end(view, i + 1);
                }
                return None;
            },
        }
        i = i + 1;
    }
    proof {
        assert(view.take(i as int) =~= view);
    }
    Some(states)
}

/// Whether no two members have one name.
spec fn distinct(members: Seq<(Seq<char>, JsonView)>) -> bool {
    forall|i: int, j: int|
        0 <= i < j < members.len() ==> (#[trigger] members[i]).0 != (#[trigger] members[j]).0
}

/// Where no two members have one name, each name has the state that stands
/// under it.
proof fn states_by_name(members: Seq<(Seq<char>, JsonView)>)
    requires
        distinct(members),
    ensures
        states_of(members) is Some <==> forall|i: int|
            0 <= i < members.len() ==> state_of((#[trigger] members[i]).1, true) is Some,
        states_of(members) is Some ==> {
            let states = states_of(members)->0;
            &&& forall|name: Seq<char>| #[trigger]
                states.dom().contains(name) ==> exists|i: int|
                    0 <= i < members.len() && (#[trigger] members[i]).0 == name
            &&& forall|i: int|
                0 <= i < members.len() ==> states.dom().contains((#[trigger] members[i]).0)
                    && states[members[i].0] == state_of(members[i].1, true)->0
        },
    decreases members.len(),
{
    if members.len() > 0 {
        let front = members.drop_last();
        let n = members.len() - 1;
        assert forall|i: int, j: int| 0 <= i < j < front.len() implies (#[trigger] front[i]).0 != (
        #[trigger] front[j]).0 by {
            assert(members[i].0 != members[j].0);
        }
        states_by_name(front);
        assert(forall|i: int| 0 <= i < front.len() ==> #[trigger] front[i] == members[i]);
        if states_of(front) is Some && state_of(members[n].1, true) is Some {
            let states = states_of(members)->0;
            assert forall|i: int| 0 <= i < members.len() implies states.dom().contains(
                (#[trigger] members[i]).0,
            ) && states[members[i].0] == state_of(members[i].1, true)->0 && state_of(
                members[i].1,
                true,
            ) is Some by {
                if i < n {
                    assert(front[i] == members[i]);
                    assert(members[i].0 != members[n].0);
                }
            }
            assert forall|name: Seq<char>| #[trigger]
                states.dom().contains(name) implies exists|i: int|
                0 <= i < members.len() && (#[trigger] members[i]).0 == name by {
                if name == members[n].0 {
                    assert(members[n].0 == name);
                } else {
                    assert(states_of(front)->0.dom().contains(name));
                    let i = choose|i: int| 0 <= i < front.len() && (#[trigger] front[i]).0 == name;
                    assert(members[i].0 == name);
                }
            }
        } else if states_of(front) is None {
            let i = choose|i: int|
                0 <= i < front.len() && !(state_of((#[trigger] front[i]).1, true) is Some);
            assert(state_of(members[i].1, true) is None);
        } else {
            assert(state_of(members[n].1, true) is None);
        }
    }
}

proof fn told_states_distinct(states: IdMap<State>)
    requires
        states.wf(),
    ensures
        distinct(told_states(states)->Object_0),
{
    states.listing();
    let names = states.listed();
    assert forall|i: int, j: int| 0 <= i < j < names.len() implies names[i] != names[j] by {
        text::before_is_irreflexive(names[i]);
        assert(text::before(names[i], names[j]));
    }
}

proof fn told_states_read_back(states: IdMap<State>)
    requires
        states.wf(),
    ensures
        needed_states(Some(told_states(states))) == Some(states_said(states@)),
{
    let members = told_states(states)->Object_0;
    let names = states.listed();
    states.listing();
    told_states_distinct(states);
    states_by_name(members);
    assert forall|i: int| 0 <= i < members.len() implies state_of((#[trigger] members[i]).1, true)
        == Some(state_said(states@[names[i]])) by {
        told_state_reads_back(states@[names[i]], true);
    }
    let read = states_of(members)->0;
    assert forall|name: Seq<char>| #[trigger] read.dom().contains(name) <==> states_said(
        states@,
    ).dom().contains(name) by {
        if read.dom().contains(name) {
            let i = choose|i: int| 0 <= i < members.len() && (#[trigger] members[i]).0 == name;
            assert(names[i] == name);
            assert(names.contains(name));
        }
        if states@.dom().contains(name) {
            let i = choose|i: int| 0 <= i < names.len() && names[i] == name;
            assert(members[i].0 == name);
        }
    }
    assert forall|name: Seq<char>| #[trigger] read.dom().contains(name) implies read[name]
        == states_said(states@)[name] by {
        let i = choose|i: int| 0 <= i < members.len() && (#[trigger] members[i]).0 == name;
        assert(names[i] == name);
        assert(names.contains(name));
        assert(states@.dom().contains(name));
    }
    assert(read =~= states_said(states@));
}

proof fn states_are_plain(states: IdMap<State>, room: nat)
    requires
        states.wf(),
        room >= 2,
    ensures
        spelling::plain(told_states(states), room),
{
    let members = told_states(states)->Object_0;
    told_states_distinct(states);
    assert forall|i: int| 0 <= i < members.len() implies spelling::plain(
        (#[trigger] members[i]).1,
        (room - 1) as nat,
    ) by {
        state_is_plain(states@[states.listed()[i]], (room - 1) as nat);
    }
}

proof fn states_alike(one: Option<JsonView>, other: Option<JsonView>)
    requires
        spelling::both_alike(one, other),
        one matches Some(JsonView::Object(members)) ==> distinct(members),
    ensures
        needed_states(one) == needed_states(other),
{
    match (one, other) {
        (Some(JsonView::Object(a)), Some(JsonView::Object(b))) => {
            states_by_name(a);
            states_by_name(b);
            assert forall|i: int| 0 <= i < a.len() implies exists|j: int|
                0 <= j < b.len() && (#[trigger] b[j]).0 == (#[trigger] a[i]).0
                    && state_of(b[j].1, true)
                    == state_of(a[i].1, true) by {
                spelling::member_placed(b, a[i].0);
                let j = choose|j: int|
                    0 <= j < b.len() && (#[trigger] b[j]).0 == a[i].0 && b[j].1 == json::member(
                        b,
                        a[i].0,
                    )->0;
                state_alike(a[i].1, b[j].1, true);
                assert(b[j].0 == a[i].0);
            }
            assert forall|j: int| 0 <= j < b.len() implies exists|i: int|
                0 <= i < a.len() && (#[trigger] a[i]).0 == (#[trigger] b[j]).0
                    && state_of(a[i].1, true)
                    == state_of(b[j].1, true) by {
                spelling::alike_members(a, b, b[j].0);
                spelling::member_placed(a, b[j].0);
                spelling::member_placed(b, b[j].0);
                let i = choose|i: int|
                    0 <= i < a.len() && (#[trigger] a[i]).0 == b[j].0 && a[i].1 == json::member(
                        a,
                        b[j].0,
                    )->0;
                let k = choose|k: int|
                    0 <= k < b.len() && (#[trigger] b[k]).0 == b[j].0 && b[k].1 == json::member(
                        b,
                        b[j].0,
                    )->0;
                assert(k == j) by {
                    if k < j {
                        assert(b[k].0 != b[j].0);
                    } else if j < k {
                        assert(b[j].0 != b[k].0);
                    }
                }
                state_alike(a[i].1, b[j].1, true);
                assert(a[i].0 == b[j].0);
            }
            if states_of(a) is Some {
                assert forall|j: int| 0 <= j < b.len() implies state_of(
                    (#[trigger] b[j]).1,
                    true,
                ) is Some by {
                    let i = choose|i: int|
                        0 <= i < a.len() && (#[trigger] a[i]).0 == b[j].0 && state_of(a[i].1, true)
                            == state_of(b[j].1, true);
                    assert(state_of(a[i].1, true) is Some);
                }
                let left = states_of(a)->0;
                let right = states_of(b)->0;
                assert forall|name: Seq<char>| #[trigger] left.dom().contains(name) implies
                    right.dom().contains(name) && right[name] == left[name] by {
                    let i = choose|i: int| 0 <= i < a.len() && (#[trigger] a[i]).0 == name;
                    let j = choose|j: int|
                        0 <= j < b.len() && (#[trigger] b[j]).0 == a[i].0 && state_of(b[j].1, true)
                            == state_of(a[i].1, true);
                    assert(right.dom().contains(b[j].0));
                    assert(left.dom().contains(a[i].0));
                }
                assert forall|name: Seq<char>| #[trigger]
                    right.dom().contains(name) implies left.dom().contains(name) by {
                    let j = choose|j: int| 0 <= j < b.len() && (#[trigger] b[j]).0 == name;
                    let i = choose|i: int|
                        0 <= i < a.len() && (#[trigger] a[i]).0 == b[j].0 && state_of(a[i].1, true)
                            == state_of(b[j].1, true);
                    assert(left.dom().contains(a[i].0));
                }
                assert(left =~= right);
            } else {
                let i = choose|i: int|
                    0 <= i < a.len() && !(state_of((#[trigger] a[i]).1, true) is Some);
                let j = choose|j: int|
                    0 <= j < b.len() && (#[trigger] b[j]).0 == a[i].0 && state_of(b[j].1, true)
                        == state_of(a[i].1, true);
                assert(state_of(b[j].1, true) is None);
            }
        },
        _ => {},
    }
}

// ----- a plan in it -----

/// A plan that must be there.
pub open spec fn needed_plan(part: Option<JsonView>) -> Option<PlanSaid> {
    match part {
        Some(value) => plans::plan_of(value),
        None => None,
    }
}

fn read_plan(part: Option<&Json>) -> (r: Option<Plan>)
    ensures
        match r {
            Some(plan) => needed_plan(json::part_view(part)) == Some(plans::plan_said(plan@)),
            None => needed_plan(json::part_view(part)) is None,
        },
{
    match part {
        Some(value) => Plan::read(value),
        None => None,
    }
}

/// How many levels a tree has.
pub open spec fn levels<T>(node: TreeView<T>) -> nat
    decreases node, 1nat,
{
    1 + deepest(node.children)
}

/// How many levels the deepest of the trees has.
pub open spec fn deepest<T>(trees: Seq<TreeView<T>>) -> nat
    decreases trees, 0nat,
{
    if trees.len() == 0 {
        0
    } else if levels(trees.last()) > deepest(trees.drop_last()) {
        levels(trees.last())
    } else {
        deepest(trees.drop_last())
    }
}

proof fn issue_is_plain(issue: Issue, room: nat)
    requires
        room > 0,
    ensures
        spelling::plain(plans::told_issue(issue), room),
{
    reveal_strlit("id");
    reveal_strlit("title");
    reveal_strlit("closed");
    assert("id"@.len() != "title"@.len());
    assert("id"@.len() != "closed"@.len());
    assert("title"@.len() != "closed"@.len());
    let record = JsonView::record();
    lines::put_plain(record, "id"@, JsonView::Text(issue.id@), room);
    let record = record.with("id"@, JsonView::Text(issue.id@));
    lines::put_plain(record, "title"@, JsonView::Text(issue.title@), room);
    let record = record.with("title"@, JsonView::Text(issue.title@));
    lines::put_plain(record, "closed"@, JsonView::Bool(issue.closed), room);
}

proof fn blocking_is_plain(edge: Blocking, room: nat)
    requires
        room > 0,
    ensures
        spelling::plain(plans::told_blocking(edge), room),
{
    reveal_strlit("issue");
    reveal_strlit("blocker");
    assert("issue"@.len() != "blocker"@.len());
    let record = JsonView::record();
    lines::put_plain(record, "issue"@, JsonView::Text(edge.issue@), room);
    let record = record.with("issue"@, JsonView::Text(edge.issue@));
    lines::put_plain(record, "blocker"@, JsonView::Text(edge.blocker@), room);
}

proof fn tree_is_plain(node: TreeView<Issue>, room: nat)
    requires
        room >= 2 * levels(node),
    ensures
        spelling::plain(plans::told_tree(node), room),
    decreases node, 1nat,
{
    reveal_strlit("value");
    reveal_strlit("children");
    assert("value"@.len() != "children"@.len());
    let children = JsonView::Array(plans::told_trees(node.children));
    issue_is_plain(node.value, (room - 1) as nat);
    trees_are_plain(node.children, (room - 2) as nat);
    let record = JsonView::record();
    lines::put_plain(record, "value"@, plans::told_issue(node.value), room);
    let record = record.with("value"@, plans::told_issue(node.value));
    lines::put_plain(record, "children"@, children, room);
}

proof fn trees_are_plain(trees: Seq<TreeView<Issue>>, room: nat)
    requires
        room >= 2 * deepest(trees),
    ensures
        forall|i: int|
            0 <= i < plans::told_trees(trees).len() ==> spelling::plain(
                #[trigger] plans::told_trees(trees)[i],
                room,
            ),
    decreases trees, 0nat,
{
    if trees.len() > 0 {
        let front = trees.drop_last();
        trees_are_plain(front, room);
        tree_is_plain(trees.last(), room);
        let told = plans::told_trees(trees);
        assert forall|i: int| 0 <= i < told.len() implies spelling::plain(
            #[trigger] told[i],
            room,
        ) by {
            if i < told.len() - 1 {
                assert(told[i] == plans::told_trees(front)[i]);
            }
        }
    }
}

proof fn plan_is_plain(plan: PlanView, room: nat)
    requires
        room >= 3,
        room >= 2 * levels(plan.tree) + 1,
    ensures
        spelling::plain(plans::told_plan(plan), room),
{
    reveal_strlit("tree");
    reveal_strlit("blocking");
    reveal_strlit("outside");
    assert("tree"@.len() != "blocking"@.len());
    assert("tree"@.len() != "outside"@.len());
    assert("blocking"@.len() != "outside"@.len());
    let edges = plans::told_edges(plan.blocking);
    let outside = plans::told_issues(plan.outside);
    tree_is_plain(plan.tree, (room - 1) as nat);
    assert forall|i: int| 0 <= i < edges->Array_0.len() implies spelling::plain(
        #[trigger] edges->Array_0[i],
        (room - 2) as nat,
    ) by {
        blocking_is_plain(plan.blocking[i], (room - 2) as nat);
    }
    assert forall|i: int| 0 <= i < outside->Array_0.len() implies spelling::plain(
        #[trigger] outside->Array_0[i],
        (room - 2) as nat,
    ) by {
        issue_is_plain(plan.outside[i], (room - 2) as nat);
    }
    let record = JsonView::record();
    lines::put_plain(record, "tree"@, plans::told_tree(plan.tree), room);
    let record = record.with("tree"@, plans::told_tree(plan.tree));
    lines::put_plain(record, "blocking"@, edges, room);
    let record = record.with("blocking"@, edges);
    lines::put_plain(record, "outside"@, outside, room);
}

// ----- a change -----

/// What a change says.
pub enum ChangeSaid {
    Reserved {
        run: nat,
        feature: Seq<char>,
        repository: Seq<char>,
        branch: Seq<char>,
        base: Option<Seq<char>>,
    },
    Started {
        run: nat,
        plan: PlanSaid,
        problems: Seq<Seq<char>>,
        states: Map<Seq<char>, StateSaid>,
        check: Option<Seq<char>>,
    },
    Moved { run: nat, issue: Seq<char>, state: StateSaid },
    Finished { run: nat },
    Abandoned { run: nat, reason: Seq<char> },
}

/// What a change says.
pub open spec fn change_said(change: Change) -> ChangeSaid {
    match change {
        Change::Reserved { run, feature, repository, branch, base } => ChangeSaid::Reserved {
            run: run.0 as nat,
            feature: feature@,
            repository: repository@,
            branch: branch@,
            base: text::optional(base),
        },
        Change::Started { run, plan, problems, states, check } => ChangeSaid::Started {
            run: run.0 as nat,
            plan: plans::plan_said(plan@),
            problems: text::views(problems@),
            states: states_said(states@),
            check: text::optional(check),
        },
        Change::Moved { run, issue, state } => ChangeSaid::Moved {
            run: run.0 as nat,
            issue: issue@,
            state: state_said(state),
        },
        Change::Finished { run } => ChangeSaid::Finished {
            run: run.0 as nat,
        },
        Change::Abandoned { run, reason } => ChangeSaid::Abandoned {
            run: run.0 as nat,
            reason: reason@,
        },
    }
}

/// A change, as JSON: tagged by its word.
pub open spec fn told_change(change: Change) -> JsonView {
    match change {
        Change::Reserved { run, feature, repository, branch, base } => JsonView::record().with(
            "change"@,
            JsonView::Text("reserved"@),
        ).with(
            "run"@,
            JsonView::Whole(run.0 as nat),
        ).with(
            "feature"@,
            JsonView::Text(feature@),
        ).with(
            "repository"@,
            JsonView::Text(repository@),
        ).with(
            "branch"@,
            JsonView::Text(branch@),
        ).with(
            "base"@,
            json::text_or_null(text::optional(base)),
        ),
        Change::Started { run, plan, problems, states, check } => JsonView::record().with(
            "change"@,
            JsonView::Text("started"@),
        ).with(
            "run"@,
            JsonView::Whole(run.0 as nat),
        ).with(
            "plan"@,
            plans::told_plan(plan@),
        ).with(
            "problems"@,
            json::texts_of(text::views(problems@)),
        ).with(
            "states"@,
            told_states(states),
        ).with(
            "check"@,
            json::text_or_null(text::optional(check)),
        ),
        Change::Moved { run, issue, state } => JsonView::record().with(
            "change"@,
            JsonView::Text("moved"@),
        ).with(
            "run"@,
            JsonView::Whole(run.0 as nat),
        ).with(
            "issue"@,
            JsonView::Text(issue@),
        ).with(
            "state"@,
            tools::state_view(state),
        ),
        Change::Finished { run } => JsonView::record().with(
            "change"@,
            JsonView::Text("finished"@),
        ).with(
            "run"@,
            JsonView::Whole(run.0 as nat),
        ),
        Change::Abandoned { run, reason } => JsonView::record().with(
            "change"@,
            JsonView::Text("abandoned"@),
        ).with(
            "run"@,
            JsonView::Whole(run.0 as nat),
        ).with(
            "reason"@,
            JsonView::Text(reason@),
        ),
    }
}

/// A change out of JSON, when the value is one.
pub open spec fn change_of(value: JsonView) -> Option<ChangeSaid> {
    if crossing::tagged(value, "change"@, "reserved"@, 0, false) {
        let run = json::needed_whole(value.part(1, "run"@));
        let feature = json::needed_text(value.part(2, "feature"@));
        let repository = json::needed_text(value.part(3, "repository"@));
        let branch = json::needed_text(value.part(4, "branch"@));
        let base = json::optional_text(value.part(5, "base"@));
        if value.fills(6) && run is Some && feature is Some && repository is Some
            && branch is Some && base is Some {
            Some(
                ChangeSaid::Reserved {
                    run: run->0,
                    feature: feature->0,
                    repository: repository->0,
                    branch: branch->0,
                    base: base->0,
                },
            )
        } else {
            None
        }
    } else if crossing::tagged(value, "change"@, "started"@, 1, false) {
        let run = json::needed_whole(value.part(1, "run"@));
        let plan = needed_plan(value.part(2, "plan"@));
        let problems = capabilities::needed_texts(value.part(3, "problems"@));
        let states = needed_states(value.part(4, "states"@));
        let check = json::optional_text(value.part(5, "check"@));
        if value.fills(6) && run is Some && plan is Some && problems is Some
            && states is Some && check is Some {
            Some(
                ChangeSaid::Started {
                    run: run->0,
                    plan: plan->0,
                    problems: problems->0,
                    states: states->0,
                    check: check->0,
                },
            )
        } else {
            None
        }
    } else if crossing::tagged(value, "change"@, "moved"@, 2, false) {
        let run = json::needed_whole(value.part(1, "run"@));
        let issue = json::needed_text(value.part(2, "issue"@));
        let state = needed_state(value.part(3, "state"@));
        if value.fills(4) && run is Some && issue is Some && state is Some {
            Some(
                ChangeSaid::Moved {
                    run: run->0,
                    issue: issue->0,
                    state: state->0,
                },
            )
        } else {
            None
        }
    } else if crossing::tagged(value, "change"@, "finished"@, 3, false) {
        let run = json::needed_whole(value.part(1, "run"@));
        if value.fills(2) && run is Some {
            Some(
                ChangeSaid::Finished {
                    run: run->0,
                },
            )
        } else {
            None
        }
    } else if crossing::tagged(value, "change"@, "abandoned"@, 4, false) {
        let run = json::needed_whole(value.part(1, "run"@));
        let reason = json::needed_text(value.part(2, "reason"@));
        if value.fills(3) && run is Some && reason is Some {
            Some(
                ChangeSaid::Abandoned {
                    run: run->0,
                    reason: reason->0,
                },
            )
        } else {
            None
        }
    } else {
        None
    }
}

impl Change {
    /// A change, as JSON: tagged by its word.
    pub fn told(&self) -> (r: Json)
        requires
            self.wf(),
        ensures
            r@ == told_change(*self),
    {
        match self {
            Change::Reserved { run, feature, repository, branch, base } => Json::record().with(
                "change",
                Json::string("reserved"),
            ).with(
                "run",
                Json::Whole(run.0),
            ).with(
                "feature",
                Json::string(feature.as_str()),
            ).with(
                "repository",
                Json::string(repository.as_str()),
            ).with(
                "branch",
                Json::string(branch.as_str()),
            ).with(
                "base",
                Json::string_or_null(base),
            ),
            Change::Started { run, plan, problems, states, check } => Json::record().with(
                "change",
                Json::string("started"),
            ).with(
                "run",
                Json::Whole(run.0),
            ).with(
                "plan",
                plan.told(),
            ).with(
                "problems",
                Json::strings(problems),
            ).with(
                "states",
                tell_states(states),
            ).with(
                "check",
                Json::string_or_null(check),
            ),
            Change::Moved { run, issue, state } => Json::record().with(
                "change",
                Json::string("moved"),
            ).with(
                "run",
                Json::Whole(run.0),
            ).with(
                "issue",
                Json::string(issue.as_str()),
            ).with(
                "state",
                tools::state_json(state),
            ),
            Change::Finished { run } => Json::record().with(
                "change",
                Json::string("finished"),
            ).with(
                "run",
                Json::Whole(run.0),
            ),
            Change::Abandoned { run, reason } => Json::record().with(
                "change",
                Json::string("abandoned"),
            ).with(
                "run",
                Json::Whole(run.0),
            ).with(
                "reason",
                Json::string(reason.as_str()),
            ),
        }
    }

    /// A change out of JSON, when the value is one.
    pub fn read(value: &Json) -> (r: Option<Change>)
        ensures
            match r {
                Some(change) => change.wf() && change_of(value@) == Some(change_said(change)),
                None => change_of(value@) is None,
            },
    {
        if crossing::is_tagged(value, "change", "reserved", 0, false) {
            if !value.fills(6) {
                return None;
            }
            let run = match json::read_whole(value.part(1, "run")) {
                Some(run) => RunId(run),
                None => return None,
            };
            let feature = match json::read_text(value.part(2, "feature")) {
                Some(feature) => IssueId(feature),
                None => return None,
            };
            let repository = match json::read_text(value.part(3, "repository")) {
                Some(repository) => repository,
                None => return None,
            };
            let branch = match json::read_text(value.part(4, "branch")) {
                Some(branch) => branch,
                None => return None,
            };
            let base = match json::read_optional_text(value.part(5, "base")) {
                Some(base) => base,
                None => return None,
            };
            return Some(Change::Reserved { run, feature, repository, branch, base });
        }
        if crossing::is_tagged(value, "change", "started", 1, false) {
            if !value.fills(6) {
                return None;
            }
            let run = match json::read_whole(value.part(1, "run")) {
                Some(run) => RunId(run),
                None => return None,
            };
            let plan = match read_plan(value.part(2, "plan")) {
                Some(plan) => plan,
                None => return None,
            };
            let problems = match capabilities::needed_strings(value.part(3, "problems")) {
                Some(problems) => problems,
                None => return None,
            };
            let states = match read_states(value.part(4, "states")) {
                Some(states) => states,
                None => return None,
            };
            let check = match json::read_optional_text(value.part(5, "check")) {
                Some(check) => check,
                None => return None,
            };
            return Some(Change::Started { run, plan, problems, states, check });
        }
        if crossing::is_tagged(value, "change", "moved", 2, false) {
            if !value.fills(4) {
                return None;
            }
            let run = match json::read_whole(value.part(1, "run")) {
                Some(run) => RunId(run),
                None => return None,
            };
            let issue = match json::read_text(value.part(2, "issue")) {
                Some(issue) => IssueId(issue),
                None => return None,
            };
            let state = match read_state(value.part(3, "state")) {
                Some(state) => state,
                None => return None,
            };
            return Some(Change::Moved { run, issue, state });
        }
        if crossing::is_tagged(value, "change", "finished", 3, false) {
            if !value.fills(2) {
                return None;
            }
            let run = match json::read_whole(value.part(1, "run")) {
                Some(run) => RunId(run),
                None => return None,
            };
            return Some(Change::Finished { run });
        }
        if crossing::is_tagged(value, "change", "abandoned", 4, false) {
            if !value.fills(3) {
                return None;
            }
            let run = match json::read_whole(value.part(1, "run")) {
                Some(run) => RunId(run),
                None => return None,
            };
            let reason = match json::read_text(value.part(2, "reason")) {
                Some(reason) => reason,
                None => return None,
            };
            return Some(Change::Abandoned { run, reason });
        }
        None
    }
}

/// Law: what is told of a change is read back as it was.
pub proof fn told_change_reads_back(change: Change)
    requires
        change.wf(),
    ensures
        change_of(told_change(change)) == Some(change_said(change)),
{
    reveal_strlit("reserved");
    reveal_strlit("started");
    reveal_strlit("moved");
    reveal_strlit("finished");
    reveal_strlit("abandoned");
    reveal_strlit("change");
    reveal_strlit("run");
    reveal_strlit("feature");
    reveal_strlit("repository");
    reveal_strlit("branch");
    reveal_strlit("base");
    reveal_strlit("plan");
    reveal_strlit("problems");
    reveal_strlit("states");
    reveal_strlit("check");
    reveal_strlit("issue");
    reveal_strlit("state");
    reveal_strlit("reason");
    assert("reserved"@.len() != "started"@.len());
    assert("reserved"@.len() != "moved"@.len());
    assert("reserved"@[0] != "finished"@[0]);
    assert("reserved"@.len() != "abandoned"@.len());
    assert("started"@.len() != "moved"@.len());
    assert("started"@.len() != "finished"@.len());
    assert("started"@.len() != "abandoned"@.len());
    assert("moved"@.len() != "finished"@.len());
    assert("moved"@.len() != "abandoned"@.len());
    assert("finished"@.len() != "abandoned"@.len());
    assert("change"@.len() != "run"@.len());
    assert("change"@.len() != "feature"@.len());
    assert("change"@.len() != "repository"@.len());
    assert("change"@[0] != "branch"@[0]);
    assert("change"@.len() != "base"@.len());
    assert("run"@.len() != "feature"@.len());
    assert("run"@.len() != "repository"@.len());
    assert("run"@.len() != "branch"@.len());
    assert("run"@.len() != "base"@.len());
    assert("feature"@.len() != "repository"@.len());
    assert("feature"@.len() != "branch"@.len());
    assert("feature"@.len() != "base"@.len());
    assert("repository"@.len() != "branch"@.len());
    assert("repository"@.len() != "base"@.len());
    assert("branch"@.len() != "base"@.len());
    assert("change"@.len() != "plan"@.len());
    assert("change"@.len() != "problems"@.len());
    assert("change"@[0] != "states"@[0]);
    assert("change"@.len() != "check"@.len());
    assert("run"@.len() != "plan"@.len());
    assert("run"@.len() != "problems"@.len());
    assert("run"@.len() != "states"@.len());
    assert("run"@.len() != "check"@.len());
    assert("plan"@.len() != "problems"@.len());
    assert("plan"@.len() != "states"@.len());
    assert("plan"@.len() != "check"@.len());
    assert("problems"@.len() != "states"@.len());
    assert("problems"@.len() != "check"@.len());
    assert("states"@.len() != "check"@.len());
    assert("change"@.len() != "issue"@.len());
    assert("change"@.len() != "state"@.len());
    assert("run"@.len() != "issue"@.len());
    assert("run"@.len() != "state"@.len());
    assert("issue"@[0] != "state"@[0]);
    assert("change"@[0] != "reason"@[0]);
    assert("run"@.len() != "reason"@.len());
    match change {
        Change::Reserved { run, feature, repository, branch, base } => {
            let record = JsonView::record();
            crossing::put(record, "change"@, JsonView::Text("reserved"@));
            let record = record.with("change"@, JsonView::Text("reserved"@));
            crossing::put(record, "run"@, JsonView::Whole(run.0 as nat));
            let record = record.with("run"@, JsonView::Whole(run.0 as nat));
            crossing::put(record, "feature"@, JsonView::Text(feature@));
            let record = record.with("feature"@, JsonView::Text(feature@));
            crossing::put(record, "repository"@, JsonView::Text(repository@));
            let record = record.with("repository"@, JsonView::Text(repository@));
            crossing::put(record, "branch"@, JsonView::Text(branch@));
            let record = record.with("branch"@, JsonView::Text(branch@));
            crossing::put(record, "base"@, json::text_or_null(text::optional(base)));
        },
        Change::Started { run, plan, problems, states, check } => {
            plans::told_plan_reads_back(plan@);
            capabilities::told_texts_read_back(text::views(problems@));
            told_states_read_back(states);
            let record = JsonView::record();
            crossing::put(record, "change"@, JsonView::Text("started"@));
            let record = record.with("change"@, JsonView::Text("started"@));
            crossing::put(record, "run"@, JsonView::Whole(run.0 as nat));
            let record = record.with("run"@, JsonView::Whole(run.0 as nat));
            crossing::put(record, "plan"@, plans::told_plan(plan@));
            let record = record.with("plan"@, plans::told_plan(plan@));
            crossing::put(record, "problems"@, json::texts_of(text::views(problems@)));
            let record = record.with("problems"@, json::texts_of(text::views(problems@)));
            crossing::put(record, "states"@, told_states(states));
            let record = record.with("states"@, told_states(states));
            crossing::put(record, "check"@, json::text_or_null(text::optional(check)));
        },
        Change::Moved { run, issue, state } => {
            told_state_reads_back(state, true);
            let record = JsonView::record();
            crossing::put(record, "change"@, JsonView::Text("moved"@));
            let record = record.with("change"@, JsonView::Text("moved"@));
            crossing::put(record, "run"@, JsonView::Whole(run.0 as nat));
            let record = record.with("run"@, JsonView::Whole(run.0 as nat));
            crossing::put(record, "issue"@, JsonView::Text(issue@));
            let record = record.with("issue"@, JsonView::Text(issue@));
            crossing::put(record, "state"@, tools::state_view(state));
        },
        Change::Finished { run } => {
            let record = JsonView::record();
            crossing::put(record, "change"@, JsonView::Text("finished"@));
            let record = record.with("change"@, JsonView::Text("finished"@));
            crossing::put(record, "run"@, JsonView::Whole(run.0 as nat));
        },
        Change::Abandoned { run, reason } => {
            let record = JsonView::record();
            crossing::put(record, "change"@, JsonView::Text("abandoned"@));
            let record = record.with("change"@, JsonView::Text("abandoned"@));
            crossing::put(record, "run"@, JsonView::Whole(run.0 as nat));
            let record = record.with("run"@, JsonView::Whole(run.0 as nat));
            crossing::put(record, "reason"@, JsonView::Text(reason@));
        },
    }
}

/// Whether a change's text can be read back: the tree of its plan, where
/// it has one, is not deeper than a text may nest.
pub open spec fn fits(change: Change) -> bool {
    change matches Change::Started { plan, .. } ==> levels(plan@.tree) <= 62
}

proof fn change_is_plain(change: Change, room: nat)
    requires
        change.wf(),
        fits(change),
        room >= 126,
    ensures
        spelling::plain(told_change(change), room),
{
    reveal_strlit("change");
    reveal_strlit("run");
    reveal_strlit("feature");
    reveal_strlit("repository");
    reveal_strlit("branch");
    reveal_strlit("base");
    reveal_strlit("plan");
    reveal_strlit("problems");
    reveal_strlit("states");
    reveal_strlit("check");
    reveal_strlit("issue");
    reveal_strlit("state");
    reveal_strlit("reason");
    assert("change"@.len() != "run"@.len());
    assert("change"@.len() != "feature"@.len());
    assert("change"@.len() != "repository"@.len());
    assert("change"@[0] != "branch"@[0]);
    assert("change"@.len() != "base"@.len());
    assert("run"@.len() != "feature"@.len());
    assert("run"@.len() != "repository"@.len());
    assert("run"@.len() != "branch"@.len());
    assert("run"@.len() != "base"@.len());
    assert("feature"@.len() != "repository"@.len());
    assert("feature"@.len() != "branch"@.len());
    assert("feature"@.len() != "base"@.len());
    assert("repository"@.len() != "branch"@.len());
    assert("repository"@.len() != "base"@.len());
    assert("branch"@.len() != "base"@.len());
    assert("change"@.len() != "plan"@.len());
    assert("change"@.len() != "problems"@.len());
    assert("change"@[0] != "states"@[0]);
    assert("change"@.len() != "check"@.len());
    assert("run"@.len() != "plan"@.len());
    assert("run"@.len() != "problems"@.len());
    assert("run"@.len() != "states"@.len());
    assert("run"@.len() != "check"@.len());
    assert("plan"@.len() != "problems"@.len());
    assert("plan"@.len() != "states"@.len());
    assert("plan"@.len() != "check"@.len());
    assert("problems"@.len() != "states"@.len());
    assert("problems"@.len() != "check"@.len());
    assert("states"@.len() != "check"@.len());
    assert("change"@.len() != "issue"@.len());
    assert("change"@.len() != "state"@.len());
    assert("run"@.len() != "issue"@.len());
    assert("run"@.len() != "state"@.len());
    assert("issue"@[0] != "state"@[0]);
    assert("change"@[0] != "reason"@[0]);
    assert("run"@.len() != "reason"@.len());
    match change {
        Change::Reserved { run, feature, repository, branch, base } => {
            let record = JsonView::record();
            lines::put_plain(record, "change"@, JsonView::Text("reserved"@), room);
            let record = record.with("change"@, JsonView::Text("reserved"@));
            lines::put_plain(record, "run"@, JsonView::Whole(run.0 as nat), room);
            let record = record.with("run"@, JsonView::Whole(run.0 as nat));
            lines::put_plain(record, "feature"@, JsonView::Text(feature@), room);
            let record = record.with("feature"@, JsonView::Text(feature@));
            lines::put_plain(record, "repository"@, JsonView::Text(repository@), room);
            let record = record.with("repository"@, JsonView::Text(repository@));
            lines::put_plain(record, "branch"@, JsonView::Text(branch@), room);
            let record = record.with("branch"@, JsonView::Text(branch@));
            lines::put_plain(record, "base"@, json::text_or_null(text::optional(base)), room);
        },
        Change::Started { run, plan, problems, states, check } => {
            plan_is_plain(plan@, (room - 1) as nat);
            lines::texts_are_plain(text::views(problems@), (room - 1) as nat);
            states_are_plain(states, (room - 1) as nat);
            let record = JsonView::record();
            lines::put_plain(record, "change"@, JsonView::Text("started"@), room);
            let record = record.with("change"@, JsonView::Text("started"@));
            lines::put_plain(record, "run"@, JsonView::Whole(run.0 as nat), room);
            let record = record.with("run"@, JsonView::Whole(run.0 as nat));
            lines::put_plain(record, "plan"@, plans::told_plan(plan@), room);
            let record = record.with("plan"@, plans::told_plan(plan@));
            lines::put_plain(record, "problems"@, json::texts_of(text::views(problems@)), room);
            let record = record.with("problems"@, json::texts_of(text::views(problems@)));
            lines::put_plain(record, "states"@, told_states(states), room);
            let record = record.with("states"@, told_states(states));
            lines::put_plain(record, "check"@, json::text_or_null(text::optional(check)), room);
        },
        Change::Moved { run, issue, state } => {
            state_is_plain(state, (room - 1) as nat);
            let record = JsonView::record();
            lines::put_plain(record, "change"@, JsonView::Text("moved"@), room);
            let record = record.with("change"@, JsonView::Text("moved"@));
            lines::put_plain(record, "run"@, JsonView::Whole(run.0 as nat), room);
            let record = record.with("run"@, JsonView::Whole(run.0 as nat));
            lines::put_plain(record, "issue"@, JsonView::Text(issue@), room);
            let record = record.with("issue"@, JsonView::Text(issue@));
            lines::put_plain(record, "state"@, tools::state_view(state), room);
        },
        Change::Finished { run } => {
            let record = JsonView::record();
            lines::put_plain(record, "change"@, JsonView::Text("finished"@), room);
            let record = record.with("change"@, JsonView::Text("finished"@));
            lines::put_plain(record, "run"@, JsonView::Whole(run.0 as nat), room);
        },
        Change::Abandoned { run, reason } => {
            let record = JsonView::record();
            lines::put_plain(record, "change"@, JsonView::Text("abandoned"@), room);
            let record = record.with("change"@, JsonView::Text("abandoned"@));
            lines::put_plain(record, "run"@, JsonView::Whole(run.0 as nat), room);
            let record = record.with("run"@, JsonView::Whole(run.0 as nat));
            lines::put_plain(record, "reason"@, JsonView::Text(reason@), room);
        },
    }
}

proof fn change_alike(one: JsonView, other: JsonView, room: nat)
    requires
        spelling::alike(one, other),
        spelling::plain(one, room),
    ensures
        change_of(one) == change_of(other),
{
    spelling::alike_fields(one, other);
    let plan = one.part(2, "plan"@);
    if plan is Some {
        plans::plan_alike(plan->0, other.part(2, "plan"@)->0);
    }
    lines::texts_alike(one.part(3, "problems"@), other.part(3, "problems"@));
    let state = one.part(3, "state"@);
    if state is Some {
        state_alike(state->0, other.part(3, "state"@)->0, true);
    }
    match one {
        JsonView::Object(members) => {
            spelling::member_placed(members, "states"@);
            if json::member(members, "states"@) is Some {
                let i = choose|i: int|
                    0 <= i < members.len() && (#[trigger] members[i]).0 == "states"@
                        && members[i].1 == json::member(members, "states"@)->0;
                assert(spelling::plain(members[i].1, (room - 1) as nat));
            }
        },
        JsonView::Array(items) => {
            if items.len() > 4 {
                assert(spelling::plain(items[4], (room - 1) as nat));
            }
        },
        _ => {},
    }
    states_alike(one.part(4, "states"@), other.part(4, "states"@));
}

// ----- an entry -----

/// What an entry of the log says.
pub struct EntrySaid {
    pub seq: nat,
    pub at: nat,
    pub change: ChangeSaid,
}

/// What an entry of the log says.
pub open spec fn entry_said(entry: Entry) -> EntrySaid {
    EntrySaid {
        seq: entry.seq as nat,
        at: entry.at as nat,
        change: change_said(entry.change),
    }
}

/// An entry of the log, as JSON.
pub open spec fn told_entry(entry: Entry) -> JsonView {
    JsonView::record().with("seq"@, JsonView::Whole(entry.seq as nat)).with(
        "at"@,
        JsonView::Whole(entry.at as nat),
    ).with("change"@, told_change(entry.change))
}

/// An entry of the log out of JSON, when the value is one.
pub open spec fn entry_of(value: JsonView) -> Option<EntrySaid> {
    let seq = json::needed_whole(value.part(0, "seq"@));
    let at = json::needed_whole(value.part(1, "at"@));
    let change = match value.part(2, "change"@) {
        Some(change) => change_of(change),
        None => None,
    };
    if value.fills(3) && seq is Some && at is Some && change is Some {
        Some(EntrySaid { seq: seq->0, at: at->0, change: change->0 })
    } else {
        None
    }
}

impl Entry {
    /// An entry of the log, as JSON.
    pub fn told(&self) -> (r: Json)
        requires
            self.change.wf(),
        ensures
            r@ == told_entry(*self),
    {
        Json::record().with("seq", Json::Whole(self.seq)).with("at", Json::Whole(self.at)).with(
            "change",
            self.change.told(),
        )
    }

    /// An entry of the log out of JSON, when the value is one.
    pub fn read(value: &Json) -> (r: Option<Entry>)
        ensures
            match r {
                Some(entry) => entry.change.wf() && entry_of(value@) == Some(entry_said(entry)),
                None => entry_of(value@) is None,
            },
    {
        if !value.fills(3) {
            return None;
        }
        let seq = match json::read_whole(value.part(0, "seq")) {
            Some(seq) => seq,
            None => return None,
        };
        let at = match json::read_whole(value.part(1, "at")) {
            Some(at) => at,
            None => return None,
        };
        match value.part(2, "change") {
            Some(change) => match Change::read(change) {
                Some(change) => Some(Entry { seq, at, change }),
                None => None,
            },
            None => None,
        }
    }

    /// The line of text that tells the entry.
    pub fn tell(&self) -> (r: String)
        requires
            self.change.wf(),
        ensures
            r@ == spelling::text_of(told_entry(*self)),
    {
        spelling::spell(&self.told())
    }

    /// An entry of the log out of a line of text, when the line tells one.
    /// What was told comes back as it was, whatever the plan in it, up to
    /// as many levels as a text can hold.
    pub fn hear(line: &str) -> (r: Option<Entry>)
        ensures
            match json::read_as(line@) {
                Ok(value) => match r {
                    Some(entry) => entry.change.wf() && entry_of(value) == Some(
                        entry_said(entry),
                    ),
                    None => entry_of(value) is None,
                },
                Err(_) => r is None,
            },
            forall|entry: Entry|
                entry.change.wf() && fits(entry.change) && line@ == #[trigger] spelling::text_of(
                    told_entry(entry),
                ) ==> r is Some && entry_said(r->0) == entry_said(entry),
    {
        let parsed = Json::parse(line);
        let heard = match &parsed {
            Ok(value) => Entry::read(value),
            Err(_) => None,
        };
        proof {
            assert forall|entry: Entry|
                entry.change.wf() && fits(entry.change) && line@ == #[trigger] spelling::text_of(
                    told_entry(entry),
                ) implies heard is Some && entry_said(heard->0) == entry_said(entry) by {
                entry_is_plain(entry);
                told_entry_reads_back(entry);
                entry_alike(told_entry(entry), parsed->Ok_0@);
            }
        }
        heard
    }
}

/// Law: what is told of an entry is read back as it was.
pub proof fn told_entry_reads_back(entry: Entry)
    requires
        entry.change.wf(),
    ensures
        entry_of(told_entry(entry)) == Some(entry_said(entry)),
{
    reveal_strlit("seq");
    reveal_strlit("at");
    reveal_strlit("change");
    assert("seq"@.len() != "at"@.len());
    assert("seq"@.len() != "change"@.len());
    assert("at"@.len() != "change"@.len());
    told_change_reads_back(entry.change);
    let record = JsonView::record();
    crossing::put(record, "seq"@, JsonView::Whole(entry.seq as nat));
    let record = record.with("seq"@, JsonView::Whole(entry.seq as nat));
    crossing::put(record, "at"@, JsonView::Whole(entry.at as nat));
    let record = record.with("at"@, JsonView::Whole(entry.at as nat));
    crossing::put(record, "change"@, told_change(entry.change));
}

proof fn entry_is_plain(entry: Entry)
    requires
        entry.change.wf(),
        fits(entry.change),
    ensures
        spelling::plain(told_entry(entry), spelling::depth()),
{
    reveal_strlit("seq");
    reveal_strlit("at");
    reveal_strlit("change");
    assert("seq"@.len() != "at"@.len());
    assert("seq"@.len() != "change"@.len());
    assert("at"@.len() != "change"@.len());
    let room = spelling::depth();
    change_is_plain(entry.change, (room - 1) as nat);
    let record = JsonView::record();
    lines::put_plain(record, "seq"@, JsonView::Whole(entry.seq as nat), room);
    let record = record.with("seq"@, JsonView::Whole(entry.seq as nat));
    lines::put_plain(record, "at"@, JsonView::Whole(entry.at as nat), room);
    let record = record.with("at"@, JsonView::Whole(entry.at as nat));
    lines::put_plain(record, "change"@, told_change(entry.change), room);
}

proof fn entry_alike(one: JsonView, other: JsonView)
    requires
        spelling::alike(one, other),
        spelling::plain(one, spelling::depth()),
    ensures
        entry_of(one) == entry_of(other),
{
    spelling::alike_fields(one, other);
    let change = one.part(2, "change"@);
    if change is Some {
        match one {
            JsonView::Object(members) => {
                spelling::member_placed(members, "change"@);
            },
            _ => {},
        }
        change_alike(change->0, other.part(2, "change"@)->0, (spelling::depth() - 1) as nat);
    }
}

} // verus!
