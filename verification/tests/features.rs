//! Plans, builds, their picture, their log, and what lands them.

use std::any::Any;
use std::cell::Cell;
use std::rc::Rc;

use epik::agent::Exit;
use epik::chat::{Answer, Ask};
use epik::check::{Check, Markers};
use epik::feature::attempt::{attempt, Attempting, Deed as Doing, Heard as Told};
use epik::feature::landing::{corpse_args, judge, order, panicked, settle};
use epik::feature::layout::{layout, Form, Layout};
use epik::feature::merge::{
    establish, Branch, Deed, Establish, Establishing, Merge, Merging, Outcome,
};
use epik::feature::record::{brief, Budget, Build, Slot, Step, CONCURRENCY};
use epik::feature::starting::{launch, Deed as Errand, Heard, Starting};
use epik::feature::tools::{
    ask, confirmed, feature_status, start_feature, state_json, Builds, Feature, Flight,
    Reservation, Selected, Start,
};
use epik::feature::{Blocking, Issue, IssueId, Node, Plan, Problem, RunId, State};
use epik::ids::{IdMap, IdSet};
use epik::job::{Commits, Phase, Workspace};
use epik::json::Json;
use epik::monitor::{Change, Counts, Entry, Log, Polled, Progress, Stage};
use epik::tree::Tree;

// ----- the plans -----

fn id(number: u64) -> IssueId {
    IssueId::from(number)
}

fn issue(number: u64, closed: bool) -> Issue {
    Issue {
        id: id(number),
        title: format!("issue {number}"),
        closed,
    }
}

/// One fixture node: the issue, who it contains, and who blocks it —
/// blockers as (id, closed) pairs, exactly what an edge carries.
fn node(number: u64, closed: bool, children: &[u64], blockers: &[(u64, bool)]) -> Node {
    Node {
        issue: issue(number, closed),
        children: children.iter().copied().map(id).collect(),
        blockers: blockers
            .iter()
            .map(|&(number, closed)| issue(number, closed))
            .collect(),
    }
}

fn again(node: &Node) -> Node {
    Node {
        issue: node.issue.clone(),
        children: node.children.clone(),
        blockers: node.blockers.clone(),
    }
}

fn plan(feature: u64, nodes: Vec<Node>) -> Plan {
    Plan::descend(&id(feature), |asked: &IssueId| {
        nodes
            .iter()
            .find(|node| &node.issue.id == asked)
            .map(again)
            .ok_or_else(|| format!("no fixture for {}", asked.as_str()))
    })
    .unwrap()
}

/// The smallest plan with an order in it: feature 1 holds 2 and 3,
/// and 3 waits on 2. Two ready states, one edge — enough to watch
/// one issue's end change another's standing.
fn two_then_three() -> Plan {
    plan(
        1,
        vec![
            node(1, false, &[2, 3], &[]),
            node(2, false, &[], &[]),
            node(3, false, &[], &[(2, false)]),
        ],
    )
}

/// The same two, each waiting on the other: nothing can ever be
/// ready, and the cycle is the plan's problem to name.
fn two_and_three_in_a_cycle() -> Plan {
    plan(
        1,
        vec![
            node(1, false, &[2, 3], &[]),
            node(2, false, &[], &[(3, false)]),
            node(3, false, &[], &[(2, false)]),
        ],
    )
}

/// A chain, 2 then 3 then 5, beside 4, which waits on nothing:
/// what a loss at the head takes down, and what it spares.
fn a_chain_beside_a_loner() -> Plan {
    plan(
        1,
        vec![
            node(1, false, &[2, 3, 4, 5], &[]),
            node(2, false, &[], &[]),
            node(3, false, &[], &[(2, false)]),
            node(4, false, &[], &[]),
            node(5, false, &[], &[(3, false)]),
        ],
    )
}

/// Feature 1 holds a container, 7, with leaves 2 and 8 — and a leaf
/// of its own, 9, that waits on the container: what a loss inside 7
/// means for whoever waited on 7 as a whole.
fn nine_waiting_on_container_seven() -> Plan {
    plan(
        1,
        vec![
            node(1, false, &[7, 9], &[]),
            node(7, false, &[2, 8], &[]),
            node(2, false, &[], &[]),
            node(8, false, &[], &[]),
            node(9, false, &[], &[(7, false)]),
        ],
    )
}

fn none() -> IdSet {
    IdSet::new()
}

fn set(numbers: &[u64]) -> IdSet {
    IdSet::of(&numbers.iter().copied().map(id).collect())
}

fn names(issues: Vec<&Issue>) -> Vec<&str> {
    issues.into_iter().map(|issue| issue.id.as_str()).collect()
}

fn ready_ids(plan: &Plan) -> Vec<&str> {
    names(plan.ready(&none()))
}

#[test]
fn a_chain_readies_only_its_head() {
    let plan = plan(
        1,
        vec![
            node(1, false, &[2, 3, 4], &[]),
            node(2, false, &[], &[]),
            node(3, false, &[], &[(2, false)]),
            node(4, false, &[], &[(3, false)]),
        ],
    );
    assert_eq!(ready_ids(&plan), ["2"]);
    assert!(plan.problems().is_empty());
}

#[test]
fn a_partly_closed_chain_readies_the_first_open_link() {
    let plan = plan(
        1,
        vec![
            node(1, false, &[2, 3, 4], &[]),
            node(2, true, &[], &[]),
            node(3, false, &[], &[(2, true)]),
            node(4, false, &[], &[(3, false)]),
        ],
    );
    assert_eq!(ready_ids(&plan), ["3"], "closed 2 releases 3, not 4");
}

#[test]
fn a_diamond_readies_both_arms_once_the_top_lands() {
    let nodes = |top_closed: bool| {
        vec![
            node(1, false, &[2, 3, 4, 5], &[]),
            node(2, top_closed, &[], &[]),
            node(3, false, &[], &[(2, top_closed)]),
            node(4, false, &[], &[(2, top_closed)]),
            node(5, false, &[], &[(3, false), (4, false)]),
        ]
    };
    assert_eq!(ready_ids(&plan(1, nodes(false))), ["2"]);
    assert_eq!(
        ready_ids(&plan(1, nodes(true))),
        ["3", "4"],
        "both arms at once; the join still waits on both"
    );
}

#[test]
fn independent_issues_are_all_ready_at_once() {
    let plan = plan(
        1,
        vec![
            node(1, false, &[2, 3, 4], &[]),
            node(2, false, &[], &[]),
            node(3, false, &[], &[]),
            node(4, false, &[], &[]),
        ],
    );
    assert_eq!(ready_ids(&plan), ["2", "3", "4"]);
}

/// A worked example: #100 Payments, nested containers, a closed container
/// over an open child, and an external blocker. Every rule does visible
/// work to make #103 the only ready issue.
fn payments() -> Plan {
    plan(
        100,
        vec![
            node(100, false, &[101, 102, 105, 107], &[]),
            node(101, true, &[], &[]),
            node(102, false, &[103, 104], &[]),
            node(103, false, &[], &[(101, true), (55, true)]),
            node(104, false, &[], &[(103, false)]),
            node(105, true, &[106], &[]),
            node(106, false, &[], &[]),
            node(107, false, &[], &[(102, false)]),
        ],
    )
}

#[test]
fn nested_containers_schedule_their_leaves_through_the_one_predicate() {
    let plan = payments();
    assert_eq!(
        ready_ids(&plan),
        ["103"],
        "closed blockers release it; #104 waits, #107 waits on a container, #106 is abandoned"
    );
    assert!(plan.problems().is_empty());
}

#[test]
fn a_blocker_on_a_container_holds_until_every_leaf_beneath_it_settles() {
    let plan = payments();
    assert!(
        !plan.settled(&id(102), &none()),
        "an open container with open children is not settled"
    );
    let done = set(&[103, 104]);
    assert!(
        plan.settled(&id(102), &done),
        "a container's doneness is its children's, never asserted"
    );
    assert_eq!(
        names(plan.ready(&done)),
        ["107"],
        "the docs waited on the whole API"
    );
}

#[test]
fn a_closed_container_stops_its_open_children() {
    let plan = plan(
        1,
        vec![
            node(1, false, &[2], &[]),
            node(2, true, &[3], &[]),
            node(3, false, &[], &[]),
        ],
    );
    assert!(
        ready_ids(&plan).is_empty(),
        "the subtree goes with its container"
    );
    assert_eq!(
        plan.problems(),
        [Problem::NoWork],
        "with its one subtree abandoned, the plan holds no work"
    );
}

#[test]
fn an_external_blocker_holds_by_its_own_state() {
    let nodes = |outside_closed: bool| {
        vec![
            node(1, false, &[2], &[]),
            node(2, false, &[], &[(55, outside_closed)]),
        ]
    };
    let held = plan(1, nodes(false));
    assert_eq!(
        held.outside,
        [issue(55, false)],
        "recorded from the edge itself"
    );
    assert!(ready_ids(&held).is_empty());
    let released = plan(1, nodes(true));
    assert_eq!(ready_ids(&released), ["2"]);
    assert!(
        released.problems().is_empty(),
        "an outside edge is not dangling"
    );
}

#[test]
fn a_cycle_is_named_and_nothing_on_it_is_ready() {
    let plan = two_and_three_in_a_cycle();
    assert!(ready_ids(&plan).is_empty());
    assert_eq!(
        plan.problems(),
        [Problem::Cycle(vec![id(2), id(3), id(2)])],
        "one cycle, found once"
    );
    assert_eq!(
        plan.problems()[0].to_string(),
        "blocked-by edges form a cycle: 2 -> 3 -> 2"
    );
}

#[test]
fn every_cycle_is_named_each_once() {
    let plan = plan(
        1,
        vec![
            node(1, false, &[2, 3, 4], &[]),
            node(2, false, &[], &[(3, false), (4, false)]),
            node(3, false, &[], &[(2, false)]),
            node(4, false, &[], &[(3, false)]),
        ],
    );
    assert_eq!(
        plan.cycles(),
        [
            vec![id(2), id(3), id(2)],
            vec![id(2), id(4), id(3), id(2)],
        ]
    );
    assert_eq!(plan.problems().len(), 2);
}

#[test]
fn a_cycle_begins_where_a_walk_first_meets_it() {
    let edge = |issue: u64, blocker: u64| Blocking {
        issue: id(issue),
        blocker: id(blocker),
    };
    let plan = Plan {
        tree: Tree {
            value: issue(1, false),
            children: vec![
                Tree::new(issue(2, false)),
                Tree::new(issue(3, false)),
                Tree::new(issue(4, false)),
            ],
        },
        // 2 leads into the loop of 4 and 3, said twice; 8 waits on itself
        // outside the tree.
        blocking: vec![
            edge(2, 4),
            edge(4, 3),
            edge(3, 4),
            edge(3, 4),
            edge(8, 8),
        ],
        outside: Vec::new(),
    };
    assert_eq!(
        plan.cycles(),
        [vec![id(4), id(3), id(4)], vec![id(8), id(8)]]
    );
}

#[test]
fn an_unknown_id_is_never_settled_though_it_is_done() {
    let plan = two_waiting_on_nobody_known();
    let done = IdSet::of(&vec![id(9), id(2)]);
    assert!(!plan.settled(&id(9), &done));
    assert!(plan.settled(&id(2), &done));
    assert!(plan.ready(&IdSet::of(&vec![id(9)])).is_empty());
    assert_eq!(
        plan.doomed(&IdSet::of(&vec![id(9)]), &IdSet::new()).len(),
        1,
        "what waits on it never starts"
    );
}

#[test]
fn no_column_is_empty_though_the_edges_loop() {
    let plan = two_and_three_in_a_cycle();
    let picture = layout(&plan, &waiting(&plan));
    assert_eq!(picture.rows(), 2, "a node for every state");
    assert!(picture.columns() <= picture.rows());
    for column in 0..picture.columns() {
        assert!(picture.nodes.iter().any(|node| node.column == column));
    }
    assert_eq!(picture, layout(&plan, &waiting(&plan)), "one picture");
    assert_eq!(layout(&plan, &IdMap::new()).columns(), 0);
}

fn two_waiting_on_nobody_known() -> Plan {
    Plan {
        tree: Tree {
            value: issue(1, false),
            children: vec![Tree::new(issue(2, false))],
        },
        blocking: vec![Blocking {
            issue: id(2),
            blocker: id(9),
        }],
        outside: Vec::new(),
    }
}

#[test]
fn a_dangling_edge_is_named_rather_than_scheduled_around() {
    let plan = two_waiting_on_nobody_known();
    assert_eq!(
        plan.problems(),
        [Problem::Dangling(Blocking {
            issue: id(2),
            blocker: id(9),
        })]
    );
    assert!(
        ready_ids(&plan).is_empty(),
        "an unknowable blocker never settles"
    );
}

#[test]
fn a_plan_of_closed_issues_has_no_work_in_it() {
    let plan = plan(1, vec![node(1, false, &[2], &[]), node(2, true, &[], &[])]);
    assert_eq!(plan.problems(), [Problem::NoWork]);
    assert!(ready_ids(&plan).is_empty());
}

#[test]
fn the_done_set_settles_an_issue_the_tracker_still_calls_open() {
    let plan = two_then_three();
    let done = set(&[2]);
    assert!(plan.settled(&id(2), &done));
    assert_eq!(names(plan.ready(&done)), ["3"]);
}

#[test]
fn an_exhausted_cap_is_a_refusal_in_words() {
    // An endless chain of containers: node n holds node n + 1.
    let error = Plan::descend(&id(0), |asked: &IssueId| {
        let number: u64 = asked.as_str().parse().unwrap();
        Ok(node(number, false, &[number + 1], &[]))
    })
    .unwrap_err();
    assert!(error.contains("truncated"), "{error}");
    assert!(error.contains("500"), "{error}");
}

#[test]
fn a_containment_loop_terminates_and_keeps_the_first_place() {
    let plan = plan(
        1,
        vec![node(1, false, &[2], &[]), node(2, false, &[1], &[])],
    );
    assert_eq!(
        names(plan.tree.nodes()),
        ["1", "2"],
        "the revisit is dropped, not recursed"
    );
    assert_eq!(ready_ids(&plan), ["2"]);
}

#[test]
fn a_fetch_failure_passes_through_in_its_own_words() {
    let error = Plan::descend(&id(1), |asked: &IssueId| {
        Err(format!("no such issue: {}", asked.as_str()))
    })
    .unwrap_err();
    assert_eq!(error, "no such issue: 1");
}

#[test]
fn problems_are_told_as_their_words() {
    assert_eq!(
        Problem::NoWork.to_string(),
        "every issue is already settled: the plan has no work in it"
    );
}

#[test]
fn the_work_is_the_open_leaves_under_no_settled_ancestor() {
    let plan = payments();
    assert_eq!(
        names(plan.work(&none())),
        ["103", "104", "107"],
        "no containers, no closed leaves, no abandoned subtrees"
    );
}

fn doomed_pairs(plan: &Plan, lost: &[u64]) -> Vec<(String, String)> {
    let doomed = plan.doomed(&none(), &set(lost));
    (0..doomed.len())
        .map(|at| {
            let (leaf, blocker) = doomed.entry(at);
            (leaf.as_str().to_owned(), blocker.as_str().to_owned())
        })
        .collect()
}

#[test]
fn a_lost_leaf_dooms_its_dependents_transitively_and_spares_the_rest() {
    let plan = a_chain_beside_a_loner();
    assert!(doomed_pairs(&plan, &[]).is_empty(), "a healthy chain lives");
    assert_eq!(
        doomed_pairs(&plan, &[2]),
        [
            ("3".to_owned(), "2".to_owned()),
            ("5".to_owned(), "3".to_owned())
        ],
        "each stuck on the first blocker it waits for; 4 waited on no one"
    );
}

#[test]
fn a_lost_leaf_under_a_container_dooms_whoever_waits_on_the_container() {
    let plan = nine_waiting_on_container_seven();
    assert_eq!(
        doomed_pairs(&plan, &[2]),
        [("9".to_owned(), "7".to_owned())],
        "7 can never settle; 8 is still work"
    );
}

#[test]
fn an_open_outside_blocker_dooms_within_one_build() {
    let plan = plan(
        1,
        vec![
            node(1, false, &[2, 3], &[]),
            node(2, false, &[], &[(55, false)]),
            node(3, false, &[], &[(2, false)]),
        ],
    );
    assert_eq!(
        doomed_pairs(&plan, &[]),
        [
            ("2".to_owned(), "55".to_owned()),
            ("3".to_owned(), "2".to_owned())
        ],
        "nothing in a build closes an outside issue"
    );
}

#[test]
fn a_cycle_dooms_both_sides_rather_than_propping_them_up() {
    let plan = two_and_three_in_a_cycle();
    assert_eq!(
        doomed_pairs(&plan, &[]),
        [
            ("2".to_owned(), "3".to_owned()),
            ("3".to_owned(), "2".to_owned())
        ]
    );
}

#[test]
fn a_dangling_blocker_dooms_the_leaf_that_waits_on_it() {
    let plan = two_waiting_on_nobody_known();
    assert_eq!(doomed_pairs(&plan, &[]), [("2".to_owned(), "9".to_owned())]);
}

#[test]
fn a_blocker_that_is_abandoned_work_dooms_its_dependents() {
    // 6 is open but its container 5 is closed: 6 is not work, and it
    // will never close, so 3 can never become ready.
    let plan = plan(
        1,
        vec![
            node(1, false, &[3, 5], &[]),
            node(3, false, &[], &[(6, false)]),
            node(5, true, &[6], &[]),
            node(6, false, &[], &[]),
        ],
    );
    assert_eq!(doomed_pairs(&plan, &[]), [("3".to_owned(), "6".to_owned())]);
}

#[test]
fn the_done_set_keeps_a_blocker_settleable() {
    let plan = two_then_three();
    assert_eq!(plan.doomed(&set(&[2]), &none()).len(), 0);
}

// ----- the build -----

fn still() -> u64 {
    0
}

type Quiet = Log<fn() -> u64>;

fn quiet() -> Quiet {
    Log::with_clock(still as fn() -> u64)
}

/// A record for `plan` as run 1.
fn fresh(plan: Plan) -> Build {
    Build::new(RunId(1), plan)
}

fn state(build: &Build, number: u64) -> &State {
    build.states().get(&id(number)).unwrap()
}

fn keys<V>(map: &IdMap<V>) -> Vec<&str> {
    (0..map.len()).map(|at| map.entry(at).0.as_str()).collect()
}

/// The Moved entries of `entries`, as (issue, state) pairs.
fn moves(entries: &[Entry]) -> Vec<(IssueId, State)> {
    entries
        .iter()
        .filter_map(|entry| match &entry.change {
            Change::Moved { issue, state, .. } => Some((issue.clone(), state.clone())),
            _ => None,
        })
        .collect()
}

#[test]
fn a_new_build_states_only_the_open_reachable_leaves() {
    let build = fresh(plan(
        1,
        vec![
            node(1, false, &[2, 3, 6, 8], &[]),
            node(2, true, &[], &[]),
            node(3, false, &[4, 5], &[]),
            node(4, false, &[], &[]),
            node(5, false, &[], &[]),
            node(6, true, &[7], &[]),
            node(7, false, &[], &[]),
            node(8, false, &[], &[]),
        ],
    ));
    assert_eq!(
        keys(build.states()),
        ["4", "5", "8"],
        "no containers, no closed leaves, no abandoned subtrees"
    );
    for at in 0..build.states().len() {
        assert_eq!(*build.states().entry(at).1, State::Waiting);
    }
    assert!(build.problems().is_empty());
}

#[test]
fn what_could_never_become_ready_is_skipped_before_anything_runs() {
    let build = fresh(plan(
        1,
        vec![
            node(1, false, &[2, 3], &[]),
            node(2, false, &[], &[]),
            node(3, false, &[], &[(55, false)]),
        ],
    ));
    assert_eq!(*state(&build, 2), State::Waiting);
    let State::Skipped { reason } = state(&build, 3) else {
        panic!("an open outside blocker is permanent: {:?}", build.states());
    };
    assert!(reason.contains("waits on 55"), "{reason}");
}

#[test]
fn a_cycle_is_skipped_at_the_start_and_named_in_the_problems() {
    let build = fresh(two_and_three_in_a_cycle());
    for at in 0..build.states().len() {
        assert!(
            matches!(build.states().entry(at).1, State::Skipped { .. }),
            "{:?}",
            build.states()
        );
    }
    assert!(
        build
            .problems()
            .iter()
            .any(|problem| matches!(problem, Problem::Cycle(_))),
        "{:?}",
        build.problems()
    );
    assert!(build.finished(), "no non-terminal state is left behind");
}

#[test]
fn a_failure_skips_its_dependents_transitively_and_spares_the_rest() {
    let mut build = fresh(a_chain_beside_a_loner());
    build.fail(&mut quiet(), &id(2), "the wumpus got in".to_owned());
    assert_eq!(
        *state(&build, 2),
        State::Failed {
            report: "the wumpus got in".to_owned()
        }
    );
    let State::Skipped { reason } = state(&build, 3) else {
        panic!("3 waited on 2: {:?}", build.states());
    };
    assert!(reason.contains("waits on 2"), "{reason}");
    let State::Skipped { reason } = state(&build, 5) else {
        panic!("5 waited on 3: {:?}", build.states());
    };
    assert!(
        reason.contains("waits on 3"),
        "doom is transitive: {reason}"
    );
    assert_eq!(*state(&build, 4), State::Waiting, "4 waited on no one");
}

#[test]
fn a_failure_under_a_container_strands_whoever_waits_on_the_container() {
    let mut build = fresh(nine_waiting_on_container_seven());
    build.fail(&mut quiet(), &id(2), "boom".to_owned());
    let State::Skipped { reason } = state(&build, 9) else {
        panic!("7 can never settle: {:?}", build.states());
    };
    assert!(reason.contains("waits on 7"), "{reason}");
    assert_eq!(
        *state(&build, 8),
        State::Waiting,
        "8 is still work; the build finishes the rest"
    );
}

#[test]
fn skipping_never_overwrites_a_state_an_issue_earned() {
    let mut build = fresh(two_then_three());
    let mut log = quiet();
    build.set(
        &mut log,
        &id(3),
        State::Merged {
            commit: "abc".to_owned(),
            checked: true,
        },
    );
    build.fail(&mut log, &id(2), "late".to_owned());
    assert!(matches!(state(&build, 3), State::Merged { .. }));
}

#[test]
fn the_build_ends_when_nothing_is_ready_and_nothing_is_running() {
    let mut build = fresh(two_then_three());
    let mut log = quiet();
    assert!(!build.finished(), "2 is ready");
    build.set(&mut log, &id(2), State::Running);
    assert!(!build.finished(), "an Agent is out");
    build.set(&mut log, &id(2), State::Merging);
    assert!(!build.finished(), "a queued merge can still unblock work");
    build.set(
        &mut log,
        &id(2),
        State::Merged {
            commit: "abc".to_owned(),
            checked: false,
        },
    );
    assert!(!build.finished(), "2 landing made 3 ready");
    build.set(&mut log, &id(3), State::Running);
    build.fail(&mut log, &id(3), "boom".to_owned());
    assert!(build.finished(), "nothing ready, nothing running");
}

#[test]
fn a_plan_with_no_work_is_finished_before_it_starts() {
    let build = fresh(plan(
        1,
        vec![node(1, false, &[2], &[]), node(2, true, &[], &[])],
    ));
    assert_eq!(build.states().len(), 0);
    assert!(build.finished());
    assert_eq!(*build.problems(), [Problem::NoWork]);
}

#[test]
fn the_brief_names_the_issue_and_demands_tests() {
    let brief = brief(&issue(7, false));
    assert!(brief.contains("Implement issue 7: issue 7"), "{brief}");
    assert!(
        brief.contains("Write tests covering the work, and make them pass."),
        "{brief}"
    );
}

/// What a panic's payload says, when it says anything.
fn payload(panic: &dyn Any) -> Option<&str> {
    panic
        .downcast_ref::<&str>()
        .copied()
        .or_else(|| panic.downcast_ref::<String>().map(String::as_str))
}

#[test]
fn a_panics_words_are_read_from_either_payload() {
    let words = |panic: &dyn Any| {
        panicked(payload(panic))
            .strip_prefix("the worker panicked: ")
            .unwrap()
            .to_owned()
    };
    assert_eq!(words(&"static words"), "static words");
    assert_eq!(words(&"owned words".to_owned()), "owned words");
    assert_eq!(words(&7_u64), "no words came with it");
}

#[test]
fn the_budget_yields_exactly_four_slots_and_a_drop_gives_one_back() {
    let mut budget = Budget::new();
    let mut held: Vec<Slot> = std::iter::from_fn(|| budget.claim()).collect();
    assert_eq!(held.len(), CONCURRENCY);
    assert!(budget.claim().is_none(), "the fifth claim is refused");
    while let Some(slot) = held.pop() {
        budget.release(slot);
    }
    assert!(budget.claim().is_some(), "a dropped slot comes back");
}

/// A new record speaks nothing — its map rides in Started — and
/// every write after that is one Moved, the skips a failure causes
/// among them.
#[test]
fn every_write_is_one_moved_and_the_initial_map_is_none() {
    let mut build = fresh(a_chain_beside_a_loner());
    let mut log = quiet();
    assert!(log.since(0).is_empty());
    build.fail(&mut log, &id(2), "the wumpus got in".to_owned());
    let moved = moves(&log.since(0));
    assert_eq!(moved.len(), 3, "2 failed, 3 and 5 skipped: {moved:?}");
    assert_eq!(
        moved[0],
        (
            id(2),
            State::Failed {
                report: "the wumpus got in".to_owned()
            }
        )
    );
    for (issue, state) in &moved {
        assert_eq!(build.states().get(issue), Some(state));
    }
}

#[test]
fn dispatching_runs_the_ready_in_order_and_waits_for_what_is_out() {
    let mut build = fresh(a_chain_beside_a_loner());
    let mut log = quiet();
    assert_eq!(build.step(), Step::Dispatch);
    assert_eq!(build.dispatch(&mut log), Some(issue(2, false)));
    assert_eq!(build.dispatch(&mut log), Some(issue(4, false)));
    assert_eq!(build.dispatch(&mut log), None);
    assert_eq!(build.step(), Step::Wait);
    build.conclude(&mut log, &id(4), Err("red".to_owned()));
    build.conclude(&mut log, &id(2), Ok(("abc".to_owned(), true)));
    assert_eq!(build.dispatch(&mut log), Some(issue(3, false)));
    build.conclude(&mut log, &id(3), Err("red".to_owned()));
    assert_eq!(build.step(), Step::Finish);
    assert!(matches!(state(&build, 5), State::Skipped { .. }));
}

// ----- the picture -----

/// The states a build starts with: every issue of work, Waiting.
fn waiting(plan: &Plan) -> IdMap<State> {
    let mut states = IdMap::new();
    for issue in plan.work(&none()) {
        states.insert(issue.id.clone(), State::Waiting);
    }
    states
}

/// (id, column, row) for every node, in row order.
fn cells(layout: &Layout) -> Vec<(u64, usize, usize)> {
    layout
        .nodes
        .iter()
        .map(|node| (node.id.as_str().parse().unwrap(), node.column, node.row))
        .collect()
}

fn arrows(layout: &Layout) -> Vec<(u64, u64)> {
    layout
        .edges
        .iter()
        .map(|edge| {
            (
                edge.blocker.as_str().parse().unwrap(),
                edge.issue.as_str().parse().unwrap(),
            )
        })
        .collect()
}

fn numbers(ids: &[IssueId]) -> Vec<u64> {
    ids.iter().map(|id| id.as_str().parse().unwrap()).collect()
}

#[test]
fn a_one_level_plan_lays_its_order_out_left_to_right() {
    let plan = two_then_three();
    let layout = layout(&plan, &waiting(&plan));
    assert_eq!(cells(&layout), [(2, 0, 0), (3, 1, 1)]);
    assert_eq!(arrows(&layout), [(2, 3)]);
    assert!(
        layout.containers.is_empty(),
        "the feature's box is the pane"
    );
    assert_eq!((layout.columns(), layout.rows()), (2, 2));
    let three = layout.node(&id(3)).unwrap();
    assert_eq!(three.form, Form::Blocked);
    assert_eq!(numbers(&three.blocked_by), [2]);
    assert_eq!(numbers(&layout.node(&id(2)).unwrap().blocks), [3]);
    assert_eq!(layout.node(&id(2)).unwrap().form, Form::Ready);
}

/// 1 holds 2 and 7; 7 holds 3 and 8; 8 holds 4. No order, so one
/// column; the tree alone places the rows, and boxes nest.
#[test]
fn a_nested_sub_feature_is_a_box_within_a_box() {
    let plan = plan(
        1,
        vec![
            node(1, false, &[2, 7], &[]),
            node(2, false, &[], &[]),
            node(7, false, &[3, 8], &[]),
            node(3, false, &[], &[]),
            node(8, false, &[4], &[]),
            node(4, false, &[], &[]),
        ],
    );
    let layout = layout(&plan, &waiting(&plan));
    assert_eq!(cells(&layout), [(2, 0, 0), (3, 0, 1), (4, 0, 2)]);
    assert!(layout.edges.is_empty());
    let boxes: Vec<(u64, usize, usize, Vec<u64>)> = layout
        .containers
        .iter()
        .map(|container| {
            (
                container.id.as_str().parse().unwrap(),
                container.depth,
                container.height,
                numbers(&container.leaves),
            )
        })
        .collect();
    assert_eq!(boxes, [(7, 1, 1, vec![3, 4]), (8, 2, 0, vec![4])]);
}

/// 9 waits on the container 7: an arrow from each of 7's leaves.
#[test]
fn an_edge_onto_a_container_is_an_edge_from_each_leaf_beneath_it() {
    let plan = nine_waiting_on_container_seven();
    let layout = layout(&plan, &waiting(&plan));
    assert_eq!(cells(&layout), [(2, 0, 0), (8, 0, 1), (9, 1, 2)]);
    assert_eq!(arrows(&layout), [(2, 9), (8, 9)]);
    let nine = layout.node(&id(9)).unwrap();
    assert_eq!(
        numbers(&nine.blocked_by),
        [7],
        "held by the container, in the plan's own words"
    );
    assert_eq!(numbers(&layout.node(&id(2)).unwrap().blocks), [9]);
    assert_eq!(layout.containers.len(), 1);
    assert_eq!(numbers(&layout.containers[0].leaves), [2, 8]);
}

#[test]
fn a_diamond_puts_its_arms_in_one_column_and_the_join_past_them() {
    let plan = plan(
        1,
        vec![
            node(1, false, &[2, 3, 4, 5], &[]),
            node(2, false, &[], &[]),
            node(3, false, &[], &[(2, false)]),
            node(4, false, &[], &[(2, false)]),
            node(5, false, &[], &[(3, false), (4, false)]),
        ],
    );
    let layout = layout(&plan, &waiting(&plan));
    assert_eq!(cells(&layout), [(2, 0, 0), (3, 1, 1), (4, 1, 2), (5, 2, 3)]);
    assert_eq!(arrows(&layout), [(2, 3), (2, 4), (3, 5), (4, 5)]);
    assert_eq!(numbers(&layout.node(&id(5)).unwrap().blocked_by), [3, 4]);
}

/// 7 holds 2, a closed 3, and 9; 8 holds 4 and 5; 6 stands alone —
/// with an order that puts 2 far right. The box for 7 holds 2 and
/// 9 on adjacent rows, the closed leaf squeezed out, and no other
/// node shares those rows however the columns fall.
#[test]
fn a_containers_box_encloses_exactly_its_own_leaves() {
    let plan = plan(
        1,
        vec![
            node(1, false, &[7, 8, 6], &[]),
            node(7, false, &[2, 3, 9], &[]),
            node(2, false, &[], &[(4, false), (6, false)]),
            node(3, true, &[], &[]),
            node(9, false, &[], &[]),
            node(8, false, &[4, 5], &[]),
            node(4, false, &[], &[(5, false)]),
            node(5, false, &[], &[]),
            node(6, false, &[], &[]),
        ],
    );
    let layout = layout(&plan, &waiting(&plan));
    assert_eq!(
        cells(&layout),
        [(2, 2, 0), (9, 0, 1), (4, 1, 2), (5, 0, 3), (6, 0, 4)],
        "3 is settled and takes no row"
    );
    for container in &layout.containers {
        let rows: Vec<usize> = container
            .leaves
            .iter()
            .map(|id| layout.node(id).unwrap().row)
            .collect();
        let first = rows[0];
        assert_eq!(
            rows,
            (first..first + rows.len()).collect::<Vec<_>>(),
            "{}'s rows are contiguous",
            container.id.as_str()
        );
        let inside: Vec<&IssueId> = layout
            .nodes
            .iter()
            .filter(|node| (first..first + rows.len()).contains(&node.row))
            .map(|node| &node.id)
            .collect();
        assert_eq!(
            inside,
            container.leaves.iter().collect::<Vec<_>>(),
            "{}'s box holds nothing else",
            container.id.as_str()
        );
    }
    assert_eq!(layout.containers.len(), 2);
}

#[test]
fn what_is_not_work_is_not_drawn() {
    // 5 is a closed container over an open 6: an abandoned subtree.
    // 3 waits on 6, which the plan knows and will never settle.
    let plan = plan(
        1,
        vec![
            node(1, false, &[3, 5], &[]),
            node(3, false, &[], &[(6, false)]),
            node(5, true, &[6], &[]),
            node(6, false, &[], &[]),
        ],
    );
    let layout = layout(&plan, &waiting(&plan));
    assert_eq!(cells(&layout), [(3, 0, 0)]);
    assert!(layout.edges.is_empty(), "no node to draw the arrow from");
    assert!(layout.containers.is_empty(), "an empty box is no box");
    let three = layout.node(&id(3)).unwrap();
    assert_eq!(three.form, Form::Blocked);
    assert_eq!(numbers(&three.blocked_by), [6], "held all the same");
}

#[test]
fn an_outside_or_unknown_blocker_holds_the_leaf_but_takes_no_column() {
    let plan = plan(
        1,
        vec![
            node(1, false, &[2], &[]),
            node(2, false, &[], &[(55, false)]),
        ],
    );
    let layout = layout(&plan, &waiting(&plan));
    assert_eq!(cells(&layout), [(2, 0, 0)]);
    assert_eq!(numbers(&layout.node(&id(2)).unwrap().blocked_by), [55]);
}

#[test]
fn a_cycle_still_lays_out() {
    let plan = two_and_three_in_a_cycle();
    let layout = layout(&plan, &waiting(&plan));
    assert_eq!(cells(&layout), [(2, 1, 0), (3, 0, 1)]);
    assert_eq!(arrows(&layout), [(3, 2), (2, 3)]);
}

fn states(pairs: Vec<(u64, State)>) -> IdMap<State> {
    let mut states = IdMap::new();
    for (number, state) in pairs {
        states.insert(id(number), state);
    }
    states
}

#[test]
fn the_form_follows_the_state_and_the_plans_judgement() {
    let plan = two_then_three();
    let merged = State::Merged {
        commit: "abc".to_owned(),
        checked: true,
    };
    let landed = layout(&plan, &states(vec![(2, merged), (3, State::Waiting)]));
    assert_eq!(landed.node(&id(2)).unwrap().form, Form::Merged);
    let three = landed.node(&id(3)).unwrap();
    assert_eq!(three.form, Form::Ready, "2 landing released 3");
    assert!(three.blocked_by.is_empty());

    let lost = layout(
        &plan,
        &states(vec![
            (2, State::Running),
            (
                3,
                State::Skipped {
                    reason: "2 failed".to_owned(),
                },
            ),
        ]),
    );
    assert_eq!(lost.node(&id(2)).unwrap().form, Form::Running);
    assert_eq!(lost.node(&id(3)).unwrap().form, Form::Skipped);
}

// ----- the monitor -----

fn reserved(run: u64) -> Change {
    Change::Reserved {
        run: RunId(run),
        feature: id(1),
        repository: "/r".to_owned(),
        branch: "feature-1".to_owned(),
        base: Some("main".to_owned()),
    }
}

fn started(run: u64, plan: Plan) -> Change {
    let mut states = IdMap::new();
    for issue in plan.ready(&none()) {
        states.insert(issue.id.clone(), State::Waiting);
    }
    Change::Started {
        run: RunId(run),
        problems: plan
            .problems()
            .iter()
            .map(|problem| problem.to_string())
            .collect(),
        plan,
        states,
        check: None,
    }
}

fn moved(run: u64, issue: u64, state: State) -> Change {
    Change::Moved {
        run: RunId(run),
        issue: id(issue),
        state,
    }
}

fn entry(seq: u64, change: Change) -> Entry {
    Entry {
        seq,
        at: 1_000 + seq,
        change,
    }
}

fn merged() -> State {
    State::Merged {
        commit: "abc".to_owned(),
        checked: false,
    }
}

#[test]
fn the_fold_walks_a_run_through_its_stages() {
    let mut progress = Progress::default();
    assert!(progress.absorb(&entry(0, reserved(1))));
    let watch = progress.watch(RunId(1)).unwrap();
    assert_eq!(*watch.stage(), Stage::Starting);
    assert_eq!(watch.feature(), &id(1));
    assert_eq!((watch.title(), watch.layout()), (None, None), "no plan yet");
    assert_eq!(watch.branch(), "feature-1");
    assert_eq!(watch.base(), Some("main"));
    assert!(watch.plan().is_none());
    assert_eq!(watch.counts(), Counts::default());

    assert!(progress.absorb(&entry(1, started(1, two_then_three()))));
    let watch = progress.watch(RunId(1)).unwrap();
    assert_eq!(*watch.stage(), Stage::Building);
    assert!(watch.plan().is_some());
    assert_eq!(watch.title(), Some("issue 1"));
    assert_eq!(
        watch.layout().unwrap().nodes.len(),
        watch.states().len(),
        "the picture draws every issue the build holds a state for"
    );
    assert!(!watch.live(), "nothing is running yet");

    assert!(progress.absorb(&entry(2, moved(1, 2, State::Running))));
    assert!(progress.watch(RunId(1)).unwrap().live());
    assert!(progress.absorb(&entry(3, moved(1, 2, State::Merging))));
    assert!(
        !progress.watch(RunId(1)).unwrap().live(),
        "no Agent holds a slot during a merge"
    );
    assert!(progress.absorb(&entry(4, moved(1, 2, merged()))));
    assert!(progress.absorb(&entry(5, Change::Finished { run: RunId(1) })));
    let watch = progress.watch(RunId(1)).unwrap();
    assert_eq!(*watch.stage(), Stage::Finished);
    assert_eq!(watch.states().get(&id(2)), Some(&merged()));
    assert_eq!(progress.applied(), Some(5));
    assert_eq!(progress.watches().iter().count(), 1);
}

#[test]
fn an_abandoned_launch_keeps_its_reason() {
    let mut progress = Progress::default();
    progress.absorb(&entry(0, reserved(1)));
    progress.absorb(&entry(
        1,
        Change::Abandoned {
            run: RunId(1),
            reason: "no plan".to_owned(),
        },
    ));
    assert_eq!(
        *progress.watch(RunId(1)).unwrap().stage(),
        Stage::Abandoned {
            reason: "no plan".to_owned()
        }
    );
}

#[test]
fn an_entry_not_past_the_highest_applied_is_ignored() {
    let entries = [
        entry(0, reserved(1)),
        entry(1, started(1, two_then_three())),
        entry(2, moved(1, 2, State::Running)),
    ];
    let mut progress = Progress::default();
    let mut once = Progress::default();
    for entry in &entries {
        assert!(progress.absorb(entry));
        once.absorb(entry);
    }
    for entry in &entries {
        assert!(!progress.absorb(entry), "heard twice: {entry:?}");
    }
    assert_eq!(progress, once);

    // A stale entry with a changed payload is still stale.
    assert!(!progress.absorb(&entry(1, moved(1, 2, merged()))));
    assert_eq!(progress, once);
    // The next one counts.
    assert!(progress.absorb(&entry(3, moved(1, 2, State::Merging))));
}

#[test]
fn a_change_to_a_run_never_reserved_has_nowhere_to_land() {
    let mut progress = Progress::default();
    assert!(progress.absorb(&entry(0, moved(9, 2, State::Running))));
    assert_eq!(progress.applied(), Some(0), "the cursor still moved");
    assert!(progress.watch(RunId(9)).is_none());
}

/// 2 waits on nothing and 3 waits on 2: one ready, one blocked, and
/// the split moves as 2 lands.
#[test]
fn counts_split_waiting_into_ready_and_blocked() {
    let mut progress = Progress::default();
    progress.absorb(&entry(0, reserved(1)));
    progress.absorb(&entry(
        1,
        Change::Started {
            run: RunId(1),
            plan: two_then_three(),
            problems: Vec::new(),
            states: states(vec![(2, State::Waiting), (3, State::Waiting)]),
            check: None,
        },
    ));
    let counts = progress.watch(RunId(1)).unwrap().counts();
    assert_eq!(
        counts,
        Counts {
            ready: 1,
            blocked: 1,
            total: 2,
            ..Counts::default()
        }
    );

    progress.absorb(&entry(2, moved(1, 2, merged())));
    let counts = progress.watch(RunId(1)).unwrap().counts();
    assert_eq!(
        counts,
        Counts {
            merged: 1,
            ready: 1,
            total: 2,
            ..Counts::default()
        },
        "2 landing released 3"
    );
}

#[test]
fn the_log_stamps_seq_and_the_injected_clocks_time() {
    let now = Rc::new(Cell::new(5_000_u64));
    let mut log = Log::with_clock({
        let now = Rc::clone(&now);
        move || now.get()
    });
    log.record(reserved(1));
    now.set(5_250);
    log.record(Change::Finished { run: RunId(1) });

    let entries = log.since(0);
    assert_eq!(entries.len(), 2);
    assert_eq!((entries[0].seq, entries[0].at), (0, 5_000));
    assert_eq!((entries[1].seq, entries[1].at), (1, 5_250));
    assert_eq!(log.since(1), entries[1..]);
    assert!(log.since(2).is_empty());
    assert!(log.since(u64::MAX).is_empty());
}

#[test]
fn every_entry_carries_the_clocks_stamp() {
    let now = Cell::new(5_000);
    let mut log = Log::with_clock(|| now.get());
    let mut builds = Builds::new();
    assert!(builds.has_room());
    let held = builds.reserve(
        &mut log,
        Feature(id(1)),
        "/r".to_owned(),
        "feature-1".to_owned(),
        None,
    );
    let mut build = fresh(a_chain_beside_a_loner());
    now.set(5_001);
    build.set(&mut log, &id(4), State::Running);
    now.set(5_002);
    build.fail(&mut log, &id(2), "red".to_owned());
    now.set(5_003);
    builds.give_up(&mut log, held);
    let stamps: Vec<u64> = log.since(0).iter().map(|entry| entry.at).collect();
    assert_eq!(stamps, [5_000, 5_001, 5_002, 5_002, 5_002, 5_003]);
}

#[test]
fn a_copy_of_the_picture_is_the_picture() {
    let mut progress = Progress::default();
    progress.absorb(&entry(0, reserved(1)));
    progress.absorb(&entry(1, started(1, two_then_three())));
    let copy = progress.clone();
    assert_eq!(copy, progress);
    progress.absorb(&entry(2, moved(1, 2, State::Running)));
    assert_ne!(copy, progress);
    assert_eq!(
        progress.watch(RunId(1)).unwrap().clone(),
        *progress.watch(RunId(1)).unwrap()
    );
}

#[test]
fn wait_after_times_out_empty_and_wakes_on_a_record() {
    let mut log = quiet();
    log.record(reserved(1));
    assert_eq!(log.wait_after(1, 0, 50), Polled::Wait(50));
    assert_eq!(log.wait_after(1, 20, 50), Polled::Wait(30));
    assert_eq!(log.wait_after(1, 50, 50), Polled::Entries(Vec::new()), "nothing came");
    log.record(Change::Finished { run: RunId(1) });
    assert_eq!(log.wait_after(1, 20, 50), Polled::Entries(log.since(1)));
    assert_eq!(
        log.wait_after(0, 0, 0),
        Polled::Entries(log.since(0)),
        "what is there is not waited for"
    );
    assert_eq!(log.wait_after(u64::MAX, 9, 9), Polled::Entries(Vec::new()));
}

// ----- the tools -----

/// The whole log, folded: what a watcher sees after the replay.
fn folded(log: &Quiet) -> Progress {
    let mut progress = Progress::default();
    for entry in log.since(0) {
        progress.absorb(&entry);
    }
    progress
}

fn reserve(builds: &mut Builds, log: &mut Quiet, feature: u64) -> Reservation {
    builds.reserve(
        log,
        Feature(id(feature)),
        "/r".to_owned(),
        format!("feature-{feature}"),
        None,
    )
}

fn flight(feature: u64) -> Flight {
    Flight {
        feature: Feature(id(feature)),
        repository: "/r".to_owned(),
        branch: format!("feature-{feature}"),
        check: None,
    }
}

fn selected<'a>(builds: &'a Builds, arguments: &str) -> Result<Selected<'a>, String> {
    builds.select(&Json::parse(arguments).unwrap())
}

#[test]
fn a_second_flight_joins_the_first_in_the_record() {
    let mut builds = Builds::new();
    let mut log = quiet();
    let first = reserve(&mut builds, &mut log, 7);
    let first = builds.fill(first, flight(7));
    let second = reserve(&mut builds, &mut log, 9);
    let second = builds.fill(second, flight(9));
    assert_eq!((first, second), (RunId(1), RunId(2)));
    assert_eq!(builds.runs(), [RunId(1), RunId(2)]);

    let Ok(Selected::Flight(run, found)) = selected(&builds, r#"{"run":1}"#) else {
        panic!("the first answers by its run id");
    };
    assert_eq!(run, RunId(1));
    assert_eq!(found.feature, Feature(id(7)));
    let Ok(Selected::Flight(run, found)) = selected(&builds, "{}") else {
        panic!("the latest answers when none is named");
    };
    assert_eq!(run, RunId(2));
    assert_eq!(found.feature, Feature(id(9)));
}

/// A reservation holds nothing shut: while one is held, the next
/// start reserves the next id. A dropped reservation releases its
/// own entry and no other, and its id is never reused.
#[test]
fn reservations_coexist_and_a_dropped_one_never_recycles_its_id() {
    let mut builds = Builds::new();
    let mut log = quiet();
    let first = reserve(&mut builds, &mut log, 7);
    let second = reserve(&mut builds, &mut log, 9);
    assert_eq!((first.run(), second.run()), (RunId(1), RunId(2)));
    assert_eq!(builds.runs(), [RunId(1), RunId(2)]);

    builds.give_up(&mut log, first);
    assert_eq!(builds.runs(), [RunId(2)]);
    assert_eq!(reserve(&mut builds, &mut log, 7).run(), RunId(3));
}

/// A reservation is spoken from the moment it is taken, and its end
/// is spoken too: abandoned with the launch's words, or — dropped
/// without any — with words of the reservation's own. Either way
/// the fold's stage is Abandoned with the reason.
#[test]
fn a_reservation_is_recorded_and_its_abandonment_says_why() {
    let mut builds = Builds::new();
    let mut log = quiet();
    let reservation = reserve(&mut builds, &mut log, 7);
    let entries = log.since(0);
    assert_eq!(entries.len(), 1);
    assert_eq!(
        entries[0].change,
        Change::Reserved {
            run: RunId(1),
            feature: id(7),
            repository: "/r".to_owned(),
            branch: "feature-7".to_owned(),
            base: None,
        }
    );
    builds.abandon(&mut log, reservation, "the tracker is down".to_owned());
    assert!(builds.runs().is_empty(), "released");
    let progress = folded(&log);
    assert_eq!(
        *progress.watch(RunId(1)).unwrap().stage(),
        Stage::Abandoned {
            reason: "the tracker is down".to_owned()
        }
    );

    let dropped = reserve(&mut builds, &mut log, 7);
    builds.give_up(&mut log, dropped);
    let progress = folded(&log);
    let Stage::Abandoned { reason } = progress.watch(RunId(2)).unwrap().stage() else {
        panic!("a dropped reservation is abandoned too");
    };
    assert!(reason.contains("without saying why"), "{reason}");
}

/// The launch that fails after reserving leaves Reserved then Abandoned
/// with the failure's words, and nothing else.
#[test]
fn a_launch_that_fails_after_reserving_is_abandoned_with_its_words() {
    let mut builds = Builds::new();
    let mut log = quiet();
    let reservation = reserve(&mut builds, &mut log, 7);
    let error = builds
        .fill_with(&mut log, reservation, Err("the tracker is down".to_owned()))
        .unwrap_err();
    assert_eq!(error, "the tracker is down");
    assert!(builds.runs().is_empty(), "released");
    let changes: Vec<Change> = log
        .since(0)
        .into_iter()
        .map(|entry| entry.change)
        .collect();
    assert_eq!(changes.len(), 2);
    assert!(matches!(changes[0], Change::Reserved { .. }));
    assert_eq!(
        changes[1],
        Change::Abandoned {
            run: RunId(1),
            reason: "the tracker is down".to_owned()
        }
    );

    // The spent id is never reused: the next reservation takes the next
    // one.
    assert_eq!(reserve(&mut builds, &mut log, 9).run(), RunId(2));
}

#[test]
fn a_confirmed_command_is_the_one_in_force_and_anything_else_is_the_skip() {
    assert_eq!(
        confirmed(&Answer::Check {
            command: "cargo test".to_owned()
        }),
        Some(Check {
            command: "cargo test".to_owned()
        })
    );
    assert_eq!(
        confirmed(&Answer::Check {
            command: "   ".to_owned()
        }),
        None,
        "an empty command is a check that checks nothing"
    );
    assert_eq!(confirmed(&Answer::Declined), None);
}

fn begun(arguments: &str) -> Result<Start, String> {
    Start::read(&Json::parse(arguments).unwrap())
}

#[test]
fn the_unnamed_branch_is_feature_n_and_the_unnamed_base_is_left_to_the_repository() {
    let start = begun(r#"{"repo":"o/r","repository":"/w","feature":7}"#).unwrap();
    assert_eq!(start.branch, "feature-7");
    assert_eq!(start.base, None);
    let named =
        begun(r#"{"repo":"o/r","repository":"/w","feature":7,"branch":"b","base":"dev"}"#).unwrap();
    assert_eq!(named.branch, "b");
    assert_eq!(named.base.as_deref(), Some("dev"));
    let blank =
        begun(r#"{"repo":"o/r","repository":"/w","feature":7,"branch":" "}"#).unwrap_err();
    assert!(blank.contains("branch"), "{blank}");
    assert!(blank.contains("non-empty"), "{blank}");
    assert!(begun(r#"{"repo":"o/r","repository":"/w"}"#)
        .unwrap_err()
        .contains("feature"));
    let held = start.held("run 3");
    assert!(held.contains("run 3"), "{held}");
}

#[test]
fn the_check_card_is_prefilled_from_detection() {
    let proposal = Check {
        command: "cargo test".to_owned(),
    };
    let Ask::Check { prompt, proposal } = ask(&Feature(id(7)), "feature-7", Some(proposal)) else {
        panic!("a check is asked for");
    };
    assert!(prompt.contains('7'), "{prompt}");
    assert_eq!(proposal.as_deref(), Some("cargo test"));
}

#[test]
fn a_start_answers_with_the_run_and_what_is_in_force() {
    let start = begun(r#"{"repo":"o/r","repository":"/w","feature":7}"#).unwrap();
    let check = Some("cargo test".to_owned());
    let answer = start.answer(RunId(4), "main", &check, &two_then_three());
    assert_eq!(answer.whole_at("run"), Some(4));
    assert_eq!(
        answer.text_at("branch").map(String::as_str),
        Some("feature-7")
    );
    assert_eq!(
        start.flight(check).check.as_deref(),
        Some("cargo test"),
        "the record keeps what was confirmed"
    );
}

#[test]
fn status_reads_states_titles_the_tip_and_the_failure_reports() {
    let settled = Flight {
        check: Some("cargo test".to_owned()),
        ..flight(100)
    };
    let plan = plan(
        100,
        vec![node(100, false, &[101], &[]), node(101, false, &[], &[])],
    );
    let mut build = Build::new(RunId(1), plan);
    build.fail(&mut quiet(), &id(101), "the wumpus got in".to_owned());
    let status = settled.status(RunId(1), &Ok("abc123".to_owned()), &build);
    let status = Json::parse(&status.to_string()).unwrap();
    let at = |key: &str| status.get(key).unwrap().to_string();
    assert_eq!(at("run"), "1");
    assert_eq!(at("feature"), "\"100\"");
    assert_eq!(at("branch"), "\"feature-100\"");
    assert_eq!(at("tip"), "\"abc123\"");
    assert_eq!(at("check"), "\"cargo test\"");
    assert_eq!(at("finished"), "true");
    assert_eq!(
        at("issues"),
        r#"[{"id":"101","report":"the wumpus got in","state":"failed","title":"issue 101"}]"#
    );
    let blind = settled.status(RunId(1), &Err("gone".to_owned()), &build);
    assert!(blind.get("tip").unwrap().is_null());

    let mut builds = Builds::new();
    let mut log = quiet();
    let reservation = reserve(&mut builds, &mut log, 100);
    builds.fill(reservation, settled);
    let Err(missing) = selected(&builds, r#"{"run":9}"#) else {
        panic!("there is no such run");
    };
    assert!(missing.contains("run id 9"), "{missing}");
}

#[test]
fn every_state_is_told_by_its_word() {
    for (state, told) in [
        (State::Waiting, r#"{"state":"waiting"}"#),
        (State::Running, r#"{"state":"running"}"#),
        (State::Merging, r#"{"state":"merging"}"#),
        (
            merged(),
            r#"{"checked":false,"commit":"abc","state":"merged"}"#,
        ),
        (
            State::Skipped {
                reason: "why".to_owned(),
            },
            r#"{"reason":"why","state":"skipped"}"#,
        ),
    ] {
        assert_eq!(state_json(&state).to_string(), told);
    }
}

#[test]
fn status_with_no_builds_says_so_in_an_ok_answer() {
    let builds = Builds::new();
    let Ok(Selected::Answer(status)) = selected(&builds, "{}") else {
        panic!("an answer, and no error");
    };
    assert!(status.get("run").unwrap().is_null());
    assert_eq!(
        status.text_at("note").map(String::as_str),
        Some("no feature build has been started")
    );
}

/// A launch still under way answers status without waiting on anything
/// the launch holds.
#[test]
fn status_of_a_reserved_launch_says_it_has_not_started() {
    let mut builds = Builds::new();
    let mut log = quiet();
    let reservation = reserve(&mut builds, &mut log, 7);
    let Ok(Selected::Answer(status)) = selected(&builds, "{}") else {
        panic!("an answer, and no flight");
    };
    assert_eq!(status.whole_at("run"), Some(1));
    assert_eq!(status.text_at("feature").map(String::as_str), Some("7"));
    assert_eq!(
        status.text_at("branch").map(String::as_str),
        Some("feature-7")
    );
    assert_eq!(status.get("finished").unwrap().boolean(), Some(false));
    assert!(status.text_at("note").unwrap().contains("not started"));
    builds.give_up(&mut log, reservation);
}

#[test]
fn the_two_tools_are_named_and_ask_for_what_they_need() {
    assert_eq!(start_feature().name(), "start_feature");
    assert_eq!(feature_status().name(), "feature_status");
    let required = start_feature().parameters().get("required").unwrap().to_string();
    assert_eq!(required, r#"["repo","repository","feature"]"#);
}

// ----- landing -----

#[test]
fn an_agents_end_is_judged_by_its_exit_and_its_commits() {
    let commits = |advanced: bool, clean: bool| {
        Some(Commits {
            head: "def".to_owned(),
            advanced,
            clean,
            kept: Some("/w".to_owned()),
        })
    };
    let ended = Phase::Finished(Exit::Code(0));
    assert_eq!(judge(&ended, &commits(true, true)), Ok(()));
    for (phase, commits, words) in [
        (
            Phase::Finished(Exit::Code(3)),
            commits(true, true),
            "the Agent exited with code 3",
        ),
        (
            Phase::Finished(Exit::Code(-1)),
            commits(true, true),
            "the Agent exited with code -1",
        ),
        (
            Phase::Finished(Exit::Signal(9)),
            commits(true, true),
            "the Agent was killed by signal 9",
        ),
        (Phase::Lost("gone".to_owned()), commits(true, true), "gone"),
        (
            Phase::Running,
            commits(true, true),
            "the run ended without an exit",
        ),
        (
            Phase::Finished(Exit::Code(0)),
            None,
            "the run ended with no commit observation",
        ),
        (
            Phase::Finished(Exit::Code(0)),
            commits(false, true),
            "the Agent committed nothing: the branch never advanced past its base",
        ),
        (
            Phase::Finished(Exit::Code(0)),
            commits(true, false),
            "the Agent left uncommitted work at /w",
        ),
    ] {
        assert_eq!(judge(&phase, &commits), Err(words.to_owned()));
    }
}

#[test]
fn a_merge_settles_to_its_commit_or_its_words() {
    assert_eq!(
        settle(Ok(Outcome::Merged {
            commit: "abc".to_owned(),
            checked: true
        })),
        Ok(("abc".to_owned(), true))
    );
    assert_eq!(
        settle(Ok(Outcome::Conflict {
            paths: vec!["a".to_owned(), "b".to_owned()]
        })),
        Err("the merge conflicted at: a, b".to_owned())
    );
    assert_eq!(
        settle(Ok(Outcome::Red {
            output: "boom".to_owned()
        })),
        Err("the merged result failed the check: boom".to_owned())
    );
    assert_eq!(settle(Err("no".to_owned())), Err("no".to_owned()));
    let order = order(&issue(7, false), "/r", "abc");
    assert_eq!(order.base.as_deref(), Some("abc"));
    assert!(corpse_args(&order).contains(&order.branch));
}

// ----- merging -----

fn branch(check: bool) -> Branch {
    Branch::new(
        Workspace {
            repository: "/r".to_owned(),
            branch: "feature-7".to_owned(),
            base_commit: "abc".to_owned(),
            directory: "/w".to_owned(),
        },
        if check {
            Some(Check {
                command: "cargo test".to_owned(),
            })
        } else {
            None
        },
    )
}

/// Plays a merge against a git that stands at `abc`, then at `def`; `fails`
/// is what comes to grief. What was done, in order, and the end.
fn merging(merge: Merge, fails: &[&str]) -> (Vec<String>, Result<Outcome, String>) {
    let mut done: Vec<String> = Vec::new();
    let mut at = Merging::Do(merge);
    loop {
        match at {
            Merging::Do(merge) => {
                let deed = match merge.deed() {
                    Deed::Git(args) => args.join(" "),
                    Deed::Check => "check".to_owned(),
                    Deed::Push => "push".to_owned(),
                };
                let answer = if fails.iter().any(|fail| deed.contains(fail)) {
                    Err(format!("{deed} failed"))
                } else if deed.ends_with("rev-parse HEAD") {
                    let landed = done.iter().any(|deed| deed.contains("--no-ff"));
                    Ok(if landed { "def\n" } else { "abc\n" }.to_owned())
                } else if deed.contains("--diff-filter=U") {
                    Ok("a.rs\nb.rs\n".to_owned())
                } else {
                    Ok(String::new())
                };
                done.push(deed);
                at = merge.next(answer);
            }
            Merging::Ended(end) => return (done, end),
        }
    }
}

#[test]
fn a_green_check_keeps_the_merge_and_advances_the_remote() {
    let (done, end) = merging(branch(true).merge("issue-8").unwrap(), &[]);
    assert_eq!(
        end,
        Ok(Outcome::Merged {
            commit: "def".to_owned(),
            checked: true
        })
    );
    let check = done.iter().position(|deed| deed == "check").unwrap();
    let push = done.iter().position(|deed| deed == "push").unwrap();
    assert!(check < push, "{done:?}");
    let (done, end) = merging(branch(false).merge("issue-8").unwrap(), &[]);
    assert!(matches!(end, Ok(Outcome::Merged { checked: false, .. })));
    assert!(!done.contains(&"check".to_owned()));
}

#[test]
fn a_red_check_resets_the_branch_and_leaves_the_remote_unchanged() {
    let (done, end) = merging(branch(true).merge("issue-8").unwrap(), &["check"]);
    assert_eq!(
        end,
        Ok(Outcome::Red {
            output: "check failed".to_owned()
        })
    );
    assert!(!done.contains(&"push".to_owned()));
    assert!(
        done.last().unwrap().contains("reset --hard") && done.last().unwrap().contains("abc"),
        "{done:?}"
    );
}

#[test]
fn the_second_overlapping_sibling_is_refused_with_its_conflicting_paths_named() {
    let (done, end) = merging(branch(true).merge("issue-8").unwrap(), &["--no-ff"]);
    assert_eq!(
        end,
        Ok(Outcome::Conflict {
            paths: vec!["a.rs".to_owned(), "b.rs".to_owned()]
        })
    );
    assert!(done.last().unwrap().ends_with("merge --abort"));
}

#[test]
fn the_tip_answers_from_the_repository_when_the_workspace_is_gone() {
    assert_eq!(
        branch(true).tip_args(),
        ["-C", "/r", "rev-parse", "refs/heads/feature-7"]
    );
    assert_eq!(Branch::tip(Ok("abc\n".to_owned())), Ok("abc".to_owned()));
}

#[test]
fn what_a_merge_came_to_is_read_before_it_is_pushed() {
    let (done, _) = merging(branch(true).merge("issue-8").unwrap(), &[]);
    assert_eq!(done.last().unwrap(), "push", "nothing can fail after it");

    // The second reading fails: nothing was pushed, and the merge is undone.
    let mut merge = branch(false).merge("issue-8").unwrap();
    let mut done: Vec<String> = Vec::new();
    let end = loop {
        let deed = match merge.deed() {
            Deed::Git(args) => args[2..].join(" "),
            Deed::Check => "check".to_owned(),
            Deed::Push => "push".to_owned(),
        };
        let answer = if deed == "rev-parse HEAD" && done.contains(&deed) {
            Err("no such ref".to_owned())
        } else {
            Ok("abc\n".to_owned())
        };
        done.push(deed);
        match merge.next(answer) {
            Merging::Do(next) => merge = next,
            Merging::Ended(end) => break end,
        }
    };
    assert_eq!(end, Err("no such ref".to_owned()));
    assert_eq!(done.last().unwrap(), "reset --hard abc");
    assert!(!done.contains(&"push".to_owned()));
}

#[test]
fn a_failed_push_unwinds_the_merge_so_a_retry_can_land_it() {
    let (done, end) = merging(branch(true).merge("issue-8").unwrap(), &["push"]);
    assert_eq!(end, Err("push failed".to_owned()));
    assert!(done.last().unwrap().contains("abc"), "{done:?}");
    let error = merging(branch(true).merge("issue-8").unwrap(), &["push", "reset --hard abc"])
        .1
        .unwrap_err();
    assert!(error.contains("could not be unwound"), "{error}");
    assert!(branch(true).merge("-x").is_err());
    assert_eq!(
        Branch::tip(Ok("abc\n".to_owned())),
        Ok("abc".to_owned())
    );
}

/// Plays an establishing; `listing` is what the branches are.
fn established(establish: Establish, listing: &str, fails: &[&str]) -> (Vec<String>, Result<(), String>) {
    let mut done: Vec<String> = Vec::new();
    let mut at = Establishing::Do(establish);
    loop {
        match at {
            Establishing::Do(establish) => {
                let deed = match establish.deed() {
                    Deed::Git(args) => args.join(" "),
                    Deed::Check => "check".to_owned(),
                    Deed::Push => "push".to_owned(),
                };
                let answer = if fails.iter().any(|fail| deed.contains(fail)) {
                    Err(format!("{deed} failed"))
                } else if deed.contains("for-each-ref") {
                    Ok(listing.to_owned())
                } else {
                    Ok("abc\n".to_owned())
                };
                done.push(deed);
                at = establish.next(answer);
            }
            Establishing::Established => return (done, Ok(())),
            Establishing::Refused(words) => return (done, Err(words)),
        }
    }
}

#[test]
fn establishing_cuts_the_branch_at_the_base_and_pushes_it() {
    let (done, end) = established(establish("/r", "feature-7", "main").unwrap(), "", &[]);
    assert_eq!(end, Ok(()));
    assert_eq!(
        done,
        [
            "-C /r for-each-ref --format=%(refname) refs/heads/feature-7",
            "-C /r rev-parse --verify --end-of-options main^{commit}",
            "-C /r branch -- feature-7 abc",
            "push",
        ]
    );
}

#[test]
fn a_branch_already_standing_is_used_as_it_stands() {
    let (done, end) = established(
        establish("/r", "feature-7", "main").unwrap(),
        "refs/heads/feature-7\n",
        &[],
    );
    assert_eq!(end, Ok(()));
    assert_eq!(done.len(), 1);
    let (done, _) = established(
        establish("/r", "feature-7", "main").unwrap(),
        "refs/heads/feature-7/deeper\n",
        &[],
    );
    assert_eq!(done.len(), 4, "a longer name is another branch");
}

#[test]
fn a_failed_push_unwinds_the_created_branch_so_a_retry_reaches_the_remote() {
    let (done, end) = established(establish("/r", "feature-7", "main").unwrap(), "", &["push"]);
    assert_eq!(end, Err("push failed".to_owned()));
    assert_eq!(done.last().unwrap(), "-C /r branch -D feature-7");
    assert!(establish("/r", "--x", "main").is_err());
}

// ----- starting -----

/// Plays a launch to its end; `fails` names the errand that comes to grief,
/// `listing` is git's worktrees, and `said` what the user answers.
fn launched(arguments: &str, fails: &str, listing: &str, said: Answer) -> (Vec<String>, Starting) {
    let mut said = Some(said);
    let mut done: Vec<String> = Vec::new();
    let mut at = launch(begun(arguments).unwrap());
    loop {
        match at {
            Starting::Do(launching) => {
                let errand = launching.deed();
                let name = match &errand {
                    Errand::Git(args) => args[2..].join(" "),
                    Errand::Reserve { base } => format!("reserve {base}"),
                    Errand::ReadPlan => "plan".to_owned(),
                    Errand::FindForge => "forge".to_owned(),
                    Errand::FindAgents => "agents".to_owned(),
                    Errand::Look => "look".to_owned(),
                    Errand::Ask(Ask::Check { proposal, .. }) => format!("ask {proposal:?}"),
                    Errand::Ask(_) => "ask".to_owned(),
                    Errand::Establish { base, check } => {
                        format!("establish {base} {:?}", check.as_ref().map(|c| &c.command))
                    }
                };
                let failed = !fails.is_empty() && name.starts_with(fails);
                let words = || "no luck".to_owned();
                let heard = match errand {
                    Errand::Git(_) if failed => Heard::Git(Err(words())),
                    Errand::Git(_) if name.starts_with("worktree") => {
                        Heard::Git(Ok(listing.to_owned()))
                    }
                    Errand::Git(_) => Heard::Git(Ok("main\n".to_owned())),
                    Errand::Reserve { .. } => Heard::Reserved(RunId(3)),
                    Errand::ReadPlan if failed => Heard::Plan(Err(words())),
                    Errand::ReadPlan => Heard::Plan(Ok(two_then_three())),
                    Errand::Look => Heard::Markers(Markers {
                        package_json: None,
                        go_mod: false,
                        pyproject_toml: false,
                        pom_xml: false,
                        makefile: None,
                        cargo_toml: true,
                    }),
                    Errand::Ask(_) => Heard::Answer(said.take().unwrap()),
                    _ if failed => Heard::Done(Err(words())),
                    _ => Heard::Done(Ok(())),
                };
                done.push(name);
                at = launching.next(heard);
            }
            ended => return (done, ended),
        }
    }
}

const SEVEN: &str = r#"{"repo":"o/r","repository":"/w","feature":7}"#;

#[test]
fn the_check_card_is_prefilled_from_detection_and_the_answer_is_in_force() {
    let command = "cargo test --workspace".to_owned();
    let (done, ended) = launched(SEVEN, "", "", Answer::Check { command });
    assert_eq!(
        done,
        [
            "rev-parse --absolute-git-dir",
            "symbolic-ref --short HEAD",
            "reserve main",
            "worktree list --porcelain",
            "plan",
            "forge",
            "agents",
            "look",
            "ask Some(\"cargo test\")",
            "establish main Some(\"cargo test --workspace\")",
        ]
    );
    let Starting::Started {
        run,
        flight,
        answer,
        plan,
    } = ended
    else {
        panic!("nothing failed: {ended:?}");
    };
    assert_eq!(run, RunId(3));
    assert_eq!(plan, two_then_three());
    assert_eq!(flight.check.as_deref(), Some("cargo test --workspace"));
    assert_eq!(
        answer.to_string(),
        r#"{"base":"main","branch":"feature-7","check":"cargo test --workspace","feature":"7","issues":2,"problems":[],"repository":"/w","run":3,"started":true}"#
    );
}

#[test]
fn a_decline_skips_the_check_and_the_record_says_unchecked() {
    let named = r#"{"repo":"o/r","repository":"/w","feature":7,"base":"dev"}"#;
    let (done, ended) = launched(named, "", "", Answer::Declined);
    assert_eq!(done.last().unwrap(), "establish dev None");
    assert!(!done.contains(&"symbolic-ref --short HEAD".to_owned()));
    let Starting::Started { flight, answer, .. } = ended else {
        panic!("nothing failed: {ended:?}");
    };
    assert_eq!(flight.check, None);
    assert!(answer.get("check").unwrap().is_null());
}

#[test]
fn a_second_start_of_a_held_feature_branch_is_refused_before_anyone_is_asked() {
    let listing = "worktree /w\nHEAD abc\nbranch refs/heads/main\n\n\
                   worktree /builds/7\nHEAD def\nbranch refs/heads/feature-7\n";
    let (done, ended) = launched(SEVEN, "", listing, Answer::Declined);
    let Starting::Refused { words, run } = ended else {
        panic!("the branch is held: {ended:?}");
    };
    assert!(
        words.starts_with("feature branch \"feature-7\" is already checked out by a build at /builds/7"),
        "{words}"
    );
    assert_eq!(run, Some(RunId(3)), "its reservation is abandoned");
    assert!(!done.iter().any(|errand| errand.starts_with("ask")));
}

#[test]
fn what_fails_after_reserving_hands_the_reservation_back() {
    for (fails, reserved) in [
        ("rev-parse", None),
        ("symbolic-ref", None),
        ("worktree", Some(RunId(3))),
        ("plan", Some(RunId(3))),
        ("forge", Some(RunId(3))),
        ("agents", Some(RunId(3))),
        ("establish", Some(RunId(3))),
    ] {
        let (_, ended) = launched(SEVEN, fails, "", Answer::Declined);
        let Starting::Refused { words, run } = ended else {
            panic!("{fails} failed: {ended:?}");
        };
        assert!(words.contains("no luck"), "{words}");
        assert_eq!(run, reserved, "{fails}");
    }
    let relative = r#"{"repo":"o/r","repository":"clone","feature":7}"#;
    let Starting::Refused { words, run } = launch(begun(relative).unwrap()) else {
        panic!("a relative path is refused");
    };
    assert!(words.contains("absolute"), "{words}");
    assert_eq!(run, None);
}

#[test]
fn what_is_not_a_repository_is_refused_before_anyone_is_asked() {
    let nowhere = r#"{"repo":"o/r","repository":"/nonexistent/clone","feature":7}"#;
    let Starting::Do(launching) = launch(begun(nowhere).unwrap()) else {
        panic!("git is asked what the repository is");
    };
    assert!(matches!(launching.deed(), Errand::Git(_)));
    let words = "fatal: not a git repository: /nonexistent/clone".to_owned();
    let Starting::Refused { words, run } = launching.next(Heard::Git(Err(words))) else {
        panic!("no card is raised for a bad repository");
    };
    assert!(words.contains("not a git repository"), "{words}");
    assert_eq!(run, None);

    // A relative path gets provisioning's own refusal, not a
    // cwd-dependent build.
    let relative = r#"{"repo":"o/r","repository":"relative/clone","feature":7}"#;
    let Starting::Refused { words, run } = launch(begun(relative).unwrap()) else {
        panic!("a relative path is refused");
    };
    assert!(words.contains("absolute"), "{words}");
    assert_eq!(run, None);

    // An empty optional argument is a worded refusal, not a card.
    let error = begun(
        r#"{"repo":"o/r","repository":"/nonexistent/clone","feature":7,"branch":" "}"#,
    )
    .unwrap_err();
    assert!(error.contains("branch"), "{error}");
    assert!(error.contains("non-empty"), "{error}");
}

#[test]
fn the_unnamed_branch_is_feature_n_and_the_unnamed_base_is_the_default_branch() {
    let (done, ended) = launched(SEVEN, "", "", Answer::Declined);
    assert_eq!(done.last().unwrap(), "establish main None");
    let Starting::Started { answer, .. } = ended else {
        panic!("nothing failed: {ended:?}");
    };
    assert_eq!(answer.get("started"), Some(&Json::Bool(true)));
    assert_eq!(
        answer.get("branch"),
        Some(&Json::string("feature-7")),
        "named for the issue"
    );
    assert_eq!(
        answer.get("base"),
        Some(&Json::string("main")),
        "the repository's default branch"
    );
}

// ----- attempting -----

fn ended(advanced: bool) -> Told {
    Told::Ran {
        phase: Phase::Finished(Exit::Code(0)),
        commits: Some(Commits {
            head: "def".to_owned(),
            advanced,
            clean: true,
            kept: None,
        }),
    }
}

/// Plays an attempt at issue 8 to its end.
fn attempted(manned: Result<(), String>, ran: Told) -> (Vec<String>, Result<(String, bool), String>) {
    let (mut manned, mut ran) = (Some(manned), Some(ran));
    let mut done: Vec<String> = Vec::new();
    let mut at = attempt(&issue(8, false), "/r");
    loop {
        let (name, told) = match at.deed() {
            Doing::Tip => ("tip".to_owned(), Told::Git(Ok("abc".to_owned()))),
            Doing::Git(args) => (args.join(" "), Told::Git(Err("no such branch".to_owned()))),
            Doing::Provision(order) => (
                format!("provision {} at {:?}", order.branch, order.base),
                Told::Provisioned(Ok(Workspace {
                    repository: order.repository,
                    branch: order.branch,
                    base_commit: "abc".to_owned(),
                    directory: "/w".to_owned(),
                })),
            ),
            Doing::Man { brief, .. } => {
                assert!(brief.contains("Implement issue 8: issue 8"), "{brief}");
                ("man".to_owned(), Told::Manned(manned.take().unwrap()))
            }
            Doing::Abandon(workspace) => {
                (format!("abandon {}", workspace.directory), Told::Done)
            }
            Doing::Run => ("run".to_owned(), ran.take().unwrap()),
            Doing::HandOver => ("hand over".to_owned(), Told::Done),
            Doing::Merge(branch) => (
                format!("merge {branch}"),
                Told::Merged(Ok(Outcome::Merged {
                    commit: "fed".to_owned(),
                    checked: true,
                })),
            ),
        };
        done.push(name);
        match at.next(told) {
            Attempting::Do(next) => at = next,
            Attempting::Ended(end) => return (done, end),
        }
    }
}

#[test]
fn an_attempt_hands_over_before_it_merges() {
    let (done, end) = attempted(Ok(()), ended(true));
    assert_eq!(end, Ok(("fed".to_owned(), true)));
    assert_eq!(
        done,
        [
            "tip",
            "-C /r branch -D issue/8",
            "provision issue/8 at Some(\"abc\")",
            "man",
            "run",
            "hand over",
            "merge issue/8",
        ]
    );
}

#[test]
fn an_attempt_that_came_to_nothing_merges_nothing() {
    let (done, end) = attempted(Ok(()), ended(false));
    assert_eq!(
        end,
        Err("the Agent committed nothing: the branch never advanced past its base".to_owned())
    );
    assert_eq!(done.last().unwrap(), "run");
    let (done, end) = attempted(Err("no such binary".to_owned()), ended(true));
    assert_eq!(end, Err("no such binary".to_owned()));
    assert_eq!(done.last().unwrap(), "abandon /w");
}

// ----- the log is the record -----

#[test]
fn the_fold_of_the_log_is_the_build() {
    let mut log = quiet();
    log.record(reserved(1));
    let mut build = fresh(a_chain_beside_a_loner());
    log.record(build.started(None));
    while let Some(issue) = build.dispatch(&mut log) {
        let landed = if issue.id.as_str() == "3" {
            Err("red".to_owned())
        } else {
            Ok(("abc".to_owned(), true))
        };
        build.conclude(&mut log, &issue.id, landed);
        let progress = folded(&log);
        assert_eq!(progress.watch(RunId(1)).unwrap().states(), build.states());
    }
    assert!(build.finished());
    assert!(matches!(state(&build, 5), State::Skipped { .. }));
}
