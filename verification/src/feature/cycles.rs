//! The cycles among the blocked-by edges: every one of them, each once.
//!
//! The ids are taken in the order a walk along the edges meets them. From
//! each, every way on is tried that meets no id twice and none that was
//! taken before; a way that comes back to where it began is a cycle. So a
//! cycle is found from the first of its ids, and from no other.

use crate::feature;
use crate::feature::{Blocking, IssueId, Plan, PlanView, ProblemView};
use crate::ids;
use crate::tree;
use vstd::prelude::*;

verus! {

// ----- the cycles -----

/// The ids, each once, where it first stands.
pub open spec fn once(ids: Seq<Seq<char>>) -> Seq<Seq<char>>
    decreases ids.len(),
{
    if ids.len() == 0 {
        Seq::empty()
    } else {
        let front = once(ids.drop_last());
        if front.contains(ids.last()) {
            front
        } else {
            front.push(ids.last())
        }
    }
}

/// The ids `id` waits on, each once, in the order of the edges.
pub open spec fn waits_on(blocking: Seq<Blocking>, id: Seq<char>) -> Seq<Seq<char>> {
    once(feature::blockers_of(blocking, id))
}

/// The ids met so far, `id`, and what it waits on, at most `depth` steps
/// on.
pub open spec fn met(
    blocking: Seq<Blocking>,
    id: Seq<char>,
    seen: Seq<Seq<char>>,
    depth: nat,
) -> Seq<Seq<char>>
    decreases depth, 0nat,
{
    if seen.contains(id) {
        seen
    } else if depth == 0 {
        seen.push(id)
    } else {
        met_all(blocking, waits_on(blocking, id), seen.push(id), (depth - 1) as nat)
    }
}

/// The ids met so far, and those met from each of `ids` in turn.
pub open spec fn met_all(
    blocking: Seq<Blocking>,
    ids: Seq<Seq<char>>,
    seen: Seq<Seq<char>>,
    depth: nat,
) -> Seq<Seq<char>>
    decreases depth, ids.len() + 1,
{
    if ids.len() == 0 {
        seen
    } else {
        met(blocking, ids.last(), met_all(blocking, ids.drop_last(), seen, depth), depth)
    }
}

/// The cycles that go along `path`, on to `id`, and then at most `depth`
/// ids on to where the path began, meeting none of those `passed`.
pub open spec fn cycles_through(
    blocking: Seq<Blocking>,
    id: Seq<char>,
    path: Seq<Seq<char>>,
    passed: Seq<Seq<char>>,
    depth: nat,
) -> Seq<Seq<Seq<char>>>
    decreases depth, 0nat,
{
    if id == path[0] {
        seq![path.push(id)]
    } else if path.contains(id) || passed.contains(id) || depth == 0 {
        Seq::empty()
    } else {
        cycles_along(blocking, waits_on(blocking, id), path.push(id), passed, (depth - 1) as nat)
    }
}

/// The cycles that go along `path` and on to one of `ids`.
pub open spec fn cycles_along(
    blocking: Seq<Blocking>,
    ids: Seq<Seq<char>>,
    path: Seq<Seq<char>>,
    passed: Seq<Seq<char>>,
    depth: nat,
) -> Seq<Seq<Seq<char>>>
    decreases depth, ids.len() + 1,
{
    if ids.len() == 0 {
        Seq::empty()
    } else {
        cycles_along(blocking, ids.drop_last(), path, passed, depth) + cycles_through(
            blocking,
            ids.last(),
            path,
            passed,
            depth,
        )
    }
}

/// The cycles through the id at place `at` that meet none before it.
pub open spec fn cycles_at(
    blocking: Seq<Blocking>,
    order: Seq<Seq<char>>,
    at: int,
) -> Seq<Seq<Seq<char>>> {
    cycles_along(
        blocking,
        waits_on(blocking, order[at]),
        seq![order[at]],
        order.take(at),
        blocking.len(),
    )
}

/// The cycles through the first `count` of the ids.
pub open spec fn cycles_among(
    blocking: Seq<Blocking>,
    order: Seq<Seq<char>>,
    count: nat,
) -> Seq<Seq<Seq<char>>>
    decreases count,
{
    if count == 0 {
        Seq::empty()
    } else {
        cycles_among(blocking, order, (count - 1) as nat) + cycles_at(blocking, order, count - 1)
    }
}

/// The ids that wait, one for each edge.
pub open spec fn waiting(blocking: Seq<Blocking>) -> Seq<Seq<char>> {
    blocking.map_values(|edge: Blocking| edge.issue@)
}

impl PlanView {
    /// Every id of the plan that waits, and those of the tree, as a walk
    /// along the edges meets them.
    pub open spec fn walked(self) -> Seq<Seq<char>> {
        met_all(
            self.blocking,
            feature::issue_names(self.tree.nodes()) + waiting(self.blocking),
            Seq::empty(),
            self.blocking.len(),
        )
    }

    /// Every cycle among the blocked-by edges, each once.
    pub open spec fn cycles_of(self) -> Seq<Seq<Seq<char>>> {
        cycles_among(self.blocking, self.walked(), self.walked().len())
    }
}

/// A cycle, begun at another of its ids.
pub open spec fn turned(ids: Seq<Seq<char>>, by: int) -> Seq<Seq<char>> {
    ids.subrange(by, ids.len() - 1) + ids.subrange(0, by + 1)
}

// ----- what is found -----

proof fn each_once(ids: Seq<Seq<char>>)
    ensures
        once(ids).no_duplicates(),
        forall|id: Seq<char>| #[trigger] once(ids).contains(id) == ids.contains(id),
    decreases ids.len(),
{
    if ids.len() > 0 {
        let front = once(ids.drop_last());
        each_once(ids.drop_last());
        assert forall|id: Seq<char>| #[trigger] once(ids).contains(id) == ids.contains(id) by {
            if ids.contains(id) {
                let k = choose|k: int| 0 <= k < ids.len() && ids[k] == id;
                if k < ids.len() - 1 {
                    assert(ids.drop_last()[k] == id);
                    assert(front.contains(id));
                    let m = choose|m: int| 0 <= m < front.len() && front[m] == id;
                    assert(once(ids)[m] == id);
                } else if !front.contains(id) {
                    assert(once(ids)[front.len() as int] == id);
                }
            }
            if once(ids).contains(id) {
                let m = choose|m: int| 0 <= m < once(ids).len() && once(ids)[m] == id;
                if m < front.len() {
                    assert(front.contains(id));
                    let k = choose|k: int|
                        0 <= k < ids.drop_last().len() && ids.drop_last()[k] == id;
                    assert(ids[k] == id);
                } else {
                    assert(ids[ids.len() - 1] == id);
                }
            }
        }
    }
}

/// Whether a cycle goes along a path first, and meets none of those passed.
spec fn goes_along(
    blocking: Seq<Blocking>,
    cycle: Seq<Seq<char>>,
    path: Seq<Seq<char>>,
    passed: Seq<Seq<char>>,
) -> bool {
    &&& feature::is_cycle(blocking, cycle)
    &&& cycle.len() > path.len()
    &&& cycle.take(path.len() as int) == path
    &&& forall|i: int| 0 <= i < cycle.len() ==> !passed.contains(#[trigger] cycle[i])
}

/// Whether a path can be gone along: no id twice, each waiting on the next,
/// and none of them passed.
spec fn open_path(
    blocking: Seq<Blocking>,
    path: Seq<Seq<char>>,
    passed: Seq<Seq<char>>,
) -> bool {
    &&& path.len() > 0
    &&& path.no_duplicates()
    &&& feature::linked(blocking, path)
    &&& forall|i: int| 0 <= i < path.len() ==> !passed.contains(#[trigger] path[i])
}

proof fn through_is_sound(
    blocking: Seq<Blocking>,
    id: Seq<char>,
    path: Seq<Seq<char>>,
    passed: Seq<Seq<char>>,
    depth: nat,
)
    requires
        open_path(blocking, path, passed),
        feature::blockers_of(blocking, path.last()).contains(id),
    ensures
        cycles_through(blocking, id, path, passed, depth).no_duplicates(),
        forall|k: int|
            0 <= k < cycles_through(blocking, id, path, passed, depth).len() ==> goes_along(
                blocking,
                #[trigger] cycles_through(blocking, id, path, passed, depth)[k],
                path,
                passed,
            ) && cycles_through(blocking, id, path, passed, depth)[k][path.len() as int] == id,
    decreases depth, 0nat,
{
    let found = cycles_through(blocking, id, path, passed, depth);
    let longer = path.push(id);
    assert forall|i: int| 0 <= i < longer.len() - 1 implies feature::blockers_of(
        blocking,
        #[trigger] longer[i],
    ).contains(longer[i + 1]) by {
        assert(longer[i] == path[i]);
        if i < path.len() - 1 {
            assert(longer[i + 1] == path[i + 1]);
        }
    }
    if id == path[0] {
        assert(longer.drop_last() =~= path);
        assert(longer.take(path.len() as int) =~= path);
        assert forall|i: int| 0 <= i < longer.len() implies !passed.contains(
            #[trigger] longer[i],
        ) by {
            if i < path.len() {
                assert(longer[i] == path[i]);
            }
        }
        assert(goes_along(blocking, longer, path, passed));
    } else if path.contains(id) || passed.contains(id) || depth == 0 {
    } else {
        let ids = waits_on(blocking, id);
        each_once(feature::blockers_of(blocking, id));
        assert forall|i: int| 0 <= i < longer.len() implies !passed.contains(
            #[trigger] longer[i],
        ) by {
            if i < path.len() {
                assert(longer[i] == path[i]);
            }
        }
        assert forall|i: int| 0 <= i < ids.len() implies feature::blockers_of(
            blocking,
            longer.last(),
        ).contains(#[trigger] ids[i]) by {
            assert(ids.contains(ids[i]));
        }
        along_is_sound(blocking, ids, longer, passed, (depth - 1) as nat);
        assert forall|k: int| 0 <= k < found.len() implies goes_along(
            blocking,
            #[trigger] found[k],
            path,
            passed,
        ) && found[k][path.len() as int] == id by {
            let cycle = found[k];
            assert(goes_along(blocking, cycle, longer, passed));
            assert(cycle.take(path.len() as int) =~= longer.take(path.len() as int));
            assert(longer.take(path.len() as int) =~= path);
            assert(cycle[path.len() as int] == cycle.take(longer.len() as int)[path.len() as int]);
        }
    }
}

proof fn along_is_sound(
    blocking: Seq<Blocking>,
    ids: Seq<Seq<char>>,
    path: Seq<Seq<char>>,
    passed: Seq<Seq<char>>,
    depth: nat,
)
    requires
        open_path(blocking, path, passed),
        ids.no_duplicates(),
        forall|i: int|
            0 <= i < ids.len() ==> feature::blockers_of(blocking, path.last()).contains(
                #[trigger] ids[i],
            ),
    ensures
        cycles_along(blocking, ids, path, passed, depth).no_duplicates(),
        forall|k: int|
            0 <= k < cycles_along(blocking, ids, path, passed, depth).len() ==> goes_along(
                blocking,
                #[trigger] cycles_along(blocking, ids, path, passed, depth)[k],
                path,
                passed,
            ) && ids.contains(
                cycles_along(blocking, ids, path, passed, depth)[k][path.len() as int],
            ),
    decreases depth, ids.len() + 1,
{
    if ids.len() > 0 {
        let fewer = ids.drop_last();
        let front = cycles_along(blocking, fewer, path, passed, depth);
        let last = cycles_through(blocking, ids.last(), path, passed, depth);
        let found = cycles_along(blocking, ids, path, passed, depth);
        assert(ids[ids.len() - 1] == ids.last());
        assert forall|i: int| 0 <= i < fewer.len() implies feature::blockers_of(
            blocking,
            path.last(),
        ).contains(#[trigger] fewer[i]) by {
            assert(fewer[i] == ids[i]);
        }
        along_is_sound(blocking, fewer, path, passed, depth);
        through_is_sound(blocking, ids.last(), path, passed, depth);
        let at = path.len() as int;
        assert forall|k: int| 0 <= k < found.len() implies goes_along(
            blocking,
            #[trigger] found[k],
            path,
            passed,
        ) && ids.contains(found[k][at]) by {
            if k < front.len() {
                assert(found[k] == front[k]);
                let m = choose|m: int| 0 <= m < fewer.len() && fewer[m] == front[k][at];
                assert(ids[m] == front[k][at]);
            } else {
                assert(found[k] == last[k - front.len()]);
            }
        }
        assert forall|i: int, j: int| 0 <= i < j < found.len() implies found[i] != found[j] by {
            if j < front.len() {
                assert(found[i] == front[i] && found[j] == front[j]);
            } else if i >= front.len() {
                assert(found[i] == last[i - front.len()] && found[j] == last[j - front.len()]);
            } else {
                assert(found[i] == front[i] && found[j] == last[j - front.len()]);
                let m = choose|m: int| 0 <= m < fewer.len() && fewer[m] == front[i][at];
                assert(ids[m] == front[i][at]);
                assert(ids[m] != ids[ids.len() - 1]);
            }
        }
    }
}

// ----- nothing is missed -----

proof fn along_holds_through(
    blocking: Seq<Blocking>,
    ids: Seq<Seq<char>>,
    path: Seq<Seq<char>>,
    passed: Seq<Seq<char>>,
    depth: nat,
    j: int,
    cycle: Seq<Seq<char>>,
)
    requires
        0 <= j < ids.len(),
        cycles_through(blocking, ids[j], path, passed, depth).contains(cycle),
    ensures
        cycles_along(blocking, ids, path, passed, depth).contains(cycle),
    decreases ids.len(),
{
    let fewer = ids.drop_last();
    let front = cycles_along(blocking, fewer, path, passed, depth);
    let last = cycles_through(blocking, ids.last(), path, passed, depth);
    let found = cycles_along(blocking, ids, path, passed, depth);
    if j < fewer.len() {
        along_holds_through(blocking, fewer, path, passed, depth, j, cycle);
        let k = choose|k: int| 0 <= k < front.len() && front[k] == cycle;
        assert(found[k] == cycle);
    } else {
        let k = choose|k: int| 0 <= k < last.len() && last[k] == cycle;
        assert(found[front.len() + k] == cycle);
    }
}

proof fn along_is_complete(
    blocking: Seq<Blocking>,
    cycle: Seq<Seq<char>>,
    k: int,
    passed: Seq<Seq<char>>,
    depth: nat,
)
    requires
        feature::is_cycle(blocking, cycle),
        1 <= k < cycle.len(),
        forall|i: int| 0 <= i < cycle.len() ==> !passed.contains(#[trigger] cycle[i]),
        depth + k + 1 >= cycle.len(),
    ensures
        cycles_along(
            blocking,
            waits_on(blocking, cycle[k - 1]),
            cycle.take(k),
            passed,
            depth,
        ).contains(cycle),
    decreases cycle.len() - k,
{
    let path = cycle.take(k);
    let next = cycle[k];
    let ids = waits_on(blocking, cycle[k - 1]);
    let simple = cycle.drop_last();
    each_once(feature::blockers_of(blocking, cycle[k - 1]));
    assert(feature::blockers_of(blocking, cycle[k - 1]).contains(cycle[k - 1 + 1]));
    assert(ids.contains(next));
    let j = choose|j: int| 0 <= j < ids.len() && ids[j] == next;
    assert(path[0] == cycle[0]);
    if k == cycle.len() - 1 {
        assert(path.push(next) =~= cycle);
        assert(cycles_through(blocking, next, path, passed, depth)[0] == cycle);
    } else {
        assert(simple[0] == cycle[0] && simple[k] == next);
        assert(!path.contains(next)) by {
            if path.contains(next) {
                let m = choose|m: int| 0 <= m < path.len() && path[m] == next;
                assert(simple[m] == path[m]);
            }
        }
        assert(path.push(next) =~= cycle.take(k + 1));
        along_is_complete(blocking, cycle, k + 1, passed, (depth - 1) as nat);
    }
    along_holds_through(blocking, ids, path, passed, depth, j, cycle);
}

proof fn meeting_goes_on(
    blocking: Seq<Blocking>,
    id: Seq<char>,
    seen: Seq<Seq<char>>,
    depth: nat,
)
    requires
        seen.no_duplicates(),
    ensures
        met(blocking, id, seen, depth).no_duplicates(),
        met(blocking, id, seen, depth).contains(id),
        forall|x: Seq<char>|
            seen.contains(x) ==> #[trigger] met(blocking, id, seen, depth).contains(x),
    decreases depth, 0nat,
{
    if !seen.contains(id) {
        let more = seen.push(id);
        assert(more[seen.len() as int] == id);
        assert forall|x: Seq<char>| seen.contains(x) implies more.contains(x) by {
            let k = choose|k: int| 0 <= k < seen.len() && seen[k] == x;
            assert(more[k] == x);
        }
        if depth > 0 {
            meeting_all_goes_on(blocking, waits_on(blocking, id), more, (depth - 1) as nat);
        }
    }
}

proof fn meeting_all_goes_on(
    blocking: Seq<Blocking>,
    ids: Seq<Seq<char>>,
    seen: Seq<Seq<char>>,
    depth: nat,
)
    requires
        seen.no_duplicates(),
    ensures
        met_all(blocking, ids, seen, depth).no_duplicates(),
        forall|x: Seq<char>|
            seen.contains(x) || ids.contains(x) ==> #[trigger] met_all(
                blocking,
                ids,
                seen,
                depth,
            ).contains(x),
    decreases depth, ids.len() + 1,
{
    if ids.len() > 0 {
        let fewer = ids.drop_last();
        meeting_all_goes_on(blocking, fewer, seen, depth);
        let between = met_all(blocking, fewer, seen, depth);
        meeting_goes_on(blocking, ids.last(), between, depth);
        assert forall|x: Seq<char>|
            seen.contains(x) || ids.contains(x) implies #[trigger] met_all(
            blocking,
            ids,
            seen,
            depth,
        ).contains(x) by {
            if ids.contains(x) && x != ids.last() {
                let k = choose|k: int| 0 <= k < ids.len() && ids[k] == x;
                assert(fewer[k] == x);
            }
            if x != ids.last() {
                assert(between.contains(x));
            }
        }
    }
}

/// Every id of a cycle waits, so an edge begins at it.
proof fn cycles_run_along_edges(blocking: Seq<Blocking>, cycle: Seq<Seq<char>>, i: int)
    requires
        feature::is_cycle(blocking, cycle),
        0 <= i < cycle.len() - 1,
    ensures
        waiting(blocking).contains(cycle[i]),
{
    assert(feature::blockers_of(blocking, cycle[i]).contains(cycle[i + 1]));
    feature::blockers_come_from_edges(blocking, cycle[i]);
    let k = choose|k: int| 0 <= k < blocking.len() && (#[trigger] blocking[k]).issue@ == cycle[i];
    assert(waiting(blocking)[k] == cycle[i]);
}

/// A cycle is no longer than the list of edges.
proof fn cycles_are_short(blocking: Seq<Blocking>, cycle: Seq<Seq<char>>)
    requires
        feature::is_cycle(blocking, cycle),
    ensures
        cycle.len() <= blocking.len() + 1,
{
    let simple = cycle.drop_last();
    let sources = waiting(blocking);
    assert forall|id: Seq<char>| simple.to_set().contains(id) implies sources.to_set().contains(
        id,
    ) by {
        let i = choose|i: int| 0 <= i < simple.len() && simple[i] == id;
        cycles_run_along_edges(blocking, cycle, i);
    }
    simple.unique_seq_to_set();
    sources.lemma_cardinality_of_set();
    vstd::set_lib::lemma_len_subset(simple.to_set(), sources.to_set());
}

/// Where the id at place `i` of a turned cycle stands in the cycle.
spec fn unturned(len: int, by: int, i: int) -> int {
    if i < len - 1 - by {
        by + i
    } else {
        i - (len - 1 - by)
    }
}

proof fn turned_ids(cycle: Seq<Seq<char>>, by: int, i: int)
    requires
        0 <= by < cycle.len() - 1,
        0 <= i < cycle.len(),
    ensures
        turned(cycle, by).len() == cycle.len(),
        turned(cycle, by)[i] == cycle[unturned(cycle.len() as int, by, i)],
        0 <= unturned(cycle.len() as int, by, i) < cycle.len() - 1,
{
}

proof fn a_turned_cycle_is_one(blocking: Seq<Blocking>, cycle: Seq<Seq<char>>, by: int)
    requires
        feature::is_cycle(blocking, cycle),
        0 <= by < cycle.len() - 1,
    ensures
        feature::is_cycle(blocking, turned(cycle, by)),
        turned(cycle, by).len() == cycle.len(),
        turned(cycle, by)[0] == cycle[by],
        forall|i: int|
            0 <= i < cycle.len() ==> exists|j: int|
                0 <= j < cycle.len() - 1 && #[trigger] turned(cycle, by)[i] == cycle[j],
{
    let len = cycle.len() as int;
    let other = turned(cycle, by);
    let simple = cycle.drop_last();
    let open = other.drop_last();
    turned_ids(cycle, by, 0);
    turned_ids(cycle, by, len - 1);
    assert(feature::linked(blocking, other)) by {
        assert forall|i: int| 0 <= i < other.len() - 1 implies feature::blockers_of(
            blocking,
            #[trigger] other[i],
        ).contains(other[i + 1]) by {
            let k = unturned(len, by, i);
            turned_ids(cycle, by, i);
            turned_ids(cycle, by, i + 1);
            assert(feature::blockers_of(blocking, cycle[k]).contains(cycle[k + 1]));
        }
    }
    assert(open.no_duplicates()) by {
        assert forall|i: int, j: int| 0 <= i < j < open.len() implies open[i] != open[j] by {
            turned_ids(cycle, by, i);
            turned_ids(cycle, by, j);
            let a = unturned(len, by, i);
            let b = unturned(len, by, j);
            assert(simple[a] == cycle[a] && simple[b] == cycle[b]);
        }
    }
    assert forall|i: int| 0 <= i < cycle.len() implies exists|j: int|
        0 <= j < cycle.len() - 1 && #[trigger] other[i] == cycle[j] by {
        turned_ids(cycle, by, i);
    }
}

/// One of the first `upto` ids of a cycle comes before the others of them.
proof fn the_first_of_a_cycle(order: Seq<Seq<char>>, cycle: Seq<Seq<char>>, upto: int) -> (by: int)
    requires
        1 <= upto <= cycle.len() - 1,
        forall|i: int| 0 <= i < cycle.len() - 1 ==> order.contains(#[trigger] cycle[i]),
    ensures
        0 <= by < upto,
        forall|i: int|
            0 <= i < upto ==> order.index_of(cycle[by]) <= order.index_of(#[trigger] cycle[i]),
    decreases upto,
{
    if upto == 1 {
        0
    } else {
        let by = the_first_of_a_cycle(order, cycle, upto - 1);
        if order.index_of(cycle[upto - 1]) < order.index_of(cycle[by]) {
            upto - 1
        } else {
            by
        }
    }
}

proof fn among_holds_at(
    blocking: Seq<Blocking>,
    order: Seq<Seq<char>>,
    count: nat,
    at: int,
    cycle: Seq<Seq<char>>,
)
    requires
        0 <= at < count <= order.len(),
        cycles_at(blocking, order, at).contains(cycle),
    ensures
        cycles_among(blocking, order, count).contains(cycle),
    decreases count,
{
    let front = cycles_among(blocking, order, (count - 1) as nat);
    let last = cycles_at(blocking, order, count - 1);
    let found = cycles_among(blocking, order, count);
    if at < count - 1 {
        among_holds_at(blocking, order, (count - 1) as nat, at, cycle);
        let k = choose|k: int| 0 <= k < front.len() && front[k] == cycle;
        assert(found[k] == cycle);
    } else {
        let k = choose|k: int| 0 <= k < last.len() && last[k] == cycle;
        assert(found[front.len() + k] == cycle);
    }
}

/// Where a cycle is found, and what is known of it there.
spec fn found_at(
    blocking: Seq<Blocking>,
    order: Seq<Seq<char>>,
    cycle: Seq<Seq<char>>,
    at: int,
) -> bool {
    &&& 0 <= at < order.len()
    &&& goes_along(blocking, cycle, seq![order[at]], order.take(at))
}

/// Whether a cycle is found from one of the first `count` ids.
spec fn placed(
    blocking: Seq<Blocking>,
    order: Seq<Seq<char>>,
    cycle: Seq<Seq<char>>,
    count: nat,
) -> bool {
    exists|at: int| at < count && #[trigger] found_at(blocking, order, cycle, at)
}

proof fn among_is_sound(blocking: Seq<Blocking>, order: Seq<Seq<char>>, count: nat)
    requires
        order.no_duplicates(),
        count <= order.len(),
    ensures
        cycles_among(blocking, order, count).no_duplicates(),
        forall|k: int|
            0 <= k < cycles_among(blocking, order, count).len() ==> placed(
                blocking,
                order,
                #[trigger] cycles_among(blocking, order, count)[k],
                count,
            ),
    decreases count,
{
    if count > 0 {
        let at = count - 1;
        let front = cycles_among(blocking, order, at as nat);
        let last = cycles_at(blocking, order, at);
        let found = cycles_among(blocking, order, count);
        let path = seq![order[at]];
        among_is_sound(blocking, order, at as nat);
        let ids = waits_on(blocking, order[at]);
        each_once(feature::blockers_of(blocking, order[at]));
        assert(path.last() == order[at]);
        assert forall|i: int| 0 <= i < ids.len() implies feature::blockers_of(
            blocking,
            path.last(),
        ).contains(#[trigger] ids[i]) by {
            assert(ids.contains(ids[i]));
        }
        assert(open_path(blocking, path, order.take(at))) by {
            assert forall|i: int| 0 <= i < path.len() implies !order.take(at).contains(
                #[trigger] path[i],
            ) by {
                if order.take(at).contains(path[i]) {
                    let m = choose|m: int| 0 <= m < at && order.take(at)[m] == path[i];
                    assert(order[m] == order[at]);
                }
            }
        }
        along_is_sound(blocking, ids, path, order.take(at), blocking.len());
        assert forall|k: int| 0 <= k < found.len() implies placed(
            blocking,
            order,
            #[trigger] found[k],
            count,
        ) by {
            if k < front.len() {
                assert(found[k] == front[k]);
                assert(placed(blocking, order, front[k], at as nat));
                let p = choose|p: int| p < at && #[trigger] found_at(blocking, order, front[k], p);
                assert(found_at(blocking, order, found[k], p));
            } else {
                assert(found[k] == last[k - front.len()]);
                assert(found_at(blocking, order, found[k], at));
            }
        }
        assert forall|i: int, j: int| 0 <= i < j < found.len() implies found[i] != found[j] by {
            if j < front.len() {
                assert(found[i] == front[i] && found[j] == front[j]);
            } else if i >= front.len() {
                assert(found[i] == last[i - front.len()] && found[j] == last[j - front.len()]);
            } else {
                assert(found[i] == front[i] && found[j] == last[j - front.len()]);
                assert(placed(blocking, order, front[i], at as nat));
                let p = choose|p: int| p < at && #[trigger] found_at(blocking, order, front[i], p);
                assert(front[i].take(1)[0] == order[p]);
                assert(last[j - front.len()].take(1)[0] == order[at]);
            }
        }
    }
}

proof fn the_walk_is_whole(plan: PlanView)
    ensures
        plan.walked().no_duplicates(),
        forall|id: Seq<char>|
            waiting(plan.blocking).contains(id) ==> #[trigger] plan.walked().contains(id),
{
    let names = feature::issue_names(plan.tree.nodes());
    let sources = waiting(plan.blocking);
    let all = names + sources;
    meeting_all_goes_on(plan.blocking, all, Seq::empty(), plan.blocking.len());
    assert forall|id: Seq<char>|
        sources.contains(id) implies #[trigger] plan.walked().contains(id) by {
        let k = choose|k: int| 0 <= k < sources.len() && sources[k] == id;
        assert(all[names.len() + k] == id);
        assert(all.contains(id));
    }
}

// ----- the laws -----

/// Law: every cycle a plan names is one: each id on it waits on the next,
/// the last is the first, and no other id comes twice.
pub proof fn a_named_cycle_is_a_cycle(plan: PlanView, k: int)
    requires
        0 <= k < plan.cycles_of().len(),
    ensures
        feature::is_cycle(plan.blocking, plan.cycles_of()[k]),
{
    the_walk_is_whole(plan);
    among_is_sound(plan.blocking, plan.walked(), plan.walked().len());
    assert(placed(plan.blocking, plan.walked(), plan.cycles_of()[k], plan.walked().len()));
    let at = choose|at: int|
        at < plan.walked().len() && #[trigger] found_at(
            plan.blocking,
            plan.walked(),
            plan.cycles_of()[k],
            at,
        );
    assert(found_at(plan.blocking, plan.walked(), plan.cycles_of()[k], at));
}

/// Law: every cycle among the blocked-by edges is named, begun at one of
/// its ids.
pub proof fn every_cycle_is_named(plan: PlanView, cycle: Seq<Seq<char>>)
    requires
        feature::is_cycle(plan.blocking, cycle),
    ensures
        exists|k: int, by: int|
            0 <= k < plan.cycles_of().len() && 0 <= by < cycle.len() - 1
                && #[trigger] plan.cycles_of()[k] == #[trigger] turned(cycle, by),
{
    let order = plan.walked();
    the_walk_is_whole(plan);
    assert forall|i: int| 0 <= i < cycle.len() - 1 implies order.contains(
        #[trigger] cycle[i],
    ) by {
        cycles_run_along_edges(plan.blocking, cycle, i);
    }
    let by = the_first_of_a_cycle(order, cycle, cycle.len() - 1);
    let at = order.index_of(cycle[by]);
    let other = turned(cycle, by);
    let passed = order.take(at);
    a_turned_cycle_is_one(plan.blocking, cycle, by);
    assert(order[at] == cycle[by]);
    assert forall|i: int| 0 <= i < other.len() implies !passed.contains(#[trigger] other[i]) by {
        let j = choose|j: int| 0 <= j < cycle.len() - 1 && #[trigger] other[i] == cycle[j];
        if passed.contains(other[i]) {
            let m = choose|m: int| 0 <= m < passed.len() && passed[m] == other[i];
            assert(order[m] == cycle[j]);
            assert(order.index_of(cycle[j]) == m);
        }
    }
    cycles_are_short(plan.blocking, other);
    along_is_complete(plan.blocking, other, 1, passed, plan.blocking.len());
    assert(other.take(1) =~= seq![order[at]]);
    assert(cycles_at(plan.blocking, order, at).contains(other));
    among_holds_at(plan.blocking, order, order.len(), at, other);
    let k = choose|k: int| 0 <= k < plan.cycles_of().len() && plan.cycles_of()[k] == other;
    assert(plan.cycles_of()[k] == turned(cycle, by));
}

/// Law: no cycle is named twice, wherever it is begun.
pub proof fn a_cycle_is_named_once(plan: PlanView, i: int, j: int, by: int)
    requires
        0 <= i < plan.cycles_of().len(),
        0 <= j < plan.cycles_of().len(),
        i != j,
        0 <= by < plan.cycles_of()[i].len() - 1,
    ensures
        plan.cycles_of()[j] != turned(plan.cycles_of()[i], by),
{
    let order = plan.walked();
    let one = plan.cycles_of()[i];
    let two = plan.cycles_of()[j];
    the_walk_is_whole(plan);
    among_is_sound(plan.blocking, order, order.len());
    assert(placed(plan.blocking, order, one, order.len()));
    assert(placed(plan.blocking, order, two, order.len()));
    let p = choose|p: int| p < order.len() && #[trigger] found_at(plan.blocking, order, one, p);
    let q = choose|q: int| q < order.len() && #[trigger] found_at(plan.blocking, order, two, q);
    assert(found_at(plan.blocking, order, one, p));
    assert(found_at(plan.blocking, order, two, q));
    assert(one.take(1)[0] == order[p]);
    assert(two.take(1)[0] == order[q]);
    if two == turned(one, by) {
        a_turned_cycle_is_one(plan.blocking, one, by);
        assert(two[0] == one[by]);
        if p == q {
            assert(one.drop_last()[0] == one.drop_last()[by]);
            assert(by == 0);
            assert(turned(one, 0) =~= one);
        } else if q < p {
            assert(order.take(p)[q] == one[by]);
            assert(order.take(p).contains(one[by]));
        } else {
            let n = one.len() - 1;
            assert(turned(one, by)[n - by] == one[0]);
            assert(order.take(q)[p] == two[n - by]);
            assert(order.take(q).contains(two[n - by]));
        }
    }
}

/// Every walk that comes back to where it began goes round a cycle.
proof fn a_walk_goes_round_a_cycle(
    blocking: Seq<Blocking>,
    walk: Seq<Seq<char>>,
) -> (cycle: Seq<Seq<char>>)
    requires
        walk.len() >= 2,
        walk.first() == walk.last(),
        feature::linked(blocking, walk),
    ensures
        feature::is_cycle(blocking, cycle),
    decreases walk.len(),
{
    let open = walk.drop_last();
    if open.no_duplicates() {
        walk
    } else {
        let (i, j) = choose|i: int, j: int|
            0 <= i < open.len() && 0 <= j < open.len() && i != j && open[i] == open[j];
        let from = if i < j { i } else { j };
        let to = if i < j { j } else { i };
        let part = walk.subrange(from, to + 1);
        assert(part.first() == open[from] && part.last() == open[to]);
        assert forall|k: int| 0 <= k < part.len() - 1 implies feature::blockers_of(
            blocking,
            #[trigger] part[k],
        ).contains(part[k + 1]) by {
            assert(part[k] == walk[from + k] && part[k + 1] == walk[from + k + 1]);
        }
        a_walk_goes_round_a_cycle(blocking, part)
    }
}

/// Law: a plan whose blocked-by edges lead round names a cycle among its
/// problems.
pub proof fn a_cycle_is_a_problem(plan: PlanView, walk: Seq<Seq<char>>)
    requires
        walk.len() >= 2,
        walk.first() == walk.last(),
        feature::linked(plan.blocking, walk),
    ensures
        exists|i: int|
            0 <= i < plan.problems_of().len() && (#[trigger] plan.problems_of()[i]) is Cycle,
{
    let cycle = a_walk_goes_round_a_cycle(plan.blocking, walk);
    every_cycle_is_named(plan, cycle);
    let as_dangling = |edge: Blocking| ProblemView::Dangling(edge.issue@, edge.blocker@);
    let at = plan.dangling().map_values(as_dangling).len() as int;
    assert(plan.problems_of()[at] == ProblemView::Cycle(plan.cycles_of()[0]));
}

// ----- finding them -----

/// The names of a row of cycles.
pub open spec fn loops(cycles: Seq<Vec<IssueId>>) -> Seq<Seq<Seq<char>>> {
    cycles.map_values(|ids: Vec<IssueId>| ids::names(ids@))
}

/// Whether one of the first `count` ids is `id`.
fn among(ids: &Vec<IssueId>, count: usize, id: &IssueId) -> (r: bool)
    requires
        count <= ids@.len(),
    ensures
        r == ids::names(ids@).take(count as int).contains(id@),
{
    let ghost names = ids::names(ids@).take(count as int);
    let mut i: usize = 0;
    while i < count
        invariant
            i <= count <= ids@.len(),
            names == ids::names(ids@).take(count as int),
            forall|k: int| 0 <= k < i ==> #[trigger] names[k] != id@,
        decreases count - i,
    {
        assert(names[i as int] == ids@[i as int]@);
        if ids[i].is(id) {
            return true;
        }
        i += 1;
    }
    false
}

impl Plan {
    /// The ids `id` waits on, each once, in the order of the edges.
    fn waits(&self, id: &IssueId) -> (r: Vec<IssueId>)
        ensures
            ids::names(r@) == waits_on(self.blocking@, id@),
    {
        let blockers = self.blockers(id);
        let ghost all = feature::blockers_of(self.blocking@, id@);
        let mut r: Vec<IssueId> = Vec::new();
        let mut i: usize = 0;
        proof {
            assert(all.take(0) =~= Seq::empty());
            assert(ids::names(r@) =~= Seq::empty());
        }
        while i < blockers.len()
            invariant
                i <= blockers@.len(),
                all == feature::blockers_of(self.blocking@, id@),
                feature::reached_names(blockers@) == all,
                ids::names(r@) == once(all.take(i as int)),
            decreases blockers@.len() - i,
        {
            proof {
                assert(feature::reached_names(blockers@)[i as int] == blockers@[i as int]@);
                assert(all.take(i + 1).drop_last() =~= all.take(i as int));
                assert(all.take(i + 1).last() == all[i as int]);
                assert(ids::names(r@).take(r@.len() as int) =~= ids::names(r@));
            }
            if !among(&r, r.len(), blockers[i]) {
                let ghost shorter = r@;
                r.push(blockers[i].clone());
                assert(ids::names(r@) =~= ids::names(shorter).push(blockers@[i as int]@));
            }
            i += 1;
        }
        assert(all.take(all.len() as int) =~= all);
        r
    }

    /// Meets `id`, and what it waits on, at most `depth` steps on.
    fn meet(&self, id: &IssueId, seen: &mut Vec<IssueId>, depth: usize)
        ensures
            ids::names(final(seen)@) == met(
                self.blocking@,
                id@,
                ids::names(old(seen)@),
                depth as nat,
            ),
        decreases depth,
    {
        assert(ids::names(seen@).take(seen@.len() as int) =~= ids::names(seen@));
        if among(seen, seen.len(), id) {
            return;
        }
        let ghost before = seen@;
        seen.push(id.clone());
        assert(ids::names(seen@) =~= ids::names(before).push(id@));
        if depth == 0 {
            return;
        }
        let on = self.waits(id);
        let ghost all = ids::names(on@);
        let ghost start = ids::names(seen@);
        let mut i: usize = 0;
        assert(all.take(0) =~= Seq::empty());
        while i < on.len()
            invariant
                i <= on@.len(),
                depth > 0,
                all == ids::names(on@),
                ids::names(seen@) == met_all(
                    self.blocking@,
                    all.take(i as int),
                    start,
                    (depth - 1) as nat,
                ),
            decreases on@.len() - i,
        {
            self.meet(&on[i], seen, depth - 1);
            proof {
                assert(all.take(i + 1).drop_last() =~= all.take(i as int));
                assert(all.take(i + 1).last() == on@[i as int]@);
            }
            i += 1;
        }
        assert(all.take(all.len() as int) =~= all);
    }

    /// Finds the cycles that go along `path`, on to `id`, and then at most
    /// `depth` ids on to where the path began, meeting none of the first
    /// `count` of those passed.
    fn chase(
        &self,
        id: &IssueId,
        path: &mut Vec<IssueId>,
        passed: &Vec<IssueId>,
        count: usize,
        depth: usize,
        cycles: &mut Vec<Vec<IssueId>>,
    )
        requires
            old(path)@.len() > 0,
            count <= passed@.len(),
        ensures
            final(path)@ == old(path)@,
            loops(final(cycles)@) == loops(old(cycles)@) + cycles_through(
                self.blocking@,
                id@,
                ids::names(old(path)@),
                ids::names(passed@).take(count as int),
                depth as nat,
            ),
        decreases depth,
    {
        let ghost way = ids::names(path@);
        let ghost before = loops(cycles@);
        proof {
            assert(way[0] == path@[0]@);
            assert(way.take(way.len() as int) =~= way);
            assert(before + Seq::<Seq<Seq<char>>>::empty() =~= before);
        }
        if path[0].is(id) {
            let mut cycle = path.clone();
            assert(cycle@ =~= path@);
            let ghost open = cycle@;
            cycle.push(id.clone());
            let ghost found = cycles@;
            let ghost closed = cycle;
            cycles.push(cycle);
            proof {
                assert(ids::names(closed@) =~= way.push(id@));
                assert(loops(cycles@) =~= loops(found) + seq![way.push(id@)]);
            }
            return;
        }
        if among(path, path.len(), id) || among(passed, count, id) || depth == 0 {
            return;
        }
        let on = self.waits(id);
        path.push(id.clone());
        let ghost all = ids::names(on@);
        let ghost longer = ids::names(path@);
        let ghost gone = ids::names(passed@).take(count as int);
        let mut i: usize = 0;
        proof {
            assert(longer =~= way.push(id@));
            assert(all.take(0) =~= Seq::empty());
        }
        while i < on.len()
            invariant
                i <= on@.len(),
                depth > 0,
                count <= passed@.len(),
                all == ids::names(on@),
                longer == ids::names(path@),
                path@ == old(path)@.push(*id),
                gone == ids::names(passed@).take(count as int),
                loops(cycles@) == before + cycles_along(
                    self.blocking@,
                    all.take(i as int),
                    longer,
                    gone,
                    (depth - 1) as nat,
                ),
            decreases on@.len() - i,
        {
            self.chase(&on[i], path, passed, count, depth - 1, cycles);
            proof {
                assert(all.take(i + 1).drop_last() =~= all.take(i as int));
                assert(all.take(i + 1).last() == on@[i as int]@);
                assert(loops(cycles@) =~= before + cycles_along(
                    self.blocking@,
                    all.take(i + 1),
                    longer,
                    gone,
                    (depth - 1) as nat,
                ));
            }
            i += 1;
        }
        assert(all.take(all.len() as int) =~= all);
        path.pop();
        assert(path@ =~= old(path)@);
    }

    /// Every id that waits, and those of the tree, as a walk along the
    /// edges meets them.
    fn walk(&self) -> (r: Vec<IssueId>)
        ensures
            ids::names(r@) == self@.walked(),
    {
        let nodes = self.tree.nodes();
        let depth: usize = self.blocking.len();
        let ghost names = feature::issue_names(self@.tree.nodes());
        let ghost all = names + waiting(self.blocking@);
        let mut seen: Vec<IssueId> = Vec::new();
        let mut i: usize = 0;
        proof {
            assert(all.take(0) =~= Seq::empty());
            assert(ids::names(seen@) =~= Seq::empty());
        }
        while i < nodes.len()
            invariant
                i <= nodes@.len() == names.len(),
                depth == self.blocking@.len(),
                tree::reached(nodes@) == self@.tree.nodes(),
                names == feature::issue_names(self@.tree.nodes()),
                all == names + waiting(self.blocking@),
                ids::names(seen@) == met_all(
                    self.blocking@,
                    all.take(i as int),
                    Seq::empty(),
                    depth as nat,
                ),
            decreases nodes@.len() - i,
        {
            assert(tree::reached(nodes@)[i as int] == *nodes@[i as int]);
            self.meet(&nodes[i].id, &mut seen, depth);
            proof {
                assert(all.take(i + 1).drop_last() =~= all.take(i as int));
                assert(all.take(i + 1).last() == nodes@[i as int].id@);
            }
            i += 1;
        }
        let mut j: usize = 0;
        while j < self.blocking.len()
            invariant
                j <= self.blocking@.len(),
                depth == self.blocking@.len(),
                all == names + waiting(self.blocking@),
                ids::names(seen@) == met_all(
                    self.blocking@,
                    all.take(names.len() + j),
                    Seq::empty(),
                    depth as nat,
                ),
            decreases self.blocking@.len() - j,
        {
            self.meet(&self.blocking[j].issue, &mut seen, depth);
            proof {
                let at = names.len() + j;
                assert(all.take(at + 1).drop_last() =~= all.take(at));
                assert(all.take(at + 1).last() == self.blocking@[j as int].issue@);
            }
            j += 1;
        }
        assert(all.take(names.len() + j) =~= all);
        seen
    }

    /// Every cycle among the blocked-by edges, each found once: from every
    /// id in turn, the ways that come back to it and meet none of those
    /// before it. A way meets no id twice, so it ends on any graph.
    pub fn cycles(&self) -> (r: Vec<Vec<IssueId>>)
        ensures
            loops(r@) == self@.cycles_of(),
    {
        let order = self.walk();
        let ghost names = self@.walked();
        let depth: usize = self.blocking.len();
        let mut cycles: Vec<Vec<IssueId>> = Vec::new();
        let mut i: usize = 0;
        assert(loops(cycles@) =~= Seq::empty());
        while i < order.len()
            invariant
                i <= order@.len(),
                depth == self.blocking@.len(),
                ids::names(order@) == names,
                loops(cycles@) == cycles_among(self.blocking@, names, i as nat),
            decreases order@.len() - i,
        {
            let on = self.waits(&order[i]);
            let mut path: Vec<IssueId> = Vec::new();
            path.push(order[i].clone());
            let ghost all = ids::names(on@);
            let ghost before = loops(cycles@);
            let mut k: usize = 0;
            proof {
                assert(names[i as int] == order@[i as int]@);
                assert(ids::names(path@) =~= seq![names[i as int]]);
                assert(all.take(0) =~= Seq::empty());
                assert(before + Seq::<Seq<Seq<char>>>::empty() =~= before);
            }
            while k < on.len()
                invariant
                    k <= on@.len(),
                    i < order@.len(),
                    depth == self.blocking@.len(),
                    ids::names(order@) == names,
                    all == ids::names(on@),
                    path@.len() == 1,
                    ids::names(path@) == seq![names[i as int]],
                    loops(cycles@) == before + cycles_along(
                        self.blocking@,
                        all.take(k as int),
                        seq![names[i as int]],
                        names.take(i as int),
                        depth as nat,
                    ),
                decreases on@.len() - k,
            {
                self.chase(&on[k], &mut path, &order, i, depth, &mut cycles);
                proof {
                    assert(all.take(k + 1).drop_last() =~= all.take(k as int));
                    assert(all.take(k + 1).last() == on@[k as int]@);
                    assert(loops(cycles@) =~= before + cycles_along(
                        self.blocking@,
                        all.take(k + 1),
                        seq![names[i as int]],
                        names.take(i as int),
                        depth as nat,
                    ));
                }
                k += 1;
            }
            assert(all.take(all.len() as int) =~= all);
            i += 1;
        }
        cycles
    }
}

} // verus!
