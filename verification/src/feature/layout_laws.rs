//! What holds of every picture of a plan.

use crate::feature;
use crate::feature::laws;
use crate::feature::layout;
use crate::feature::layout::{Container, Layout, Node};
use crate::feature::{Issue, PlanView, State};
use crate::ids;
use crate::tree;
use crate::tree::TreeView;
use vstd::prelude::*;

verus! {

/// Whether each row of the walk is entered from the next.
pub open spec fn is_walk(into: Seq<Seq<int>>, walk: Seq<int>) -> bool {
    forall|i: int|
        0 <= i < walk.len() - 1 ==> 0 <= #[trigger] walk[i] < into.len()
            && into[walk[i]].contains(walk[i + 1])
}

/// Whether no walk comes back to where it starts.
pub open spec fn acyclic(into: Seq<Seq<int>>) -> bool {
    forall|walk: Seq<int>| #[trigger]
        is_walk(into, walk) && walk.len() >= 2 ==> walk.first() != walk.last()
}

/// Whether every row named in `into` is one of its rows.
spec fn in_range(into: Seq<Seq<int>>) -> bool {
    forall|i: int, k: int|
        0 <= i < into.len() && 0 <= k < into[i].len() ==> 0 <= #[trigger] into[i][k] < into.len()
}

/// Whether `c` is one past the greatest column of `rows`, or zero where
/// there are none.
spec fn tops(column: Seq<Option<int>>, rows: Seq<int>, c: int) -> bool {
    &&& c >= 0
    &&& forall|j: int|
        0 <= j < rows.len() ==> (column[#[trigger] rows[j]] matches Some(b) && c >= b + 1)
    &&& c > 0 ==> exists|j: int|
        0 <= j < rows.len() && column[#[trigger] rows[j]] == Some(c - 1)
}

/// Whether every column known tops those of the rows that enter it.
spec fn right(into: Seq<Seq<int>>, column: Seq<Option<int>>) -> bool {
    forall|k: int|
        0 <= k < column.len() ==> (#[trigger] column[k] matches Some(c) ==> tops(
            column,
            into[k],
            c,
        ))
}

/// Whether what is known in `before` is known in `after`, and the same.
spec fn keeps(before: Seq<Option<int>>, after: Seq<Option<int>>) -> bool {
    before.len() == after.len() && forall|k: int|
        0 <= k < before.len() && (#[trigger] before[k]) is Some ==> after[k] == before[k]
}

proof fn tops_are_kept(
    before: Seq<Option<int>>,
    after: Seq<Option<int>>,
    rows: Seq<int>,
    c: int,
)
    requires
        keeps(before, after),
        tops(before, rows, c),
        forall|j: int| 0 <= j < rows.len() ==> 0 <= #[trigger] rows[j] < before.len(),
    ensures
        tops(after, rows, c),
{
    assert forall|j: int| 0 <= j < rows.len() implies (after[#[trigger] rows[j]] matches Some(b)
        && c >= b + 1) by {
        assert(before[rows[j]] is Some);
    }
    if c > 0 {
        let j = choose|j: int| 0 <= j < rows.len() && before[#[trigger] rows[j]] == Some(c - 1);
        assert(after[rows[j]] == Some(c - 1));
    }
}

proof fn walking_is_right(
    into: Seq<Seq<int>>,
    row: int,
    column: Seq<Option<int>>,
    path: Seq<int>,
    depth: nat,
)
    requires
        in_range(into),
        acyclic(into),
        column.len() == into.len(),
        right(into, column),
        0 <= row < into.len(),
        path.no_duplicates(),
        forall|k: int| 0 <= k < path.len() ==> 0 <= #[trigger] path[k] < into.len(),
        is_walk(into, path.push(row)),
        depth + path.len() == into.len(),
    ensures
        right(into, layout::walked(into, row, column, path, depth).1),
        keeps(column, layout::walked(into, row, column, path, depth).1),
        layout::walked(into, row, column, path, depth).0 is Some,
        layout::walked(into, row, column, path, depth).1[row] == layout::walked(
            into,
            row,
            column,
            path,
            depth,
        ).0,
    decreases depth, 0nat,
{
    if column[row] is None {
        if path.contains(row) {
            let k = path.index_of(row);
            let walk = path.push(row).skip(k);
            assert(is_walk(into, walk)) by {
                assert forall|i: int| 0 <= i < walk.len() - 1 implies 0 <= #[trigger] walk[i]
                    < into.len() && into[walk[i]].contains(walk[i + 1]) by {
                    assert(walk[i] == path.push(row)[k + i]);
                    assert(walk[i + 1] == path.push(row)[k + i + 1]);
                }
            }
            assert(walk.first() == row && walk.last() == row);
        }
        layout::paths_are_short(path, row, into.len() as int);
        let longer = path.push(row);
        let rows = into[row];
        assert forall|j: int| 0 <= j < rows.len() implies is_walk(
            into,
            longer.push(#[trigger] rows[j]),
        ) by {
            let walk = longer.push(rows[j]);
            assert forall|i: int| 0 <= i < walk.len() - 1 implies 0 <= #[trigger] walk[i]
                < into.len() && into[walk[i]].contains(walk[i + 1]) by {
                if i < path.len() {
                    assert(walk[i] == longer[i]);
                    assert(walk[i + 1] == longer[i + 1]);
                } else {
                    assert(walk[i] == row);
                    assert(walk[i + 1] == rows[j]);
                }
            }
        }
        assert forall|k: int| 0 <= k < longer.len() implies 0 <= #[trigger] longer[k]
            < into.len() by {
            if k < path.len() {
                assert(longer[k] == path[k]);
            }
        }
        assert forall|j: int| 0 <= j < rows.len() implies 0 <= #[trigger] rows[j] < into.len() by {
            assert(into[row][j] == rows[j]);
        }
        walking_all_is_right(into, rows, column, longer, (depth - 1) as nat);
        assert(longer[path.len() as int] == row);
        layout::walking_all_keeps_the_path(into, rows, column, longer, (depth - 1) as nat, row);
        let (found, between) = layout::walked_all(into, rows, column, longer, (depth - 1) as nat);
        let after = between.update(row, Some(found));
        assert(keeps(between, after));
        assert forall|k: int| 0 <= k < after.len() implies (#[trigger] after[k] matches Some(
            c,
        ) ==> tops(after, into[k], c)) by {
            assert forall|j: int| 0 <= j < into[k].len() implies 0 <= #[trigger] into[k][j]
                < between.len() by {}
            if k == row {
                tops_are_kept(between, after, rows, found);
            } else if after[k] is Some {
                assert(between[k] == after[k]);
                tops_are_kept(between, after, into[k], after[k]->0);
            }
        }
    }
}

proof fn walking_all_is_right(
    into: Seq<Seq<int>>,
    rows: Seq<int>,
    column: Seq<Option<int>>,
    path: Seq<int>,
    depth: nat,
)
    requires
        in_range(into),
        acyclic(into),
        column.len() == into.len(),
        right(into, column),
        forall|j: int| 0 <= j < rows.len() ==> 0 <= #[trigger] rows[j] < into.len(),
        path.no_duplicates(),
        forall|k: int| 0 <= k < path.len() ==> 0 <= #[trigger] path[k] < into.len(),
        forall|j: int| 0 <= j < rows.len() ==> is_walk(into, path.push(#[trigger] rows[j])),
        depth + path.len() == into.len(),
    ensures
        right(into, layout::walked_all(into, rows, column, path, depth).1),
        keeps(column, layout::walked_all(into, rows, column, path, depth).1),
        tops(
            layout::walked_all(into, rows, column, path, depth).1,
            rows,
            layout::walked_all(into, rows, column, path, depth).0,
        ),
    decreases depth, rows.len() + 1,
{
    if rows.len() > 0 {
        let fewer = rows.drop_last();
        let last = rows.last();
        assert(rows[rows.len() - 1] == last);
        assert forall|j: int| 0 <= j < fewer.len() implies 0 <= #[trigger] fewer[j]
            < into.len() by {
            assert(fewer[j] == rows[j]);
        }
        assert forall|j: int| 0 <= j < fewer.len() implies is_walk(
            into,
            path.push(#[trigger] fewer[j]),
        ) by {
            assert(fewer[j] == rows[j]);
        }
        walking_all_is_right(into, fewer, column, path, depth);
        let (most, between) = layout::walked_all(into, fewer, column, path, depth);
        walking_is_right(into, last, between, path, depth);
        let (answer, after) = layout::walked(into, last, between, path, depth);
        tops_are_kept(between, after, fewer, most);
        let found = layout::walked_all(into, rows, column, path, depth).0;
        assert forall|j: int| 0 <= j < rows.len() implies (after[#[trigger] rows[j]] matches Some(
            b,
        ) && found >= b + 1) by {
            if j < fewer.len() {
                assert(fewer[j] == rows[j]);
            }
        }
        if found > 0 {
            if found == most {
                let j = choose|j: int|
                    0 <= j < fewer.len() && after[#[trigger] fewer[j]] == Some(most - 1);
                assert(rows[j] == fewer[j]);
            } else {
                assert(after[rows[rows.len() - 1]] == Some(found - 1));
            }
        }
    }
}

proof fn columns_are_right(into: Seq<Seq<int>>, most: nat)
    requires
        in_range(into),
        acyclic(into),
        most <= into.len(),
    ensures
        layout::columns_after(into, most).len() == into.len(),
        right(into, layout::columns_after(into, most)),
        forall|k: int|
            0 <= k < most ==> (#[trigger] layout::columns_after(into, most)[k]) is Some,
    decreases most,
{
    if most > 0 {
        columns_are_right(into, (most - 1) as nat);
        let before = layout::columns_after(into, (most - 1) as nat);
        let none = Seq::<int>::empty();
        assert(is_walk(into, none.push(most - 1)));
        walking_is_right(into, most - 1, before, none, into.len());
        let after = layout::columns_after(into, most);
        assert forall|k: int| 0 <= k < most implies (#[trigger] after[k]) is Some by {
            if k < most - 1 {
                assert(before[k] is Some);
            }
        }
    }
}

/// Where the arrows make no loop, a leaf's column is its longest path over
/// them: an arrow always points right, and a column past the first is one
/// past the column of a row that points at it.
pub proof fn columns_are_longest_paths(plan: PlanView, states: Map<Seq<char>, State>, row: int)
    requires
        acyclic(layout::into_of(plan, layout::drawn(plan, states))),
        0 <= row < layout::drawn(plan, states).len(),
    ensures
        forall|j: int|
            0 <= j < layout::into_of(plan, layout::drawn(plan, states))[row].len()
                ==> layout::column_of(plan, layout::drawn(plan, states), row)
                >= layout::column_of(
                plan,
                layout::drawn(plan, states),
                #[trigger] layout::into_of(plan, layout::drawn(plan, states))[row][j],
            ) + 1,
        layout::column_of(plan, layout::drawn(plan, states), row) == 0 || exists|j: int|
            0 <= j < layout::into_of(plan, layout::drawn(plan, states))[row].len()
                && layout::column_of(plan, layout::drawn(plan, states), row)
                == layout::column_of(
                plan,
                layout::drawn(plan, states),
                #[trigger] layout::into_of(plan, layout::drawn(plan, states))[row][j],
            ) + 1,
{
    let drawn = layout::drawn(plan, states);
    let into = layout::into_of(plan, drawn);
    assert(in_range(into)) by {
        assert forall|i: int, k: int|
            0 <= i < into.len() && 0 <= k < into[i].len() implies 0 <= #[trigger] into[i][k]
            < into.len() by {
            layout::arrows_into_are_in_range(plan, drawn, i, drawn.len());
        }
    }
    columns_are_right(into, into.len());
    let column = layout::columns_after(into, into.len());
    let rows = into[row];
    let c = column[row]->0;
    assert(tops(column, into[row], c));
    if c > 0 {
        let j = choose|j: int| 0 <= j < rows.len() && column[#[trigger] rows[j]] == Some(c - 1);
        assert(into[row][j] == rows[j]);
    }
    assert forall|j: int| 0 <= j < into[row].len() implies c >= layout::column_of(
        plan,
        drawn,
        #[trigger] into[row][j],
    ) + 1 by {
        assert(rows[j] == into[row][j]);
    }
}

// ----- no column is empty -----

/// Whether every column known but the first has one before it.
spec fn stacked(column: Seq<Option<int>>) -> bool {
    forall|k: int|
        0 <= k < column.len() ==> (#[trigger] column[k] matches Some(c) ==> c >= 0 && (c > 0
            ==> has_column(column, c - 1)))
}

/// Whether some row has the column.
spec fn has_column(column: Seq<Option<int>>, c: int) -> bool {
    exists|k: int| 0 <= k < column.len() && #[trigger] column[k] == Some(c)
}

proof fn columns_are_kept(before: Seq<Option<int>>, after: Seq<Option<int>>, c: int)
    requires
        keeps(before, after),
        has_column(before, c),
    ensures
        has_column(after, c),
{
    let k = choose|k: int| 0 <= k < before.len() && #[trigger] before[k] == Some(c);
    assert(after[k] == Some(c));
}

proof fn walking_stacks(
    into: Seq<Seq<int>>,
    row: int,
    column: Seq<Option<int>>,
    path: Seq<int>,
    depth: nat,
)
    requires
        in_range(into),
        column.len() == into.len(),
        stacked(column),
        0 <= row < into.len(),
    ensures
        stacked(layout::walked(into, row, column, path, depth).1),
        keeps(column, layout::walked(into, row, column, path, depth).1),
        layout::walked(into, row, column, path, depth).0 matches Some(c) ==> c >= 0
            && layout::walked(into, row, column, path, depth).1[row] == Some(c),
        path.len() == 0 && depth > 0 ==> layout::walked(into, row, column, path, depth).0 is Some,
    decreases depth, 0nat,
{
    if column[row] is None && !path.contains(row) && depth > 0 {
        let rows = into[row];
        let longer = path.push(row);
        assert(longer[path.len() as int] == row);
        assert forall|j: int| 0 <= j < rows.len() implies 0 <= #[trigger] rows[j] < into.len() by {
            assert(into[row][j] == rows[j]);
        }
        walking_all_stacks(into, rows, column, longer, (depth - 1) as nat);
        layout::walking_all_keeps_the_path(into, rows, column, longer, (depth - 1) as nat, row);
        let (found, between) = layout::walked_all(into, rows, column, longer, (depth - 1) as nat);
        let after = between.update(row, Some(found));
        assert(keeps(between, after));
        assert forall|k: int| 0 <= k < after.len() implies (#[trigger] after[k] matches Some(c)
            ==> c >= 0 && (c > 0 ==> has_column(after, c - 1))) by {
            if k == row {
                if found > 0 {
                    columns_are_kept(between, after, found - 1);
                }
            } else if after[k] is Some && after[k]->0 > 0 {
                assert(between[k] == after[k]);
                columns_are_kept(between, after, after[k]->0 - 1);
            } else {
                assert(between[k] == after[k]);
            }
        }
    }
}

proof fn walking_all_stacks(
    into: Seq<Seq<int>>,
    rows: Seq<int>,
    column: Seq<Option<int>>,
    path: Seq<int>,
    depth: nat,
)
    requires
        in_range(into),
        column.len() == into.len(),
        stacked(column),
        forall|j: int| 0 <= j < rows.len() ==> 0 <= #[trigger] rows[j] < into.len(),
    ensures
        stacked(layout::walked_all(into, rows, column, path, depth).1),
        keeps(column, layout::walked_all(into, rows, column, path, depth).1),
        layout::walked_all(into, rows, column, path, depth).0 >= 0,
        layout::walked_all(into, rows, column, path, depth).0 > 0 ==> has_column(
            layout::walked_all(into, rows, column, path, depth).1,
            layout::walked_all(into, rows, column, path, depth).0 - 1,
        ),
    decreases depth, rows.len() + 1,
{
    if rows.len() > 0 {
        let fewer = rows.drop_last();
        let last = rows.last();
        assert(rows[rows.len() - 1] == last);
        assert forall|j: int| 0 <= j < fewer.len() implies 0 <= #[trigger] fewer[j]
            < into.len() by {
            assert(fewer[j] == rows[j]);
        }
        walking_all_stacks(into, fewer, column, path, depth);
        let (most, between) = layout::walked_all(into, fewer, column, path, depth);
        walking_stacks(into, last, between, path, depth);
        let (answer, after) = layout::walked(into, last, between, path, depth);
        if most > 0 {
            columns_are_kept(between, after, most - 1);
        }
    }
}

proof fn columns_stack(into: Seq<Seq<int>>, most: nat)
    requires
        in_range(into),
        most <= into.len(),
    ensures
        layout::columns_after(into, most).len() == into.len(),
        stacked(layout::columns_after(into, most)),
        forall|k: int|
            0 <= k < most ==> (#[trigger] layout::columns_after(into, most)[k]) is Some,
    decreases most,
{
    if most > 0 {
        columns_stack(into, (most - 1) as nat);
        let before = layout::columns_after(into, (most - 1) as nat);
        walking_stacks(into, most - 1, before, Seq::empty(), into.len());
        let after = layout::columns_after(into, most);
        assert forall|k: int| 0 <= k < most implies (#[trigger] after[k]) is Some by {
            if k < most - 1 {
                assert(before[k] is Some);
            }
        }
    }
}

/// Rows with the columns up to the one of row `k`, one of each.
proof fn a_stack(column: Seq<Option<int>>, k: int, c: int) -> (rows: Seq<int>)
    requires
        stacked(column),
        0 <= k < column.len(),
        column[k] == Some(c),
    ensures
        rows.len() == c + 1,
        forall|i: int|
            0 <= i < rows.len() ==> 0 <= #[trigger] rows[i] < column.len() && column[rows[i]]
                == Some(i),
    decreases c,
{
    if c == 0 {
        seq![k]
    } else {
        let j = choose|j: int| 0 <= j < column.len() && #[trigger] column[j] == Some(c - 1);
        let fewer = a_stack(column, j, c - 1);
        fewer.push(k)
    }
}

/// Whether one of the drawn stands in the column.
pub(crate) open spec fn some_row_in(plan: PlanView, shown: Seq<Issue>, c: int) -> bool {
    exists|k: int| 0 <= k < shown.len() && #[trigger] layout::column_of(plan, shown, k) == c
}

/// Every column of a drawn plan has one before it, and they are fewer than
/// the rows.
pub(crate) proof fn columns_are_few(plan: PlanView, shown: Seq<Issue>, row: int)
    requires
        0 <= row < shown.len(),
    ensures
        0 <= layout::column_of(plan, shown, row) < shown.len(),
        forall|c: int|
            0 <= c < layout::column_of(plan, shown, row) ==> #[trigger] some_row_in(
                plan,
                shown,
                c,
            ),
{
    let into = layout::into_of(plan, shown);
    assert(in_range(into)) by {
        assert forall|i: int, k: int|
            0 <= i < into.len() && 0 <= k < into[i].len() implies 0 <= #[trigger] into[i][k]
            < into.len() by {
            layout::arrows_into_are_in_range(plan, shown, i, shown.len());
        }
    }
    columns_stack(into, into.len());
    let column = layout::columns_after(into, into.len());
    let c = column[row]->0;
    assert(column[row] is Some);
    let rows = a_stack(column, row, c);
    let front = rows.drop_last();
    assert(front.no_duplicates()) by {
        assert forall|i: int, j: int| 0 <= i < j < front.len() implies front[i] != front[j] by {
            assert(column[rows[i]] == Some(i) && column[rows[j]] == Some(j));
        }
    }
    assert forall|i: int| 0 <= i < front.len() implies 0 <= #[trigger] front[i] < shown.len() by {
        assert(0 <= rows[i] < column.len());
    }
    let last = rows[c];
    assert(!front.contains(last)) by {
        if front.contains(last) {
            let i = choose|i: int| 0 <= i < front.len() && front[i] == last;
            assert(column[rows[i]] == Some(i) && column[rows[c]] == Some(c));
        }
    }
    layout::paths_are_short(front, last, shown.len() as int);
    assert forall|b: int| 0 <= b < c implies #[trigger] some_row_in(plan, shown, b) by {
        assert(column[rows[b]] == Some(b));
        assert(layout::column_of(plan, shown, rows[b]) == b);
    }
}

proof fn the_width_is_taken(nodes: Seq<Node>)
    ensures
        layout::width(nodes) >= 0,
        layout::width(nodes) == 0 <==> nodes.len() == 0,
        forall|i: int|
            0 <= i < nodes.len() ==> (#[trigger] nodes[i]).column < layout::width(nodes),
        nodes.len() > 0 ==> exists|i: int|
            0 <= i < nodes.len() && (#[trigger] nodes[i]).column == layout::width(nodes) - 1,
    decreases nodes.len(),
{
    if nodes.len() > 0 {
        let front = nodes.drop_last();
        the_width_is_taken(front);
        assert forall|i: int| 0 <= i < nodes.len() implies (#[trigger] nodes[i]).column
            < layout::width(nodes) by {
            if i < front.len() {
                assert(front[i] == nodes[i]);
            }
        }
        if layout::width(nodes) == nodes.last().column + 1 {
            assert(nodes[nodes.len() - 1].column == layout::width(nodes) - 1);
        } else {
            let i = choose|i: int|
                0 <= i < front.len() && (#[trigger] front[i]).column == layout::width(front) - 1;
            assert(nodes[i] == front[i]);
        }
    }
}

/// Whether a node stands in the column.
pub open spec fn stands_in_column(nodes: Seq<Node>, c: int) -> bool {
    exists|i: int| 0 <= i < nodes.len() && (#[trigger] nodes[i]).column == c
}

/// Law: whatever the plan, and whatever loops its edges make, no column of
/// its picture is empty, and there are no more columns than rows.
pub proof fn no_column_is_empty(
    picture: Layout,
    plan: PlanView,
    states: Map<Seq<char>, State>,
)
    requires
        layout::is_layout(picture, plan, states),
    ensures
        layout::width(picture.nodes@) == 0 <==> picture.nodes@.len() == 0,
        layout::width(picture.nodes@) <= picture.nodes@.len(),
        forall|i: int|
            0 <= i < picture.nodes@.len() ==> (#[trigger] picture.nodes@[i]).column
                < layout::width(picture.nodes@),
        forall|c: int|
            0 <= c < layout::width(picture.nodes@) ==> #[trigger] stands_in_column(
                picture.nodes@,
                c,
            ),
{
    let nodes = picture.nodes@;
    let shown = layout::drawn(plan, states);
    the_width_is_taken(nodes);
    if nodes.len() > 0 {
        let most = choose|i: int|
            0 <= i < nodes.len() && (#[trigger] nodes[i]).column == layout::width(nodes) - 1;
        assert(layout::is_node(nodes[most], plan, states, most));
        columns_are_few(plan, shown, most);
        assert forall|c: int| 0 <= c < layout::width(nodes) implies #[trigger] stands_in_column(
            nodes,
            c,
        ) by {
            if c < nodes[most].column {
                assert(some_row_in(plan, shown, c));
                let k = choose|k: int|
                    0 <= k < shown.len() && #[trigger] layout::column_of(plan, shown, k) == c;
                assert(layout::is_node(nodes[k], plan, states, k));
                assert(nodes[k].column == c);
            } else {
                assert(nodes[most].column == c);
            }
        }
    }
}

// ----- one picture -----

/// Whether two nodes are drawn alike.
pub open spec fn same_node(one: Node, other: Node) -> bool {
    &&& one.id == other.id
    &&& one.title == other.title
    &&& one.state == other.state
    &&& one.form == other.form
    &&& one.column == other.column
    &&& one.row == other.row
    &&& ids::names(one.blocked_by@) == ids::names(other.blocked_by@)
    &&& ids::names(one.blocks@) == ids::names(other.blocks@)
}

/// Whether two boxes are drawn alike.
pub open spec fn same_container(one: Container, other: Container) -> bool {
    &&& one.id == other.id
    &&& one.title == other.title
    &&& one.depth == other.depth
    &&& one.height == other.height
    &&& ids::names(one.leaves@) == ids::names(other.leaves@)
}

/// Whether two pictures show the same.
pub open spec fn same_picture(one: Layout, other: Layout) -> bool {
    &&& one.nodes@.len() == other.nodes@.len()
    &&& forall|i: int|
        0 <= i < one.nodes@.len() ==> same_node(#[trigger] one.nodes@[i], other.nodes@[i])
    &&& one.edges@.len() == other.edges@.len()
    &&& forall|i: int|
        0 <= i < one.edges@.len() ==> (#[trigger] one.edges@[i]).issue@ == other.edges@[i].issue@
            && one.edges@[i].blocker@ == other.edges@[i].blocker@
    &&& one.containers@.len() == other.containers@.len()
    &&& forall|i: int|
        0 <= i < one.containers@.len() ==> same_container(
            #[trigger] one.containers@[i],
            other.containers@[i],
        )
}

/// Law: the same plan and states give the same picture.
pub proof fn a_plan_has_one_picture(
    one: Layout,
    other: Layout,
    plan: PlanView,
    states: Map<Seq<char>, State>,
)
    requires
        layout::is_layout(one, plan, states),
        layout::is_layout(other, plan, states),
    ensures
        same_picture(one, other),
{
    let shown = layout::drawn(plan, states);
    let boxes = layout::boxes(plan, shown);
    assert forall|i: int| 0 <= i < one.nodes@.len() implies same_node(
        #[trigger] one.nodes@[i],
        other.nodes@[i],
    ) by {
        assert(layout::is_node(one.nodes@[i], plan, states, i));
        assert(layout::is_node(other.nodes@[i], plan, states, i));
    }
    assert forall|i: int| 0 <= i < one.edges@.len() implies (#[trigger] one.edges@[i]).issue@
        == other.edges@[i].issue@ && one.edges@[i].blocker@ == other.edges@[i].blocker@ by {
        let _ = other.edges@[i];
    }
    assert forall|i: int| 0 <= i < one.containers@.len() implies same_container(
        #[trigger] one.containers@[i],
        other.containers@[i],
    ) by {
        assert(layout::is_container(one.containers@[i], shown, boxes, boxes[i]));
        assert(layout::is_container(other.containers@[i], shown, boxes, boxes[i]));
    }
}

/// Law: where no two nodes of the tree have one name and every state is a
/// leaf's, the picture has as many nodes as there are states.
pub proof fn as_many_nodes_as_states(plan: PlanView, states: Map<Seq<char>, State>)
    requires
        laws::unique(plan.tree),
        forall|id: Seq<char>| #[trigger]
            states.dom().contains(id) ==> feature::named(plan.tree.leaves(), id),
    ensures
        states.dom().finite(),
        layout::drawn(plan, states).len() == states.dom().len(),
{
    let p = |leaf: Issue| states.dom().contains(leaf.id@);
    let all = plan.tree.leaves();
    let shown = layout::drawn(plan, states);
    let names = feature::issue_names(shown);
    leaves_are_unique(plan.tree);
    filtering_keeps_unique(all, p);
    assert forall|id: Seq<char>| names.to_set().contains(id) == states.dom().contains(id) by {
        if names.to_set().contains(id) {
            let k = choose|k: int| 0 <= k < names.len() && names[k] == id;
            all.lemma_filter_pred(p, k);
        }
        if states.dom().contains(id) {
            let k = choose|k: int| 0 <= k < all.len() && (#[trigger] all[k]).id@ == id;
            all.lemma_filter_contains(p, k);
            let m = choose|m: int| 0 <= m < shown.len() && shown[m] == all[k];
            assert(names[m] == id);
        }
    }
    assert(names.to_set() =~= states.dom());
    names.unique_seq_to_set();
}

pub(crate) proof fn forest_leaves_from_the_first(trees: Seq<TreeView<Issue>>)
    requires
        trees.len() > 0,
    ensures
        tree::forest_leaves(trees) == trees[0].leaves() + tree::forest_leaves(
            trees.drop_first(),
        ),
    decreases trees.len(),
{
    if trees.len() == 1 {
        let none = Seq::<TreeView<Issue>>::empty();
        assert(trees.drop_last() =~= none);
        assert(trees.drop_first() =~= none);
        assert(tree::forest_leaves(none) == Seq::<Issue>::empty());
        assert(trees.last() == trees[0]);
        assert(tree::forest_leaves(trees) =~= trees[0].leaves());
        assert(tree::forest_leaves(trees) =~= trees[0].leaves() + tree::forest_leaves(none));
    } else {
        forest_leaves_from_the_first(trees.drop_last());
        assert(trees.drop_last().drop_first() =~= trees.drop_first().drop_last());
        assert(trees.drop_last()[0] == trees[0]);
        assert(trees.drop_first().last() == trees.last());
        assert(tree::forest_leaves(trees) =~= trees[0].leaves() + tree::forest_leaves(
            trees.drop_first(),
        ));
    }
}

/// Whether `part` stands in `whole` from `at` on.
spec fn stands_in(part: Seq<Issue>, whole: Seq<Issue>, at: int) -> bool {
    0 <= at && at + part.len() <= whole.len() && whole.subrange(at, at + part.len()) == part
}

proof fn a_forest_holds_its_parts_together(trees: Seq<TreeView<Issue>>, id: Seq<char>) -> (at: int)
    requires
        feature::forest_path(trees, id) is Some,
    ensures
        stands_in(
            feature::forest_path(trees, id)->0.last().leaves(),
            tree::forest_leaves(trees),
            at,
        ),
    decreases trees,
{
    forest_leaves_from_the_first(trees);
    let first = trees[0].leaves();
    let part = feature::forest_path(trees, id)->0.last().leaves();
    let whole = tree::forest_leaves(trees);
    if feature::path_to(trees[0], id) is Some {
        let at = a_tree_holds_its_parts_together(trees[0], id);
        assert(whole.subrange(at, at + part.len()) =~= first.subrange(at, at + part.len()));
        at
    } else {
        let at = a_forest_holds_its_parts_together(trees.drop_first(), id);
        let rest = tree::forest_leaves(trees.drop_first());
        let there = first.len() + at;
        assert(whole.subrange(there, there + part.len()) =~= rest.subrange(at, at + part.len()));
        there
    }
}

/// The leaves of a node of a tree stand together among those of the tree.
proof fn a_tree_holds_its_parts_together(node: TreeView<Issue>, id: Seq<char>) -> (at: int)
    requires
        feature::path_to(node, id) is Some,
    ensures
        stands_in(feature::path_to(node, id)->0.last().leaves(), node.leaves(), at),
    decreases node,
{
    if node.value.id@ == id {
        assert(feature::path_to(node, id)->0.last() == node);
        assert(node.leaves().subrange(0, node.leaves().len() as int)
            =~= node.leaves());
        0
    } else {
        feature::forest_paths_reach(node.children, id);
        let short = feature::forest_path(node.children, id)->0;
        assert((seq![node] + short).last() == short.last());
        a_forest_holds_its_parts_together(node.children, id)
    }
}

proof fn forest_leaves_are_unique(trees: Seq<TreeView<Issue>>)
    requires
        laws::forest_unique(trees),
    ensures
        feature::issue_names(tree::forest_leaves(trees)).no_duplicates(),
    decreases trees,
{
    if trees.len() > 0 {
        let front = trees.drop_last();
        let last = trees.last();
        let one = tree::forest_leaves(front);
        let two = last.leaves();
        laws::unique_in_two(tree::forest_nodes(front), last.nodes());
        forest_leaves_are_unique(front);
        leaves_are_unique(last);
        let all = tree::forest_leaves(trees);
        assert forall|i: int, j: int| 0 <= i < j < all.len() implies feature::issue_names(all)[i]
            != feature::issue_names(all)[j] by {
            if j < one.len() {
                assert(feature::issue_names(one)[i] == all[i].id@);
                assert(feature::issue_names(one)[j] == all[j].id@);
            } else if i >= one.len() {
                assert(feature::issue_names(two)[i - one.len()] == all[i].id@);
                assert(feature::issue_names(two)[j - one.len()] == all[j].id@);
            } else {
                feature::forest_leaves_are_nodes(front, i);
                feature::leaves_are_nodes(last, j - one.len());
                assert(all[i] == one[i]);
                assert(all[j] == two[j - one.len()]);
            }
        }
    }
}

proof fn leaves_are_unique(node: TreeView<Issue>)
    requires
        laws::unique(node),
    ensures
        feature::issue_names(node.leaves()).no_duplicates(),
    decreases node,
{
    if node.children.len() > 0 {
        laws::unique_in_two(seq![node.value], tree::forest_nodes(node.children));
        forest_leaves_are_unique(node.children);
    }
}

proof fn filtering_in_two(one: Seq<Issue>, two: Seq<Issue>, p: spec_fn(Issue) -> bool)
    ensures
        (one + two).filter(p) == one.filter(p) + two.filter(p),
    decreases two.len(),
{
    reveal(Seq::filter);
    if two.len() == 0 {
        assert(one + two =~= one);
        assert(one.filter(p) + two.filter(p) =~= one.filter(p));
    } else {
        assert((one + two).drop_last() =~= one + two.drop_last());
        filtering_in_two(one, two.drop_last(), p);
        assert((one + two).filter(p) =~= one.filter(p) + two.filter(p));
    }
}

proof fn filtering_keeps_unique(all: Seq<Issue>, p: spec_fn(Issue) -> bool)
    requires
        feature::issue_names(all).no_duplicates(),
    ensures
        feature::issue_names(all.filter(p)).no_duplicates(),
    decreases all.len(),
{
    reveal(Seq::filter);
    if all.len() > 0 {
        let front = all.drop_last();
        let kept = front.filter(p);
        assert forall|i: int, j: int| 0 <= i < j < front.len() implies feature::issue_names(
            front,
        )[i] != feature::issue_names(front)[j] by {
            assert(feature::issue_names(all)[i] == front[i].id@);
            assert(feature::issue_names(all)[j] == front[j].id@);
        }
        filtering_keeps_unique(front, p);
        if p(all.last()) {
            let more = kept.push(all.last());
            assert forall|i: int, j: int| 0 <= i < j < more.len() implies feature::issue_names(
                more,
            )[i] != feature::issue_names(more)[j] by {
                if j < kept.len() {
                    assert(feature::issue_names(kept)[i] == more[i].id@);
                    assert(feature::issue_names(kept)[j] == more[j].id@);
                } else {
                    assert(kept.contains(kept[i]));
                    front.lemma_filter_contains_rev(p, kept[i]);
                    let k = choose|k: int| 0 <= k < front.len() && front[k] == kept[i];
                    assert(feature::issue_names(all)[k] == kept[i].id@);
                    assert(feature::issue_names(all)[all.len() - 1] == all.last().id@);
                }
            }
        }
    }
}

/// The rows of a part that stands together, counted from `base`.
proof fn rows_run_on(
    shown: Seq<Issue>,
    part: Seq<Issue>,
    p: spec_fn(Issue) -> bool,
    base: int,
)
    requires
        feature::issue_names(shown).no_duplicates(),
        0 <= base,
        base + part.filter(p).len() <= shown.len(),
        forall|k: int| 0 <= k < part.filter(p).len()
            ==> shown[base + k] == #[trigger] part.filter(p)[k],
        forall|k: int|
            0 <= k < part.len() && !p(#[trigger] part[k]) ==> !feature::named(shown, part[k].id@),
    ensures
        layout::rows_of(shown, part).len() == part.filter(p).len(),
        forall|k: int|
            0 <= k < layout::rows_of(shown, part).len() ==> #[trigger] layout::rows_of(
                shown,
                part,
            )[k] == base + k,
    decreases part.len(),
{
    reveal(Seq::filter);
    if part.len() > 0 {
        let front = part.drop_last();
        let last = part.last();
        let kept = front.filter(p);
        assert forall|k: int| 0 <= k < kept.len() implies shown[base + k] == #[trigger] kept[k] by {
            assert(part.filter(p)[k] == kept[k]);
        }
        assert forall|k: int| 0 <= k < front.len() && !p(#[trigger] front[k]) implies
            !feature::named(shown, front[k].id@) by {
            assert(part[k] == front[k]);
        }
        rows_run_on(shown, front, p, base);
        layout::rows_are_in_range(shown, last.id@);
        if p(last) {
            let at = base + kept.len();
            assert(part.filter(p)[kept.len() as int] == last);
            assert(shown[at] == last);
            assert(feature::named(shown, last.id@));
            let row = layout::row_of(shown, last.id@)->0;
            assert(feature::issue_names(shown)[row] == last.id@);
            assert(feature::issue_names(shown)[at] == last.id@);
            assert(row == at);
        } else {
            assert(part[part.len() - 1] == last);
            if layout::row_of(shown, last.id@) is Some {
                let row = layout::row_of(shown, last.id@)->0;
                assert(shown[row].id@ == last.id@);
                assert(feature::named(shown, last.id@));
            }
        }
    }
}

/// Where no two nodes have one name, the drawn leaves beneath a container
/// stand on adjacent rows, so its box encloses exactly them.
pub proof fn a_container_stands_on_adjacent_rows(
    plan: PlanView,
    states: Map<Seq<char>, State>,
    id: Seq<char>,
)
    requires
        laws::unique(plan.tree),
    ensures
        forall|k: int|
            0 <= k < layout::beneath(plan.tree, layout::drawn(plan, states), id).len()
                ==> #[trigger] layout::beneath(plan.tree, layout::drawn(plan, states), id)[k]
                == layout::beneath(plan.tree, layout::drawn(plan, states), id)[0] + k,
{
    let p = |leaf: Issue| states.dom().contains(leaf.id@);
    let shown = layout::drawn(plan, states);
    if feature::path_to(plan.tree, id) is Some {
        let all = plan.tree.leaves();
        let part = feature::path_to(plan.tree, id)->0.last().leaves();
        let at = a_tree_holds_its_parts_together(plan.tree, id);
        let end = at + part.len();
        let one = all.subrange(0, at);
        let three = all.subrange(end, all.len() as int);
        assert(all =~= one + part + three);
        filtering_in_two(one + part, three, p);
        filtering_in_two(one, part, p);
        leaves_are_unique(plan.tree);
        filtering_keeps_unique(all, p);
        let base = one.filter(p).len() as int;
        assert forall|k: int| 0 <= k < part.filter(p).len() implies shown[base + k]
            == #[trigger] part.filter(p)[k] by {}
        assert forall|k: int| 0 <= k < part.len() && !p(#[trigger] part[k]) implies
            !feature::named(shown, part[k].id@) by {
            if feature::named(shown, part[k].id@) {
                let i = choose|i: int|
                    0 <= i < shown.len() && (#[trigger] shown[i]).id@ == part[k].id@;
                all.lemma_filter_pred(p, i);
            }
        }
        rows_run_on(shown, part, p, base);
    }
}

} // verus!
