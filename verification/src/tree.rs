//! A tree of values, read from the root down.

use vstd::prelude::*;

pub mod laws;

verus! {

/// A value and the trees beneath it.
#[derive(Debug, Eq, PartialEq)]
pub struct Tree<T> {
    pub value: T,
    pub children: Vec<Tree<T>>,
}

/// A tree with its children as a sequence.
pub struct TreeView<T> {
    pub value: T,
    pub children: Seq<TreeView<T>>,
}

/// The views of a row of trees.
pub open spec fn forest_view<T>(trees: Seq<Tree<T>>) -> Seq<TreeView<T>>
    decreases trees,
{
    if trees.len() == 0 {
        Seq::empty()
    } else {
        forest_view(trees.drop_last()).push(trees.last().shape())
    }
}

/// Every value of the trees, each before those beneath it.
pub open spec fn forest_nodes<T>(trees: Seq<TreeView<T>>) -> Seq<T>
    decreases trees,
{
    if trees.len() == 0 {
        Seq::empty()
    } else {
        forest_nodes(trees.drop_last()) + trees.last().nodes()
    }
}

/// The values of the trees that have nothing beneath them, in order.
pub open spec fn forest_leaves<T>(trees: Seq<TreeView<T>>) -> Seq<T>
    decreases trees,
{
    if trees.len() == 0 {
        Seq::empty()
    } else {
        forest_leaves(trees.drop_last()) + trees.last().leaves()
    }
}

impl<T> TreeView<T> {
    /// Every value of the tree, each before those beneath it.
    pub open spec fn nodes(self) -> Seq<T>
        decreases self,
    {
        seq![self.value] + forest_nodes(self.children)
    }

    /// The values that have nothing beneath them, in order.
    pub open spec fn leaves(self) -> Seq<T>
        decreases self,
    {
        if self.children.len() == 0 {
            seq![self.value]
        } else {
            forest_leaves(self.children)
        }
    }
}

/// The values a row of references reaches.
pub open spec fn reached<T>(refs: Seq<&T>) -> Seq<T> {
    refs.map_values(|r: &T| *r)
}

/// The views of the trees a row of references reaches.
pub open spec fn shapes<T>(refs: Seq<&Tree<T>>) -> Seq<TreeView<T>> {
    refs.map_values(|r: &Tree<T>| r@)
}

/// A row of trees has one view for each tree.
pub(crate) proof fn forest_views<T>(trees: Seq<Tree<T>>)
    ensures
        forest_view(trees).len() == trees.len(),
        forall|i: int| 0 <= i < trees.len() ==> #[trigger] forest_view(trees)[i] == trees[i]@,
    decreases trees.len(),
{
    if trees.len() > 0 {
        let front = trees.drop_last();
        forest_views(front);
        assert forall|i: int| 0 <= i < trees.len() implies #[trigger] forest_view(trees)[i]
            == trees[i]@ by {
            if i < front.len() {
                assert(forest_view(front)[i] == front[i]@);
            }
        }
    }
}

impl<T> View for Tree<T> {
    type V = TreeView<T>;

    open spec fn view(&self) -> TreeView<T> {
        self.shape()
    }
}

impl<T> Tree<T> {
    /// The tree with its children as a sequence.
    pub open spec fn shape(self) -> TreeView<T>
        decreases self,
    {
        TreeView { value: self.value, children: forest_view(self.children@) }
    }

    /// A tree of one value.
    pub fn new(value: T) -> (t: Self)
        ensures
            t@ == (TreeView { value, children: Seq::empty() }),
    {
        Tree { value, children: Vec::new() }
    }

    /// Whether nothing stands beneath the root.
    pub fn is_leaf(&self) -> (r: bool)
        ensures
            r == (self@.children.len() == 0),
    {
        proof {
            forest_views(self.children@);
        }
        self.children.len() == 0
    }

    /// Every value of the tree, each before those beneath it.
    pub fn nodes(&self) -> (r: Vec<&T>)
        ensures
            reached(r@) == self@.nodes(),
        decreases self,
    {
        let mut r: Vec<&T> = Vec::new();
        r.push(&self.value);
        let mut i: usize = 0;
        assert(reached(r@) =~= seq![self.value] + forest_nodes(
            forest_view(self.children@.take(0)),
        ));
        while i < self.children.len()
            invariant
                i <= self.children@.len(),
                reached(r@) == seq![self.value] + forest_nodes(
                    forest_view(self.children@.take(i as int)),
                ),
            decreases self.children@.len() - i,
        {
            let mut beneath = self.children[i].nodes();
            let ghost one = r@;
            let ghost two = beneath@;
            r.append(&mut beneath);
            proof {
                let longer = self.children@.take(i + 1);
                assert(longer.drop_last() =~= self.children@.take(i as int));
                assert(longer.last() == self.children@[i as int]);
                assert(forest_view(longer).drop_last() =~= forest_view(
                    self.children@.take(i as int),
                ));
                assert(reached(one + two) =~= reached(one) + reached(two));
            }
            i += 1;
        }
        assert(self.children@.take(self.children@.len() as int) =~= self.children@);
        r
    }

    /// The values that have nothing beneath them, in order.
    pub fn leaves(&self) -> (r: Vec<&T>)
        ensures
            reached(r@) == self@.leaves(),
        decreases self,
    {
        let mut r: Vec<&T> = Vec::new();
        proof {
            forest_views(self.children@);
        }
        if self.children.len() == 0 {
            r.push(&self.value);
            assert(reached(r@) =~= seq![self.value]);
            return r;
        }
        let mut i: usize = 0;
        assert(reached(r@) =~= forest_leaves(forest_view(self.children@.take(0))));
        while i < self.children.len()
            invariant
                i <= self.children@.len(),
                reached(r@) == forest_leaves(forest_view(self.children@.take(i as int))),
            decreases self.children@.len() - i,
        {
            let mut beneath = self.children[i].leaves();
            let ghost one = r@;
            let ghost two = beneath@;
            r.append(&mut beneath);
            proof {
                let longer = self.children@.take(i + 1);
                assert(longer.drop_last() =~= self.children@.take(i as int));
                assert(longer.last() == self.children@[i as int]);
                assert(forest_view(longer).drop_last() =~= forest_view(
                    self.children@.take(i as int),
                ));
                assert(reached(one + two) =~= reached(one) + reached(two));
            }
            i += 1;
        }
        assert(self.children@.take(self.children@.len() as int) =~= self.children@);
        r
    }
}

} // verus!
