//! What holds of every tree.

use crate::tree;
use crate::tree::{Tree, TreeView};
use vstd::prelude::*;

verus! {

/// Law: a tree of one value is a leaf, and is its own one node and its own
/// one leaf.
pub proof fn one_value_is_a_leaf<T>(value: T, made: &Tree<T>, leaf: bool)
    requires
        call_ensures(Tree::<T>::new, (value,), *made),
        call_ensures(Tree::<T>::is_leaf, (made,), leaf),
    ensures
        leaf,
        made@.nodes() == seq![value],
        made@.leaves() == seq![value],
{
    assert(made@.nodes() =~= seq![value]);
}

/// Law: a tree is a leaf just when nothing stands beneath it; its nodes are
/// its own value first and then those of its children in their order, and
/// its leaves those of its children.
pub proof fn a_tree_is_walked_from_its_root<T>(
    whole: &Tree<T>,
    leaf: bool,
    nodes: Vec<&T>,
    leaves: Vec<&T>,
)
    requires
        call_ensures(Tree::<T>::is_leaf, (whole,), leaf),
        call_ensures(Tree::<T>::nodes, (whole,), nodes),
        call_ensures(Tree::<T>::leaves, (whole,), leaves),
    ensures
        leaf <==> whole.children@.len() == 0,
        nodes@.len() > 0,
        *nodes@[0] == whole.value,
        whole.children@.len() == 0 ==> nodes@.len() == 1 && leaves@.len() == 1 && *leaves@[0]
            == whole.value,
        whole.children@.len() == 1 ==> tree::reached(nodes@).skip(1) == whole.children@[0]@.nodes()
            && tree::reached(leaves@) == whole.children@[0]@.leaves(),
        whole.children@.len() == 2 ==> tree::reached(nodes@).skip(1) == whole.children@[0]@.nodes()
            + whole.children@[1]@.nodes() && tree::reached(leaves@)
            == whole.children@[0]@.leaves() + whole.children@[1]@.leaves(),
{
    tree::forest_views(whole.children@);
    let all = tree::reached(nodes@);
    let ends = tree::reached(leaves@);
    let beneath = whole@.children;
    assert(all.len() == nodes@.len());
    assert(ends.len() == leaves@.len());
    assert(all[0] == whole.value);
    assert(*nodes@[0] == all[0]);
    assert(all.skip(1) =~= tree::forest_nodes(beneath));
    reveal_with_fuel(tree::forest_nodes, 3);
    reveal_with_fuel(tree::forest_leaves, 3);
    if beneath.len() == 0 {
        assert(ends[0] == whole.value);
        assert(*leaves@[0] == ends[0]);
    } else if beneath.len() == 1 {
        assert(beneath.drop_last() =~= Seq::<TreeView<T>>::empty());
        assert(tree::forest_nodes(beneath) =~= beneath[0].nodes());
        assert(tree::forest_leaves(beneath) =~= beneath[0].leaves());
    } else if beneath.len() == 2 {
        let front = beneath.drop_last();
        assert(front.drop_last() =~= Seq::<TreeView<T>>::empty());
        assert(front.last() == beneath[0]);
        assert(tree::forest_nodes(front) =~= beneath[0].nodes());
        assert(tree::forest_leaves(front) =~= beneath[0].leaves());
    }
}

} // verus!
