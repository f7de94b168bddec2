//! Issue names, and the sets and maps keyed by them.
//!
//! A set or a map keeps its names in the order of strings, each name once.

use crate::text;
use vstd::prelude::*;

pub mod laws;

verus! {

/// A tracker's name for an issue. A string, because a Linear key is not a
/// number; GitHub's numbers ride in as their decimal spelling.
#[derive(Debug, Eq, Hash, Ord, PartialEq, PartialOrd)]
pub struct IssueId(pub String);

impl View for IssueId {
    type V = Seq<char>;

    open spec fn view(&self) -> Seq<char> {
        self.0@
    }
}

impl Clone for IssueId {
    fn clone(&self) -> (r: Self)
        ensures
            r == *self,
    {
        IssueId(self.0.clone())
    }
}

impl From<&str> for IssueId {
    fn from(id: &str) -> (r: Self)
        ensures
            r@ == id@,
    {
        IssueId(id.to_owned())
    }
}

impl vstd::std_specs::convert::FromSpecImpl<&str> for IssueId {
    open spec fn obeys_from_spec() -> bool {
        false
    }

    open spec fn from_spec(id: &str) -> Self {
        arbitrary()
    }
}

impl From<u64> for IssueId {
    fn from(number: u64) -> (r: Self)
        ensures
            r@ == text::decimal(number as nat),
    {
        IssueId(text::number(number))
    }
}

impl vstd::std_specs::convert::FromSpecImpl<u64> for IssueId {
    open spec fn obeys_from_spec() -> bool {
        false
    }

    open spec fn from_spec(number: u64) -> Self {
        arbitrary()
    }
}

impl IssueId {
    /// Whether this is the same name.
    pub fn is(&self, other: &IssueId) -> (r: bool)
        ensures
            r == (self@ == other@),
    {
        self.0 == other.0
    }

    /// The name as text.
    pub fn as_str(&self) -> (r: &str)
        ensures
            r@ == self@,
    {
        self.0.as_str()
    }
}

/// The names of a sequence of ids.
pub open spec fn names(ids: Seq<IssueId>) -> Seq<Seq<char>> {
    ids.map_values(|id: IssueId| id@)
}

/// Whether the names stand in the order of strings, none of them twice.
pub open spec fn ascending(names: Seq<Seq<char>>) -> bool {
    forall|i: int, j: int|
        0 <= i < j < names.len() ==> text::before(#[trigger] names[i], #[trigger] names[j])
}

/// The first place in `ids` whose name does not stand before `id`.
fn place(ids: &Vec<IssueId>, id: &IssueId) -> (at: usize)
    requires
        ascending(names(ids@)),
    ensures
        at <= ids@.len(),
        forall|i: int| 0 <= i < at ==> text::before(#[trigger] ids@[i]@, id@),
        forall|i: int| at <= i < ids@.len() ==> !text::before(#[trigger] ids@[i]@, id@),
{
    let mut at: usize = 0;
    while at < ids.len() && text::precedes(ids[at].as_str(), id.as_str())
        invariant
            at <= ids@.len(),
            forall|i: int| 0 <= i < at ==> text::before(#[trigger] ids@[i]@, id@),
        decreases ids@.len() - at,
    {
        at += 1;
    }
    proof {
        assert forall|i: int| at <= i < ids@.len() implies !text::before(
            #[trigger] ids@[i]@,
            id@,
        ) by {
            if i > at && text::before(ids@[i]@, id@) {
                assert(names(ids@)[at as int] == ids@[at as int]@);
                assert(names(ids@)[i] == ids@[i]@);
                text::before_is_transitive(ids@[at as int]@, ids@[i]@, id@);
            }
        }
    }
    at
}

/// Putting a name at its place keeps the order.
proof fn insertion_keeps_the_order(ids: Seq<IssueId>, at: int, id: IssueId)
    requires
        ascending(names(ids)),
        0 <= at <= ids.len(),
        forall|i: int| 0 <= i < at ==> text::before(#[trigger] ids[i]@, id@),
        forall|i: int| at <= i < ids.len() ==> !text::before(#[trigger] ids[i]@, id@),
        forall|i: int| 0 <= i < ids.len() ==> #[trigger] ids[i]@ != id@,
    ensures
        ascending(names(ids.insert(at, id))),
{
    let longer = ids.insert(at, id);
    assert forall|i: int, j: int| 0 <= i < j < longer.len() implies text::before(
        #[trigger] names(longer)[i],
        #[trigger] names(longer)[j],
    ) by {
        if i < at && j < at {
            assert(names(ids)[i] == longer[i]@ && names(ids)[j] == longer[j]@);
        } else if i < at && j > at {
            assert(names(ids)[i] == longer[i]@ && names(ids)[j - 1] == longer[j]@);
        } else if i > at {
            assert(names(ids)[i - 1] == longer[i]@ && names(ids)[j - 1] == longer[j]@);
        } else if i == at {
            assert(longer[j] == ids[j - 1]);
            text::before_is_total(id@, ids[j - 1]@);
        }
    }
}

/// A set of issue names.
#[derive(Debug, Eq, PartialEq)]
pub struct IdSet {
    ids: Vec<IssueId>,
}

impl View for IdSet {
    type V = Set<Seq<char>>;

    closed spec fn view(&self) -> Set<Seq<char>> {
        Set::new(|name: Seq<char>| names(self.ids@).contains(name))
    }
}

impl IdSet {
    /// The names in the order they are kept.
    pub closed spec fn listed(&self) -> Seq<Seq<char>> {
        names(self.ids@)
    }

    /// Whether the names are kept in order, each once.
    pub open spec fn wf(&self) -> bool {
        ascending(self.listed())
    }

    /// The empty set.
    pub fn new() -> (s: Self)
        ensures
            s.wf(),
            s@ == Set::<Seq<char>>::empty(),
            s.listed() == Seq::<Seq<char>>::empty(),
    {
        let s = IdSet { ids: Vec::new() };
        assert(names(s.ids@) =~= Seq::<Seq<char>>::empty());
        assert(s@ =~= Set::<Seq<char>>::empty());
        s
    }

    /// The names listed are the names in the set.
    pub(crate) proof fn listing(&self)
        ensures
            forall|name: Seq<char>| self@.contains(name) <==> self.listed().contains(name),
    {
    }

    /// Whether the set holds `id`.
    pub fn contains(&self, id: &IssueId) -> (r: bool)
        ensures
            r == self@.contains(id@),
    {
        let mut i: usize = 0;
        while i < self.ids.len()
            invariant
                i <= self.ids@.len(),
                forall|k: int| 0 <= k < i ==> #[trigger] self.ids@[k]@ != id@,
            decreases self.ids@.len() - i,
        {
            if self.ids[i].is(id) {
                assert(names(self.ids@)[i as int] == id@);
                return true;
            }
            i += 1;
        }
        proof {
            if names(self.ids@).contains(id@) {
                let k = choose|k: int| 0 <= k < names(self.ids@).len() && names(self.ids@)[k] == id@;
                assert(self.ids@[k]@ == id@);
            }
        }
        false
    }

    /// Puts `id` into the set.
    pub fn insert(&mut self, id: IssueId)
        requires
            old(self).wf(),
        ensures
            final(self).wf(),
            final(self)@ == old(self)@.insert(id@),
            final(self).listed().len() == old(self).listed().len() + (if old(self)@.contains(id@) {
                0int
            } else {
                1int
            }),
    {
        if self.contains(&id) {
            assert(self@ =~= self@.insert(id@));
            return;
        }
        let at: usize = place(&self.ids, &id);
        proof {
            assert forall|i: int| 0 <= i < self.ids@.len() implies #[trigger] self.ids@[i]@
                != id@ by {
                assert(names(self.ids@)[i] == self.ids@[i]@);
            }
            insertion_keeps_the_order(self.ids@, at as int, id);
        }
        let ghost before = self.ids@;
        let ghost given = id;
        self.ids.insert(at, id);
        proof {
            assert forall|name: Seq<char>| names(self.ids@).contains(name) <==> (names(
                before,
            ).contains(name) || name == given@) by {
                if names(self.ids@).contains(name) {
                    let k = choose|k: int|
                        0 <= k < names(self.ids@).len() && names(self.ids@)[k] == name;
                    if k < at {
                        assert(names(before)[k] == name);
                    } else if k > at {
                        assert(names(before)[k - 1] == name);
                    }
                }
                if names(before).contains(name) {
                    let k = choose|k: int| 0 <= k < names(before).len() && names(before)[k] == name;
                    if k < at {
                        assert(names(self.ids@)[k] == name);
                    } else {
                        assert(names(self.ids@)[k + 1] == name);
                    }
                }
                assert(names(self.ids@)[at as int] == given@);
            }
            assert(self@ =~= old(self)@.insert(given@));
        }
    }

    /// How many names the set holds.
    pub fn len(&self) -> (n: usize)
        ensures
            n == self.listed().len(),
    {
        self.ids.len()
    }

    /// The set of the names of `ids`.
    pub fn of(ids: &Vec<IssueId>) -> (s: Self)
        ensures
            s.wf(),
            s@ == names(ids@).to_set(),
    {
        let mut s = IdSet::new();
        let mut i: usize = 0;
        assert(names(ids@).take(0).to_set() =~= Set::<Seq<char>>::empty());
        while i < ids.len()
            invariant
                i <= ids@.len(),
                s.wf(),
                s@ == names(ids@).take(i as int).to_set(),
            decreases ids@.len() - i,
        {
            s.insert(ids[i].clone());
            proof {
                let longer = names(ids@).take(i + 1);
                assert(longer =~= names(ids@).take(i as int).push(ids@[i as int]@));
                assert(longer.to_set() =~= names(ids@).take(i as int).to_set().insert(
                    ids@[i as int]@,
                )) by {
                    assert(longer[i as int] == ids@[i as int]@);
                    assert forall|name: Seq<char>| longer.contains(name) <==> names(ids@).take(
                        i as int,
                    ).contains(name) || name == ids@[i as int]@ by {
                        if names(ids@).take(i as int).contains(name) {
                            let k = choose|k: int|
                                0 <= k < i && names(ids@).take(i as int)[k] == name;
                            assert(longer[k] == name);
                        }
                        if longer.contains(name) {
                            let k = choose|k: int| 0 <= k < longer.len() && longer[k] == name;
                            if k < i {
                                assert(names(ids@).take(i as int)[k] == name);
                            }
                        }
                    }
                }
            }
            i += 1;
        }
        assert(names(ids@).take(ids@.len() as int) =~= names(ids@));
        s
    }
}

/// A map from issue names.
#[derive(Debug, Eq, PartialEq)]
pub struct IdMap<V> {
    ids: Vec<IssueId>,
    values: Vec<V>,
}

impl<V> View for IdMap<V> {
    type V = Map<Seq<char>, V>;

    closed spec fn view(&self) -> Map<Seq<char>, V> {
        Map::new(
            |name: Seq<char>| names(self.ids@).contains(name),
            |name: Seq<char>| self.values@[names(self.ids@).index_of(name)],
        )
    }
}

impl<V> IdMap<V> {
    /// The names in the order they are kept.
    pub closed spec fn listed(&self) -> Seq<Seq<char>> {
        names(self.ids@)
    }

    /// Whether each name has its value, and the names are kept in order.
    pub closed spec fn wf(&self) -> bool {
        ascending(self.listed()) && self.ids@.len() == self.values@.len()
    }

    /// The names listed are the names the map knows, in order.
    pub(crate) proof fn listing(&self)
        requires
            self.wf(),
        ensures
            ascending(self.listed()),
            forall|name: Seq<char>| #[trigger]
                self@.dom().contains(name) <==> self.listed().contains(name),
    {
    }

    /// The empty map.
    pub fn new() -> (m: Self)
        ensures
            m.wf(),
            m@ == Map::<Seq<char>, V>::empty(),
    {
        let m = IdMap { ids: Vec::new(), values: Vec::new() };
        assert(m@ =~= Map::<Seq<char>, V>::empty());
        m
    }

    /// In a map that is in order, the value kept at a place is the value of
    /// the name kept there.
    proof fn at_place(&self, i: int)
        requires
            self.wf(),
            0 <= i < self.ids@.len(),
        ensures
            self@.dom().contains(self.ids@[i]@),
            self@[self.ids@[i]@] == self.values@[i],
    {
        let kept = names(self.ids@);
        assert(kept[i] == self.ids@[i]@);
        let j = kept.index_of(kept[i]);
        assert(kept[j] == kept[i]);
        if i != j {
            text::before_is_irreflexive(kept[i]);
            if i < j {
                assert(text::before(kept[i], kept[j]));
            } else {
                assert(text::before(kept[j], kept[i]));
            }
        }
    }

    /// Where `id` is kept, if it is.
    fn find(&self, id: &IssueId) -> (r: Option<usize>)
        requires
            self.wf(),
        ensures
            match r {
                Some(i) => i < self.ids@.len() && self.ids@[i as int]@ == id@
                    && self@.dom().contains(id@) && self@[id@] == self.values@[i as int],
                None => !self@.dom().contains(id@) && forall|k: int|
                    0 <= k < self.ids@.len() ==> #[trigger] self.ids@[k]@ != id@,
            },
    {
        let mut i: usize = 0;
        while i < self.ids.len()
            invariant
                i <= self.ids@.len(),
                self.wf(),
                forall|k: int| 0 <= k < i ==> #[trigger] self.ids@[k]@ != id@,
            decreases self.ids@.len() - i,
        {
            if self.ids[i].is(id) {
                proof {
                    self.at_place(i as int);
                }
                return Some(i);
            }
            i += 1;
        }
        proof {
            if names(self.ids@).contains(id@) {
                let k = choose|k: int| 0 <= k < names(self.ids@).len() && names(self.ids@)[k] == id@;
                assert(self.ids@[k]@ == id@);
            }
        }
        None
    }

    /// Whether the map knows `id`.
    pub fn contains(&self, id: &IssueId) -> (r: bool)
        requires
            self.wf(),
        ensures
            r == self@.dom().contains(id@),
    {
        self.find(id).is_some()
    }

    /// What the map holds against `id`.
    pub fn get(&self, id: &IssueId) -> (r: Option<&V>)
        requires
            self.wf(),
        ensures
            match r {
                Some(v) => self@.dom().contains(id@) && self@[id@] == *v,
                None => !self@.dom().contains(id@),
            },
    {
        match self.find(id) {
            Some(i) => Some(&self.values[i]),
            None => None,
        }
    }

    /// Holds `value` against `id`, in place of what was there.
    pub fn insert(&mut self, id: IssueId, value: V)
        requires
            old(self).wf(),
        ensures
            final(self).wf(),
            final(self)@ == old(self)@.insert(id@, value),
    {
        let ghost given = id;
        let ghost kept = value;
        match self.find(&id) {
            Some(i) => {
                self.values.set(i, value);
                proof {
                    assert forall|name: Seq<char>| #[trigger]
                        self@.dom().contains(name) implies self@[name] == old(self)@.insert(
                        given@,
                        kept,
                    )[name] by {
                        let k = choose|k: int|
                            0 <= k < names(self.ids@).len() && names(self.ids@)[k] == name;
                        self.at_place(k);
                        old(self).at_place(k);
                        assert(self.ids@[k]@ == name);
                        if name == given@ {
                            self.at_place(i as int);
                        }
                    }
                    assert(self@ =~= old(self)@.insert(given@, kept));
                }
            },
            None => {
                let at: usize = place(&self.ids, &id);
                proof {
                    insertion_keeps_the_order(self.ids@, at as int, id);
                }
                self.ids.insert(at, id);
                self.values.insert(at, value);
                proof {
                    assert(self.wf());
                    assert forall|name: Seq<char>| #[trigger]
                        self@.dom().contains(name) <==> old(self)@.insert(
                            given@,
                            kept,
                        ).dom().contains(name) by {
                        if names(self.ids@).contains(name) {
                            let k = choose|k: int|
                                0 <= k < names(self.ids@).len() && names(self.ids@)[k] == name;
                            if k < at {
                                assert(names(old(self).ids@)[k] == name);
                            } else if k > at {
                                assert(names(old(self).ids@)[k - 1] == name);
                            }
                        }
                        if names(old(self).ids@).contains(name) {
                            let k = choose|k: int|
                                0 <= k < names(old(self).ids@).len() && names(old(self).ids@)[k]
                                    == name;
                            if k < at {
                                assert(names(self.ids@)[k] == name);
                            } else {
                                assert(names(self.ids@)[k + 1] == name);
                            }
                        }
                        assert(names(self.ids@)[at as int] == given@);
                    }
                    assert forall|name: Seq<char>| #[trigger]
                        self@.dom().contains(name) implies self@[name] == old(self)@.insert(
                        given@,
                        kept,
                    )[name] by {
                        let k = choose|k: int|
                            0 <= k < names(self.ids@).len() && names(self.ids@)[k] == name;
                        self.at_place(k);
                        if k < at {
                            old(self).at_place(k);
                        } else if k > at {
                            old(self).at_place(k - 1);
                        }
                    }
                    assert(self@ =~= old(self)@.insert(given@, kept));
                }
            },
        }
    }

    /// How many names the map knows.
    pub fn len(&self) -> (n: usize)
        ensures
            n == self.listed().len(),
    {
        self.ids.len()
    }

    /// The name kept at place `i`, and its value.
    pub fn entry(&self, i: usize) -> (r: (&IssueId, &V))
        requires
            self.wf(),
            i < self.listed().len(),
        ensures
            r.0@ == self.listed()[i as int],
            self@.dom().contains(r.0@),
            *r.1 == self@[r.0@],
    {
        proof {
            self.at_place(i as int);
        }
        (&self.ids[i], &self.values[i])
    }
}

impl<V: Clone> Clone for IdMap<V> {
    fn clone(&self) -> (r: Self)
        ensures
            self.wf() ==> r.wf(),
            r.listed() == self.listed(),
            self.wf() ==> forall|id: Seq<char>| #[trigger]
                self@.dom().contains(id) ==> r@.dom().contains(id) && cloned(self@[id], r@[id]),
    {
        let ids = self.ids.clone();
        let values = self.values.clone();
        let r = IdMap { ids, values };
        proof {
            assert(r.ids@ =~= self.ids@);
            if self.wf() {
                assert(r.wf());
                assert forall|id: Seq<char>| #[trigger]
                    self@.dom().contains(id) implies r@.dom().contains(id) && cloned(
                    self@[id],
                    r@[id],
                ) by {
                    let k = choose|k: int|
                        0 <= k < names(self.ids@).len() && names(self.ids@)[k] == id;
                    self.at_place(k);
                    r.at_place(k);
                }
            }
        }
        r
    }
}

} // verus!
