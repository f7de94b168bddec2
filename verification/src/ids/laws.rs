//! What holds of every set of names and of everything kept by name.

use crate::ids;
use crate::ids::{IdMap, IdSet, IssueId};
use vstd::prelude::*;

verus! {

/// Law: two ids are the same just when they are spelled alike.
pub proof fn an_id_is_its_spelling(one: &IssueId, other: &IssueId, r: bool, spelled: &str)
    requires
        call_ensures(IssueId::is, (one, other), r),
        call_ensures(IssueId::as_str, (one,), spelled),
    ensures
        r <==> one.0@ == other.0@,
        spelled@ == one.0@,
{
}

/// Law: a set holds what was put into it, and what it held before, and
/// nothing else.
pub proof fn a_set_holds_what_was_put_into_it(
    set: &mut IdSet,
    id: IssueId,
    other: Seq<char>,
    fresh: IdSet,
)
    requires
        call_ensures(IdSet::insert, (set, id), ()),
        call_ensures(IdSet::new, (), fresh),
    ensures
        final(set)@.contains(id@),
        other != id@ ==> (final(set)@.contains(other) <==> old(set)@.contains(other)),
        !fresh@.contains(other),
{
}

/// Law: a name is in a set just where the set says so, and a set made of
/// ids holds those and no others.
pub proof fn a_set_is_of_its_ids(
    set: &IdSet,
    id: &IssueId,
    r: bool,
    given: &Vec<IssueId>,
    made: IdSet,
)
    requires
        call_ensures(IdSet::contains, (set, id), r),
        call_ensures(IdSet::of, (given,), made),
    ensures
        r <==> set@.contains(id@),
        made@.contains(id@) <==> exists|i: int|
            0 <= i < given@.len() && (#[trigger] given@[i])@ == id@,
{
    let names = ids::names(given@);
    if names.to_set().contains(id@) {
        let i = choose|i: int| 0 <= i < names.len() && names[i] == id@;
        assert(given@[i]@ == id@);
    }
    if exists|i: int| 0 <= i < given@.len() && (#[trigger] given@[i])@ == id@ {
        let i = choose|i: int| 0 <= i < given@.len() && (#[trigger] given@[i])@ == id@;
        assert(names[i] == id@);
        assert(names.contains(id@));
    }
}

/// Law: what is put under a name is what is found there, and every other
/// name keeps what it had.
pub proof fn what_is_put_under_a_name_is_found_there<V>(
    map: &mut IdMap<V>,
    id: IssueId,
    value: V,
    other: Seq<char>,
)
    requires
        old(map).wf(),
        call_ensures(IdMap::<V>::insert, (map, id, value), ()),
        other != id@,
    ensures
        final(map)@.dom().contains(id@),
        final(map)@[id@] == value,
        final(map)@.dom().contains(other) <==> old(map)@.dom().contains(other),
        old(map)@.dom().contains(other) ==> final(map)@[other] == old(map)@[other],
{
}

/// Law: a name is found just where something is kept under it, and what is
/// found is that.
pub proof fn what_is_found_is_what_is_kept<V>(map: &IdMap<V>, id: &IssueId, r: Option<&V>)
    requires
        map.wf(),
        call_ensures(IdMap::<V>::get, (map, id), r),
    ensures
        r is Some <==> map@.dom().contains(id@),
        r is Some ==> *(r->0) == map@[id@],
{
}

} // verus!
