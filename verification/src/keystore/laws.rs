//! What holds of every secret and of every store that is asked for one.

use crate::keystore::{InMemory, KeyStore, Resolved, Secret};
use vstd::prelude::*;

verus! {

/// Law: a secret exposes the bytes it was made of, and is printed as the
/// same redaction whatever they are.
pub proof fn a_secret_is_printed_redacted(
    one: &Secret,
    other: &Secret,
    exposed: &str,
    a: String,
    b: String,
)
    requires
        call_ensures(Secret::expose, (one,), exposed),
        call_ensures(Secret::debug, (one,), a),
        call_ensures(Secret::debug, (other,), b),
    ensures
        exposed@ == one.bytes(),
        a@ == "[redacted]"@,
        a@ == b@,
{
}

/// Law: a key is found just where the store answers with one, and is that
/// one; a store that could not be asked is not one without the key.
pub proof fn a_key_is_the_one_in_the_store(
    answer: Result<Option<Secret>, String>,
    r: Resolved,
    key: Option<Secret>,
)
    requires
        call_ensures(Resolved::of, (answer,), r),
        call_ensures(Resolved::key, (r,), key),
    ensures
        r is Found <==> answer is Ok && answer->Ok_0 is Some,
        r is Absent <==> answer is Ok && answer->Ok_0 is None,
        r is Unreachable <==> answer is Err,
        r is Unreachable ==> r->Unreachable_0@ == answer->Err_0@,
        key is Some <==> answer is Ok && answer->Ok_0 is Some,
        key is Some ==> (key->0).bytes() == (answer->Ok_0->0).bytes(),
{
}

/// Law: a store in memory resolves a name just where it was filed, to the
/// secret that is filed under it.
pub proof fn a_store_in_memory_resolves_what_is_filed(store: &InMemory, name: &str, r: Resolved)
    requires
        call_ensures(InMemory::resolve, (store, name), r),
    ensures
        r is Found <==> store.filed().dom().contains(name@),
        r is Found ==> r->Found_0 == store.filed()[name@],
        !(r is Found) ==> r is Absent,
{
}

} // verus!
