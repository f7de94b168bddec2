//! Where secrets live: not here.
//!
//! Secrets belong to the OS keyring — Keychain, Credential Manager, secret
//! service — under service [`SERVICE`], as a set of (name, secret) pairs.
//! Names are the callers' to choose; this module attaches no meaning to any
//! of them. Values exist to be *used*, at runtime, and for nothing else:
//! never printed, never logged, never written to a file. [`Secret`] is the
//! type that keeps that promise, and keeps every exception to it greppable.
//!
//! [`KeyStore`] is the seam that keeps each placement an independent
//! decision — and that keeps a test suite out of anybody's keychain.

use crate::ids::{IdMap, IssueId};
use crate::text;
use vstd::prelude::*;

pub mod laws;

verus! {

/// The keyring service every Epik secret is filed under.
pub const SERVICE: &'static str = "Epik";

/// The environment variable that overrides the stored GitHub token.
pub const GITHUB_OVERRIDE_ENV: &'static str = "EPIK_GITHUB_TOKEN";

/// The name the GitHub token is filed against.
pub const GITHUB_ACCOUNT: &'static str = "github";

/// A secret in hand: usable anywhere, visible nowhere.
///
/// The bytes come out through [`expose`](Self::expose) and no other door, so
/// every use of the raw value is greppable. [`debug`](Self::debug) is a
/// redaction and the type has no `Debug` or `Display` at all: a secret
/// cannot wander into an error message, a panic, or a log line just by
/// being formatted along the way.
#[derive(Eq, PartialEq)]
pub struct Secret(String);

/// What a secret is printed as.
pub const REDACTED: &'static str = "[redacted]";

impl Secret {
    /// The bytes.
    pub closed spec fn bytes(&self) -> Seq<char> {
        self.0@
    }

    /// The bytes themselves, for the moment of use — an HTTP header, a
    /// keyring write. Holding the `&str` any longer than that defeats the
    /// wrapper.
    pub fn expose(&self) -> (r: &str)
        ensures
            r@ == self.bytes(),
    {
        self.0.as_str()
    }

    /// The redaction a secret is printed as, whatever it holds.
    pub fn debug(&self) -> (r: String)
        ensures
            r@ == REDACTED@,
    {
        REDACTED.to_owned()
    }
}

impl Clone for Secret {
    fn clone(&self) -> (r: Self)
        ensures
            r == *self,
    {
        Secret(self.0.clone())
    }
}

impl Default for Secret {
    /// An empty secret.
    fn default() -> (r: Self)
        ensures
            r.bytes() == Seq::<char>::empty(),
    {
        Secret(String::new())
    }
}

impl From<String> for Secret {
    fn from(value: String) -> (r: Self)
        ensures
            r.bytes() == value@,
    {
        Secret(value)
    }
}

impl vstd::std_specs::convert::FromSpecImpl<String> for Secret {
    open spec fn obeys_from_spec() -> bool {
        false
    }

    open spec fn from_spec(value: String) -> Self {
        arbitrary()
    }
}

impl From<&str> for Secret {
    fn from(value: &str) -> (r: Self)
        ensures
            r.bytes() == value@,
    {
        Secret(value.to_owned())
    }
}

impl vstd::std_specs::convert::FromSpecImpl<&str> for Secret {
    open spec fn obeys_from_spec() -> bool {
        false
    }

    open spec fn from_spec(value: &str) -> Self {
        arbitrary()
    }
}

/// The bytes of a secret, when there is one.
pub open spec fn bytes_of(secret: Option<Secret>) -> Option<Seq<char>> {
    match secret {
        Some(secret) => Some(secret.bytes()),
        None => None,
    }
}

/// Somewhere a secret can be kept and found again.
pub trait KeyStore {
    /// The secret filed against `name`, or `None` when there is none.
    ///
    /// # Errors
    ///
    /// Words, when the store itself could not be consulted — which is a
    /// different thing from there being no secret.
    fn get(&self, name: &str) -> (r: Result<Option<Secret>, String>);

    /// Files `secret` against `name`, replacing whatever was there.
    ///
    /// # Errors
    ///
    /// Words, when the store would not take it.
    fn set(&mut self, name: &str, secret: Secret) -> (r: Result<(), String>);

    /// Where the secret for `name` stands, with a store that will not answer
    /// reported rather than raised: [`Resolved::of`] what
    /// [`get`](Self::get) answered.
    ///
    /// [`get`](Self::get) makes an unreachable store an error, which is the
    /// right shape for a caller about to need a secret. This is the right
    /// shape for one that only needs to know where it stands — chiefly an
    /// app starting up, which must not fail for want of a keyring. A machine
    /// with no secret service still has plenty to offer; whoever really
    /// needs the secret will say so in their own words soon enough.
    fn resolve(&self, name: &str) -> (r: Resolved)
        ensures
            exists|answer: Result<Option<Secret>, String>| #[trigger]
                call_ensures(Self::get, (self, name), answer) && r == resolved(answer),
    {
        let answer = self.get(name);
        Resolved::of(answer)
    }
}

/// Where resolution got to.
///
/// Three states rather than an `Option`, because "there is no secret" and
/// "there is no way to find out" are different situations and a caller
/// usually wants to treat them differently.
#[derive(Clone, Eq, PartialEq)]
pub enum Resolved {
    /// A secret, from the store.
    Found(Secret),
    /// None, and nothing wrong. The ordinary state of a fresh install.
    Absent,
    /// The store would not answer, so whether a secret exists is unknown.
    /// The reason, for whoever has somewhere to say it.
    Unreachable(String),
}

/// Where a store's answer leaves a caller.
pub open spec fn resolved(answer: Result<Option<Secret>, String>) -> Resolved {
    match answer {
        Ok(Some(secret)) => Resolved::Found(secret),
        Ok(None) => Resolved::Absent,
        Err(words) => Resolved::Unreachable(words),
    }
}

impl Resolved {
    /// Where a store's answer leaves a caller.
    pub fn of(answer: Result<Option<Secret>, String>) -> (r: Self)
        ensures
            r == resolved(answer),
    {
        match answer {
            Ok(Some(secret)) => Resolved::Found(secret),
            Ok(None) => Resolved::Absent,
            Err(words) => Resolved::Unreachable(words),
        }
    }

    /// The secret, if there is one. What a caller about to use it takes.
    pub fn key(self) -> (r: Option<Secret>)
        ensures
            r == (match self {
                Resolved::Found(secret) => Some(secret),
                _ => None,
            }),
    {
        match self {
            Resolved::Found(secret) => Some(secret),
            Resolved::Absent => None,
            Resolved::Unreachable(_) => None,
        }
    }
}

/// A store that lives and dies with the process: what code that wants a
/// [`KeyStore`] is handed where no keyring may be touched.
pub struct InMemory(IdMap<Secret>);

impl InMemory {
    /// What is filed, by name.
    pub closed spec fn filed(&self) -> Map<Seq<char>, Secret> {
        self.0@
    }

    /// The names under which something is filed, in order.
    pub closed spec fn names(&self) -> Seq<Seq<char>> {
        self.0.listed()
    }

    #[verifier::type_invariant]
    closed spec fn sound(&self) -> bool {
        self.0.wf()
    }

    /// The store as it is printed: every name, and no secret.
    pub fn debug(&self) -> (r: String)
        ensures
            r@ == "InMemory({"@ + text::join(
                self.names().map_values(|name: Seq<char>| text::quoted_as(name) + ": "@ + REDACTED@),
                ", "@,
            ) + "})"@,
    {
        proof {
            use_type_invariant(self);
        }
        proof {
            self.0.listing();
        }
        let count: usize = self.0.len();
        let ghost shown = self.names().map_values(
            |name: Seq<char>| text::quoted_as(name) + ": "@ + REDACTED@,
        );
        let mut parts: Vec<String> = Vec::new();
        let mut i: usize = 0;
        while i < count
            invariant
                i <= count == shown.len() == self.0.listed().len(),
                self.0.wf(),
                parts@.len() == i,
                shown == self.names().map_values(
                    |name: Seq<char>| text::quoted_as(name) + ": "@ + REDACTED@,
                ),
                self.names() == self.0.listed(),
                forall|k: int| 0 <= k < i ==> (#[trigger] parts@[k])@ == shown[k],
            decreases count - i,
        {
            let name = self.0.entry(i).0;
            parts.push(text::cat3(text::quoted(name.as_str()).as_str(), ": ", REDACTED));
            i = i + 1;
        }
        proof {
            assert(text::views(parts@) =~= shown);
        }
        let body = text::joined(&parts, ", ");
        text::cat3("InMemory({", body.as_str(), "})")
    }
}

impl Default for InMemory {
    /// A store with nothing in it.
    fn default() -> (r: Self)
        ensures
            r.filed() == Map::<Seq<char>, Secret>::empty(),
    {
        InMemory(IdMap::new())
    }
}

impl KeyStore for InMemory {
    /// Never fails: the secret last filed against `name`.
    fn get(&self, name: &str) -> (r: Result<Option<Secret>, String>)
        ensures
            r == Ok::<Option<Secret>, String>(
                if self.filed().dom().contains(name@) {
                    Some(self.filed()[name@])
                } else {
                    None
                },
            ),
    {
        proof {
            use_type_invariant(self);
        }
        let id = IssueId(name.to_owned());
        match self.0.get(&id) {
            Some(secret) => Ok(Some(secret.clone())),
            None => Ok(None),
        }
    }

    /// Never fails: the secret is filed, and nothing else changes.
    fn set(&mut self, name: &str, secret: Secret) -> (r: Result<(), String>)
        ensures
            r == Ok::<(), String>(()),
            final(self).filed() == old(self).filed().insert(name@, secret),
    {
        proof {
            use_type_invariant(&*self);
        }
        let id = IssueId(name.to_owned());
        let mut map = self.0.clone();
        proof {
            self.0.listing();
            map.listing();
            assert(map@ =~= self.0@);
        }
        map.insert(id, secret);
        *self = InMemory(map);
        Ok(())
    }
}

/// What was stored comes back, and under no other name.
pub proof fn a_stored_secret_comes_back(
    filed: Map<Seq<char>, Secret>,
    name: Seq<char>,
    other: Seq<char>,
    secret: Secret,
)
    ensures
        filed.insert(name, secret).dom().contains(name),
        filed.insert(name, secret)[name] == secret,
        other != name ==> filed.insert(name, secret).dom().contains(other)
            == filed.dom().contains(other),
        other != name && filed.dom().contains(other) ==> filed.insert(name, secret)[other]
            == filed[other],
{
}

} // verus!
