//! What must stand before a run may start.
//!
//! A run is preflighted against a manifest and refused with a structured
//! [`CapabilityStatus`] naming the capability and the locations searched —
//! before a worktree exists. Refusals are vocabulary, never log prose.
//!
//! The manifest has layers with different owners. Epik's own layer is git
//! and nothing else: found on `PATH`, held to a version floor, and on macOS
//! vouched for by `xcode-select -p` — never by spawning Apple's shim, which
//! answers with an install dialog. The per-agent layer is whatever binaries
//! the configured wrapper declares, resolved explicitly — the configured
//! spelling, `PATH` as fallback — rather than left to spawn-time mechanism,
//! because launchd's `PATH` is not a login shell's. The keystore layer is
//! the GitHub token on its rails. Two layers are deliberately absent: the
//! target repository's toolchain is the user's responsibility, and provider
//! reachability is the wrapped agent's own affair — the CLI carries its
//! own login.

use crate::keystore::{KeyStore, Secret, GITHUB_ACCOUNT, GITHUB_OVERRIDE_ENV, SERVICE};
use crate::text;
use vstd::prelude::*;

pub mod laws;

verus! {

/// A capability the manifest resolves, named by the layer that owns it.
#[derive(Clone, Debug, Eq, PartialEq)]
pub enum Capability {
    /// Epik's own layer: the one binary the harness itself spawns.
    Git,
    /// The per-agent layer: a binary the configured wrapper declared, in
    /// the wrapper's own spelling.
    Agent { binary: String },
    /// The keystore layer: the GitHub token, on its rails.
    GithubToken,
}

/// Where a capability stands. Three states: absent and unfit are
/// different situations, and a refusal should say which it is in.
#[derive(Clone, Debug, Eq, PartialEq)]
pub enum Standing {
    /// Found and adequate, at the location named.
    Present { at: String },
    /// Nowhere to be found: every location searched, named.
    Absent { searched: Vec<String> },
    /// Found — or reached for — but no use: a git beneath the version
    /// floor, a shim with nothing behind it, a keyring that will not
    /// answer.
    Unfit { at: String, reason: String },
}

/// A [`Standing`] over sequences.
pub enum StandingView {
    Present { at: Seq<char> },
    Absent { searched: Seq<Seq<char>> },
    Unfit { at: Seq<char>, reason: Seq<char> },
}

impl View for Standing {
    type V = StandingView;

    open spec fn view(&self) -> StandingView {
        match self {
            Standing::Present { at } => StandingView::Present { at: at@ },
            Standing::Absent { searched } => StandingView::Absent {
                searched: text::views(searched@),
            },
            Standing::Unfit { at, reason } => StandingView::Unfit { at: at@, reason: reason@ },
        }
    }
}

/// One capability's resolved standing: what a preflight refusal is made of,
/// and what a health endpoint will serve.
#[derive(Clone, Debug, Eq, PartialEq)]
pub struct CapabilityStatus {
    pub capability: Capability,
    pub standing: Standing,
}

impl Capability {
    /// The capability in words.
    pub open spec fn words(&self) -> Seq<char> {
        match self {
            Capability::Git => "git"@,
            Capability::Agent { binary } => "the agent's "@ + binary@,
            Capability::GithubToken => "the GitHub token"@,
        }
    }

    /// The capability in words.
    pub fn to_string(&self) -> (r: String)
        ensures
            r@ == self.words(),
    {
        match self {
            Capability::Git => "git".to_owned(),
            Capability::Agent { binary } => text::cat2("the agent's ", binary.as_str()),
            Capability::GithubToken => "the GitHub token".to_owned(),
        }
    }
}

impl CapabilityStatus {
    /// The status in words.
    pub open spec fn words(&self) -> Seq<char> {
        match self.standing@ {
            StandingView::Present { at } => self.capability.words() + " at "@ + at,
            StandingView::Absent { searched } => if searched.len() == 0 {
                self.capability.words() + " is absent, with nowhere to search"@
            } else {
                self.capability.words() + " is absent: searched "@ + text::join(searched, ", "@)
            },
            StandingView::Unfit { at, reason } => self.capability.words() + " at "@ + at
                + " is unfit: "@ + reason,
        }
    }

    /// The status in words.
    pub fn to_string(&self) -> (r: String)
        ensures
            r@ == self.words(),
    {
        let capability = self.capability.to_string();
        match &self.standing {
            Standing::Present { at } => text::cat3(capability.as_str(), " at ", at.as_str()),
            Standing::Absent { searched } => {
                proof {
                    assert(text::views(searched@).len() == searched@.len());
                }
                if searched.len() == 0 {
                    text::cat2(capability.as_str(), " is absent, with nowhere to search")
                } else {
                    let listed = text::joined(searched, ", ");
                    text::cat3(capability.as_str(), " is absent: searched ", listed.as_str())
                }
            },
            Standing::Unfit { at, reason } => text::cat5(
                capability.as_str(),
                " at ",
                at.as_str(),
                " is unfit: ",
                reason.as_str(),
            ),
        }
    }

    /// Whether the capability is there.
    pub open spec fn stands(&self) -> bool {
        self.standing is Present
    }
}

/// The version floor git is held to. A platform statement rather than a
/// feature inventory — every verb the harness spawns long predates it, and
/// the oldest supported platforms all clear it — so raising it is a
/// decision, never an accident.
pub const FLOOR: (u32, u32) = (2, 30);

// ----- one layer -----

/// The refusals of a layer, in order.
pub open spec fn refusals(layer: Seq<CapabilityStatus>) -> Seq<CapabilityStatus> {
    layer.filter(|status: CapabilityStatus| !status.stands())
}

/// One layer, held to: every capability in it must be present, and the
/// refusals of a layer that cannot stand are the whole answer.
///
/// # Errors
///
/// Every refusal of the layer.
pub fn held(layer: Vec<CapabilityStatus>) -> (r: Result<(), Vec<CapabilityStatus>>)
    ensures
        match r {
            Ok(_) => refusals(layer@).len() == 0,
            Err(refused) => refused@ == refusals(layer@) && refused@.len() > 0,
        },
{
    let ghost all = layer@;
    let ghost wanted = |status: CapabilityStatus| !status.stands();
    let mut rest = layer;
    let mut refused: Vec<CapabilityStatus> = Vec::new();
    let n: usize = rest.len();
    let mut i: usize = 0;
    proof {
        reveal(Seq::filter);
        assert(all.skip(0) =~= all);
        assert(all.take(0) =~= Seq::empty());
    }
    while i < n
        invariant
            i <= n == all.len(),
            rest@ == all.skip(i as int),
            wanted == |status: CapabilityStatus| !status.stands(),
            refused@ == all.take(i as int).filter(wanted),
        decreases n - i,
    {
        let status = rest.remove(0);
        proof {
            reveal(Seq::filter);
            assert(status == all[i as int]);
            assert(rest@ =~= all.skip(i + 1));
            assert(all.take(i + 1).drop_last() =~= all.take(i as int));
            assert(all.take(i + 1).last() == all[i as int]);
        }
        let absent = match &status.standing {
            Standing::Present { .. } => false,
            _ => true,
        };
        if absent {
            refused.push(status);
        }
        i = i + 1;
    }
    proof {
        assert(all.take(i as int) =~= all);
    }
    if refused.len() == 0 {
        Ok(())
    } else {
        Err(refused)
    }
}

// ----- the hunt -----

/// The parts of a text between the places where `c` stands.
pub open spec fn parts(s: Seq<char>, c: char) -> Seq<Seq<char>>
    decreases s.len(),
{
    let at = text::first_of(s, c) as int;
    if 0 <= at < s.len() {
        seq![s.take(at)] + parts(s.skip(at + 1), c)
    } else {
        seq![s]
    }
}

/// The directories a `PATH` lists: an empty component never degrades the
/// hunt to the working directory.
pub open spec fn directories(path: Seq<char>) -> Seq<Seq<char>> {
    parts(path, ':').filter(|dir: Seq<char>| dir.len() > 0)
}

/// A spelling without the slashes, and the slashes with a dot after them,
/// that it ends with.
pub open spec fn bared(spelling: Seq<char>) -> Seq<char>
    decreases spelling.len(),
{
    let n = spelling.len();
    if n > 0 && spelling.last() == '/' {
        bared(spelling.drop_last())
    } else if n > 1 && spelling.last() == '.' && spelling[n - 2] == '/' {
        bared(spelling.take(n - 2))
    } else {
        spelling
    }
}

/// Whether a spelling is an explicit path: it names a directory, not only
/// what is in one.
pub open spec fn is_explicit(spelling: Seq<char>) -> bool {
    bared(spelling).contains('/')
}

/// Where a name stands in a directory.
pub open spec fn within(dir: Seq<char>, name: Seq<char>) -> Seq<char> {
    if name.len() > 0 && name[0] == '/' {
        name
    } else if dir.len() > 0 && dir.last() == '/' {
        dir + name
    } else {
        dir + "/"@ + name
    }
}

/// Every place a spelling could be: an explicit path answers for itself, a
/// bare name is hunted down `PATH`.
pub open spec fn candidates_of(spelling: Seq<char>, path: Seq<char>) -> Seq<Seq<char>> {
    if is_explicit(spelling) {
        seq![spelling]
    } else {
        directories(path).map_values(|dir: Seq<char>| within(dir, spelling))
    }
}

/// Where a hunt got to: the places searched in vain, and the place found.
pub struct HuntView {
    pub searched: Seq<Seq<char>>,
    pub found: Option<Seq<char>>,
}

/// The hunt through the candidates: it stops where it finds, and a
/// fruitless one names every stop. An explicit spelling is the whole
/// search, found or not.
pub open spec fn hunted(
    candidates: Seq<Seq<char>>,
    runnable: Seq<bool>,
    explicit: bool,
) -> HuntView {
    if exists|i: int| 0 <= i < candidates.len() && i < runnable.len() && #[trigger] runnable[i] {
        let at = first_true(runnable) as int;
        HuntView {
            searched: if explicit {
                candidates
            } else {
                candidates.take(at)
            },
            found: Some(candidates[at]),
        }
    } else {
        HuntView { searched: candidates, found: None }
    }
}

/// Where the first true stands.
pub open spec fn first_true(flags: Seq<bool>) -> nat
    decreases flags.len(),
{
    if flags.len() == 0 || flags[0] {
        0
    } else {
        1 + first_true(flags.skip(1))
    }
}

fn split(s: &str, c: char) -> (r: Vec<String>)
    ensures
        text::views(r@) == parts(s@, c),
{
    let chars: Vec<char> = text::chars_of(s);
    let n: usize = chars.len();
    let mut found: Vec<String> = Vec::new();
    let mut from: usize = 0;
    proof {
        assert(chars@.skip(0) =~= s@);
        assert(text::views(found@) + parts(s@, c) =~= parts(s@, c));
    }
    loop
        invariant
            from <= n == chars@.len(),
            chars@ == s@,
            parts(s@, c) == text::views(found@) + parts(chars@.skip(from as int), c),
        decreases n - from,
    {
        let ghost rest = chars@.skip(from as int);
        let ghost before = text::views(found@);
        let at: usize = text::index_of(&chars, from, c);
        let part = text::string_of(&chars, from, at);
        let ghost shown = part@;
        found.push(part);
        proof {
            assert(text::views(found@) =~= before.push(shown));
            assert(shown =~= rest.take(at - from));
        }
        if at >= n {
            proof {
                assert(shown =~= rest);
                assert(before + seq![shown] =~= text::views(found@));
            }
            return found;
        }
        proof {
            assert(rest.skip(at - from + 1) =~= chars@.skip(at + 1));
            assert(before + (seq![shown] + parts(chars@.skip(at + 1), c)) =~= text::views(found@)
                + parts(chars@.skip(at + 1), c));
        }
        from = at + 1;
    }
}

fn listed(path: &str) -> (r: Vec<String>)
    ensures
        text::views(r@) == directories(path@),
{
    let all = split(path, ':');
    let ghost view = parts(path@, ':');
    let ghost wanted = |dir: Seq<char>| dir.len() > 0;
    let mut kept: Vec<String> = Vec::new();
    let mut i: usize = 0;
    proof {
        reveal(Seq::filter);
        assert(view.take(0) =~= Seq::empty());
        assert(text::views(kept@) =~= Seq::empty());
    }
    while i < all.len()
        invariant
            i <= all@.len() == view.len(),
            text::views(all@) == view,
            wanted == |dir: Seq<char>| dir.len() > 0,
            text::views(kept@) == view.take(i as int).filter(wanted),
        decreases all@.len() - i,
    {
        proof {
            reveal(Seq::filter);
            assert(view[i as int] == all@[i as int]@);
            assert(view.take(i + 1).drop_last() =~= view.take(i as int));
            assert(view.take(i + 1).last() == view[i as int]);
        }
        let ghost before = text::views(kept@);
        if !text::is_empty(all[i].as_str()) {
            kept.push(all[i].clone());
            proof {
                assert(text::views(kept@) =~= before.push(all@[i as int]@));
            }
        }
        i = i + 1;
    }
    proof {
        assert(view.take(i as int) =~= view);
    }
    kept
}

/// Whether a spelling is an explicit path: a path answers for itself, a
/// bare name is hunted down `PATH`.
pub fn explicit(spelling: &str) -> (r: bool)
    ensures
        r == is_explicit(spelling@),
{
    let chars: Vec<char> = text::chars_of(spelling);
    let mut end: usize = chars.len();
    proof {
        assert(chars@.take(end as int) =~= spelling@);
    }
    loop
        invariant
            end <= chars@.len(),
            chars@ == spelling@,
            bared(spelling@) == bared(chars@.take(end as int)),
        ensures
            end <= chars@.len(),
            bared(spelling@) == chars@.take(end as int),
        decreases end,
    {
        let ghost now = chars@.take(end as int);
        if end > 0 && chars[end - 1] == '/' {
            proof {
                assert(now.drop_last() =~= chars@.take(end - 1));
            }
            end = end - 1;
        } else if end > 1 && chars[end - 1] == '.' && chars[end - 2] == '/' {
            proof {
                assert(now.take(end - 2) =~= chars@.take(end - 2));
            }
            end = end - 2;
        } else {
            break;
        }
    }
    let ghost left = chars@.take(end as int);
    let mut i: usize = 0;
    while i < end
        invariant
            i <= end <= chars@.len(),
            left == chars@.take(end as int),
            left == bared(spelling@),
            forall|k: int| 0 <= k < i ==> chars@[k] != '/',
        decreases end - i,
    {
        if chars[i] == '/' {
            proof {
                assert(left[i as int] == '/');
            }
            return true;
        }
        i = i + 1;
    }
    proof {
        assert forall|k: int| 0 <= k < left.len() implies left[k] != '/' by {
            assert(left[k] == chars@[k]);
        }
    }
    false
}

/// Where a name stands in a directory.
pub fn join(dir: &str, name: &str) -> (r: String)
    ensures
        r@ == within(dir@, name@),
{
    let spelled: Vec<char> = text::chars_of(name);
    if spelled.len() > 0 && spelled[0] == '/' {
        return name.to_owned();
    }
    let chars: Vec<char> = text::chars_of(dir);
    let n: usize = chars.len();
    if n > 0 && chars[n - 1] == '/' {
        text::cat2(dir, name)
    } else {
        text::cat3(dir, "/", name)
    }
}

/// Every place a spelling could be: an explicit path answers for itself, a
/// bare name is hunted down `path`, the text of `PATH`.
pub fn candidates(spelling: &str, path: &str) -> (r: Vec<String>)
    ensures
        text::views(r@) == candidates_of(spelling@, path@),
{
    if explicit(spelling) {
        let r = vec![spelling.to_owned()];
        proof {
            assert(text::views(r@) =~= seq![spelling@]);
        }
        return r;
    }
    let dirs = listed(path);
    let ghost shown = directories(path@).map_values(|dir: Seq<char>| within(dir, spelling@));
    let mut r: Vec<String> = Vec::new();
    let mut i: usize = 0;
    while i < dirs.len()
        invariant
            i <= dirs@.len() == shown.len(),
            text::views(dirs@) == directories(path@),
            r@.len() == i,
            forall|k: int|
                0 <= k < dirs@.len() ==> #[trigger] shown[k] == within(
                    directories(path@)[k],
                    spelling@,
                ),
            forall|k: int| 0 <= k < i ==> (#[trigger] r@[k])@ == shown[k],
        decreases dirs@.len() - i,
    {
        proof {
            assert(text::views(dirs@)[i as int] == dirs@[i as int]@);
        }
        r.push(join(dirs[i].as_str(), spelling));
        i = i + 1;
    }
    proof {
        assert(text::views(r@) =~= shown);
    }
    r
}

/// The first true stands where the first true stands.
proof fn first_true_stands(flags: Seq<bool>, at: int)
    requires
        0 <= at < flags.len(),
        flags[at],
        forall|k: int| 0 <= k < at ==> !flags[k],
    ensures
        first_true(flags) == at,
    decreases flags.len(),
{
    if at > 0 {
        assert(!flags[0]);
        assert forall|k: int| 0 <= k < at - 1 implies !flags.skip(1)[k] by {
            assert(flags.skip(1)[k] == flags[k + 1]);
        }
        first_true_stands(flags.skip(1), at - 1);
    }
}

/// Where a hunt got to, of the places `runnable` says a file could be
/// spawned at: the places searched in vain, so a refusal can name them, and
/// the place found.
pub fn hunt(candidates: &Vec<String>, runnable: &Vec<bool>, explicit: bool) -> (r: (
    Vec<String>,
    Option<String>,
))
    requires
        runnable@.len() == candidates@.len(),
    ensures
        text::views(r.0@) == hunted(text::views(candidates@), runnable@, explicit).searched,
        text::optional(r.1) == hunted(text::views(candidates@), runnable@, explicit).found,
{
    let ghost view = text::views(candidates@);
    let mut searched: Vec<String> = Vec::new();
    let mut i: usize = 0;
    proof {
        assert(text::views(searched@) =~= view.take(0));
    }
    while i < candidates.len() && !runnable[i]
        invariant
            i <= candidates@.len() == view.len() == runnable@.len(),
            view == text::views(candidates@),
            text::views(searched@) == view.take(i as int),
            forall|k: int| 0 <= k < i ==> !runnable@[k],
        decreases candidates@.len() - i,
    {
        let ghost before = text::views(searched@);
        searched.push(candidates[i].clone());
        proof {
            assert(text::views(searched@) =~= before.push(view[i as int]));
            assert(text::views(searched@) =~= view.take(i + 1));
        }
        i = i + 1;
    }
    if i < candidates.len() {
        let found = candidates[i].clone();
        proof {
            assert(runnable@[i as int]);
            first_true_stands(runnable@, i as int);
        }
        if explicit {
            let mut j: usize = i;
            while j < candidates.len()
                invariant
                    i <= j <= candidates@.len() == view.len(),
                    view == text::views(candidates@),
                    text::views(searched@) == view.take(j as int),
                decreases candidates@.len() - j,
            {
                let ghost before = text::views(searched@);
                searched.push(candidates[j].clone());
                proof {
                    assert(text::views(searched@) =~= before.push(view[j as int]));
                    assert(text::views(searched@) =~= view.take(j + 1));
                }
                j = j + 1;
            }
            proof {
                assert(view.take(j as int) =~= view);
            }
        }
        (searched, Some(found))
    } else {
        proof {
            assert(view.take(i as int) =~= view);
        }
        (searched, None)
    }
}

/// The per-agent layer, one binary at a time: the wrapper's declared
/// spelling, and where the hunt for it got to.
pub fn binary(spelling: &str, searched: Vec<String>, found: Option<String>) -> (r: CapabilityStatus)
    ensures
        r.capability is Agent,
        r.capability->binary@ == spelling@,
        r.standing@ == (match found {
            Some(at) => StandingView::Present { at: at@ },
            None => StandingView::Absent { searched: text::views(searched@) },
        }),
{
    CapabilityStatus {
        capability: Capability::Agent { binary: spelling.to_owned() },
        standing: match found {
            Some(at) => Standing::Present { at },
            None => Standing::Absent { searched },
        },
    }
}

/// Apple's shim, with nothing behind it: never spawned on spec, because it
/// answers with the install dialog.
pub fn shimmed(at: &str) -> (r: Standing)
    ensures
        r@ == (StandingView::Unfit {
            at: at@,
            reason:
                "Apple's shim with no developer tools behind it — `xcode-select -p` names none, and spawning the shim would pop the install dialog"@,
        }),
{
    Standing::Unfit {
        at: at.to_owned(),
        reason:
            "Apple's shim with no developer tools behind it — `xcode-select -p` names none, and spawning the shim would pop the install dialog".to_owned(),
    }
}

// ----- git's version -----

/// How many digits a text begins with.
pub open spec fn leading_digits(s: Seq<char>) -> nat
    decreases s.len(),
{
    if s.len() > 0 && text::is_digit(s[0]) {
        1 + leading_digits(s.skip(1))
    } else {
        0
    }
}

/// The major and minor of a `git --version` line, Apple flavors and all: the
/// digits right after `git version `, and the digits after the one
/// character that follows them.
pub open spec fn version_of(said: Seq<char>) -> Option<(nat, nat)> {
    match text::after_prefix(said, "git version "@) {
        None => None,
        Some(rest) => {
            let at = leading_digits(rest) as int;
            if at >= rest.len() {
                None
            } else {
                let after = rest.skip(at + 1);
                let major = text::parse(rest.take(at), u32::MAX as nat);
                let minor = text::parse(after.take(leading_digits(after) as int), u32::MAX as nat);
                if major is Some && minor is Some {
                    Some((major->0, minor->0))
                } else {
                    None
                }
            }
        },
    }
}

fn digits_from(chars: &Vec<char>, from: usize) -> (end: usize)
    requires
        from <= chars@.len(),
    ensures
        from <= end <= chars@.len(),
        end == from + leading_digits(chars@.skip(from as int)),
{
    let ghost rest = chars@.skip(from as int);
    let mut end: usize = from;
    proof {
        assert(rest.skip(0) =~= rest);
    }
    while end < chars.len() && text::is_ascii_digit(chars[end])
        invariant
            from <= end <= chars@.len(),
            rest == chars@.skip(from as int),
            leading_digits(rest) == (end - from) + leading_digits(rest.skip(end - from)),
        decreases chars@.len() - end,
    {
        proof {
            assert(rest.skip(end - from)[0] == chars@[end as int]);
            assert(rest.skip(end - from).skip(1) =~= rest.skip(end - from + 1));
        }
        end = end + 1;
    }
    proof {
        if end < chars@.len() {
            assert(rest.skip(end - from)[0] == chars@[end as int]);
        } else {
            assert(rest.skip(end - from) =~= Seq::empty());
        }
    }
    end
}

/// The major and minor of a `git --version` line, Apple flavors and all.
pub fn version(said: &str) -> (r: Option<(u32, u32)>)
    ensures
        match r {
            Some((major, minor)) => version_of(said@) == Some((major as nat, minor as nat)),
            None => version_of(said@) is None,
        },
{
    let rest = match text::strip_prefix(said, "git version ") {
        Some(rest) => rest,
        None => return None,
    };
    let chars: Vec<char> = text::chars_of(rest.as_str());
    let at: usize = digits_from(&chars, 0);
    proof {
        assert(chars@.skip(0) =~= rest@);
    }
    if at >= chars.len() {
        return None;
    }
    let end: usize = digits_from(&chars, at + 1);
    let first = text::string_of(&chars, 0, at);
    let second = text::string_of(&chars, at + 1, end);
    proof {
        assert(first@ =~= rest@.take(at as int));
        assert(second@ =~= rest@.skip(at + 1).take(end - (at + 1)));
    }
    match (
        text::parse_number(first.as_str(), u32::MAX as u64),
        text::parse_number(second.as_str(), u32::MAX as u64),
    ) {
        (Some(major), Some(minor)) => {
            proof {
                text::parsed_within(first@, u32::MAX as nat);
                text::parsed_within(second@, u32::MAX as nat);
            }
            Some((major as u32, minor as u32))
        },
        _ => None,
    }
}

/// Whether a version is beneath the floor.
pub open spec fn beneath(major: nat, minor: nat) -> bool {
    major < FLOOR.0 || (major == FLOOR.0 && minor < FLOOR.1)
}

/// Where a git stands that was asked its version: `said` is what it said,
/// or why it would not start.
pub open spec fn versioned_as(at: Seq<char>, said: Result<Seq<char>, Seq<char>>) -> StandingView {
    match said {
        Err(error) => StandingView::Unfit { at, reason: "would not start: "@ + error },
        Ok(said) => match version_of(said) {
            None => StandingView::Unfit {
                at,
                reason: "did not name its version: "@ + text::quoted_as(text::trimmed(said)),
            },
            Some((major, minor)) => if beneath(major, minor) {
                StandingView::Unfit {
                    at,
                    reason: "version "@ + text::decimal(major) + "."@ + text::decimal(minor)
                        + " is beneath the floor "@ + text::decimal(FLOOR.0 as nat) + "."@
                        + text::decimal(FLOOR.1 as nat),
                }
            } else {
                StandingView::Present { at }
            },
        },
    }
}

/// The texts of what a git said.
pub open spec fn said_view(said: Result<String, String>) -> Result<Seq<char>, Seq<char>> {
    match said {
        Ok(said) => Ok(said@),
        Err(error) => Err(error@),
    }
}

/// Holds the git already vouched for to the floor.
pub fn versioned(at: &str, said: &Result<String, String>) -> (r: Standing)
    ensures
        r@ == versioned_as(at@, said_view(*said)),
{
    let said = match said {
        Ok(said) => said,
        Err(error) => return Standing::Unfit {
            at: at.to_owned(),
            reason: text::cat2("would not start: ", error.as_str()),
        },
    };
    match version(said.as_str()) {
        None => {
            let trimmed = text::trim(said.as_str());
            let quoted = text::quoted(trimmed.as_str());
            Standing::Unfit {
                at: at.to_owned(),
                reason: text::cat2("did not name its version: ", quoted.as_str()),
            }
        },
        Some((major, minor)) => if major < FLOOR.0 || (major == FLOOR.0 && minor < FLOOR.1) {
            let major = text::number(major as u64);
            let minor = text::number(minor as u64);
            let front = text::cat4("version ", major.as_str(), ".", minor.as_str());
            let floor_major = text::number(FLOOR.0 as u64);
            let floor_minor = text::number(FLOOR.1 as u64);
            Standing::Unfit {
                at: at.to_owned(),
                reason: text::cat5(
                    front.as_str(),
                    " is beneath the floor ",
                    floor_major.as_str(),
                    ".",
                    floor_minor.as_str(),
                ),
            }
        } else {
            Standing::Present { at: at.to_owned() }
        },
    }
}

/// Epik's own layer: git on `PATH`, above the floor. `standing` is where
/// the git stands that was found; there is none where the hunt was
/// fruitless.
pub fn git(searched: Vec<String>, standing: Option<Standing>) -> (r: CapabilityStatus)
    ensures
        r.capability is Git,
        r.standing@ == (match standing {
            Some(standing) => standing@,
            None => StandingView::Absent { searched: text::views(searched@) },
        }),
{
    CapabilityStatus {
        capability: Capability::Git,
        standing: match standing {
            Some(standing) => standing,
            None => Standing::Absent { searched },
        },
    }
}

// ----- the token -----

/// Where the environment is looked at.
pub open spec fn env_stop() -> Seq<char> {
    "$"@ + GITHUB_OVERRIDE_ENV@
}

/// Where the keyring is looked at.
pub open spec fn keyring_stop() -> Seq<char> {
    "the "@ + SERVICE@ + "/"@ + GITHUB_ACCOUNT@ + " keyring entry"@
}

/// Where the token stands, and the token itself when it is in hand: the
/// environment first, then the keyring. An empty one is no token.
pub open spec fn token_standing(
    token_override: Option<Secret>,
    answer: Result<Option<Secret>, String>,
) -> (StandingView, Option<Secret>) {
    if token_override is Some && (token_override->0).bytes().len() > 0 {
        (StandingView::Present { at: env_stop() }, token_override)
    } else {
        match answer {
            Ok(Some(token)) => if token.bytes().len() > 0 {
                (StandingView::Present { at: keyring_stop() }, Some(token))
            } else {
                (StandingView::Absent { searched: seq![env_stop(), keyring_stop()] }, None)
            },
            Ok(None) => (
                StandingView::Absent { searched: seq![env_stop(), keyring_stop()] },
                None,
            ),
            Err(error) => (StandingView::Unfit { at: keyring_stop(), reason: error@ }, None),
        }
    }
}

/// Law: a token that is in hand says something, and is handed over exactly
/// where the capability is present.
pub proof fn a_token_in_hand_says_something(
    token_override: Option<Secret>,
    answer: Result<Option<Secret>, String>,
)
    ensures
        ({
            let (standing, token) = token_standing(token_override, answer);
            &&& standing is Present <==> token is Some
            &&& token is Some ==> (token->0).bytes().len() > 0
        }),
{
}

fn is_filled(token: &Secret) -> (r: bool)
    ensures
        r == (token.bytes().len() > 0),
{
    !text::is_empty(token.expose())
}

/// Where the GitHub token stands by what the rails answered, and the token
/// itself when it is in hand.
pub fn token_status(
    token_override: Option<Secret>,
    answer: Result<Option<Secret>, String>,
) -> (r: (CapabilityStatus, Option<Secret>))
    ensures
        r.0.capability is GithubToken,
        (r.0.standing@, r.1) == token_standing(token_override, answer),
{
    let env_stop = text::cat2("$", GITHUB_OVERRIDE_ENV);
    let keyring = text::cat5("the ", SERVICE, "/", GITHUB_ACCOUNT, " keyring entry");
    match token_override {
        Some(token) => if is_filled(&token) {
            return (
                CapabilityStatus {
                    capability: Capability::GithubToken,
                    standing: Standing::Present { at: env_stop },
                },
                Some(token),
            );
        },
        None => {},
    }
    match answer {
        Ok(Some(token)) => if is_filled(&token) {
            return (
                CapabilityStatus {
                    capability: Capability::GithubToken,
                    standing: Standing::Present { at: keyring },
                },
                Some(token),
            );
        },
        Ok(None) => {},
        Err(error) => return (
            CapabilityStatus {
                capability: Capability::GithubToken,
                standing: Standing::Unfit { at: keyring, reason: error },
            },
            None,
        ),
    }
    let searched = vec![env_stop, keyring];
    proof {
        assert(text::views(searched@) =~= seq![self::env_stop(), keyring_stop()]);
    }
    (
        CapabilityStatus {
            capability: Capability::GithubToken,
            standing: Standing::Absent { searched },
        },
        None,
    )
}

/// Where the GitHub token stands, and the token itself when it is in hand.
///
/// The keystore rails — `$EPIK_GITHUB_TOKEN`, then the keyring — walked
/// stop by stop, so a refusal can name where it looked. The store is
/// asked only where the environment does not answer: on macOS a keyring
/// read can be a permission dialog.
pub fn github_token<S: KeyStore>(token_override: Option<Secret>, store: &S) -> (r: (
    CapabilityStatus,
    Option<Secret>,
))
    ensures
        r.0.capability is GithubToken,
        exists|answer: Result<Option<Secret>, String>|
            (r.0.standing@, r.1) == #[trigger] token_standing(token_override, answer) && ((
            token_override is Some && (token_override->0).bytes().len() > 0) || answered_by(
                store,
                answer,
            )),
{
    let in_hand = match &token_override {
        Some(token) => is_filled(token),
        None => false,
    };
    if in_hand {
        let r = token_status(token_override, Ok(None));
        proof {
            let none = Ok::<Option<Secret>, String>(None);
            assert((r.0.standing@, r.1) == token_standing(token_override, none));
        }
        return r;
    }
    let answer = store.get(GITHUB_ACCOUNT);
    let ghost given = answer;
    let r = token_status(token_override, answer);
    proof {
        assert(call_ensures(S::get, (store, GITHUB_ACCOUNT), given));
        assert(answered_by(store, given));
        assert((r.0.standing@, r.1) == token_standing(token_override, given));
    }
    r
}

/// Whether a store could answer this for the token.
pub open spec fn answered_by<S: KeyStore>(
    store: &S,
    answer: Result<Option<Secret>, String>,
) -> bool {
    exists|name: &str| name@ == GITHUB_ACCOUNT@ && #[trigger] call_ensures(S::get, (store, name), answer)
}

/// Resolves the manifest, layer by layer: Epik's own git, the agent's
/// declared binaries, the GitHub token.
///
/// `Ok` is the token in hand — a passed preflight leaves the caller
/// provisioned, and the one keystore read serves check and credential both.
///
/// # Errors
///
/// Every refusal in the first layer that could not stand. Later layers go
/// unconsulted — a preflight already refusing has no business popping a
/// keyring dialog.
pub fn manifest<S: KeyStore>(
    own: Vec<CapabilityStatus>,
    agents: Vec<CapabilityStatus>,
    token_override: Option<Secret>,
    store: &S,
) -> (r: Result<Secret, Vec<CapabilityStatus>>)
    ensures
        refusals(own@).len() > 0 ==> r is Err && r->Err_0@ == refusals(own@),
        refusals(own@).len() == 0 && refusals(agents@).len() > 0 ==> r is Err && r->Err_0@
            == refusals(agents@),
        refusals(own@).len() == 0 && refusals(agents@).len() == 0 ==> exists|
            answer: Result<Option<Secret>, String>,
        |
            ((token_override is Some && (token_override->0).bytes().len() > 0) || answered_by(
                store,
                answer,
            )) && passed(r, #[trigger] token_standing(token_override, answer)),
{
    match held(own) {
        Err(refused) => return Err(refused),
        Ok(_) => {},
    }
    match held(agents) {
        Err(refused) => return Err(refused),
        Ok(_) => {},
    }
    let (status, token) = github_token(token_override, store);
    match token {
        Some(token) => Ok(token),
        None => {
            let refused = vec![status];
            Err(refused)
        },
    }
}

/// Whether a manifest came to what the token's standing makes of it: the
/// token in hand, or its one refusal.
pub open spec fn passed(
    r: Result<Secret, Vec<CapabilityStatus>>,
    token: (StandingView, Option<Secret>),
) -> bool {
    match r {
        Ok(secret) => token.1 == Some(secret),
        Err(refused) => {
            &&& token.1 is None
            &&& refused@.len() == 1
            &&& refused@[0].capability is GithubToken
            &&& refused@[0].standing@ == token.0
        },
    }
}

} // verus!
