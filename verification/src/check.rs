//! Green is whatever the repository says green is.
//!
//! A [`Check`] holds the one command a repository judges itself by. The
//! host runs it in the feature workspace through `sh -c` — real check
//! commands are pipelines — and [`judged`] reads how it came out; Epik has
//! no opinion about what the command is. A shell here is not the weak
//! link: a coding Agent with permissions skipped is already running in
//! that same worktree.
//!
//! [`detect`] is a fixed table over markers in the worktree, and it
//! only proposes: detection prefills, it does not decide, and the
//! command in force is the one it is handed. A repository matching no
//! marker proposes nothing, and skipping the check is a first-class
//! answer taken elsewhere — the build then runs on observation alone
//! and says so.

use crate::json;
use crate::json::{Json, JsonView};
use crate::text;
use vstd::prelude::*;

pub mod laws;

verus! {

/// A repository's own idea of green: a command, judged by its exit code.
#[derive(Clone, Debug, Eq, PartialEq)]
pub struct Check {
    pub command: String,
}

/// What one run of the check said: green or not, and the command's own
/// words — stdout and stderr both — for the record when it is not.
#[derive(Clone, Debug, Eq, PartialEq)]
pub struct Verdict {
    pub green: bool,
    pub output: String,
}

/// How far a run of the check got.
pub enum Ran {
    /// The shell could not be started, for this reason.
    Unstarted(String),
    /// The command could not be waited for, for this reason.
    Unwaited(String),
    /// The command ended: whether it exited zero, and what it said.
    Ended { success: bool, stdout: String, stderr: String },
}

/// Two streams as one transcript: stdout first, then stderr, on a line of
/// its own.
pub open spec fn transcript(stdout: Seq<char>, stderr: Seq<char>) -> Seq<char> {
    if stdout.len() > 0 && stderr.len() > 0 {
        stdout + "\n"@ + stderr
    } else {
        stdout + stderr
    }
}

/// Two streams as one transcript.
pub fn joined(stdout: &str, stderr: &str) -> (r: String)
    ensures
        r@ == transcript(stdout@, stderr@),
{
    if !text::is_empty(stdout) && !text::is_empty(stderr) {
        text::cat3(stdout, "\n", stderr)
    } else {
        text::cat2(stdout, stderr)
    }
}

/// Judges a run of the check by its exit. A shell that cannot be started,
/// or a command killed by a signal, is nobody's green; the verdict says
/// why in words.
pub fn judged(ran: Ran) -> (r: Verdict)
    ensures
        match ran {
            Ran::Unstarted(error) => !r.green && r.output@ == "could not run the check: "@
                + error@,
            Ran::Unwaited(error) => !r.green && r.output@ == "could not wait for the check: "@
                + error@,
            Ran::Ended { success, stdout, stderr } => r.green == success && r.output@ == transcript(
                stdout@,
                stderr@,
            ),
        },
{
    match ran {
        Ran::Unstarted(error) => Verdict {
            green: false,
            output: text::cat2("could not run the check: ", error.as_str()),
        },
        Ran::Unwaited(error) => Verdict {
            green: false,
            output: text::cat2("could not wait for the check: ", error.as_str()),
        },
        Ran::Ended { success, stdout, stderr } => Verdict {
            green: success,
            output: joined(stdout.as_str(), stderr.as_str()),
        },
    }
}

/// What a worktree holds at its root of what the table looks for: the
/// text of a file, or that it is there.
#[derive(Clone, Debug, Eq, PartialEq)]
pub struct Markers {
    /// The text of `package.json`.
    pub package_json: Option<String>,
    pub go_mod: bool,
    pub pyproject_toml: bool,
    pub pom_xml: bool,
    /// The text of `Makefile`.
    pub makefile: Option<String>,
    pub cargo_toml: bool,
}

/// Whether a manifest's `scripts.test` is a string.
pub open spec fn names_a_test(manifest: JsonView) -> bool {
    match manifest.get("scripts"@) {
        Some(scripts) => scripts.text_at("test"@) is Some,
        None => false,
    }
}

/// Whether a `package.json` is a manifest that names a test.
pub open spec fn is_npm(package: Seq<char>) -> bool {
    match json::read_as(package) {
        Ok(manifest) => names_a_test(manifest),
        Err(_) => false,
    }
}

/// Whether a line begins the target `test`: `test`, then its colon — and
/// not `:=`, which would be a variable wearing the name.
pub open spec fn is_target(line: Seq<char>) -> bool {
    match text::after_prefix(line, "test"@) {
        Some(rest) => {
            let rest = text::trim_start(rest);
            rest.len() > 0 && rest[0] == ':' && !(rest.len() > 1 && rest[1] == '=')
        },
        None => false,
    }
}

/// Whether a `Makefile` has a `test` target.
pub open spec fn is_make(makefile: Seq<char>) -> bool {
    exists|i: int|
        0 <= i < text::lines(makefile).len() && #[trigger] is_target(text::lines(makefile)[i])
}

/// The command the table proposes: the first marker that names a check.
pub open spec fn proposed(markers: Markers) -> Option<Seq<char>> {
    if markers.package_json is Some && is_npm(markers.package_json->0@) {
        Some("npm test"@)
    } else if markers.go_mod {
        Some("go test ./..."@)
    } else if markers.pyproject_toml {
        Some("python -m pytest"@)
    } else if markers.pom_xml {
        Some("mvn test"@)
    } else if markers.makefile is Some && is_make(markers.makefile->0@) {
        Some("make test"@)
    } else if markers.cargo_toml {
        Some("cargo test"@)
    } else {
        None
    }
}

/// The detection table: the first marker that names a check proposes its
/// command; a worktree matching none proposes nothing. A proposal,
/// always — the command in force is the one the build is handed.
pub fn detect(markers: &Markers) -> (r: Option<Check>)
    ensures
        match r {
            Some(check) => proposed(*markers) == Some(check.command@),
            None => proposed(*markers) is None,
        },
{
    let npm = match &markers.package_json {
        Some(text) => npm_test(text.as_str()),
        None => false,
    };
    let make = match &markers.makefile {
        Some(text) => make_test(text.as_str()),
        None => false,
    };
    let command = if npm {
        "npm test"
    } else if markers.go_mod {
        "go test ./..."
    } else if markers.pyproject_toml {
        "python -m pytest"
    } else if markers.pom_xml {
        "mvn test"
    } else if make {
        "make test"
    } else if markers.cargo_toml {
        "cargo test"
    } else {
        return None;
    };
    Some(Check { command: command.to_owned() })
}

/// Whether a manifest's `scripts.test` is a string — the marker for
/// `npm test`.
pub fn manifest_names_a_test(manifest: &Json) -> (r: bool)
    ensures
        r == names_a_test(manifest@),
{
    match manifest.get("scripts") {
        Some(scripts) => scripts.text_at("test").is_some(),
        None => false,
    }
}

/// A `package.json` whose `scripts.test` is a string. A manifest without
/// one falls through to the next arm.
pub fn npm_test(package: &str) -> (r: bool)
    ensures
        r == is_npm(package@),
{
    match json::read(package) {
        Ok(manifest) => manifest_names_a_test(&manifest),
        Err(_) => false,
    }
}

/// Whether a line begins the target `test`.
fn begins_target(line: &str) -> (r: bool)
    ensures
        r == is_target(line@),
{
    match text::strip_prefix(line, "test") {
        Some(rest) => {
            let rest = text::trim_front(rest.as_str());
            let chars: Vec<char> = text::chars_of(rest.as_str());
            chars.len() > 0 && chars[0] == ':' && !(chars.len() > 1 && chars[1] == '=')
        },
        None => false,
    }
}

/// A `Makefile` with a `test` target.
pub fn make_test(makefile: &str) -> (r: bool)
    ensures
        r == is_make(makefile@),
{
    let lines = text::lines_of(makefile);
    let ghost all = text::lines(makefile@);
    let mut i: usize = 0;
    while i < lines.len()
        invariant
            i <= lines@.len(),
            all == text::lines(makefile@),
            text::views(lines@) == all,
            forall|k: int| 0 <= k < i ==> !is_target(#[trigger] all[k]),
        decreases lines@.len() - i,
    {
        proof {
            assert(text::views(lines@)[i as int] == lines@[i as int]@);
        }
        if begins_target(lines[i].as_str()) {
            proof {
                assert(is_target(text::lines(makefile@)[i as int]));
            }
            return true;
        }
        i = i + 1;
    }
    proof {
        assert forall|k: int| 0 <= k < all.len() implies !is_target(#[trigger] all[k]) by {
            assert(text::views(lines@).len() == lines@.len());
        }
    }
    false
}

} // verus!
