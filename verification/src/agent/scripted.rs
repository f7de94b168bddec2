//! The scripted Agent: a small deterministic child, for tests.
//!
//! An Agent, not a mock of one: it runs through the real runner like any
//! other. Each constructor is one behavior a test wants to observe. The
//! child is always `sh -c "<inline script>"` — inline only, never a
//! written script file: a freshly written script can lose a race between
//! its writer and its reader, and inline sidesteps it entirely.

use crate::agent;
use crate::agent::{Agent, Task};
use crate::keystore::Secret;
use crate::text;
use vstd::prelude::*;

verus! {

/// A deterministic Agent, one behavior per constructor.
pub struct Scripted(Task);

/// Whether a task runs `script` through the shell, at the root.
pub open spec fn runs(task: Task, script: Seq<char>) -> bool {
    &&& text::views(task.argv@) == seq!["sh"@, "-c"@, script]
    &&& task.cwd@ == "/"@
}

impl Scripted {
    /// What the Agent is started with.
    pub closed spec fn played(&self) -> Task {
        self.0
    }

    fn shell(script: String) -> (r: Self)
        ensures
            runs(r.played(), script@),
            r.played().env@ == Seq::<(String, Secret)>::empty(),
            r.played().stdin is None,
    {
        let argv = vec!["sh".to_owned(), "-c".to_owned(), script];
        proof {
            assert(text::views(argv@) =~= seq!["sh"@, "-c"@, script@]);
        }
        Scripted(Task { argv, env: Vec::new(), cwd: "/".to_owned(), stdin: None })
    }

    /// Emits `line 1` through `line N` on stdout, then exits 0.
    pub fn counting(lines: usize) -> (r: Self)
        ensures
            runs(
                r.played(),
                "i=1; while [ \"$i\" -le "@ + text::decimal(lines as nat)
                    + " ]; do echo \"line $i\"; i=$((i+1)); done"@,
            ),
            r.played().env@.len() == 0,
            r.played().stdin is None,
    {
        let count = text::number(lines as u64);
        Self::shell(
            text::cat3(
                "i=1; while [ \"$i\" -le ",
                count.as_str(),
                " ]; do echo \"line $i\"; i=$((i+1)); done",
            ),
        )
    }

    /// Says `it all went wrong` on stderr and exits 3.
    pub fn failing() -> (r: Self)
        ensures
            runs(r.played(), "echo 'it all went wrong' >&2; exit 3"@),
            r.played().env@.len() == 0,
            r.played().stdin is None,
    {
        Self::shell("echo 'it all went wrong' >&2; exit 3".to_owned())
    }

    /// Echoes the environment variable `name`, whose value rides in as a
    /// [`Secret`] — the deliberate exposure the env test observes.
    pub fn env_echo(name: &str, value: Secret) -> (r: Self)
        ensures
            runs(r.played(), "printf '%s\\n' \"$"@ + name@ + "\""@),
            agent::env_view(r.played().env@) == seq![(name@, value.bytes())],
            r.played().stdin is None,
    {
        let mut agent = Self::shell(text::cat3("printf '%s\\n' \"$", name, "\""));
        agent.0.env.push((name.to_owned(), value));
        proof {
            assert(agent::env_view(agent.played().env@) =~= seq![(name@, value.bytes())]);
        }
        agent
    }

    /// Echoes its stdin payload back on stdout.
    pub fn stdin_echo(payload: &str) -> (r: Self)
        ensures
            runs(r.played(), "cat"@),
            r.played().env@.len() == 0,
            text::optional(r.played().stdin) == Some(payload@),
    {
        let mut agent = Self::shell("cat".to_owned());
        agent.0.stdin = Some(payload.to_owned());
        agent
    }

    /// Hangs — a long sleep. The kill test's subject; the odd duration
    /// is a marker the test can scan a process listing for.
    pub fn hanging() -> (r: Self)
        ensures
            runs(r.played(), "sleep 6371"@),
            r.played().env@.len() == 0,
            r.played().stdin is None,
    {
        Self::shell("sleep 6371".to_owned())
    }
}

impl Agent for Scripted {
    fn task(&self) -> (r: Task)
        ensures
            r.argv@ == self.played().argv@,
            r.env@ == self.played().env@,
            r.cwd == self.played().cwd,
            r.stdin == self.played().stdin,
    {
        self.0.clone()
    }
}

} // verus!
