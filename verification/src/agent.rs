//! Agents: separate processes that do work and stream what they say.
//!
//! Nomenclature, project-wide: any process Epik launches to do work is
//! an *Agent*, whatever it does — a test fixture counting to three is an
//! Agent the same as a coding engine implementing an issue. An Agent says
//! what it says as [`Line`]s, one per line, and ends in an [`Exit`].
//! Output flows out only: there is no channel into a running Agent; what
//! it needs to know goes in its arguments, its environment, its standard
//! input and its working directory — its [`Task`]. An Agent may be given
//! a deadline, past which it is killed and said to be.
//!
//! The process itself is the host's: it spawns, pumps both pipes and
//! kills. What a line is, what an exit means, when a wait is over, and
//! what a finished process said are decided here.

use crate::check;
use crate::keystore;
use crate::keystore::Secret;
use crate::text;
use vstd::prelude::*;

pub mod claude_code;
pub mod coding;
pub mod coding_laws;
pub mod conformance;
pub mod conformance_laws;
pub mod laws;
pub mod process_laws;
pub mod scripted;

pub use crate::agent::coding::AgentEvent;

verus! {

/// How an Agent ended: an exit code, or the signal that took it.
#[derive(Clone, Copy, Debug, Eq, PartialEq, Structural)]
pub enum Exit {
    /// The Agent exited on its own, with this code.
    Code(i32),
    /// A signal took the Agent.
    Signal(i32),
}

impl Exit {
    /// Exit code zero: the one end a process calls success.
    pub fn success(self) -> (r: bool)
        ensures
            r == (self == Exit::Code(0)),
    {
        match self {
            Exit::Code(code) => code == 0,
            Exit::Signal(_) => false,
        }
    }

    /// How a process ended: the signal that took it, else its code.
    ///
    /// # Errors
    ///
    /// Words that quote the `status`, where it has neither.
    pub fn of(signal: Option<i32>, code: Option<i32>, status: &str) -> (r: Result<Exit, String>)
        ensures
            match r {
                Ok(exit) => match (signal, code) {
                    (Some(signal), _) => exit == Exit::Signal(signal),
                    (None, Some(code)) => exit == Exit::Code(code),
                    (None, None) => false,
                },
                Err(words) => signal is None && code is None && words@
                    == "the process ended neither by exit code nor by signal: "@ + status@,
            },
    {
        match signal {
            Some(signal) => Ok(Exit::Signal(signal)),
            None => match code {
                Some(code) => Ok(Exit::Code(code)),
                None => Err(
                    text::cat2("the process ended neither by exit code nor by signal: ", status),
                ),
            },
        }
    }
}

/// One line an Agent said, in the order said, without its newline — nor
/// a carriage return before it.
#[derive(Clone, Debug, Eq, PartialEq)]
pub enum Line {
    /// One line of the Agent's stdout.
    Stdout(String),
    /// One line of the Agent's stderr.
    Stderr(String),
}

/// A process run to its end: how it ended, and everything it said —
/// stdout first, then stderr, each in order, lines joined by newlines.
#[derive(Clone, Debug, Eq, PartialEq)]
pub struct Finished {
    pub exit: Exit,
    pub output: String,
}

/// The lines of stdout, in order.
pub open spec fn stdout_of(lines: Seq<Line>) -> Seq<Seq<char>>
    decreases lines.len(),
{
    if lines.len() == 0 {
        Seq::empty()
    } else {
        match lines.last() {
            Line::Stdout(line) => stdout_of(lines.drop_last()).push(line@),
            Line::Stderr(_) => stdout_of(lines.drop_last()),
        }
    }
}

/// The lines of stderr, in order.
pub open spec fn stderr_of(lines: Seq<Line>) -> Seq<Seq<char>>
    decreases lines.len(),
{
    if lines.len() == 0 {
        Seq::empty()
    } else {
        match lines.last() {
            Line::Stdout(_) => stderr_of(lines.drop_last()),
            Line::Stderr(line) => stderr_of(lines.drop_last()).push(line@),
        }
    }
}

/// What a process said: its stdout, then its stderr — which starts on a
/// line of its own where stdout said anything and there are lines of
/// stderr, empty as they may be.
pub open spec fn said(lines: Seq<Line>) -> Seq<char> {
    let stdout = text::join(stdout_of(lines), "\n"@);
    let stderr = text::join(stderr_of(lines), "\n"@);
    if stdout.len() > 0 && stderr_of(lines).len() > 0 {
        stdout + "\n"@ + stderr
    } else {
        stdout + stderr
    }
}

impl Finished {
    /// A process that ended in `exit` and said `lines`, as one
    /// transcript.
    pub fn of(exit: Exit, lines: &Vec<Line>) -> (r: Self)
        ensures
            r.exit == exit,
            r.output@ == said(lines@),
    {
        let mut stdout: Vec<String> = Vec::new();
        let mut stderr: Vec<String> = Vec::new();
        let mut i: usize = 0;
        proof {
            assert(text::views(stdout@) =~= Seq::empty());
            assert(text::views(stderr@) =~= Seq::empty());
        }
        while i < lines.len()
            invariant
                i <= lines@.len(),
                text::views(stdout@) == stdout_of(lines@.take(i as int)),
                text::views(stderr@) == stderr_of(lines@.take(i as int)),
            decreases lines@.len() - i,
        {
            proof {
                assert(lines@.take(i + 1).drop_last() =~= lines@.take(i as int));
                assert(lines@.take(i + 1).last() == lines@[i as int]);
            }
            let ghost out = text::views(stdout@);
            let ghost err = text::views(stderr@);
            match &lines[i] {
                Line::Stdout(line) => {
                    stdout.push(line.clone());
                    proof {
                        assert(text::views(stdout@) =~= out.push(line@));
                    }
                },
                Line::Stderr(line) => {
                    stderr.push(line.clone());
                    proof {
                        assert(text::views(stderr@) =~= err.push(line@));
                    }
                },
            }
            i = i + 1;
        }
        proof {
            assert(lines@.take(i as int) =~= lines@);
            assert(text::views(stderr@).len() == stderr@.len());
        }
        let first = text::joined(&stdout, "\n");
        let second = text::joined(&stderr, "\n");
        let output = if !text::is_empty(first.as_str()) && stderr.len() > 0 {
            text::cat3(first.as_str(), "\n", second.as_str())
        } else {
            text::cat2(first.as_str(), second.as_str())
        };
        Finished { exit, output }
    }
}

/// What a host waiting for a process under a deadline does next.
#[derive(Clone, Copy, Debug, Eq, PartialEq, Structural)]
pub enum Wait {
    /// The process ended, or has no deadline: join the pumps and reap it.
    Reap,
    /// The deadline passed with the process still running: kill it, with
    /// its group.
    Kill,
    /// Look again in a moment.
    Sleep,
}

/// What waiting comes to: `ended` is whether the process has, `now` and
/// `deadline` are readings of one clock.
pub fn wait(ended: bool, now: u64, deadline: Option<u64>) -> (r: Wait)
    ensures
        r == (match deadline {
            Some(deadline) => if ended {
                Wait::Reap
            } else if now >= deadline {
                Wait::Kill
            } else {
                Wait::Sleep
            },
            None => Wait::Reap,
        }),
{
    match deadline {
        Some(deadline) => if ended {
            Wait::Reap
        } else if now >= deadline {
            Wait::Kill
        } else {
            Wait::Sleep
        },
        None => Wait::Reap,
    }
}

/// What `from_utf8_lossy` makes of bytes.
pub uninterp spec fn lossy_as(bytes: Seq<u8>) -> Seq<char>;

/// `String::from_utf8_lossy`: the bytes as text, with a replacement
/// character for what is not UTF-8. What it gives is what [`lossy_as`]
/// names.
#[verifier::external_body]
fn lossy(bytes: &Vec<u8>) -> (r: String)
    ensures
        r@ == lossy_as(bytes@),
{
    String::from_utf8_lossy(bytes).into_owned()
}

/// The bytes of a line, without the newline that ends it and without a
/// carriage return before that, or at the end.
pub open spec fn line_bytes(bytes: Seq<u8>) -> Seq<u8> {
    let bytes = if bytes.len() > 0 && bytes.last() == 10 {
        bytes.drop_last()
    } else {
        bytes
    };
    if bytes.len() > 0 && bytes.last() == 13 {
        bytes.drop_last()
    } else {
        bytes
    }
}

/// One line's bytes as text: the newline, and a carriage return before
/// it, dropped; anything that is not UTF-8 replaced. A line is decoded on
/// its own, so bytes that are not UTF-8 come through as replacement
/// characters rather than failing the stream.
pub fn decode(bytes: &Vec<u8>) -> (r: String)
    ensures
        r@ == lossy_as(line_bytes(bytes@)),
{
    let kept = stripped(bytes);
    lossy(&kept)
}

/// The bytes of a line.
pub fn stripped(bytes: &Vec<u8>) -> (r: Vec<u8>)
    ensures
        r@ == line_bytes(bytes@),
{
    let mut end: usize = bytes.len();
    if end > 0 && bytes[end - 1] == 10 {
        end = end - 1;
    }
    proof {
        let cut = if bytes@.len() > 0 && bytes@.last() == 10 {
            bytes@.drop_last()
        } else {
            bytes@
        };
        assert(cut =~= bytes@.take(end as int));
    }
    if end > 0 && bytes[end - 1] == 13 {
        end = end - 1;
    }
    let mut kept: Vec<u8> = Vec::new();
    let mut i: usize = 0;
    while i < end
        invariant
            i <= end <= bytes@.len(),
            kept@ == bytes@.take(i as int),
        decreases end - i,
    {
        kept.push(bytes[i]);
        proof {
            assert(kept@ =~= bytes@.take(i + 1));
        }
        i = i + 1;
    }
    proof {
        assert(kept@ =~= line_bytes(bytes@));
    }
    kept
}

/// Everything a process is started with: the program and its arguments,
/// what is added to its environment, where it runs, and what it reads on
/// stdin.
#[derive(Eq, PartialEq)]
pub struct Task {
    pub argv: Vec<String>,
    pub env: Vec<(String, Secret)>,
    pub cwd: String,
    pub stdin: Option<String>,
}

/// The names and bytes of an environment.
pub open spec fn env_view(env: Seq<(String, Secret)>) -> Seq<(Seq<char>, Seq<char>)> {
    env.map_values(|pair: (String, Secret)| (pair.0@, pair.1.bytes()))
}

/// How an environment is printed: every name, and no value.
pub open spec fn env_shown(env: Seq<(Seq<char>, Seq<char>)>) -> Seq<char> {
    "["@ + text::join(
        env.map_values(
            |pair: (Seq<char>, Seq<char>)|
                "("@ + text::quoted_as(pair.0) + ", "@ + keystore::REDACTED@ + ")"@,
        ),
        ", "@,
    ) + "]"@
}

/// Law: what an environment prints depends on its names and on no secret
/// in it.
pub proof fn an_environment_prints_no_secret(
    a: Seq<(Seq<char>, Seq<char>)>,
    b: Seq<(Seq<char>, Seq<char>)>,
)
    requires
        a.len() == b.len(),
        forall|i: int| 0 <= i < a.len() ==> (#[trigger] a[i]).0 == b[i].0,
    ensures
        env_shown(a) == env_shown(b),
{
    let shown = |pair: (Seq<char>, Seq<char>)|
        "("@ + text::quoted_as(pair.0) + ", "@ + keystore::REDACTED@ + ")"@;
    assert forall|i: int| 0 <= i < a.len() implies a.map_values(shown)[i] == b.map_values(
        shown,
    )[i] by {
        assert(a[i].0 == b[i].0);
    }
    assert(a.map_values(shown) =~= b.map_values(shown));
}

/// How a row of texts is printed.
pub open spec fn list_shown(texts: Seq<Seq<char>>) -> Seq<char> {
    "["@ + text::join(texts.map_values(|s: Seq<char>| text::quoted_as(s)), ", "@) + "]"@
}

/// How an optional text is printed.
pub open spec fn optional_shown(text: Option<Seq<char>>) -> Seq<char> {
    match text {
        Some(text) => "Some("@ + text::quoted_as(text) + ")"@,
        None => "None"@,
    }
}

/// A row of texts, printed.
pub(crate) fn show_list(texts: &Vec<String>) -> (r: String)
    ensures
        r@ == list_shown(text::views(texts@)),
{
    let ghost shown = text::views(texts@).map_values(|s: Seq<char>| text::quoted_as(s));
    let mut parts: Vec<String> = Vec::new();
    let mut i: usize = 0;
    while i < texts.len()
        invariant
            i <= texts@.len() == shown.len(),
            parts@.len() == i,
            forall|k: int|
                0 <= k < texts@.len() ==> #[trigger] shown[k] == text::quoted_as(texts@[k]@),
            forall|k: int| 0 <= k < i ==> (#[trigger] parts@[k])@ == shown[k],
        decreases texts@.len() - i,
    {
        parts.push(text::quoted(texts[i].as_str()));
        i = i + 1;
    }
    proof {
        assert(text::views(parts@) =~= shown);
    }
    let body = text::joined(&parts, ", ");
    text::cat3("[", body.as_str(), "]")
}

/// An optional text, printed.
pub(crate) fn show_optional(text: &Option<String>) -> (r: String)
    ensures
        r@ == optional_shown(text::optional(*text)),
{
    match text {
        Some(text) => {
            let quoted = text::quoted(text.as_str());
            text::cat3("Some(", quoted.as_str(), ")")
        },
        None => "None".to_owned(),
    }
}

/// An environment, printed.
fn show_env(env: &Vec<(String, Secret)>) -> (r: String)
    ensures
        r@ == env_shown(env_view(env@)),
{
    let ghost shown = env_view(env@).map_values(
        |pair: (Seq<char>, Seq<char>)|
            "("@ + text::quoted_as(pair.0) + ", "@ + keystore::REDACTED@ + ")"@,
    );
    let mut parts: Vec<String> = Vec::new();
    let mut i: usize = 0;
    while i < env.len()
        invariant
            i <= env@.len() == shown.len(),
            parts@.len() == i,
            forall|k: int|
                0 <= k < env@.len() ==> #[trigger] shown[k] == "("@ + text::quoted_as(env@[k].0@)
                    + ", "@ + keystore::REDACTED@ + ")"@,
            forall|k: int| 0 <= k < i ==> (#[trigger] parts@[k])@ == shown[k],
        decreases env@.len() - i,
    {
        let name = text::quoted(env[i].0.as_str());
        let hidden = env[i].1.debug();
        parts.push(text::cat5("(", name.as_str(), ", ", hidden.as_str(), ")"));
        i = i + 1;
    }
    proof {
        assert(text::views(parts@) =~= shown);
    }
    let body = text::joined(&parts, ", ");
    text::cat3("[", body.as_str(), "]")
}

impl Task {
    /// The task as it is printed: no value of its environment is.
    pub fn debug(&self) -> (r: String)
        ensures
            r@ == "Task { argv: "@ + list_shown(text::views(self.argv@)) + ", env: "@ + env_shown(
                env_view(self.env@),
            ) + ", cwd: "@ + text::quoted_as(self.cwd@) + ", stdin: "@ + optional_shown(
                text::optional(self.stdin),
            ) + " }"@,
    {
        let argv = show_list(&self.argv);
        let env = show_env(&self.env);
        let cwd = text::quoted(self.cwd.as_str());
        let stdin = show_optional(&self.stdin);
        let front = text::cat5("Task { argv: ", argv.as_str(), ", env: ", env.as_str(), ", cwd: ");
        text::cat5(front.as_str(), cwd.as_str(), ", stdin: ", stdin.as_str(), " }")
    }
}

impl Clone for Task {
    fn clone(&self) -> (r: Self)
        ensures
            r.argv@ == self.argv@,
            r.env@ == self.env@,
            r.cwd == self.cwd,
            r.stdin == self.stdin,
    {
        let argv = self.argv.clone();
        let mut env: Vec<(String, Secret)> = Vec::new();
        let mut i: usize = 0;
        while i < self.env.len()
            invariant
                i <= self.env@.len(),
                env@ == self.env@.take(i as int),
            decreases self.env@.len() - i,
        {
            env.push((self.env[i].0.clone(), self.env[i].1.clone()));
            proof {
                assert(env@ =~= self.env@.take(i + 1));
            }
            i = i + 1;
        }
        proof {
            assert(argv@ =~= self.argv@);
            assert(env@ =~= self.env@);
        }
        Task { argv, env, cwd: self.cwd.clone(), stdin: self.stdin.clone() }
    }
}

/// A process to run, as data.
pub trait Agent {
    /// What the process is started with.
    fn task(&self) -> (r: Task);
}

/// The words for a process killed at its deadline.
pub fn killed(program: &str, allowed: &str) -> (r: String)
    ensures
        r@ == program@ + " was killed after "@ + allowed@ + " without finishing"@,
{
    text::cat4(program, " was killed after ", allowed, " without finishing")
}

/// The program of a command line, and its arguments.
///
/// # Errors
///
/// A command line that names no program.
pub fn program(argv: &Vec<String>) -> (r: Result<String, String>)
    ensures
        match r {
            Ok(program) => argv@.len() > 0 && program@ == argv@[0]@,
            Err(words) => argv@.len() == 0 && words@ == "no program to run"@,
        },
{
    if argv.len() > 0 {
        Ok(argv[0].clone())
    } else {
        Err("no program to run".to_owned())
    }
}

/// A child run to completion under a deadline: whether it exited zero, and
/// its own words.
///
/// # Errors
///
/// The child was killed at its deadline, in words naming `name`.
pub fn child_finished(
    name: &str,
    ended: Option<bool>,
    stdout: &str,
    stderr: &str,
    seconds: u64,
) -> (r: Result<(bool, String), String>)
    ensures
        match r {
            Ok((success, output)) => ended == Some(success) && output@ == check::transcript(
                stdout@,
                stderr@,
            ),
            Err(words) => ended is None && words@ == name@ + " was killed after "@ + text::decimal(
                seconds as nat,
            ) + " seconds"@ + " without finishing"@,
        },
{
    match ended {
        Some(success) => Ok((success, check::joined(stdout, stderr))),
        None => {
            let count = text::number(seconds);
            let front = text::cat4(name, " was killed after ", count.as_str(), " seconds");
            Err(text::cat2(front.as_str(), " without finishing"))
        },
    }
}

} // verus!
