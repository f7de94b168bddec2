//! What holds of every process that is run.

use crate::agent;
use crate::agent::scripted::Scripted;
use crate::agent::{Agent, Task};
use crate::keystore::Secret;
use crate::text;
use vstd::prelude::*;

verus! {

/// Law: a command line runs its first word, and one without a word runs
/// nothing.
pub proof fn a_command_line_runs_its_first_word(argv: &Vec<String>, r: Result<String, String>)
    requires
        call_ensures(agent::program, (argv,), r),
    ensures
        r is Ok <==> argv@.len() > 0,
        r is Ok ==> r->Ok_0@ == argv@[0]@,
{
}

/// Law: a process that is killed is told by its name and by how long it was
/// given.
pub proof fn a_killed_process_is_told_by_name(program: &str, allowed: &str, r: String)
    requires
        call_ensures(agent::killed, (program, allowed), r),
    ensures
        r@ == program@ + " was killed after "@ + allowed@ + " without finishing"@,
{
}

/// Law: a child that ended is told as it ended, with its stdout and then
/// its stderr; one that did not was killed, and its name and its time are
/// told.
pub proof fn a_child_is_told_as_it_ended(
    name: &str,
    ended: Option<bool>,
    stdout: &str,
    stderr: &str,
    seconds: u64,
    r: Result<(bool, String), String>,
)
    requires
        call_ensures(agent::child_finished, (name, ended, stdout, stderr, seconds), r),
    ensures
        r is Ok <==> ended is Some,
        r is Ok ==> Some((r->Ok_0).0) == ended,
        r is Ok && stderr@.len() == 0 ==> (r->Ok_0).1@ == stdout@,
        r is Ok && stdout@.len() == 0 ==> (r->Ok_0).1@ == stderr@,
        r is Ok && stdout@.len() > 0 && stderr@.len() > 0 ==> (r->Ok_0).1@ == stdout@ + "\n"@
            + stderr@,
        r is Err ==> r->Err_0@ == name@ + " was killed after "@ + text::decimal(seconds as nat)
            + " seconds"@ + " without finishing"@,
{
    assert(stdout@.len() == 0 ==> stdout@ + stderr@ =~= stderr@);
    assert(stderr@.len() == 0 ==> stdout@ + stderr@ =~= stdout@);
}

/// Law: a task is printed without the values of its environment: two that
/// differ in those alone are printed alike.
pub proof fn a_task_prints_no_value(one: &Task, other: &Task, a: String, b: String)
    requires
        call_ensures(Task::debug, (one,), a),
        call_ensures(Task::debug, (other,), b),
        one.argv == other.argv,
        one.cwd == other.cwd,
        one.stdin == other.stdin,
        one.env@.len() == other.env@.len(),
        forall|i: int|
            0 <= i < one.env@.len() ==> (#[trigger] one.env@[i]).0@ == other.env@[i].0@,
    ensures
        a@ == b@,
{
    let x = agent::env_view(one.env@);
    let y = agent::env_view(other.env@);
    assert(x.len() == y.len());
    assert forall|i: int| 0 <= i < x.len() implies (#[trigger] x[i]).0 == y[i].0 by {
        assert(one.env@[i].0@ == other.env@[i].0@);
    }
    agent::an_environment_prints_no_secret(x, y);
}

/// Law: a scripted agent is a shell with one script, at the root, and does
/// what it is called after: it counts so many lines, fails with words on
/// stderr and code three, says a value of its environment, says its stdin,
/// or hangs.
pub proof fn a_scripted_agent_runs_its_script(
    lines: usize,
    name: &str,
    value: Secret,
    payload: &str,
    counting: Scripted,
    failing: Scripted,
    echoing: Scripted,
    reading: Scripted,
    hanging: Scripted,
)
    requires
        call_ensures(Scripted::counting, (lines,), counting),
        call_ensures(Scripted::failing, (), failing),
        call_ensures(Scripted::env_echo, (name, value), echoing),
        call_ensures(Scripted::stdin_echo, (payload,), reading),
        call_ensures(Scripted::hanging, (), hanging),
    ensures
        text::views(counting.played().argv@) == seq![
            "sh"@,
            "-c"@,
            "i=1; while [ \"$i\" -le "@ + text::decimal(lines as nat)
                + " ]; do echo \"line $i\"; i=$((i+1)); done"@,
        ],
        text::views(failing.played().argv@) == seq![
            "sh"@,
            "-c"@,
            "echo 'it all went wrong' >&2; exit 3"@,
        ],
        text::views(echoing.played().argv@) == seq![
            "sh"@,
            "-c"@,
            "printf '%s\\n' \"$"@ + name@ + "\""@,
        ],
        echoing.played().env@.len() == 1,
        echoing.played().env@[0].0@ == name@,
        echoing.played().env@[0].1.bytes() == value.bytes(),
        text::views(reading.played().argv@) == seq!["sh"@, "-c"@, "cat"@],
        reading.played().stdin is Some,
        (reading.played().stdin->0)@ == payload@,
        text::views(hanging.played().argv@) == seq!["sh"@, "-c"@, "sleep 6371"@],
{
    let env = agent::env_view(echoing.played().env@);
    assert(env.len() == echoing.played().env@.len());
    assert(env[0] == (echoing.played().env@[0].0@, echoing.played().env@[0].1.bytes()));
}

/// Law: a scripted agent's task is the one it plays.
pub proof fn a_scripted_agent_hands_over_its_task(scripted: &Scripted, r: Task)
    requires
        call_ensures(Scripted::task, (scripted,), r),
    ensures
        r.argv@ == scripted.played().argv@,
        r.env@ == scripted.played().env@,
        r.cwd@ == scripted.played().cwd@,
        r.stdin == scripted.played().stdin,
{
}

} // verus!
