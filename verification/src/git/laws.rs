//! What holds of every run of git.

use crate::crossing;
use crate::git;
use crate::json::{Json, JsonView};
use crate::text;
use vstd::prelude::*;

verus! {

/// Law: git is run with the arguments it was given, all of them and in
/// order, and nothing else.
pub proof fn git_is_run_with_its_arguments(args: &Vec<String>, r: Vec<String>)
    requires
        call_ensures(git::argv, (args,), r),
    ensures
        r@.len() == args@.len() + 1,
        r@[0]@ == "git"@,
        forall|k: int| 0 <= k < args@.len() ==> (#[trigger] args@[k])@ == r@[k + 1]@,
{
    let views = text::views(r@);
    assert(views.len() == r@.len());
    assert(text::views(args@).len() == args@.len());
    assert(views[0] == r@[0]@);
    assert forall|k: int| 0 <= k < args@.len() implies (#[trigger] args@[k])@ == r@[k + 1]@ by {
        assert(views[k + 1] == text::views(args@)[k]);
    }
}

/// Law: a run that went well answers what git said, verbatim; one that did
/// not is refused in git's own words, or, where git said nothing, in words
/// that name what was asked.
pub proof fn git_answers_for_itself(
    args: &Vec<String>,
    ok: bool,
    output: &str,
    r: Result<String, String>,
)
    requires
        call_ensures(git::settled, (args, ok, output), r),
    ensures
        r is Ok <==> ok,
        ok ==> r->Ok_0@ == output@,
        !ok && text::trimmed(output@).len() > 0 ==> r->Err_0@ == text::trimmed(output@),
        !ok && text::trimmed(output@).len() == 0 ==> r->Err_0@ == "git "@ + text::join(
            text::views(args@),
            " "@,
        ) + " failed without saying why"@,
{
}

/// Law: a tool is answered whether the run went well and what it put out.
pub proof fn a_tool_is_told_what_git_said(ok: bool, output: &str, r: Json)
    requires
        call_ensures(git::tool_answer, (ok, output), r),
    ensures
        r@.get("ok"@) == Some(JsonView::Bool(ok)),
        r@.get("output"@) == Some(JsonView::Text(output@)),
{
    reveal_strlit("ok");
    reveal_strlit("output");
    assert("ok"@.len() != "output"@.len());
    let record = JsonView::record();
    crossing::put(record, "ok"@, JsonView::Bool(ok));
    let record = record.with("ok"@, JsonView::Bool(ok));
    crossing::put(record, "output"@, JsonView::Text(output@));
}

/// Law: a base is asked of the repository by its own name, and cannot be
/// read as an option; it is the commit git answers with.
pub proof fn a_base_is_the_commit_it_names(
    repository: &str,
    base: &str,
    args: Vec<String>,
    answer: &Result<String, String>,
    r: Result<String, String>,
)
    requires
        call_ensures(git::base_commit_args, (repository, base), args),
        call_ensures(git::base_commit, (base, answer), r),
    ensures
        args@.len() == 6,
        args@[0]@ == "-C"@,
        args@[1]@ == repository@,
        args@[2]@ == "rev-parse"@,
        args@[3]@ == "--verify"@,
        args@[4]@ == "--end-of-options"@,
        args@[5]@ == base@ + "^{commit}"@,
        r is Ok <==> *answer is Ok,
        *answer is Ok ==> r->Ok_0@ == text::trimmed(answer->Ok_0@),
        *answer is Err ==> r->Err_0@ == "the base "@ + text::quoted_as(base@)
            + " does not name a commit: "@ + answer->Err_0@,
{
    let views = text::views(args@);
    assert(views.len() == args@.len());
    assert(views[0] == args@[0]@);
    assert(views[1] == args@[1]@);
    assert(views[2] == args@[2]@);
    assert(views[3] == args@[3]@);
    assert(views[4] == args@[4]@);
    assert(views[5] == args@[5]@);
}

} // verus!
