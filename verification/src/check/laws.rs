//! What holds of every check and of what is proposed for one.

use crate::check;
use crate::check::{Check, Markers, Ran, Verdict};
use crate::json;
use crate::json::{Json, JsonView};
use crate::text;
use vstd::prelude::*;

verus! {

/// Law: a check is green just when it ran to its end and succeeded; one
/// that could not be run is never green, and says why.
pub proof fn green_is_a_run_that_succeeded(ran: Ran, r: Verdict)
    requires
        call_ensures(check::judged, (ran,), r),
    ensures
        r.green <==> ran is Ended && ran->success,
        ran is Unstarted ==> r.output@ == "could not run the check: "@ + ran->Unstarted_0@,
        ran is Unwaited ==> r.output@ == "could not wait for the check: "@ + ran->Unwaited_0@,
{
}

/// Law: what a check put out is its stdout and then its stderr, apart by a
/// newline where there is something of both, with nothing left out.
pub proof fn a_verdict_is_told_in_full(ran: Ran, r: Verdict)
    requires
        call_ensures(check::judged, (ran,), r),
        ran is Ended,
    ensures
        ran->stderr@.len() == 0 ==> r.output@ == ran->stdout@,
        ran->stdout@.len() == 0 ==> r.output@ == ran->stderr@,
        ran->stdout@.len() > 0 && ran->stderr@.len() > 0 ==> r.output@ == ran->stdout@ + "\n"@
            + ran->stderr@,
{
    assert(ran->stdout@.len() == 0 ==> ran->stdout@ + ran->stderr@ =~= ran->stderr@);
    assert(ran->stderr@.len() == 0 ==> ran->stdout@ + ran->stderr@ =~= ran->stdout@);
}


/// Law: what is proposed is the command of a marker that is there, and
/// nothing where none is.
pub proof fn what_is_proposed_is_there(
    markers: &Markers,
    r: Option<Check>,
    package: &str,
    npm: bool,
    makefile: &str,
    make: bool,
)
    requires
        call_ensures(check::detect, (markers,), r),
        markers.package_json is Some ==> package@ == (markers.package_json->0)@,
        markers.makefile is Some ==> makefile@ == (markers.makefile->0)@,
        call_ensures(check::npm_test, (package,), npm),
        call_ensures(check::make_test, (makefile,), make),
    ensures
        ({
            let by_npm = markers.package_json is Some && npm;
            let by_make = markers.makefile is Some && make;
            let command = (r->0).command@;
            &&& r is None <==> !by_npm && !markers.go_mod && !markers.pyproject_toml
                && !markers.pom_xml && !by_make && !markers.cargo_toml
            &&& by_npm ==> command == "npm test"@
            &&& !by_npm && markers.go_mod ==> command == "go test ./..."@
            &&& !by_npm && !markers.go_mod && markers.pyproject_toml ==> command
                == "python -m pytest"@
            &&& !by_npm && !markers.go_mod && !markers.pyproject_toml && markers.pom_xml
                ==> command == "mvn test"@
            &&& !by_npm && !markers.go_mod && !markers.pyproject_toml && !markers.pom_xml
                && by_make ==> command == "make test"@
            &&& r is Some && !by_npm && !markers.go_mod && !markers.pyproject_toml
                && !markers.pom_xml && !by_make ==> command == "cargo test"@
        }),
{
}

/// Law: a manifest names a test just when its scripts have one that is a
/// string; a package that is no JSON names none.
pub proof fn npm_tests_what_the_manifest_names(
    package: &str,
    r: bool,
    manifest: &Json,
    named: bool,
)
    requires
        call_ensures(check::npm_test, (package,), r),
        call_ensures(check::manifest_names_a_test, (manifest,), named),
    ensures
        named <==> manifest@.get("scripts"@) is Some && manifest@.get("scripts"@)->0.get("test"@)
            is Some && manifest@.get("scripts"@)->0.get("test"@)->0 is Text,
        json::read_as(package@) is Err ==> !r,
        json::read_as(package@) == Ok::<JsonView, Seq<char>>(manifest@) ==> r == named,
{
}

/// Law: a makefile with a line that opens a target called test is tested by
/// make; an assignment is no target.
pub proof fn make_tests_a_target_called_test(makefile: &str, r: bool, i: int)
    requires
        call_ensures(check::make_test, (makefile,), r),
        0 <= i < text::lines(makefile@).len(),
    ensures
        text::lines(makefile@)[i] == "test:"@ ==> r,
        text::lines(makefile@) == seq!["test:=1"@] ==> !r,
        text::lines(makefile@) == seq!["tests:"@] ==> !r,
        (forall|k: int|
            0 <= k < text::lines(makefile@).len() ==> !text::begins(
                #[trigger] text::lines(makefile@)[k],
                "test"@,
            )) ==> !r,
{
    reveal_strlit("test");
    reveal_strlit("test:");
    reveal_strlit("test:=1");
    reveal_strlit("tests:");
    assert("test:"@.take(4) =~= "test"@);
    assert("test:"@.skip(4) =~= seq![':']);
    assert("test:=1"@.take(4) =~= "test"@);
    assert("test:=1"@.skip(4) =~= seq![':', '=', '1']);
    assert("tests:"@.take(4) =~= "test"@);
    assert("tests:"@.skip(4) =~= seq!['s', ':']);
    if text::lines(makefile@)[i] == "test:"@ {
        assert(check::is_target(text::lines(makefile@)[i]));
    }
    if text::lines(makefile@) == seq!["test:=1"@] {
        assert(!check::is_target("test:=1"@));
        assert forall|k: int| 0 <= k < text::lines(makefile@).len() implies !check::is_target(
            #[trigger] text::lines(makefile@)[k],
        ) by {
            assert(k == 0);
        }
    }
    if text::lines(makefile@) == seq!["tests:"@] {
        assert(!check::is_target("tests:"@));
        assert forall|k: int| 0 <= k < text::lines(makefile@).len() implies !check::is_target(
            #[trigger] text::lines(makefile@)[k],
        ) by {
            assert(k == 0);
        }
    }
}

} // verus!
