//! What holds of every launch of a run.

use crate::crossing;
use crate::json::{Json, JsonView};
use crate::launch;
use crate::launch::{Error, Launch, LaunchFeature, Launched, Launcher, Provisioned};
use crate::text;
use vstd::prelude::*;

verus! {

/// Law: a run is launched just where none is in flight, under the name of
/// its feature; a second is refused by the name of the first, and changes
/// nothing.
pub proof fn one_run_flies_at_a_time(
    launcher: &mut Launcher,
    number: u64,
    r: Result<String, Error>,
)
    requires
        call_ensures(Launcher::launch, (launcher, number), r),
    ensures
        ({
            let slot = old(launcher)@;
            let busy = slot is Some && !((slot->0).stage is Finished);
            &&& r is Ok <==> !busy
            &&& r is Ok ==> {
                &&& r->Ok_0@ == "feature-"@ + text::decimal(number as nat)
                &&& final(launcher)@ is Some
                &&& (final(launcher)@->0).run == r->Ok_0@
                &&& !(final(launcher)@->0).stopped
                &&& (final(launcher)@->0).stage is Provisioning
            }
            &&& r is Err ==> {
                &&& r->Err_0 is InFlight
                &&& r->Err_0->running@ == (slot->0).run
                &&& final(launcher)@ == slot
            }
        }),
        final(launcher).shared() == old(launcher).shared(),
{
}

/// Law: a run that was provisioned goes on under its own name and with its
/// own log; one that was not frees the slot, and its refusals, or its
/// error, are handed on.
pub proof fn a_run_goes_on_once_it_is_provisioned(
    launcher: &mut Launcher,
    run: String,
    made: Provisioned,
    r: Result<Launched, Error>,
)
    requires
        call_ensures(Launcher::provisioned, (launcher, run, made), r),
    ensures
        r is Ok <==> made is Started,
        r is Ok ==> r->Ok_0.run == run && r->Ok_0.log == made->log,
        made is Refused ==> r->Err_0 is Refused && r->Err_0->refusals == made->refusals,
        made is Unlogged ==> r->Err_0 is Log && r->Err_0->Log_error == made->Unlogged_error,
        !(made is Started) ==> final(launcher)@ is None,
        made is Started && old(launcher)@ is Some ==> {
            &&& final(launcher)@ is Some
            &&& (final(launcher)@->0).run == (old(launcher)@->0).run
            &&& (final(launcher)@->0).stopped == (old(launcher)@->0).stopped
            &&& (final(launcher)@->0).stage is Conducting
        },
{
}

/// Law: stopping stops the run in flight and keeps it in flight; only its
/// end frees the slot.
pub proof fn a_stopped_run_flies_until_its_end(launcher: &mut Launcher)
    requires
        call_ensures(Launcher::stop, (launcher,), ()),
        old(launcher)@ is Some,
    ensures
        final(launcher)@ is Some,
        (final(launcher)@->0).stopped,
        (final(launcher)@->0).run == (old(launcher)@->0).run,
        (final(launcher)@->0).stage == (old(launcher)@->0).stage,
{
}

/// Law: a run that is over is in flight no more.
pub proof fn a_run_that_is_over_flies_no_more(launcher: &mut Launcher)
    requires
        call_ensures(Launcher::finished, (launcher,), ()),
    ensures
        final(launcher)@ is Some ==> (final(launcher)@->0).stage is Finished,
        final(launcher)@ is Some <==> old(launcher)@ is Some,
{
}

/// Law: the run in flight is named just while there is one, and is stopped
/// just when it was told to.
pub proof fn the_run_in_flight_is_named(
    launcher: &Launcher,
    running: Option<String>,
    stopped: bool,
)
    requires
        call_ensures(Launcher::running, (launcher,), running),
        call_ensures(Launcher::is_stopped, (launcher,), stopped),
    ensures
        running is Some <==> launcher@ is Some && !((launcher@->0).stage is Finished),
        running is Some ==> (running->0)@ == (launcher@->0).run,
        stopped <==> launcher@ is Some && (launcher@->0).stopped,
{
}

/// Law: a launcher holds the launch it was made with, and nothing flies.
pub proof fn a_launcher_holds_its_launch(launch: Launch, r: Launcher, held: &Launch)
    requires
        call_ensures(Launcher::new, (launch,), r),
        call_ensures(Launcher::launched, (&r,), held),
    ensures
        *held == launch,
        r@ is None,
{
}

/// Law: a launched run is told by its name and its log.
pub proof fn a_launched_run_is_told(launched: &Launched, r: Json)
    requires
        call_ensures(Launched::told, (launched,), r),
    ensures
        r@.get("run"@) == Some(JsonView::Text(launched.run@)),
        r@.get("log"@) == Some(JsonView::Text(launched.log@)),
{
    reveal_strlit("run");
    reveal_strlit("log");
    assert("run"@[0] != "log"@[0]);
    let record = JsonView::record();
    crossing::put(record, "run"@, JsonView::Text(launched.run@));
    let record = record.with("run"@, JsonView::Text(launched.run@));
    crossing::put(record, "log"@, JsonView::Text(launched.log@));
}

/// Law: a call launches the feature whose number it gives.
pub proof fn a_call_launches_the_feature_it_names(
    arguments: &Json,
    r: Result<LaunchFeature, String>,
)
    requires
        call_ensures(LaunchFeature::read, (arguments,), r),
    ensures
        r is Ok <==> arguments@.get("number"@) is Some && arguments@.get("number"@)->0 is Whole,
        r is Ok ==> arguments@.get("number"@) == Some(JsonView::Whole(r->Ok_0.number as nat)),
{
}

/// Law: an error says what it is of: the run in flight, the error of the
/// log, or every refusal.
pub proof fn a_launch_that_failed_says_why(error: &Error, r: String)
    requires
        call_ensures(Error::to_string, (error,), r),
    ensures
        *error is InFlight ==> r@ == error->running@
            + " is already in flight; one run at a time"@,
        *error is Log ==> r@ == "the run log could not be created: "@ + error->Log_error@,
        *error is Refused && error->refusals@.len() == 1 ==> r@ == "the preflight refused: "@
            + error->refusals@[0].words(),
{
    if *error is Refused {
        let words = launch::refusal_words(error->refusals@);
        if error->refusals@.len() == 1 {
            assert(words[0] == error->refusals@[0].words());
        }
    }
}

/// Law: a launch is printed without its token: two that differ in the
/// token alone are printed alike.
pub proof fn a_token_is_not_printed(one: &Launch, other: &Launch, a: String, b: String)
    requires
        call_ensures(Launch::debug, (one,), a),
        call_ensures(Launch::debug, (other,), b),
        one.repo == other.repo,
        one.url == other.url,
        one.base == other.base,
        one.budget == other.budget,
        one.patience == other.patience,
        one.token_override is Some,
        other.token_override is Some,
    ensures
        a@ == b@,
{
}

} // verus!
