//! The maintenance run itself: update every package, then purge the orphans.

use crate::message::MessageView;
use crate::runner::{announcement, launch, ActionView, EventView, Phase, FAILURE, PRIVILEGED};
use crate::step::{joined, step_views, texts, Step, StepView};
use crate::trace::{
    announcements, launches, lemma_all_succeed, lemma_failure_ends_the_run,
    lemma_launch_failure_ends_the_run, run, successes, Trace,
};
use vstd::prelude::*;
use vstd::string::*;

verus! {

/// A step that runs the package manager's `subcommand`, with the flag that
/// answers its prompts with yes.
pub open spec fn managed_spec(subcommand: Seq<char>, description: Seq<char>) -> StepView {
    StepView { command: seq!["rpk"@, subcommand, "-y"@], description }
}

/// The step that updates every installed package.
pub open spec fn update_step() -> StepView {
    managed_spec("update"@, "Updating all packages …"@)
}

/// The step that removes the packages nothing depends on any more.
pub open spec fn cleanup_step() -> StepView {
    managed_spec("cleanup"@, "Purging orphaned packages …"@)
}

/// The steps of a maintenance run: update, then clean up.
pub open spec fn plan_spec() -> Seq<StepView> {
    seq![update_step(), cleanup_step()]
}

/// A step that runs the package manager's `subcommand` without prompting.
pub fn managed(subcommand: &str, description: &str) -> (step: Step)
    ensures
        step@ == managed_spec(subcommand@, description@),
{
    let command = vec![
        String::from_str("rpk"),
        String::from_str(subcommand),
        String::from_str("-y"),
    ];
    assert(texts(command@) =~= seq!["rpk"@, subcommand@, "-y"@]);
    Step { command, description: String::from_str(description) }
}

/// The steps of a maintenance run, in the order in which they are run.
pub fn plan() -> (steps: Vec<Step>)
    ensures
        step_views(steps@) == plan_spec(),
{
    vec![
        managed("update", "Updating all packages …"),
        managed("cleanup", "Purging orphaned packages …"),
    ]
}

/// The launch of the package manager's update, without prompting.
pub open spec fn update_launch() -> ActionView {
    ActionView::Launch { program: "rpk"@, arguments: seq!["update"@, "-y"@] }
}

/// The launch of the package manager's cleanup, without prompting.
pub open spec fn cleanup_launch() -> ActionView {
    ActionView::Launch { program: "rpk"@, arguments: seq!["cleanup"@, "-y"@] }
}

/// What is said before the update runs.
pub open spec fn update_announcement() -> Seq<MessageView> {
    seq![
        MessageView::Heading("Updating all packages …"@),
        MessageView::Command("rpk update -y"@),
    ]
}

/// What is said before the cleanup runs.
pub open spec fn cleanup_announcement() -> Seq<MessageView> {
    seq![
        MessageView::Heading("Purging orphaned packages …"@),
        MessageView::Command("rpk cleanup -y"@),
    ]
}

/// Both steps launch the package manager, with their subcommand and the
/// flag that confirms, and are announced by their description and their
/// command line.
pub proof fn lemma_plan_in_words()
    ensures
        plan_spec().len() == 2,
        launch(plan_spec()[0]) == update_launch(),
        launch(plan_spec()[1]) == cleanup_launch(),
        announcement(plan_spec()[0]) == update_announcement(),
        announcement(plan_spec()[1]) == cleanup_announcement(),
{
    reveal_strlit("rpk");
    reveal_strlit("update");
    reveal_strlit("cleanup");
    reveal_strlit("-y");
    reveal_strlit("rpk update -y");
    reveal_strlit("rpk cleanup -y");
    reveal_strlit("Updating all packages …");
    reveal_strlit("Purging orphaned packages …");
    let update = update_step().command;
    let cleanup = cleanup_step().command;
    assert(update_step().arguments() =~= seq!["update"@, "-y"@]);
    assert(cleanup_step().arguments() =~= seq!["cleanup"@, "-y"@]);
    assert(joined(update.drop_last().drop_last()) == "rpk"@);
    assert(joined(update.drop_last()) =~= "rpk"@ + seq![' '] + "update"@);
    assert(joined(update) =~= "rpk update -y"@);
    assert(joined(cleanup.drop_last().drop_last()) == "rpk"@);
    assert(joined(cleanup.drop_last()) =~= "rpk"@ + seq![' '] + "cleanup"@);
    assert(joined(cleanup) =~= "rpk cleanup -y"@);
}

/// The exit code of a run that a command with this exit code brought to an end.
pub open spec fn passed_on(code: Option<i32>) -> i32 {
    match code {
        Some(value) => value,
        None => FAILURE,
    }
}

/// The announcements and launches of the first step, and of both.
proof fn lemma_plan_in_ranges()
    ensures
        announcements(plan_spec(), 0, 1) == update_announcement(),
        announcements(plan_spec(), 0, 2) == update_announcement() + cleanup_announcement(),
        launches(plan_spec(), 0, 1) == seq![update_launch()],
        launches(plan_spec(), 0, 2) == seq![update_launch(), cleanup_launch()],
{
    lemma_plan_in_words();
    let steps = plan_spec();
    assert(announcements(steps, 2, 2) =~= seq![]);
    assert(announcements(steps, 1, 2) =~= cleanup_announcement());
    assert(announcements(steps, 1, 1) =~= seq![]);
}

/// A privileged run in which both commands succeed launches exactly the
/// update and then the cleanup, both confirming by themselves, reports
/// success and ends with exit code zero.
pub proof fn lemma_maintenance_succeeds(rest: Seq<EventView>)
    ensures
        run(
            plan_spec(),
            seq![
                EventView::Identity(PRIVILEGED),
                EventView::Exited(Some(0i32)),
                EventView::Exited(Some(0i32)),
            ] + rest,
        ) == (Trace {
            phase: Phase::Finished(0),
            messages: seq![MessageView::Banner] + update_announcement() + cleanup_announcement()
                + seq![MessageView::Success],
            launched: seq![update_launch(), cleanup_launch()],
        }),
{
    lemma_plan_in_ranges();
    lemma_all_succeed(plan_spec(), rest);
    assert(seq![
        EventView::Identity(PRIVILEGED),
        EventView::Exited(Some(0i32)),
        EventView::Exited(Some(0i32)),
    ] + rest =~= seq![EventView::Identity(PRIVILEGED)] + successes(2) + rest);
    assert(seq![MessageView::Banner] + (update_announcement() + cleanup_announcement())
        + seq![MessageView::Success] =~= seq![MessageView::Banner] + update_announcement()
        + cleanup_announcement() + seq![MessageView::Success]);
}

/// Where the update does not succeed, its exit code is reported and becomes
/// the exit code of the run, and the cleanup is never launched.
pub proof fn lemma_failed_update_ends_the_run(code: Option<i32>, rest: Seq<EventView>)
    requires
        code != Some(0i32),
    ensures
        run(plan_spec(), seq![EventView::Identity(PRIVILEGED), EventView::Exited(code)] + rest)
            == (Trace {
            phase: Phase::Finished(passed_on(code)),
            messages: seq![MessageView::Banner] + update_announcement()
                + seq![MessageView::CommandFailed(code)],
            launched: seq![update_launch()],
        }),
{
    lemma_plan_in_ranges();
    lemma_failure_ends_the_run(plan_spec(), 0, code, rest);
    assert(seq![EventView::Identity(PRIVILEGED), EventView::Exited(code)] + rest
        =~= seq![EventView::Identity(PRIVILEGED)] + successes(0) + seq![EventView::Exited(code)]
        + rest);
}

/// Where the update succeeds and the cleanup does not, both were launched,
/// the exit code of the cleanup is reported and becomes the exit code of the
/// run.
pub proof fn lemma_failed_cleanup_ends_the_run(code: Option<i32>, rest: Seq<EventView>)
    requires
        code != Some(0i32),
    ensures
        run(
            plan_spec(),
            seq![
                EventView::Identity(PRIVILEGED),
                EventView::Exited(Some(0i32)),
                EventView::Exited(code),
            ] + rest,
        ) == (Trace {
            phase: Phase::Finished(passed_on(code)),
            messages: seq![MessageView::Banner] + update_announcement() + cleanup_announcement()
                + seq![MessageView::CommandFailed(code)],
            launched: seq![update_launch(), cleanup_launch()],
        }),
{
    lemma_plan_in_ranges();
    lemma_failure_ends_the_run(plan_spec(), 1, code, rest);
    assert(seq![
        EventView::Identity(PRIVILEGED),
        EventView::Exited(Some(0i32)),
        EventView::Exited(code),
    ] + rest =~= seq![EventView::Identity(PRIVILEGED)] + successes(1)
        + seq![EventView::Exited(code)] + rest);
    assert(seq![MessageView::Banner] + (update_announcement() + cleanup_announcement())
        + seq![MessageView::CommandFailed(code)] =~= seq![MessageView::Banner]
        + update_announcement() + cleanup_announcement() + seq![MessageView::CommandFailed(code)]);
}

/// Where the update cannot be launched, the cause is reported, the cleanup
/// is never launched, and the run ends with the failure code.
pub proof fn lemma_update_cannot_be_launched(cause: Seq<char>, rest: Seq<EventView>)
    ensures
        run(plan_spec(), seq![EventView::Identity(PRIVILEGED), EventView::LaunchFailed(cause)] + rest)
            == (Trace {
            phase: Phase::Finished(FAILURE),
            messages: seq![MessageView::Banner] + update_announcement()
                + seq![MessageView::Error(cause)],
            launched: seq![update_launch()],
        }),
{
    lemma_plan_in_ranges();
    lemma_launch_failure_ends_the_run(plan_spec(), 0, cause, rest);
    assert(seq![EventView::Identity(PRIVILEGED), EventView::LaunchFailed(cause)] + rest
        =~= seq![EventView::Identity(PRIVILEGED)] + successes(0) + seq![EventView::LaunchFailed(cause)]
        + rest);
}

/// Where the update succeeds and the cleanup cannot be launched, the cause
/// is reported and the run ends with the failure code.
pub proof fn lemma_cleanup_cannot_be_launched(cause: Seq<char>, rest: Seq<EventView>)
    ensures
        run(
            plan_spec(),
            seq![
                EventView::Identity(PRIVILEGED),
                EventView::Exited(Some(0i32)),
                EventView::LaunchFailed(cause),
            ] + rest,
        ) == (Trace {
            phase: Phase::Finished(FAILURE),
            messages: seq![MessageView::Banner] + update_announcement() + cleanup_announcement()
                + seq![MessageView::Error(cause)],
            launched: seq![update_launch(), cleanup_launch()],
        }),
{
    lemma_plan_in_ranges();
    lemma_launch_failure_ends_the_run(plan_spec(), 1, cause, rest);
    assert(seq![
        EventView::Identity(PRIVILEGED),
        EventView::Exited(Some(0i32)),
        EventView::LaunchFailed(cause),
    ] + rest =~= seq![EventView::Identity(PRIVILEGED)] + successes(1)
        + seq![EventView::LaunchFailed(cause)] + rest);
    assert(seq![MessageView::Banner] + (update_announcement() + cleanup_announcement())
        + seq![MessageView::Error(cause)] =~= seq![MessageView::Banner] + update_announcement()
        + cleanup_announcement() + seq![MessageView::Error(cause)]);
}

} // verus!
