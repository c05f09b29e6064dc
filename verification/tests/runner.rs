use rhino_update::maintenance::plan;
use rhino_update::message::Message;
use rhino_update::runner::{judge, Action, Event, Phase, Runner, Verdict, FAILURE, PRIVILEGED};
use rhino_update::step::Step;

/// What a run against scripted outcomes came to.
struct Report {
    exit_code: i32,
    launched: Vec<Vec<String>>,
    messages: Vec<Message>,
}

/// Carries a run out against a launcher that launches nothing: it records
/// each launch and answers it with the next of `outcomes`.
fn carry_out(steps: Vec<Step>, identity: u32, outcomes: Vec<Event>) -> Report {
    let mut runner = Runner::new(steps);
    let mut outcomes = outcomes.into_iter();
    let mut launched = Vec::new();
    let mut messages = Vec::new();
    loop {
        let event = match runner.pending() {
            Action::ReadIdentity => Event::Identity(identity),
            Action::Launch { program, arguments } => {
                let mut command = vec![program];
                command.extend(arguments);
                launched.push(command);
                outcomes.next().expect("a launch without a scripted outcome")
            }
            Action::Exit(exit_code) => return Report { exit_code, launched, messages },
        };
        messages.extend(runner.advance(event).expect("the event answers what was pending"));
    }
}

fn words(tokens: &[&str]) -> Vec<String> {
    tokens.iter().map(|token| token.to_string()).collect()
}

fn heading(text: &str) -> Message {
    Message::Heading(text.to_string())
}

fn command(text: &str) -> Message {
    Message::Command(text.to_string())
}

#[test]
fn the_privileged_identity_is_zero() {
    assert_eq!(PRIVILEGED, 0);
    assert_eq!(FAILURE, 1);
}

#[test]
fn judge_tells_success_from_failure() {
    assert_eq!(judge(Some(0)), Verdict::Success);
    assert_eq!(judge(Some(3)), Verdict::Failure(3));
    assert_eq!(judge(Some(-1)), Verdict::Failure(-1));
    assert_eq!(judge(Some(255)), Verdict::Failure(255));
    assert_eq!(judge(None), Verdict::Failure(1));
}

#[test]
fn a_new_run_asks_for_the_identity() {
    let runner = Runner::new(plan());
    assert_eq!(runner.phase(), Phase::Start);
    assert_eq!(runner.pending(), Action::ReadIdentity);
}

#[test]
fn unprivileged_caller_exits_one_and_launches_nothing() {
    for identity in [1, 1000, 65534, u32::MAX] {
        let report = carry_out(plan(), identity, vec![]);
        assert_eq!(report.exit_code, 1);
        assert!(report.launched.is_empty());
        assert_eq!(report.messages, vec![Message::NotPrivileged]);
    }
}

#[test]
fn successful_run_launches_update_then_cleanup() {
    let report = carry_out(plan(), 0, vec![Event::Exited(Some(0)), Event::Exited(Some(0))]);
    assert_eq!(report.exit_code, 0);
    assert_eq!(
        report.launched,
        vec![words(&["rpk", "update", "-y"]), words(&["rpk", "cleanup", "-y"])]
    );
    assert_eq!(
        report.messages,
        vec![
            Message::Banner,
            heading("Updating all packages …"),
            command("rpk update -y"),
            heading("Purging orphaned packages …"),
            command("rpk cleanup -y"),
            Message::Success,
        ]
    );
}

#[test]
fn failing_update_stops_the_run_with_its_code() {
    let report = carry_out(plan(), 0, vec![Event::Exited(Some(3))]);
    assert_eq!(report.exit_code, 3);
    assert_eq!(report.launched, vec![words(&["rpk", "update", "-y"])]);
    assert_eq!(
        report.messages,
        vec![
            Message::Banner,
            heading("Updating all packages …"),
            command("rpk update -y"),
            Message::CommandFailed(Some(3)),
        ]
    );
}

#[test]
fn failing_cleanup_ends_the_run_with_its_code() {
    let report = carry_out(plan(), 0, vec![Event::Exited(Some(0)), Event::Exited(Some(5))]);
    assert_eq!(report.exit_code, 5);
    assert_eq!(
        report.launched,
        vec![words(&["rpk", "update", "-y"]), words(&["rpk", "cleanup", "-y"])]
    );
    assert_eq!(report.messages.last(), Some(&Message::CommandFailed(Some(5))));
    assert!(!report.messages.contains(&Message::Success));
}

#[test]
fn command_ended_by_a_signal_exits_one() {
    let report = carry_out(plan(), 0, vec![Event::Exited(None)]);
    assert_eq!(report.exit_code, 1);
    assert_eq!(report.launched.len(), 1);
    assert_eq!(report.messages.last(), Some(&Message::CommandFailed(None)));
}

#[test]
fn update_that_cannot_be_launched_exits_one_with_the_cause() {
    let cause = "No such file or directory (os error 2)".to_string();
    let report = carry_out(plan(), 0, vec![Event::LaunchFailed(cause.clone())]);
    assert_eq!(report.exit_code, 1);
    assert_eq!(report.launched.len(), 1);
    assert_eq!(report.messages.last(), Some(&Message::Error(cause.clone())));
    assert!(report.messages.last().unwrap().render().contains(&cause));
}

#[test]
fn cleanup_that_cannot_be_launched_exits_one_with_the_cause() {
    let cause = "Permission denied (os error 13)".to_string();
    let report =
        carry_out(plan(), 0, vec![Event::Exited(Some(0)), Event::LaunchFailed(cause.clone())]);
    assert_eq!(report.exit_code, 1);
    assert_eq!(report.launched.len(), 2);
    assert_eq!(report.messages.last(), Some(&Message::Error(cause.clone())));
    assert!(report.messages.last().unwrap().render().contains(&cause));
}

#[test]
fn success_is_said_only_on_the_path_that_exits_zero() {
    let scripts: Vec<(u32, Vec<Event>)> = vec![
        (0, vec![Event::Exited(Some(0)), Event::Exited(Some(0))]),
        (0, vec![Event::Exited(Some(0)), Event::Exited(Some(9))]),
        (0, vec![Event::Exited(Some(0)), Event::Exited(None)]),
        (0, vec![Event::Exited(Some(0)), Event::LaunchFailed("gone".to_string())]),
        (0, vec![Event::Exited(Some(2))]),
        (0, vec![Event::LaunchFailed("gone".to_string())]),
        (7, vec![]),
    ];
    for (identity, outcomes) in scripts {
        let report = carry_out(plan(), identity, outcomes);
        assert_eq!(report.messages.contains(&Message::Success), report.exit_code == 0);
        assert_eq!(report.messages.contains(&Message::Banner), identity == 0);
    }
}

#[test]
fn banner_comes_once_and_first() {
    let report = carry_out(plan(), 0, vec![Event::Exited(Some(0)), Event::Exited(Some(0))]);
    assert_eq!(report.messages[0], Message::Banner);
    assert_eq!(report.messages.iter().filter(|message| **message == Message::Banner).count(), 1);
}

#[test]
fn pending_follows_the_phase() {
    let mut runner = Runner::new(plan());
    assert_eq!(runner.pending(), Action::ReadIdentity);
    runner.advance(Event::Identity(0));
    assert_eq!(runner.phase(), Phase::Running(0));
    assert_eq!(
        runner.pending(),
        Action::Launch { program: "rpk".to_string(), arguments: words(&["update", "-y"]) }
    );
    runner.advance(Event::Exited(Some(0)));
    assert_eq!(runner.phase(), Phase::Running(1));
    assert_eq!(
        runner.pending(),
        Action::Launch { program: "rpk".to_string(), arguments: words(&["cleanup", "-y"]) }
    );
    runner.advance(Event::Exited(Some(0)));
    assert_eq!(runner.phase(), Phase::Finished(0));
    assert_eq!(runner.pending(), Action::Exit(0));
}

#[test]
fn an_event_that_does_not_fit_changes_nothing() {
    let mut runner = Runner::new(plan());
    assert_eq!(runner.advance(Event::Exited(Some(0))), None);
    assert_eq!(runner.advance(Event::LaunchFailed("early".to_string())), None);
    assert_eq!(runner.phase(), Phase::Start);

    runner.advance(Event::Identity(0));
    assert_eq!(runner.advance(Event::Identity(0)), None);
    assert_eq!(runner.phase(), Phase::Running(0));

    runner.advance(Event::Exited(Some(4)));
    assert_eq!(runner.phase(), Phase::Finished(4));
    assert_eq!(runner.advance(Event::Identity(0)), None);
    assert_eq!(runner.advance(Event::Exited(Some(0))), None);
    assert_eq!(runner.advance(Event::LaunchFailed("late".to_string())), None);
    assert_eq!(runner.phase(), Phase::Finished(4));
}

#[test]
fn a_step_without_description_is_announced_by_its_command_alone() {
    let steps = vec![Step::new(words(&["true"]), String::new())];
    let report = carry_out(steps, 0, vec![Event::Exited(Some(0))]);
    assert_eq!(report.exit_code, 0);
    assert_eq!(report.messages, vec![Message::Banner, command("true"), Message::Success]);
}

#[test]
fn a_run_without_steps_succeeds_at_once() {
    let report = carry_out(Vec::new(), 0, vec![]);
    assert_eq!(report.exit_code, 0);
    assert!(report.launched.is_empty());
    assert_eq!(report.messages, vec![Message::Banner, Message::Success]);
}

#[test]
fn an_empty_command_launches_the_empty_program() {
    let mut runner = Runner::new(vec![Step::new(Vec::new(), "Nothing".to_string())]);
    runner.advance(Event::Identity(0));
    assert_eq!(
        runner.pending(),
        Action::Launch { program: String::new(), arguments: Vec::new() }
    );
}

#[test]
fn steps_run_in_their_order_and_stop_at_the_first_failure() {
    let steps = vec![
        Step::new(words(&["one"]), "First".to_string()),
        Step::new(words(&["two", "2"]), "Second".to_string()),
        Step::new(words(&["three"]), "Third".to_string()),
        Step::new(words(&["four"]), "Fourth".to_string()),
    ];
    let outcomes = vec![Event::Exited(Some(0)), Event::Exited(Some(0)), Event::Exited(Some(77))];
    let report = carry_out(steps, 0, outcomes);
    assert_eq!(report.exit_code, 77);
    assert_eq!(report.launched, vec![words(&["one"]), words(&["two", "2"]), words(&["three"])]);
}

#[test]
fn the_whole_console_text_of_a_successful_run() {
    let report = carry_out(plan(), 0, vec![Event::Exited(Some(0)), Event::Exited(Some(0))]);
    let text: String = report.messages.iter().map(|message| message.render()).collect();
    assert_eq!(
        text,
        "\x1b[35m\x1b[1m🦏 Rhino Linux Update & Cleanup\x1b[0m\n\n\x1b[0m\
         \x1b[34m\x1b[1m➜ \x1b[0mUpdating all packages …\x1b[0m\n\
         \x1b[36m▶ \x1b[0mrpk update -y\n\
         \x1b[34m\x1b[1m➜ \x1b[0mPurging orphaned packages …\x1b[0m\n\
         \x1b[36m▶ \x1b[0mrpk cleanup -y\n\
         \x1b[32m✅ Rhino Linux is up-to-date and squeaky-clean!\n\x1b[0m"
    );
}
