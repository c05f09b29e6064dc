use rhino_update::message::{status_string, Message};
use rhino_update::style::{paint, Role};

#[test]
fn escape_sequences() {
    assert_eq!(Role::Reset.escape(), "\x1b[0m");
    assert_eq!(Role::Bold.escape(), "\x1b[1m");
    assert_eq!(Role::Red.escape(), "\x1b[31m");
    assert_eq!(Role::Green.escape(), "\x1b[32m");
    assert_eq!(Role::Yellow.escape(), "\x1b[33m");
    assert_eq!(Role::Blue.escape(), "\x1b[34m");
    assert_eq!(Role::Magenta.escape(), "\x1b[35m");
    assert_eq!(Role::Cyan.escape(), "\x1b[36m");
}

#[test]
fn paint_wraps_the_text_and_resets() {
    let mut out = String::from(">");
    paint(&mut out, Role::Yellow, "careful");
    assert_eq!(out, ">\x1b[33mcareful\x1b[0m");
}

#[test]
fn paint_of_nothing_is_the_two_sequences() {
    let mut out = String::new();
    paint(&mut out, Role::Cyan, "");
    assert_eq!(out, "\x1b[36m\x1b[0m");
}

#[test]
fn status_of_a_code_and_of_none() {
    assert_eq!(status_string(Some(3)), "Some(3)");
    assert_eq!(status_string(Some(-11)), "Some(-11)");
    assert_eq!(status_string(Some(0)), "Some(0)");
    assert_eq!(status_string(None), "None");
}

#[test]
fn status_reads_as_the_debug_form() {
    for code in [Some(1), Some(255), Some(i32::MIN), Some(i32::MAX), None] {
        assert_eq!(status_string(code), format!("{:?}", code));
    }
}

#[test]
fn not_privileged_text() {
    assert_eq!(
        Message::NotPrivileged.render(),
        "\x1b[31m❌ This script must be run as root (sudo).\n\x1b[0m"
    );
}

#[test]
fn banner_text() {
    assert_eq!(
        Message::Banner.render(),
        "\x1b[35m\x1b[1m🦏 Rhino Linux Update & Cleanup\x1b[0m\n\n\x1b[0m"
    );
}

#[test]
fn heading_text() {
    assert_eq!(
        Message::Heading("Updating all packages …".to_string()).render(),
        "\x1b[34m\x1b[1m➜ \x1b[0mUpdating all packages …\x1b[0m\n"
    );
}

#[test]
fn command_text() {
    assert_eq!(
        Message::Command("rpk update -y".to_string()).render(),
        "\x1b[36m▶ \x1b[0mrpk update -y\n"
    );
}

#[test]
fn command_failed_text_holds_the_code() {
    assert_eq!(
        Message::CommandFailed(Some(3)).render(),
        "\x1b[31m❌ Command failed with exit code: Some(3)\n\x1b[0m"
    );
    assert_eq!(
        Message::CommandFailed(None).render(),
        "\x1b[31m❌ Command failed with exit code: None\n\x1b[0m"
    );
}

#[test]
fn error_text_holds_the_cause() {
    let cause = "No such file or directory (os error 2)";
    let text = Message::Error(cause.to_string()).render();
    assert_eq!(text, "\x1b[31m❌ Error: No such file or directory (os error 2)\n\x1b[0m");
    assert!(text.contains(cause));
}

#[test]
fn success_text() {
    assert_eq!(
        Message::Success.render(),
        "\x1b[32m✅ Rhino Linux is up-to-date and squeaky-clean!\n\x1b[0m"
    );
}
