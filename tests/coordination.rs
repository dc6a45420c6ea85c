use my_notif::menu::{ui_step, MenuAction, MenuIds, UiInput, UiStep};
use my_notif::server::{server_step, ReadOutcome, ServerEvent, ServerStep};
use my_notif::shutdown::{
    exit_code, ServerOutcome, ShutdownReason, ShutdownSignal, Termination,
};

fn ids() -> MenuIds {
    MenuIds::new("1001".to_string(), "1002".to_string())
}

fn input(quit: bool, menu_event: Option<&str>) -> UiInput {
    UiInput { quit, menu_event: menu_event.map(|s| s.to_string()) }
}

#[test]
fn connection_with_two_lines_is_shown() {
    let step = server_step(ServerEvent::Read(ReadOutcome::Received(b"Hello\nWorld".to_vec())));
    assert_eq!(step, ServerStep::Show(vec!["Hello".to_string(), "World".to_string()]));
}

#[test]
fn oversized_connection_is_cut_to_capacity() {
    let step = server_step(ServerEvent::Read(ReadOutcome::Received(vec![b'A'; 2000])));
    assert_eq!(step, ServerStep::Show(vec!["A".repeat(1024)]));
}

#[test]
fn empty_connection_shows_no_line() {
    assert_eq!(
        server_step(ServerEvent::Read(ReadOutcome::Received(Vec::new()))),
        ServerStep::Show(Vec::new())
    );
    assert_eq!(server_step(ServerEvent::Read(ReadOutcome::PeerClosed)), ServerStep::Show(Vec::new()));
}

#[test]
fn malformed_connection_is_skipped() {
    let step = server_step(ServerEvent::Read(ReadOutcome::Received(vec![0xC3, 0x28])));
    assert_eq!(step, ServerStep::Continue);
    assert_eq!(server_step(ServerEvent::Read(ReadOutcome::Failed)), ServerStep::Continue);
}

#[test]
fn accept_failure_ends_the_server_loop() {
    assert_eq!(
        server_step(ServerEvent::AcceptFailed { listener_closed: true }),
        ServerStep::End(ServerOutcome::Stopped)
    );
    assert_eq!(
        server_step(ServerEvent::AcceptFailed { listener_closed: false }),
        ServerStep::End(ServerOutcome::Failed)
    );
    assert_eq!(server_step(ServerEvent::ShowFailed), ServerStep::End(ServerOutcome::Failed));
}

#[test]
fn server_loop_ends_at_first_accept_after_close() {
    let events = vec![
        ServerEvent::Read(ReadOutcome::Received(b"x".to_vec())),
        ServerEvent::Read(ReadOutcome::Failed),
        ServerEvent::AcceptFailed { listener_closed: true },
    ];
    let mut steps = 0;
    for event in events {
        if let ServerStep::End(outcome) = server_step(event) {
            assert_eq!(outcome, ServerOutcome::Stopped);
            break;
        }
        steps += 1;
    }
    assert_eq!(steps, 2);
}

#[test]
fn menu_identifiers_are_classified() {
    let ids = ids();
    assert_eq!(ids.classify(&"1001".to_string()), MenuAction::RunTestNotification);
    assert_eq!(ids.classify(&"1002".to_string()), MenuAction::RequestExit);
    assert_eq!(ids.classify(&"7".to_string()), MenuAction::Unrecognized("7".to_string()));
}

#[test]
fn test_item_shows_the_test_notification() {
    let mut signal = ShutdownSignal::new();
    let step = ui_step(&ids(), &mut signal, input(false, Some("1001")));
    assert_eq!(
        step,
        UiStep::ShowTest(vec![
            "Test Notification".to_string(),
            "This is a test message.".to_string()
        ])
    );
    assert_eq!(signal.observe(), None);
}

#[test]
fn exit_item_raises_the_signal_and_posts_quit() {
    let mut signal = ShutdownSignal::new();
    let step = ui_step(&ids(), &mut signal, input(false, Some("1002")));
    assert_eq!(step, UiStep::PostQuit);
    assert_eq!(signal.observe(), Some(ShutdownReason::UserRequestedExit));
    assert_eq!(ui_step(&ids(), &mut signal, input(true, None)), UiStep::Exit);
    assert_eq!(exit_code(Termination::Finished(signal.observe())), 0);
}

#[test]
fn unknown_menu_identifier_fails() {
    let mut signal = ShutdownSignal::new();
    assert_eq!(
        ui_step(&ids(), &mut signal, input(false, Some("999"))),
        UiStep::Fail("999".to_string())
    );
    assert!(!signal.is_raised());
}

#[test]
fn idle_wake_up_continues() {
    let mut signal = ShutdownSignal::new();
    assert_eq!(ui_step(&ids(), &mut signal, input(false, None)), UiStep::Continue);
}

#[test]
fn posted_quit_ends_the_ui_loop() {
    let mut signal = ShutdownSignal::new();
    signal.raise(ShutdownReason::ServerLoopEnded(ServerOutcome::Failed));
    let inputs = vec![input(false, None), input(false, Some("1001")), input(true, Some("1002"))];
    let mut steps = 0;
    for i in inputs {
        match ui_step(&ids(), &mut signal, i) {
            UiStep::Exit | UiStep::Fail(_) => break,
            _ => steps += 1,
        }
    }
    assert_eq!(steps, 2);
    assert_eq!(signal.observe(), Some(ShutdownReason::ServerLoopEnded(ServerOutcome::Failed)));
}

#[test]
fn signal_keeps_the_first_reason() {
    let mut signal = ShutdownSignal::new();
    assert!(!signal.is_raised());
    assert!(signal.raise(ShutdownReason::UserRequestedExit));
    assert!(!signal.raise(ShutdownReason::ServerLoopEnded(ServerOutcome::Failed)));
    assert!(!signal.raise(ShutdownReason::UserRequestedExit));
    assert_eq!(signal.observe(), Some(ShutdownReason::UserRequestedExit));
}

#[test]
fn exit_codes() {
    assert_eq!(exit_code(Termination::Finished(Some(ShutdownReason::UserRequestedExit))), 0);
    assert_eq!(
        exit_code(Termination::Finished(Some(ShutdownReason::ServerLoopEnded(
            ServerOutcome::Stopped
        )))),
        0
    );
    assert_eq!(
        exit_code(Termination::Finished(Some(ShutdownReason::ServerLoopEnded(
            ServerOutcome::Failed
        )))),
        1
    );
    assert_eq!(exit_code(Termination::Finished(None)), 0);
    assert_eq!(exit_code(Termination::UiFailed), 1);
}

#[test]
fn startup_failure_exits_non_zero() {
    assert_ne!(exit_code(Termination::StartupFailed), 0);
}
