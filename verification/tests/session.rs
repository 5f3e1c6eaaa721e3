use gamepad_host::errors::{GamepadError, PipeError};
use gamepad_host::gamepad::GamepadReport;
use gamepad_host::session::{Action, Event, Session};

/// A session that has come to its first read, with or without a light bar.
fn reading(has_lightbar: bool) -> Session {
    let mut s = Session::new(has_lightbar);
    assert_eq!(s.action(), Action::SetPlayerIndex(1));
    if has_lightbar {
        assert_eq!(s.step(Event::Done), Action::SetLightbar { red: 0, green: 255, blue: 0 });
    }
    assert_eq!(s.step(Event::Done), Action::Poll);
    s
}

/// Hands a report to the session and collects the actions up to the next read; every action
/// is answered by `answer`.
fn round(s: &mut Session, report: GamepadReport, answer: fn(&Action) -> Event) -> Vec<Action> {
    let mut actions = Vec::new();
    let mut action = s.step(Event::Report(report));
    while action != Action::Poll {
        actions.push(action);
        action = s.step(answer(&action));
    }
    actions
}

fn all_done(_: &Action) -> Event {
    Event::Done
}

fn rumble_fails(action: &Action) -> Event {
    match action {
        Action::SetRumble(_) => Event::Failed,
        _ => Event::Done,
    }
}

fn number_fails(action: &Action) -> Event {
    match action {
        Action::SetPlayerIndex(_) => Event::Failed,
        _ => Event::Done,
    }
}

fn light_fails(action: &Action) -> Event {
    match action {
        Action::SetLightbar { .. } => Event::Failed,
        _ => Event::Done,
    }
}

fn idle() -> GamepadReport {
    GamepadReport::default()
}

#[test]
fn session_begins_with_the_player_number() {
    let mut s = Session::new(false);
    assert_eq!(s.action(), Action::SetPlayerIndex(1));
    assert_eq!(s.step(Event::Done), Action::Poll);
}

#[test]
fn session_greets_a_light_bar() {
    let mut s = Session::new(true);
    assert_eq!(s.step(Event::Failed), Action::SetLightbar { red: 0, green: 255, blue: 0 });
    assert_eq!(s.step(Event::Failed), Action::Poll);
}

#[test]
fn unchanged_reports_are_silent() {
    let mut s = reading(true);
    assert_eq!(s.step(Event::Report(idle())), Action::Poll);
    let trembling = GamepadReport { left_stick_x: 300, left_trigger: 5, ..idle() };
    assert_eq!(s.step(Event::Report(trembling)), Action::Poll);
}

#[test]
fn changed_report_is_announced_without_jitter() {
    let mut s = reading(false);
    let raw = GamepadReport { a: true, left_stick_x: 300, right_trigger: 255, ..idle() };
    let clean = GamepadReport { a: true, right_trigger: 255, ..idle() };
    assert_eq!(round(&mut s, raw, all_done), vec![Action::Announce(clean)]);
    assert_eq!(round(&mut s, raw, all_done), vec![]);
}

#[test]
fn first_change_sets_the_colour_of_a_light_bar() {
    let mut s = reading(true);
    let report = GamepadReport { a: true, ..idle() };
    assert_eq!(
        round(&mut s, report, all_done),
        vec![
            Action::Announce(report),
            Action::SetLightbar { red: 127, green: 127, blue: 127 },
        ]
    );
    let report = GamepadReport { b: true, ..idle() };
    assert_eq!(round(&mut s, report, all_done), vec![Action::Announce(report)]);
}

#[test]
fn one_report_can_change_everything() {
    let mut s = reading(true);
    let report = GamepadReport {
        left_trigger: 100,
        dpad_up: true,
        left_stick_x: 32767,
        right_stick_y: 32767,
        ..idle()
    };
    assert_eq!(
        round(&mut s, report, all_done),
        vec![
            Action::Announce(report),
            Action::SetRumble(96),
            Action::SetPlayerIndex(1),
            Action::SetLightbar { red: 255, green: 0, blue: 0 },
        ]
    );
    assert_eq!(s.last, report);
    assert_eq!(s.last_rumble, 96);
    assert_eq!(s.players, 1);
    assert_eq!(s.last_rgb, (15, 0, 0));
}

#[test]
fn rumble_is_sent_when_its_step_changes() {
    let mut s = reading(false);
    let pull = |t: u8| GamepadReport { left_trigger: t, ..idle() };
    assert_eq!(
        round(&mut s, pull(100), all_done),
        vec![Action::Announce(pull(100)), Action::SetRumble(96)]
    );
    assert_eq!(round(&mut s, pull(101), all_done), vec![Action::Announce(pull(101))]);
    assert_eq!(
        round(&mut s, pull(255), all_done),
        vec![Action::Announce(pull(255)), Action::SetRumble(255)]
    );
    assert_eq!(
        round(&mut s, pull(10), all_done),
        vec![Action::Announce(idle()), Action::SetRumble(0)]
    );
}

#[test]
fn player_number_moves_once_per_press() {
    let mut s = reading(false);
    let up = GamepadReport { dpad_up: true, ..idle() };
    let up_and_a = GamepadReport { dpad_up: true, a: true, ..idle() };
    assert_eq!(
        round(&mut s, up, all_done),
        vec![Action::Announce(up), Action::SetPlayerIndex(1)]
    );
    assert_eq!(round(&mut s, up_and_a, all_done), vec![Action::Announce(up_and_a)]);
    assert_eq!(round(&mut s, idle(), all_done), vec![Action::Announce(idle())]);
    assert_eq!(
        round(&mut s, up, all_done),
        vec![Action::Announce(up), Action::SetPlayerIndex(2)]
    );
}

#[test]
fn player_number_stays_between_zero_and_five() {
    let mut s = reading(false);
    let up = GamepadReport { dpad_up: true, ..idle() };
    let down = GamepadReport { dpad_down: true, ..idle() };
    assert_eq!(round(&mut s, down, all_done), vec![Action::Announce(down)]);
    assert_eq!(s.players, 0);
    for expected in [1, 2, 3, 4, 5, 5, 5] {
        round(&mut s, idle(), all_done);
        round(&mut s, up, all_done);
        assert_eq!(s.players, expected);
    }
    for expected in [4, 3, 2, 1, 0, 0] {
        round(&mut s, idle(), all_done);
        round(&mut s, down, all_done);
        assert_eq!(s.players, expected);
    }
}

#[test]
fn up_wins_over_down() {
    let mut s = reading(false);
    let both = GamepadReport { dpad_up: true, dpad_down: true, ..idle() };
    assert_eq!(
        round(&mut s, both, all_done),
        vec![Action::Announce(both), Action::SetPlayerIndex(1)]
    );
    let mut s = reading(false);
    s.players = 5;
    assert_eq!(
        round(&mut s, both, all_done),
        vec![Action::Announce(both), Action::SetPlayerIndex(4)]
    );
}

#[test]
fn colour_without_light_bar_is_not_sent() {
    let mut s = reading(false);
    let report = GamepadReport { right_stick_y: 32767, ..idle() };
    assert_eq!(round(&mut s, report, all_done), vec![Action::Announce(report)]);
    assert_eq!(s.last_rgb, (15, 15, 15));
}

#[test]
fn failed_rumble_ends_all_output() {
    let mut s = reading(true);
    let report = GamepadReport { left_trigger: 100, dpad_up: true, left_stick_x: 32767, ..idle() };
    assert_eq!(
        round(&mut s, report, rumble_fails),
        vec![Action::Announce(report), Action::SetRumble(96)]
    );
    assert!(!s.output_ok);
    assert_eq!(s.last_rumble, 96);
    assert_eq!(s.players, 0);
    assert_eq!(round(&mut s, idle(), all_done), vec![Action::Announce(idle())]);
}

#[test]
fn failed_player_number_ends_all_output() {
    let mut s = reading(true);
    let report = GamepadReport { dpad_up: true, left_stick_x: 32767, ..idle() };
    assert_eq!(
        round(&mut s, report, number_fails),
        vec![Action::Announce(report), Action::SetPlayerIndex(1)]
    );
    assert!(!s.output_ok);
    assert_eq!(s.players, 1);
}

#[test]
fn failed_colour_ends_all_output() {
    let mut s = reading(true);
    let report = GamepadReport { left_stick_x: 32767, right_stick_y: -32768, a: true, ..idle() };
    assert_eq!(round(&mut s, report, light_fails), vec![Action::Announce(report)]);
    assert!(s.output_ok);
    let bright = GamepadReport { left_stick_x: 32767, right_stick_y: 32767, ..idle() };
    assert_eq!(
        round(&mut s, bright, light_fails),
        vec![
            Action::Announce(bright),
            Action::SetLightbar { red: 255, green: 0, blue: 0 },
        ]
    );
    assert!(!s.output_ok);
    assert_eq!(s.last_rgb, (15, 0, 0));
}

#[test]
fn device_without_output_is_only_read() {
    let mut s = Session::new(false);
    assert_eq!(s.step(Event::Failed), Action::Poll);
    let report = GamepadReport { left_trigger: 200, dpad_up: true, right_stick_y: 32767, ..idle() };
    assert_eq!(round(&mut s, report, all_done), vec![Action::Announce(report)]);
}

#[test]
fn removal_ends_the_session() {
    let mut s = reading(true);
    let gone = GamepadError::Transfer(PipeError::Disconnected);
    assert_eq!(s.step(Event::ReadError(gone)), Action::Close { stop_rumble: false });
    assert_eq!(s.step(Event::Done), Action::Finish);
    assert_eq!(s.step(Event::Report(GamepadReport { a: true, ..idle() })), Action::Finish);
}

#[test]
fn other_read_errors_stop_the_motors_first() {
    for e in [
        GamepadError::Transfer(PipeError::Stall),
        GamepadError::NotSupported,
        GamepadError::NoPipe,
    ] {
        let mut s = Session::new(false);
        s.step(Event::Failed);
        assert_eq!(s.step(Event::ReadError(e)), Action::Close { stop_rumble: true });
        assert_eq!(s.step(Event::Failed), Action::Finish);
    }
}

#[test]
fn events_that_are_no_answer_change_nothing() {
    let mut s = Session::new(true);
    let before = s;
    assert_eq!(s.step(Event::Report(idle())), Action::SetPlayerIndex(1));
    assert_eq!(s, before);
    let mut s = reading(true);
    let before = s;
    assert_eq!(s.step(Event::Done), Action::Poll);
    assert_eq!(s, before);
}

#[test]
fn motors_follow_the_trigger() {
    let mut s = reading(true);
    let mut strength = 0;
    for trigger in [0u8, 29, 30, 31, 47, 48, 200, 255, 239, 16, 100, 0] {
        let report = GamepadReport { left_trigger: trigger, ..idle() };
        for action in round(&mut s, report, all_done) {
            if let Action::SetRumble(level) = action {
                strength = level;
            }
        }
        let expected = match trigger {
            0..=29 => 0,
            240..=255 => 255,
            _ => trigger / 16 * 16,
        };
        assert_eq!(strength, expected);
        assert_eq!(s.last_rumble, expected);
    }
}
