use weather_station::compensation::CompensatedReading;
use weather_station::display::Screen;
use weather_station::mode::ModeToken;
use weather_station::orchestrator::{
    start, step, Action, Event, State, Step, TelemetryStage, POLL_INTERVAL_MS, YIELD_INTERVAL_MS,
};
use weather_station::sample::RawSample;
use weather_station::telemetry::TelemetryPacket;

fn run(mut state: State, events: &[Event]) -> (State, Vec<Action>) {
    let mut actions = Vec::new();
    for event in events {
        if let Some(next) = step(&state, event) {
            state = next.state;
            actions.push(next.action);
        }
    }
    (state, actions)
}

fn frames() -> Event {
    Event::Frames { pressure: [0, 0x80, 0x00, 0x00], temperature: [0, 0x80, 0x00, 0x00] }
}

fn awaiting() -> State {
    State::AwaitMode {
        sample: RawSample { pressure_raw: 0x80000, temperature_raw: 0x80000 },
        reading: CompensatedReading { fine_temperature: 121072, pressure: 208111 },
    }
}

#[test]
fn the_loop_starts_with_the_poll_sleep() {
    assert_eq!(start(), Step { state: State::WaitPoll, action: Action::Sleep { millis: 1000 } });
    assert_eq!(POLL_INTERVAL_MS, 1000);
    assert_eq!(YIELD_INTERVAL_MS, 10);
}

#[test]
fn sampling_compensates_the_frames_of_this_cycle() {
    let next = step(&State::WaitPoll, &Event::Elapsed).unwrap();
    assert_eq!(next, Step { state: State::Sampling, action: Action::ReadSensor });
    let next = step(&next.state, &frames()).unwrap();
    assert_eq!(next, Step { state: awaiting(), action: Action::DrainMailbox });
}

#[test]
fn a_display_cycle_drains_once_and_returns_to_the_start() {
    for (token, screen) in [
        (ModeToken::Temperature, Screen::Temperature { degrees: 23 }),
        (ModeToken::Pressure, Screen::Pressure { kilopascals: 812 }),
        (ModeToken::Both, Screen::Both { kilopascals: 812, degrees: 23 }),
    ] {
        let (state, actions) = run(
            State::WaitPoll,
            &[Event::Elapsed, frames(), Event::Token(token), Event::Drawn, Event::Elapsed],
        );
        assert_eq!(state, State::WaitPoll);
        assert_eq!(
            actions,
            vec![
                Action::ReadSensor,
                Action::DrainMailbox,
                Action::Show(screen),
                Action::Sleep { millis: 10 },
                Action::Sleep { millis: 1000 },
            ]
        );
    }
}

#[test]
fn four_tokens_take_four_cycles() {
    let mut state = State::WaitPoll;
    let mut drains = 0;
    let mut shown = Vec::new();
    for token in [ModeToken::Both, ModeToken::Temperature, ModeToken::Pressure, ModeToken::Both] {
        let (next, actions) = run(
            state,
            &[Event::Elapsed, frames(), Event::Token(token), Event::Drawn, Event::Elapsed],
        );
        state = next;
        for action in actions {
            match action {
                Action::DrainMailbox => drains += 1,
                Action::Show(screen) => shown.push(screen),
                _ => {}
            }
        }
    }
    assert_eq!(drains, 4);
    assert_eq!(
        shown,
        vec![
            Screen::Both { kilopascals: 812, degrees: 23 },
            Screen::Temperature { degrees: 23 },
            Screen::Pressure { kilopascals: 812 },
            Screen::Both { kilopascals: 812, degrees: 23 },
        ]
    );
}

#[test]
fn telemetry_draws_the_picture_once_and_never_draws_again() {
    let (state, actions) = run(
        awaiting(),
        &[
            Event::Token(ModeToken::Telemetry),
            Event::Drawn,
            Event::Sent { delivered: true },
            Event::Token(ModeToken::Temperature),
            Event::Elapsed,
            Event::Token(ModeToken::Both),
            Event::Drawn,
            frames(),
            Event::Sent { delivered: false },
            Event::Elapsed,
        ],
    );
    let packet = TelemetryPacket { temperature: 23, pressure: 0 };
    assert_eq!(state, State::Telemetry { packet, stage: TelemetryStage::Sending });
    assert_eq!(
        actions,
        vec![
            Action::Show(Screen::Picture),
            Action::Send(packet),
            Action::Sleep { millis: 1000 },
            Action::Send(packet),
            Action::Sleep { millis: 1000 },
            Action::Send(packet),
        ]
    );
    let pictures = actions.iter().filter(|a| matches!(a, Action::Show(_))).count();
    assert_eq!(pictures, 1);
    assert!(!actions.contains(&Action::DrainMailbox));
}

#[test]
fn a_failed_send_is_followed_by_one_pause_and_one_retry_of_the_same_packet() {
    let packet = TelemetryPacket { temperature: 23, pressure: 0xac };
    let sending = State::Telemetry { packet, stage: TelemetryStage::Sending };
    let paused = step(&sending, &Event::Sent { delivered: false }).unwrap();
    assert_eq!(
        paused,
        Step {
            state: State::Telemetry { packet, stage: TelemetryStage::Pausing },
            action: Action::Sleep { millis: 1000 },
        }
    );
    let retried = step(&paused.state, &Event::Elapsed).unwrap();
    assert_eq!(retried, Step { state: sending, action: Action::Send(packet) });
}

#[test]
fn a_send_that_went_out_is_repeated_all_the_same() {
    let packet = TelemetryPacket { temperature: 1, pressure: 2 };
    let sending = State::Telemetry { packet, stage: TelemetryStage::Sending };
    let (state, actions) =
        run(sending, &[Event::Sent { delivered: true }, Event::Elapsed]);
    assert_eq!(state, sending);
    assert_eq!(actions, vec![Action::Sleep { millis: 1000 }, Action::Send(packet)]);
}

#[test]
fn the_packet_holds_the_degrees_and_the_raw_pressure() {
    let state = State::AwaitMode {
        sample: RawSample { pressure_raw: 0x655ac, temperature_raw: 0x7eed0 },
        reading: CompensatedReading { fine_temperature: 114747, pressure: 250829 },
    };
    let next = step(&state, &Event::Token(ModeToken::Telemetry)).unwrap();
    assert_eq!(
        next.state,
        State::Telemetry {
            packet: TelemetryPacket { temperature: 22, pressure: 0xac },
            stage: TelemetryStage::Drawing,
        }
    );
    assert!(next.state.is_telemetry());
    assert!(!state.is_telemetry());
}

#[test]
fn an_event_that_is_not_waited_for_is_refused() {
    assert_eq!(step(&State::WaitPoll, &Event::Drawn), None);
    assert_eq!(step(&State::WaitPoll, &Event::Token(ModeToken::Both)), None);
    assert_eq!(step(&State::Sampling, &Event::Elapsed), None);
    assert_eq!(step(&awaiting(), &Event::Elapsed), None);
    assert_eq!(step(&awaiting(), &frames()), None);
    assert_eq!(step(&State::Rendering { drawn: false }, &Event::Elapsed), None);
    assert_eq!(step(&State::Rendering { drawn: true }, &Event::Drawn), None);
    let packet = TelemetryPacket { temperature: 0, pressure: 0 };
    for stage in [TelemetryStage::Drawing, TelemetryStage::Sending, TelemetryStage::Pausing] {
        let state = State::Telemetry { packet, stage };
        assert_eq!(step(&state, &Event::Token(ModeToken::Temperature)), None);
        assert_eq!(step(&state, &frames()), None);
    }
}
