//! The control loop as a state machine.
//!
//! The machine never waits and never touches a device. Each step takes the
//! outcome of the last action and answers with the next action; whoever runs
//! the machine performs the action and comes back with its outcome.

use crate::compensation::{compensate, reading_of, whole_degrees, CompensatedReading};
use crate::display::{screen_for, screen_of, Screen};
use crate::mode::ModeToken;
use crate::sample::RawSample;
use crate::telemetry::{build_packet, packet_of, TelemetryPacket, RETRY_INTERVAL_MS};
use vstd::prelude::*;

verus! {

/// Milliseconds slept before every acquisition.
pub const POLL_INTERVAL_MS: u64 = 1000;

/// Milliseconds slept after a screen has been drawn, to let other tasks run.
pub const YIELD_INTERVAL_MS: u64 = 10;

/// How far the telemetry state has got.
#[derive(Clone, Copy, Debug, PartialEq, Eq, Structural)]
pub enum TelemetryStage {
    /// The picture is being drawn.
    Drawing,
    /// The packet is being sent.
    Sending,
    /// The pause between two attempts.
    Pausing,
}

/// The state of the control loop.
#[derive(Clone, Copy, Debug, PartialEq, Eq, Structural)]
pub enum State {
    /// Sleeping before the next acquisition.
    WaitPoll,
    /// Reading the two register frames.
    Sampling,
    /// Waiting for a token, with the reading of this cycle at hand.
    AwaitMode {
        /// The sample of this cycle.
        sample: RawSample,
        /// What the sample compensates to.
        reading: CompensatedReading,
    },
    /// Showing a text screen: drawing it, then yielding.
    Rendering {
        /// Whether the screen has been drawn.
        drawn: bool,
    },
    /// Broadcasting. No step leaves this state.
    Telemetry {
        /// The packet, fixed when the state was entered.
        packet: TelemetryPacket,
        /// How far the state has got.
        stage: TelemetryStage,
    },
}

/// The outcome of an action.
#[derive(Clone, Copy, Debug, PartialEq, Eq)]
pub enum Event {
    /// A sleep is over.
    Elapsed,
    /// The two register frames have been read.
    Frames {
        /// The four bytes that came back for the pressure registers.
        pressure: [u8; 4],
        /// The four bytes that came back for the temperature registers.
        temperature: [u8; 4],
    },
    /// The mailbox has handed out a token.
    Token(ModeToken),
    /// The screen has been drawn.
    Drawn,
    /// An attempt to send the packet has ended.
    Sent {
        /// Whether the packet went out.
        delivered: bool,
    },
}

/// What to do next.
#[derive(Clone, Copy, Debug, PartialEq, Eq, Structural)]
pub enum Action {
    /// Sleep, then report `Elapsed`.
    Sleep {
        /// How long, in milliseconds.
        millis: u64,
    },
    /// Read the pressure frame and the temperature frame, then report `Frames`.
    ReadSensor,
    /// Wait for a token in the mailbox, then report `Token`.
    DrainMailbox,
    /// Clear the display and draw the screen, then report `Drawn`.
    Show(Screen),
    /// Try once to send the packet, then report `Sent`.
    Send(TelemetryPacket),
}

/// A state and the action that leads out of it.
#[derive(Clone, Copy, Debug, PartialEq, Eq, Structural)]
pub struct Step {
    /// The state the loop is in.
    pub state: State,
    /// The action to perform in that state.
    pub action: Action,
}

/// The packet for a sample and its reading: the temperature in whole degrees
/// and the raw pressure word, each cut to its low byte.
#[verifier::opaque]
pub open spec fn telemetry_packet(sample: RawSample, reading: CompensatedReading)
    -> TelemetryPacket {
    packet_of(whole_degrees(reading.fine_temperature as int), sample.pressure_raw as int)
}

/// The step that `event` causes in `state`, or `None` where the state does
/// not wait for that event.
pub open spec fn spec_step(state: State, event: Event) -> Option<Step> {
    match (state, event) {
        (State::WaitPoll, Event::Elapsed) => Some(
            Step { state: State::Sampling, action: Action::ReadSensor },
        ),
        (State::Sampling, Event::Frames { pressure, temperature }) => {
            let sample = RawSample::of_frames(pressure, temperature);
            Some(
                Step {
                    state: State::AwaitMode { sample, reading: reading_of(sample) },
                    action: Action::DrainMailbox,
                },
            )
        },
        (State::AwaitMode { sample, reading }, Event::Token(token)) => {
            if token == ModeToken::Telemetry {
                Some(
                    Step {
                        state: State::Telemetry {
                            packet: telemetry_packet(sample, reading),
                            stage: TelemetryStage::Drawing,
                        },
                        action: Action::Show(Screen::Picture),
                    },
                )
            } else {
                Some(
                    Step {
                        state: State::Rendering { drawn: false },
                        action: Action::Show(screen_of(token, reading)),
                    },
                )
            }
        },
        (State::Rendering { drawn: false }, Event::Drawn) => Some(
            Step {
                state: State::Rendering { drawn: true },
                action: Action::Sleep { millis: YIELD_INTERVAL_MS },
            },
        ),
        (State::Rendering { drawn: true }, Event::Elapsed) => Some(
            Step { state: State::WaitPoll, action: Action::Sleep { millis: POLL_INTERVAL_MS } },
        ),
        (State::Telemetry { packet, stage: TelemetryStage::Drawing }, Event::Drawn) => Some(
            Step {
                state: State::Telemetry { packet, stage: TelemetryStage::Sending },
                action: Action::Send(packet),
            },
        ),
        (State::Telemetry { packet, stage: TelemetryStage::Sending }, Event::Sent { .. }) => Some(
            Step {
                state: State::Telemetry { packet, stage: TelemetryStage::Pausing },
                action: Action::Sleep { millis: RETRY_INTERVAL_MS },
            },
        ),
        (State::Telemetry { packet, stage: TelemetryStage::Pausing }, Event::Elapsed) => Some(
            Step {
                state: State::Telemetry { packet, stage: TelemetryStage::Sending },
                action: Action::Send(packet),
            },
        ),
        _ => None,
    }
}

impl State {
    /// A reading at hand is the reading of the sample at hand.
    pub open spec fn consistent(&self) -> bool {
        match *self {
            State::AwaitMode { sample, reading } => reading == reading_of(sample),
            _ => true,
        }
    }

    /// Whether the loop is broadcasting.
    pub fn is_telemetry(&self) -> (telemetry: bool)
        ensures
            telemetry == (*self is Telemetry),
    {
        match self {
            State::Telemetry { .. } => true,
            _ => false,
        }
    }
}

/// How the loop starts: with the sleep before the first acquisition.
pub fn start() -> (first: Step)
    ensures
        first == (Step {
            state: State::WaitPoll,
            action: Action::Sleep { millis: POLL_INTERVAL_MS },
        }),
{
    Step { state: State::WaitPoll, action: Action::Sleep { millis: POLL_INTERVAL_MS } }
}

/// Takes the outcome of the last action and gives the state that follows and
/// the next action. An event that the state does not wait for gives `None`.
pub fn step(state: &State, event: &Event) -> (next: Option<Step>)
    ensures
        next == spec_step(*state, *event),
        state.consistent() && next is Some ==> next->0.state.consistent(),
{
    match (*state, *event) {
        (State::WaitPoll, Event::Elapsed) => Some(
            Step { state: State::Sampling, action: Action::ReadSensor },
        ),
        (State::Sampling, Event::Frames { pressure, temperature }) => {
            let sample = RawSample::from_frames(pressure, temperature);
            let reading = compensate(&sample);
            Some(Step { state: State::AwaitMode { sample, reading }, action: Action::DrainMailbox })
        },
        (State::AwaitMode { sample, reading }, Event::Token(token)) => {
            match token {
                ModeToken::Telemetry => {
                    proof {
                        reveal(telemetry_packet);
                    }
                    let packet = build_packet(reading.degrees(), sample.pressure_raw);
                    Some(
                        Step {
                            state: State::Telemetry { packet, stage: TelemetryStage::Drawing },
                            action: Action::Show(Screen::Picture),
                        },
                    )
                },
                _ => Some(
                    Step {
                        state: State::Rendering { drawn: false },
                        action: Action::Show(screen_for(token, &reading)),
                    },
                ),
            }
        },
        (State::Rendering { drawn: false }, Event::Drawn) => Some(
            Step {
                state: State::Rendering { drawn: true },
                action: Action::Sleep { millis: YIELD_INTERVAL_MS },
            },
        ),
        (State::Rendering { drawn: true }, Event::Elapsed) => Some(
            Step { state: State::WaitPoll, action: Action::Sleep { millis: POLL_INTERVAL_MS } },
        ),
        (State::Telemetry { packet, stage: TelemetryStage::Drawing }, Event::Drawn) => Some(
            Step {
                state: State::Telemetry { packet, stage: TelemetryStage::Sending },
                action: Action::Send(packet),
            },
        ),
        (State::Telemetry { packet, stage: TelemetryStage::Sending }, Event::Sent { .. }) => Some(
            Step {
                state: State::Telemetry { packet, stage: TelemetryStage::Pausing },
                action: Action::Sleep { millis: RETRY_INTERVAL_MS },
            },
        ),
        (State::Telemetry { packet, stage: TelemetryStage::Pausing }, Event::Elapsed) => Some(
            Step {
                state: State::Telemetry { packet, stage: TelemetryStage::Sending },
                action: Action::Send(packet),
            },
        ),
        _ => None,
    }
}

/// The state reached from `state` by a run of events. An event that the
/// state at hand does not wait for changes nothing.
pub open spec fn state_after(state: State, events: Seq<Event>) -> State
    decreases events.len(),
{
    if events.len() == 0 {
        state
    } else {
        let before = state_after(state, events.drop_last());
        match spec_step(before, events.last()) {
            Some(step) => step.state,
            None => before,
        }
    }
}

/// The actions asked for, in order, while a run of events is taken from
/// `state` on.
pub open spec fn actions_of(state: State, events: Seq<Event>) -> Seq<Action>
    decreases events.len(),
{
    if events.len() == 0 {
        Seq::empty()
    } else {
        let earlier = actions_of(state, events.drop_last());
        match spec_step(state_after(state, events.drop_last()), events.last()) {
            Some(step) => earlier.push(step.action),
            None => earlier,
        }
    }
}

/// Whether an action is one of the two that the telemetry state repeats:
/// the pause, or a send of `packet`.
pub open spec fn is_broadcast_action(action: Action, packet: TelemetryPacket) -> bool {
    action == (Action::Sleep { millis: RETRY_INTERVAL_MS }) || action == Action::Send(packet)
}

/// What one more event adds to a run.
pub proof fn lemma_one_more_event(state: State, events: Seq<Event>, event: Event)
    ensures
        state_after(state, events.push(event)) == (match spec_step(
            state_after(state, events),
            event,
        ) {
            Some(step) => step.state,
            None => state_after(state, events),
        }),
        actions_of(state, events.push(event)) == (match spec_step(
            state_after(state, events),
            event,
        ) {
            Some(step) => actions_of(state, events).push(step.action),
            None => actions_of(state, events),
        }),
{
    assert(events.push(event).drop_last() =~= events);
}

/// A run that starts with `event` is the step for `event` followed by the
/// run of the rest from the state that the step leads to.
pub proof fn lemma_first_event(state: State, event: Event, rest: Seq<Event>)
    ensures
        state_after(state, seq![event] + rest) == state_after(
            state_after(state, seq![event]),
            rest,
        ),
        actions_of(state, seq![event] + rest) == actions_of(state, seq![event]) + actions_of(
            state_after(state, seq![event]),
            rest,
        ),
    decreases rest.len(),
{
    let first = seq![event];
    if rest.len() == 0 {
        assert(first + rest =~= first);
        assert(actions_of(state, first) + Seq::<Action>::empty() =~= actions_of(state, first));
    } else {
        let shorter = rest.drop_last();
        lemma_first_event(state, event, shorter);
        assert(first + rest =~= (first + shorter).push(rest.last()));
        lemma_one_more_event(state, first + shorter, rest.last());
        let middle = state_after(state, first);
        match spec_step(state_after(middle, shorter), rest.last()) {
            Some(step) => {
                assert(actions_of(state, first) + actions_of(middle, shorter).push(step.action)
                    =~= (actions_of(state, first) + actions_of(middle, shorter)).push(
                    step.action,
                ));
            },
            None => {},
        }
    }
}

/// A step taken in the telemetry state stays in it, keeps the packet, and
/// asks for the pause or for a send of the packet.
pub proof fn lemma_telemetry_step(packet: TelemetryPacket, stage: TelemetryStage, event: Event)
    ensures
        match spec_step(State::Telemetry { packet, stage }, event) {
            Some(step) => {
                &&& step.state is Telemetry
                &&& step.state->Telemetry_packet == packet
                &&& is_broadcast_action(step.action, packet)
            },
            None => true,
        },
{
}

/// The telemetry state is final: whatever events follow, the loop stays in
/// it with the packet it entered with, and asks for nothing but the pause and
/// a send of that packet. It never draws, never drains the mailbox and never
/// reads the sensor again.
pub proof fn lemma_telemetry_is_final(
    packet: TelemetryPacket,
    stage: TelemetryStage,
    events: Seq<Event>,
)
    ensures
        state_after(State::Telemetry { packet, stage }, events) is Telemetry,
        state_after(State::Telemetry { packet, stage }, events)->Telemetry_packet == packet,
        forall|i: int|
            0 <= i < actions_of(State::Telemetry { packet, stage }, events).len()
                ==> is_broadcast_action(
                #[trigger] actions_of(State::Telemetry { packet, stage }, events)[i],
                packet,
            ),
    decreases events.len(),
{
    let state = State::Telemetry { packet, stage };
    if events.len() > 0 {
        let earlier = events.drop_last();
        lemma_telemetry_is_final(packet, stage, earlier);
        let before = state_after(state, earlier);
        lemma_telemetry_step(packet, before->Telemetry_stage, events.last());
        assert(before == State::Telemetry { packet, stage: before->Telemetry_stage });
        let actions = actions_of(state, events);
        assert forall|i: int| 0 <= i < actions.len() implies is_broadcast_action(
            #[trigger] actions[i],
            packet,
        ) by {
            if i < actions_of(state, earlier).len() {
                assert(actions[i] == actions_of(state, earlier)[i]);
            }
        }
    }
}

/// Entering the telemetry state draws the picture once, and nothing is drawn
/// after that, whatever events follow: the first action is the picture, and
/// every later one is the pause or a send of the packet made from the sample
/// and the reading at hand.
pub proof fn lemma_picture_is_drawn_once(
    sample: RawSample,
    reading: CompensatedReading,
    rest: Seq<Event>,
)
    ensures
        ({
            let events = seq![Event::Token(ModeToken::Telemetry)] + rest;
            let actions = actions_of(State::AwaitMode { sample, reading }, events);
            &&& actions.len() >= 1
            &&& actions[0] == Action::Show(Screen::Picture)
            &&& forall|i: int|
                1 <= i < actions.len() ==> is_broadcast_action(
                    #[trigger] actions[i],
                    telemetry_packet(sample, reading),
                )
            &&& state_after(State::AwaitMode { sample, reading }, events) is Telemetry
        }),
{
    let state = State::AwaitMode { sample, reading };
    let token = Event::Token(ModeToken::Telemetry);
    let packet = telemetry_packet(sample, reading);
    lemma_one_more_event(state, Seq::empty(), token);
    assert(Seq::<Event>::empty().push(token) =~= seq![token]);
    lemma_first_event(state, token, rest);
    lemma_telemetry_is_final(packet, TelemetryStage::Drawing, rest);
    assert(actions_of(state, seq![token]) =~= seq![Action::Show(Screen::Picture)]);
    let later = actions_of(State::Telemetry { packet, stage: TelemetryStage::Drawing }, rest);
    let actions = actions_of(state, seq![token] + rest);
    assert(actions =~= seq![Action::Show(Screen::Picture)] + later);
    assert forall|i: int| 1 <= i < actions.len() implies is_broadcast_action(
        #[trigger] actions[i],
        packet,
    ) by {
        assert(actions[i] == later[i - 1]);
    }
}

/// After an attempt to send, failed or not, the loop pauses once for the
/// fixed interval and then tries once more with the same packet.
pub proof fn lemma_send_is_retried_after_one_pause(packet: TelemetryPacket, delivered: bool)
    ensures
        actions_of(
            State::Telemetry { packet, stage: TelemetryStage::Sending },
            seq![Event::Sent { delivered }, Event::Elapsed],
        ) == seq![Action::Sleep { millis: RETRY_INTERVAL_MS }, Action::Send(packet)],
        state_after(
            State::Telemetry { packet, stage: TelemetryStage::Sending },
            seq![Event::Sent { delivered }, Event::Elapsed],
        ) == (State::Telemetry { packet, stage: TelemetryStage::Sending }),
{
    let state = State::Telemetry { packet, stage: TelemetryStage::Sending };
    let none = Seq::<Event>::empty();
    let one = none.push(Event::Sent { delivered });
    lemma_one_more_event(state, none, Event::Sent { delivered });
    lemma_one_more_event(state, one, Event::Elapsed);
    assert(one.push(Event::Elapsed) =~= seq![Event::Sent { delivered }, Event::Elapsed]);
    assert(actions_of(state, one.push(Event::Elapsed)) =~= seq![
        Action::Sleep { millis: RETRY_INTERVAL_MS },
        Action::Send(packet),
    ]);
}

/// One cycle that ends in a text screen: the loop reads the sensor once,
/// drains the mailbox once, shows the screen of the token with the reading
/// of the frames of this same cycle, yields, and is back where it started.
pub proof fn lemma_display_cycle(pressure: [u8; 4], temperature: [u8; 4], token: ModeToken)
    requires
        token != ModeToken::Telemetry,
    ensures
        ({
            let events = seq![
                Event::Elapsed,
                Event::Frames { pressure, temperature },
                Event::Token(token),
                Event::Drawn,
                Event::Elapsed,
            ];
            let reading = reading_of(RawSample::of_frames(pressure, temperature));
            &&& actions_of(State::WaitPoll, events) == seq![
                Action::ReadSensor,
                Action::DrainMailbox,
                Action::Show(screen_of(token, reading)),
                Action::Sleep { millis: YIELD_INTERVAL_MS },
                Action::Sleep { millis: POLL_INTERVAL_MS },
            ]
            &&& state_after(State::WaitPoll, events) == State::WaitPoll
        }),
{
    let state = State::WaitPoll;
    let frames = Event::Frames { pressure, temperature };
    let sample = RawSample::of_frames(pressure, temperature);
    let reading = reading_of(sample);
    let shown = Action::Show(screen_of(token, reading));
    let e0 = Seq::<Event>::empty();
    let e1 = e0.push(Event::Elapsed);
    let e2 = e1.push(frames);
    let e3 = e2.push(Event::Token(token));
    let e4 = e3.push(Event::Drawn);
    let e5 = e4.push(Event::Elapsed);
    assert(state_after(state, e1) == State::Sampling && actions_of(state, e1) =~= seq![
        Action::ReadSensor,
    ]) by {
        lemma_one_more_event(state, e0, Event::Elapsed);
    }
    assert(state_after(state, e2) == (State::AwaitMode { sample, reading }) && actions_of(
        state,
        e2,
    ) =~= seq![Action::ReadSensor, Action::DrainMailbox]) by {
        lemma_one_more_event(state, e1, frames);
    }
    assert(state_after(state, e3) == (State::Rendering { drawn: false }) && actions_of(state, e3)
        =~= seq![Action::ReadSensor, Action::DrainMailbox, shown]) by {
        lemma_one_more_event(state, e2, Event::Token(token));
    }
    assert(state_after(state, e4) == (State::Rendering { drawn: true }) && actions_of(state, e4)
        =~= seq![
        Action::ReadSensor,
        Action::DrainMailbox,
        shown,
        Action::Sleep { millis: YIELD_INTERVAL_MS },
    ]) by {
        lemma_one_more_event(state, e3, Event::Drawn);
    }
    assert(state_after(state, e5) == State::WaitPoll && actions_of(state, e5) =~= seq![
        Action::ReadSensor,
        Action::DrainMailbox,
        shown,
        Action::Sleep { millis: YIELD_INTERVAL_MS },
        Action::Sleep { millis: POLL_INTERVAL_MS },
    ]) by {
        lemma_one_more_event(state, e4, Event::Elapsed);
    }
    assert(e5 =~= seq![
        Event::Elapsed,
        frames,
        Event::Token(token),
        Event::Drawn,
        Event::Elapsed,
    ]);
}

} // verus!
