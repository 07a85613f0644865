//! Display modes and the buttons that select them.

use vstd::prelude::*;

verus! {

/// What the station is asked to show. One token stands for one press.
#[derive(Clone, Copy, Debug, PartialEq, Eq, Structural)]
pub enum ModeToken {
    /// Show the temperature.
    Temperature,
    /// Show the pressure.
    Pressure,
    /// Show pressure and temperature.
    Both,
    /// Show the picture and broadcast telemetry from then on.
    Telemetry,
}

/// The four buttons of the station.
#[derive(Clone, Copy, Debug, PartialEq, Eq, Structural)]
pub enum Button {
    /// First button.
    A,
    /// Second button.
    B,
    /// Third button.
    C,
    /// Fourth button.
    D,
}

/// The token that a button stands for.
pub open spec fn token_of(button: Button) -> ModeToken {
    match button {
        Button::A => ModeToken::Temperature,
        Button::B => ModeToken::Pressure,
        Button::C => ModeToken::Both,
        Button::D => ModeToken::Telemetry,
    }
}

/// The token to post when a rising edge is seen on `button`.
pub fn button_token(button: Button) -> (token: ModeToken)
    ensures
        token == token_of(button),
{
    match button {
        Button::A => ModeToken::Temperature,
        Button::B => ModeToken::Pressure,
        Button::C => ModeToken::Both,
        Button::D => ModeToken::Telemetry,
    }
}

} // verus!
