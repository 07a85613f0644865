//! What the screen shows in each mode.

use crate::compensation::{displayed_pressure, whole_degrees, CompensatedReading};
use crate::mode::ModeToken;
use crate::text::{line_text, pressure_line, pressure_text, temperature_line, temperature_text};
use vstd::prelude::*;

verus! {

/// Horizontal position of every line of text.
pub const TEXT_X: i32 = 40;

/// Vertical position of the first line of text.
pub const FIRST_LINE_Y: i32 = 110;

/// Vertical position of the second line of text.
pub const SECOND_LINE_Y: i32 = 140;

/// Horizontal position of the picture.
pub const PICTURE_X: i32 = 77;

/// Vertical position of the picture.
pub const PICTURE_Y: i32 = 77;

/// Width of the picture in pixels.
pub const PICTURE_WIDTH: u32 = 86;

/// One line of text and where it is drawn.
#[derive(Debug, PartialEq, Eq)]
pub struct TextLine {
    /// The text.
    pub text: heapless::String<64>,
    /// Horizontal position.
    pub x: i32,
    /// Vertical position.
    pub y: i32,
}

/// What the cleared screen is filled with.
#[derive(Clone, Copy, Debug, PartialEq, Eq, Structural)]
pub enum Screen {
    /// The temperature alone.
    Temperature {
        /// Whole degrees.
        degrees: i32,
    },
    /// The pressure alone.
    Pressure {
        /// Pressure on the displayed scale.
        kilopascals: i32,
    },
    /// The pressure above the temperature.
    Both {
        /// Pressure on the displayed scale.
        kilopascals: i32,
        /// Whole degrees.
        degrees: i32,
    },
    /// The picture, and no text.
    Picture,
}

/// The screen that a mode shows for a reading: the values of the reading
/// scaled for display, or the picture.
#[verifier::opaque]
pub open spec fn screen_of(token: ModeToken, reading: CompensatedReading) -> Screen {
    let degrees = whole_degrees(reading.fine_temperature as int) as i32;
    let kilopascals = displayed_pressure(reading.pressure as int) as i32;
    match token {
        ModeToken::Temperature => Screen::Temperature { degrees },
        ModeToken::Pressure => Screen::Pressure { kilopascals },
        ModeToken::Both => Screen::Both { kilopascals, degrees },
        ModeToken::Telemetry => Screen::Picture,
    }
}

/// Chooses the screen for a mode, with the values of `reading` scaled for
/// display.
pub fn screen_for(token: ModeToken, reading: &CompensatedReading) -> (screen: Screen)
    ensures
        screen == screen_of(token, *reading),
{
    proof {
        reveal(screen_of);
    }
    match token {
        ModeToken::Temperature => Screen::Temperature { degrees: reading.degrees() },
        ModeToken::Pressure => Screen::Pressure { kilopascals: reading.kilopascals() },
        ModeToken::Both => Screen::Both {
            kilopascals: reading.kilopascals(),
            degrees: reading.degrees(),
        },
        ModeToken::Telemetry => Screen::Picture,
    }
}

/// Whether `line` holds `text` at the left margin and at height `y`.
pub open spec fn is_line(line: TextLine, text: Seq<char>, y: int) -> bool {
    line_text(line.text) == text && line.x == TEXT_X && line.y == y
}

impl Screen {
    /// Whether `lines` are the lines of text of this screen, top to bottom.
    pub open spec fn shows(&self, lines: Seq<TextLine>) -> bool {
        match *self {
            Screen::Temperature { degrees } => {
                &&& lines.len() == 1
                &&& is_line(lines[0], temperature_text(degrees as int), FIRST_LINE_Y as int)
            },
            Screen::Pressure { kilopascals } => {
                &&& lines.len() == 1
                &&& is_line(lines[0], pressure_text(kilopascals as int), FIRST_LINE_Y as int)
            },
            Screen::Both { kilopascals, degrees } => {
                &&& lines.len() == 2
                &&& is_line(lines[0], pressure_text(kilopascals as int), FIRST_LINE_Y as int)
                &&& is_line(lines[1], temperature_text(degrees as int), SECOND_LINE_Y as int)
            },
            Screen::Picture => lines.len() == 0,
        }
    }

    /// Whether this screen is the picture.
    pub fn is_picture(&self) -> (picture: bool)
        ensures
            picture == (*self == Screen::Picture),
    {
        match self {
            Screen::Picture => true,
            _ => false,
        }
    }

    /// The lines of text to draw, top to bottom.
    pub fn lines(&self) -> (lines: Vec<TextLine>)
        ensures
            self.shows(lines@),
    {
        let mut lines: Vec<TextLine> = Vec::new();
        match *self {
            Screen::Temperature { degrees } => {
                lines.push(
                    TextLine { text: temperature_line(degrees), x: TEXT_X, y: FIRST_LINE_Y },
                );
            },
            Screen::Pressure { kilopascals } => {
                lines.push(
                    TextLine { text: pressure_line(kilopascals), x: TEXT_X, y: FIRST_LINE_Y },
                );
            },
            Screen::Both { kilopascals, degrees } => {
                lines.push(
                    TextLine { text: pressure_line(kilopascals), x: TEXT_X, y: FIRST_LINE_Y },
                );
                lines.push(
                    TextLine { text: temperature_line(degrees), x: TEXT_X, y: SECOND_LINE_Y },
                );
            },
            Screen::Picture => {},
        }
        lines
    }
}

} // verus!
