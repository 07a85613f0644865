use weather_station::compensation::CompensatedReading;
use weather_station::display::{
    screen_for, Screen, FIRST_LINE_Y, PICTURE_WIDTH, PICTURE_X, PICTURE_Y, SECOND_LINE_Y, TEXT_X,
};
use weather_station::mode::ModeToken;
use weather_station::text::{pressure_line, temperature_line, LINE_BYTES};

#[test]
fn temperature_line_reads_in_full() {
    assert_eq!(temperature_line(23).as_str(), "Temperature: 23\u{b0} C");
    assert_eq!(temperature_line(0).as_str(), "Temperature: 0\u{b0} C");
    assert_eq!(temperature_line(-7).as_str(), "Temperature: -7\u{b0} C");
    assert_eq!(temperature_line(-166).as_str(), "Temperature: -166\u{b0} C");
    assert_eq!(temperature_line(100).as_str(), "Temperature: 100\u{b0} C");
}

#[test]
fn pressure_line_reads_in_full() {
    assert_eq!(pressure_line(812).as_str(), "Pressure: 812 kPa");
    assert_eq!(pressure_line(0).as_str(), "Pressure: 0 kPa");
    assert_eq!(pressure_line(9).as_str(), "Pressure: 9 kPa");
    assert_eq!(pressure_line(10).as_str(), "Pressure: 10 kPa");
    assert_eq!(pressure_line(-1).as_str(), "Pressure: -1 kPa");
    assert_eq!(pressure_line(1048575).as_str(), "Pressure: 1048575 kPa");
}

#[test]
fn the_longest_numbers_fit_a_line() {
    let lowest = temperature_line(i32::MIN);
    assert_eq!(lowest.as_str(), "Temperature: -2147483648\u{b0} C");
    assert!(lowest.len() <= LINE_BYTES);
    assert_eq!(lowest.len(), 28);
    assert_eq!(temperature_line(i32::MAX).as_str(), "Temperature: 2147483647\u{b0} C");
    assert_eq!(pressure_line(i32::MIN).as_str(), "Pressure: -2147483648 kPa");
    assert_eq!(pressure_line(i32::MAX).as_str(), "Pressure: 2147483647 kPa");
}

#[test]
fn lines_match_what_formatting_gives() {
    for value in [0, 1, -1, 9, 10, 11, 99, 100, 101, -10, 1000, 65535, -99999, 123456789] {
        assert_eq!(temperature_line(value).as_str(), format!("Temperature: {}\u{b0} C", value));
        assert_eq!(pressure_line(value).as_str(), format!("Pressure: {} kPa", value));
    }
}

#[test]
fn each_mode_has_its_screen() {
    let reading = CompensatedReading { fine_temperature: 121072, pressure: 208111 };
    assert_eq!(screen_for(ModeToken::Temperature, &reading), Screen::Temperature { degrees: 23 });
    assert_eq!(screen_for(ModeToken::Pressure, &reading), Screen::Pressure { kilopascals: 812 });
    assert_eq!(
        screen_for(ModeToken::Both, &reading),
        Screen::Both { kilopascals: 812, degrees: 23 }
    );
    assert_eq!(screen_for(ModeToken::Telemetry, &reading), Screen::Picture);
}

#[test]
fn a_single_value_is_drawn_on_the_first_line() {
    let lines = Screen::Temperature { degrees: 23 }.lines();
    assert_eq!(lines.len(), 1);
    assert_eq!(lines[0].text.as_str(), "Temperature: 23\u{b0} C");
    assert_eq!((lines[0].x, lines[0].y), (40, 110));

    let lines = Screen::Pressure { kilopascals: 812 }.lines();
    assert_eq!(lines.len(), 1);
    assert_eq!(lines[0].text.as_str(), "Pressure: 812 kPa");
    assert_eq!((lines[0].x, lines[0].y), (40, 110));
}

#[test]
fn both_values_are_drawn_pressure_first() {
    let lines = Screen::Both { kilopascals: 812, degrees: 23 }.lines();
    assert_eq!(lines.len(), 2);
    assert_eq!(lines[0].text.as_str(), "Pressure: 812 kPa");
    assert_eq!((lines[0].x, lines[0].y), (40, 110));
    assert_eq!(lines[1].text.as_str(), "Temperature: 23\u{b0} C");
    assert_eq!((lines[1].x, lines[1].y), (40, 140));
}

#[test]
fn the_picture_has_no_text() {
    assert!(Screen::Picture.lines().is_empty());
    assert!(Screen::Picture.is_picture());
    assert!(!Screen::Temperature { degrees: 1 }.is_picture());
}

#[test]
fn positions_are_fixed() {
    assert_eq!((TEXT_X, FIRST_LINE_Y, SECOND_LINE_Y), (40, 110, 140));
    assert_eq!((PICTURE_X, PICTURE_Y, PICTURE_WIDTH), (77, 77, 86));
    assert_eq!(LINE_BYTES, 64);
}
