use tileworld::errors::SimError;
use tileworld::timefmt::format_time;

#[test]
fn nanoseconds_print_plain() {
    assert_eq!(format_time(0, 0), "0ns");
    assert_eq!(format_time(0, 999), "999ns");
}

#[test]
fn microseconds_print_one_decimal() {
    assert_eq!(format_time(0, 1_000), "1.0us");
    assert_eq!(format_time(0, 1_500), "1.5us");
    assert_eq!(format_time(0, 999_940), "999.9us");
}

#[test]
fn milliseconds_print_one_decimal() {
    assert_eq!(format_time(0, 2_500_000), "2.5ms");
    assert_eq!(format_time(0, 999_949_999), "999.9ms");
}

#[test]
fn seconds_print_one_decimal() {
    assert_eq!(format_time(1, 0), "1.0s");
    assert_eq!(format_time(2, 500_000_000), "2.5s");
    assert_eq!(format_time(90, 0), "90.0s");
}

#[test]
fn ties_round_up() {
    assert_eq!(format_time(0, 1_250), "1.3us");
    assert_eq!(format_time(0, 1_050), "1.1us");
}

#[test]
fn rounding_carries_into_the_next_figure() {
    assert_eq!(format_time(0, 999_960), "1000.0us");
}

#[test]
fn a_duration_too_wide_for_nanoseconds_prints_whole_seconds() {
    // 18_446_744_074 * 1e9 overflows 64 bits
    assert_eq!(format_time(18_446_744_074, 0), "18446744074s");
}

#[test]
fn diagnostics_name_the_broken_invariant() {
    assert_eq!(
        SimError::PlayerWithoutVelocity.describe(),
        "player entity lacks a velocity component"
    );
    assert_eq!(
        SimError::ViewWithoutPosition.describe(),
        "view entity lacks a position component"
    );
    assert_eq!(
        SimError::ConflictingStage.describe(),
        "stage requests conflicting component access"
    );
    assert_eq!(SimError::IrregularMap.describe(), "map rows differ in length");
    assert_eq!(
        SimError::MapTooLarge.describe(),
        "map dimensions exceed the coordinate range"
    );
}
