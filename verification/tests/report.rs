use rcs_flight::navigation::{AttitudeReport, Eta, NavigationReport};
use rcs_flight::report::{format_navigation, format_report, push_decimal, Report};

fn decimal(value: i64) -> String {
    let mut out = String::new();
    push_decimal(&mut out, value);
    out
}

#[test]
fn readings_have_two_decimal_places() {
    assert_eq!(decimal(0), "0.00");
    assert_eq!(decimal(1_000_000), "1.00");
    assert_eq!(decimal(21_213_203), "21.21");
    assert_eq!(decimal(330_000_000), "330.00");
    assert_eq!(decimal(12_345_678_000), "12345.68");
    assert_eq!(decimal(50_000), "0.05");
    assert_eq!(decimal(100_000), "0.10");
    assert_eq!(decimal(990_000), "0.99");
}

#[test]
fn readings_are_rounded_to_the_nearest_hundredth() {
    assert_eq!(decimal(4_999), "0.00");
    assert_eq!(decimal(5_000), "0.01");
    assert_eq!(decimal(1_004_999), "1.00");
    assert_eq!(decimal(1_005_000), "1.01");
    assert_eq!(decimal(994_999), "0.99");
    assert_eq!(decimal(995_000), "1.00");
    assert_eq!(decimal(9_995_000), "10.00");
    assert_eq!(decimal(-1_005_000), "-1.01");
    assert_eq!(decimal(-1_004_999), "-1.00");
}

#[test]
fn readings_below_zero_keep_their_sign() {
    assert_eq!(decimal(-13_633_022), "-13.63");
    assert_eq!(decimal(-1), "-0.00");
    assert_eq!(decimal(-4_999), "-0.00");
    assert_eq!(decimal(-5_000), "-0.01");
}

#[test]
fn readings_at_the_ends_of_the_range() {
    assert_eq!(decimal(i64::MAX), "9223372036854.78");
    assert_eq!(decimal(i64::MIN), "-9223372036854.78");
}

#[test]
fn appending_keeps_what_was_there() {
    let mut out = String::from("RNG: ");
    push_decimal(&mut out, 1_500_000);
    assert_eq!(out, "RNG: 1.50");
}

#[test]
fn navigation_report_lists_its_seven_readings() {
    let report = NavigationReport {
        range: 1_234_567,
        azimuth: -179_994_999,
        elevation: 45_000_000,
        relative_speed: 7_000_000,
        cross_track_y: -250_000,
        cross_track_x: 125_000,
        closing_velocity: -3_000_000,
        eta: Eta::Finite(-411_522),
    };
    let text = "RNG: 1.23 m\nAZ: -179.99deg\nEL: 45.00deg\nVREL: 7.00 m/s\nVCRS_Y: -0.25 m/s\nVCRS_X: 0.13 m/s\nETA: -0.41 s";
    assert_eq!(format_navigation(&report), text);
    assert_eq!(format_report(&Report::Navigation(report)), text);
}

#[test]
fn time_to_go_that_never_comes_reads_inf() {
    let report = NavigationReport {
        range: 0,
        azimuth: 0,
        elevation: 0,
        relative_speed: 0,
        cross_track_y: 0,
        cross_track_x: 0,
        closing_velocity: 0,
        eta: Eta::Never,
    };
    assert!(format_navigation(&report).ends_with("\nETA: inf s"));
}

#[test]
fn attitude_report_lists_its_four_readings() {
    let report = AttitudeReport {
        bearing: 330_000_000,
        speed: 1_414_214,
        velocity_x: 1_000_000,
        velocity_y: -1_000_000,
    };
    assert_eq!(
        format_report(&Report::Attitude(report)),
        "BRG: 330.00deg\nVREL: 1.41 m/s\nVX: 1.00 m/s\nVY: -1.00 m/s"
    );
}
