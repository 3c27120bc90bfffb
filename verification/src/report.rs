//! The text of the reports: labelled readings with two decimal places.
use crate::fixed::{
    div_round, lemma_round_div_bound, lemma_round_div_reaches, magnitude, round_div,
};
use crate::body::RigidBodyState;
use crate::navigation::{
    attitude, attitude_of, report_of, solve, AttitudeReport, Eta, NavigationReport, RawAngles,
};
use vstd::prelude::*;

verus! {

/// Fixed-point steps in one hundredth of a unit.
pub const STEPS_PER_HUNDREDTH: i64 = 10_000;

/// The character of a decimal digit.
pub open spec fn digit_char(d: int) -> char {
    if d == 0 {
        '0'
    } else if d == 1 {
        '1'
    } else if d == 2 {
        '2'
    } else if d == 3 {
        '3'
    } else if d == 4 {
        '4'
    } else if d == 5 {
        '5'
    } else if d == 6 {
        '6'
    } else if d == 7 {
        '7'
    } else if d == 8 {
        '8'
    } else {
        '9'
    }
}

/// The decimal digits of `n`, without leading zeros.
pub open spec fn digits_of(n: nat) -> Seq<char>
    decreases n,
{
    if n < 10 {
        seq![digit_char(n as int)]
    } else {
        digits_of(n / 10).push(digit_char((n % 10) as int))
    }
}

/// The size of a reading in hundredths, rounded to the nearest, halves away
/// from zero.
pub open spec fn hundredths_of(value: int) -> nat {
    round_div(magnitude(value), STEPS_PER_HUNDREDTH as int) as nat
}

/// A reading with two decimal places: a minus sign where it is below zero,
/// the whole part, a point, and the hundredths.
pub open spec fn decimal_text(value: int) -> Seq<char> {
    let h = hundredths_of(value);
    let sign = if value < 0 {
        seq!['-']
    } else {
        Seq::<char>::empty()
    };
    sign + digits_of(h / 100) + seq![
        '.',
        digit_char((h / 10 % 10) as int),
        digit_char((h % 10) as int),
    ]
}

/// The time to go with two decimal places, or `inf` where there is none.
pub open spec fn eta_text(eta: Option<int>) -> Seq<char> {
    match eta {
        Some(t) => decimal_text(t),
        None => seq!['i', 'n', 'f'],
    }
}

/// The text of a navigation report: one labelled reading per line.
pub open spec fn navigation_text(report: NavigationReport) -> Seq<char> {
    "RNG: "@ + decimal_text(report.range as int) + " m\nAZ: "@ + decimal_text(
        report.azimuth as int,
    ) + "deg\nEL: "@ + decimal_text(report.elevation as int) + "deg\nVREL: "@ + decimal_text(
        report.relative_speed as int,
    ) + " m/s\nVCRS_Y: "@ + decimal_text(report.cross_track_y as int) + " m/s\nVCRS_X: "@
        + decimal_text(report.cross_track_x as int) + " m/s\nETA: "@ + eta_text(report.eta@)
        + " s"@
}

/// The text of an attitude report: one labelled reading per line.
pub open spec fn attitude_text(report: AttitudeReport) -> Seq<char> {
    "BRG: "@ + decimal_text(report.bearing as int) + "deg\nVREL: "@ + decimal_text(
        report.speed as int,
    ) + " m/s\nVX: "@ + decimal_text(report.velocity_x as int) + " m/s\nVY: "@ + decimal_text(
        report.velocity_y as int,
    ) + " m/s"@
}

/// A report of either shape.
#[derive(Clone, Copy, Debug, PartialEq, Eq, Structural)]
pub enum Report {
    /// The target as the observer sees it in space.
    Navigation(NavigationReport),
    /// The observer's own attitude and motion in the plane.
    Attitude(AttitudeReport),
}

/// The text of a report of either shape.
pub open spec fn report_text(report: Report) -> Seq<char> {
    match report {
        Report::Navigation(n) => navigation_text(n),
        Report::Attitude(a) => attitude_text(a),
    }
}

/// Appends one decimal digit.
fn push_digit(out: &mut String, d: u8)
    requires
        d < 10,
    ensures
        final(out)@ == old(out)@.push(digit_char(d as int)),
{
    proof {
        reveal_strlit("0");
        reveal_strlit("1");
        reveal_strlit("2");
        reveal_strlit("3");
        reveal_strlit("4");
        reveal_strlit("5");
        reveal_strlit("6");
        reveal_strlit("7");
        reveal_strlit("8");
        reveal_strlit("9");
    }
    let text: &str = if d == 0 {
        "0"
    } else if d == 1 {
        "1"
    } else if d == 2 {
        "2"
    } else if d == 3 {
        "3"
    } else if d == 4 {
        "4"
    } else if d == 5 {
        "5"
    } else if d == 6 {
        "6"
    } else if d == 7 {
        "7"
    } else if d == 8 {
        "8"
    } else {
        "9"
    };
    assert(text@ =~= seq![digit_char(d as int)]);
    out.append(text);
    assert(out@ =~= old(out)@.push(digit_char(d as int)));
}

/// Appends the decimal digits of `n`.
fn push_digits(out: &mut String, n: u64)
    ensures
        final(out)@ == old(out)@ + digits_of(n as nat),
    decreases n,
{
    if n >= 10 {
        push_digits(out, n / 10);
    }
    push_digit(out, (n % 10) as u8);
    assert(out@ =~= old(out)@ + digits_of(n as nat));
}

/// Appends a reading with two decimal places.
pub fn push_decimal(out: &mut String, value: i64)
    ensures
        final(out)@ == old(out)@ + decimal_text(value as int),
{
    let wide: i128 = value as i128;
    let size: i128 = if wide < 0 {
        -wide
    } else {
        wide
    };
    proof {
        lemma_round_div_bound(size as int, STEPS_PER_HUNDREDTH as int, size as int);
        lemma_round_div_reaches(size as int, STEPS_PER_HUNDREDTH as int, 0);
    }
    let h: u64 = div_round(size, STEPS_PER_HUNDREDTH as i128) as u64;
    if value < 0 {
        proof {
            reveal_strlit("-");
        }
        out.append("-");
    }
    let ghost signed = out@;
    push_digits(out, h / 100);
    proof {
        reveal_strlit(".");
    }
    out.append(".");
    push_digit(out, (h / 10 % 10) as u8);
    push_digit(out, (h % 10) as u8);
    assert(out@ =~= old(out)@ + decimal_text(value as int));
}

/// Appends the time to go.
fn push_eta(out: &mut String, eta: Eta)
    ensures
        final(out)@ == old(out)@ + eta_text(eta@),
{
    match eta {
        Eta::Finite(t) => push_decimal(out, t),
        Eta::Never => {
            proof {
                reveal_strlit("inf");
            }
            out.append("inf");
            assert(out@ =~= old(out)@ + eta_text(eta@));
        },
    }
}

/// The text of a navigation report.
pub fn format_navigation(report: &NavigationReport) -> (text: String)
    ensures
        text@ == navigation_text(*report),
{
    let mut out = String::new();
    out.append("RNG: ");
    push_decimal(&mut out, report.range);
    out.append(" m\nAZ: ");
    push_decimal(&mut out, report.azimuth);
    out.append("deg\nEL: ");
    push_decimal(&mut out, report.elevation);
    out.append("deg\nVREL: ");
    push_decimal(&mut out, report.relative_speed);
    out.append(" m/s\nVCRS_Y: ");
    push_decimal(&mut out, report.cross_track_y);
    out.append(" m/s\nVCRS_X: ");
    push_decimal(&mut out, report.cross_track_x);
    out.append(" m/s\nETA: ");
    push_eta(&mut out, report.eta);
    out.append(" s");
    out
}

/// The text of an attitude report.
pub fn format_attitude(report: &AttitudeReport) -> (text: String)
    ensures
        text@ == attitude_text(*report),
{
    let mut out = String::new();
    out.append("BRG: ");
    push_decimal(&mut out, report.bearing);
    out.append("deg\nVREL: ");
    push_decimal(&mut out, report.speed);
    out.append(" m/s\nVX: ");
    push_decimal(&mut out, report.velocity_x);
    out.append(" m/s\nVY: ");
    push_decimal(&mut out, report.velocity_y);
    out.append(" m/s");
    out
}

/// The text of a report of either shape.
pub fn format_report(report: &Report) -> (text: String)
    ensures
        text@ == report_text(*report),
{
    match report {
        Report::Navigation(n) => format_navigation(n),
        Report::Attitude(a) => format_attitude(a),
    }
}

/// One tick of the navigation display.
///
/// With both the ship and its target in the world, the text is the
/// navigation report of the two, with the bearing angles taken from
/// `angles`. While either is missing nothing is reported: the text that was
/// shown before stays.
pub fn update_ui(
    ship: Option<&RigidBodyState>,
    target: Option<&RigidBodyState>,
    angles: RawAngles,
    previous: String,
) -> (text: String)
    requires
        ship.is_some() ==> ship.unwrap().wf(),
        target.is_some() ==> target.unwrap().wf(),
    ensures
        ship.is_some() && target.is_some() ==> text@ == navigation_text(
            report_of(*ship.unwrap(), *target.unwrap(), angles),
        ),
        ship.is_none() || target.is_none() ==> text@ == previous@,
{
    match (ship, target) {
        (Some(observer), Some(seen)) => {
            let report = solve(observer, seen, angles);
            format_navigation(&report)
        },
        _ => previous,
    }
}

/// One tick of the attitude display of a body in the plane.
///
/// With the body in the world, the text is its attitude report, with the
/// heading taken from `raw_heading`. While it is missing the text that was
/// shown before stays.
pub fn update_attitude_ui(ship: Option<&RigidBodyState>, raw_heading: i64, previous: String) -> (text:
    String)
    requires
        ship.is_some() ==> ship.unwrap().wf(),
    ensures
        ship.is_some() ==> text@ == attitude_text(attitude_of(*ship.unwrap(), raw_heading as int)),
        ship.is_none() ==> text@ == previous@,
{
    match ship {
        Some(observer) => {
            let report = attitude(observer, raw_heading);
            format_attitude(&report)
        },
        None => previous,
    }
}

} // verus!
