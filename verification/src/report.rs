//! Reading the wind out of a METAR weather report.

use vstd::prelude::*;
use metar::Data::{Known, Unknown};
use metar::{Metar, MetarError};
use crate::error::{SelectionError, SelectionErrorView};
use crate::text::text_chars;
use crate::wind::{WindDirection, WindObservation, WindReport, WindSpeed};

verus! {

/// `metar::MetarError`, what the METAR parser says of a report that it
/// rejects. Nothing is read from it.
#[verifier::external_type_specification]
#[verifier::external_body]
pub struct ExMetarError(MetarError);

/// Parses a report with `metar::Metar::parse` and hands out the wind it
/// found, each part as the parser gave it.
///
/// The contract claims one thing: that the parser returns for every text
/// without a wind-variation group that has a direction which is no number;
/// on such a group it panics. Nothing is claimed of what comes back. Whether
/// the parser accepts a text does not rest on the text alone: it gives up
/// where the calling thread is short of stack, and where the process has set
/// it a limit of calls.
#[verifier::external_body]
fn parse_wind(report: &str) -> (parsed: Result<WindReport, MetarError>)
    requires
        !spec_has_open_variation(report@),
{
    let wind = Metar::parse(report)?.wind;
    let direction = match wind.dir {
        Known(metar::WindDirection::Heading(bearing)) => Some(WindDirection::Heading(bearing)),
        Known(metar::WindDirection::Variable) => Some(WindDirection::Variable),
        Known(metar::WindDirection::Above) => Some(WindDirection::Above),
        Unknown => None,
    };
    let speed = match wind.speed {
        Known(metar::WindSpeed::Calm) => Some(WindSpeed::Calm),
        Known(metar::WindSpeed::Knot(s)) => Some(WindSpeed::Knot(s)),
        Known(metar::WindSpeed::MetresPerSecond(s)) => Some(WindSpeed::MetresPerSecond(s)),
        Known(metar::WindSpeed::KilometresPerHour(s)) => Some(WindSpeed::KilometresPerHour(s)),
        Unknown => None,
    };
    Ok(WindReport { direction, speed })
}

/// `c` is a decimal digit no greater than `top`.
pub open spec fn is_digit_up_to(c: char, top: char) -> bool {
    '0' <= c <= top
}

/// The three characters from `i` on are a bearing as a report writes it:
/// three digits, from 000 to 369.
pub open spec fn is_bearing_at(text: Seq<char>, i: int) -> bool {
    let (hundreds, tens, units) = (text[i], text[i + 1], text[i + 2]);
    &&& is_digit_up_to(hundreds, '2') || (hundreds == '3' && is_digit_up_to(tens, '6'))
    &&& is_digit_up_to(tens, '9')
    &&& is_digit_up_to(units, '9')
}

/// The three characters from `i` on stand for a direction that is no
/// number: `///` for an unknown one, `VRB` for a variable one.
pub open spec fn is_open_direction_at(text: Seq<char>, i: int) -> bool {
    let (first, second, third) = (text[i], text[i + 1], text[i + 2]);
    ||| first == '/' && second == '/' && third == '/'
    ||| first == 'V' && second == 'R' && third == 'B'
}

/// A wind-variation group, two directions joined by `V`, starts at `i`, and
/// one of its directions is no number.
pub open spec fn open_variation_at(text: Seq<char>, i: int) -> bool {
    &&& 0 <= i <= text.len() - 7
    &&& text[i + 3] == 'V'
    &&& is_bearing_at(text, i) || is_open_direction_at(text, i)
    &&& is_bearing_at(text, i + 4) || is_open_direction_at(text, i + 4)
    &&& is_open_direction_at(text, i) || is_open_direction_at(text, i + 4)
}

/// Somewhere in the text stands a wind-variation group with a direction
/// that is no number.
pub open spec fn spec_has_open_variation(text: Seq<char>) -> bool {
    exists|i: int| open_variation_at(text, i)
}

fn digit_up_to(c: char, top: char) -> (r: bool)
    ensures
        r == is_digit_up_to(c, top),
{
    '0' <= c && c <= top
}

fn bearing_at(chars: &Vec<char>, i: usize) -> (r: bool)
    requires
        i + 3 <= chars.len(),
    ensures
        r == is_bearing_at(chars@, i as int),
{
    let hundreds = chars[i];
    let tens = chars[i + 1];
    let units = chars[i + 2];
    (digit_up_to(hundreds, '2') || (hundreds == '3' && digit_up_to(tens, '6')))
        && digit_up_to(tens, '9') && digit_up_to(units, '9')
}

fn open_direction_at(chars: &Vec<char>, i: usize) -> (r: bool)
    requires
        i + 3 <= chars.len(),
    ensures
        r == is_open_direction_at(chars@, i as int),
{
    let first = chars[i];
    let second = chars[i + 1];
    let third = chars[i + 2];
    (first == '/' && second == '/' && third == '/')
        || (first == 'V' && second == 'R' && third == 'B')
}

/// Whether the report holds a wind-variation group with a direction that
/// is no number.
pub fn has_open_variation(report: &str) -> (found: bool)
    ensures
        found == spec_has_open_variation(report@),
{
    let chars = text_chars(report);
    let n: usize = chars.len();
    if n < 7 {
        return false;
    }
    let mut i: usize = 0;
    while i <= n - 7
        invariant
            chars@ == report@,
            n == chars.len(),
            n >= 7,
            i <= n - 6,
            forall|j: int| 0 <= j < i ==> !open_variation_at(chars@, j),
        decreases n - i,
    {
        if chars[i + 3] == 'V' {
            let first_open = open_direction_at(&chars, i);
            let second_open = open_direction_at(&chars, i + 4);
            let first = first_open || bearing_at(&chars, i);
            let second = second_open || bearing_at(&chars, i + 4);
            if first && second && (first_open || second_open) {
                assert(open_variation_at(chars@, i as int));
                return true;
            }
        }
        i += 1;
    }
    false
}

/// Decodes the wind of a METAR report.
///
/// A report with a wind-variation group that lacks a number, wherever it
/// stands, is not handed to the parser and cannot be decoded. Any other
/// report goes to the parser unchanged, and what the parser found goes
/// through [`WindReport::observation`]: a report that the parser refuses,
/// or that leaves out the direction or the speed, cannot be decoded either.
/// There is no other failure.
pub fn read_wind(report: &str) -> (decoded: Result<WindObservation, SelectionError>)
    ensures
        spec_has_open_variation(report@) ==> decoded is Err,
        decoded matches Err(e) ==> e@ == SelectionErrorView::WeatherDecode,
{
    if has_open_variation(report) {
        return Err(SelectionError::WeatherDecode);
    }
    match parse_wind(report) {
        Ok(wind) => wind.observation(),
        Err(_) => Err(SelectionError::WeatherDecode),
    }
}

} // verus!
