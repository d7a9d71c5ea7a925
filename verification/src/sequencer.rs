//! The control-number sequencer's decision logic: advancing the persisted
//! `date;counter` pair against the current date and rendering it back. The
//! store itself is a small text file kept by the caller; each issuance
//! re-reads and rewrites it.

use crate::numbers::{dec_int, i32_dec, int_value, parse_i32, valid_i32_string};
use crate::text::{split_char, split_str_on, str_eq};
use crate::ParseError;
use vstd::prelude::*;

verus! {

/// One issued state of the sequencer: a `YYMMDD` date and the counter last
/// issued under that date.
pub struct ControlNumberState {
    pub date: String,
    pub counter: i32,
}

/// One issuance over the persisted store text. The part before the first
/// `;` is the stored date: under a different date the state resets to
/// `(today, 1)` whatever follows the date; only under the stored date is
/// the counter field read, and it must then be a decimal whose successor
/// still fits the counter.
pub open spec fn spec_advance_control(t: Seq<char>, today: Seq<char>) -> Result<
    (Seq<char>, int),
    ParseError,
> {
    let parts = split_char(t, ';');
    if parts[0] != today {
        Ok((today, 1))
    } else if parts.len() < 2 {
        Err(ParseError::MalformedControlFile)
    } else if !valid_i32_string(parts[1]) || int_value(parts[1]) == i32::MAX {
        Err(ParseError::InvalidNumber)
    } else {
        Ok((today, int_value(parts[1]) + 1))
    }
}

/// Performs one issuance: reads the stored `date;counter` text and returns
/// the state to persist and use. A store whose date is not today resets to
/// `(today, 1)` without reading its counter; under today's date the
/// counter must parse and have room to increment.
pub fn advance_control_state(text: &str, today: &str) -> (r: Result<
    ControlNumberState,
    ParseError,
>)
    ensures
        match r {
            Ok(st) => spec_advance_control(text@, today@) == Ok::<(Seq<char>, int), ParseError>(
                (st.date@, st.counter as int),
            ) && st.date@ == today@,
            Err(e) => spec_advance_control(text@, today@) == Err::<(Seq<char>, int), ParseError>(
                e,
            ),
        },
{
    let parts = split_str_on(text, ';');
    if !str_eq(parts[0].as_str(), today) {
        return Ok(ControlNumberState { date: String::from_str(today), counter: 1 });
    }
    if parts.len() < 2 {
        return Err(ParseError::MalformedControlFile);
    }
    let v = match parse_i32(parts[1].as_str()) {
        Ok(v) => v,
        Err(e) => {
            return Err(e);
        },
    };
    if v == i32::MAX {
        return Err(ParseError::InvalidNumber);
    }
    Ok(ControlNumberState { date: String::from_str(today), counter: v + 1 })
}

/// Renders the state back to the persisted `date;counter` form.
pub fn render_control_state(state: &ControlNumberState) -> (r: String)
    ensures
        r@ == state.date@ + ";"@ + dec_int(state.counter as int),
{
    let num = i32_dec(state.counter);
    let r = state.date.clone().concat(";").concat(num.as_str());
    proof {
        assert(r@ =~= state.date@ + ";"@ + dec_int(state.counter as int));
    }
    r
}

} // verus!
