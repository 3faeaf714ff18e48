//! Request checks of the remote controller and small value helpers.
use vstd::prelude::*;
use std::cmp::Ordering;
use vstd::std_specs::cmp::OrdSpec;
use vstd::string::StringExecFns;
use crate::led::Lights;
use crate::session::{Code, Status};

verus! {

/// `value` limited to the range `[lower, upper]`, as `max` then `min` of
/// `Ord` compute it.
pub open spec fn clip_spec<T: Ord>(value: T, lower: T, upper: T) -> T {
    let raised = match lower.cmp_spec(&value) {
        Ordering::Less => value,
        _ => lower,
    };
    match upper.cmp_spec(&raised) {
        Ordering::Less => upper,
        _ => raised,
    }
}

/// Limit `value` to the range `[lower, upper]`: raise it to `lower`, then
/// lower it to `upper`. For a type whose order obeys its specification
/// the result is `clip_spec`.
pub fn clip<T: Ord>(value: T, lower: T, upper: T) -> (r: T)
    ensures
        T::obeys_cmp_spec() ==> r == clip_spec(value, lower, upper),
{
    value.max(lower).min(upper)
}

/// Whether a request for lights to follow an analyzer names usable lights.
pub open spec fn lights_request_ok(lights: Option<Lights>) -> bool {
    lights matches Some(l) && l.serial_port@.len() > 0 && l.strips.len() > 0
}

/// The lights of a request for lights to follow an analyzer: they must be
/// given, with a serial port and at least one strip.
pub fn validate_lights(lights: Option<Lights>) -> (res: Result<Lights, Status>)
    ensures
        lights_request_ok(lights) <==> res is Ok,
        res matches Ok(l) ==> lights == Some(l),
        lights is None ==> (res matches Err(s) && s.code == Code::InvalidArgument
            && s.message@ == "missing lights"@),
        lights matches Some(l) && l.serial_port@.len() == 0 ==> (res matches Err(s)
            && s.code == Code::InvalidArgument
            && s.message@ == "missing light serial connection port"@),
        lights matches Some(l) && l.serial_port@.len() > 0 && l.strips.len() == 0 ==> (res matches Err(s)
            && s.code == Code::InvalidArgument && s.message@ == "no light strips"@),
{
    match lights {
        None => Err(Status { code: Code::InvalidArgument, message: String::from_str("missing lights") }),
        Some(l) => {
            if l.serial_port.as_str().is_empty() {
                Err(Status {
                    code: Code::InvalidArgument,
                    message: String::from_str("missing light serial connection port"),
                })
            } else if l.strips.len() < 1 {
                Err(Status { code: Code::InvalidArgument, message: String::from_str("no light strips") })
            } else {
                Ok(l)
            }
        },
    }
}

} // verus!
