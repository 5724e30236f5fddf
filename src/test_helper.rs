//! Comparison of a validator's result with the outcome a caller expects.
use vstd::prelude::*;
use crate::error::ValidationError;

verus! {

/// A result is as expected when it is the expected value, or the expected
/// error.
pub open spec fn meets_expectation(
    result: Result<bool, ValidationError>,
    expected_value: bool,
    expected_error: Option<ValidationError>,
) -> bool {
    match result {
        Ok(v) => v == expected_value,
        Err(e) => expected_error == Some(e),
    }
}

/// Whether `result` is `Ok(expected_value)`, or an error equal to
/// `expected_error`. An error is never as expected when no error was.
pub fn result_helper(
    result: Result<bool, ValidationError>,
    expected_value: bool,
    expected_error: Option<ValidationError>,
) -> (r: bool)
    ensures
        r == meets_expectation(result, expected_value, expected_error),
{
    match result {
        Ok(v) => v == expected_value,
        Err(e) => match expected_error {
            Some(message) => e == message,
            None => false,
        },
    }
}

} // verus!
