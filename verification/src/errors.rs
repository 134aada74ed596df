//! Error types of the library.

use vstd::prelude::*;

use crate::controls::decimal_string;
use crate::controls::spec_decimal_string;

verus! {

/// A two-line element set that could not be turned into a tracked satellite.
#[derive(Clone, Copy, Debug, PartialEq, Eq, Structural)]
pub enum ParseError {
    /// The first line does not carry a well-formed `YYDDD.DDDDDDDD` epoch
    /// field at columns 18..32.
    BadEpochField,
    /// The element parser rejected the two lines.
    InvalidElements,
}

/// The element set's epoch lies more than 90 days from the requested search
/// start, so a pass prediction would not be trustworthy.
#[derive(Clone, Copy, Debug, PartialEq, Eq, Structural)]
pub struct StaleElementsError {
    /// Whole days between the epoch and the search start.
    pub age_days: i64,
}

impl StaleElementsError {
    /// A short description naming the age, for display by callers.
    pub fn message(&self) -> (r: String)
        ensures
            self.age_days > 0 ==> r@ == "element set epoch is "@ + spec_decimal_string(
                self.age_days as int,
            ) + " days old; refresh the element data"@,
            self.age_days <= 0 ==> r@ == "element set epoch is too old; refresh the element data"@,
    {
        if self.age_days > 0 {
            let mut s: String = "element set epoch is ".to_owned();
            let digits: String = decimal_string(self.age_days);
            s.append(digits.as_str());
            s.append(" days old; refresh the element data");
            s
        } else {
            "element set epoch is too old; refresh the element data".to_owned()
        }
    }
}

} // verus!
