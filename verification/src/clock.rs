//! The one place where the library reads the system clock.

use vstd::prelude::*;
use chrono::{Local, NaiveDateTime};

verus! {

/// `chrono::NaiveDateTime`, carried through the library as an opaque value.
/// Every instant the library stores is a date and time in UTC.
#[verifier::external_type_specification]
#[verifier::external_body]
pub struct ExNaiveDateTime(NaiveDateTime);

/// The current instant: `chrono::Local::now`, taken as UTC with
/// `DateTime::naive_utc`. The result depends on the clock alone, so
/// nothing is claimed of it.
#[verifier::external_body]
pub(crate) fn now() -> (instant: NaiveDateTime) {
    Local::now().naive_utc()
}

} // verus!
