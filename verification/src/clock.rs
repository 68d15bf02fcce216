//! The wall clock, read through `chrono`. What comes back depends on the
//! moment and on the machine's time zone, so nothing is said of it here:
//! callers state what holds of every reading.

use std::fmt::Write;
use vstd::prelude::*;

verus! {

/// The current local time as RFC 3339 text: `chrono::Local::now()`, then
/// `DateTime::to_rfc3339`. Nothing is claimed of the text.
#[verifier::external_body]
pub(crate) fn local_time_rfc3339() -> (text: String) {
    chrono::Local::now().to_rfc3339()
}

/// The current local time written by a `strftime` pattern:
/// `chrono::Local::now()`, then `DateTime::format`. Nothing is claimed of
/// the text; a pattern that `chrono` cannot follow gives whatever was
/// written before it gave up.
#[verifier::external_body]
pub(crate) fn local_time_text(pattern: &str) -> (text: String) {
    let mut text = String::new();
    let _ = write!(text, "{}", chrono::Local::now().format(pattern));
    text
}

} // verus!
