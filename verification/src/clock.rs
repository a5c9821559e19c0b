//! The wall clock, as text.

use vstd::prelude::*;

verus! {

/// The local time of this call, as `chrono::Local::now()` reports it and as
/// chrono's `Display` for `DateTime<Local>` writes it. Trusted, and nothing
/// is claimed of the text: it depends on the clock and on the time zone of
/// the machine. chrono panics where the clock stands before the year 1970.
#[verifier::external_body]
pub(crate) fn local_timestamp() -> (text: String) {
    chrono::Local::now().to_string()
}

} // verus!
