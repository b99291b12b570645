//! The call into `chrono`. Nothing here is proved.

use vstd::prelude::*;

verus! {

/// `chrono::Local::now`, written out by `DateTime::format` and `to_string`:
/// the time of the call in the time zone of the machine. What comes back is
/// the clock's to say.
///
/// chrono writes a date in any format that it can read, and panics on one
/// that it cannot. `format` is therefore the one format that the library
/// dates its files in: year, month, day, hour, minute and second.
#[verifier::external_body]
pub(crate) fn local_time(format: &str) -> (text: String)
    requires
        format@ == "%Y-%m-%d %H:%M:%S"@,
{
    chrono::Local::now().format(format).to_string()
}

} // verus!
