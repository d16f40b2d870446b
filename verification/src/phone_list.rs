//! The static dial-in phone-number directory: a list of country labels,
//! each with its phone numbers, served verbatim with an availability
//! message.

use vstd::prelude::*;
use vstd::string::StringExecFns;

verus! {

/// The directory response: a message (empty when no numbers are
/// configured), the configured numbers, and whether dial-in is enabled.
pub struct PhoneNumberList {
    pub message: String,
    pub numbers: Vec<(String, Vec<String>)>,
    pub numbers_enabled: bool,
}

impl PhoneNumberList {
    /// Builds the directory response from the configured numbers: dial-in
    /// is enabled exactly when at least one entry exists, and the message
    /// says so.
    pub fn from_entries(entries: Vec<(String, Vec<String>)>) -> (r: PhoneNumberList)
        ensures
            r.numbers@ == entries@,
            r.numbers_enabled == (entries@.len() > 0),
            entries@.len() > 0 ==> r.message@ == "Phone numbers available."@,
            entries@.len() == 0 ==> r.message@ == Seq::<char>::empty(),
    {
        let enabled = entries.len() > 0;
        let message = if enabled {
            String::from_str("Phone numbers available.")
        } else {
            String::new()
        };
        PhoneNumberList { message, numbers: entries, numbers_enabled: enabled }
    }
}

} // verus!
