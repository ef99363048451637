//! Fresh node uids and the default text of new text nodes.
use vstd::prelude::*;

verus! {

/// A fresh random uid: `uuid::Uuid::new_v4`, written in the hyphenated form
/// of 36 characters that its `Display` implementation documents.
#[verifier::external_body]
pub(crate) fn new_uid() -> (r: String)
    ensures
        r@.len() == 36,
{
    uuid::Uuid::new_v4().to_string()
}

/// The local date and time as `%Y-%m-%d %H:%M:%S` (`chrono::Local::now`
/// formatted by chrono); it depends on the clock and the time zone, so nothing
/// is claimed of it.
#[verifier::external_body]
pub(crate) fn local_time_text() -> String {
    chrono::Local::now().format("%Y-%m-%d %H:%M:%S").to_string()
}

} // verus!
