//! Satellites addressed by their numeric identifier.
use vstd::prelude::*;

verus! {

/// A satellite's report.
#[derive(Debug, PartialEq, Eq, Structural)]
pub enum StatusMessage {
    /// All is well; shown as `Ok`.
    Operational,
}

impl StatusMessage {
    /// The report as shown.
    pub fn to_string(&self) -> (s: String)
        ensures
            s@ == "Ok"@,
    {
        String::from_str("Ok")
    }
}

/// The status of satellite `sat_id`: every satellite reports that it is operational.
pub fn check_status(sat_id: u64) -> (s: StatusMessage)
    ensures
        s == StatusMessage::Operational,
{
    StatusMessage::Operational
}

} // verus!
