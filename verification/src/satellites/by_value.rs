//! Satellites handed over by value: checking one takes it.
use vstd::prelude::*;

verus! {

/// A satellite.
#[derive(Debug)]
pub struct CubeSat {
    pub id: u64,
}

/// A satellite's report.
#[derive(Debug, PartialEq, Eq, Structural)]
pub enum StatusMessage {
    /// All is well; shown as `Ok`.
    Operational,
}

impl StatusMessage {
    /// The report as shown.
    pub fn to_string(&self) -> (s: String)
        ensures
            s@ == "Ok"@,
    {
        String::from_str("Ok")
    }
}

/// The status of `sat`, which the check takes over: every satellite
/// reports that it is operational.
pub fn check_status(sat: CubeSat) -> (s: StatusMessage)
    ensures
        s == StatusMessage::Operational,
{
    StatusMessage::Operational
}

} // verus!
