//! An in-memory file that knows whether it is open, and shows itself as
//! `<name (STATE)>`.
use vstd::prelude::*;

verus! {

/// Whether a file is open.
#[derive(Debug, PartialEq, Eq, Structural)]
pub enum FileState {
    Open,
    Closed,
}

/// How a state is shown.
pub open spec fn state_text(s: FileState) -> Seq<char> {
    match s {
        FileState::Open => "OPEN"@,
        FileState::Closed => "CLOSED"@,
    }
}

impl FileState {
    /// The state as shown: `OPEN` or `CLOSED`.
    pub fn to_string(&self) -> (s: String)
        ensures
            s@ == state_text(*self),
    {
        match self {
            FileState::Open => String::from_str("OPEN"),
            FileState::Closed => String::from_str("CLOSED"),
        }
    }
}

/// A named run of bytes with a state.
#[derive(Debug)]
pub struct File {
    pub name: String,
    pub data: Vec<u8>,
    pub state: FileState,
}

impl File {
    /// Creates an empty, closed file called `name`.
    pub fn new(name: &str) -> (f: Self)
        ensures
            f.name@ == name@,
            f.data@ == Seq::<u8>::empty(),
            f.state == FileState::Closed,
    {
        Self { name: String::from_str(name), data: Vec::new(), state: FileState::Closed }
    }

    /// The file as shown: `<name (STATE)>`.
    pub fn to_string(&self) -> (s: String)
        ensures
            s@ == "<"@ + self.name@ + " ("@ + state_text(self.state) + ")>"@,
    {
        let mut s = String::from_str("<");
        s.append(self.name.as_str());
        s.append(" (");
        let state = self.state.to_string();
        s.append(state.as_str());
        s.append(")>");
        s
    }
}

} // verus!
