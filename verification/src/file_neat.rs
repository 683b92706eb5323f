//! The smallest in-memory file: a name and its bytes, made empty.
use vstd::prelude::*;

verus! {

/// A named run of bytes.
#[derive(Debug)]
pub struct File {
    pub name: String,
    pub data: Vec<u8>,
}

impl File {
    /// Creates an empty file called `name`.
    pub fn new(name: &str) -> (f: Self)
        ensures
            f.name@ == name@,
            f.data@ == Seq::<u8>::empty(),
    {
        Self { name: String::from_str(name), data: Vec::new() }
    }
}

} // verus!
