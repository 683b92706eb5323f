//! A "file" held in memory: a name and its bytes.
use vstd::prelude::*;

verus! {

/// Represents a "file", which probably lives on a file system.
#[derive(Debug)]
pub struct File {
    name: String,
    data: Vec<u8>,
}

impl File {
    /// The file's name.
    pub closed spec fn spec_name(&self) -> Seq<char> {
        self.name@
    }

    /// The file's contents.
    pub closed spec fn spec_data(&self) -> Seq<u8> {
        self.data@
    }

    /// Creates an empty file called `name`.
    pub fn new(name: &str) -> (f: Self)
        ensures
            f.spec_name() == name@,
            f.spec_data() == Seq::<u8>::empty(),
    {
        Self { name: String::from_str(name), data: Vec::new() }
    }

    /// The number of bytes the file holds.
    pub fn len(&self) -> (n: usize)
        ensures
            n == self.spec_data().len(),
    {
        self.data.len()
    }

    /// A copy of the file's name.
    pub fn name(&self) -> (s: String)
        ensures
            s@ == self.spec_name(),
    {
        self.name.clone()
    }
}

} // verus!
