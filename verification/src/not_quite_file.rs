//! Files stood in for by their names, with operations that always succeed.
use vstd::prelude::*;

verus! {

/// A file, stood in for by its name.
pub type File = String;

/// Opens `file`; always succeeds and leaves the file as it was.
pub fn open(file: &mut File) -> (ok: bool)
    ensures
        ok,
        *final(file) == *old(file),
{
    true
}

/// Closes `file`; always succeeds and leaves the file as it was.
pub fn close(file: &mut File) -> (ok: bool)
    ensures
        ok,
        *final(file) == *old(file),
{
    true
}

} // verus!
