//! A greeting to the world, then in German and in Ukrainian.
use vstd::prelude::*;

verus! {

/// The lines of the greeting, in order.
pub fn greet_world() -> (lines: Vec<String>)
    ensures
        lines@.len() == 3,
        lines@[0]@ == "Hello, world!"@,
        lines@[1]@ == "Grüß Gott!"@,
        lines@[2]@ == "Привіт, світе!"@,
{
    let mut lines: Vec<String> = Vec::new();
    lines.push(String::from_str("Hello, world!"));
    let germany = "Grüß Gott!";
    let ukraine = "Привіт, світе!";
    let regions = [germany, ukraine];
    for i in 0..2
        invariant
            lines@.len() == 1 + i,
            lines@[0]@ == "Hello, world!"@,
            regions@ == seq![germany, ukraine],
            forall|j: int| 0 <= j < i ==> #[trigger] lines@[1 + j]@ == regions@[j]@,
    {
        lines.push(String::from_str(regions[i]));
    }
    assert(lines@[1 + 0int]@ == regions@[0]@);
    assert(lines@[1 + 1int]@ == regions@[1]@);
    lines
}

} // verus!
