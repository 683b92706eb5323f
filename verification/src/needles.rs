//! Searching a haystack of numbers for needles.
use vstd::prelude::*;

verus! {

/// Whether `item` is one of the needles, 42 and 132.
pub open spec fn is_needle(item: i32) -> bool {
    item == 42 || item == 132
}

/// `hit!` for a needle, `miss` for anything else.
pub fn classify(item: i32) -> (r: &'static str)
    ensures
        r@ == if is_needle(item) {
            "hit!"@
        } else {
            "miss"@
        },
{
    match item {
        42 | 132 => "hit!",
        _ => "miss",
    }
}

/// The items of `haystack` that are needles, in order.
pub open spec fn spec_hits(haystack: Seq<i32>) -> Seq<i32> {
    haystack.filter(|x: i32| is_needle(x))
}

/// The items of `haystack` equal to `needle`, in order.
pub open spec fn spec_found(haystack: Seq<i32>, needle: i32) -> Seq<i32> {
    haystack.filter(|x: i32| x == needle)
}

/// The needles in `haystack`, in order.
pub fn hits(haystack: &[i32]) -> (out: Vec<i32>)
    ensures
        out@ == spec_hits(haystack@),
{
    let mut out: Vec<i32> = Vec::new();
    for i in 0..haystack.len()
        invariant
            out@ == spec_hits(haystack@.take(i as int)),
    {
        let item = haystack[i];
        proof {
            reveal_with_fuel(Seq::filter, 1);
            assert(haystack@.take(i + 1).drop_last() =~= haystack@.take(i as int));
        }
        if is_hit(item) {
            out.push(item);
        }
    }
    assert(haystack@.take(haystack.len() as int) =~= haystack@);
    out
}

/// Whether `item` is a needle.
fn is_hit(item: i32) -> (b: bool)
    ensures
        b == is_needle(item),
{
    match item {
        42 | 132 => true,
        _ => false,
    }
}

/// The items of `haystack` equal to `needle`, in order.
pub fn find_needle(haystack: &[i32], needle: i32) -> (out: Vec<i32>)
    ensures
        out@ == spec_found(haystack@, needle),
{
    let mut out: Vec<i32> = Vec::new();
    for i in 0..haystack.len()
        invariant
            out@ == spec_found(haystack@.take(i as int), needle),
    {
        let item = haystack[i];
        proof {
            reveal_with_fuel(Seq::filter, 1);
            assert(haystack@.take(i + 1).drop_last() =~= haystack@.take(i as int));
        }
        if item == needle {
            out.push(item);
        }
    }
    assert(haystack@.take(haystack.len() as int) =~= haystack@);
    out
}

} // verus!
