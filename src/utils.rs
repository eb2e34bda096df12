use vstd::prelude::*;

use vstd::std_specs::iter::IteratorSpec;

use rand::Rng;

verus! {

/// A number drawn from `[min, max)`.
///
/// Relies on `rand::Rng::gen_range` over `rand::thread_rng()`: for an exclusive
/// range it returns a value at least `min` and below `max`, and it panics on an
/// empty range, which `requires` leaves out.
#[verifier::external_body]
pub fn rand_range(min: usize, max: usize) -> (r: usize)
    requires
        min < max,
    ensures
        min <= r < max,
{
    rand::thread_rng().gen_range(min..max)
}

/// The least value of a non-empty sequence.
pub open spec fn least(s: Seq<i32>) -> i32
    decreases s.len(),
{
    if s.len() <= 1 {
        s[0]
    } else {
        let rest = least(s.drop_last());
        if s.last() < rest {
            s.last()
        } else {
            rest
        }
    }
}

/// The least of the values that `range`, an iterator fresh from a slice's
/// `iter()`, yields; it must yield one or more.
pub fn min<'a>(range: std::slice::Iter<'a, i32>) -> (r: &'a i32)
    requires
        range.initial_value_relation(&range),
        range.decrease() is Some,
        range.remaining().len() > 0,
    ensures
        *r == least(range.remaining().map_values(|v: &i32| *v)),
{
    let ghost all = range.remaining().map_values(|v: &i32| *v);
    let mut best: Option<&'a i32> = None;
    for v in it: range
        invariant
            it.seq() == range.remaining(),
            all == range.remaining().map_values(|v: &i32| *v),
            all.len() > 0,
            it.index() == 0 <==> best is None,
            best is Some ==> *best->0 == least(all.subrange(0, it.index() as int)),
    {
        proof {
            assert(all.subrange(0, it.index() + 1).drop_last() =~= all.subrange(0, it.index() as int));
        }
        match best {
            Some(b) => {
                if *v < *b {
                    best = Some(v);
                }
            },
            None => {
                best = Some(v);
            },
        }
    }
    assert(all.subrange(0, all.len() as int) =~= all);
    best.unwrap()
}

} // verus!
