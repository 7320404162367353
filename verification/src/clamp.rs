//! Clamping a value into a closed range.

use core::cmp::Ordering;
use vstd::laws_cmp::obeys_partial_cmp_spec_properties;
use vstd::prelude::*;
use vstd::std_specs::cmp::PartialOrdSpec;

verus! {

/// Whether `a` lies below `b` in the type's order.
pub open spec fn below<T: PartialOrd>(a: T, b: T) -> bool {
    a.partial_cmp_spec(&b) == Some(Ordering::Less)
}

/// Whether `a` lies above `b` in the type's order.
pub open spec fn above<T: PartialOrd>(a: T, b: T) -> bool {
    a.partial_cmp_spec(&b) == Some(Ordering::Greater)
}

/// What clamping `x` into `[min, max]` gives: `min` where `x` lies below it,
/// else `max` where `x` lies above it, else `x`. A value that compares with
/// neither bound is left as it is.
pub open spec fn spec_clamped<T: PartialOrd>(x: T, min: T, max: T) -> T {
    if below(x, min) {
        min
    } else if above(x, max) {
        max
    } else {
        x
    }
}

/// Whether `r` is what the type's own `<` and `>` make of clamping `x` into
/// `[min, max]`: `min` where `x < min` comes out true, else `max` where
/// `x > max` comes out true, else `x`.
pub open spec fn clamps_to<T: PartialOrd>(x: T, min: T, max: T, r: T) -> bool {
    exists|low: bool| #[trigger]
        call_ensures(T::lt, (&x, &min), low) && if low {
            r == min
        } else {
            exists|high: bool| #[trigger]
                call_ensures(T::gt, (&x, &max), high) && r == if high {
                    max
                } else {
                    x
                }
        }
}

/// Clamps `x` into `[min, max]`. The type's own comparisons decide, `x < min`
/// first and then `x > max`; for a type whose comparisons follow its order,
/// the result is `spec_clamped`.
pub fn clamped<T: PartialOrd>(x: T, min: T, max: T) -> (r: T)
    ensures
        clamps_to(x, min, max, r),
        T::obeys_partial_cmp_spec() ==> r == spec_clamped(x, min, max),
{
    if x < min {
        min
    } else if x > max {
        max
    } else {
        x
    }
}

/// Under an order that obeys the laws of a partial order, and with bounds
/// that are not crossed, a clamped value lies neither below `min` nor above
/// `max`, and clamping it again changes nothing.
pub proof fn lemma_clamped_within<T: PartialOrd>(x: T, min: T, max: T)
    requires
        obeys_partial_cmp_spec_properties::<T>(),
        !above(min, max),
    ensures
        !below(spec_clamped(x, min, max), min),
        !above(spec_clamped(x, min, max), max),
        spec_clamped(spec_clamped(x, min, max), min, max) == spec_clamped(x, min, max),
{
    reveal(obeys_partial_cmp_spec_properties);
    assert(below(min, min) <==> above(min, min));
    assert(below(max, max) <==> above(max, max));
    assert(below(max, min) <==> above(min, max));
}

} // verus!
