//! How the radius of a neighbourhood shrinks, and where the shrinking ends.

use vstd::prelude::*;

verus! {

/// The radius of a neighbourhood after one shrinking: a fifth less, taken in
/// whole tenths of the radius.
pub open spec fn shrunk(radius: nat) -> nat {
    (radius - 2 * (radius / 10)) as nat
}

/// The radius of a neighbourhood after `times` shrinkings.
pub open spec fn shrunk_times(radius: nat, times: nat) -> nat
    decreases times,
{
    if times == 0 {
        radius
    } else {
        shrunk(shrunk_times(radius, (times - 1) as nat))
    }
}

/// Shrinking never widens a radius. It leaves a radius below 10 as it is,
/// and takes at least 2 from any other without bringing it below 8.
pub proof fn lemma_shrunk(radius: nat)
    ensures
        shrunk(radius) <= radius,
        radius < 10 ==> shrunk(radius) == radius,
        radius >= 10 ==> 8 <= shrunk(radius) <= radius - 2,
{
}

/// The more often a radius shrinks, the smaller it is.
pub proof fn lemma_shrunk_times_falls(radius: nat, fewer: nat, more: nat)
    requires
        fewer <= more,
    ensures
        shrunk_times(radius, more) <= shrunk_times(radius, fewer),
    decreases more,
{
    if fewer < more {
        lemma_shrunk_times_falls(radius, fewer, (more - 1) as nat);
        lemma_shrunk(shrunk_times(radius, (more - 1) as nat));
    }
}

/// After `times` shrinkings a radius is below 10, or has lost 2 each time.
proof fn lemma_shrunk_times_loses(radius: nat, times: nat)
    ensures
        shrunk_times(radius, times) < 10 || shrunk_times(radius, times) + 2 * times <= radius,
    decreases times,
{
    if times > 0 {
        lemma_shrunk_times_loses(radius, (times - 1) as nat);
        lemma_shrunk(shrunk_times(radius, (times - 1) as nat));
    }
}

/// A radius of 10 or more never shrinks below 8, however often it shrinks.
pub proof fn law_radius_has_a_floor(initial: nat, times: nat)
    requires
        initial >= 10,
    ensures
        shrunk_times(initial, times) >= 8,
    decreases times,
{
    if times > 0 {
        law_radius_has_a_floor(initial, (times - 1) as nat);
        lemma_shrunk(shrunk_times(initial, (times - 1) as nat));
    }
}

/// A radius of 10 or more settles on 8 or 9: once it has shrunk often
/// enough to lose 2 each time down to 9, it shrinks no further.
pub proof fn law_radius_settles(initial: nat, times: nat)
    requires
        initial >= 10,
        initial <= 2 * times + 9,
    ensures
        8 <= shrunk_times(initial, times) <= 9,
        shrunk_times(initial, times + 1) == shrunk_times(initial, times),
{
    law_radius_has_a_floor(initial, times);
    lemma_shrunk_times_loses(initial, times);
    lemma_shrunk(shrunk_times(initial, times));
}

} // verus!
