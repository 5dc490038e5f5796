use vstd::prelude::*;

verus! {

/// `r` is the outcome of a uniform draw over `min..=max`.
///
/// Such a draw gives a value of its range, and every value of the range is one it can
/// give. The predicate is closed: a value drawn from a narrower range is in general no
/// draw over a wider one, even though it lies in it, so that a draw over `0..=270`
/// does not count as a draw over `0..=540`. What callers learn of an outcome is that it
/// lies in its range (`lemma_drawn_in_range`), and which range it was drawn from.
pub closed spec fn drawn_from(min: int, max: int, r: int) -> bool {
    min <= r <= max
}

/// The values a draw over `min..=max` can give: each integer of the range.
pub open spec fn draw_outcomes(min: int, max: int) -> Set<int> {
    Set::new(|r: int| min <= r <= max)
}

/// The outcome of a draw lies in its range.
pub proof fn lemma_drawn_in_range(min: int, max: int, r: int)
    requires
        drawn_from(min, max, r),
    ensures
        min <= r <= max,
        draw_outcomes(min, max).contains(r),
{
}

} // verus!
