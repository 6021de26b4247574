use vstd::prelude::*;

verus! {

/// Number of boost pads on a standard soccar field.
pub const NUM_PADS: usize = 34;

/// Canonical boost pad positions `(x, y, z)`, blue back wall first.
/// Every coordinate of the field's pads is a whole number of units.
pub const PADS: [(i32, i32, i32); NUM_PADS] = [
    (0, -4240, 70),
    (-1792, -4184, 70),
    (1792, -4184, 70),
    (-3072, -4096, 73),
    (3072, -4096, 73),
    (-940, -3308, 70),
    (940, -3308, 70),
    (0, -2816, 70),
    (-3584, -2484, 70),
    (3584, -2484, 70),
    (-1788, -2300, 70),
    (1788, -2300, 70),
    (-2048, -1036, 70),
    (0, -1024, 70),
    (2048, -1036, 70),
    (-3584, 0, 73),
    (-1024, 0, 70),
    (1024, 0, 70),
    (3584, 0, 73),
    (-2048, 1036, 70),
    (0, 1024, 70),
    (2048, 1036, 70),
    (-1788, 2300, 70),
    (1788, 2300, 70),
    (-3584, 2484, 70),
    (3584, 2484, 70),
    (0, 2816, 70),
    (-940, 3308, 70),
    (940, 3308, 70),
    (-3072, 4096, 73),
    (3072, 4096, 73),
    (-1792, 4184, 70),
    (1792, 4184, 70),
    (0, 4240, 70),
];

/// The pad at canonical index `i` is the point reflection through the
/// field's vertical axis of the pad at index `NUM_PADS - 1 - i`.
pub proof fn lemma_pads_are_mirrored(i: int)
    requires
        0 <= i < NUM_PADS,
    ensures
        PADS@[i].0 == -PADS@[NUM_PADS - 1 - i].0,
        PADS@[i].1 == -PADS@[NUM_PADS - 1 - i].1,
        PADS@[i].2 == PADS@[NUM_PADS - 1 - i].2,
{
}

/// No pad stands at the mistyped depth 3310 that older layouts used.
pub proof fn lemma_pads_avoid_3310(i: int)
    requires
        0 <= i < NUM_PADS,
    ensures
        PADS@[i].1 != 3310 && PADS@[i].1 != -3310,
{
}

} // verus!
