use vstd::prelude::*;

verus! {

/// Number of collision meshes of the soccar field.
pub const SOCCAR_MESH_COUNT: usize = 16;

/// `(offset, size)` of every soccar collision mesh in the packed mesh data.
pub const SOCCAR_MESH_SPANS: [(usize, usize); SOCCAR_MESH_COUNT] = [
    (0, 16_364),
    (16_364, 16_364),
    (32_728, 16_364),
    (49_092, 16_364),
    (65_456, 18_236),
    (83_692, 18_236),
    (101_928, 18_236),
    (120_164, 18_236),
    (138_400, 416),
    (138_816, 416),
    (139_232, 2_480),
    (141_712, 2_480),
    (144_192, 2_480),
    (146_672, 2_480),
    (149_152, 416),
    (149_568, 416),
];

/// Length of the packed soccar mesh data: the end of the last span.
pub const SOCCAR_DATA_LEN: usize = 149_984;

pub open spec fn span_end(i: int) -> int {
    SOCCAR_MESH_SPANS@[i].0 + SOCCAR_MESH_SPANS@[i].1
}

/// The spans tile the packed data: the first starts at 0, each starts where
/// the previous one ends, and the last ends at the end of the data.
pub proof fn lemma_spans_tile_data(i: int)
    requires
        0 <= i < SOCCAR_MESH_COUNT,
    ensures
        SOCCAR_MESH_SPANS@[0].0 == 0,
        i + 1 < SOCCAR_MESH_COUNT ==> SOCCAR_MESH_SPANS@[i + 1].0 == span_end(i),
        span_end(SOCCAR_MESH_COUNT - 1) == SOCCAR_DATA_LEN,
        span_end(i) <= SOCCAR_DATA_LEN,
{
}

/// Cuts the packed soccar mesh data into its meshes.
pub fn soccar_meshes(data: &[u8]) -> (res: Vec<&[u8]>)
    requires
        data@.len() >= SOCCAR_DATA_LEN,
    ensures
        res@.len() == SOCCAR_MESH_COUNT,
        forall|i: int|
            0 <= i < SOCCAR_MESH_COUNT ==> (#[trigger] res@[i])@ == data@.subrange(
                SOCCAR_MESH_SPANS@[i].0 as int,
                span_end(i),
            ),
{
    let mut meshes: Vec<&[u8]> = Vec::with_capacity(SOCCAR_MESH_COUNT);
    let mut index: usize = 0;
    while index < SOCCAR_MESH_COUNT
        invariant
            data@.len() >= SOCCAR_DATA_LEN,
            index <= SOCCAR_MESH_COUNT,
            meshes@.len() == index,
            forall|i: int|
                0 <= i < index ==> (#[trigger] meshes@[i])@ == data@.subrange(
                    SOCCAR_MESH_SPANS@[i].0 as int,
                    span_end(i),
                ),
        decreases SOCCAR_MESH_COUNT - index,
    {
        proof {
            lemma_spans_tile_data(index as int);
        }
        let (offset, size) = SOCCAR_MESH_SPANS[index];
        meshes.push(vstd::slice::slice_subrange(data, offset, offset + size));
        index = index + 1;
    }
    meshes
}

} // verus!
