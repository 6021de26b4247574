use rl_arena::maps::{soccar_meshes, SOCCAR_DATA_LEN, SOCCAR_MESH_COUNT, SOCCAR_MESH_SPANS};

#[test]
fn mesh_spans_tile_the_data() {
    let mut expected_offset = 0;

    for &(offset, size) in &SOCCAR_MESH_SPANS {
        assert_eq!(offset, expected_offset);
        expected_offset += size;
    }

    assert_eq!(expected_offset, SOCCAR_DATA_LEN);
}

#[test]
fn meshes_are_cut_at_the_spans() {
    let data: Vec<u8> = (0..SOCCAR_DATA_LEN).map(|index| (index % 251) as u8).collect();
    let meshes = soccar_meshes(&data);

    assert_eq!(meshes.len(), SOCCAR_MESH_COUNT);
    for (mesh, &(offset, size)) in meshes.iter().zip(&SOCCAR_MESH_SPANS) {
        assert_eq!(mesh.len(), size);
        assert_eq!(*mesh, &data[offset..offset + size]);
    }
}
