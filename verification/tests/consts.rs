use rl_arena::env::consts::{NUM_PADS, PADS};

#[test]
fn boost_pad_count_is_34() {
    assert_eq!(NUM_PADS, 34);
    assert_eq!(PADS.len(), NUM_PADS);
}

#[test]
fn boost_pads_are_mirrored() {
    for (pad, mirrored) in PADS.iter().zip(PADS.iter().rev()) {
        assert_eq!(pad.0, -mirrored.0);
        assert_eq!(pad.1, -mirrored.1);
        assert_eq!(pad.2, mirrored.2);
    }
}

#[test]
fn boost_pads_do_not_use_3310() {
    assert!(PADS.iter().all(|pad| pad.1.abs() != 3310));
}

#[test]
fn large_boost_pads_sit_higher() {
    const BIG_PAD_INDICES: [usize; 6] = [3, 4, 15, 18, 29, 30];

    for (index, pad) in PADS.iter().enumerate() {
        assert_eq!(pad.2 == 73, BIG_PAD_INDICES.contains(&index));
    }
}
