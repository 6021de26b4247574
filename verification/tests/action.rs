use rl_arena::action::{CarFlags, LookupTableAction, NUM_ACTIONS};

#[test]
fn lookup_table_has_expected_shape() {
    let parser = LookupTableAction::new();

    assert_eq!(parser.action_count(), 90);
    assert!(parser.ground_mask()[..24].iter().all(|allowed| *allowed == 1));
    assert!(parser.ground_mask()[24..].iter().all(|allowed| *allowed == 0));

    for action in &parser.actions()[..24] {
        assert_eq!(action.pitch, 0);
        assert_eq!(action.yaw, action.steer);
        assert_eq!(action.roll, 0);
        assert!(!action.jump);
        assert!(!action.boost || action.throttle == 1);
    }

    for action in &parser.actions()[24..] {
        assert_eq!(action.steer, action.yaw);
        assert_eq!(action.throttle, if action.boost { 1 } else { 0 });
        assert!(!action.jump || action.yaw == 0);
        assert_eq!(
            action.handbrake,
            action.jump && (action.pitch != 0 || action.yaw != 0 || action.roll != 0)
        );
    }
}

#[test]
fn action_16_is_straight_forward_throttle() {
    let action = LookupTableAction::new().parse_action(16);

    assert_eq!(action.throttle, 1);
    assert_eq!(action.steer, 0);
    assert_eq!(action.pitch, 0);
    assert_eq!(action.yaw, 0);
    assert_eq!(action.roll, 0);
    assert!(!action.jump);
    assert!(!action.boost);
    assert!(!action.handbrake);
}

#[test]
fn first_aerial_action_is_available_in_air() {
    let parser = LookupTableAction::new();

    assert_eq!(parser.air_mask()[24], 1);
}

#[test]
fn zero_boost_never_allows_boost_actions() {
    let parser = LookupTableAction::new();
    let mask = parser.build_mask(false, false, true);

    for (allowed, action) in mask.iter().zip(parser.actions()) {
        if action.boost {
            assert_eq!(*allowed, 0);
        }
    }
}

#[test]
fn action_mask_uses_rocketsim_car_state() {
    let parser = LookupTableAction::new();
    // airborne, flip and double jump used, empty tank
    let mut car = CarFlags {
        is_on_ground: false,
        has_boost: false,
        has_flip_or_jump: false,
        has_world_contact: false,
        contact_normal_up: false,
    };

    let mask = parser.action_mask(&car);
    for (allowed, action) in mask.iter().zip(parser.actions()) {
        if action.jump || action.boost {
            assert_eq!(*allowed, 0);
        }
    }

    car.has_world_contact = true;
    car.contact_normal_up = true;

    let mask = parser.action_mask(&car);
    for (allowed, action) in mask.iter().zip(parser.actions()) {
        if action.boost {
            assert_eq!(*allowed, 0);
        } else if action.jump {
            assert_eq!(*allowed, 1);
        }
    }
}

#[test]
fn masks_match_action_count() {
    let parser = LookupTableAction::new();
    let count = parser.action_count();

    assert_eq!(parser.ground_mask().len(), count);
    assert_eq!(parser.air_mask().len(), count);
    assert_eq!(parser.jump_mask().len(), count);
    assert_eq!(parser.boost_mask().len(), count);
}

#[test]
fn ground_and_air_entry_counts() {
    let parser = LookupTableAction::new();
    let ground = parser.ground_mask().iter().filter(|allowed| **allowed == 1).count();
    let jumps = parser.jump_mask().iter().filter(|allowed| **allowed == 1).count();
    let boosts = parser.boost_mask().iter().filter(|allowed| **allowed == 1).count();

    assert_eq!(NUM_ACTIONS, 90);
    assert_eq!(ground, 24);
    assert_eq!(jumps, 3 * 3 * 2);
    assert_eq!(boosts, 6 + 33);
}

#[test]
fn on_ground_with_boost_allows_exactly_ground_entries() {
    let parser = LookupTableAction::new();
    let mask = parser.build_mask(true, true, false);

    assert_eq!(&mask[..], &parser.ground_mask()[..]);
}

#[test]
fn can_jump_adds_jump_entries_in_air() {
    let parser = LookupTableAction::new();
    let without = parser.build_mask(false, true, false);
    let with = parser.build_mask(false, true, true);

    for (index, action) in parser.actions().iter().enumerate() {
        if action.jump {
            assert_eq!(without[index], 0);
            assert_eq!(with[index], 1);
        } else {
            assert_eq!(without[index], with[index]);
        }
    }
}

#[test]
fn last_entry_is_full_aerial_boost() {
    let action = LookupTableAction::default().parse_action(89);

    assert_eq!(
        (action.pitch, action.yaw, action.roll, action.jump, action.boost),
        (1, 1, 1, false, true)
    );
    assert_eq!(action.throttle, 1);
    assert!(!action.handbrake);
}

#[test]
fn every_situation_allows_some_action() {
    let parser = LookupTableAction::new();

    for is_on_ground in [false, true] {
        for has_boost in [false, true] {
            for can_jump in [false, true] {
                let mask = parser.build_mask(is_on_ground, has_boost, can_jump);
                assert!(mask.iter().any(|allowed| *allowed == 1));
            }
        }
    }
}
