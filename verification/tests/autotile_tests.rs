use digger_core::{get_direction_bit, map_bitmask_to_offset, SquareDirection};

#[test]
fn offset_table_matches_atlas() {
    let expected: [(u8, u32); 16] = [
        (0, 0),
        (15, 1),
        (1, 2),
        (2, 3),
        (4, 4),
        (8, 5),
        (3, 6),
        (6, 7),
        (12, 8),
        (9, 9),
        (10, 10),
        (5, 11),
        (11, 12),
        (7, 13),
        (14, 14),
        (13, 15),
    ];
    for (mask, offset) in expected.iter() {
        assert_eq!(map_bitmask_to_offset(*mask), *offset);
    }
}

#[test]
fn offset_table_is_injective_on_masks() {
    for a in 0u8..16 {
        for b in 0u8..16 {
            if a != b {
                assert_ne!(map_bitmask_to_offset(a), map_bitmask_to_offset(b));
            }
        }
    }
}

#[test]
fn out_of_domain_masks_fall_back_to_zero() {
    assert_eq!(map_bitmask_to_offset(16), 0);
    assert_eq!(map_bitmask_to_offset(255), 0);
}

#[test]
fn direction_bits() {
    assert_eq!(get_direction_bit(SquareDirection::North), 1);
    assert_eq!(get_direction_bit(SquareDirection::East), 2);
    assert_eq!(get_direction_bit(SquareDirection::South), 4);
    assert_eq!(get_direction_bit(SquareDirection::West), 8);
}
