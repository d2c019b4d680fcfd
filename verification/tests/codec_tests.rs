use timaeus::codec::{decode, encode};
use timaeus::color::rgba;
use timaeus::level::{level_eq, Level, PlayerInfo, Sector, Wall};

fn two_sector_level() -> Level {
    let mut walls = Vec::new();
    let specs = [
        ((0, 0), (10, 0)),
        ((10, 0), (10, 10)),
        ((10, 10), (0, 0)),
        ((20, 20), (30, 20)),
        ((30, 20), (30, 30)),
        ((30, 30), (20, 20)),
    ];
    for (i, (a, b)) in specs.iter().enumerate() {
        walls.push(Wall {
            x1: a.0,
            y1: a.1,
            x2: b.0,
            y2: b.1,
            color: rgba(10 + i as u8, 20, 30, 255),
            texture: if i % 2 == 0 { Some(i as u32) } else { None },
            u: 1 + i as i32,
            v: 2,
        });
    }
    let sectors = vec![
        Sector {
            wall_start: 0,
            wall_end: 3,
            bottom_height: -5,
            top_height: 40,
            distance: 17,
            top_color: rgba(1, 2, 3, 4),
            bottom_color: rgba(5, 6, 7, 8),
            surface_texture: Some(2),
        },
        Sector {
            wall_start: 3,
            wall_end: 6,
            bottom_height: 0,
            top_height: 55,
            distance: 0,
            top_color: rgba(9, 10, 11, 12),
            bottom_color: rgba(13, 14, 15, 16),
            surface_texture: None,
        },
    ];
    Level { number_of_sectors: 2, sectors, number_of_walls: 6, walls }
}

/// Saving a level and loading it back reproduces an identical sector and
/// wall array: same counts, same field values, same order.
#[test]
fn round_trip_reproduces_level() {
    let level = two_sector_level();
    let words = encode(&level);
    let back = decode(&words).expect("an encoded level must decode");
    assert!(level_eq(&level, &back));
}

#[test]
fn round_trip_witness_matches() {
    let level = two_sector_level();
    let back = timaeus::codec::round_trip(&level);
    assert!(level_eq(&level, &back));
}

#[test]
fn round_trip_of_seed_level() {
    let p = PlayerInfo::new();
    let words = encode(&p.level);
    let back = decode(&words).expect("an encoded level must decode");
    assert!(level_eq(&p.level, &back));
}

#[test]
fn encoded_layout_has_header_and_records() {
    let level = two_sector_level();
    let words = encode(&level);
    assert_eq!(words[0], 2);
    assert_eq!(words[1], 6);
    assert_eq!(words.len(), 2 + 2 * 14 + 6 * 11);
    // first sector record starts right after the header
    assert_eq!(words[2], 0);
    assert_eq!(words[3], 3);
    assert_eq!(words[4], -5);
}

#[test]
fn decode_rejects_truncated_input() {
    let level = two_sector_level();
    let mut words = encode(&level);
    words.pop();
    assert!(decode(&words).is_none());
    assert!(decode(&vec![]).is_none());
    assert!(decode(&vec![1]).is_none());
}

#[test]
fn decode_rejects_corrupt_records() {
    let level = two_sector_level();
    // a color channel outside a byte
    let mut words = encode(&level);
    words[7] = 300;
    assert!(decode(&words).is_none());
    // an inverted wall range
    let mut words = encode(&level);
    words[2] = 5;
    words[3] = 2;
    assert!(decode(&words).is_none());
    // a wall coordinate outside the map bound
    let mut words = encode(&level);
    words[2 + 2 * 14] = 2_000_000_000;
    assert!(decode(&words).is_none());
    // a bad header count
    let mut words = encode(&level);
    words[0] = -1;
    assert!(decode(&words).is_none());
}
