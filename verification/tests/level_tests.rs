use timaeus::color::rgba;
use timaeus::level::{level_eq, sort, PlayerInfo, Sector, Wall, XYZ};
use timaeus::texture::{next_texture_index, prev_texture_index, Texture};

fn test_sector(distance: i64) -> Sector {
    Sector {
        wall_start: 0,
        wall_end: 1,
        bottom_height: 0,
        top_height: 40,
        distance,
        top_color: rgba(255, 255, 255, 255),
        bottom_color: rgba(0, 0, 0, 255),
        surface_texture: None,
    }
}

#[test]
fn sort_orders_back_to_front() {
    let v = vec![test_sector(5), test_sector(1), test_sector(3)];
    let sorted = sort(v);
    let ds: Vec<i64> = sorted.iter().map(|s| s.distance).collect();
    assert_eq!(ds, vec![5, 3, 1]);
}

#[test]
fn sort_handles_ties_and_empty() {
    let sorted = sort(Vec::new());
    assert_eq!(sorted.len(), 0);
    let v = vec![test_sector(2), test_sector(2), test_sector(7)];
    let sorted = sort(v);
    let ds: Vec<i64> = sorted.iter().map(|s| s.distance).collect();
    assert_eq!(ds, vec![7, 2, 2]);
}

#[test]
fn new_player_has_seed_square() {
    let p = PlayerInfo::new();
    assert_eq!(p.position, XYZ { x: 32, y: 32, z: 10 });
    assert_eq!(p.angle_h, 0);
    assert_eq!(p.level.number_of_sectors, 1);
    assert_eq!(p.level.number_of_walls, 4);
    // the seed walls form a closed loop
    for i in 0..4 {
        let w = p.level.walls[i];
        let n = p.level.walls[(i + 1) % 4];
        assert_eq!((w.x2, w.y2), (n.x1, n.y1));
    }
}

#[test]
fn distances_sorts_sectors() {
    let mut p = PlayerInfo::new();
    // add a second, farther sector by hand
    let green = rgba(154, 214, 28, 255);
    for (a, b) in [((500, 500), (600, 500)), ((600, 500), (600, 600)), (
        (600, 600),
        (500, 600),
    ), ((500, 600), (500, 500))] {
        p.level.walls.push(Wall {
            x1: a.0,
            y1: a.1,
            x2: b.0,
            y2: b.1,
            color: green,
            texture: None,
            u: 1,
            v: 1,
        });
    }
    p.level.number_of_walls = 8;
    p.level.sectors.push(Sector { wall_start: 4, wall_end: 8, ..test_sector(0) });
    p.level.number_of_sectors = 2;
    PlayerInfo::distances(&mut p);
    assert_eq!(p.level.sectors.len(), 2);
    // the far sector now comes first, and distances are non-increasing
    assert!(p.level.sectors[0].distance >= p.level.sectors[1].distance);
    assert_eq!(p.level.sectors[0].wall_start, 4);
    assert_eq!(p.level.sectors[1].wall_start, 0);
}

#[test]
fn sector_centered_on_player_has_distance_zero() {
    // a square sector whose wall-midpoint centroid is exactly the player
    let mut p = PlayerInfo::new();
    let c = rgba(1, 2, 3, 255);
    for (a, b) in [((22, 22), (42, 22)), ((42, 22), (42, 42)), ((42, 42), (22, 42)), (
        (22, 42),
        (22, 22),
    )] {
        p.level.walls.push(Wall {
            x1: a.0,
            y1: a.1,
            x2: b.0,
            y2: b.1,
            color: c,
            texture: None,
            u: 1,
            v: 1,
        });
    }
    p.level.number_of_walls = 8;
    p.level.sectors.push(Sector { wall_start: 4, wall_end: 8, ..test_sector(0) });
    p.level.number_of_sectors = 2;
    PlayerInfo::distances(&mut p);
    // player (32,32) is the centroid of the new square: its distance is 0,
    // so it sorts after the seed sector
    assert_eq!(p.level.sectors[1].wall_start, 4);
    assert_eq!(p.level.sectors[1].distance, 0);
    // the seed square around (32..64) has its centroid at (48,48):
    // distance is the rounded diagonal, sqrt(2 * 16^2) = 22
    assert_eq!(p.level.sectors[0].distance, 22);
}

#[test]
fn movement_steps_follow_view_angle() {
    let mut p = PlayerInfo::new();
    // looking along angle 0: sine is 0, cosine is 1, so forward is +y
    PlayerInfo::move_fowward(&mut p);
    assert_eq!((p.position.x, p.position.y), (32, 42));
    PlayerInfo::move_backward(&mut p);
    assert_eq!((p.position.x, p.position.y), (32, 32));
    PlayerInfo::move_right(&mut p);
    assert_eq!((p.position.x, p.position.y), (42, 32));
    PlayerInfo::move_left(&mut p);
    assert_eq!((p.position.x, p.position.y), (32, 32));
    PlayerInfo::move_up(&mut p);
    assert_eq!(p.position.z, 9);
    PlayerInfo::move_down(&mut p);
    assert_eq!(p.position.z, 10);
    PlayerInfo::look_left(&mut p);
    assert_eq!(p.angle_h, -10);
    PlayerInfo::look_right(&mut p);
    PlayerInfo::look_right(&mut p);
    assert_eq!(p.angle_h, 10);
}

#[test]
fn get_points_walks_the_wall() {
    let w = Wall {
        x1: 0,
        y1: 0,
        x2: 4,
        y2: 2,
        color: rgba(0, 0, 0, 255),
        texture: None,
        u: 1,
        v: 1,
    };
    let pts = w.get_points();
    assert_eq!(pts.len(), 4);
    assert_eq!(pts[0], (0, 0));
    assert_eq!(pts[1], (1, 0));
    assert_eq!(pts[2], (2, 1));
    assert_eq!(pts[3], (3, 1));
}

#[test]
fn texture_index_wraps_both_ways() {
    // cycling next from the last entry returns the first
    assert_eq!(next_texture_index(9, 10), 0);
    assert_eq!(next_texture_index(0, 10), 1);
    // cycling previous from the first returns the last
    assert_eq!(prev_texture_index(0, 10), 9);
    assert_eq!(prev_texture_index(5, 10), 4);
}

#[test]
fn wall_texture_cycling_wraps() {
    let mut w = Wall {
        x1: 0,
        y1: 0,
        x2: 1,
        y2: 0,
        color: rgba(0, 0, 0, 255),
        texture: Some(2),
        u: 1,
        v: 1,
    };
    w.next_texture(3);
    assert_eq!(w.texture, Some(0));
    w.prev_texture(3);
    assert_eq!(w.texture, Some(2));
    w.prev_texture(3);
    assert_eq!(w.texture, Some(1));
    let mut untextured = Wall { texture: None, ..w };
    untextured.next_texture(3);
    assert_eq!(untextured.texture, None);
}

#[test]
fn texture_constructor_checks_dimensions() {
    let t = Texture::new(String::from("checker"), 2, 2, vec![1, 2, 3, 4]);
    assert!(t.is_some());
    let t = t.unwrap();
    assert_eq!(t.pixel(0, 0), 1);
    assert_eq!(t.pixel(0, 1), 2);
    assert_eq!(t.pixel(1, 0), 3);
    assert_eq!(t.pixel(1, 1), 4);
    assert!(Texture::new(String::from("bad"), 2, 2, vec![1, 2, 3]).is_none());
    assert!(Texture::new(String::from("bad"), 0, 2, vec![]).is_none());
}

#[test]
fn level_eq_compares_deeply() {
    let a = PlayerInfo::new();
    let mut b = PlayerInfo::new();
    assert!(level_eq(&a.level, &b.level));
    b.level.walls[2].x1 += 1;
    assert!(!level_eq(&a.level, &b.level));
}

#[test]
fn mouse_point_is_identity() {
    assert_eq!(timaeus::level::mouse_point(12, -7), (12, -7));
}

#[test]
fn distances_computes_centroid_distance() {
    // seed square 32..64: wall midpoints average to (48,48); from the
    // player at (32,32) that is an integer distance of 22
    let mut p = PlayerInfo::new();
    PlayerInfo::distances(&mut p);
    assert_eq!(p.level.sectors[0].distance, 22);
}
