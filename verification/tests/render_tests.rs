use timaeus::color::rgba;
use timaeus::edit::Grid;
use timaeus::level::{PlayerInfo, Surface};
use timaeus::renderer::{DrawCmd, DrawMode, Renderer};
use timaeus::texture::Texture;
use timaeus::{SCREEN_HEIGHT, SCREEN_WIDTH};

fn checker(side: u32) -> Texture {
    let mut data = Vec::new();
    for row in 0..side {
        for col in 0..side {
            if (row + col) % 2 == 0 {
                data.push(0xff00_00ff);
            } else {
                data.push(0xffff_ffff);
            }
        }
    }
    Texture::new(String::from("checker"), side, side, data).unwrap()
}

/// A wall with one endpoint at camera-relative depth -5 and the other at
/// +5 clips to a point with positive depth lying on the original segment.
#[test]
fn near_plane_clip_brings_depth_positive() {
    let (x, y, z) = Renderer::clip_behind(0, -5, 0, 10, 5, 20);
    assert!(y > 0);
    assert_eq!(y, 1);
    // the clipped endpoint lies parametrically between the originals:
    // halfway along, since the depths straddle zero symmetrically
    assert_eq!(x, 5);
    assert_eq!(z, 10);
    assert!(0 <= x && x <= 10);
    assert!(0 <= z && z <= 20);
}

#[test]
fn clip_width_and_height_clamp() {
    assert_eq!(Renderer::clip_width(-5), 0);
    assert_eq!(Renderer::clip_width(5000), SCREEN_WIDTH as i64);
    assert_eq!(Renderer::clip_width(500), 500);
    assert_eq!(Renderer::clip_height(-1), 0);
    assert_eq!(Renderer::clip_height(10_000), SCREEN_HEIGHT as i64);
}

#[test]
fn renderer_collects_commands() {
    let mut r = Renderer::new();
    assert_eq!(r.draw_mode, DrawMode::Draw3D);
    r.draw_dot(3, 4, rgba(1, 2, 3, 255));
    assert_eq!(r.cmds.len(), 1);
    match r.cmds[0] {
        DrawCmd::Dot { x, y, color } => {
            assert_eq!((x, y), (3, 4));
            assert_eq!(color, rgba(1, 2, 3, 255));
        },
        _ => panic!("expected a dot"),
    }
    r.draw_background();
    assert_eq!(r.cmds.len(), 1);
    match r.cmds[0] {
        DrawCmd::Rect { x, y, w, h, .. } => {
            assert_eq!((x, y), (0, 0));
            assert_eq!((w, h), (SCREEN_WIDTH as u32, SCREEN_HEIGHT as u32));
        },
        _ => panic!("expected the background rectangle"),
    }
}

#[test]
fn line_walks_dominant_axis() {
    let mut r = Renderer::new();
    r.draw_line(0, 0, 4, 2, rgba(9, 9, 9, 255));
    assert_eq!(r.cmds.len(), 4);
    let expect = [(0, 0), (1, 0), (2, 1), (3, 1)];
    for (k, (ex, ey)) in expect.iter().enumerate() {
        match r.cmds[k] {
            DrawCmd::Dot { x, y, .. } => assert_eq!((x, y), (*ex, *ey)),
            _ => panic!("expected a dot"),
        }
    }
    // a degenerate line draws nothing
    let mut r2 = Renderer::new();
    r2.draw_line(7, 7, 7, 7, rgba(0, 0, 0, 255));
    assert_eq!(r2.cmds.len(), 0);
}

#[test]
fn circle_has_one_dot_per_degree() {
    let mut r = Renderer::new();
    r.draw_circle(100, 100, 10, rgba(1, 1, 1, 255));
    assert_eq!(r.cmds.len(), 360);
    for c in &r.cmds {
        match c {
            DrawCmd::Dot { x, y, .. } => {
                assert!((x - 100).abs() <= 10 && (y - 100).abs() <= 10);
            },
            _ => panic!("expected a dot"),
        }
    }
}

#[test]
fn draw_wall_captures_surface_boundaries() {
    let mut r = Renderer::new();
    let p = PlayerInfo::new();
    let tex = checker(4);
    let mut sp = vec![SCREEN_HEIGHT as i32; SCREEN_WIDTH];
    // a wall spanning columns 100..200, bottom edge from 200 to 300, top
    // edge flat at 500
    r.draw_wall(
        &p,
        100,
        200,
        200,
        300,
        500,
        500,
        0,
        1,
        1,
        Some(Surface::BottomScan),
        &mut sp,
        Some(&tex),
        None,
    );
    assert_eq!(sp.len(), SCREEN_WIDTH);
    // outside the span the prefill is untouched
    assert_eq!(sp[99], SCREEN_HEIGHT as i32);
    assert_eq!(sp[200], SCREEN_HEIGHT as i32);
    // inside the span the boundary interpolates from 200 to 300
    assert_eq!(sp[100], 200);
    assert!(sp[150] >= 249 && sp[150] <= 251);
    assert!(sp[199] >= 299 && sp[199] <= 300);
    // every emitted command is a dot inside the screen
    for c in &r.cmds {
        match c {
            DrawCmd::Dot { x, y, .. } => {
                assert!(*x >= 100 && *x < 200);
                assert!(*y >= 0 && (*y as usize) < SCREEN_HEIGHT);
            },
            _ => panic!("expected a dot"),
        }
    }
}

#[test]
fn draw_wall_cycle_one_reads_boundaries() {
    let mut r = Renderer::new();
    let p = PlayerInfo::new();
    let tex = checker(4);
    let mut sp = vec![300; SCREEN_WIDTH];
    r.draw_wall(
        &p,
        0,
        10,
        100,
        100,
        50,
        50,
        1,
        1,
        1,
        Some(Surface::BottomScan),
        &mut sp,
        None,
        Some(&tex),
    );
    // the scratch buffer is read, not written, on the fill cycle
    assert!(sp.iter().all(|v| *v == 300));
    // fills rows from the wall bottom edge down to the captured boundary
    for c in &r.cmds {
        match c {
            DrawCmd::Dot { x, y, .. } => {
                assert!(*x >= 0 && *x < 10);
                assert!(*y >= 100 && *y < 300);
            },
            _ => panic!("expected a dot"),
        }
    }
    assert_eq!(r.cmds.len(), 10 * 200);
}

#[test]
fn first_person_overlay_avoids_notch() {
    let mut r = Renderer::new();
    let tex = checker(8);
    r.draw_first_person(&tex);
    assert!(r.cmds.len() > 0);
    for c in &r.cmds {
        match c {
            DrawCmd::Dot { x, y, .. } => {
                assert!(*x >= 672 && *x < 1008);
                assert!(*y >= 420 && (*y as usize) < SCREEN_HEIGHT);
                assert!(!(*x > 784 && *y < 504));
            },
            _ => panic!("expected a dot"),
        }
    }
}

#[test]
fn draw3d_runs_and_sorts_sectors() {
    let mut r = Renderer::new();
    let mut p = PlayerInfo::new();
    let bank = vec![checker(4)];
    let before = r.cmds.len();
    r.draw3d(&mut p, &bank, Some(&bank[0]));
    assert_eq!(r.draw_mode, DrawMode::Draw3D);
    assert!(r.cmds.len() >= before);
    assert_eq!(p.level.number_of_walls, 4);
    assert_eq!(p.level.number_of_sectors, 1);
}

#[test]
fn draw2d_emits_grid_and_walls() {
    let mut r = Renderer::new();
    let mut p = PlayerInfo::new();
    let mut g = Grid::new();
    r.draw2d(&mut p, &mut g, 0);
    assert_eq!(r.draw_mode, DrawMode::Draw2D);
    assert!(g.scale >= 1);
    assert!(r.cmds.len() > 0);
}

#[test]
fn draw_player_emits_square_and_arc() {
    let mut r = Renderer::new();
    let p = PlayerInfo::new();
    let g = Grid::new();
    r.draw_player(100, 100, rgba(0, 255, 0, 255), &g, &p);
    // one filled square followed by the 44-dot view arc
    assert_eq!(r.cmds.len(), 45);
    match r.cmds[0] {
        DrawCmd::Rect { w, h, .. } => assert_eq!((w, h), (20, 20)),
        _ => panic!("expected the player square"),
    }
    for c in &r.cmds[1..] {
        assert!(matches!(c, DrawCmd::Dot { .. }));
    }
}

#[test]
fn highlight_rectangle_spans_anchor_to_mouse() {
    let mut r = Renderer::new();
    let mut g = Grid::new();
    g.get_mouse_status(50, 30, true, false);
    let rect = r.highlight_rectangle(&g, 10, 80, false);
    assert_eq!((rect.x, rect.y, rect.w, rect.h), (10, 80, 40, 50));
    assert_eq!(r.cmds.len(), 0);
    let rect2 = r.highlight_rectangle(&g, 10, 80, true);
    assert_eq!(rect2, rect);
    assert_eq!(r.cmds.len(), 1);
}

#[test]
fn gun_sampler_reads_texture_words() {
    // a 2x2 texture: the overlay quad maps its left half to column 0
    let tex = Texture::new(
        String::from("tiny"),
        2,
        2,
        vec![0x1111_1111, 0x2222_2222, 0x3333_3333, 0x4444_4444],
    )
    .unwrap();
    // top-left of the quad: column 0, row 0
    let c = timaeus::renderer::sample_gun_pixel(&tex, 672, 420);
    assert_eq!((c.r, c.g, c.b, c.a), (0x11, 0x11, 0x11, 0x11));
    // right half, lower half: column 1, row 1
    let c = timaeus::renderer::sample_gun_pixel(&tex, 900, 700);
    assert_eq!((c.r, c.g, c.b, c.a), (0x44, 0x44, 0x44, 0x44));
}

#[test]
fn overlay_covers_quad_minus_notch_when_opaque() {
    // the checker texture is fully opaque, so the overlay paints every
    // pixel of the quad except the viewport notch
    let mut r = Renderer::new();
    let tex = checker(8);
    r.draw_first_person(&tex);
    let quad = 336 * 420;
    let notch = (1008 - 785) * (504 - 420);
    assert_eq!(r.cmds.len(), quad - notch);
}

#[test]
fn draw2d_frame_starts_with_grid_lines() {
    let mut r = Renderer::new();
    let mut p = PlayerInfo::new();
    let mut g = Grid::new();
    r.draw2d(&mut p, &mut g, 0);
    // the first command of the frame is the top dot of the first vertical
    // grid line at the left edge
    match r.cmds[0] {
        DrawCmd::Dot { x, y, color } => {
            assert_eq!((x, y), (0, 0));
            assert_eq!(color, rgba(0, 0, 0, 255));
        },
        _ => panic!("expected the first grid-line dot"),
    }
    // the last command region is the toolbar backdrop (no marquee is open)
    let last = r.cmds[r.cmds.len() - 1];
    match last {
        DrawCmd::Rect { x, y, w, h, .. } => {
            assert_eq!((x, y), (0, 720));
            assert_eq!((w, h), (SCREEN_WIDTH as u32, 120));
        },
        _ => panic!("expected the toolbar backdrop"),
    }
}

#[test]
fn draw2d_derives_selected_sector_from_wall() {
    let mut r = Renderer::new();
    let mut p = PlayerInfo::new();
    let mut g = Grid::new();
    g.selected_wall = Some(2);
    r.draw2d(&mut p, &mut g, 0);
    assert_eq!(g.selected_sector, Some(0));
    // a stale wall index selects no sector
    let mut g2 = Grid::new();
    g2.selected_wall = Some(99);
    g2.selected_sector = Some(7);
    let mut r2 = Renderer::new();
    r2.draw2d(&mut p, &mut g2, 0);
    assert_eq!(g2.selected_sector, Some(7));
}
