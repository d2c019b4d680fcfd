use timaeus::edit::{
    adjust_bottom_height, adjust_top_height, adjust_wall_uv, apply_drag, begin_marquee,
    collect_marquee, cycle_wall_texture, end_marquee, mouse_to_map, pick_vertex, toolbar_left_click,
    toolbar_right_click, trace_step, wall_point, Button, Grid, MouseStatus, PointCode, Selection,
    State, WallEnd,
};
use timaeus::level::PlayerInfo;

fn set_mouse(grid: &mut Grid, x: i32, y: i32, left: bool) {
    grid.get_mouse_status(x, y, left, false);
}

#[test]
fn mouse_status_reports_buttons() {
    let m = MouseStatus::get(10, 20, true, false, 3);
    assert_eq!(m.mouse_x, 10);
    assert_eq!(m.mouse_y, 20);
    assert_eq!(m.button, Some(Button::Left));
    assert_eq!(m.click_count, 3);
    let m = MouseStatus::get(0, 0, false, true, 0);
    assert_eq!(m.button, Some(Button::Right));
    let m = MouseStatus::get(0, 0, false, false, 0);
    assert_eq!(m.button, None);
}

#[test]
fn selection_starts_empty() {
    let p = PlayerInfo::new();
    let s = Selection::from_level(&p.level);
    assert!(s.sectors.is_empty() && s.walls.is_empty() && s.points.is_empty());
}

#[test]
fn grid_view_panning_and_zoom() {
    let mut g = Grid::new();
    g.view_up();
    assert_eq!(g.view_shift_y, 10);
    g.view_down();
    assert_eq!(g.view_shift_y, 0);
    g.view_left();
    assert_eq!(g.view_shift_x, 10);
    g.view_right();
    assert_eq!(g.view_shift_x, 0);
    g.zoom_in();
    assert_eq!(g.scale, 11);
    g.zoom_out();
    assert_eq!(g.scale, 10);
}

#[test]
fn next_wall_cycles() {
    let mut g = Grid::new();
    let mut p = PlayerInfo::new();
    g.next_wall(&mut p);
    assert_eq!(g.selected_wall, Some(0));
    g.next_wall(&mut p);
    assert_eq!(g.selected_wall, Some(1));
    g.selected_wall = Some(3);
    g.next_wall(&mut p);
    assert_eq!(g.selected_wall, Some(0));
}

#[test]
fn mouse_to_map_scales_and_shifts() {
    assert_eq!(mouse_to_map(100, 10, 0), 10);
    assert_eq!(mouse_to_map(100, 10, 3), 7);
    assert_eq!(mouse_to_map(-100, 10, 0), -10);
}

#[test]
fn wall_point_projects_endpoints() {
    let p = PlayerInfo::new();
    let g = Grid::new();
    // wall 0 runs from (32,32) to (64,32); scale is 10, no shift
    assert_eq!(wall_point(&p, &g, 0, 1).unwrap(), (320, 320));
    assert_eq!(wall_point(&p, &g, 0, 2).unwrap(), (640, 320));
    assert!(wall_point(&p, &g, 0, 3).is_err());
}

/// Dragging each of the eight point codes moves both coupled endpoints,
/// keeping the shared vertex welded.
#[test]
fn drag_welds_all_eight_codes() {
    for wraps in [false, true] {
        for this in [WallEnd::Start, WallEnd::End] {
            for next in [WallEnd::Start, WallEnd::End] {
                let mut p = PlayerInfo::new();
                let mut g = Grid::new();
                g.scale = 1;
                set_mouse(&mut g, 100, 200, true);
                let wall = if wraps { 3 } else { 1 };
                g.selected_wall = Some(wall);
                g.selected_sector = Some(0);
                g.selected_point = Some(PointCode { this, next, wraps });
                apply_drag(&mut g, &mut p);
                let second = if wraps { 0 } else { wall + 1 };
                let w = p.level.walls[wall];
                let s = p.level.walls[second];
                let wpt = match this {
                    WallEnd::Start => (w.x1, w.y1),
                    WallEnd::End => (w.x2, w.y2),
                };
                let spt = match next {
                    WallEnd::Start => (s.x1, s.y1),
                    WallEnd::End => (s.x2, s.y2),
                };
                assert_eq!(wpt, (100, 200));
                assert_eq!(spt, (100, 200));
                assert_eq!(g.state, State::Busy);
                assert_eq!(g.highlight_x, None);
            }
        }
    }
}

#[test]
fn pick_vertex_selects_shared_vertex_under_mouse() {
    let mut p = PlayerInfo::new();
    let mut g = Grid::new();
    // wall 0 ends at (64,32) where wall 1 starts; scale 10 puts it at (640,320)
    set_mouse(&mut g, 640, 320, true);
    pick_vertex(&mut g, &p);
    assert_eq!(g.selected_sector, Some(0));
    assert_eq!(g.selected_wall, Some(0));
    let code = g.selected_point.expect("a vertex should be picked");
    assert_eq!(code.this, WallEnd::End);
    assert_eq!(code.next, WallEnd::Start);
    assert!(!code.wraps);
    assert_eq!(g.state, State::Busy);
    // far away from every vertex nothing is picked
    let mut g2 = Grid::new();
    set_mouse(&mut g2, 5000, 5000, true);
    pick_vertex(&mut g2, &p);
    assert_eq!(g2.selected_point, None);
    // drag the picked vertex and check the weld survives
    set_mouse(&mut g, 700, 400, true);
    apply_drag(&mut g, &mut p);
    assert_eq!((p.level.walls[0].x2, p.level.walls[0].y2), (70, 40));
    assert_eq!((p.level.walls[1].x1, p.level.walls[1].y1), (70, 40));
}

#[test]
fn marquee_collects_enclosed_points() {
    let p = PlayerInfo::new();
    let mut g = Grid::new();
    // marquee from (300,300) to (700,400) at scale 10 encloses the two
    // vertices (320,320) and (640,320)
    begin_marquee(&mut g, 300, 300);
    set_mouse(&mut g, 700, 400, true);
    collect_marquee(&mut g, &p);
    // wall 0: p1 at (320,320) enclosed but wall index 0 contributes no
    // first-endpoint id; p2 at (640,320) enclosed, id 0
    // wall 1: p1 at (640,320) enclosed, id 2*1-1 = 1; p2 at (640,640) outside
    // wall 3: p1 at (320,640) outside; p2 at (320,320) enclosed, id 6
    assert_eq!(g.selection.points, vec![0, 1, 6]);
    end_marquee(&mut g);
    assert_eq!(g.highlight_x, None);
    assert_eq!(g.state, State::Free);
}

/// Tracing three clicks and then clicking back near the first point closes
/// the polygon: exactly three new walls in one new sector.
#[test]
fn trace_three_clicks_closes_loop() {
    let mut p = PlayerInfo::new();
    let mut g = Grid::new();
    g.scale = 1;
    g.new_sector = Some(Vec::new());
    for (x, y) in [(0, 0), (10, 0), (10, 10)] {
        set_mouse(&mut g, x, y, true);
        trace_step(&mut g, &mut p, 0);
    }
    assert_eq!(g.new_sector.as_ref().unwrap().len(), 3);
    assert_eq!(p.level.number_of_walls, 4);
    // the closing click lands within eight pixels of the first point
    set_mouse(&mut g, 5, 0, true);
    trace_step(&mut g, &mut p, 0);
    assert_eq!(g.new_sector, None);
    assert_eq!(p.level.number_of_walls, 7);
    assert_eq!(p.level.number_of_sectors, 2);
    let s = p.level.sectors[1];
    assert_eq!((s.wall_start, s.wall_end), (4, 7));
    // exactly three new walls forming a closed loop
    let w4 = p.level.walls[4];
    let w5 = p.level.walls[5];
    let w6 = p.level.walls[6];
    assert_eq!(((w4.x1, w4.y1), (w4.x2, w4.y2)), ((0, 0), (10, 0)));
    assert_eq!(((w5.x1, w5.y1), (w5.x2, w5.y2)), ((10, 0), (10, 10)));
    assert_eq!(((w6.x1, w6.y1), (w6.x2, w6.y2)), ((10, 10), (0, 0)));
    // all three share the same palette color
    assert_eq!(w4.color, w5.color);
    assert_eq!(w5.color, w6.color);
}

#[test]
fn trace_far_click_keeps_collecting() {
    let mut p = PlayerInfo::new();
    let mut g = Grid::new();
    g.scale = 1;
    g.new_sector = Some(Vec::new());
    for (x, y) in [(0, 0), (50, 0), (50, 50), (0, 50)] {
        set_mouse(&mut g, x, y, true);
        trace_step(&mut g, &mut p, 0);
    }
    assert_eq!(g.new_sector.as_ref().unwrap().len(), 4);
    assert_eq!(p.level.number_of_walls, 4);
}

#[test]
fn toolbar_height_hotspots() {
    let mut p = PlayerInfo::new();
    let mut g = Grid::new();
    g.selected_sector = Some(0);
    g.selected_wall = Some(0);
    // floor +1: left click at (160, 780)
    set_mouse(&mut g, 160, 780, true);
    toolbar_left_click(&g, &mut p, 0);
    assert_eq!(p.level.sectors[0].bottom_height, 1);
    // floor -1: left click at (200, 780)
    set_mouse(&mut g, 200, 780, true);
    toolbar_left_click(&g, &mut p, 0);
    assert_eq!(p.level.sectors[0].bottom_height, 0);
    // ceiling +1: left click at (170, 800)
    set_mouse(&mut g, 170, 800, true);
    toolbar_left_click(&g, &mut p, 0);
    assert_eq!(p.level.sectors[0].top_height, 41);
    // floor +10 and ceiling -10 with right clicks
    set_mouse(&mut g, 170, 780, false);
    toolbar_right_click(&g, &mut p, 0);
    assert_eq!(p.level.sectors[0].bottom_height, 10);
    set_mouse(&mut g, 200, 800, false);
    toolbar_right_click(&g, &mut p, 0);
    assert_eq!(p.level.sectors[0].top_height, 31);
    // wall u +1 and v -1
    set_mouse(&mut g, 380, 780, true);
    toolbar_left_click(&g, &mut p, 0);
    assert_eq!(p.level.walls[0].u, 2);
    set_mouse(&mut g, 410, 800, true);
    toolbar_left_click(&g, &mut p, 0);
    assert_eq!(p.level.walls[0].v, 0);
}

#[test]
fn toolbar_texture_preview_cycles() {
    let mut p = PlayerInfo::new();
    let mut g = Grid::new();
    g.selected_sector = Some(0);
    g.selected_wall = Some(0);
    assert_eq!(p.level.walls[0].texture, Some(0));
    set_mouse(&mut g, 500, 800, true);
    toolbar_left_click(&g, &mut p, 3);
    assert_eq!(p.level.walls[0].texture, Some(1));
    set_mouse(&mut g, 500, 800, false);
    toolbar_right_click(&g, &mut p, 3);
    assert_eq!(p.level.walls[0].texture, Some(0));
    // backward from the first entry wraps to the last
    toolbar_right_click(&g, &mut p, 3);
    assert_eq!(p.level.walls[0].texture, Some(2));
}

#[test]
fn attribute_mutators_guard_stale_indices() {
    let mut p = PlayerInfo::new();
    adjust_bottom_height(&mut p.level, 99, 1);
    adjust_top_height(&mut p.level, 99, 1);
    adjust_wall_uv(&mut p.level, 99, 1, true);
    cycle_wall_texture(&mut p.level, 99, 5, true);
    let q = PlayerInfo::new();
    assert!(timaeus::level::level_eq(&p.level, &q.level));
}
