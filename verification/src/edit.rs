//! The 2D edit engine: grid and selection state, vertex picking, welded
//! vertex drags, marquee selection, new-sector tracing, and the toolbar
//! attribute edits.
use crate::color::{green, spec_rgba, Rgba};
use crate::level::{
    clamp_map, level_contiguous, level_wf, player_wf, sector_wf, spec_clamp_map, wall_wf, Level,
    PlayerInfo, Sector, Wall, MAP_LIMIT,
};
use crate::math::{dist_sq, div_trunc, tdiv};
use vstd::prelude::*;

verus! {

/// Which mouse button is held.
#[derive(Clone, Copy, Debug, PartialEq, Eq, Structural)]
pub enum Button {
    Left,
    Right,
}

/// Whether a drag or marquee is in progress.
#[derive(Clone, Copy, Debug, PartialEq, Eq, Structural)]
pub enum State {
    Busy,
    Free,
}

/// One endpoint of a wall segment.
#[derive(Clone, Copy, Debug, PartialEq, Eq, Structural)]
pub enum WallEnd {
    Start,
    End,
}

/// Which pair of wall-local endpoints a vertex drag couples: one endpoint
/// of the picked wall, one of its topological successor, and whether the
/// successor wraps to the sector's first wall.
#[derive(Clone, Copy, Debug, PartialEq, Eq, Structural)]
pub struct PointCode {
    pub this: WallEnd,
    pub next: WallEnd,
    pub wraps: bool,
}

/// The per-tick snapshot of the mouse.
#[derive(Clone, Debug)]
pub struct MouseStatus {
    pub mouse_x: i32,
    pub mouse_y: i32,
    pub click_count: usize,
    pub button: Option<Button>,
    pub relative_x: Option<i32>,
    pub relative_y: Option<i32>,
}

/// The indices currently enclosed by a marquee rectangle. A point index
/// `2k` is wall `k`'s second endpoint and `2k - 1` is its first.
#[derive(Clone, Debug)]
pub struct Selection {
    pub sectors: Vec<usize>,
    pub walls: Vec<usize>,
    pub points: Vec<usize>,
}

/// The 2D editor state: mouse snapshot, view transform, current
/// selections, marquee anchor, and the in-progress new-sector trace.
#[derive(Clone, Debug)]
pub struct Grid {
    pub mouse_status: MouseStatus,
    pub wall_color: Rgba,
    pub bottom_height: i32,
    pub top_height: i32,
    pub scale: i32,
    pub selected_sector: Option<usize>,
    pub selected_wall: Option<usize>,
    pub selected_point: Option<PointCode>,
    pub view_shift_x: i32,
    pub view_shift_y: i32,
    pub highlight_x: Option<i32>,
    pub highlight_y: Option<i32>,
    pub selection: Selection,
    pub state: State,
    pub new_sector: Option<Vec<(i32, i32)>>,
}

/// Mouse coordinates are kept within the map bound so picking distances
/// stay small.
pub open spec fn mouse_wf(m: MouseStatus) -> bool {
    &&& -MAP_LIMIT <= m.mouse_x <= MAP_LIMIT
    &&& -MAP_LIMIT <= m.mouse_y <= MAP_LIMIT
}

/// The grid is well formed when its view transform and mouse snapshot are
/// within bounds and any traced points are too.
pub open spec fn grid_wf(g: Grid) -> bool {
    &&& mouse_wf(g.mouse_status)
    &&& 1 <= g.scale <= 100
    &&& -MAP_LIMIT <= g.view_shift_x <= MAP_LIMIT
    &&& -MAP_LIMIT <= g.view_shift_y <= MAP_LIMIT
    &&& -MAP_LIMIT <= g.bottom_height <= MAP_LIMIT
    &&& -MAP_LIMIT <= g.top_height <= MAP_LIMIT
    &&& match g.highlight_x {
        Some(x) => -MAP_LIMIT <= x <= MAP_LIMIT,
        None => true,
    }
    &&& match g.highlight_y {
        Some(y) => -MAP_LIMIT <= y <= MAP_LIMIT,
        None => true,
    }
    &&& (g.highlight_x is Some <==> g.highlight_y is Some)
    &&& match g.new_sector {
        Some(pts) => pts@.len() <= 100_000 && forall|i: int|
            0 <= i < pts@.len() ==> -MAP_LIMIT <= (#[trigger] pts@[i]).0 <= MAP_LIMIT && -MAP_LIMIT
                <= pts@[i].1 <= MAP_LIMIT,
        None => true,
    }
}

impl MouseStatus {
    /// Builds the per-tick snapshot from the raw cursor position and button
    /// state, clamping the position into the map bound and keeping the
    /// running click count.
    pub fn get(
        mouse_x: i32,
        mouse_y: i32,
        left: bool,
        right: bool,
        click_count: usize,
    ) -> (m: MouseStatus)
        ensures
            mouse_wf(m),
            m.mouse_x == spec_clamp_map(mouse_x as int),
            m.mouse_y == spec_clamp_map(mouse_y as int),
            m.button == (if left {
                Some(Button::Left)
            } else if right {
                Some(Button::Right)
            } else {
                None::<Button>
            }),
            m.click_count == click_count,
            m.relative_x is None && m.relative_y is None,
    {
        let button = if left {
            Some(Button::Left)
        } else if right {
            Some(Button::Right)
        } else {
            None
        };
        MouseStatus {
            mouse_x: clamp_map(mouse_x as i64),
            mouse_y: clamp_map(mouse_y as i64),
            click_count,
            button,
            relative_x: None,
            relative_y: None,
        }
    }
}

impl Selection {
    /// An empty selection sized for the given level.
    pub fn from_level(level: &Level) -> (s: Selection)
        ensures
            s.sectors@.len() == 0,
            s.walls@.len() == 0,
            s.points@.len() == 0,
    {
        let sectors = Vec::<usize>::with_capacity(level.number_of_sectors as usize);
        let walls = Vec::<usize>::with_capacity(level.number_of_walls as usize);
        let points = Vec::<usize>::new();
        Selection { sectors, walls, points }
    }
}

impl Grid {
    /// A fresh editor: free state, nothing selected, default heights and a
    /// ten-pixel map unit.
    pub fn new() -> (g: Grid)
        ensures
            grid_wf(g),
            g.scale == 10,
            g.view_shift_x == 0 && g.view_shift_y == 0,
            g.bottom_height == 0 && g.top_height == 40,
            g.selected_sector is None && g.selected_wall is None && g.selected_point is None,
            g.highlight_x is None && g.highlight_y is None,
            g.state == State::Free,
            g.new_sector is None,
            g.mouse_status.mouse_x == 0 && g.mouse_status.mouse_y == 0,
            g.mouse_status.click_count == 0,
            g.mouse_status.button is None,
            g.selection.sectors@.len() == 0,
            g.selection.walls@.len() == 0,
            g.selection.points@.len() == 0,
            g.wall_color == spec_rgba(154, 214, 28, 255),
    {
        Grid {
            mouse_status: MouseStatus {
                mouse_x: 0,
                mouse_y: 0,
                click_count: 0,
                button: None,
                relative_x: None,
                relative_y: None,
            },
            wall_color: green(),
            bottom_height: 0,
            top_height: 40,
            scale: 10,
            selected_sector: None,
            selected_wall: None,
            selected_point: None,
            view_shift_x: 0,
            view_shift_y: 0,
            highlight_x: None,
            highlight_y: None,
            selection: Selection { sectors: Vec::new(), walls: Vec::new(), points: Vec::new() },
            state: State::Free,
            new_sector: None,
        }
    }

    /// Stores a fresh mouse snapshot, keeping the running click count.
    pub fn get_mouse_status(&mut self, mouse_x: i32, mouse_y: i32, left: bool, right: bool)
        requires
            grid_wf(*old(self)),
        ensures
            grid_wf(*final(self)),
            *final(self) == (Grid {
                mouse_status: MouseStatus {
                    mouse_x: spec_clamp_map(mouse_x as int) as i32,
                    mouse_y: spec_clamp_map(mouse_y as int) as i32,
                    click_count: old(self).mouse_status.click_count,
                    button: if left {
                        Some(Button::Left)
                    } else if right {
                        Some(Button::Right)
                    } else {
                        None::<Button>
                    },
                    relative_x: None::<i32>,
                    relative_y: None::<i32>,
                },
                ..*old(self)
            }),
    {
        self.mouse_status = MouseStatus::get(
            mouse_x,
            mouse_y,
            left,
            right,
            self.mouse_status.click_count,
        );
    }

    /// Drops the point selection; called every frame without a held button.
    pub fn deselect(&mut self)
        ensures
            *final(self) == (Grid { selected_point: None::<PointCode>, ..*old(self) }),
    {
        self.selected_point = None;
    }

    /// Pans the view down.
    pub fn view_down(&mut self)
        requires
            grid_wf(*old(self)),
        ensures
            grid_wf(*final(self)),
            *final(self) == (Grid {
                view_shift_y: spec_clamp_map(old(self).view_shift_y - 10) as i32,
                ..*old(self)
            }),
    {
        self.view_shift_y = clamp_map(self.view_shift_y as i64 - 10);
    }

    /// Pans the view up.
    pub fn view_up(&mut self)
        requires
            grid_wf(*old(self)),
        ensures
            grid_wf(*final(self)),
            *final(self) == (Grid {
                view_shift_y: spec_clamp_map(old(self).view_shift_y + 10) as i32,
                ..*old(self)
            }),
    {
        self.view_shift_y = clamp_map(self.view_shift_y as i64 + 10);
    }

    /// Pans the view left.
    pub fn view_left(&mut self)
        requires
            grid_wf(*old(self)),
        ensures
            grid_wf(*final(self)),
            *final(self) == (Grid {
                view_shift_x: spec_clamp_map(old(self).view_shift_x + 10) as i32,
                ..*old(self)
            }),
    {
        self.view_shift_x = clamp_map(self.view_shift_x as i64 + 10);
    }

    /// Pans the view right.
    pub fn view_right(&mut self)
        requires
            grid_wf(*old(self)),
        ensures
            grid_wf(*final(self)),
            *final(self) == (Grid {
                view_shift_x: spec_clamp_map(old(self).view_shift_x - 10) as i32,
                ..*old(self)
            }),
    {
        self.view_shift_x = clamp_map(self.view_shift_x as i64 - 10);
    }

    /// Zooms in by one pixel per map unit, capped at the largest scale.
    pub fn zoom_in(&mut self)
        requires
            grid_wf(*old(self)),
        ensures
            grid_wf(*final(self)),
            *final(self) == (Grid {
                scale: if old(self).scale < 100 {
                    (old(self).scale + 1) as i32
                } else {
                    old(self).scale
                },
                ..*old(self)
            }),
    {
        if self.scale < 100 {
            self.scale = self.scale + 1;
        }
    }

    /// Zooms out by one pixel per map unit, never below one.
    pub fn zoom_out(&mut self)
        requires
            grid_wf(*old(self)),
        ensures
            grid_wf(*final(self)),
            *final(self) == (Grid {
                scale: if old(self).scale > 1 {
                    (old(self).scale - 1) as i32
                } else {
                    old(self).scale
                },
                ..*old(self)
            }),
    {
        if self.scale > 1 {
            self.scale = self.scale - 1;
        }
    }

    /// Advances the selected wall to the next wall of the level, wrapping
    /// to the first; with no selection the first wall is selected.
    pub fn next_wall(&mut self, player: &mut PlayerInfo)
        requires
            player_wf(*old(player)),
            old(player).level.number_of_walls >= 1,
        ensures
            *final(player) == *old(player),
            *final(self) == (Grid {
                selected_wall: Some(
                    match old(self).selected_wall {
                        Some(w) => if w >= old(player).level.number_of_walls - 1 {
                            0usize
                        } else {
                            (w + 1) as usize
                        },
                        None => 0usize,
                    },
                ),
                ..*old(self)
            }),
    {
        match self.selected_wall {
            Some(wall) => {
                if wall >= player.level.number_of_walls as usize - 1 {
                    self.selected_wall = Some(0);
                } else {
                    self.selected_wall = Some(wall + 1);
                }
            },
            None => {
                self.selected_wall = Some(0);
            },
        }
    }
}

/// Translates one mouse screen coordinate into map space: divide by the
/// view scale, subtract the view shift, clamp into the map bound.
pub open spec fn spec_mouse_to_map(m: int, scale: int, shift: int) -> int {
    spec_clamp_map(tdiv(m, scale) - shift)
}

/// Translates a mouse screen coordinate into map space.
pub fn mouse_to_map(m: i32, scale: i32, shift: i32) -> (r: i32)
    requires
        scale >= 1,
    ensures
        r == spec_mouse_to_map(m as int, scale as int, shift as int),
{
    clamp_map(div_trunc(m as i64, scale as i64) - shift as i64)
}

/// The projected screen position of one endpoint of a wall: map position
/// plus view shift, scaled.
pub open spec fn spec_wall_point(w: Wall, point: int, scale: int, sx: int, sy: int) -> (int, int) {
    if point == 1 {
        ((w.x1 + sx) * scale, (w.y1 + sy) * scale)
    } else {
        ((w.x2 + sx) * scale, (w.y2 + sy) * scale)
    }
}

/// Returns the projected screen position of the first (`point == 1`) or
/// second (`point == 2`) endpoint of the given wall; any other point
/// number is an error.
pub fn wall_point(player: &PlayerInfo, grid: &Grid, wall_number: usize, point: usize) -> (r: Result<
    (i64, i64),
    String,
>)
    requires
        player_wf(*player),
        grid_wf(*grid),
        wall_number < player.level.walls@.len(),
    ensures
        point == 1 || point == 2 ==> r == Ok::<(i64, i64), String>(
            (
                spec_wall_point(
                    player.level.walls@[wall_number as int],
                    point as int,
                    grid.scale as int,
                    grid.view_shift_x as int,
                    grid.view_shift_y as int,
                ).0 as i64,
                spec_wall_point(
                    player.level.walls@[wall_number as int],
                    point as int,
                    grid.scale as int,
                    grid.view_shift_x as int,
                    grid.view_shift_y as int,
                ).1 as i64,
            ),
        ),
        point != 1 && point != 2 ==> r is Err,
{
    let w = &player.level.walls[wall_number];
    proof {
        let sc = grid.scale as int;
        assert(forall|a: int|
            -2_000_000 <= a <= 2_000_000 && 1 <= sc <= 100 ==> -200_000_000 <= #[trigger] (a * sc)
                <= 200_000_000) by (nonlinear_arith);
    }
    if point == 1 {
        Ok((
            (w.x1 as i64 + grid.view_shift_x as i64) * grid.scale as i64,
            (w.y1 as i64 + grid.view_shift_y as i64) * grid.scale as i64,
        ))
    } else if point == 2 {
        Ok((
            (w.x2 as i64 + grid.view_shift_x as i64) * grid.scale as i64,
            (w.y2 as i64 + grid.view_shift_y as i64) * grid.scale as i64,
        ))
    } else {
        Err("Error!".to_string())
    }
}

/// The given endpoint of a wall moved to `(x, y)`.
pub open spec fn set_end(w: Wall, e: WallEnd, x: i32, y: i32) -> Wall {
    match e {
        WallEnd::Start => Wall { x1: x, y1: y, ..w },
        WallEnd::End => Wall { x2: x, y2: y, ..w },
    }
}

/// The given endpoint of a wall.
pub open spec fn endpoint_of(w: Wall, e: WallEnd) -> (int, int) {
    match e {
        WallEnd::Start => (w.x1 as int, w.y1 as int),
        WallEnd::End => (w.x2 as int, w.y2 as int),
    }
}

/// The wall sequence after a drag: the coupled endpoint of the picked wall
/// and the matching endpoint of its partner are both moved to `(x, y)`.
pub open spec fn drag_walls(
    walls: Seq<Wall>,
    wall: int,
    second: int,
    code: PointCode,
    x: i32,
    y: i32,
) -> Seq<Wall> {
    let w1 = walls.update(wall, set_end(walls[wall], code.this, x, y));
    w1.update(second, set_end(w1[second], code.next, x, y))
}

/// The weld law: after a drag with any point code, the coupled endpoint of
/// the picked wall and the matching endpoint of its partner wall are both
/// the dragged position, so a shared vertex never splits.
pub proof fn lemma_drag_welds(
    walls: Seq<Wall>,
    wall: int,
    second: int,
    code: PointCode,
    x: i32,
    y: i32,
)
    requires
        0 <= wall < walls.len(),
        0 <= second < walls.len(),
    ensures
        endpoint_of(drag_walls(walls, wall, second, code, x, y)[wall], code.this) == (
        x as int,
        y as int,
        ),
        endpoint_of(drag_walls(walls, wall, second, code, x, y)[second], code.next) == (
        x as int,
        y as int,
        ),
        drag_walls(walls, wall, second, code, x, y).len() == walls.len(),
        forall|k: int|
            0 <= k < walls.len() && k != wall && k != second ==> drag_walls(
                walls,
                wall,
                second,
                code,
                x,
                y,
            )[k] == walls[k],
{
}

/// What a vertex drag needs of the editor state: the picked wall exists
/// and its partner index is a valid wall index.
pub open spec fn drag_pre(g: Grid, l: Level) -> bool {
    match (g.selected_point, g.selected_wall) {
        (Some(code), Some(w)) => {
            &&& w < l.walls@.len()
            &&& (code.wraps ==> match g.selected_sector {
                Some(s) => s < l.sectors@.len(),
                None => false,
            })
            &&& (!code.wraps ==> w + 1 < l.walls@.len())
        },
        _ => true,
    }
}

/// The partner wall of a drag: the sector's first wall when the successor
/// wraps, the next wall otherwise.
pub open spec fn drag_second(g: Grid, l: Level) -> int {
    match (g.selected_point, g.selected_wall) {
        (Some(code), Some(w)) => if code.wraps {
            l.sectors@[g.selected_sector->Some_0 as int].wall_start as int
        } else {
            w + 1
        },
        _ => 0,
    }
}

/// Applies the in-progress vertex drag: every frame the button stays held,
/// the coupled endpoints of the picked wall and its partner are moved to
/// the mouse position in map space, keeping shared vertices welded.
pub fn apply_drag(grid: &mut Grid, player: &mut PlayerInfo)
    requires
        grid_wf(*old(grid)),
        player_wf(*old(player)),
        drag_pre(*old(grid), old(player).level),
    ensures
        grid_wf(*final(grid)),
        player_wf(*final(player)),
        match (old(grid).selected_point, old(grid).selected_wall) {
            (Some(code), Some(w)) => {
                &&& final(player).level.walls@ == drag_walls(
                    old(player).level.walls@,
                    w as int,
                    drag_second(*old(grid), old(player).level),
                    code,
                    spec_mouse_to_map(
                        old(grid).mouse_status.mouse_x as int,
                        old(grid).scale as int,
                        old(grid).view_shift_x as int,
                    ) as i32,
                    spec_mouse_to_map(
                        old(grid).mouse_status.mouse_y as int,
                        old(grid).scale as int,
                        old(grid).view_shift_y as int,
                    ) as i32,
                )
                &&& final(player).level.sectors@ == old(player).level.sectors@
                &&& final(player).level.number_of_walls == old(player).level.number_of_walls
                &&& final(player).level.number_of_sectors == old(player).level.number_of_sectors
                &&& final(player).position == old(player).position
                &&& final(player).angle_h == old(player).angle_h
                &&& *final(grid) == (Grid {
                    highlight_x: None::<i32>,
                    highlight_y: None::<i32>,
                    state: State::Busy,
                    ..*old(grid)
                })
            },
            _ => *final(grid) == *old(grid) && *final(player) == *old(player),
        },
{
    let (code, wall) = match (grid.selected_point, grid.selected_wall) {
        (Some(code), Some(w)) => (code, w),
        _ => {
            return ;
        },
    };
    grid.highlight_x = None;
    grid.highlight_y = None;
    grid.state = State::Busy;
    let mx = mouse_to_map(grid.mouse_status.mouse_x, grid.scale, grid.view_shift_x);
    let my = mouse_to_map(grid.mouse_status.mouse_y, grid.scale, grid.view_shift_y);
    let second: usize = if code.wraps {
        let s = match grid.selected_sector {
            Some(s) => s,
            None => {
                proof {
                    assert(false);
                }
                0
            },
        };
        player.level.sectors[s].wall_start as usize
    } else {
        wall + 1
    };
    let mut w1 = player.level.walls[wall];
    match code.this {
        WallEnd::Start => {
            w1.x1 = mx;
            w1.y1 = my;
        },
        WallEnd::End => {
            w1.x2 = mx;
            w1.y2 = my;
        },
    }
    player.level.walls[wall] = w1;
    let mut w2 = player.level.walls[second];
    match code.next {
        WallEnd::Start => {
            w2.x1 = mx;
            w2.y1 = my;
        },
        WallEnd::End => {
            w2.x2 = mx;
            w2.y2 = my;
        },
    }
    player.level.walls[second] = w2;
    proof {
        assert(player.level.walls@ =~= drag_walls(
            old(player).level.walls@,
            wall as int,
            drag_second(*old(grid), old(player).level),
            code,
            mx,
            my,
        ));
        assert(*grid == (Grid {
            highlight_x: None::<i32>,
            highlight_y: None::<i32>,
            state: State::Busy,
            ..*old(grid)
        }));
    }
}

/// Squared screen distance from the mouse to a projected wall endpoint is
/// within the picking radius of eight pixels.
pub open spec fn within_pick(mx: int, my: int, p: (int, int)) -> bool {
    dist_sq(mx, my, p.0, p.1) <= 64
}

/// The mouse sits on the shared vertex described by `(s, w, code)`: wall
/// `w` of sector `s` has the `code.this` endpoint near the mouse and its
/// successor (wrapping to the sector's first wall after the last) has the
/// `code.next` endpoint near the mouse too.
pub open spec fn point_match(l: Level, g: Grid, s: int, w: int, code: PointCode) -> bool {
    &&& 0 <= s < l.sectors@.len()
    &&& l.sectors@[s].wall_start <= w < l.sectors@[s].wall_end
    &&& code.wraps == (w + 1 == l.sectors@[s].wall_end)
    &&& {
        let next = if code.wraps {
            l.sectors@[s].wall_start as int
        } else {
            w + 1
        };
        let this_pt = spec_wall_point(
            l.walls@[w],
            if code.this is Start {
                1int
            } else {
                2int
            },
            g.scale as int,
            g.view_shift_x as int,
            g.view_shift_y as int,
        );
        let next_pt = spec_wall_point(
            l.walls@[next],
            if code.next is Start {
                1int
            } else {
                2int
            },
            g.scale as int,
            g.view_shift_x as int,
            g.view_shift_y as int,
        );
        within_pick(g.mouse_status.mouse_x as int, g.mouse_status.mouse_y as int, this_pt)
            && within_pick(g.mouse_status.mouse_x as int, g.mouse_status.mouse_y as int, next_pt)
    }
}

/// Whether the squared screen distance from the mouse to the projected
/// endpoint is within the picking radius.
fn near_point(grid: &Grid, player: &PlayerInfo, wall: usize, point: usize) -> (r: bool)
    requires
        grid_wf(*grid),
        player_wf(*player),
        wall < player.level.walls@.len(),
        point == 1 || point == 2,
    ensures
        r == within_pick(
            grid.mouse_status.mouse_x as int,
            grid.mouse_status.mouse_y as int,
            spec_wall_point(
                player.level.walls@[wall as int],
                point as int,
                grid.scale as int,
                grid.view_shift_x as int,
                grid.view_shift_y as int,
            ),
        ),
{
    let p = match wall_point(player, grid, wall, point) {
        Ok(p) => p,
        Err(_) => {
            proof {
                assert(false);
            }
            (0, 0)
        },
    };
    proof {
        let sc = grid.scale as int;
        assert(forall|a: int|
            -2_000_000 <= a <= 2_000_000 && 1 <= sc <= 100 ==> -200_000_000 <= #[trigger] (a * sc)
                <= 200_000_000) by (nonlinear_arith);
    }
    let mxi = grid.mouse_status.mouse_x as i64;
    let myi = grid.mouse_status.mouse_y as i64;
    let dx = mxi - p.0;
    let dy = myi - p.1;
    proof {
        assert(dx * dx >= 0 && dx * dx <= 1_000_000_000_000_000_000 && dy * dy >= 0 && dy * dy
            <= 1_000_000_000_000_000_000 && dx * dx == (p.0 - mxi) * (p.0 - mxi) && dy * dy == (p.1
            - myi) * (p.1 - myi)) by (nonlinear_arith)
            requires
                -400_000_000 <= dx <= 400_000_000,
                -400_000_000 <= dy <= 400_000_000,
                dx == mxi - p.0,
                dy == myi - p.1,
        ;
    }
    dx * dx + dy * dy <= 64
}

/// The scan order of the vertex pick: sectors first, then walls within
/// the sector, then the four endpoint pairings.
pub open spec fn scan_before(s2: int, w2: int, c2: PointCode, s: int, w: int, c: PointCode) -> bool {
    ||| s2 < s
    ||| (s2 == s && w2 < w)
    ||| (s2 == s && w2 == w && combo_index(c2) < combo_index(c))
}

/// Scans every wall pair of every sector for a shared vertex under the
/// mouse and selects the first one found, entering the busy drag state.
/// With no held left button, a busy state, or an existing marquee point
/// selection, the scan is skipped.
pub fn pick_vertex(grid: &mut Grid, player: &PlayerInfo)
    requires
        grid_wf(*old(grid)),
        player_wf(*player),
    ensures
        grid_wf(*final(grid)),
        !(old(grid).mouse_status.button == Some(Button::Left) && old(grid).state == State::Free
            && old(grid).selection.points@.len() == 0) ==> *final(grid) == *old(grid),
        match final(grid).selected_point {
            Some(code) => (final(grid).selected_point == old(grid).selected_point && *final(grid)
                == *old(grid)) || exists|s: usize, w: usize|
                final(grid).selected_sector == Some(s) && final(grid).selected_wall == Some(w)
                    && #[trigger] point_match(player.level, *old(grid), s as int, w as int, code)
                    && (forall|s2: int, w2: int, c2: PointCode|
                    scan_before(s2, w2, c2, s as int, w as int, code) ==> !point_match(
                        player.level,
                        *old(grid),
                        s2,
                        w2,
                        c2,
                    )) && *final(grid) == (Grid {
                    highlight_x: None::<i32>,
                    highlight_y: None::<i32>,
                    state: State::Busy,
                    selected_sector: Some(s),
                    selected_wall: Some(w),
                    selected_point: Some(code),
                    ..*old(grid)
                }),
            None => *final(grid) == *old(grid),
        },
        (old(grid).mouse_status.button == Some(Button::Left) && old(grid).state == State::Free
            && old(grid).selection.points@.len() == 0 && *final(grid) == *old(grid)
            && old(grid).selected_point is None) ==> forall|s: int, w: int, code: PointCode|
            !point_match(player.level, *old(grid), s, w, code),
{
    if !(match grid.mouse_status.button {
        Some(Button::Left) => true,
        _ => false,
    } && match grid.state {
        State::Free => true,
        _ => false,
    } && grid.selection.points.len() == 0) {
        return ;
    }
    let ghost g0 = *grid;
    proof {
        assert(g0.mouse_status.button == Some(Button::Left) && g0.state == State::Free
            && g0.selection.points@.len() == 0);
    }
    let nsec = player.level.sectors.len();
    let mut s: usize = 0;
    while s < nsec
        invariant
            grid_wf(*grid),
            player_wf(*player),
            *grid == g0,
            g0 == *old(grid),
            g0.mouse_status.button == Some(Button::Left) && g0.state == State::Free
                && g0.selection.points@.len() == 0,
            nsec == player.level.sectors@.len(),
            s <= nsec,
            forall|s2: int, w2: int, code: PointCode|
                s2 < s ==> !point_match(player.level, g0, s2, w2, code),
        decreases nsec - s,
    {
        let lo = player.level.sectors[s].wall_start as usize;
        let hi = player.level.sectors[s].wall_end as usize;
        let mut w: usize = lo;
        while w < hi
            invariant
                grid_wf(*grid),
                player_wf(*player),
                *grid == g0,
                g0 == *old(grid),
                g0.mouse_status.button == Some(Button::Left) && g0.state == State::Free
                    && g0.selection.points@.len() == 0,
                g0.mouse_status.button == Some(Button::Left) && g0.state == State::Free
                    && g0.selection.points@.len() == 0,
                nsec == player.level.sectors@.len(),
                s < nsec,
                lo == player.level.sectors@[s as int].wall_start,
                hi == player.level.sectors@[s as int].wall_end,
                lo <= w <= hi,
                hi <= player.level.walls@.len(),
                forall|s2: int, w2: int, code: PointCode|
                    s2 < s ==> !point_match(player.level, g0, s2, w2, code),
                forall|w2: int, code: PointCode|
                    lo <= w2 < w ==> !point_match(player.level, g0, s as int, w2, code),
            decreases hi - w,
        {
            let wraps = w + 1 == hi;
            let next: usize = if wraps {
                lo
            } else {
                w + 1
            };
            let mut combo: usize = 0;
            while combo < 4
                invariant
                    grid_wf(*grid),
                    player_wf(*player),
                    *grid == g0,
                    g0 == *old(grid),
                    g0.mouse_status.button == Some(Button::Left) && g0.state == State::Free
                        && g0.selection.points@.len() == 0,
                    nsec == player.level.sectors@.len(),
                    s < nsec,
                    lo == player.level.sectors@[s as int].wall_start,
                    hi == player.level.sectors@[s as int].wall_end,
                    lo <= w < hi,
                    hi <= player.level.walls@.len(),
                    combo <= 4,
                    forall|s2: int, w2: int, code: PointCode|
                        s2 < s ==> !point_match(player.level, g0, s2, w2, code),
                    forall|w2: int, code: PointCode|
                        lo <= w2 < w ==> !point_match(player.level, g0, s as int, w2, code),
                    wraps == (w + 1 == hi),
                    next == if wraps {
                        lo as int
                    } else {
                        w + 1
                    },
                    forall|code: PointCode|
                        code.wraps == wraps && combo_index(code) < combo ==> !point_match(
                            player.level,
                            g0,
                            s as int,
                            w as int,
                            code,
                        ),
                decreases 4 - combo,
            {
                let (this_end, next_end) = combo_ends(combo);
                let code = PointCode { this: this_end, next: next_end, wraps };
                let this_pt: usize = if matches!(this_end, WallEnd::Start) {
                    1
                } else {
                    2
                };
                let next_pt: usize = if matches!(next_end, WallEnd::Start) {
                    1
                } else {
                    2
                };
                if near_point(grid, player, w, this_pt) && near_point(grid, player, next, next_pt) {
                    grid.highlight_x = None;
                    grid.highlight_y = None;
                    grid.state = State::Busy;
                    grid.selected_sector = Some(s);
                    grid.selected_wall = Some(w);
                    grid.selected_point = Some(code);
                    proof {
                        assert(point_match(player.level, *old(grid), s as int, w as int, code));
                        assert forall|s2: int, w2: int, c2: PointCode|
                            scan_before(s2, w2, c2, s as int, w as int, code) implies !point_match(
                            player.level,
                            *old(grid),
                            s2,
                            w2,
                            c2,
                        ) by {
                            if point_match(player.level, g0, s2, w2, c2) {
                                if s2 == s && w2 == w {
                                    assert(c2.wraps == wraps);
                                    assert(combo_index(c2) < combo);
                                }
                                if s2 == s && w2 < w {
                                    assert(lo <= w2 < w);
                                }
                            }
                        };
                        assert(*grid == (Grid {
                            highlight_x: None::<i32>,
                            highlight_y: None::<i32>,
                            state: State::Busy,
                            selected_sector: Some(s),
                            selected_wall: Some(w),
                            selected_point: Some(code),
                            ..*old(grid)
                        }));
                    }
                    return ;
                }
                combo = combo + 1;
            }
            proof {
                assert forall|code: PointCode|
                    code.wraps == wraps implies !point_match(
                    player.level,
                    g0,
                    s as int,
                    w as int,
                    code,
                ) by {
                    assert(combo_index(code) < 4);
                };
                assert forall|w2: int, code: PointCode| lo <= w2 < w + 1 implies !point_match(
                    player.level,
                    g0,
                    s as int,
                    w2,
                    code,
                ) by {
                    if w2 == w {
                        assert(code.wraps != wraps ==> !point_match(
                            player.level,
                            g0,
                            s as int,
                            w2,
                            code,
                        ));
                    }
                };
            }
            w = w + 1;
        }
        proof {
            assert forall|s2: int, w2: int, code: PointCode| s2 < s + 1 implies !point_match(
                player.level,
                g0,
                s2,
                w2,
                code,
            ) by {
                if s2 == s {
                    if point_match(player.level, g0, s2, w2, code) {
                        assert(lo <= w2 < hi);
                    }
                }
            };
        }
        s = s + 1;
    }
    proof {
        assert forall|s2: int, w2: int, code: PointCode| !point_match(
            player.level,
            g0,
            s2,
            w2,
            code,
        ) by {
            if point_match(player.level, g0, s2, w2, code) {
                assert(0 <= s2 < nsec);
            }
        };
    }
}

/// The four endpoint pairings tried at each wall, in scan order.
pub open spec fn spec_combo_ends(c: int) -> (WallEnd, WallEnd) {
    if c == 0 {
        (WallEnd::Start, WallEnd::End)
    } else if c == 1 {
        (WallEnd::Start, WallEnd::Start)
    } else if c == 2 {
        (WallEnd::End, WallEnd::Start)
    } else {
        (WallEnd::End, WallEnd::End)
    }
}

/// The scan position of a point code among the four pairings.
pub open spec fn combo_index(code: PointCode) -> int {
    if code.this is Start && code.next is End {
        0
    } else if code.this is Start && code.next is Start {
        1
    } else if code.this is End && code.next is Start {
        2
    } else {
        3
    }
}

/// The endpoint pairing tried at scan position `c`.
fn combo_ends(c: usize) -> (r: (WallEnd, WallEnd))
    requires
        c < 4,
    ensures
        r == spec_combo_ends(c as int),
        combo_index(PointCode { this: r.0, next: r.1, wraps: false }) == c,
        combo_index(PointCode { this: r.0, next: r.1, wraps: true }) == c,
{
    if c == 0 {
        (WallEnd::Start, WallEnd::End)
    } else if c == 1 {
        (WallEnd::Start, WallEnd::Start)
    } else if c == 2 {
        (WallEnd::End, WallEnd::Start)
    } else {
        (WallEnd::End, WallEnd::End)
    }
}

/// A screen-space rectangle: origin and nonnegative size.
#[derive(Clone, Copy, Debug, PartialEq, Eq, Structural)]
pub struct ScreenRect {
    pub x: i32,
    pub y: i32,
    pub w: i32,
    pub h: i32,
}

/// A point lies inside a rectangle: at or right of its left edge and
/// strictly left of its right edge, and likewise vertically.
pub open spec fn rect_contains(r: ScreenRect, px: int, py: int) -> bool {
    &&& r.x <= px < r.x + r.w
    &&& r.y <= py < r.y + r.h
}

impl ScreenRect {
    /// Whether the rectangle contains the given point.
    pub fn contains_point(&self, px: i64, py: i64) -> (b: bool)
        requires
            self.w >= 0,
            self.h >= 0,
        ensures
            b == rect_contains(*self, px as int, py as int),
    {
        self.x as i64 <= px && px < self.x as i64 + self.w as i64 && self.y as i64 <= py && py
            < self.y as i64 + self.h as i64
    }
}

/// The marquee rectangle spanned from the anchor to the current mouse
/// position: anchored at the press origin with the absolute deltas as its
/// size.
pub open spec fn spec_marquee_rect(init_x: int, init_y: int, mx: int, my: int) -> ScreenRect {
    ScreenRect {
        x: init_x as i32,
        y: init_y as i32,
        w: (if mx >= init_x {
            mx - init_x
        } else {
            init_x - mx
        }) as i32,
        h: (if my >= init_y {
            my - init_y
        } else {
            init_y - my
        }) as i32,
    }
}

/// Builds the marquee rectangle from the anchor and the current mouse
/// position.
pub fn marquee_rect(init_x: i32, init_y: i32, mx: i32, my: i32) -> (r: ScreenRect)
    requires
        -MAP_LIMIT <= init_x <= MAP_LIMIT,
        -MAP_LIMIT <= init_y <= MAP_LIMIT,
        -MAP_LIMIT <= mx <= MAP_LIMIT,
        -MAP_LIMIT <= my <= MAP_LIMIT,
    ensures
        r == spec_marquee_rect(init_x as int, init_y as int, mx as int, my as int),
        r.w >= 0,
        r.h >= 0,
    {
    let w = if mx >= init_x {
        mx - init_x
    } else {
        init_x - mx
    };
    let h = if my >= init_y {
        my - init_y
    } else {
        init_y - my
    };
    ScreenRect { x: init_x, y: init_y, w, h }
}

/// The derived point indices one wall contributes to a marquee selection:
/// `2k - 1` when its first endpoint is enclosed (and `k > 0`), `2k` when
/// its second endpoint is.
pub open spec fn wall_marquee_ids(l: Level, g: Grid, r: ScreenRect, w: int) -> Seq<usize> {
    let p1 = spec_wall_point(
        l.walls@[w],
        1,
        g.scale as int,
        g.view_shift_x as int,
        g.view_shift_y as int,
    );
    let p2 = spec_wall_point(
        l.walls@[w],
        2,
        g.scale as int,
        g.view_shift_x as int,
        g.view_shift_y as int,
    );
    (if rect_contains(r, p1.0, p1.1) && w > 0 {
        seq![(2 * w - 1) as usize]
    } else {
        Seq::empty()
    }) + (if rect_contains(r, p2.0, p2.1) {
        seq![(2 * w) as usize]
    } else {
        Seq::empty()
    })
}

/// The point indices the walls `[lo, wall_end)` of one sector contribute.
pub open spec fn range_marquee_ids(l: Level, g: Grid, r: ScreenRect, lo: int, hi: int) -> Seq<
    usize,
>
    decreases hi - lo,
{
    if lo >= hi {
        Seq::empty()
    } else {
        wall_marquee_ids(l, g, r, lo) + range_marquee_ids(l, g, r, lo + 1, hi)
    }
}

/// The point indices the first `s` sectors contribute, in scan order.
pub open spec fn sectors_marquee_ids(l: Level, g: Grid, r: ScreenRect, s: int) -> Seq<usize>
    decreases s,
{
    if s <= 0 {
        Seq::empty()
    } else {
        sectors_marquee_ids(l, g, r, s - 1) + range_marquee_ids(
            l,
            g,
            r,
            l.sectors@[s - 1].wall_start as int,
            l.sectors@[s - 1].wall_end as int,
        )
    }
}

/// Extending a range contribution by one wall on the right.
proof fn lemma_range_marquee_extend(l: Level, g: Grid, r: ScreenRect, lo: int, hi: int)
    requires
        lo <= hi,
    ensures
        range_marquee_ids(l, g, r, lo, hi + 1) == range_marquee_ids(l, g, r, lo, hi)
            + wall_marquee_ids(l, g, r, hi),
    decreases hi - lo,
{
    if lo >= hi {
        assert(range_marquee_ids(l, g, r, lo + 1, hi + 1) =~= Seq::empty());
        assert(range_marquee_ids(l, g, r, lo, hi + 1) =~= wall_marquee_ids(l, g, r, lo)
            + Seq::empty());
        assert(range_marquee_ids(l, g, r, lo, hi) + wall_marquee_ids(l, g, r, hi)
            =~= wall_marquee_ids(l, g, r, lo));
    } else {
        lemma_range_marquee_extend(l, g, r, lo + 1, hi);
        assert(range_marquee_ids(l, g, r, lo, hi + 1) =~= range_marquee_ids(l, g, r, lo, hi)
            + wall_marquee_ids(l, g, r, hi));
    }
}

/// Appends to the selection every wall endpoint whose projected screen
/// position falls inside the active marquee rectangle, using the derived
/// point numbering. Inactive without a marquee anchor, with a point
/// selected, or while no marquee applies.
pub fn collect_marquee(grid: &mut Grid, player: &PlayerInfo)
    requires
        grid_wf(*old(grid)),
        player_wf(*player),
        player.level.walls@.len() <= 1_000_000_000,
    ensures
        grid_wf(*final(grid)),
        match (old(grid).highlight_x, old(grid).highlight_y) {
            (Some(hx), Some(hy)) => if old(grid).selected_point is None {
                *final(grid) == (Grid {
                    selection: Selection {
                        points: final(grid).selection.points,
                        ..old(grid).selection
                    },
                    ..*old(grid)
                }) && final(grid).selection.points@ == old(grid).selection.points@
                    + sectors_marquee_ids(
                    player.level,
                    *old(grid),
                    spec_marquee_rect(
                        hx as int,
                        hy as int,
                        old(grid).mouse_status.mouse_x as int,
                        old(grid).mouse_status.mouse_y as int,
                    ),
                    player.level.sectors@.len() as int,
                )
            } else {
                *final(grid) == *old(grid)
            },
            _ => *final(grid) == *old(grid),
        },
{
    let (hx, hy) = match (grid.highlight_x, grid.highlight_y) {
        (Some(hx), Some(hy)) => (hx, hy),
        _ => {
            return ;
        },
    };
    if grid.selected_point.is_some() {
        return ;
    }
    let ghost g0 = *grid;
    let rect = marquee_rect(hx, hy, grid.mouse_status.mouse_x, grid.mouse_status.mouse_y);
    let nsec = player.level.sectors.len();
    let mut s: usize = 0;
    proof {
        assert(grid.selection.points@ =~= old(grid).selection.points@ + sectors_marquee_ids(
            player.level,
            g0,
            rect,
            0,
        ));
    }
    while s < nsec
        invariant
            grid_wf(*grid),
            player_wf(*player),
            player.level.walls@.len() <= 1_000_000_000,
            g0 == *old(grid),
            nsec == player.level.sectors@.len(),
            s <= nsec,
            rect == spec_marquee_rect(
                g0.highlight_x->Some_0 as int,
                g0.highlight_y->Some_0 as int,
                g0.mouse_status.mouse_x as int,
                g0.mouse_status.mouse_y as int,
            ),
            rect.w >= 0 && rect.h >= 0,
            *grid == (Grid {
                selection: Selection { points: grid.selection.points, ..g0.selection },
                ..g0
            }),
            grid.selection.points@ == g0.selection.points@ + sectors_marquee_ids(
                player.level,
                g0,
                rect,
                s as int,
            ),
        decreases nsec - s,
    {
        let lo = player.level.sectors[s].wall_start as usize;
        let hi = player.level.sectors[s].wall_end as usize;
        let mut w: usize = lo;
        proof {
            assert(range_marquee_ids(player.level, g0, rect, lo as int, lo as int)
                =~= Seq::<usize>::empty());
            assert(grid.selection.points@ =~= g0.selection.points@ + (sectors_marquee_ids(
                player.level,
                g0,
                rect,
                s as int,
            ) + range_marquee_ids(player.level, g0, rect, lo as int, lo as int)));
        }
        while w < hi
            invariant
                grid_wf(*grid),
                player_wf(*player),
                player.level.walls@.len() <= 1_000_000_000,
                g0 == *old(grid),
                nsec == player.level.sectors@.len(),
                s < nsec,
                lo == player.level.sectors@[s as int].wall_start,
                hi == player.level.sectors@[s as int].wall_end,
                lo <= w <= hi,
                hi <= player.level.walls@.len(),
                rect == spec_marquee_rect(
                    g0.highlight_x->Some_0 as int,
                    g0.highlight_y->Some_0 as int,
                    g0.mouse_status.mouse_x as int,
                    g0.mouse_status.mouse_y as int,
                ),
                rect.w >= 0 && rect.h >= 0,
                *grid == (Grid {
                    selection: Selection { points: grid.selection.points, ..g0.selection },
                    ..g0
                }),
                grid.selection.points@ == g0.selection.points@ + (sectors_marquee_ids(
                    player.level,
                    g0,
                    rect,
                    s as int,
                ) + range_marquee_ids(player.level, g0, rect, lo as int, w as int)),
            decreases hi - w,
        {
            let p1 = match wall_point(player, grid, w, 1) {
                Ok(p) => p,
                Err(_) => {
                    proof {
                        assert(false);
                    }
                    (0, 0)
                },
            };
            let p2 = match wall_point(player, grid, w, 2) {
                Ok(p) => p,
                Err(_) => {
                    proof {
                        assert(false);
                    }
                    (0, 0)
                },
            };
            let ghost before = grid.selection.points@;
            proof {
                let sc = grid.scale as int;
                assert(forall|a: int|
                    -2_000_000 <= a <= 2_000_000 && 1 <= sc <= 100 ==> -200_000_000 <= #[trigger] (
                    a * sc) <= 200_000_000) by (nonlinear_arith);
            }
            if rect.contains_point(p1.0, p1.1) && w > 0 {
                grid.selection.points.push(2 * w - 1);
            }
            if rect.contains_point(p2.0, p2.1) {
                grid.selection.points.push(2 * w);
            }
            proof {
                lemma_range_marquee_extend(player.level, g0, rect, lo as int, w as int);
                assert(grid.selection.points@ =~= before + wall_marquee_ids(
                    player.level,
                    g0,
                    rect,
                    w as int,
                ));
                assert(grid.selection.points@ =~= g0.selection.points@ + (sectors_marquee_ids(
                    player.level,
                    g0,
                    rect,
                    s as int,
                ) + range_marquee_ids(player.level, g0, rect, lo as int, w + 1)));
            }
            w = w + 1;
        }
        proof {
            assert(grid.selection.points@ =~= g0.selection.points@ + sectors_marquee_ids(
                player.level,
                g0,
                rect,
                s + 1,
            ));
        }
        s = s + 1;
    }
}

/// Marquee point collection reads only the view transform: two grids
/// with the same scale and view shift enclose the same points.
pub proof fn lemma_marquee_ids_congruent(l: Level, g1: Grid, g2: Grid, r: ScreenRect, s: int)
    requires
        g1.scale == g2.scale,
        g1.view_shift_x == g2.view_shift_x,
        g1.view_shift_y == g2.view_shift_y,
    ensures
        sectors_marquee_ids(l, g1, r, s) == sectors_marquee_ids(l, g2, r, s),
    decreases s,
{
    if s <= 0 {
    } else {
        lemma_marquee_ids_congruent(l, g1, g2, r, s - 1);
        lemma_range_marquee_ids_congruent(
            l,
            g1,
            g2,
            r,
            l.sectors@[s - 1].wall_start as int,
            l.sectors@[s - 1].wall_end as int,
        );
    }
}

/// The range form of the marquee congruence.
proof fn lemma_range_marquee_ids_congruent(
    l: Level,
    g1: Grid,
    g2: Grid,
    r: ScreenRect,
    lo: int,
    hi: int,
)
    requires
        g1.scale == g2.scale,
        g1.view_shift_x == g2.view_shift_x,
        g1.view_shift_y == g2.view_shift_y,
    ensures
        range_marquee_ids(l, g1, r, lo, hi) == range_marquee_ids(l, g2, r, lo, hi),
    decreases hi - lo,
{
    if lo >= hi {
    } else {
        lemma_range_marquee_ids_congruent(l, g1, g2, r, lo + 1, hi);
        assert(wall_marquee_ids(l, g1, r, lo) == wall_marquee_ids(l, g2, r, lo));
    }
}

/// The map-space image of a traced screen point.
pub open spec fn trace_map_point(p: (i32, i32), scale: int, sx: int, sy: int) -> (int, int) {
    (spec_mouse_to_map(p.0 as int, scale, sx), spec_mouse_to_map(p.1 as int, scale, sy))
}

/// The `i`-th wall built when a trace of `n` points closes: it runs from
/// point `i` to point `i + 1`, the last wall wrapping back to point `0`.
pub open spec fn traced_wall(
    pts: Seq<(i32, i32)>,
    i: int,
    scale: int,
    sx: int,
    sy: int,
    color: crate::color::Rgba,
) -> Wall {
    let a = trace_map_point(pts[i], scale, sx, sy);
    let b = trace_map_point(pts[if i + 1 == pts.len() {
        0int
    } else {
        i + 1
    }], scale, sx, sy);
    Wall {
        x1: a.0 as i32,
        y1: a.1 as i32,
        x2: b.0 as i32,
        y2: b.1 as i32,
        color: color,
        texture: Some(0u32),
        u: 1,
        v: 1,
    }
}

/// All walls built when a trace of `n` points closes, in order.
pub open spec fn traced_walls(
    pts: Seq<(i32, i32)>,
    scale: int,
    sx: int,
    sy: int,
    color: crate::color::Rgba,
) -> Seq<Wall> {
    Seq::new(pts.len(), |i: int| traced_wall(pts, i, scale, sx, sy, color))
}

/// The walls built when a trace closes form a closed loop: each wall ends
/// where the next one starts, and the last ends where the first starts.
pub proof fn lemma_traced_loop_closed(
    pts: Seq<(i32, i32)>,
    i: int,
    scale: int,
    sx: int,
    sy: int,
    color: crate::color::Rgba,
)
    requires
        0 <= i < pts.len(),
    ensures
        ({
            let next = if i + 1 == pts.len() {
                0int
            } else {
                i + 1
            };
            let w = traced_wall(pts, i, scale, sx, sy, color);
            let nw = traced_wall(pts, next, scale, sx, sy, color);
            w.x2 == nw.x1 && w.y2 == nw.y1
        }),
{
}

/// Copies the traced points out of the tool state.
fn copy_points(v: &Vec<(i32, i32)>) -> (r: Vec<(i32, i32)>)
    ensures
        r@ == v@,
{
    let mut r: Vec<(i32, i32)> = Vec::new();
    let mut i: usize = 0;
    while i < v.len()
        invariant
            i <= v@.len(),
            r@ == v@.take(i as int),
        decreases v@.len() - i,
    {
        r.push(v[i]);
        proof {
            assert(r@ =~= v@.take(i + 1));
        }
        i = i + 1;
    }
    proof {
        assert(v@.take(v@.len() as int) =~= v@);
    }
    r
}

/// The full effect of one tick of the new-sector tracing tool, relating
/// the editor and level states before and after.
pub open spec fn trace_effect(g0: Grid, p0: PlayerInfo, g1: Grid, p1: PlayerInfo, color_seed: u32) -> bool {
        match g0.new_sector {
            None => {
                &&& p1 == p0
                &&& g1 == (Grid {
                    new_sector: g1.new_sector,
                    mouse_status: MouseStatus {
                        click_count: 0 as usize,
                        ..g0.mouse_status
                    },
                    ..g0
                })
                &&& match g1.new_sector {
                    Some(v) => v@.len() == 0,
                    None => false,
                }
            },
            Some(pts) => if g0.mouse_status.button != Some(Button::Left) {
                p1 == p0 && g1 == g0
            } else if pts@.len() >= 3 && within_pick(
                g0.mouse_status.mouse_x as int,
                g0.mouse_status.mouse_y as int,
                (pts@[0].0 as int, pts@[0].1 as int),
            ) {
                &&& g1.new_sector is None
                &&& g1.mouse_status.click_count == 0
                &&& g1 == (Grid {
                    new_sector: None::<Vec<(i32, i32)>>,
                    mouse_status: MouseStatus {
                        click_count: 0 as usize,
                        ..g0.mouse_status
                    },
                    ..g0
                })
                &&& p1.position == p0.position
                &&& p1.angle_h == p0.angle_h
                &&& p1.level.walls@ == p0.level.walls@ + traced_walls(
                    pts@,
                    g0.scale as int,
                    g0.view_shift_x as int,
                    g0.view_shift_y as int,
                    crate::color::spec_palette(color_seed as int % 9),
                )
                &&& p1.level.sectors@ == p0.level.sectors@.push(
                    Sector {
                        wall_start: p0.level.walls@.len() as i32,
                        wall_end: (p0.level.walls@.len() + pts@.len()) as i32,
                        bottom_height: 0,
                        top_height: 40,
                        distance: 0,
                        top_color: crate::color::spec_rgba(0, 0, 0, 255),
                        bottom_color: crate::color::spec_rgba(255, 255, 255, 255),
                        surface_texture: Some(0u32),
                    },
                )
                &&& p1.level.number_of_walls == p1.level.walls@.len()
                &&& p1.level.number_of_sectors == p1.level.sectors@.len()
                &&& (level_contiguous(p0.level) ==> level_contiguous(p1.level))
            } else {
                &&& p1 == p0
                &&& g1 == (Grid {
                    new_sector: g1.new_sector,
                    mouse_status: MouseStatus {
                        click_count: g1.mouse_status.click_count,
                        ..g0.mouse_status
                    },
                    ..g0
                })
                &&& match g1.new_sector {
                    Some(pts2) => if pts@.len() < 100_000 {
                        pts2@ == pts@.push(
                            (g0.mouse_status.mouse_x, g0.mouse_status.mouse_y),
                        )
                    } else {
                        pts2@ == pts@
                    },
                    None => false,
                }
                &&& g1.mouse_status.click_count == (if pts@.len() < 100_000
                    && g0.mouse_status.click_count < usize::MAX {
                    g0.mouse_status.click_count as int + 1
                } else {
                    g0.mouse_status.click_count as int
                })
            },
        }
}

/// One tick of the new-sector tracing tool. With the tool idle it arms an
/// empty trace. A left click appends the mouse position; once three or
/// more points are placed, a click within eight pixels of the first point
/// closes the polygon instead: one wall per traced point, consecutive
/// points joined and the last wrapped back to the first, all in one new
/// sector appended to the level.
pub fn trace_step(grid: &mut Grid, player: &mut PlayerInfo, color_seed: u32)
    requires
        grid_wf(*old(grid)),
        player_wf(*old(player)),
        old(player).level.walls@.len() + 100_001 < 0x7fff_ffff,
        old(player).level.sectors@.len() + 1 < 0xffff_ffff,
    ensures
        grid_wf(*final(grid)),
        player_wf(*final(player)),
        trace_effect(*old(grid), *old(player), *final(grid), *final(player), color_seed),
{
    let active = grid.new_sector.is_some();
    if !active {
        grid.new_sector = Some(Vec::new());
        grid.mouse_status.click_count = 0;
        return ;
    }
    let is_left = match grid.mouse_status.button {
        Some(Button::Left) => true,
        _ => false,
    };
    if !is_left {
        return ;
    }
    let mx = grid.mouse_status.mouse_x;
    let my = grid.mouse_status.mouse_y;
    let npts = match &grid.new_sector {
        Some(pts) => pts.len(),
        None => 0,
    };
    let close = if npts >= 3 {
        let (fx, fy) = match &grid.new_sector {
            Some(pts) => pts[0],
            None => (0, 0),
        };
        let dx = mx as i64 - fx as i64;
        let dy = my as i64 - fy as i64;
        proof {
            assert(dx * dx >= 0 && dx * dx <= 16_000_000_000_000 && dy * dy >= 0 && dy * dy
                <= 16_000_000_000_000 && dx * dx == (fx - mx as int) * (fx - mx as int) && dy * dy
                == (fy - my as int) * (fy - my as int)) by (nonlinear_arith)
                requires
                    -4_000_000 <= dx <= 4_000_000,
                    -4_000_000 <= dy <= 4_000_000,
                    dx == mx as int - fx,
                    dy == my as int - fy,
            ;
        }
        dx * dx + dy * dy <= 64
    } else {
        false
    };
    if !close {
        let pts_len = npts;
        if pts_len < 100_000 {
            match &mut grid.new_sector {
                Some(pts) => {
                    pts.push((mx, my));
                },
                None => {},
            }
            if grid.mouse_status.click_count < usize::MAX {
                grid.mouse_status.click_count = grid.mouse_status.click_count + 1;
            }
        }
        return ;
    }
    let pts = match &grid.new_sector {
        Some(pts) => copy_points(pts),
        None => Vec::new(),
    };
    let color = crate::color::palette_color(color_seed);
    let scale = grid.scale;
    let sx = grid.view_shift_x;
    let sy = grid.view_shift_y;
    let start = player.level.walls.len();
    let n = pts.len();
    let ghost walls0 = player.level.walls@;
    let mut i: usize = 0;
    while i < n
        invariant
            level_wf(old(player).level),
            forall|k: int|
                0 <= k < player.level.walls@.len() ==> wall_wf(#[trigger] player.level.walls@[k]),
            -MAP_LIMIT <= player.position.x <= MAP_LIMIT,
            -MAP_LIMIT <= player.position.y <= MAP_LIMIT,
            -MAP_LIMIT <= player.position.z <= MAP_LIMIT,
            -1_000_000_000 <= player.angle_h <= 1_000_000_000,
            i <= n,
            n == pts@.len(),
            3 <= n <= 100_000,
            1 <= scale <= 100,
            -MAP_LIMIT <= sx <= MAP_LIMIT,
            -MAP_LIMIT <= sy <= MAP_LIMIT,
            start == walls0.len(),
            start + 100_001 < 0x7fff_ffff,
            player.level.walls@.len() == start + i,
            forall|k: int| 0 <= k < start ==> player.level.walls@[k] == walls0[k],
            forall|k: int|
                0 <= k < i ==> player.level.walls@[start + k] == traced_wall(
                    pts@,
                    k,
                    scale as int,
                    sx as int,
                    sy as int,
                    color,
                ),
            player.level.sectors@ == old(player).level.sectors@,
            player.level.number_of_sectors == old(player).level.number_of_sectors,
            player.level.number_of_walls == old(player).level.number_of_walls,
            player.position == old(player).position,
            player.angle_h == old(player).angle_h,
            walls0 == old(player).level.walls@,
            forall|k: int|
                0 <= k < pts@.len() ==> -MAP_LIMIT <= (#[trigger] pts@[k]).0 <= MAP_LIMIT
                    && -MAP_LIMIT <= pts@[k].1 <= MAP_LIMIT,
        decreases n - i,
    {
        let (ax, ay) = pts[i];
        let nxt = if i + 1 == n {
            0
        } else {
            i + 1
        };
        let (bx, by) = pts[nxt];
        let w = Wall::new(
            mouse_to_map(ax, scale, sx) as i64,
            mouse_to_map(ay, scale, sy) as i64,
            mouse_to_map(bx, scale, sx) as i64,
            mouse_to_map(by, scale, sy) as i64,
            color,
            Some(0),
        );
        player.level.walls.push(w);
        proof {
            assert(player.level.walls@[start + i] == traced_wall(
                pts@,
                i as int,
                scale as int,
                sx as int,
                sy as int,
                color,
            ));
        }
        i = i + 1;
    }
    let sector = Sector {
        wall_start: start as i32,
        wall_end: (start + n) as i32,
        bottom_height: 0,
        top_height: 40,
        distance: 0,
        top_color: crate::color::black(),
        bottom_color: crate::color::white(),
        surface_texture: Some(0),
    };
    player.level.sectors.push(sector);
    player.level.number_of_walls = player.level.walls.len() as u32;
    player.level.number_of_sectors = player.level.sectors.len() as u32;
    grid.new_sector = None;
    grid.mouse_status.click_count = 0;
    proof {
        assert(*grid == (Grid {
            new_sector: None::<Vec<(i32, i32)>>,
            mouse_status: MouseStatus { click_count: 0 as usize, ..old(grid).mouse_status },
            ..*old(grid)
        }));
        assert(player.level.walls@ =~= old(player).level.walls@ + traced_walls(
            pts@,
            scale as int,
            sx as int,
            sy as int,
            color,
        ));
        assert forall|q: int|
            0 <= q < player.level.sectors@.len() implies sector_wf(
            #[trigger] player.level.sectors@[q],
            player.level.walls@.len() as int,
        ) by {
            if q < old(player).level.sectors@.len() {
                assert(sector_wf(
                    old(player).level.sectors@[q],
                    old(player).level.walls@.len() as int,
                ));
            }
        };
    }
}

/// A sector with one height replaced.
pub open spec fn sector_with_bottom(s: Sector, h: i32) -> Sector {
    Sector { bottom_height: h, ..s }
}

/// A sector with its ceiling height replaced.
pub open spec fn sector_with_top(s: Sector, h: i32) -> Sector {
    Sector { top_height: h, ..s }
}

/// Nudges the floor height of one sector by `delta`, clamped to the map
/// bound; an out-of-range sector index leaves the level unchanged.
pub fn adjust_bottom_height(level: &mut Level, s: usize, delta: i32)
    requires
        level_wf(*old(level)),
        -10 <= delta <= 10,
    ensures
        level_wf(*final(level)),
        final(level).walls == old(level).walls,
        final(level).number_of_walls == old(level).number_of_walls,
        final(level).number_of_sectors == old(level).number_of_sectors,
        final(level).sectors@ == spec_adjust_bottom(old(level).sectors@, s as int, delta as int),
{
    if s < level.sectors.len() {
        let mut sec = level.sectors[s];
        sec.bottom_height = clamp_map(sec.bottom_height as i64 + delta as i64);
        level.sectors[s] = sec;
        proof {
            assert(level.sectors@ =~= spec_adjust_bottom(
                old(level).sectors@,
                s as int,
                delta as int,
            ));
        }
    } else {
        proof {
            assert(level.sectors@ =~= spec_adjust_bottom(
                old(level).sectors@,
                s as int,
                delta as int,
            ));
        }
    }
}

/// The sector sequence with one floor height nudged and clamped.
pub open spec fn spec_adjust_bottom(ss: Seq<Sector>, s: int, delta: int) -> Seq<Sector> {
    if 0 <= s < ss.len() {
        ss.update(
            s,
            sector_with_bottom(ss[s], spec_clamp_map(ss[s].bottom_height + delta) as i32),
        )
    } else {
        ss
    }
}

/// The sector sequence with one ceiling height nudged and clamped.
pub open spec fn spec_adjust_top(ss: Seq<Sector>, s: int, delta: int) -> Seq<Sector> {
    if 0 <= s < ss.len() {
        ss.update(s, sector_with_top(ss[s], spec_clamp_map(ss[s].top_height + delta) as i32))
    } else {
        ss
    }
}

/// Nudges the ceiling height of one sector by `delta`, clamped to the map
/// bound; an out-of-range sector index leaves the level unchanged.
pub fn adjust_top_height(level: &mut Level, s: usize, delta: i32)
    requires
        level_wf(*old(level)),
        -10 <= delta <= 10,
    ensures
        level_wf(*final(level)),
        final(level).walls == old(level).walls,
        final(level).number_of_walls == old(level).number_of_walls,
        final(level).number_of_sectors == old(level).number_of_sectors,
        final(level).sectors@ == spec_adjust_top(old(level).sectors@, s as int, delta as int),
{
    if s < level.sectors.len() {
        let mut sec = level.sectors[s];
        sec.top_height = clamp_map(sec.top_height as i64 + delta as i64);
        level.sectors[s] = sec;
        proof {
            assert(level.sectors@ =~= spec_adjust_top(old(level).sectors@, s as int, delta as int));
        }
    } else {
        proof {
            assert(level.sectors@ =~= spec_adjust_top(old(level).sectors@, s as int, delta as int));
        }
    }
}

/// The wall sequence with one texture-repeat factor nudged and clamped:
/// the horizontal factor when `horizontal`, the vertical one otherwise.
pub open spec fn spec_adjust_uv(ws: Seq<Wall>, w: int, delta: int, horizontal: bool) -> Seq<Wall> {
    if 0 <= w < ws.len() {
        if horizontal {
            ws.update(w, Wall { u: spec_clamp_map(ws[w].u + delta) as i32, ..ws[w] })
        } else {
            ws.update(w, Wall { v: spec_clamp_map(ws[w].v + delta) as i32, ..ws[w] })
        }
    } else {
        ws
    }
}

/// Nudges a wall's horizontal or vertical texture-repeat factor by
/// `delta`, clamped to the map bound; an out-of-range wall index leaves
/// the level unchanged.
pub fn adjust_wall_uv(level: &mut Level, w: usize, delta: i32, horizontal: bool)
    requires
        level_wf(*old(level)),
        -10 <= delta <= 10,
    ensures
        level_wf(*final(level)),
        final(level).sectors == old(level).sectors,
        final(level).number_of_walls == old(level).number_of_walls,
        final(level).number_of_sectors == old(level).number_of_sectors,
        final(level).walls@ == spec_adjust_uv(
            old(level).walls@,
            w as int,
            delta as int,
            horizontal,
        ),
{
    if w < level.walls.len() {
        let mut wall = level.walls[w];
        if horizontal {
            wall.u = clamp_map(wall.u as i64 + delta as i64);
        } else {
            wall.v = clamp_map(wall.v as i64 + delta as i64);
        }
        level.walls[w] = wall;
        proof {
            assert(level.walls@ =~= spec_adjust_uv(
                old(level).walls@,
                w as int,
                delta as int,
                horizontal,
            ));
        }
    } else {
        proof {
            assert(level.walls@ =~= spec_adjust_uv(
                old(level).walls@,
                w as int,
                delta as int,
                horizontal,
            ));
        }
    }
}

/// Whether the mouse sits inside the inclusive hotspot rectangle.
pub open spec fn in_hotspot(mx: int, my: int, x0: int, x1: int, y0: int, y1: int) -> bool {
    x0 <= mx <= x1 && y0 <= my <= y1
}

/// Whether the mouse sits inside the inclusive hotspot rectangle.
fn hit(mx: i32, my: i32, x0: i32, x1: i32, y0: i32, y1: i32) -> (b: bool)
    ensures
        b == in_hotspot(mx as int, my as int, x0 as int, x1 as int, y0 as int, y1 as int),
{
    x0 <= mx && mx <= x1 && y0 <= my && my <= y1
}

/// The wall sequence after cycling one wall's texture through a bank of
/// `bank_len` entries: forward wraps the last entry to the first,
/// backward wraps the first to the last; a missing texture, an index
/// outside the bank, an out-of-range wall or an empty bank change nothing.
pub open spec fn spec_cycle_texture(ws: Seq<Wall>, w: int, bank_len: u32, forward: bool) -> Seq<
    Wall,
> {
    if 0 <= w < ws.len() && bank_len >= 1 {
        match ws[w].texture {
            Some(i) => if i < bank_len {
                ws.update(
                    w,
                    Wall {
                        texture: Some(
                            if forward {
                                if i + 1 == bank_len {
                                    0u32
                                } else {
                                    (i + 1) as u32
                                }
                            } else {
                                if i == 0 {
                                    (bank_len - 1) as u32
                                } else {
                                    (i - 1) as u32
                                }
                            },
                        ),
                        ..ws[w]
                    },
                )
            } else {
                ws
            },
            None => ws,
        }
    } else {
        ws
    }
}

/// Cycles the texture of one wall forward or backward through the bank;
/// an out-of-range wall index leaves the level unchanged.
pub fn cycle_wall_texture(level: &mut Level, w: usize, bank_len: u32, forward: bool)
    requires
        level_wf(*old(level)),
    ensures
        level_wf(*final(level)),
        final(level).sectors == old(level).sectors,
        final(level).number_of_walls == old(level).number_of_walls,
        final(level).number_of_sectors == old(level).number_of_sectors,
        final(level).walls@ == spec_cycle_texture(old(level).walls@, w as int, bank_len, forward),
{
    if w < level.walls.len() {
        if bank_len >= 1 {
            let mut wall = level.walls[w];
            if forward {
                wall.next_texture(bank_len);
            } else {
                wall.prev_texture(bank_len);
            }
            level.walls[w] = wall;
            proof {
                assert(level.walls@ =~= spec_cycle_texture(
                    old(level).walls@,
                    w as int,
                    bank_len,
                    forward,
                ));
            }
        } else {
            proof {
                assert(level.walls@ =~= spec_cycle_texture(
                    old(level).walls@,
                    w as int,
                    bank_len,
                    forward,
                ));
            }
        }
    } else {
        proof {
            assert(level.walls@ =~= spec_cycle_texture(
                old(level).walls@,
                w as int,
                bank_len,
                forward,
            ));
        }
    }
}

/// The sector sequence after one left click in the toolbar: the four
/// height hotspots nudge the selected sector's floor and ceiling by one,
/// applied in this order.
pub open spec fn spec_toolbar_left_sectors(ss: Seq<Sector>, s: int, mx: int, my: int) -> Seq<
    Sector,
> {
    let a = if in_hotspot(mx, my, 150, 175, 770, 795) {
        spec_adjust_bottom(ss, s, 1)
    } else {
        ss
    };
    let b = if in_hotspot(mx, my, 190, 215, 770, 795) {
        spec_adjust_bottom(a, s, -1)
    } else {
        a
    };
    let c = if in_hotspot(mx, my, 160, 185, 790, 815) {
        spec_adjust_top(b, s, 1)
    } else {
        b
    };
    if in_hotspot(mx, my, 190, 215, 790, 815) {
        spec_adjust_top(c, s, -1)
    } else {
        c
    }
}

/// The wall sequence after one left click in the toolbar: the texture
/// preview cycles the selected wall's texture forward and the four
/// repeat-factor hotspots nudge its factors by one, applied in this order.
pub open spec fn spec_toolbar_left_walls(
    ws: Seq<Wall>,
    sel: Option<usize>,
    bank_len: u32,
    mx: int,
    my: int,
) -> Seq<Wall> {
    match sel {
        None => ws,
        Some(w) => {
            let a = if in_hotspot(mx, my, 445, 535, 735, 825) {
                spec_cycle_texture(ws, w as int, bank_len, true)
            } else {
                ws
            };
            let b = if in_hotspot(mx, my, 370, 395, 770, 795) {
                spec_adjust_uv(a, w as int, 1, true)
            } else {
                a
            };
            let c = if in_hotspot(mx, my, 400, 425, 770, 795) {
                spec_adjust_uv(b, w as int, -1, true)
            } else {
                b
            };
            let d = if in_hotspot(mx, my, 370, 395, 790, 815) {
                spec_adjust_uv(c, w as int, 1, false)
            } else {
                c
            };
            if in_hotspot(mx, my, 400, 425, 790, 815) {
                spec_adjust_uv(d, w as int, -1, false)
            } else {
                d
            }
        },
    }
}

/// The sector sequence after one right click in the toolbar: the height
/// hotspots nudge the selected sector's floor and ceiling by ten, applied
/// in this order.
pub open spec fn spec_toolbar_right_sectors(ss: Seq<Sector>, s: int, mx: int, my: int) -> Seq<
    Sector,
> {
    let a = if in_hotspot(mx, my, 160, 185, 770, 795) {
        spec_adjust_bottom(ss, s, 10)
    } else {
        ss
    };
    let b = if in_hotspot(mx, my, 190, 215, 770, 795) {
        spec_adjust_bottom(a, s, -10)
    } else {
        a
    };
    let c = if in_hotspot(mx, my, 160, 185, 790, 815) {
        spec_adjust_top(b, s, 10)
    } else {
        b
    };
    if in_hotspot(mx, my, 190, 215, 790, 815) {
        spec_adjust_top(c, s, -10)
    } else {
        c
    }
}

/// The wall sequence after one right click in the toolbar: the texture
/// preview cycles the selected wall's texture backward.
pub open spec fn spec_toolbar_right_walls(
    ws: Seq<Wall>,
    sel: Option<usize>,
    bank_len: u32,
    mx: int,
    my: int,
) -> Seq<Wall> {
    match sel {
        None => ws,
        Some(w) => if in_hotspot(mx, my, 445, 535, 735, 825) {
            spec_cycle_texture(ws, w as int, bank_len, false)
        } else {
            ws
        },
    }
}

/// Applies one left click in the toolbar area: clicking the texture
/// preview cycles the selected wall's texture forward; the height and
/// repeat-factor hotspots nudge the selected sector's floor and ceiling
/// and the selected wall's repeat factors by one.
pub fn toolbar_left_click(grid: &Grid, player: &mut PlayerInfo, bank_len: u32)
    requires
        grid_wf(*grid),
        player_wf(*old(player)),
    ensures
        player_wf(*final(player)),
        final(player).position == old(player).position,
        final(player).angle_h == old(player).angle_h,
        final(player).level.number_of_walls == old(player).level.number_of_walls,
        final(player).level.number_of_sectors == old(player).level.number_of_sectors,
        grid.selected_sector is None ==> *final(player) == *old(player),
        match grid.selected_sector {
            Some(s) => final(player).level.sectors@ == spec_toolbar_left_sectors(
                old(player).level.sectors@,
                s as int,
                grid.mouse_status.mouse_x as int,
                grid.mouse_status.mouse_y as int,
            ) && final(player).level.walls@ == spec_toolbar_left_walls(
                old(player).level.walls@,
                grid.selected_wall,
                bank_len,
                grid.mouse_status.mouse_x as int,
                grid.mouse_status.mouse_y as int,
            ),
            None => true,
        },
{
    let s = match grid.selected_sector {
        Some(s) => s,
        None => {
            return ;
        },
    };
    let mx = grid.mouse_status.mouse_x;
    let my = grid.mouse_status.mouse_y;
    match grid.selected_wall {
        Some(w) => {
            if hit(mx, my, 445, 535, 735, 825) {
                cycle_wall_texture(&mut player.level, w, bank_len, true);
            }
        },
        None => {},
    }
    if hit(mx, my, 150, 175, 770, 795) {
        adjust_bottom_height(&mut player.level, s, 1);
    }
    if hit(mx, my, 190, 215, 770, 795) {
        adjust_bottom_height(&mut player.level, s, -1);
    }
    if hit(mx, my, 160, 185, 790, 815) {
        adjust_top_height(&mut player.level, s, 1);
    }
    if hit(mx, my, 190, 215, 790, 815) {
        adjust_top_height(&mut player.level, s, -1);
    }
    match grid.selected_wall {
        Some(w) => {
            if hit(mx, my, 370, 395, 770, 795) {
                adjust_wall_uv(&mut player.level, w, 1, true);
            }
            if hit(mx, my, 400, 425, 770, 795) {
                adjust_wall_uv(&mut player.level, w, -1, true);
            }
            if hit(mx, my, 370, 395, 790, 815) {
                adjust_wall_uv(&mut player.level, w, 1, false);
            }
            if hit(mx, my, 400, 425, 790, 815) {
                adjust_wall_uv(&mut player.level, w, -1, false);
            }
        },
        None => {},
    }
}

/// Applies one right click in the toolbar area: clicking the texture
/// preview cycles the selected wall's texture backward; the height
/// hotspots nudge the selected sector's floor and ceiling by ten.
pub fn toolbar_right_click(grid: &Grid, player: &mut PlayerInfo, bank_len: u32)
    requires
        grid_wf(*grid),
        player_wf(*old(player)),
    ensures
        player_wf(*final(player)),
        final(player).position == old(player).position,
        final(player).angle_h == old(player).angle_h,
        final(player).level.number_of_walls == old(player).level.number_of_walls,
        final(player).level.number_of_sectors == old(player).level.number_of_sectors,
        grid.selected_sector is None ==> *final(player) == *old(player),
        match grid.selected_sector {
            Some(s) => final(player).level.sectors@ == spec_toolbar_right_sectors(
                old(player).level.sectors@,
                s as int,
                grid.mouse_status.mouse_x as int,
                grid.mouse_status.mouse_y as int,
            ) && final(player).level.walls@ == spec_toolbar_right_walls(
                old(player).level.walls@,
                grid.selected_wall,
                bank_len,
                grid.mouse_status.mouse_x as int,
                grid.mouse_status.mouse_y as int,
            ),
            None => true,
        },
{
    let s = match grid.selected_sector {
        Some(s) => s,
        None => {
            return ;
        },
    };
    let mx = grid.mouse_status.mouse_x;
    let my = grid.mouse_status.mouse_y;
    match grid.selected_wall {
        Some(w) => {
            if hit(mx, my, 445, 535, 735, 825) {
                cycle_wall_texture(&mut player.level, w, bank_len, false);
            }
        },
        None => {},
    }
    if hit(mx, my, 160, 185, 770, 795) {
        adjust_bottom_height(&mut player.level, s, 10);
    }
    if hit(mx, my, 190, 215, 770, 795) {
        adjust_bottom_height(&mut player.level, s, -10);
    }
    if hit(mx, my, 160, 185, 790, 815) {
        adjust_top_height(&mut player.level, s, 10);
    }
    if hit(mx, my, 190, 215, 790, 815) {
        adjust_top_height(&mut player.level, s, -10);
    }
}

/// Arms the marquee: on a fresh left press with nothing being dragged the
/// wall and point selections are cleared and the anchor is set.
pub fn begin_marquee(grid: &mut Grid, x: i32, y: i32)
    requires
        grid_wf(*old(grid)),
    ensures
        grid_wf(*final(grid)),
        old(grid).selected_point is None && old(grid).state == State::Free ==> *final(grid)
            == (Grid {
            highlight_x: Some(spec_clamp_map(x as int) as i32),
            highlight_y: Some(spec_clamp_map(y as int) as i32),
            selection: Selection {
                walls: final(grid).selection.walls,
                points: final(grid).selection.points,
                ..old(grid).selection
            },
            ..*old(grid)
        }) && final(grid).selection.walls@.len() == 0 && final(grid).selection.points@.len() == 0,
        !(old(grid).selected_point is None && old(grid).state == State::Free) ==> *final(grid)
            == *old(grid),
{
    if grid.selected_point.is_none() && match grid.state {
        State::Free => true,
        _ => false,
    } {
        grid.selection.walls = Vec::new();
        grid.selection.points = Vec::new();
        grid.highlight_x = Some(clamp_map(x as i64));
        grid.highlight_y = Some(clamp_map(y as i64));
    }
}

/// Releases the marquee: the left button came up, so the anchor is
/// dropped and the editor returns to the free state.
pub fn end_marquee(grid: &mut Grid)
    requires
        grid_wf(*old(grid)),
    ensures
        grid_wf(*final(grid)),
        *final(grid) == (Grid {
            state: State::Free,
            highlight_x: None::<i32>,
            highlight_y: None::<i32>,
            ..*old(grid)
        }),
{
    grid.state = State::Free;
    grid.highlight_x = None;
    grid.highlight_y = None;
}

/// Clears the marquee selection while a point is being dragged, so the
/// selection circles and an active drag never render together.
pub fn clear_selection_for_drag(grid: &mut Grid)
    requires
        grid_wf(*old(grid)),
    ensures
        grid_wf(*final(grid)),
        old(grid).selected_point is Some ==> *final(grid) == (Grid {
            selection: Selection {
                sectors: final(grid).selection.sectors,
                walls: final(grid).selection.walls,
                points: final(grid).selection.points,
                ..old(grid).selection
            },
            ..*old(grid)
        }) && final(grid).selection.sectors@.len() == 0 && final(grid).selection.walls@.len() == 0
            && final(grid).selection.points@.len() == 0,
        old(grid).selected_point is None ==> *final(grid) == *old(grid),
{
    if grid.selected_point.is_some() {
        grid.selection.sectors = Vec::new();
        grid.selection.walls = Vec::new();
        grid.selection.points = Vec::new();
    }
}

impl Grid {
    /// Seeds a fresh square sector in the middle of the map: four welded
    /// walls around the unit square from (32,32) to (64,64), colored from
    /// the palette by the given seed, followed by one sector spanning
    /// exactly those walls.
    pub fn new_sector(&mut self, player: &mut PlayerInfo, color_seed: u32)
        requires
            grid_wf(*old(self)),
            player_wf(*old(player)),
            old(player).level.walls@.len() + 5 < 0x7fff_ffff,
            old(player).level.sectors@.len() + 1 < 0xffff_ffff,
        ensures
            grid_wf(*final(self)),
            player_wf(*final(player)),
            *final(self) == *old(self),
            final(player).position == old(player).position,
            final(player).angle_h == old(player).angle_h,
            final(player).level.walls@.len() == old(player).level.walls@.len() + 4,
            forall|i: int|
                0 <= i < old(player).level.walls@.len() ==> final(player).level.walls@[i] == old(
                    player,
                ).level.walls@[i],
            final(player).level.sectors@ == old(player).level.sectors@.push(
                Sector {
                    wall_start: old(player).level.walls@.len() as i32,
                    wall_end: (old(player).level.walls@.len() + 4) as i32,
                    bottom_height: 0,
                    top_height: 40,
                    distance: 0,
                    top_color: crate::color::spec_rgba(255, 255, 255, 255),
                    bottom_color: crate::color::spec_rgba(0, 0, 0, 255),
                    surface_texture: None::<u32>,
                },
            ),
            final(player).level.number_of_walls == final(player).level.walls@.len(),
            final(player).level.number_of_sectors == final(player).level.sectors@.len(),
            ({
                let base = old(player).level.walls@.len() as int;
                let c = crate::color::spec_palette(color_seed as int % 9);
                let ws = final(player).level.walls@;
                &&& ws[base + 0].x1 == 32 && ws[base + 0].y1 == 32 && ws[base + 0].x2 == 64 && ws[
                    base + 0].y2 == 32
                &&& ws[base + 1].x1 == 64 && ws[base + 1].y1 == 32 && ws[base + 1].x2 == 64 && ws[
                    base + 1].y2 == 64
                &&& ws[base + 2].x1 == 64 && ws[base + 2].y1 == 64 && ws[base + 2].x2 == 32 && ws[
                    base + 2].y2 == 64
                &&& ws[base + 3].x1 == 32 && ws[base + 3].y1 == 64 && ws[base + 3].x2 == 32 && ws[
                    base + 3].y2 == 32
                &&& forall|k: int| base <= k < base + 4 ==> (#[trigger] ws[k]).color == c
            }),
            level_contiguous(old(player).level) ==> level_contiguous(final(player).level),
    {
        let color = crate::color::palette_color(color_seed);
        let start = player.level.walls.len();
        player.level.walls.push(Wall::new(32, 32, 64, 32, color, Some(0)));
        player.level.walls.push(Wall::new(64, 32, 64, 64, color, Some(0)));
        player.level.walls.push(Wall::new(64, 64, 32, 64, color, Some(0)));
        player.level.walls.push(Wall::new(32, 64, 32, 32, color, Some(0)));
        let sector = Sector {
            wall_start: start as i32,
            wall_end: (start + 4) as i32,
            bottom_height: 0,
            top_height: 40,
            distance: 0,
            top_color: crate::color::white(),
            bottom_color: crate::color::black(),
            surface_texture: None,
        };
        player.level.sectors.push(sector);
        player.level.number_of_walls = player.level.walls.len() as u32;
        player.level.number_of_sectors = player.level.sectors.len() as u32;
        proof {
            assert forall|q: int|
                0 <= q < player.level.sectors@.len() implies sector_wf(
                #[trigger] player.level.sectors@[q],
                player.level.walls@.len() as int,
            ) by {
                if q < old(player).level.sectors@.len() {
                    assert(sector_wf(
                        old(player).level.sectors@[q],
                        old(player).level.walls@.len() as int,
                    ));
                }
            };
        }
    }
}

/// Whether the editor state lets a drag run: the picked wall exists and
/// its partner index is a valid wall index.
pub fn drag_pre_holds(g: &Grid, l: &Level) -> (b: bool)
    ensures
        b == drag_pre(*g, *l),
{
    match (g.selected_point, g.selected_wall) {
        (Some(code), Some(w)) => {
            if w >= l.walls.len() {
                return false;
            }
            if code.wraps {
                match g.selected_sector {
                    Some(s) => s < l.sectors.len(),
                    None => false,
                }
            } else {
                w + 1 < l.walls.len()
            }
        },
        _ => true,
    }
}

} // verus!
