//! The renderer: draw commands, the 2D edit view, and the 3D perspective
//! pipeline with near-plane clipping, two-pass surface capture and
//! per-column texture sampling. The renderer never touches a canvas; it
//! emits plain draw commands a frontend replays.
use crate::color::{black, grey3, grey4, marquee_grey, spec_rgba, white, Rgba};
use crate::edit::{
    collect_marquee, grid_wf, marquee_rect, spec_marquee_rect, trace_step, Grid, ScreenRect,
};
use crate::level::{player_wf, Level, PlayerInfo, Sector, Surface, Wall, MAP_LIMIT};
use crate::math::{
    cosine, div_trunc, div_trunc128, div_trunc_any, lemma_tdiv_bounds, lemma_tdiv_mul_bound,
    lemma_tdivs_bounds, one_if_none, rem_euc, sine, spec_cosine, spec_sine, tdiv, tdivs,
};
use crate::texture::Texture;
use crate::{HALF_HEIGHT, HALF_WIDTH, RESOLUTION, SCREEN_HEIGHT, SCREEN_WIDTH};
use vstd::prelude::*;

verus! {

/// Which view the renderer is drawing this frame.
#[derive(Clone, Copy, Debug, PartialEq, Eq, Structural)]
pub enum DrawMode {
    Draw2D,
    Draw3D,
}

/// One drawing primitive: a two-by-two dot or a filled rectangle, both in
/// screen coordinates.
#[derive(Clone, Copy, Debug, PartialEq, Eq, Structural)]
pub enum DrawCmd {
    Dot { x: i32, y: i32, color: Rgba },
    Rect { x: i32, y: i32, w: u32, h: u32, color: Rgba },
}

/// The renderer: the commands emitted so far this frame and the active
/// view mode.
pub struct Renderer {
    pub cmds: Vec<DrawCmd>,
    pub draw_mode: DrawMode,
}

/// Screen coordinates handed to the drawing primitives stay within this
/// bound; projected positions are clipped before they are drawn.
pub const SCREEN_COORD_LIMIT: i64 = 1_000_000_000;

/// A dot command at the given position.
pub open spec fn dot_at(x: int, y: int, color: Rgba) -> DrawCmd {
    DrawCmd::Dot { x: x as i32, y: y as i32, color }
}

impl Renderer {
    /// A fresh renderer in the perspective view with an empty frame.
    pub fn new() -> (r: Renderer)
        ensures
            r.cmds@.len() == 0,
            r.draw_mode == DrawMode::Draw3D,
    {
        Renderer { cmds: Vec::new(), draw_mode: DrawMode::Draw3D }
    }

    /// Clears the pending frame and fills the screen with a solid grey.
    pub fn draw_background(&mut self)
        ensures
            final(self).draw_mode == old(self).draw_mode,
            final(self).cmds@ == seq![
                DrawCmd::Rect {
                    x: 0,
                    y: 0,
                    w: SCREEN_WIDTH as u32,
                    h: SCREEN_HEIGHT as u32,
                    color: spec_rgba(128, 128, 128, 255),
                },
            ],
    {
        self.cmds = Vec::new();
        self.cmds.push(
            DrawCmd::Rect {
                x: 0,
                y: 0,
                w: SCREEN_WIDTH as u32,
                h: SCREEN_HEIGHT as u32,
                color: crate::color::rgba(128, 128, 128, 255),
            },
        );
        proof {
            assert(self.cmds@ =~= seq![
                DrawCmd::Rect {
                    x: 0,
                    y: 0,
                    w: SCREEN_WIDTH as u32,
                    h: SCREEN_HEIGHT as u32,
                    color: spec_rgba(128, 128, 128, 255),
                },
            ]);
        }
    }

    /// Emits one two-by-two dot.
    pub fn draw_dot(&mut self, x: i64, y: i64, color: Rgba)
        requires
            -SCREEN_COORD_LIMIT <= x <= SCREEN_COORD_LIMIT,
            -SCREEN_COORD_LIMIT <= y <= SCREEN_COORD_LIMIT,
        ensures
            final(self).draw_mode == old(self).draw_mode,
            final(self).cmds@ == old(self).cmds@.push(dot_at(x as int, y as int, color)),
    {
        self.cmds.push(DrawCmd::Dot { x: x as i32, y: y as i32, color });
    }

    /// Emits one five-by-five dot.
    pub fn draw_big_dot(&mut self, x: i64, y: i64, color: Rgba)
        requires
            -SCREEN_COORD_LIMIT <= x <= SCREEN_COORD_LIMIT,
            -SCREEN_COORD_LIMIT <= y <= SCREEN_COORD_LIMIT,
        ensures
            final(self).draw_mode == old(self).draw_mode,
            final(self).cmds@ == old(self).cmds@.push(big_dot_at(x as int, y as int, color)),
    {
        self.cmds.push(DrawCmd::Rect { x: x as i32, y: y as i32, w: 5, h: 5, color });
    }
}

/// A five-by-five dot command at the given position.
pub open spec fn big_dot_at(x: int, y: int, color: Rgba) -> DrawCmd {
    DrawCmd::Rect { x: x as i32, y: y as i32, w: 5u32, h: 5u32, color }
}

/// The number of steps of the digital-line walk between two screen points.
pub open spec fn seg_steps(x1: int, y1: int, x2: int, y2: int) -> int {
    let ax = if x2 >= x1 {
        x2 - x1
    } else {
        x1 - x2
    };
    let ay = if y2 >= y1 {
        y2 - y1
    } else {
        y1 - y2
    };
    if ax >= ay {
        ax
    } else {
        ay
    }
}

/// The `n`-th point of the digital-line walk between two screen points.
pub open spec fn seg_point(x1: int, y1: int, x2: int, y2: int, n: int) -> (int, int) {
    let m = if seg_steps(x1, y1, x2, y2) == 0 {
        1int
    } else {
        seg_steps(x1, y1, x2, y2)
    };
    (x1 + tdiv(n * (x2 - x1), m), y1 + tdiv(n * (y2 - y1), m))
}

/// The dot commands of a thin digital line.
pub open spec fn line_cmds(x1: int, y1: int, x2: int, y2: int, color: Rgba) -> Seq<DrawCmd> {
    Seq::new(
        seg_steps(x1, y1, x2, y2) as nat,
        |n: int|
            dot_at(seg_point(x1, y1, x2, y2, n).0, seg_point(x1, y1, x2, y2, n).1, color),
    )
}

/// The big-dot commands of a thick digital line.
pub open spec fn thick_line_cmds(x1: int, y1: int, x2: int, y2: int, color: Rgba) -> Seq<DrawCmd> {
    Seq::new(
        seg_steps(x1, y1, x2, y2) as nat,
        |n: int|
            big_dot_at(seg_point(x1, y1, x2, y2, n).0, seg_point(x1, y1, x2, y2, n).1, color),
    )
}

impl Renderer {
    /// Draws a thin line as a digital walk of dots, one step per unit of
    /// the dominant axis.
    pub fn draw_line(&mut self, x1: i64, y1: i64, x2: i64, y2: i64, color: Rgba)
        requires
            -SCREEN_COORD_LIMIT <= x1 <= SCREEN_COORD_LIMIT,
            -SCREEN_COORD_LIMIT <= y1 <= SCREEN_COORD_LIMIT,
            -SCREEN_COORD_LIMIT <= x2 <= SCREEN_COORD_LIMIT,
            -SCREEN_COORD_LIMIT <= y2 <= SCREEN_COORD_LIMIT,
        ensures
            final(self).draw_mode == old(self).draw_mode,
            final(self).cmds@ == old(self).cmds@ + line_cmds(
                x1 as int,
                y1 as int,
                x2 as int,
                y2 as int,
                color,
            ),
    {
        let dx = x2 - x1;
        let dy = y2 - y1;
        let ax = if dx >= 0 {
            dx
        } else {
            -dx
        };
        let ay = if dy >= 0 {
            dy
        } else {
            -dy
        };
        let steps = if ax >= ay {
            ax
        } else {
            ay
        };
        let m = one_if_none(steps);
        let ghost base = self.cmds@;
        let ghost cmds = line_cmds(x1 as int, y1 as int, x2 as int, y2 as int, color);
        let mut n: i64 = 0;
        while n < steps
            invariant
                0 <= n <= steps,
                steps == seg_steps(x1 as int, y1 as int, x2 as int, y2 as int),
                m == if steps == 0 {
                    1int
                } else {
                    steps as int
                },
                dx == x2 - x1,
                dy == y2 - y1,
                -SCREEN_COORD_LIMIT <= x1 <= SCREEN_COORD_LIMIT,
                -SCREEN_COORD_LIMIT <= y1 <= SCREEN_COORD_LIMIT,
                -2 * SCREEN_COORD_LIMIT <= dx <= 2 * SCREEN_COORD_LIMIT,
                -2 * SCREEN_COORD_LIMIT <= dy <= 2 * SCREEN_COORD_LIMIT,
                cmds == line_cmds(x1 as int, y1 as int, x2 as int, y2 as int, color),
                cmds.len() == steps,
                self.cmds@ == base + cmds.take(n as int),
                self.draw_mode == old(self).draw_mode,
            decreases steps - n,
        {
            proof {
                assert(-4_000_000_000_000_000_000 <= n * dx <= 4_000_000_000_000_000_000
                    && -4_000_000_000_000_000_000 <= n * dy <= 4_000_000_000_000_000_000)
                    by (nonlinear_arith)
                    requires
                        0 <= n <= 2_000_000_000,
                        -2_000_000_000 <= dx <= 2_000_000_000,
                        -2_000_000_000 <= dy <= 2_000_000_000,
                ;
                lemma_tdiv_mul_bound(n as int, dx as int, m as int);
                lemma_tdiv_mul_bound(n as int, dy as int, m as int);
            }
            let px = x1 + div_trunc(n * dx, m);
            let py = y1 + div_trunc(n * dy, m);
            self.cmds.push(DrawCmd::Dot { x: px as i32, y: py as i32, color });
            proof {
                assert(self.cmds@ =~= base + cmds.take(n + 1));
            }
            n = n + 1;
        }
        proof {
            assert(cmds.take(steps as int) =~= cmds);
        }
    }

    /// Draws a thick line as a digital walk of five-by-five dots.
    pub fn draw_thick_line(&mut self, x1: i64, y1: i64, x2: i64, y2: i64, color: Rgba)
        requires
            -SCREEN_COORD_LIMIT <= x1 <= SCREEN_COORD_LIMIT,
            -SCREEN_COORD_LIMIT <= y1 <= SCREEN_COORD_LIMIT,
            -SCREEN_COORD_LIMIT <= x2 <= SCREEN_COORD_LIMIT,
            -SCREEN_COORD_LIMIT <= y2 <= SCREEN_COORD_LIMIT,
        ensures
            final(self).draw_mode == old(self).draw_mode,
            final(self).cmds@ == old(self).cmds@ + thick_line_cmds(
                x1 as int,
                y1 as int,
                x2 as int,
                y2 as int,
                color,
            ),
    {
        let dx = x2 - x1;
        let dy = y2 - y1;
        let ax = if dx >= 0 {
            dx
        } else {
            -dx
        };
        let ay = if dy >= 0 {
            dy
        } else {
            -dy
        };
        let steps = if ax >= ay {
            ax
        } else {
            ay
        };
        let m = one_if_none(steps);
        let ghost base = self.cmds@;
        let ghost cmds = thick_line_cmds(x1 as int, y1 as int, x2 as int, y2 as int, color);
        let mut n: i64 = 0;
        while n < steps
            invariant
                0 <= n <= steps,
                steps == seg_steps(x1 as int, y1 as int, x2 as int, y2 as int),
                m == if steps == 0 {
                    1int
                } else {
                    steps as int
                },
                dx == x2 - x1,
                dy == y2 - y1,
                -SCREEN_COORD_LIMIT <= x1 <= SCREEN_COORD_LIMIT,
                -SCREEN_COORD_LIMIT <= y1 <= SCREEN_COORD_LIMIT,
                -2 * SCREEN_COORD_LIMIT <= dx <= 2 * SCREEN_COORD_LIMIT,
                -2 * SCREEN_COORD_LIMIT <= dy <= 2 * SCREEN_COORD_LIMIT,
                cmds == thick_line_cmds(x1 as int, y1 as int, x2 as int, y2 as int, color),
                cmds.len() == steps,
                self.cmds@ == base + cmds.take(n as int),
                self.draw_mode == old(self).draw_mode,
            decreases steps - n,
        {
            proof {
                assert(-4_000_000_000_000_000_000 <= n * dx <= 4_000_000_000_000_000_000
                    && -4_000_000_000_000_000_000 <= n * dy <= 4_000_000_000_000_000_000)
                    by (nonlinear_arith)
                    requires
                        0 <= n <= 2_000_000_000,
                        -2_000_000_000 <= dx <= 2_000_000_000,
                        -2_000_000_000 <= dy <= 2_000_000_000,
                ;
                lemma_tdiv_mul_bound(n as int, dx as int, m as int);
                lemma_tdiv_mul_bound(n as int, dy as int, m as int);
            }
            let px = x1 + div_trunc(n * dx, m);
            let py = y1 + div_trunc(n * dy, m);
            self.cmds.push(DrawCmd::Rect { x: px as i32, y: py as i32, w: 5, h: 5, color });
            proof {
                assert(self.cmds@ =~= base + cmds.take(n + 1));
            }
            n = n + 1;
        }
        proof {
            assert(cmds.take(steps as int) =~= cmds);
        }
    }
}

/// The 360 dot commands of a circle, one per integer degree.
pub open spec fn circle_cmds(x: int, y: int, radius: int, color: Rgba) -> Seq<DrawCmd> {
    Seq::new(
        360,
        |t: int|
            dot_at(
                x + tdiv(radius * spec_cosine(t), 1000),
                y + tdiv(radius * spec_sine(t), 1000),
                color,
            ),
    )
}

impl Renderer {
    /// Draws a circle as 360 dots, one per integer degree.
    pub fn draw_circle(&mut self, x: i64, y: i64, radius: u32, color: Rgba)
        requires
            -SCREEN_COORD_LIMIT <= x <= SCREEN_COORD_LIMIT,
            -SCREEN_COORD_LIMIT <= y <= SCREEN_COORD_LIMIT,
            radius <= 1000,
        ensures
            final(self).draw_mode == old(self).draw_mode,
            final(self).cmds@ == old(self).cmds@ + circle_cmds(
                x as int,
                y as int,
                radius as int,
                color,
            ),
    {
        let ghost base = self.cmds@;
        let ghost cmds = circle_cmds(x as int, y as int, radius as int, color);
        let mut t: i32 = 0;
        while t < 360
            invariant
                0 <= t <= 360,
                -SCREEN_COORD_LIMIT <= x <= SCREEN_COORD_LIMIT,
                -SCREEN_COORD_LIMIT <= y <= SCREEN_COORD_LIMIT,
                radius <= 1000,
                cmds == circle_cmds(x as int, y as int, radius as int, color),
                cmds.len() == 360,
                self.cmds@ == base + cmds.take(t as int),
                self.draw_mode == old(self).draw_mode,
            decreases 360 - t,
        {
            let c = cosine(t);
            let s = sine(t);
            proof {
                lemma_tdiv_bounds(radius as int * c as int, 1000);
                lemma_tdiv_bounds(-(radius as int * c as int), 1000);
                lemma_tdiv_bounds(radius as int * s as int, 1000);
                lemma_tdiv_bounds(-(radius as int * s as int), 1000);
                assert(-1_000_000 <= radius as int * c as int <= 1_000_000 && -1_000_000
                    <= radius as int * s as int <= 1_000_000) by (nonlinear_arith)
                    requires
                        0 <= radius <= 1000,
                        -1000 <= c as int <= 1000,
                        -1000 <= s as int <= 1000,
                ;
            }
            let px = x + div_trunc(radius as i64 * c as i64, 1000);
            let py = y + div_trunc(radius as i64 * s as i64, 1000);
            self.cmds.push(DrawCmd::Dot { x: px as i32, y: py as i32, color });
            proof {
                assert(self.cmds@ =~= base + cmds.take(t + 1));
            }
            t = t + 1;
        }
        proof {
            assert(cmds.take(360) =~= cmds);
        }
    }

    /// Draws the player marker: a square two map units wide and an arc of
    /// 44 dots showing the view direction.
    pub fn draw_player(&mut self, x: i64, y: i64, color: Rgba, grid: &Grid, player: &PlayerInfo)
        requires
            grid_wf(*grid),
            player_wf(*player),
            -SCREEN_COORD_LIMIT <= x <= SCREEN_COORD_LIMIT,
            -SCREEN_COORD_LIMIT <= y <= SCREEN_COORD_LIMIT,
        ensures
            final(self).draw_mode == old(self).draw_mode,
            final(self).cmds@ == old(self).cmds@.push(
                DrawCmd::Rect {
                    x: x as i32,
                    y: y as i32,
                    w: (2 * grid.scale) as u32,
                    h: (2 * grid.scale) as u32,
                    color,
                },
            ) + arc_cmds(x as int, y as int, player.angle_h as int, color),
    {
        self.cmds.push(
            DrawCmd::Rect {
                x: x as i32,
                y: y as i32,
                w: (2 * grid.scale) as u32,
                h: (2 * grid.scale) as u32,
                color,
            },
        );
        let ghost base = self.cmds@;
        let ghost cmds = arc_cmds(x as int, y as int, player.angle_h as int, color);
        let mut t: i32 = player.angle_h - 22;
        let hi: i32 = player.angle_h + 22;
        while t < hi
            invariant
                player.angle_h - 22 <= t <= hi,
                hi == player.angle_h + 22,
                -1_000_000_000 <= player.angle_h <= 1_000_000_000,
                -SCREEN_COORD_LIMIT <= x <= SCREEN_COORD_LIMIT,
                -SCREEN_COORD_LIMIT <= y <= SCREEN_COORD_LIMIT,
                cmds == arc_cmds(x as int, y as int, player.angle_h as int, color),
                cmds.len() == 44,
                self.cmds@ == base + cmds.take(t - (player.angle_h - 22)),
                self.draw_mode == old(self).draw_mode,
            decreases hi - t,
        {
            let s = sine(t);
            let c = cosine(t);
            proof {
                lemma_tdiv_bounds(70 * s as int, 1000);
                lemma_tdiv_bounds(-(70 * s as int), 1000);
                lemma_tdiv_bounds(70 * c as int, 1000);
                lemma_tdiv_bounds(-(70 * c as int), 1000);
            }
            let px = x + div_trunc(70 * s as i64, 1000);
            let py = y + div_trunc(70 * c as i64, 1000);
            self.cmds.push(DrawCmd::Dot { x: px as i32, y: py as i32, color });
            proof {
                assert(self.cmds@ =~= base + cmds.take(t + 1 - (player.angle_h - 22)));
            }
            t = t + 1;
        }
        proof {
            assert(cmds.take(44) =~= cmds);
        }
    }

    /// Builds the current marquee rectangle and optionally draws it as a
    /// translucent filled rectangle.
    pub fn highlight_rectangle(&mut self, grid: &Grid, init_x: i32, init_y: i32, draw: bool) -> (r:
        ScreenRect)
        requires
            grid_wf(*grid),
            -MAP_LIMIT <= init_x <= MAP_LIMIT,
            -MAP_LIMIT <= init_y <= MAP_LIMIT,
        ensures
            final(self).draw_mode == old(self).draw_mode,
            r == spec_marquee_rect(
                init_x as int,
                init_y as int,
                grid.mouse_status.mouse_x as int,
                grid.mouse_status.mouse_y as int,
            ),
            r.w >= 0 && r.h >= 0,
            draw ==> final(self).cmds@ == old(self).cmds@.push(
                DrawCmd::Rect {
                    x: r.x,
                    y: r.y,
                    w: r.w as u32,
                    h: r.h as u32,
                    color: spec_rgba(70, 70, 70, 129),
                },
            ),
            !draw ==> final(self).cmds@ == old(self).cmds@,
    {
        let r = marquee_rect(init_x, init_y, grid.mouse_status.mouse_x, grid.mouse_status.mouse_y);
        if draw {
            self.cmds.push(
                DrawCmd::Rect {
                    x: r.x,
                    y: r.y,
                    w: r.w as u32,
                    h: r.h as u32,
                    color: marquee_grey(),
                },
            );
        }
        r
    }
}

/// The 44 dot commands of the player's view-direction arc.
pub open spec fn arc_cmds(x: int, y: int, angle: int, color: Rgba) -> Seq<DrawCmd> {
    Seq::new(
        44,
        |n: int|
            dot_at(
                x + tdiv(70 * spec_sine(angle - 22 + n), 1000),
                y + tdiv(70 * spec_cosine(angle - 22 + n), 1000),
                color,
            ),
    )
}

/// A value clamped into `[lo, hi]`.
pub open spec fn clampi(v: int, lo: int, hi: int) -> int {
    if v < lo {
        lo
    } else if v > hi {
        hi
    } else {
        v
    }
}

impl Renderer {
    /// Clamps a screen x coordinate into `[0, SCREEN_WIDTH]`.
    pub fn clip_width(n: i64) -> (r: i64)
        ensures
            r == clampi(n as int, 0, SCREEN_WIDTH as int),
    {
        if n < 0 {
            0
        } else if n > SCREEN_WIDTH as i64 {
            SCREEN_WIDTH as i64
        } else {
            n
        }
    }

    /// Clamps a screen y coordinate into `[0, SCREEN_HEIGHT]`.
    pub fn clip_height(n: i64) -> (r: i64)
        ensures
            r == clampi(n as int, 0, SCREEN_HEIGHT as int),
    {
        if n < 0 {
            0
        } else if n > SCREEN_HEIGHT as i64 {
            SCREEN_HEIGHT as i64
        } else {
            n
        }
    }

    /// Replaces a behind-camera endpoint by the point where its edge meets
    /// the near plane: the clipped endpoint lies on the original segment
    /// and its depth becomes exactly one.
    pub fn clip_behind(x1: i64, y1: i64, z1: i64, x2: i64, y2: i64, z2: i64) -> (r: (i64, i64, i64))
        requires
            y1 <= 0 < y2,
            -8_000_000 <= x1 <= 8_000_000,
            -8_000_000 <= y1 <= 8_000_000,
            -8_000_000 <= z1 <= 8_000_000,
            -8_000_000 <= x2 <= 8_000_000,
            -8_000_000 <= y2 <= 8_000_000,
            -8_000_000 <= z2 <= 8_000_000,
        ensures
            r.0 == spec_clip_behind(
                x1 as int,
                y1 as int,
                z1 as int,
                x2 as int,
                y2 as int,
                z2 as int,
            ).0,
            r.2 == spec_clip_behind(
                x1 as int,
                y1 as int,
                z1 as int,
                x2 as int,
                y2 as int,
                z2 as int,
            ).2,
            r.1 == 1,
            x1 <= x2 ==> x1 <= r.0 <= x2,
            x2 <= x1 ==> x2 <= r.0 <= x1,
            z1 <= z2 ==> z1 <= r.2 <= z2,
            z2 <= z1 ==> z2 <= r.2 <= z1,
    {
        let t = -y1;
        let d = y2 - y1;
        proof {
            assert(-200_000_000_000_000 <= (x2 - x1) * t && (x2 - x1) * t
                <= 200_000_000_000_000 && -200_000_000_000_000 <= (z2 - z1) * t && (z2 - z1) * t
                <= 200_000_000_000_000) by (nonlinear_arith)
                requires
                    -16_000_000 <= x2 - x1 <= 16_000_000,
                    -16_000_000 <= z2 - z1 <= 16_000_000,
                    0 <= t <= 8_000_000,
            ;
            assert(t * (x2 - x1) == (x2 - x1) * t && t * (z2 - z1) == (z2 - z1) * t)
                by (nonlinear_arith);
            lemma_tdiv_mul_bound(t as int, (x2 - x1) as int, d as int);
            lemma_tdiv_mul_bound(t as int, (z2 - z1) as int, d as int);
        }
        let nx = x1 + div_trunc((x2 - x1) * t, d);
        let nz = z1 + div_trunc((z2 - z1) * t, d);
        (nx, 1, nz)
    }
}

/// The near-plane clip of the endpoint `(x1, y1, z1)` against its partner
/// `(x2, y2, z2)`: linear interpolation to depth zero, with the depth then
/// held at one so later projections never divide by zero.
pub open spec fn spec_clip_behind(x1: int, y1: int, z1: int, x2: int, y2: int, z2: int) -> (
    int,
    int,
    int,
) {
    let t = -y1;
    let d = y2 - y1;
    (x1 + tdiv((x2 - x1) * t, d), 1, z1 + tdiv((z2 - z1) * t, d))
}

/// A camera-space coordinate projected to the screen: scaled by the field
/// of view over the depth and recentered.
pub open spec fn spec_project(w: int, depth: int, center: int) -> int {
    tdiv(w * 700, depth) + center
}

/// Projects one camera-space coordinate by the wall's depth.
fn project(w: i64, depth: i64, center: i64) -> (r: i64)
    requires
        depth >= 1,
        -8_000_000 <= w <= 8_000_000,
        0 <= center <= 1000,
    ensures
        r == spec_project(w as int, depth as int, center as int),
        -5_600_000_000 <= r <= 5_600_001_000,
{
    proof {
        lemma_tdiv_bounds(w as int * 700, depth as int);
        lemma_tdiv_bounds(-(w as int * 700), depth as int);
    }
    div_trunc(w * 700, depth) + center
}

/// The camera-space x of a translated map point: rotation by the negated
/// view angle, in fixed-point milli-units.
pub open spec fn spec_world_x(x: int, y: int, angle: int) -> int {
    tdiv(x * spec_cosine(angle) - y * spec_sine(angle), 1000)
}

/// The camera-space depth of a translated map point.
pub open spec fn spec_world_y(x: int, y: int, angle: int) -> int {
    tdiv(y * spec_cosine(angle) + x * spec_sine(angle), 1000)
}

/// Rotates a translated map point into camera space.
fn rotate_point(x: i64, y: i64, angle: i32) -> (r: (i64, i64))
    requires
        -4_000_000 <= x <= 4_000_000,
        -4_000_000 <= y <= 4_000_000,
    ensures
        r.0 == spec_world_x(x as int, y as int, angle as int),
        r.1 == spec_world_y(x as int, y as int, angle as int),
        -8_000_000 <= r.0 <= 8_000_000,
        -8_000_000 <= r.1 <= 8_000_000,
{
    let c = cosine(angle);
    let sn = sine(angle);
    proof {
        assert(-4_000_000_000 <= x * (c as int) <= 4_000_000_000 && -4_000_000_000 <= y
            * (sn as int) <= 4_000_000_000 && -4_000_000_000 <= y * (c as int) <= 4_000_000_000
            && -4_000_000_000 <= x * (sn as int) <= 4_000_000_000) by (nonlinear_arith)
            requires
                -4_000_000 <= x <= 4_000_000,
                -4_000_000 <= y <= 4_000_000,
                -1000 <= c as int <= 1000,
                -1000 <= sn as int <= 1000,
        ;
        lemma_tdiv_bounds(x as int * (c as int) - y as int * (sn as int), 1000);
        lemma_tdiv_bounds(-(x as int * (c as int) - y as int * (sn as int)), 1000);
        lemma_tdiv_bounds(y as int * (c as int) + x as int * (sn as int), 1000);
        lemma_tdiv_bounds(-(y as int * (c as int) + x as int * (sn as int)), 1000);
    }
    let wx = div_trunc(x * (c as i64) - y * (sn as i64), 1000);
    let wy = div_trunc(y * (c as i64) + x * (sn as i64), 1000);
    (wx, wy)
}

/// The interpolated screen y of a wall edge at column `x`: the edge runs
/// from `a1` at column `x1` to `a2` at column `x2` and is sampled at the
/// column center.
pub open spec fn col_y(a1: int, a2: int, x1: int, x2: int, x: int) -> int
    recommends
        x1 < x2,
{
    a1 + tdiv((a2 - a1) * (2 * (x - x1) + 1), 2 * (x2 - x1))
}

/// A texture suitable for sampling: well formed with both dimensions at
/// most 4096.
pub open spec fn tex_ok(t: Texture) -> bool {
    &&& t.wf()
    &&& t.width <= 4096
    &&& t.height <= 4096
}

/// The affine wall sample at screen position `(x, y)`: the texture column
/// advances with the fraction of the wall's screen width covered, scaled
/// by the repeat factor `u`, and the row likewise over the column's edge
/// span with `v`; both wrap by the Euclidean remainder.
pub open spec fn spec_wall_pixel(
    tex: Texture,
    u: int,
    v: int,
    x1: int,
    x2: int,
    yb: int,
    yt: int,
    x: int,
    y: int,
) -> Rgba
    recommends
        x1 <= x < x2,
        yb <= y < yt,
        tex_ok(tex),
{
    let col = (tdiv(tex.width * u * (x - x1), x2 - x1)) % (tex.width as int);
    let row = (tdiv(tex.height * v * (y - yb), yt - yb)) % (tex.height as int);
    crate::color::spec_rgba_from_le(tex.data@[row * tex.width + col])
}

/// Samples a wall texture at one screen pixel of a wall span.
pub fn sample_wall_pixel(
    tex: &Texture,
    u: i32,
    v: i32,
    x1: i64,
    x2: i64,
    yb: i64,
    yt: i64,
    x: i64,
    y: i64,
) -> (c: Rgba)
    requires
        tex_ok(*tex),
        -MAP_LIMIT <= u <= MAP_LIMIT,
        -MAP_LIMIT <= v <= MAP_LIMIT,
        x1 <= x < x2,
        yb <= y < yt,
        -12_000_000_000 <= x1 && x2 <= 12_000_000_000,
        -12_000_000_000 <= yb && yt <= 12_000_000_000,
    ensures
        c == spec_wall_pixel(
            *tex,
            u as int,
            v as int,
            x1 as int,
            x2 as int,
            yb as int,
            yt as int,
            x as int,
            y as int,
        ),
{
    let w = tex.width as i64;
    let h = tex.height as i64;
    proof {
        let wu = (w as int) * (u as int);
        let hv = (h as int) * (v as int);
        assert(-4_096_000_000 <= wu <= 4_096_000_000 && -4_096_000_000 <= hv <= 4_096_000_000)
            by (nonlinear_arith)
            requires
                1 <= w <= 4096,
                1 <= h <= 4096,
                -1_000_000 <= u as int <= 1_000_000,
                -1_000_000 <= v as int <= 1_000_000,
                wu == (w as int) * (u as int),
                hv == (h as int) * (v as int),
        ;
        assert(-99_000_000_000_000_000_000_000 <= wu * ((x - x1) as int) && wu * ((x - x1) as int)
            <= 99_000_000_000_000_000_000_000 && -99_000_000_000_000_000_000_000 <= hv * ((y
            - yb) as int) && hv * ((y - yb) as int) <= 99_000_000_000_000_000_000_000)
            by (nonlinear_arith)
            requires
                -4_096_000_000 <= wu <= 4_096_000_000,
                -4_096_000_000 <= hv <= 4_096_000_000,
                0 <= (x - x1) as int <= 24_000_000_001,
                0 <= (y - yb) as int <= 24_000_000_001,
        ;
        assert(((x - x1) as int) * wu == wu * ((x - x1) as int) && ((y - yb) as int) * hv == hv
            * ((y - yb) as int)) by (nonlinear_arith);
        lemma_tdiv_mul_bound((x - x1) as int, wu, (x2 - x1) as int);
        lemma_tdiv_mul_bound((y - yb) as int, hv, (yt - yb) as int);
    }
    let cnum: i128 = ((w as i128) * (u as i128)) * ((x - x1) as i128);
    let cden: i128 = (x2 - x1) as i128;
    let cq: i64 = div_trunc128(cnum, cden) as i64;
    let col = rem_euc(cq, w);
    let vnum: i128 = ((h as i128) * (v as i128)) * ((y - yb) as i128);
    let vden: i128 = (yt - yb) as i128;
    let vq: i64 = div_trunc128(vnum, vden) as i64;
    let row = rem_euc(vq, h);
    proof {
        assert(0 <= row * w + col && row * w + col < h * w && h * w <= 16_777_216 && h * w == w
            * h) by (nonlinear_arith)
            requires
                0 <= row < h,
                0 <= col < w,
                1 <= w <= 4096,
                1 <= h <= 4096,
        ;
        assert(row * w + col < tex.data@.len());
    }
    let word = tex.data[(row * w + col) as usize];
    crate::color::rgba_from_le(word)
}

/// The perspective-correct floor or ceiling sample under screen pixel
/// `(x, y)`: the pixel is cast back into world space by inverse
/// perspective, rotated by the view angle, offset by the player position
/// and wrapped into the surface texture.
pub open spec fn spec_floor_pixel(
    tex: Texture,
    px: int,
    py: int,
    pz: int,
    angle: int,
    x: int,
    y: int,
) -> Rgba
    recommends
        tex_ok(tex),
{
    let z = if y - HALF_HEIGHT == 0 {
        1int
    } else {
        y - HALF_HEIGHT
    };
    let fx = tdivs((x - HALF_WIDTH) * pz, z * HALF_HEIGHT);
    let fy = tdivs(700 * pz, z * HALF_HEIGHT);
    let rx = tdiv(fx * spec_sine(angle) - fy * spec_cosine(angle), 1000) + tdiv(py, 60) * 3;
    let ry = tdiv(fx * spec_cosine(angle) + fy * spec_sine(angle), 1000) + tdiv(px, 60) * 3;
    let row = rx % (tex.height as int);
    let col = ry % (tex.width as int);
    crate::color::spec_rgba_from_le(tex.data@[row * tex.width + col])
}

/// Samples the surface texture for the floor-cast of one screen pixel.
pub fn sample_floor_pixel(tex: &Texture, px: i32, py: i32, pz: i32, angle: i32, x: i64, y: i64) -> (
    c: Rgba)
    requires
        tex_ok(*tex),
        -MAP_LIMIT <= px <= MAP_LIMIT,
        -MAP_LIMIT <= py <= MAP_LIMIT,
        -MAP_LIMIT <= pz <= MAP_LIMIT,
        0 <= x < SCREEN_WIDTH,
        0 <= y < SCREEN_HEIGHT,
    ensures
        c == spec_floor_pixel(
            *tex,
            px as int,
            py as int,
            pz as int,
            angle as int,
            x as int,
            y as int,
        ),
{
    let zr = y - HALF_HEIGHT as i64;
    let z = if zr == 0 {
        1
    } else {
        zr
    };
    let den = z * (HALF_HEIGHT as i64);
    proof {
        assert(den == z * 420 && den != 0 && -420_000 <= den <= 420_000) by (nonlinear_arith)
            requires
                den == z * (HALF_HEIGHT as int),
                HALF_HEIGHT as int == 420,
                z != 0,
                -1000 <= z <= 1000,
        ;
        assert(-600_000_000_000 <= (x - HALF_WIDTH as int) * (pz as int) && (x
            - HALF_WIDTH as int) * (pz as int) <= 600_000_000_000) by (nonlinear_arith)
            requires
                -600 <= x - HALF_WIDTH as int <= 600,
                -1_000_000 <= pz as int <= 1_000_000,
        ;
        lemma_tdivs_bounds((x - HALF_WIDTH as int) * (pz as int), den as int);
        lemma_tdivs_bounds(700 * (pz as int), den as int);
    }
    let fx = div_trunc_any((x - HALF_WIDTH as i64) * (pz as i64), den);
    let fy = div_trunc_any(700 * (pz as i64), den);
    let sn = sine(angle);
    let cs = cosine(angle);
    proof {
        assert(-700_000_000_000_000 <= fx * (sn as int) && fx * (sn as int) <= 700_000_000_000_000
            && -700_000_000_000_000 <= fy * (cs as int) && fy * (cs as int) <= 700_000_000_000_000
            && -700_000_000_000_000 <= fx * (cs as int) && fx * (cs as int) <= 700_000_000_000_000
            && -700_000_000_000_000 <= fy * (sn as int) && fy * (sn as int)
            <= 700_000_000_000_000) by (nonlinear_arith)
            requires
                -700_000_000_000 <= fx <= 700_000_000_000,
                -700_000_000_000 <= fy <= 700_000_000_000,
                -1000 <= sn as int <= 1000,
                -1000 <= cs as int <= 1000,
        ;
        lemma_tdiv_bounds(fx * (sn as int) - fy * (cs as int), 1000);
        lemma_tdiv_bounds(-(fx * (sn as int) - fy * (cs as int)), 1000);
        lemma_tdiv_bounds(fx * (cs as int) + fy * (sn as int), 1000);
        lemma_tdiv_bounds(-(fx * (cs as int) + fy * (sn as int)), 1000);
        lemma_tdiv_bounds(py as int, 60);
        lemma_tdiv_bounds(-(py as int), 60);
        lemma_tdiv_bounds(px as int, 60);
        lemma_tdiv_bounds(-(px as int), 60);
    }
    let rx = div_trunc(fx * (sn as i64) - fy * (cs as i64), 1000) + div_trunc(py as i64, 60) * 3;
    let ry = div_trunc(fx * (cs as i64) + fy * (sn as i64), 1000) + div_trunc(px as i64, 60) * 3;
    let h = tex.height as i64;
    let w = tex.width as i64;
    let row = rem_euc(rx, h);
    let col = rem_euc(ry, w);
    proof {
        assert(0 <= row * w + col && row * w + col < h * w && h * w <= 16_777_216 && h * w == w
            * h) by (nonlinear_arith)
            requires
                0 <= row < h,
                0 <= col < w,
                1 <= w <= 4096,
                1 <= h <= 4096,
        ;
        assert(row * w + col < tex.data@.len());
    }
    let word = tex.data[(row * w + col) as usize];
    crate::color::rgba_from_le(word)
}

/// The weapon-overlay sample for screen pixel `(x, y)`: the overlay quad
/// spans the right 30% of the screen width and the lower half of the
/// screen, stretched over the whole texture.
pub open spec fn spec_gun_pixel(tex: Texture, x: int, y: int) -> Rgba
    recommends
        tex_ok(tex),
{
    let col = (tdiv(tex.width * (x - 672), 336)) % (tex.width as int);
    let row = (tdiv(tex.height * (y - HALF_HEIGHT), HALF_HEIGHT as int)) % (tex.height as int);
    crate::color::spec_rgba_from_le(tex.data@[row * tex.width + col])
}

/// Samples the weapon overlay texture at one screen pixel.
pub fn sample_gun_pixel(tex: &Texture, x: i64, y: i64) -> (c: Rgba)
    requires
        tex_ok(*tex),
        672 <= x < 1008,
        HALF_HEIGHT <= y < SCREEN_HEIGHT,
    ensures
        c == spec_gun_pixel(*tex, x as int, y as int),
{
    let w = tex.width as i64;
    let h = tex.height as i64;
    proof {
        let dy = y - (HALF_HEIGHT as int);
        assert(0 <= w * (x - 672) && w * (x - 672) <= 4096 * 336 && 0 <= h * dy && h * dy <= 4096
            * 420) by (nonlinear_arith)
            requires
                1 <= w <= 4096,
                1 <= h <= 4096,
                0 <= x - 672 < 336,
                0 <= dy < 420,
        ;
        lemma_tdiv_bounds((w as int) * ((x - 672) as int), 336);
        lemma_tdiv_bounds((h as int) * dy, HALF_HEIGHT as int);
    }
    let cq = div_trunc(w * (x - 672), 336);
    let vq = div_trunc(h * (y - HALF_HEIGHT as i64), HALF_HEIGHT as i64);
    let col = rem_euc(cq, w);
    let row = rem_euc(vq, h);
    proof {
        assert(0 <= row * w + col && row * w + col < h * w && h * w <= 16_777_216 && h * w == w
            * h) by (nonlinear_arith)
            requires
                0 <= row < h,
                0 <= col < w,
                1 <= w <= 4096,
                1 <= h <= 4096,
        ;
        assert(row * w + col < tex.data@.len());
    }
    let word = tex.data[(row * w + col) as usize];
    crate::color::rgba_from_le(word)
}

/// Every command in `s` from position `from` on is a dot within the
/// screen.
pub open spec fn cmds_in_screen(s: Seq<DrawCmd>, from: int) -> bool {
    forall|k: int|
        from <= k < s.len() ==> match #[trigger] s[k] {
            DrawCmd::Dot { x, y, color } => 0 <= x < SCREEN_WIDTH && 0 <= y < SCREEN_HEIGHT,
            DrawCmd::Rect { .. } => false,
        }
}

/// The texture behind an optional borrow, as a value for the emission
/// specifications.
pub open spec fn opt_tex(t: Option<&Texture>) -> Option<Texture> {
    match t {
        Some(t) => Some(*t),
        None => None,
    }
}

/// The commands one column of a wall rasterization appends. On the
/// capture cycle the wall face spans the clipped edge interval, one
/// affine-sampled dot per row; on the fill cycle the span runs between
/// the wall edge and the boundary captured in the scratch buffer, one
/// perspective floor sample per row. Without the relevant texture a
/// column draws nothing.
pub open spec fn wall_col_cmds(
    cycle: u32,
    surface: Option<Surface>,
    sp0: Seq<i32>,
    x1: int,
    x2: int,
    b1: int,
    b2: int,
    t1: int,
    t2: int,
    u: int,
    v: int,
    texture: Option<Texture>,
    surface_texture: Option<Texture>,
    px: int,
    py: int,
    pz: int,
    angle: int,
    x: int,
) -> Seq<DrawCmd> {
    let yb = col_y(b1, b2, x1, x2, x);
    let yt = col_y(t1, t2, x1, x2, x);
    let ybc = clampi(yb, 0, SCREEN_HEIGHT as int);
    let ytc = clampi(yt, 0, SCREEN_HEIGHT as int);
    if cycle == 0 {
        match texture {
            Some(t) => {
                let len = if ybc < ytc {
                    ytc - ybc
                } else {
                    0
                };
                Seq::new(
                    len as nat,
                    |i: int|
                        dot_at(x, ybc + i, spec_wall_pixel(t, u, v, x1, x2, yb, yt, x, ybc + i)),
                )
            },
            None => Seq::empty(),
        }
    } else {
        let ys = if surface == Some(Surface::TopScan) {
            sp0[x] as int
        } else {
            ybc
        };
        let ye = if surface == Some(Surface::BottomScan) {
            sp0[x] as int
        } else {
            ytc
        };
        match surface_texture {
            Some(t) => {
                let len = if ys < ye {
                    ye - ys
                } else {
                    0
                };
                Seq::new(
                    len as nat,
                    |i: int| dot_at(x, ys + i, spec_floor_pixel(t, px, py, pz, angle, x, ys + i)),
                )
            },
            None => Seq::empty(),
        }
    }
}

/// The commands the columns `[from, to)` of a wall rasterization append.
pub open spec fn wall_cols_range(
    cycle: u32,
    surface: Option<Surface>,
    sp0: Seq<i32>,
    x1: int,
    x2: int,
    b1: int,
    b2: int,
    t1: int,
    t2: int,
    u: int,
    v: int,
    texture: Option<Texture>,
    surface_texture: Option<Texture>,
    px: int,
    py: int,
    pz: int,
    angle: int,
    from: int,
    to: int,
) -> Seq<DrawCmd>
    decreases to - from,
{
    if from >= to {
        Seq::empty()
    } else {
        wall_col_cmds(
            cycle,
            surface,
            sp0,
            x1,
            x2,
            b1,
            b2,
            t1,
            t2,
            u,
            v,
            texture,
            surface_texture,
            px,
            py,
            pz,
            angle,
            from,
        ) + wall_cols_range(
            cycle,
            surface,
            sp0,
            x1,
            x2,
            b1,
            b2,
            t1,
            t2,
            u,
            v,
            texture,
            surface_texture,
            px,
            py,
            pz,
            angle,
            from + 1,
            to,
        )
    }
}

/// Extending a wall column range by one column on the right.
proof fn lemma_wall_cols_extend(
    cycle: u32,
    surface: Option<Surface>,
    sp0: Seq<i32>,
    x1: int,
    x2: int,
    b1: int,
    b2: int,
    t1: int,
    t2: int,
    u: int,
    v: int,
    texture: Option<Texture>,
    surface_texture: Option<Texture>,
    px: int,
    py: int,
    pz: int,
    angle: int,
    from: int,
    to: int,
)
    requires
        from <= to,
    ensures
        wall_cols_range(
            cycle,
            surface,
            sp0,
            x1,
            x2,
            b1,
            b2,
            t1,
            t2,
            u,
            v,
            texture,
            surface_texture,
            px,
            py,
            pz,
            angle,
            from,
            to + 1,
        ) == wall_cols_range(
            cycle,
            surface,
            sp0,
            x1,
            x2,
            b1,
            b2,
            t1,
            t2,
            u,
            v,
            texture,
            surface_texture,
            px,
            py,
            pz,
            angle,
            from,
            to,
        ) + wall_col_cmds(
            cycle,
            surface,
            sp0,
            x1,
            x2,
            b1,
            b2,
            t1,
            t2,
            u,
            v,
            texture,
            surface_texture,
            px,
            py,
            pz,
            angle,
            to,
        ),
    decreases to - from,
{
    let col = |c: int|
        wall_col_cmds(
            cycle,
            surface,
            sp0,
            x1,
            x2,
            b1,
            b2,
            t1,
            t2,
            u,
            v,
            texture,
            surface_texture,
            px,
            py,
            pz,
            angle,
            c,
        );
    let range = |a: int, b: int|
        wall_cols_range(
            cycle,
            surface,
            sp0,
            x1,
            x2,
            b1,
            b2,
            t1,
            t2,
            u,
            v,
            texture,
            surface_texture,
            px,
            py,
            pz,
            angle,
            a,
            b,
        );
    if from >= to {
        assert(range(from + 1, to + 1) =~= Seq::empty());
        assert(range(from, to + 1) =~= col(from) + Seq::empty());
        assert(range(from, to) + col(to) =~= col(from));
    } else {
        lemma_wall_cols_extend(
            cycle,
            surface,
            sp0,
            x1,
            x2,
            b1,
            b2,
            t1,
            t2,
            u,
            v,
            texture,
            surface_texture,
            px,
            py,
            pz,
            angle,
            from + 1,
            to,
        );
        assert(range(from, to + 1) =~= range(from, to) + col(to));
    }
}

/// Each command a wall rasterization appends: a dot inside the screen
/// whose color is the exact texture sample at its own position -- the
/// affine wall sample on the capture cycle, the perspective-correct
/// surface sample on the fill cycle.
pub open spec fn wall_cmd_ok(
    c: DrawCmd,
    cycle: u32,
    u: int,
    v: int,
    x1: int,
    x2: int,
    b1: int,
    b2: int,
    t1: int,
    t2: int,
    texture: Option<Texture>,
    surface_texture: Option<Texture>,
    px: int,
    py: int,
    pz: int,
    angle: int,
) -> bool {
    match c {
        DrawCmd::Dot { x, y, color } => {
            &&& 0 <= x < SCREEN_WIDTH
            &&& 0 <= y < SCREEN_HEIGHT
            &&& (cycle == 0 ==> match texture {
                Some(t) => color == spec_wall_pixel(
                    t,
                    u,
                    v,
                    x1,
                    x2,
                    col_y(b1, b2, x1, x2, x as int),
                    col_y(t1, t2, x1, x2, x as int),
                    x as int,
                    y as int,
                ),
                None => false,
            })
            &&& (cycle == 1 ==> match surface_texture {
                Some(t) => color == spec_floor_pixel(t, px, py, pz, angle, x as int, y as int),
                None => false,
            })
        },
        DrawCmd::Rect { .. } => false,
    }
}

/// Which surface of a sector is visible this frame: the floor when the
/// player stands below it, the ceiling when above it, neither otherwise.
pub open spec fn sector_surface(pz: int, s: Sector) -> Option<Surface> {
    if pz < s.bottom_height {
        Some(Surface::BottomScan)
    } else if pz > s.top_height {
        Some(Surface::TopScan)
    } else {
        None
    }
}

/// The scratch buffer at the start of a sector: prefilled with the screen
/// height when capturing the floor (columns no wall touches extend to the
/// bottom), with zero when capturing the ceiling, and untouched when no
/// surface is visible.
pub open spec fn prefill_points(surface: Option<Surface>, sp: Seq<i32>) -> Seq<i32> {
    match surface {
        Some(Surface::BottomScan) => Seq::new(SCREEN_WIDTH as nat, |k: int| SCREEN_HEIGHT as i32),
        Some(Surface::TopScan) => Seq::new(SCREEN_WIDTH as nat, |k: int| 0i32),
        None => sp,
    }
}

/// The bank entry behind an optional texture index; an absent or
/// out-of-bank index resolves to no texture.
pub open spec fn resolve_texture(bank: Seq<Texture>, idx: Option<u32>) -> Option<Texture> {
    match idx {
        Some(i) => if (i as int) < bank.len() {
            Some(bank[i as int])
        } else {
            None
        },
        None => None,
    }
}

/// A wall's endpoints in camera space: translated by the player position,
/// exchanged on the back-face cycle, and rotated by the view angle. The
/// result is `(x1, depth1, x2, depth2)`.
pub open spec fn wall_camera(w: Wall, cycle: u32, px: int, py: int, angle: int) -> (
    int,
    int,
    int,
    int,
) {
    let ax1 = if cycle == 1 {
        w.x2 as int - px
    } else {
        w.x1 as int - px
    };
    let ay1 = if cycle == 1 {
        w.y2 as int - py
    } else {
        w.y1 as int - py
    };
    let ax2 = if cycle == 1 {
        w.x1 as int - px
    } else {
        w.x2 as int - px
    };
    let ay2 = if cycle == 1 {
        w.y1 as int - py
    } else {
        w.y2 as int - py
    };
    (
        spec_world_x(ax1, ay1, angle),
        spec_world_y(ax1, ay1, angle),
        spec_world_x(ax2, ay2, angle),
        spec_world_y(ax2, ay2, angle),
    )
}

/// A wall's six projected screen coordinates
/// `(x1, x2, bottom1, bottom2, top1, top2)`, after clipping a
/// behind-camera endpoint against the near plane.
pub open spec fn wall_screen_coords(
    w: Wall,
    s: Sector,
    cycle: u32,
    px: int,
    py: int,
    pz: int,
    angle: int,
) -> (int, int, int, int, int, int) {
    let cam = wall_camera(w, cycle, px, py, angle);
    let wx1 = cam.0;
    let wy1 = cam.1;
    let wx2 = cam.2;
    let wy2 = cam.3;
    let zb = s.bottom_height as int - pz;
    let zt = s.top_height as int - pz;
    let cx1 = if wy1 <= 0 {
        spec_clip_behind(wx1, wy1, zb, wx2, wy2, zb).0
    } else {
        wx1
    };
    let cy1 = if wy1 <= 0 {
        1int
    } else {
        wy1
    };
    let czb1 = if wy1 <= 0 {
        spec_clip_behind(wx1, wy1, zb, wx2, wy2, zb).2
    } else {
        zb
    };
    let czt1 = if wy1 <= 0 {
        spec_clip_behind(wx1, wy1, zt, wx2, wy2, zt).2
    } else {
        zt
    };
    let cx2 = if wy2 <= 0 {
        spec_clip_behind(wx2, wy2, zb, wx1, wy1, zb).0
    } else {
        wx2
    };
    let cy2 = if wy2 <= 0 {
        1int
    } else {
        wy2
    };
    let czb2 = if wy2 <= 0 {
        spec_clip_behind(wx2, wy2, zb, wx1, wy1, zb).2
    } else {
        zb
    };
    let czt2 = if wy2 <= 0 {
        spec_clip_behind(wx2, wy2, zt, wx1, wy1, zt).2
    } else {
        zt
    };
    (
        spec_project(cx1, cy1, HALF_WIDTH as int),
        spec_project(cx2, cy2, HALF_WIDTH as int),
        spec_project(czb1, cy1, HALF_HEIGHT as int),
        spec_project(czb2, cy2, HALF_HEIGHT as int),
        spec_project(czt1, cy1, HALF_HEIGHT as int),
        spec_project(czt2, cy2, HALF_HEIGHT as int),
    )
}

/// The scratch buffer after one wall of the capture cycle: the clipped
/// span records the clipped wall edge, per `draw_wall`; nothing changes
/// on the fill cycle.
pub open spec fn wall_sp_after(
    sp: Seq<i32>,
    cycle: u32,
    surface: Option<Surface>,
    sx1: int,
    sx2: int,
    sb1: int,
    sb2: int,
    st1: int,
    st2: int,
) -> Seq<i32> {
    if cycle == 0 {
        match surface {
            Some(Surface::BottomScan) => Seq::new(
                sp.len(),
                |k: int|
                    if clampi(sx1, 0, SCREEN_WIDTH as int) <= k < clampi(
                        sx2,
                        0,
                        SCREEN_WIDTH as int,
                    ) {
                        clampi(col_y(sb1, sb2, sx1, sx2, k), 0, SCREEN_HEIGHT as int) as i32
                    } else {
                        sp[k]
                    },
            ),
            Some(Surface::TopScan) => Seq::new(
                sp.len(),
                |k: int|
                    if clampi(sx1, 0, SCREEN_WIDTH as int) <= k < clampi(
                        sx2,
                        0,
                        SCREEN_WIDTH as int,
                    ) {
                        clampi(col_y(st1, st2, sx1, sx2, k), 0, SCREEN_HEIGHT as int) as i32
                    } else {
                        sp[k]
                    },
            ),
            None => sp,
        }
    } else {
        sp
    }
}

/// One wall of one cycle: the commands it appends and the scratch buffer
/// it leaves. A wall entirely behind the camera is skipped.
pub open spec fn wall_step(
    w: Wall,
    s: Sector,
    sp: Seq<i32>,
    cycle: u32,
    surface: Option<Surface>,
    bank: Seq<Texture>,
    px: int,
    py: int,
    pz: int,
    angle: int,
) -> (Seq<DrawCmd>, Seq<i32>) {
    let cam = wall_camera(w, cycle, px, py, angle);
    if cam.1 <= 0 && cam.3 <= 0 {
        (Seq::empty(), sp)
    } else {
        let sc = wall_screen_coords(w, s, cycle, px, py, pz, angle);
        (
            wall_cols_range(
                cycle,
                surface,
                sp,
                sc.0,
                sc.1,
                sc.2,
                sc.3,
                sc.4,
                sc.5,
                w.u as int,
                w.v as int,
                resolve_texture(bank, w.texture),
                resolve_texture(bank, s.surface_texture),
                px,
                py,
                pz,
                angle,
                clampi(sc.0, 0, SCREEN_WIDTH as int),
                clampi(sc.1, 0, SCREEN_WIDTH as int),
            ),
            wall_sp_after(sp, cycle, surface, sc.0, sc.1, sc.2, sc.3, sc.4, sc.5),
        )
    }
}

/// The walls `[from, to)` of one cycle, in order, threading the scratch
/// buffer from wall to wall.
pub open spec fn walls_range_step(
    walls: Seq<Wall>,
    s: Sector,
    sp: Seq<i32>,
    cycle: u32,
    surface: Option<Surface>,
    bank: Seq<Texture>,
    px: int,
    py: int,
    pz: int,
    angle: int,
    from: int,
    to: int,
) -> (Seq<DrawCmd>, Seq<i32>)
    decreases to - from,
{
    if from >= to {
        (Seq::empty(), sp)
    } else {
        let h = wall_step(walls[from], s, sp, cycle, surface, bank, px, py, pz, angle);
        let r = walls_range_step(
            walls,
            s,
            h.1,
            cycle,
            surface,
            bank,
            px,
            py,
            pz,
            angle,
            from + 1,
            to,
        );
        (h.0 + r.0, r.1)
    }
}

/// Extending a wall range by one wall on the right.
proof fn lemma_walls_range_extend(
    walls: Seq<Wall>,
    s: Sector,
    sp: Seq<i32>,
    cycle: u32,
    surface: Option<Surface>,
    bank: Seq<Texture>,
    px: int,
    py: int,
    pz: int,
    angle: int,
    from: int,
    to: int,
)
    requires
        from <= to,
    ensures
        ({
            let r = walls_range_step(walls, s, sp, cycle, surface, bank, px, py, pz, angle, from, to);
            let h = wall_step(walls[to], s, r.1, cycle, surface, bank, px, py, pz, angle);
            let e = walls_range_step(
                walls,
                s,
                sp,
                cycle,
                surface,
                bank,
                px,
                py,
                pz,
                angle,
                from,
                to + 1,
            );
            e.0 == r.0 + h.0 && e.1 == h.1
        }),
    decreases to - from,
{
    if from >= to {
        let h = wall_step(walls[to], s, sp, cycle, surface, bank, px, py, pz, angle);
        let e = walls_range_step(
            walls,
            s,
            sp,
            cycle,
            surface,
            bank,
            px,
            py,
            pz,
            angle,
            from,
            to + 1,
        );
        assert(walls_range_step(
            walls,
            s,
            h.1,
            cycle,
            surface,
            bank,
            px,
            py,
            pz,
            angle,
            from + 1,
            to + 1,
        ).0 =~= Seq::empty());
        assert(e.0 =~= Seq::empty() + h.0);
        assert(e.0 =~= h.0);
    } else {
        let h0 = wall_step(walls[from], s, sp, cycle, surface, bank, px, py, pz, angle);
        lemma_walls_range_extend(
            walls,
            s,
            h0.1,
            cycle,
            surface,
            bank,
            px,
            py,
            pz,
            angle,
            from + 1,
            to,
        );
        let r = walls_range_step(walls, s, sp, cycle, surface, bank, px, py, pz, angle, from, to);
        let h = wall_step(walls[to], s, r.1, cycle, surface, bank, px, py, pz, angle);
        let e = walls_range_step(
            walls,
            s,
            sp,
            cycle,
            surface,
            bank,
            px,
            py,
            pz,
            angle,
            from,
            to + 1,
        );
        assert(e.0 =~= r.0 + h.0);
    }
}

/// One sector of the frame: the surface-mode decision, the prefill, the
/// capture cycle over its walls, and -- when a surface is visible -- the
/// fill cycle over the same walls with exchanged endpoints.
pub open spec fn sector_step(
    walls: Seq<Wall>,
    s: Sector,
    sp: Seq<i32>,
    bank: Seq<Texture>,
    px: int,
    py: int,
    pz: int,
    angle: int,
) -> (Seq<DrawCmd>, Seq<i32>) {
    let surface = sector_surface(pz, s);
    let sp1 = prefill_points(surface, sp);
    let c0 = walls_range_step(
        walls,
        s,
        sp1,
        0,
        surface,
        bank,
        px,
        py,
        pz,
        angle,
        s.wall_start as int,
        s.wall_end as int,
    );
    if surface is Some {
        let c1 = walls_range_step(
            walls,
            s,
            c0.1,
            1,
            surface,
            bank,
            px,
            py,
            pz,
            angle,
            s.wall_start as int,
            s.wall_end as int,
        );
        (c0.0 + c1.0, c1.1)
    } else {
        c0
    }
}

/// The first `upto` sectors of the frame, in draw order, threading the
/// scratch buffer from sector to sector.
pub open spec fn frame_emit(
    sectors: Seq<Sector>,
    upto: int,
    walls: Seq<Wall>,
    sp: Seq<i32>,
    bank: Seq<Texture>,
    px: int,
    py: int,
    pz: int,
    angle: int,
) -> (Seq<DrawCmd>, Seq<i32>)
    decreases upto,
{
    if upto <= 0 {
        (Seq::empty(), sp)
    } else {
        let r = frame_emit(sectors, upto - 1, walls, sp, bank, px, py, pz, angle);
        let st = sector_step(walls, sectors[upto - 1], r.1, bank, px, py, pz, angle);
        (r.0 + st.0, st.1)
    }
}

/// The per-column scratch buffer holds one boundary per screen column,
/// The per-column scratch buffer holds one boundary per screen column,
/// each within the screen height.
pub open spec fn surface_points_wf(sp: Seq<i32>) -> bool {
    &&& sp.len() == SCREEN_WIDTH
    &&& forall|k: int| 0 <= k < sp.len() ==> 0 <= #[trigger] sp[k] <= SCREEN_HEIGHT
}

impl Renderer {
    /// Rasterizes one wall span, column by column. On the capture cycle
    /// the clipped wall edge is recorded per column into the scratch
    /// buffer (the portal boundary between wall and surface) and the wall
    /// face is drawn with affine texture sampling; on the second cycle the
    /// captured boundaries delimit a perspective-correct floor or ceiling
    /// cast. Every emitted command is a dot inside the screen.
    #[verifier::rlimit(80)]
    pub fn draw_wall(
        &mut self,
        player: &PlayerInfo,
        x1: i64,
        x2: i64,
        b1: i64,
        b2: i64,
        t1: i64,
        t2: i64,
        cycle: u32,
        u: i32,
        v: i32,
        surface: Option<Surface>,
        surface_points: &mut Vec<i32>,
        texture: Option<&Texture>,
        surface_texture: Option<&Texture>,
    )
        requires
            player_wf(*player),
            -MAP_LIMIT <= u <= MAP_LIMIT,
            -MAP_LIMIT <= v <= MAP_LIMIT,
            cycle <= 1,
            surface_points_wf(old(surface_points)@),
            -6_000_000_000 <= x1 <= 6_000_000_000,
            -6_000_000_000 <= x2 <= 6_000_000_000,
            -6_000_000_000 <= b1 <= 6_000_000_000,
            -6_000_000_000 <= b2 <= 6_000_000_000,
            -6_000_000_000 <= t1 <= 6_000_000_000,
            -6_000_000_000 <= t2 <= 6_000_000_000,
            match texture {
                Some(t) => tex_ok(*t),
                None => true,
            },
            match surface_texture {
                Some(t) => tex_ok(*t),
                None => true,
            },
        ensures
            surface_points_wf(final(surface_points)@),
            final(self).draw_mode == old(self).draw_mode,
            old(self).cmds@.len() <= final(self).cmds@.len(),
            forall|k: int|
                0 <= k < old(self).cmds@.len() ==> final(self).cmds@[k] == old(self).cmds@[k],
            cmds_in_screen(final(self).cmds@, old(self).cmds@.len() as int),
            forall|k: int|
                old(self).cmds@.len() <= k < final(self).cmds@.len() ==> wall_cmd_ok(
                    #[trigger] final(self).cmds@[k],
                    cycle,
                    u as int,
                    v as int,
                    x1 as int,
                    x2 as int,
                    b1 as int,
                    b2 as int,
                    t1 as int,
                    t2 as int,
                    opt_tex(texture),
                    opt_tex(surface_texture),
                    player.position.x as int,
                    player.position.y as int,
                    player.position.z as int,
                    player.angle_h as int,
                ),
            final(self).cmds@ == old(self).cmds@ + wall_cols_range(
                cycle,
                surface,
                old(surface_points)@,
                x1 as int,
                x2 as int,
                b1 as int,
                b2 as int,
                t1 as int,
                t2 as int,
                u as int,
                v as int,
                opt_tex(texture),
                opt_tex(surface_texture),
                player.position.x as int,
                player.position.y as int,
                player.position.z as int,
                player.angle_h as int,
                clampi(x1 as int, 0, SCREEN_WIDTH as int),
                clampi(x2 as int, 0, SCREEN_WIDTH as int),
            ),
            forall|k: int|
                0 <= k < SCREEN_WIDTH && !(clampi(x1 as int, 0, SCREEN_WIDTH as int) <= k < clampi(
                    x2 as int,
                    0,
                    SCREEN_WIDTH as int,
                )) ==> final(surface_points)@[k] == old(surface_points)@[k],
            cycle == 1 ==> final(surface_points)@ == old(surface_points)@,
            cycle == 0 && surface is None ==> final(surface_points)@ == old(surface_points)@,
            cycle == 0 && surface == Some(Surface::BottomScan) ==> forall|k: int|
                clampi(x1 as int, 0, SCREEN_WIDTH as int) <= k < clampi(
                    x2 as int,
                    0,
                    SCREEN_WIDTH as int,
                ) ==> final(surface_points)@[k] == clampi(
                    col_y(b1 as int, b2 as int, x1 as int, x2 as int, k),
                    0,
                    SCREEN_HEIGHT as int,
                ),
            cycle == 0 && surface == Some(Surface::TopScan) ==> forall|k: int|
                clampi(x1 as int, 0, SCREEN_WIDTH as int) <= k < clampi(
                    x2 as int,
                    0,
                    SCREEN_WIDTH as int,
                ) ==> final(surface_points)@[k] == clampi(
                    col_y(t1 as int, t2 as int, x1 as int, x2 as int, k),
                    0,
                    SCREEN_HEIGHT as int,
                ),
    {
        let x1c = Self::clip_width(x1);
        let x2c = Self::clip_width(x2);
        let ghost base = self.cmds@;
        let ghost sp0 = old(surface_points)@;
        let mut x = x1c;
        while x < x2c
            invariant
                x1c <= x <= x2c || x == x1c,
                x1c == clampi(x1 as int, 0, SCREEN_WIDTH as int),
                x2c == clampi(x2 as int, 0, SCREEN_WIDTH as int),
                x1c < x2c ==> x1 < x2,
                0 <= x1c <= SCREEN_WIDTH,
                0 <= x2c <= SCREEN_WIDTH,
                x1c <= x,
                player_wf(*player),
                cycle <= 1,
                -MAP_LIMIT <= u <= MAP_LIMIT,
                -MAP_LIMIT <= v <= MAP_LIMIT,
                -6_000_000_000 <= x1 <= 6_000_000_000,
                -6_000_000_000 <= x2 <= 6_000_000_000,
                -6_000_000_000 <= b1 <= 6_000_000_000,
                -6_000_000_000 <= b2 <= 6_000_000_000,
                -6_000_000_000 <= t1 <= 6_000_000_000,
                -6_000_000_000 <= t2 <= 6_000_000_000,
                match texture {
                    Some(t) => tex_ok(*t),
                    None => true,
                },
                match surface_texture {
                    Some(t) => tex_ok(*t),
                    None => true,
                },
                surface_points_wf(surface_points@),
                sp0 == old(surface_points)@,
                base == old(self).cmds@,
                base.len() <= self.cmds@.len(),
                forall|k: int| 0 <= k < base.len() ==> self.cmds@[k] == base[k],
                cmds_in_screen(self.cmds@, base.len() as int),
                forall|k: int|
                    base.len() <= k < self.cmds@.len() ==> wall_cmd_ok(
                        #[trigger] self.cmds@[k],
                        cycle,
                        u as int,
                        v as int,
                        x1 as int,
                        x2 as int,
                        b1 as int,
                        b2 as int,
                        t1 as int,
                        t2 as int,
                        opt_tex(texture),
                        opt_tex(surface_texture),
                        player.position.x as int,
                        player.position.y as int,
                        player.position.z as int,
                        player.angle_h as int,
                    ),
                self.cmds@ == base + wall_cols_range(
                    cycle,
                    surface,
                    sp0,
                    x1 as int,
                    x2 as int,
                    b1 as int,
                    b2 as int,
                    t1 as int,
                    t2 as int,
                    u as int,
                    v as int,
                    opt_tex(texture),
                    opt_tex(surface_texture),
                    player.position.x as int,
                    player.position.y as int,
                    player.position.z as int,
                    player.angle_h as int,
                    x1c as int,
                    x as int,
                ),
                self.draw_mode == old(self).draw_mode,
                forall|k: int|
                    0 <= k < SCREEN_WIDTH && !(x1c <= k < x) ==> surface_points@[k] == sp0[k],
                cycle == 1 ==> surface_points@ == sp0,
                cycle == 0 && surface is None ==> surface_points@ == sp0,
                cycle == 0 && surface == Some(Surface::BottomScan) ==> forall|k: int|
                    x1c <= k < x ==> surface_points@[k] == clampi(
                        col_y(b1 as int, b2 as int, x1 as int, x2 as int, k),
                        0,
                        SCREEN_HEIGHT as int,
                    ),
                cycle == 0 && surface == Some(Surface::TopScan) ==> forall|k: int|
                    x1c <= k < x ==> surface_points@[k] == clampi(
                        col_y(t1 as int, t2 as int, x1 as int, x2 as int, k),
                        0,
                        SCREEN_HEIGHT as int,
                    ),
            decreases x2c - x,
        {
            proof {
                assert(x1 <= x < x2);
                assert(0 < 2 * (x as int - x1 as int) + 1 < 2 * (x2 as int - x1 as int));
            }
            let fac = 2 * (x - x1) + 1;
            let den = 2 * (x2 - x1);
            proof {
                assert(-300_000_000_000_000_000_000 <= ((b2 - b1) as int) * (fac as int) && ((b2
                    - b1) as int) * (fac as int) <= 300_000_000_000_000_000_000
                    && -300_000_000_000_000_000_000 <= ((t2 - t1) as int) * (fac as int) && ((t2
                    - t1) as int) * (fac as int) <= 300_000_000_000_000_000_000)
                    by (nonlinear_arith)
                    requires
                        -12_000_000_000 <= (b2 - b1) as int <= 12_000_000_000,
                        -12_000_000_000 <= (t2 - t1) as int <= 12_000_000_000,
                        0 <= fac as int <= 24_000_000_001,
                ;
                assert((fac as int) * ((b2 - b1) as int) == ((b2 - b1) as int) * (fac as int) && (
                fac as int) * ((t2 - t1) as int) == ((t2 - t1) as int) * (fac as int))
                    by (nonlinear_arith);
                lemma_tdiv_mul_bound(fac as int, (b2 - b1) as int, den as int);
                lemma_tdiv_mul_bound(fac as int, (t2 - t1) as int, den as int);
            }
            let yb_raw = b1 + div_trunc128(((b2 - b1) as i128) * (fac as i128), den as i128) as i64;
            let yt_raw = t1 + div_trunc128(((t2 - t1) as i128) * (fac as i128), den as i128) as i64;
            let mut ybc = Self::clip_height(yb_raw);
            let mut ytc = Self::clip_height(yt_raw);
            proof {
                assert(yb_raw == col_y(b1 as int, b2 as int, x1 as int, x2 as int, x as int));
                assert(yt_raw == col_y(t1 as int, t2 as int, x1 as int, x2 as int, x as int));
            }
            let ghost colbase = self.cmds@;
            let ghost colseq = wall_col_cmds(
                cycle,
                    surface,
                    sp0,
                    x1 as int,
                    x2 as int,
                    b1 as int,
                    b2 as int,
                    t1 as int,
                    t2 as int,
                    u as int,
                    v as int,
                    opt_tex(texture),
                    opt_tex(surface_texture),
                    player.position.x as int,
                    player.position.y as int,
                    player.position.z as int,
                    player.angle_h as int,
                x as int,
            );
            if cycle == 0 {
                match surface {
                    Some(Surface::BottomScan) => {
                        surface_points[x as usize] = ybc as i32;
                    },
                    Some(Surface::TopScan) => {
                        surface_points[x as usize] = ytc as i32;
                    },
                    None => {},
                }
                match texture {
                    Some(tex) => {
                        if ybc < ytc {
                            proof {
                                assert(ytc <= yt_raw);
                                assert(ybc >= yb_raw);
                                assert(yb_raw < yt_raw);
                            }
                            let mut y = ybc;
                            while y < ytc
                                invariant
                                    ybc <= y <= ytc,
                                    0 <= ybc <= SCREEN_HEIGHT,
                                    0 <= ytc <= SCREEN_HEIGHT,
                                    yb_raw < yt_raw,
                                    ybc >= yb_raw,
                                    ytc <= yt_raw,
                                    -12_000_000_000 <= yb_raw <= 12_000_000_000,
                                    -12_000_000_000 <= yt_raw <= 12_000_000_000,
                                    x1 <= x < x2,
                                    -12_000_000_000 <= x1 && x2 <= 12_000_000_000,
                                    0 <= x < SCREEN_WIDTH,
                                    -MAP_LIMIT <= u <= MAP_LIMIT,
                                    -MAP_LIMIT <= v <= MAP_LIMIT,
                                    tex_ok(*tex),
                                    cycle == 0,
                                    texture == Some(tex),
                                    yb_raw == col_y(b1 as int, b2 as int, x1 as int, x2 as int, x as int),
                                    yt_raw == col_y(t1 as int, t2 as int, x1 as int, x2 as int, x as int),
                                    base.len() <= self.cmds@.len(),
                                    forall|k: int|
                                        0 <= k < base.len() ==> self.cmds@[k] == base[k],
                                    cmds_in_screen(self.cmds@, base.len() as int),
                                                    forall|k: int|
                    base.len() <= k < self.cmds@.len() ==> wall_cmd_ok(
                                        #[trigger] self.cmds@[k],
                                        cycle,
                                        u as int,
                                        v as int,
                                        x1 as int,
                                        x2 as int,
                                        b1 as int,
                                        b2 as int,
                                        t1 as int,
                                        t2 as int,
                                        opt_tex(texture),
                                        opt_tex(surface_texture),
                                        player.position.x as int,
                                        player.position.y as int,
                                        player.position.z as int,
                                        player.angle_h as int,
                                        ),
                                    ybc == clampi(yb_raw as int, 0, SCREEN_HEIGHT as int),
                                    ytc == clampi(yt_raw as int, 0, SCREEN_HEIGHT as int),
                                    colseq.len() == ytc - ybc,
                                    forall|i: int|
                                        0 <= i < colseq.len() ==> #[trigger] colseq[i] == dot_at(
                                            x as int,
                                            ybc + i,
                                            spec_wall_pixel(
                                                *tex,
                                                u as int,
                                                v as int,
                                                x1 as int,
                                                x2 as int,
                                                yb_raw as int,
                                                yt_raw as int,
                                                x as int,
                                                ybc + i,
                                            ),
                                        ),
                                    self.cmds@ == colbase + colseq.take(y - ybc),
                                    self.draw_mode == old(self).draw_mode,
                                decreases ytc - y,
                            {
                                let c = sample_wall_pixel(tex, u, v, x1, x2, yb_raw, yt_raw, x, y);
                                self.cmds.push(
                                    DrawCmd::Dot { x: x as i32, y: y as i32, color: c },
                                );
                                proof {
                                    assert(colseq[y - ybc] == dot_at(
                                        x as int,
                                        y as int,
                                        spec_wall_pixel(
                                            *tex,
                                            u as int,
                                            v as int,
                                            x1 as int,
                                            x2 as int,
                                            yb_raw as int,
                                            yt_raw as int,
                                            x as int,
                                            y as int,
                                        ),
                                    ));
                                    assert(self.cmds@ =~= colbase + colseq.take(y + 1 - ybc));
                                }
                                y = y + 1;
                            }
                            proof {
                                assert(colseq.take(ytc - ybc) =~= colseq);
                                assert(self.cmds@ =~= colbase + colseq);
                            }
                        } else {
                            proof {
                                assert(colseq =~= Seq::empty());
                            }
                        }
                    },
                    None => {
                        proof {
                            assert(colseq =~= Seq::empty());
                        }
                    },
                }
            } else {
                let mut ys = ybc;
                let mut ye = ytc;
                match surface {
                    Some(Surface::BottomScan) => {
                        ye = surface_points[x as usize] as i64;
                    },
                    Some(Surface::TopScan) => {
                        ys = surface_points[x as usize] as i64;
                    },
                    None => {},
                }
                proof {
                    assert(surface_points@ == sp0);
                    assert(ys as int == (if surface == Some(Surface::TopScan) {
                        sp0[x as int] as int
                    } else {
                        clampi(
                            col_y(b1 as int, b2 as int, x1 as int, x2 as int, x as int),
                            0,
                            SCREEN_HEIGHT as int,
                        )
                    }));
                    assert(ye as int == (if surface == Some(Surface::BottomScan) {
                        sp0[x as int] as int
                    } else {
                        clampi(
                            col_y(t1 as int, t2 as int, x1 as int, x2 as int, x as int),
                            0,
                            SCREEN_HEIGHT as int,
                        )
                    }));
                }
                match surface_texture {
                    Some(tex) => {
                        proof {
                            assert(colseq.len() == if ys < ye {
                                ye - ys
                            } else {
                                0int
                            });
                        }
                        let mut y = ys;
                        while y < ye
                            invariant
                                ys <= y <= ye || y == ys,
                                0 <= ys <= SCREEN_HEIGHT,
                                0 <= ye <= SCREEN_HEIGHT,
                                y >= 0,
                                0 <= x < SCREEN_WIDTH,
                                tex_ok(*tex),
                                player_wf(*player),
                                cycle == 1,
                                surface_texture == Some(tex),
                                colseq.len() == (if ys < ye {
                                    ye - ys
                                } else {
                                    0int
                                }),
                                forall|i: int|
                                    0 <= i < colseq.len() ==> #[trigger] colseq[i] == dot_at(
                                        x as int,
                                        ys + i,
                                        spec_floor_pixel(
                                            *tex,
                                            player.position.x as int,
                                            player.position.y as int,
                                            player.position.z as int,
                                            player.angle_h as int,
                                            x as int,
                                            ys + i,
                                        ),
                                    ),
                                self.cmds@ == colbase + colseq.take(y - ys),
                                base.len() <= self.cmds@.len(),
                                forall|k: int|
                                    0 <= k < base.len() ==> self.cmds@[k] == base[k],
                                cmds_in_screen(self.cmds@, base.len() as int),
                                            forall|k: int|
                    base.len() <= k < self.cmds@.len() ==> wall_cmd_ok(
                                    #[trigger] self.cmds@[k],
                                    cycle,
                                    u as int,
                                    v as int,
                                    x1 as int,
                                    x2 as int,
                                    b1 as int,
                                    b2 as int,
                                    t1 as int,
                                    t2 as int,
                                    opt_tex(texture),
                                    opt_tex(surface_texture),
                                    player.position.x as int,
                                    player.position.y as int,
                                    player.position.z as int,
                                    player.angle_h as int,
                                    ),
                                self.draw_mode == old(self).draw_mode,
                            decreases ye - y,
                        {
                            let c = sample_floor_pixel(
                                tex,
                                player.position.x,
                                player.position.y,
                                player.position.z,
                                player.angle_h,
                                x,
                                y,
                            );
                            self.cmds.push(DrawCmd::Dot { x: x as i32, y: y as i32, color: c });
                            proof {
                                assert(colseq[y - ys] == dot_at(
                                    x as int,
                                    y as int,
                                    spec_floor_pixel(
                                        *tex,
                                        player.position.x as int,
                                        player.position.y as int,
                                        player.position.z as int,
                                        player.angle_h as int,
                                        x as int,
                                        y as int,
                                    ),
                                ));
                                assert(self.cmds@ =~= colbase + colseq.take(y + 1 - ys));
                            }
                            y = y + 1;
                        }
                        proof {
                            if ys < ye {
                                assert(colseq.take(ye - ys) =~= colseq);
                            } else {
                                assert(colseq =~= Seq::empty());
                            }
                            assert(self.cmds@ =~= colbase + colseq);
                        }
                    },
                    None => {
                        proof {
                            assert(colseq =~= Seq::empty());
                        }
                    },
                }
            }
            proof {
                assert(self.cmds@ =~= colbase + colseq);
                lemma_wall_cols_extend(
                    cycle,
                    surface,
                    sp0,
                    x1 as int,
                    x2 as int,
                    b1 as int,
                    b2 as int,
                    t1 as int,
                    t2 as int,
                    u as int,
                    v as int,
                    opt_tex(texture),
                    opt_tex(surface_texture),
                    player.position.x as int,
                    player.position.y as int,
                    player.position.z as int,
                    player.angle_h as int,
                    x1c as int,
                    x as int,
                );
                assert(self.cmds@ =~= base + wall_cols_range(
                    cycle,
                    surface,
                    sp0,
                    x1 as int,
                    x2 as int,
                    b1 as int,
                    b2 as int,
                    t1 as int,
                    t2 as int,
                    u as int,
                    v as int,
                    opt_tex(texture),
                    opt_tex(surface_texture),
                    player.position.x as int,
                    player.position.y as int,
                    player.position.z as int,
                    player.angle_h as int,
                    x1c as int,
                    x + 1,
                ));
            }
            x = x + 1;
        }
    }
}


/// The transparent color key: fully clear black pixels of the overlay are
/// skipped.
pub open spec fn clear_pixel() -> Rgba {
    spec_rgba(0, 0, 0, 0)
}

/// The commands of one overlay pixel: a single dot unless the sample is
/// color-keyed transparent or the pixel lies in the viewport notch.
pub open spec fn gun_row_cmd(gun: Texture, x: int, y: int) -> Seq<DrawCmd> {
    if spec_gun_pixel(gun, x, y) != clear_pixel() && !(x > 784 && y < 504) {
        seq![dot_at(x, y, spec_gun_pixel(gun, x, y))]
    } else {
        Seq::empty()
    }
}

/// The overlay commands of the rows `[y0, y1)` of one column.
pub open spec fn gun_rows_range(gun: Texture, x: int, y0: int, y1: int) -> Seq<DrawCmd>
    decreases y1 - y0,
{
    if y0 >= y1 {
        Seq::empty()
    } else {
        gun_row_cmd(gun, x, y0) + gun_rows_range(gun, x, y0 + 1, y1)
    }
}

/// The overlay commands of the columns `[x0, x1)`, each column spanning
/// the lower half of the screen.
pub open spec fn gun_cols_range(gun: Texture, x0: int, x1: int) -> Seq<DrawCmd>
    decreases x1 - x0,
{
    if x0 >= x1 {
        Seq::empty()
    } else {
        gun_rows_range(gun, x0, HALF_HEIGHT as int, SCREEN_HEIGHT as int) + gun_cols_range(
            gun,
            x0 + 1,
            x1,
        )
    }
}

/// The whole weapon overlay: columns 672 to 1008 over the lower half of
/// the screen.
pub open spec fn overlay_cmds(gun: Texture) -> Seq<DrawCmd> {
    gun_cols_range(gun, 672, 1008)
}

/// Extending an overlay row range by one row at the bottom.
proof fn lemma_gun_rows_extend(gun: Texture, x: int, y0: int, y1: int)
    requires
        y0 <= y1,
    ensures
        gun_rows_range(gun, x, y0, y1 + 1) == gun_rows_range(gun, x, y0, y1) + gun_row_cmd(
            gun,
            x,
            y1,
        ),
    decreases y1 - y0,
{
    if y0 >= y1 {
        assert(gun_rows_range(gun, x, y0 + 1, y1 + 1) =~= Seq::empty());
        assert(gun_rows_range(gun, x, y0, y1 + 1) =~= gun_row_cmd(gun, x, y0) + Seq::empty());
        assert(gun_rows_range(gun, x, y0, y1) + gun_row_cmd(gun, x, y1) =~= gun_row_cmd(
            gun,
            x,
            y0,
        ));
    } else {
        lemma_gun_rows_extend(gun, x, y0 + 1, y1);
        assert(gun_rows_range(gun, x, y0, y1 + 1) =~= gun_rows_range(gun, x, y0, y1)
            + gun_row_cmd(gun, x, y1));
    }
}

/// Extending an overlay column range by one column on the right.
proof fn lemma_gun_cols_extend(gun: Texture, x0: int, x1: int)
    requires
        x0 <= x1,
    ensures
        gun_cols_range(gun, x0, x1 + 1) == gun_cols_range(gun, x0, x1) + gun_rows_range(
            gun,
            x1,
            HALF_HEIGHT as int,
            SCREEN_HEIGHT as int,
        ),
    decreases x1 - x0,
{
    if x0 >= x1 {
        assert(gun_cols_range(gun, x0 + 1, x1 + 1) =~= Seq::empty());
        assert(gun_cols_range(gun, x0, x1 + 1) =~= gun_rows_range(
            gun,
            x0,
            HALF_HEIGHT as int,
            SCREEN_HEIGHT as int,
        ) + Seq::empty());
        assert(gun_cols_range(gun, x0, x1) + gun_rows_range(
            gun,
            x1,
            HALF_HEIGHT as int,
            SCREEN_HEIGHT as int,
        ) =~= gun_rows_range(gun, x0, HALF_HEIGHT as int, SCREEN_HEIGHT as int));
    } else {
        lemma_gun_cols_extend(gun, x0 + 1, x1);
        assert(gun_cols_range(gun, x0, x1 + 1) =~= gun_cols_range(gun, x0, x1) + gun_rows_range(
            gun,
            x1,
            HALF_HEIGHT as int,
            SCREEN_HEIGHT as int,
        ));
    }
}

/// A command is an overlay dot: inside the weapon quad, outside the
/// rectangular viewport notch in its top right, and never color-keyed
/// transparent.
pub open spec fn overlay_cmd(c: DrawCmd, gun: Texture) -> bool {
    match c {
        DrawCmd::Dot { x, y, color } => {
            &&& 672 <= x < 1008
            &&& HALF_HEIGHT <= y < SCREEN_HEIGHT
            &&& !(x > 784 && y < 504)
            &&& color == spec_gun_pixel(gun, x as int, y as int)
            &&& color != clear_pixel()
        },
        DrawCmd::Rect { .. } => false,
    }
}

impl Renderer {
    /// Draws the first-person weapon overlay: a fixed textured quad over
    /// the lower right of the screen, skipping color-keyed transparent
    /// pixels and leaving the rectangular viewport notch in its top right
    /// unpainted. The frame grows by exactly the overlay command sequence.
    pub fn draw_first_person(&mut self, gun_texture: &Texture)
        requires
            tex_ok(*gun_texture),
        ensures
            final(self).draw_mode == old(self).draw_mode,
            final(self).cmds@ == old(self).cmds@ + overlay_cmds(*gun_texture),
            forall|k: int|
                old(self).cmds@.len() <= k < final(self).cmds@.len() ==> overlay_cmd(
                    #[trigger] final(self).cmds@[k],
                    *gun_texture,
                ),
    {
        let ghost base = self.cmds@;
        let mut x: i64 = 672;
        while x < 1008
            invariant
                672 <= x <= 1008,
                tex_ok(*gun_texture),
                self.cmds@ == base + gun_cols_range(*gun_texture, 672, x as int),
                forall|k: int|
                    base.len() <= k < self.cmds@.len() ==> overlay_cmd(
                        #[trigger] self.cmds@[k],
                        *gun_texture,
                    ),
                self.draw_mode == old(self).draw_mode,
            decreases 1008 - x,
        {
            let ghost col_base = self.cmds@;
            let mut y: i64 = HALF_HEIGHT as i64;
            while y < SCREEN_HEIGHT as i64
                invariant
                    672 <= x < 1008,
                    HALF_HEIGHT <= y <= SCREEN_HEIGHT,
                    tex_ok(*gun_texture),
                    self.cmds@ == col_base + gun_rows_range(
                        *gun_texture,
                        x as int,
                        HALF_HEIGHT as int,
                        y as int,
                    ),
                    col_base.len() >= base.len(),
                    forall|k: int| 0 <= k < base.len() ==> self.cmds@[k] == base[k],
                    forall|k: int|
                        base.len() <= k < self.cmds@.len() ==> overlay_cmd(
                            #[trigger] self.cmds@[k],
                            *gun_texture,
                        ),
                    self.draw_mode == old(self).draw_mode,
                decreases SCREEN_HEIGHT - y,
            {
                proof {
                    lemma_gun_rows_extend(*gun_texture, x as int, HALF_HEIGHT as int, y as int);
                }
                let c = sample_gun_pixel(gun_texture, x, y);
                let transparent = c.r == 0 && c.g == 0 && c.b == 0 && c.a == 0;
                let in_notch = x > 784 && y < 504;
                if !transparent && !in_notch {
                    self.cmds.push(DrawCmd::Dot { x: x as i32, y: y as i32, color: c });
                    proof {
                        assert(self.cmds@ =~= col_base + gun_rows_range(
                            *gun_texture,
                            x as int,
                            HALF_HEIGHT as int,
                            y + 1,
                        ));
                    }
                } else {
                    proof {
                        assert(gun_row_cmd(*gun_texture, x as int, y as int) =~= Seq::empty());
                        assert(self.cmds@ =~= col_base + gun_rows_range(
                            *gun_texture,
                            x as int,
                            HALF_HEIGHT as int,
                            y + 1,
                        ));
                    }
                }
                y = y + 1;
            }
            proof {
                lemma_gun_cols_extend(*gun_texture, 672, x as int);
                assert(self.cmds@ =~= base + gun_cols_range(*gun_texture, 672, x + 1));
            }
            x = x + 1;
        }
    }

    /// Draws the whole level in first person    /// Draws the whole level in first person: sectors are reordered back
    /// to front, each sector's visible floor or ceiling is captured during
    /// the front-face pass and filled during the back-face pass, every
    /// wall is translated, rotated, near-plane clipped, projected and
    /// rasterized, and the weapon overlay is drawn last. All commands
    /// appended to the frame are dots inside the screen.
    #[verifier::rlimit(100)]
    pub fn draw3d(&mut self, player: &mut PlayerInfo, bank: &Vec<Texture>, gun: Option<&Texture>)
        requires
            player_wf(*old(player)),
            forall|i: int| 0 <= i < bank@.len() ==> tex_ok(#[trigger] bank@[i]),
            match gun {
                Some(t) => tex_ok(*t),
                None => true,
            },
        ensures
            player_wf(*final(player)),
            final(self).draw_mode == DrawMode::Draw3D,
            final(player).position == old(player).position,
            final(player).angle_h == old(player).angle_h,
            final(player).level.walls@ == old(player).level.walls@,
            final(player).level.number_of_walls == old(player).level.number_of_walls,
            final(player).level.number_of_sectors == old(player).level.number_of_sectors,
            final(player).level.sectors@.to_multiset() == crate::level::with_distances(
                old(player).level,
                old(player).position.x as int,
                old(player).position.y as int,
            ).to_multiset(),
            crate::level::sorted_desc(final(player).level.sectors@),
            crate::level::level_partitioned(old(player).level)
                ==> crate::level::level_partitioned(final(player).level),
            old(self).cmds@.len() <= final(self).cmds@.len(),
            forall|k: int|
                0 <= k < old(self).cmds@.len() ==> final(self).cmds@[k] == old(self).cmds@[k],
            cmds_in_screen(final(self).cmds@, old(self).cmds@.len() as int),
            final(self).cmds@ == old(self).cmds@ + frame_emit(
                final(player).level.sectors@,
                final(player).level.sectors@.len() as int,
                final(player).level.walls@,
                Seq::new(SCREEN_WIDTH as nat, |k: int| 0i32),
                bank@,
                old(player).position.x as int,
                old(player).position.y as int,
                old(player).position.z as int,
                old(player).angle_h as int,
            ).0 + (match gun {
                Some(g) => overlay_cmds(*g),
                None => Seq::empty(),
            }),
    {
        self.draw_mode = DrawMode::Draw3D;
        PlayerInfo::distances(player);
        let ghost base = self.cmds@;
        let mut surface_points: Vec<i32> = Vec::new();
        let mut fill: usize = 0;
        while fill < SCREEN_WIDTH
            invariant
                surface_points@.len() == fill <= SCREEN_WIDTH,
                forall|k: int| 0 <= k < fill ==> #[trigger] surface_points@[k] == 0,
            decreases SCREEN_WIDTH - fill,
        {
            surface_points.push(0);
            fill = fill + 1;
        }
        let ghost sp_init = surface_points@;
        proof {
            assert(sp_init =~= Seq::new(SCREEN_WIDTH as nat, |k: int| 0i32));
        }
        let px = player.position.x;
        let py = player.position.y;
        let pz = player.position.z;
        let angle = player.angle_h;
        let nsec = player.level.sectors.len();
        let mut s: usize = 0;
        while s < nsec
            invariant
                player_wf(*player),
                nsec == player.level.sectors@.len(),
                s <= nsec,
                px == player.position.x,
                py == player.position.y,
                pz == player.position.z,
                angle == player.angle_h,
                surface_points_wf(surface_points@),
                forall|i: int| 0 <= i < bank@.len() ==> tex_ok(#[trigger] bank@[i]),
                base.len() <= self.cmds@.len(),
                forall|k: int| 0 <= k < base.len() ==> self.cmds@[k] == base[k],
                cmds_in_screen(self.cmds@, base.len() as int),
                sp_init == Seq::new(SCREEN_WIDTH as nat, |k: int| 0i32),
                self.cmds@ == base + frame_emit(
                    player.level.sectors@,
                    s as int,
                    player.level.walls@,
                    sp_init,
                    bank@,
                    px as int,
                    py as int,
                    pz as int,
                    angle as int,
                ).0,
                surface_points@ == frame_emit(
                    player.level.sectors@,
                    s as int,
                    player.level.walls@,
                    sp_init,
                    bank@,
                    px as int,
                    py as int,
                    pz as int,
                    angle as int,
                ).1,
                *player == *final(player),
                self.draw_mode == DrawMode::Draw3D,
            decreases nsec - s,
        {
            let ghost sp_entry = surface_points@;
            let ghost sec_base = self.cmds@;
            let sector = player.level.sectors[s];
            let mut surface: Option<Surface> = None;
            let mut cycles: u32 = 1;
            if pz < sector.bottom_height {
                surface = Some(Surface::BottomScan);
                cycles = 2;
                let mut i: usize = 0;
                while i < SCREEN_WIDTH
                    invariant
                        surface_points@.len() == SCREEN_WIDTH,
                        i <= SCREEN_WIDTH,
                        forall|k: int|
                            0 <= k < i ==> #[trigger] surface_points@[k] == SCREEN_HEIGHT as i32,
                        forall|k: int|
                            0 <= k < surface_points@.len() ==> 0 <= #[trigger] surface_points@[k]
                                <= SCREEN_HEIGHT,
                    decreases SCREEN_WIDTH - i,
                {
                    surface_points[i] = SCREEN_HEIGHT as i32;
                    i = i + 1;
                }
            } else if pz > sector.top_height {
                surface = Some(Surface::TopScan);
                cycles = 2;
                let mut i: usize = 0;
                while i < SCREEN_WIDTH
                    invariant
                        surface_points@.len() == SCREEN_WIDTH,
                        i <= SCREEN_WIDTH,
                        forall|k: int| 0 <= k < i ==> #[trigger] surface_points@[k] == 0i32,
                        forall|k: int|
                            0 <= k < surface_points@.len() ==> 0 <= #[trigger] surface_points@[k]
                                <= SCREEN_HEIGHT,
                    decreases SCREEN_WIDTH - i,
                {
                    surface_points[i] = 0;
                    i = i + 1;
                }
            }
            let lo = sector.wall_start as usize;
            let hi = sector.wall_end as usize;
            proof {
                assert(surface == sector_surface(pz as int, sector));
                assert(surface_points@ =~= prefill_points(surface, sp_entry));
            }
            let ghost sp1 = prefill_points(surface, sp_entry);
            let ghost c0 = walls_range_step(
                player.level.walls@,
                sector,
                sp1,
                0,
                surface,
                bank@,
                px as int,
                py as int,
                pz as int,
                angle as int,
                lo as int,
                hi as int,
            );
            let ghost c1 = walls_range_step(
                player.level.walls@,
                sector,
                c0.1,
                1,
                surface,
                bank@,
                px as int,
                py as int,
                pz as int,
                angle as int,
                lo as int,
                hi as int,
            );
            let mut cycle: u32 = 0;
            while cycle < cycles
                invariant
                    player_wf(*player),
                    nsec == player.level.sectors@.len(),
                    s < nsec,
                    sector == player.level.sectors@[s as int],
                    lo == sector.wall_start,
                    hi == sector.wall_end,
                    hi <= player.level.walls@.len(),
                    cycles <= 2,
                    cycle <= cycles,
                    px == player.position.x,
                    py == player.position.y,
                    pz == player.position.z,
                    angle == player.angle_h,
                    surface_points_wf(surface_points@),
                    forall|i: int| 0 <= i < bank@.len() ==> tex_ok(#[trigger] bank@[i]),
                    base.len() <= self.cmds@.len(),
                    forall|k: int| 0 <= k < base.len() ==> self.cmds@[k] == base[k],
                    cmds_in_screen(self.cmds@, base.len() as int),
                    surface == sector_surface(pz as int, sector),
                    cycles == (if surface is Some {
                        2u32
                    } else {
                        1u32
                    }),
                    sp1 == prefill_points(surface, sp_entry),
                    c0 == walls_range_step(
                        player.level.walls@,
                        sector,
                        sp1,
                        0,
                        surface,
                        bank@,
                        px as int,
                        py as int,
                        pz as int,
                        angle as int,
                        lo as int,
                        hi as int,
                    ),
                    c1 == walls_range_step(
                        player.level.walls@,
                        sector,
                        c0.1,
                        1,
                        surface,
                        bank@,
                        px as int,
                        py as int,
                        pz as int,
                        angle as int,
                        lo as int,
                        hi as int,
                    ),
                    cycle == 0 ==> self.cmds@ == sec_base && surface_points@ == sp1,
                    cycle == 1 ==> self.cmds@ == sec_base + c0.0 && surface_points@ == c0.1,
                    cycle == 2 ==> self.cmds@ == sec_base + c0.0 + c1.0 && surface_points@
                        == c1.1,
                    *player == *final(player),
                    self.draw_mode == DrawMode::Draw3D,
                decreases cycles - cycle,
            {
                let ghost cyc_base = self.cmds@;
                let ghost sp_cycle = surface_points@;
                let mut w = lo;
                while w < hi
                    invariant
                        player_wf(*player),
                        nsec == player.level.sectors@.len(),
                        s < nsec,
                        sector == player.level.sectors@[s as int],
                        lo == sector.wall_start,
                        hi == sector.wall_end,
                        hi <= player.level.walls@.len(),
                        lo <= w <= hi || w == lo,
                        cycle <= 1,
                        px == player.position.x,
                        py == player.position.y,
                        pz == player.position.z,
                        angle == player.angle_h,
                        surface_points_wf(surface_points@),
                        forall|i: int| 0 <= i < bank@.len() ==> tex_ok(#[trigger] bank@[i]),
                        base.len() <= self.cmds@.len(),
                        forall|k: int| 0 <= k < base.len() ==> self.cmds@[k] == base[k],
                        cmds_in_screen(self.cmds@, base.len() as int),
                        surface == sector_surface(pz as int, sector),
                        self.cmds@ == cyc_base + walls_range_step(
                            player.level.walls@,
                            sector,
                            sp_cycle,
                            cycle,
                            surface,
                            bank@,
                            px as int,
                            py as int,
                            pz as int,
                            angle as int,
                            lo as int,
                            w as int,
                        ).0,
                        surface_points@ == walls_range_step(
                            player.level.walls@,
                            sector,
                            sp_cycle,
                            cycle,
                            surface,
                            bank@,
                            px as int,
                            py as int,
                            pz as int,
                            angle as int,
                            lo as int,
                            w as int,
                        ).1,
                        *player == *final(player),
                        self.draw_mode == DrawMode::Draw3D,
                    decreases hi - w,
                {
                    let wall = player.level.walls[w];
                    let mut rx1 = wall.x1 as i64 - px as i64;
                    let mut ry1 = wall.y1 as i64 - py as i64;
                    let mut rx2 = wall.x2 as i64 - px as i64;
                    let mut ry2 = wall.y2 as i64 - py as i64;
                    if cycle == 1 {
                        let sx = rx1;
                        rx1 = rx2;
                        rx2 = sx;
                        let sy = ry1;
                        ry1 = ry2;
                        ry2 = sy;
                    }
                    let (wx1, wy1i) = rotate_point(rx1, ry1, angle);
                    let (wx2, wy2i) = rotate_point(rx2, ry2, angle);
                    let zb = sector.bottom_height as i64 - pz as i64;
                    let zt = sector.top_height as i64 - pz as i64;
                    let ghost wall_base = self.cmds@;
                    let ghost sp_wall = surface_points@;
                    let ghost cam = wall_camera(wall, cycle, px as int, py as int, angle as int);
                    proof {
                        assert(cam.0 == wx1 && cam.1 == wy1i && cam.2 == wx2 && cam.3 == wy2i);
                    }
                    if !(wy1i <= 0 && wy2i <= 0) {
                        let (cx1, cy1, czb1, czt1) = if wy1i <= 0 {
                            let (nx, ny, nzb) = Self::clip_behind(wx1, wy1i, zb, wx2, wy2i, zb);
                            let (_, _, nzt) = Self::clip_behind(wx1, wy1i, zt, wx2, wy2i, zt);
                            (nx, ny, nzb, nzt)
                        } else {
                            (wx1, wy1i, zb, zt)
                        };
                        let (cx2, cy2, czb2, czt2) = if wy2i <= 0 {
                            let (nx, ny, nzb) = Self::clip_behind(wx2, wy2i, zb, wx1, wy1i, zb);
                            let (_, _, nzt) = Self::clip_behind(wx2, wy2i, zt, wx1, wy1i, zt);
                            (nx, ny, nzb, nzt)
                        } else {
                            (wx2, wy2i, zb, zt)
                        };
                        let sx1 = project(cx1, cy1, HALF_WIDTH as i64);
                        let sx2 = project(cx2, cy2, HALF_WIDTH as i64);
                        let sb1 = project(czb1, cy1, HALF_HEIGHT as i64);
                        let sb2 = project(czb2, cy2, HALF_HEIGHT as i64);
                        let st1 = project(czt1, cy1, HALF_HEIGHT as i64);
                        let st2 = project(czt2, cy2, HALF_HEIGHT as i64);
                        let tex: Option<&Texture> = match wall.texture {
                            Some(i) => if (i as usize) < bank.len() {
                                Some(&bank[i as usize])
                            } else {
                                None
                            },
                            None => None,
                        };
                        let stex: Option<&Texture> = match sector.surface_texture {
                            Some(i) => if (i as usize) < bank.len() {
                                Some(&bank[i as usize])
                            } else {
                                None
                            },
                            None => None,
                        };
                        let ghost sc = wall_screen_coords(
                            wall,
                            sector,
                            cycle,
                            px as int,
                            py as int,
                            pz as int,
                            angle as int,
                        );
                        proof {
                            assert(sc.0 == sx1 && sc.1 == sx2 && sc.2 == sb1 && sc.3 == sb2
                                && sc.4 == st1 && sc.5 == st2);
                            assert(opt_tex(tex) == resolve_texture(bank@, wall.texture));
                            assert(opt_tex(stex) == resolve_texture(
                                bank@,
                                sector.surface_texture,
                            ));
                        }
                        self.draw_wall(
                            player,
                            sx1,
                            sx2,
                            sb1,
                            sb2,
                            st1,
                            st2,
                            cycle,
                            wall.u,
                            wall.v,
                            surface,
                            &mut surface_points,
                            tex,
                            stex,
                        );
                        proof {
                            let h = wall_step(
                                wall,
                                sector,
                                sp_wall,
                                cycle,
                                surface,
                                bank@,
                                px as int,
                                py as int,
                                pz as int,
                                angle as int,
                            );
                            assert(self.cmds@ == wall_base + h.0);
                            assert(surface_points@ =~= h.1);
                        }
                    } else {
                        proof {
                            let h = wall_step(
                                wall,
                                sector,
                                sp_wall,
                                cycle,
                                surface,
                                bank@,
                                px as int,
                                py as int,
                                pz as int,
                                angle as int,
                            );
                            assert(h.0 =~= Seq::empty());
                            assert(self.cmds@ =~= wall_base + h.0);
                            assert(surface_points@ == h.1);
                        }
                    }
                    proof {
                        lemma_walls_range_extend(
                            player.level.walls@,
                            sector,
                            sp_cycle,
                            cycle,
                            surface,
                            bank@,
                            px as int,
                            py as int,
                            pz as int,
                            angle as int,
                            lo as int,
                            w as int,
                        );
                        assert(self.cmds@ =~= cyc_base + walls_range_step(
                            player.level.walls@,
                            sector,
                            sp_cycle,
                            cycle,
                            surface,
                            bank@,
                            px as int,
                            py as int,
                            pz as int,
                            angle as int,
                            lo as int,
                            w + 1,
                        ).0);
                    }
                    w = w + 1;
                }
                cycle = cycle + 1;
            }
            proof {
                assert(self.cmds@ =~= base + frame_emit(
                    player.level.sectors@,
                    s + 1,
                    player.level.walls@,
                    sp_init,
                    bank@,
                    px as int,
                    py as int,
                    pz as int,
                    angle as int,
                ).0);
            }
            s = s + 1;
        }
        let ghost pre_gun = self.cmds@;
        match gun {
            Some(g) => {
                self.draw_first_person(g);
                proof {
                    assert(self.cmds@ =~= base + frame_emit(
                        player.level.sectors@,
                        nsec as int,
                        player.level.walls@,
                        sp_init,
                        bank@,
                        px as int,
                        py as int,
                        pz as int,
                        angle as int,
                    ).0 + overlay_cmds(*g));
                }
            },
            None => {
                proof {
                    assert(self.cmds@ =~= base + frame_emit(
                        player.level.sectors@,
                        nsec as int,
                        player.level.walls@,
                        sp_init,
                        bank@,
                        px as int,
                        py as int,
                        pz as int,
                        angle as int,
                    ).0 + Seq::<DrawCmd>::empty());
                }
            },
        }
    }
}

/// The thick grey segments joining the first `upto + 1` traced points.
pub open spec fn preview_segments(pts: Seq<(i32, i32)>, upto: int) -> Seq<DrawCmd>
    decreases upto,
{
    if upto <= 0 {
        Seq::empty()
    } else {
        preview_segments(pts, upto - 1) + thick_line_cmds(
            pts[upto - 1].0 as int,
            pts[upto - 1].1 as int,
            pts[upto].0 as int,
            pts[upto].1 as int,
            spec_rgba(100, 100, 100, 255),
        )
    }
}

/// The tracing preview: a white dot at the mouse while no point is
/// placed; otherwise the placed points joined by grey segments and a
/// white segment from the last point to the live mouse position.
pub open spec fn trace_preview_cmds(pts: Seq<(i32, i32)>, mx: int, my: int) -> Seq<DrawCmd> {
    if pts.len() == 0 {
        seq![dot_at(mx, my, spec_rgba(255, 255, 255, 255))]
    } else {
        preview_segments(pts, pts.len() - 1) + thick_line_cmds(
            pts[pts.len() - 1].0 as int,
            pts[pts.len() - 1].1 as int,
            mx,
            my,
            spec_rgba(255, 255, 255, 255),
        )
    }
}

/// The vertical grid lines from column `gx` on, one thin black line every
/// `step` pixels.
pub open spec fn vlines_from(gx: int, step: int) -> Seq<DrawCmd>
    decreases SCREEN_WIDTH + step - gx,
        when step >= 1 && 0 <= gx <= SCREEN_WIDTH + step
{
    if gx >= SCREEN_WIDTH {
        Seq::empty()
    } else {
        line_cmds(gx, 0, gx, SCREEN_HEIGHT as int, spec_rgba(0, 0, 0, 255)) + vlines_from(
            gx + step,
            step,
        )
    }
}

/// The horizontal grid lines from row `gy` on, one thin black line every
/// `step` pixels.
pub open spec fn hlines_from(gy: int, step: int) -> Seq<DrawCmd>
    decreases SCREEN_HEIGHT + step - gy,
        when step >= 1 && 0 <= gy <= SCREEN_HEIGHT + step
{
    if gy >= SCREEN_HEIGHT {
        Seq::empty()
    } else {
        line_cmds(0, gy, SCREEN_WIDTH as int, gy, spec_rgba(0, 0, 0, 255)) + hlines_from(
            gy + step,
            step,
        )
    }
}

/// The five concentric mouse-over circles of radii below `r`.
pub open spec fn hover_circles_upto(x: int, y: int, r: int) -> Seq<DrawCmd>
    decreases r,
{
    if r <= 1 {
        Seq::empty()
    } else {
        hover_circles_upto(x, y, r - 1) + circle_cmds(x, y, r - 1, spec_rgba(255, 255, 255, 255))
    }
}

/// The commands one wall contributes to the edit view: its thick line, a
/// white overline when it is the selected wall, and the mouse-over
/// animation when the cursor rests on its second endpoint while no
/// marquee is open.
pub open spec fn wall_view_cmds(
    w: Wall,
    scale: int,
    shx: int,
    shy: int,
    selected: bool,
    mx: int,
    my: int,
    highlight_none: bool,
) -> Seq<DrawCmd> {
    let wx1 = (w.x1 + shx) * scale;
    let wy1 = (w.y1 + shy) * scale;
    let wx2 = (w.x2 + shx) * scale;
    let wy2 = (w.y2 + shy) * scale;
    thick_line_cmds(wx1, wy1, wx2, wy2, w.color) + (if selected {
        thick_line_cmds(wx1, wy1, wx2, wy2, spec_rgba(255, 255, 255, 255))
    } else {
        Seq::empty()
    }) + (if crate::math::dist_sq(mx, my, wx2, wy2) <= 36 && highlight_none {
        hover_circles_upto(wx2, wy2, 6)
    } else {
        Seq::empty()
    })
}

/// The wall commands of the walls `[lo, hi)` of one sector.
pub open spec fn walls_view_range(
    walls: Seq<Wall>,
    selwall: Option<usize>,
    scale: int,
    shx: int,
    shy: int,
    mx: int,
    my: int,
    highlight_none: bool,
    lo: int,
    hi: int,
) -> Seq<DrawCmd>
    decreases hi - lo,
{
    if lo >= hi {
        Seq::empty()
    } else {
        wall_view_cmds(
            walls[lo],
            scale,
            shx,
            shy,
            selwall == Some(lo as usize),
            mx,
            my,
            highlight_none,
        ) + walls_view_range(
            walls,
            selwall,
            scale,
            shx,
            shy,
            mx,
            my,
            highlight_none,
            lo + 1,
            hi,
        )
    }
}

/// Extending a wall view range by one wall on the right.
proof fn lemma_walls_view_extend(
    walls: Seq<Wall>,
    selwall: Option<usize>,
    scale: int,
    shx: int,
    shy: int,
    mx: int,
    my: int,
    highlight_none: bool,
    lo: int,
    hi: int,
)
    requires
        lo <= hi,
    ensures
        walls_view_range(walls, selwall, scale, shx, shy, mx, my, highlight_none, lo, hi + 1)
            == walls_view_range(walls, selwall, scale, shx, shy, mx, my, highlight_none, lo, hi)
            + wall_view_cmds(
            walls[hi],
            scale,
            shx,
            shy,
            selwall == Some(hi as usize),
            mx,
            my,
            highlight_none,
        ),
    decreases hi - lo,
{
    if lo >= hi {
        assert(walls_view_range(
            walls,
            selwall,
            scale,
            shx,
            shy,
            mx,
            my,
            highlight_none,
            lo + 1,
            hi + 1,
        ) =~= Seq::empty());
        assert(walls_view_range(walls, selwall, scale, shx, shy, mx, my, highlight_none, lo, hi)
            + wall_view_cmds(
            walls[hi],
            scale,
            shx,
            shy,
            selwall == Some(hi as usize),
            mx,
            my,
            highlight_none,
        ) =~= wall_view_cmds(
            walls[lo],
            scale,
            shx,
            shy,
            selwall == Some(lo as usize),
            mx,
            my,
            highlight_none,
        ));
        assert(walls_view_range(
            walls,
            selwall,
            scale,
            shx,
            shy,
            mx,
            my,
            highlight_none,
            lo,
            hi + 1,
        ) =~= wall_view_cmds(
            walls[lo],
            scale,
            shx,
            shy,
            selwall == Some(lo as usize),
            mx,
            my,
            highlight_none,
        ) + Seq::empty());
    } else {
        lemma_walls_view_extend(walls, selwall, scale, shx, shy, mx, my, highlight_none, lo + 1, hi);
        assert(walls_view_range(
            walls,
            selwall,
            scale,
            shx,
            shy,
            mx,
            my,
            highlight_none,
            lo,
            hi + 1,
        ) =~= walls_view_range(walls, selwall, scale, shx, shy, mx, my, highlight_none, lo, hi)
            + wall_view_cmds(
            walls[hi],
            scale,
            shx,
            shy,
            selwall == Some(hi as usize),
            mx,
            my,
            highlight_none,
        ));
    }
}

/// The wall commands of the first `s` sectors, in scan order.
pub open spec fn sectors_view(
    l: Level,
    selwall: Option<usize>,
    scale: int,
    shx: int,
    shy: int,
    mx: int,
    my: int,
    highlight_none: bool,
    s: int,
) -> Seq<DrawCmd>
    decreases s,
{
    if s <= 0 {
        Seq::empty()
    } else {
        sectors_view(l, selwall, scale, shx, shy, mx, my, highlight_none, s - 1)
            + walls_view_range(
            l.walls@,
            selwall,
            scale,
            shx,
            shy,
            mx,
            my,
            highlight_none,
            l.sectors@[s - 1].wall_start as int,
            l.sectors@[s - 1].wall_end as int,
        )
    }
}

/// The white marker circles of the first `upto` marquee-selected points:
/// every odd point index in bounds circles its wall's first endpoint.
pub open spec fn sel_circles(
    points: Seq<usize>,
    walls: Seq<Wall>,
    scale: int,
    shx: int,
    shy: int,
    upto: int,
) -> Seq<DrawCmd>
    decreases upto,
{
    if upto <= 0 {
        Seq::empty()
    } else {
        let prev = sel_circles(points, walls, scale, shx, shy, upto - 1);
        let p = points[upto - 1] as int;
        if p % 2 == 1 && p / 2 + 1 < walls.len() {
            prev + circle_cmds(
                (walls[p / 2 + 1].x1 + shx) * scale,
                (walls[p / 2 + 1].y1 + shy) * scale,
                4,
                spec_rgba(255, 255, 255, 255),
            )
        } else {
            prev
        }
    }
}

/// The whole 2D edit view frame: the background grid lines, every wall
/// with selection highlights and the mouse-over animation, the marker
/// circles of the marquee-selected points, the player marker and view
/// arc, the tracing preview when the tool is active, the toolbar
/// backdrop, and the open marquee rectangle. `scale` is the clamped view
/// scale.
pub open spec fn draw2d_cmds(l: Level, p: PlayerInfo, g: Grid, scale: int) -> Seq<DrawCmd> {
    let step = RESOLUTION * scale;
    let shx = g.view_shift_x as int;
    let shy = g.view_shift_y as int;
    let mx = g.mouse_status.mouse_x as int;
    let my = g.mouse_status.mouse_y as int;
    let hnone = g.highlight_x is None;
    vlines_from(0, step) + hlines_from(0, step) + sectors_view(
        l,
        g.selected_wall,
        scale,
        shx,
        shy,
        mx,
        my,
        hnone,
        l.sectors@.len() as int,
    ) + (if g.selected_point is None {
        sel_circles(
            g.selection.points@,
            l.walls@,
            scale,
            shx,
            shy,
            g.selection.points@.len() as int,
        )
    } else {
        Seq::empty()
    }) + (seq![
        DrawCmd::Rect {
            x: ((p.position.x + shx) * scale) as i32,
            y: ((p.position.y + shy) * scale) as i32,
            w: (2 * scale) as u32,
            h: (2 * scale) as u32,
            color: spec_rgba(154, 214, 28, 255),
        },
    ] + arc_cmds(
        (p.position.x + shx) * scale,
        (p.position.y + shy) * scale,
        p.angle_h as int,
        spec_rgba(154, 214, 28, 255),
    )) + (match g.new_sector {
        Some(pts) => trace_preview_cmds(pts@, mx, my),
        None => Seq::empty(),
    }) + seq![
        DrawCmd::Rect {
            x: 0,
            y: (6 * SCREEN_HEIGHT / 7) as i32,
            w: SCREEN_WIDTH as u32,
            h: (SCREEN_HEIGHT - 6 * SCREEN_HEIGHT / 7) as u32,
            color: spec_rgba(70, 70, 70, 255),
        },
    ] + (match (g.highlight_x, g.highlight_y) {
        (Some(hx), Some(hy)) => if g.selected_point is None {
            seq![
                DrawCmd::Rect {
                    x: spec_marquee_rect(hx as int, hy as int, mx, my).x,
                    y: spec_marquee_rect(hx as int, hy as int, mx, my).y,
                    w: spec_marquee_rect(hx as int, hy as int, mx, my).w as u32,
                    h: spec_marquee_rect(hx as int, hy as int, mx, my).h as u32,
                    color: spec_rgba(70, 70, 70, 129),
                },
            ]
        } else {
            Seq::empty()
        },
        _ => Seq::empty(),
    })
}

impl Renderer {
    /// Draws the new-sector tracing preview (placed segments in grey, the
    /// live segment to the mouse in white) and advances the tracing tool
    /// by one tick.
    pub fn draw_new_sector(&mut self, grid: &mut Grid, player: &mut PlayerInfo, color_seed: u32)
        requires
            grid_wf(*old(grid)),
            player_wf(*old(player)),
            old(player).level.walls@.len() + 100_001 < 0x7fff_ffff,
            old(player).level.sectors@.len() + 1 < 0xffff_ffff,
        ensures
            grid_wf(*final(grid)),
            player_wf(*final(player)),
            crate::edit::trace_effect(
                *old(grid),
                *old(player),
                *final(grid),
                *final(player),
                color_seed,
            ),
            final(self).draw_mode == old(self).draw_mode,
            final(self).cmds@ == old(self).cmds@ + trace_preview_cmds(
                match old(grid).new_sector {
                    Some(pts) => pts@,
                    None => Seq::empty(),
                },
                old(grid).mouse_status.mouse_x as int,
                old(grid).mouse_status.mouse_y as int,
            ),
    {
        let mx = grid.mouse_status.mouse_x as i64;
        let my = grid.mouse_status.mouse_y as i64;
        let ghost base = self.cmds@;
        let ghost pts0: Seq<(i32, i32)> = match &grid.new_sector {
            Some(pts) => pts@,
            None => Seq::empty(),
        };
        let npts = match &grid.new_sector {
            Some(pts) => pts.len(),
            None => 0,
        };
        if npts == 0 {
            let w = white();
            self.draw_dot(mx, my, w);
        } else {
            let grey = grey3();
            let w = white();
            let mut i: usize = 0;
            while i + 1 < npts
                invariant
                    grid_wf(*grid),
                    *grid == *old(grid),
                    match grid.new_sector {
                        Some(pts) => pts@.len() == npts,
                        None => npts == 0,
                    },
                    npts >= 1,
                    i < npts,
                    grey == crate::color::spec_rgba(100, 100, 100, 255),
                    pts0 == (match grid.new_sector {
                        Some(pts) => pts@,
                        None => Seq::empty(),
                    }),
                    self.cmds@ == base + preview_segments(pts0, i as int),
                    self.draw_mode == old(self).draw_mode,
                decreases npts - i,
            {
                let (ax, ay) = match &grid.new_sector {
                    Some(pts) => pts[i],
                    None => (0, 0),
                };
                let (bx, by) = match &grid.new_sector {
                    Some(pts) => pts[i + 1],
                    None => (0, 0),
                };
                self.draw_thick_line(ax as i64, ay as i64, bx as i64, by as i64, grey);
                i = i + 1;
            }
            let (lx, ly) = match &grid.new_sector {
                Some(pts) => pts[npts - 1],
                None => (0, 0),
            };
            self.draw_thick_line(lx as i64, ly as i64, mx, my, w);
            proof {
                assert(self.cmds@ =~= base + trace_preview_cmds(pts0, mx as int, my as int));
            }
        }
        trace_step(grid, player, color_seed);
    }

    /// Draws the 2D edit view: the background grid, every wall with the
    /// current selections highlighted, the marquee contents, the player
    /// marker, the new-sector preview, and the toolbar backdrop. The view
    /// scale is clamped to at least one pixel per map unit, and the sector
    /// owning the selected wall becomes the selected sector.
    #[verifier::rlimit(60)]
    pub fn draw2d(&mut self, player: &mut PlayerInfo, grid: &mut Grid, color_seed: u32)
        requires
            grid_wf(*old(grid)),
            player_wf(*old(player)),
            old(player).level.walls@.len() <= 1_000_000_000,
            old(player).level.walls@.len() + 100_001 < 0x7fff_ffff,
            old(player).level.sectors@.len() + 1 < 0xffff_ffff,
        ensures
            grid_wf(*final(grid)),
            player_wf(*final(player)),
            final(self).draw_mode == DrawMode::Draw2D,
            final(grid).scale == (if old(grid).scale <= 1 {
                1int
            } else {
                old(grid).scale as int
            }),
            final(player).position == old(player).position,
            final(player).angle_h == old(player).angle_h,
            old(grid).new_sector is None ==> *final(player) == *old(player),
            old(player).level.walls@.len() <= final(player).level.walls@.len(),
            final(player).level.walls@.subrange(0, old(player).level.walls@.len() as int) == old(
                player,
            ).level.walls@,
            old(player).level.sectors@.len() <= final(player).level.sectors@.len(),
            final(player).level.sectors@.subrange(0, old(player).level.sectors@.len() as int)
                == old(player).level.sectors@,
            final(grid).selected_wall == old(grid).selected_wall,
            final(grid).selected_point == old(grid).selected_point,
            final(grid).view_shift_x == old(grid).view_shift_x,
            final(grid).view_shift_y == old(grid).view_shift_y,
            match (old(grid).highlight_x, old(grid).highlight_y) {
                (Some(hx), Some(hy)) => if old(grid).selected_point is None {
                    final(grid).selection.points@ == old(grid).selection.points@
                        + crate::edit::sectors_marquee_ids(
                        old(player).level,
                        Grid {
                            scale: (if old(grid).scale <= 1 {
                                1int
                            } else {
                                old(grid).scale as int
                            }) as i32,
                            ..*old(grid)
                        },
                        spec_marquee_rect(
                            hx as int,
                            hy as int,
                            old(grid).mouse_status.mouse_x as int,
                            old(grid).mouse_status.mouse_y as int,
                        ),
                        old(player).level.sectors@.len() as int,
                    )
                } else {
                    final(grid).selection.points@ == old(grid).selection.points@
                },
                _ => final(grid).selection.points@ == old(grid).selection.points@,
            },
            match old(grid).selected_wall {
                None => final(grid).selected_sector == old(grid).selected_sector,
                Some(sw) => ({
                    let has_owner = exists|s2: int|
                        crate::level::wall_in_sector(old(player).level, s2, sw as int);
                    &&& (has_owner ==> match final(grid).selected_sector {
                        Some(o) => crate::level::wall_in_sector(
                            old(player).level,
                            o as int,
                            sw as int,
                        ),
                        None => false,
                    })
                    &&& (!has_owner ==> final(grid).selected_sector == old(
                        grid,
                    ).selected_sector)
                }),
            },
            old(self).cmds@.len() <= final(self).cmds@.len(),
            forall|k: int|
                0 <= k < old(self).cmds@.len() ==> final(self).cmds@[k] == old(self).cmds@[k],
            final(self).cmds@ == old(self).cmds@ + draw2d_cmds(
                old(player).level,
                *old(player),
                *old(grid),
                if old(grid).scale <= 1 {
                    1int
                } else {
                    old(grid).scale as int
                },
            ),
    {
        self.draw_mode = DrawMode::Draw2D;
        grid.scale = crate::math::no_less_than_one(grid.scale);
        let ghost base = self.cmds@;
        let ghost scale_i: int = grid.scale as int;
        let ghost shx: int = grid.view_shift_x as int;
        let ghost shy: int = grid.view_shift_y as int;
        let ghost mxi: int = grid.mouse_status.mouse_x as int;
        let ghost myi: int = grid.mouse_status.mouse_y as int;
        let ghost hnone: bool = grid.highlight_x is None;
        let ghost step_i: int = RESOLUTION * scale_i;
        let ghost part_v = vlines_from(0, step_i);
        let ghost part_h = hlines_from(0, step_i);
        let blk = black();
        let scale_width = RESOLUTION * grid.scale as usize;
        let scale_height = RESOLUTION * grid.scale as usize;
        let mut gx: usize = 0;
        while gx < SCREEN_WIDTH
            invariant
                grid_wf(*grid),
                7 <= scale_width <= 700,
                step_i == scale_width,
                part_v == vlines_from(0, step_i),
                0 <= gx <= SCREEN_WIDTH + scale_width,
                blk == spec_rgba(0, 0, 0, 255),
                base + part_v == self.cmds@ + vlines_from(gx as int, step_i),
                base.len() <= self.cmds@.len(),
                forall|k: int| 0 <= k < base.len() ==> self.cmds@[k] == base[k],
                self.draw_mode == DrawMode::Draw2D,
            decreases SCREEN_WIDTH + 700 - gx,
        {
            let ghost before = self.cmds@;
            self.draw_line(gx as i64, 0, gx as i64, SCREEN_HEIGHT as i64, blk);
            proof {
                assert(vlines_from(gx as int, step_i) == line_cmds(
                    gx as int,
                    0,
                    gx as int,
                    SCREEN_HEIGHT as int,
                    blk,
                ) + vlines_from(gx + scale_width, step_i));
                assert(before + (line_cmds(gx as int, 0, gx as int, SCREEN_HEIGHT as int, blk)
                    + vlines_from(gx + scale_width, step_i)) =~= self.cmds@ + vlines_from(
                    gx + scale_width,
                    step_i,
                ));
            }
            gx = gx + scale_width;
        }
        proof {
            assert(vlines_from(gx as int, step_i) =~= Seq::empty());
            assert(self.cmds@ + Seq::<DrawCmd>::empty() =~= self.cmds@);
            assert(self.cmds@ =~= base + part_v);
        }
        let ghost m1 = base + part_v;
        let mut gy: usize = 0;
        while gy < SCREEN_HEIGHT
            invariant
                grid_wf(*grid),
                7 <= scale_height <= 700,
                step_i == scale_height,
                part_h == hlines_from(0, step_i),
                m1 == base + part_v,
                0 <= gy <= SCREEN_HEIGHT + scale_height,
                blk == spec_rgba(0, 0, 0, 255),
                m1 + part_h == self.cmds@ + hlines_from(gy as int, step_i),
                base.len() <= self.cmds@.len(),
                forall|k: int| 0 <= k < base.len() ==> self.cmds@[k] == base[k],
                self.draw_mode == DrawMode::Draw2D,
            decreases SCREEN_HEIGHT + 700 - gy,
        {
            let ghost before = self.cmds@;
            self.draw_line(0, gy as i64, SCREEN_WIDTH as i64, gy as i64, blk);
            proof {
                assert(hlines_from(gy as int, step_i) == line_cmds(
                    0,
                    gy as int,
                    SCREEN_WIDTH as int,
                    gy as int,
                    blk,
                ) + hlines_from(gy + scale_height, step_i));
                assert(before + (line_cmds(0, gy as int, SCREEN_WIDTH as int, gy as int, blk)
                    + hlines_from(gy + scale_height, step_i)) =~= self.cmds@ + hlines_from(
                    gy + scale_height,
                    step_i,
                ));
            }
            gy = gy + scale_height;
        }
        proof {
            assert(hlines_from(gy as int, step_i) =~= Seq::empty());
            assert(self.cmds@ + Seq::<DrawCmd>::empty() =~= self.cmds@);
            assert(self.cmds@ =~= m1 + part_h);
        }
        let ghost m2 = m1 + part_h;
        let wht = white();
        let nsec = player.level.sectors.len();
        let mut s: usize = 0;
        while s < nsec
            invariant
                grid_wf(*grid),
                player_wf(*player),
                *player == *old(player),
                grid.mouse_status == old(grid).mouse_status,
                grid.scale == (if old(grid).scale <= 1 {
                    1int
                } else {
                    old(grid).scale as int
                }),
                grid.view_shift_x == old(grid).view_shift_x,
                grid.view_shift_y == old(grid).view_shift_y,
                grid.highlight_x == old(grid).highlight_x,
                grid.highlight_y == old(grid).highlight_y,
                grid.selected_point == old(grid).selected_point,
                grid.selected_wall == old(grid).selected_wall,
                grid.selection.points == old(grid).selection.points,
                grid.new_sector == old(grid).new_sector,
                grid.state == old(grid).state,
                match old(grid).selected_wall {
                    None => grid.selected_sector == old(grid).selected_sector,
                    Some(sw) => {
                        &&& ((exists|s2: int|
                            s2 < s && crate::level::wall_in_sector(
                                player.level,
                                s2,
                                sw as int,
                            )) ==> match grid.selected_sector {
                            Some(o) => crate::level::wall_in_sector(
                                player.level,
                                o as int,
                                sw as int,
                            ),
                            None => false,
                        })
                        &&& (!(exists|s2: int|
                            s2 < s && crate::level::wall_in_sector(
                                player.level,
                                s2,
                                sw as int,
                            )) ==> grid.selected_sector == old(grid).selected_sector)
                    },
                },
                nsec == player.level.sectors@.len(),
                s <= nsec,
                wht == crate::color::spec_rgba(255, 255, 255, 255),
                scale_i == grid.scale,
                shx == grid.view_shift_x,
                shy == grid.view_shift_y,
                mxi == grid.mouse_status.mouse_x,
                myi == grid.mouse_status.mouse_y,
                hnone == (grid.highlight_x is None),
                m2 == base + part_v + part_h,
                self.cmds@ == m2 + sectors_view(
                    player.level,
                    old(grid).selected_wall,
                    scale_i,
                    shx,
                    shy,
                    mxi,
                    myi,
                    hnone,
                    s as int,
                ),
                base.len() <= self.cmds@.len(),
                forall|k: int| 0 <= k < base.len() ==> self.cmds@[k] == base[k],
                self.draw_mode == DrawMode::Draw2D,
            decreases nsec - s,
        {
            let lo = player.level.sectors[s].wall_start as usize;
            let hi = player.level.sectors[s].wall_end as usize;
            let mut w = lo;
            while w < hi
                invariant
                    grid_wf(*grid),
                    player_wf(*player),
                    *player == *old(player),
                    grid.mouse_status == old(grid).mouse_status,
                    grid.scale == (if old(grid).scale <= 1 {
                        1int
                    } else {
                        old(grid).scale as int
                    }),
                    grid.view_shift_x == old(grid).view_shift_x,
                    grid.view_shift_y == old(grid).view_shift_y,
                    grid.highlight_x == old(grid).highlight_x,
                    grid.highlight_y == old(grid).highlight_y,
                    grid.selected_point == old(grid).selected_point,
                    grid.selected_wall == old(grid).selected_wall,
                    grid.selection.points == old(grid).selection.points,
                    grid.new_sector == old(grid).new_sector,
                    grid.state == old(grid).state,
                    match old(grid).selected_wall {
                        None => grid.selected_sector == old(grid).selected_sector,
                        Some(sw) => {
                            &&& (((exists|s2: int|
                                s2 < s && crate::level::wall_in_sector(
                                    player.level,
                                    s2,
                                    sw as int,
                                )) || (lo <= sw < w)) ==> match grid.selected_sector {
                                Some(o) => crate::level::wall_in_sector(
                                    player.level,
                                    o as int,
                                    sw as int,
                                ),
                                None => false,
                            })
                            &&& (!((exists|s2: int|
                                s2 < s && crate::level::wall_in_sector(
                                    player.level,
                                    s2,
                                    sw as int,
                                )) || (lo <= sw < w)) ==> grid.selected_sector == old(
                                grid,
                            ).selected_sector)
                        },
                    },
                    nsec == player.level.sectors@.len(),
                    s < nsec,
                    lo == player.level.sectors@[s as int].wall_start,
                    hi == player.level.sectors@[s as int].wall_end,
                    lo <= w <= hi,
                    hi <= player.level.walls@.len(),
                    wht == crate::color::spec_rgba(255, 255, 255, 255),
                    scale_i == grid.scale,
                    shx == grid.view_shift_x,
                    shy == grid.view_shift_y,
                    mxi == grid.mouse_status.mouse_x,
                    myi == grid.mouse_status.mouse_y,
                    hnone == (grid.highlight_x is None),
                    m2 == base + part_v + part_h,
                    self.cmds@ == m2 + sectors_view(
                        player.level,
                        old(grid).selected_wall,
                        scale_i,
                        shx,
                        shy,
                        mxi,
                        myi,
                        hnone,
                        s as int,
                    ) + walls_view_range(
                        player.level.walls@,
                        old(grid).selected_wall,
                        scale_i,
                        shx,
                        shy,
                        mxi,
                        myi,
                        hnone,
                        lo as int,
                        w as int,
                    ),
                    base.len() <= self.cmds@.len(),
                    forall|k: int| 0 <= k < base.len() ==> self.cmds@[k] == base[k],
                    self.draw_mode == DrawMode::Draw2D,
                decreases hi - w,
            {
                proof {
                    let sc = grid.scale as int;
                    assert(forall|a: int|
                        -2_000_000 <= a <= 2_000_000 && 1 <= sc <= 100 ==> -200_000_000
                            <= #[trigger] (a * sc) <= 200_000_000) by (nonlinear_arith);
                }
                let wall = player.level.walls[w];
                let ghost wv_base = self.cmds@;
                let wx1 = (wall.x1 as i64 + grid.view_shift_x as i64) * grid.scale as i64;
                let wy1 = (wall.y1 as i64 + grid.view_shift_y as i64) * grid.scale as i64;
                let wx2 = (wall.x2 as i64 + grid.view_shift_x as i64) * grid.scale as i64;
                let wy2 = (wall.y2 as i64 + grid.view_shift_y as i64) * grid.scale as i64;
                self.draw_thick_line(wx1, wy1, wx2, wy2, wall.color);
                let selected = match grid.selected_wall {
                    Some(sw) => sw == w,
                    None => false,
                };
                proof {
                    assert(selected == (old(grid).selected_wall == Some(w)));
                    if !selected {
                        assert(self.cmds@ =~= wv_base + (thick_line_cmds(
                            (wall.x1 + shx) * scale_i,
                            (wall.y1 + shy) * scale_i,
                            (wall.x2 + shx) * scale_i,
                            (wall.y2 + shy) * scale_i,
                            wall.color,
                        ) + Seq::empty()));
                    }
                }
                if selected {
                    grid.selected_sector = Some(s);
                    self.draw_thick_line(wx1, wy1, wx2, wy2, wht);
                    proof {
                        assert(self.cmds@ =~= wv_base + (thick_line_cmds(
                            (wall.x1 + shx) * scale_i,
                            (wall.y1 + shy) * scale_i,
                            (wall.x2 + shx) * scale_i,
                            (wall.y2 + shy) * scale_i,
                            wall.color,
                        ) + thick_line_cmds(
                            (wall.x1 + shx) * scale_i,
                            (wall.y1 + shy) * scale_i,
                            (wall.x2 + shx) * scale_i,
                            (wall.y2 + shy) * scale_i,
                            wht,
                        )));
                    }
                }
                let ghost hover_base = self.cmds@;
                let dxm = grid.mouse_status.mouse_x as i64 - wx2;
                let dym = grid.mouse_status.mouse_y as i64 - wy2;
                proof {
                    assert(dxm * dxm >= 0 && dxm * dxm <= 1_000_000_000_000_000_000 && dym * dym
                        >= 0 && dym * dym <= 1_000_000_000_000_000_000 && dxm * dxm == (wx2 - mxi)
                        * (wx2 - mxi) && dym * dym == (wy2 - myi) * (wy2 - myi))
                        by (nonlinear_arith)
                        requires
                            -400_000_000 <= dxm <= 400_000_000,
                            -400_000_000 <= dym <= 400_000_000,
                            dxm == mxi - wx2,
                            dym == myi - wy2,
                    ;
                    assert(dxm * dxm + dym * dym == crate::math::dist_sq(
                        mxi,
                        myi,
                        wx2 as int,
                        wy2 as int,
                    ));
                }
                if dxm * dxm + dym * dym <= 36 && grid.highlight_x.is_none() {
                    let mut rad: u32 = 1;
                    while rad < 6
                        invariant
                            1 <= rad <= 6,
                            -300_000_000 <= wx2 <= 300_000_000,
                            -300_000_000 <= wy2 <= 300_000_000,
                            wht == crate::color::spec_rgba(255, 255, 255, 255),
                            self.cmds@ == hover_base + hover_circles_upto(
                                wx2 as int,
                                wy2 as int,
                                rad as int,
                            ),
                            base.len() <= self.cmds@.len(),
                            forall|k: int| 0 <= k < base.len() ==> self.cmds@[k] == base[k],
                            self.draw_mode == DrawMode::Draw2D,
                        decreases 6 - rad,
                    {
                        self.draw_circle(wx2, wy2, rad, wht);
                        proof {
                            assert(self.cmds@ =~= hover_base + hover_circles_upto(
                                wx2 as int,
                                wy2 as int,
                                rad + 1,
                            ));
                        }
                        rad = rad + 1;
                    }
                } else {
                    proof {
                        assert(self.cmds@ =~= hover_base + Seq::<DrawCmd>::empty());
                    }
                }
                proof {
                    assert(self.cmds@ =~= wv_base + wall_view_cmds(
                        wall,
                        scale_i,
                        shx,
                        shy,
                        selected,
                        mxi,
                        myi,
                        hnone,
                    ));
                    lemma_walls_view_extend(
                        player.level.walls@,
                        old(grid).selected_wall,
                        scale_i,
                        shx,
                        shy,
                        mxi,
                        myi,
                        hnone,
                        lo as int,
                        w as int,
                    );
                    assert(self.cmds@ =~= m2 + sectors_view(
                        player.level,
                        old(grid).selected_wall,
                        scale_i,
                        shx,
                        shy,
                        mxi,
                        myi,
                        hnone,
                        s as int,
                    ) + walls_view_range(
                        player.level.walls@,
                        old(grid).selected_wall,
                        scale_i,
                        shx,
                        shy,
                        mxi,
                        myi,
                        hnone,
                        lo as int,
                        w + 1,
                    ));
                }
                w = w + 1;
            }
            proof {
                assert(self.cmds@ =~= m2 + sectors_view(
                    player.level,
                    old(grid).selected_wall,
                    scale_i,
                    shx,
                    shy,
                    mxi,
                    myi,
                    hnone,
                    s + 1,
                ));
                match old(grid).selected_wall {
                    Some(sw) => {
                        if lo <= sw < hi {
                            assert(crate::level::wall_in_sector(player.level, s as int, sw as int));
                        }
                        if exists|s2: int|
                            s2 < s + 1 && crate::level::wall_in_sector(
                                player.level,
                                s2,
                                sw as int,
                            ) {
                            let s2 = choose|s2: int|
                                s2 < s + 1 && crate::level::wall_in_sector(
                                    player.level,
                                    s2,
                                    sw as int,
                                );
                            if s2 == s {
                                assert(lo <= sw < hi);
                            }
                        }
                    },
                    None => {},
                }
            }
            s = s + 1;
        }
        let ghost m3 = m2 + sectors_view(
            old(player).level,
            old(grid).selected_wall,
            scale_i,
            shx,
            shy,
            mxi,
            myi,
            hnone,
            old(player).level.sectors@.len() as int,
        );
        proof {
            assert(self.cmds@ =~= m3);
        }
        if grid.selected_point.is_none() {
            let pts_len = grid.selection.points.len();
            let mut pi: usize = 0;
            while pi < pts_len
                invariant
                    grid_wf(*grid),
                    player_wf(*player),
                    *player == *old(player),
                    pts_len == grid.selection.points@.len(),
                    pi <= pts_len,
                    grid.mouse_status == old(grid).mouse_status,
                    grid.view_shift_x == old(grid).view_shift_x,
                    grid.view_shift_y == old(grid).view_shift_y,
                    grid.highlight_x == old(grid).highlight_x,
                    grid.highlight_y == old(grid).highlight_y,
                    grid.selected_point == old(grid).selected_point,
                    grid.selected_wall == old(grid).selected_wall,
                    grid.selection.points == old(grid).selection.points,
                    grid.new_sector == old(grid).new_sector,
                    grid.state == old(grid).state,
                    grid.scale == (if old(grid).scale <= 1 {
                        1int
                    } else {
                        old(grid).scale as int
                    }),
                    scale_i == grid.scale,
                    shx == grid.view_shift_x,
                    shy == grid.view_shift_y,
                    self.cmds@ == m3 + sel_circles(
                        grid.selection.points@,
                        player.level.walls@,
                        scale_i,
                        shx,
                        shy,
                        pi as int,
                    ),
                    base.len() <= self.cmds@.len(),
                    forall|k: int| 0 <= k < base.len() ==> self.cmds@[k] == base[k],
                    self.draw_mode == DrawMode::Draw2D,
                decreases pts_len - pi,
            {
                let p = grid.selection.points[pi];
                let ghost circ_base = self.cmds@;
                if p % 2 == 1 {
                    let widx = p / 2 + 1;
                    if widx < player.level.walls.len() {
                        proof {
                            let sc = grid.scale as int;
                            assert(forall|a: int|
                                -2_000_000 <= a <= 2_000_000 && 1 <= sc <= 100 ==> -200_000_000
                                    <= #[trigger] (a * sc) <= 200_000_000) by (nonlinear_arith);
                        }
                        let wall = player.level.walls[widx];
                        let cx = (wall.x1 as i64 + grid.view_shift_x as i64) * grid.scale as i64;
                        let cy = (wall.y1 as i64 + grid.view_shift_y as i64) * grid.scale as i64;
                        let wht2 = white();
                        self.draw_circle(cx, cy, 4, wht2);
                    }
                }
                proof {
                    assert(self.cmds@ =~= m3 + sel_circles(
                        grid.selection.points@,
                        player.level.walls@,
                        scale_i,
                        shx,
                        shy,
                        pi + 1,
                    ));
                }
                pi = pi + 1;
            }
        }
        let ghost m4 = m3 + (if old(grid).selected_point is None {
            sel_circles(
                old(grid).selection.points@,
                old(player).level.walls@,
                scale_i,
                shx,
                shy,
                old(grid).selection.points@.len() as int,
            )
        } else {
            Seq::<DrawCmd>::empty()
        });
        proof {
            assert(self.cmds@ =~= m4);
        }
        let ghost g_at = *grid;
        collect_marquee(grid, player);
        proof {
            match (old(grid).highlight_x, old(grid).highlight_y) {
                (Some(hx), Some(hy)) => {
                    if old(grid).selected_point is None {
                        crate::edit::lemma_marquee_ids_congruent(
                            player.level,
                            g_at,
                            Grid {
                                scale: (if old(grid).scale <= 1 {
                                    1int
                                } else {
                                    old(grid).scale as int
                                }) as i32,
                                ..*old(grid)
                            },
                            spec_marquee_rect(
                                hx as int,
                                hy as int,
                                old(grid).mouse_status.mouse_x as int,
                                old(grid).mouse_status.mouse_y as int,
                            ),
                            player.level.sectors@.len() as int,
                        );
                    }
                },
                _ => {},
            }
            let sc = grid.scale as int;
            assert(forall|a: int|
                -2_000_000 <= a <= 2_000_000 && 1 <= sc <= 100 ==> -200_000_000 <= #[trigger] (a
                    * sc) <= 200_000_000) by (nonlinear_arith);
        }
        let pxs = (player.position.x as i64 + grid.view_shift_x as i64) * grid.scale as i64;
        let pys = (player.position.y as i64 + grid.view_shift_y as i64) * grid.scale as i64;
        let grn = crate::color::green();
        self.draw_player(pxs, pys, grn, grid, player);
        let ghost m5 = m4 + (seq![
            DrawCmd::Rect {
                x: ((old(player).position.x + shx) * scale_i) as i32,
                y: ((old(player).position.y + shy) * scale_i) as i32,
                w: (2 * scale_i) as u32,
                h: (2 * scale_i) as u32,
                color: spec_rgba(154, 214, 28, 255),
            },
        ] + arc_cmds(
            (old(player).position.x + shx) * scale_i,
            (old(player).position.y + shy) * scale_i,
            old(player).angle_h as int,
            spec_rgba(154, 214, 28, 255),
        ));
        proof {
            assert(self.cmds@ =~= m5);
        }
        let ghost p_pre = *player;
        let ghost m6 = m5 + (match old(grid).new_sector {
            Some(pts) => trace_preview_cmds(pts@, mxi, myi),
            None => Seq::<DrawCmd>::empty(),
        });
        if grid.new_sector.is_some() {
            self.draw_new_sector(grid, player, color_seed);
            proof {
                assert(player.level.walls@.subrange(0, p_pre.level.walls@.len() as int)
                    =~= p_pre.level.walls@);
                assert(player.level.sectors@.subrange(0, p_pre.level.sectors@.len() as int)
                    =~= p_pre.level.sectors@);
                assert(self.cmds@ =~= m6);
            }
        } else {
            proof {
                assert(self.cmds@ =~= m6);
            }
        }
        let g4 = grey4();
        self.cmds.push(
            DrawCmd::Rect {
                x: 0,
                y: (6 * SCREEN_HEIGHT / 7) as i32,
                w: SCREEN_WIDTH as u32,
                h: (SCREEN_HEIGHT - 6 * SCREEN_HEIGHT / 7) as u32,
                color: g4,
            },
        );
        let ghost m7 = m6 + seq![
            DrawCmd::Rect {
                x: 0,
                y: (6 * SCREEN_HEIGHT / 7) as i32,
                w: SCREEN_WIDTH as u32,
                h: (SCREEN_HEIGHT - 6 * SCREEN_HEIGHT / 7) as u32,
                color: spec_rgba(70, 70, 70, 255),
            },
        ];
        proof {
            assert(self.cmds@ =~= m7);
        }
        let anchor = match (grid.highlight_x, grid.highlight_y) {
            (Some(hx), Some(hy)) => Some((hx, hy)),
            _ => None,
        };
        match anchor {
            Some((hx, hy)) => {
                if grid.selected_point.is_none() {
                    let _ = self.highlight_rectangle(grid, hx, hy, true);
                }
            },
            None => {},
        }
        proof {
            assert(self.cmds@ =~= base + draw2d_cmds(
                old(player).level,
                *old(player),
                *old(grid),
                scale_i,
            ));
        }
    }

    /// One frame: clears to the background color and draws whichever view
    /// is active.
    pub fn draw(&mut self, player: &mut PlayerInfo, grid: &mut Grid, bank: &Vec<Texture>, gun: Option<&Texture>, color_seed: u32)
        requires
            grid_wf(*old(grid)),
            player_wf(*old(player)),
            old(player).level.walls@.len() <= 1_000_000_000,
            old(player).level.walls@.len() + 100_001 < 0x7fff_ffff,
            old(player).level.sectors@.len() + 1 < 0xffff_ffff,
            forall|i: int| 0 <= i < bank@.len() ==> tex_ok(#[trigger] bank@[i]),
            match gun {
                Some(t) => tex_ok(*t),
                None => true,
            },
        ensures
            grid_wf(*final(grid)),
            player_wf(*final(player)),
            final(player).position == old(player).position,
            final(player).angle_h == old(player).angle_h,
            final(self).draw_mode == old(self).draw_mode,
            final(self).cmds@.len() >= 1,
            final(self).cmds@[0] == (DrawCmd::Rect {
                x: 0,
                y: 0,
                w: SCREEN_WIDTH as u32,
                h: SCREEN_HEIGHT as u32,
                color: spec_rgba(128, 128, 128, 255),
            }),
            old(self).draw_mode == DrawMode::Draw3D ==> {
                &&& final(player).level.walls@ == old(player).level.walls@
                &&& final(player).level.sectors@.to_multiset() == crate::level::with_distances(
                    old(player).level,
                    old(player).position.x as int,
                    old(player).position.y as int,
                ).to_multiset()
                &&& crate::level::sorted_desc(final(player).level.sectors@)
                &&& *final(grid) == *old(grid)
                &&& final(self).cmds@ == seq![
                    DrawCmd::Rect {
                        x: 0,
                        y: 0,
                        w: SCREEN_WIDTH as u32,
                        h: SCREEN_HEIGHT as u32,
                        color: spec_rgba(128, 128, 128, 255),
                    },
                ] + frame_emit(
                    final(player).level.sectors@,
                    final(player).level.sectors@.len() as int,
                    final(player).level.walls@,
                    Seq::new(SCREEN_WIDTH as nat, |k: int| 0i32),
                    bank@,
                    old(player).position.x as int,
                    old(player).position.y as int,
                    old(player).position.z as int,
                    old(player).angle_h as int,
                ).0 + (match gun {
                    Some(g) => overlay_cmds(*g),
                    None => Seq::empty(),
                })
            },
            old(self).draw_mode == DrawMode::Draw2D ==> {
                &&& final(self).cmds@ == seq![
                    DrawCmd::Rect {
                        x: 0,
                        y: 0,
                        w: SCREEN_WIDTH as u32,
                        h: SCREEN_HEIGHT as u32,
                        color: spec_rgba(128, 128, 128, 255),
                    },
                ] + draw2d_cmds(
                    old(player).level,
                    *old(player),
                    *old(grid),
                    if old(grid).scale <= 1 {
                        1int
                    } else {
                        old(grid).scale as int
                    },
                )
                &&& final(grid).scale == (if old(grid).scale <= 1 {
                    1int
                } else {
                    old(grid).scale as int
                })
                &&& (old(grid).new_sector is None ==> *final(player) == *old(player))
                &&& old(player).level.walls@.len() <= final(player).level.walls@.len()
                &&& final(player).level.walls@.subrange(
                    0,
                    old(player).level.walls@.len() as int,
                ) == old(player).level.walls@
                &&& old(player).level.sectors@.len() <= final(player).level.sectors@.len()
                &&& final(player).level.sectors@.subrange(
                    0,
                    old(player).level.sectors@.len() as int,
                ) == old(player).level.sectors@
                &&& final(grid).selected_wall == old(grid).selected_wall
                &&& final(grid).selected_point == old(grid).selected_point
                &&& final(grid).view_shift_x == old(grid).view_shift_x
                &&& final(grid).view_shift_y == old(grid).view_shift_y
                &&& (match (old(grid).highlight_x, old(grid).highlight_y) {
                    (Some(hx), Some(hy)) => if old(grid).selected_point is None {
                        final(grid).selection.points@ == old(grid).selection.points@
                            + crate::edit::sectors_marquee_ids(
                            old(player).level,
                            Grid {
                                scale: (if old(grid).scale <= 1 {
                                    1int
                                } else {
                                    old(grid).scale as int
                                }) as i32,
                                ..*old(grid)
                            },
                            spec_marquee_rect(
                                hx as int,
                                hy as int,
                                old(grid).mouse_status.mouse_x as int,
                                old(grid).mouse_status.mouse_y as int,
                            ),
                            old(player).level.sectors@.len() as int,
                        )
                    } else {
                        final(grid).selection.points@ == old(grid).selection.points@
                    },
                    _ => final(grid).selection.points@ == old(grid).selection.points@,
                })
            },
    {
        self.draw_background();
        let mode = self.draw_mode;
        match mode {
            DrawMode::Draw2D => {
                self.draw2d(player, grid, color_seed);
            },
            DrawMode::Draw3D => {
                self.draw3d(player, bank, gun);
            },
        }
    }
}

} // verus!
