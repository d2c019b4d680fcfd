//! The spatial data model: walls, sectors, levels and the player, together
//! with their invariants, the player movement, and the back-to-front sector
//! ordering used by the perspective renderer.
use crate::color::Rgba;
use crate::math::{
    distance, div_trunc, dist_sq, one_if_none, sine, cosine, spec_sine, spec_cosine, sqrt_floor,
    tdiv, lemma_tdiv_bounds, lemma_tdiv_mul_bound, is_sqrt, lemma_sqrt_floor_is_sqrt,
};
use vstd::prelude::*;

verus! {

/// Every map-space coordinate and height the library stores is kept within
/// this bound, so all derived arithmetic fits comfortably in 64 bits.
/// Writes that would leave the bound saturate at it (see `clamp_map`);
/// inside the bound every computation is exact.
pub const MAP_LIMIT: i32 = 1_000_000;

/// View angles are kept within this bound; the trig functions reduce them
/// modulo 360 anyway.
pub const ANGLE_LIMIT: i32 = 1_000_000_000;

/// An integer position in map space.
#[derive(Clone, Copy, Debug, PartialEq, Eq, Structural, Default)]
pub struct XYZ {
    pub x: i32,
    pub y: i32,
    pub z: i32,
}

/// Which horizontal surface of a sector the renderer is scanning this frame.
#[derive(Clone, Copy, Debug, PartialEq, Eq, Structural)]
pub enum Surface {
    /// The ceiling is visible: record per-column ceiling boundaries.
    TopScan,
    /// The floor is visible: record per-column floor boundaries.
    BottomScan,
}

/// A directed wall segment in map space, with its color, an optional index
/// into the texture bank, and the texture repeat factors.
#[derive(Clone, Copy, Debug)]
pub struct Wall {
    pub x1: i32,
    pub y1: i32,
    pub x2: i32,
    pub y2: i32,
    pub color: Rgba,
    pub texture: Option<u32>,
    pub u: i32,
    pub v: i32,
}

/// A sector: a contiguous range `[wall_start, wall_end)` of the level's
/// wall sequence, with its floor and ceiling heights, fallback colors,
/// derived player distance, and optional surface texture.
#[derive(Clone, Copy, Debug)]
pub struct Sector {
    pub wall_start: i32,
    pub wall_end: i32,
    pub bottom_height: i32,
    pub top_height: i32,
    pub distance: i64,
    pub top_color: Rgba,
    pub bottom_color: Rgba,
    pub surface_texture: Option<u32>,
}

/// A level: the flat wall sequence and the sectors partitioning it.
#[derive(Clone, Debug)]
pub struct Level {
    pub number_of_sectors: u32,
    pub sectors: Vec<Sector>,
    pub number_of_walls: u32,
    pub walls: Vec<Wall>,
}

/// The player: a position, a horizontal view angle in degrees, and the
/// level the player owns.
#[derive(Clone, Debug)]
pub struct PlayerInfo {
    pub position: XYZ,
    pub angle_h: i32,
    pub level: Level,
}

/// A wall is well formed when its endpoints and repeat factors are within
/// the map bound.
pub open spec fn wall_wf(w: Wall) -> bool {
    &&& -MAP_LIMIT <= w.x1 <= MAP_LIMIT
    &&& -MAP_LIMIT <= w.y1 <= MAP_LIMIT
    &&& -MAP_LIMIT <= w.x2 <= MAP_LIMIT
    &&& -MAP_LIMIT <= w.y2 <= MAP_LIMIT
    &&& -MAP_LIMIT <= w.u <= MAP_LIMIT
    &&& -MAP_LIMIT <= w.v <= MAP_LIMIT
}

/// A sector is well formed when its wall range is a nonempty range of
/// valid wall indices, its heights are within the map bound, and its
/// derived distance is in the range `distances` can produce.
pub open spec fn sector_wf(s: Sector, nwalls: int) -> bool {
    &&& 0 <= s.wall_start < s.wall_end <= nwalls
    &&& -MAP_LIMIT <= s.bottom_height <= MAP_LIMIT
    &&& -MAP_LIMIT <= s.top_height <= MAP_LIMIT
    &&& 0 <= s.distance <= 6_000_000
}

/// A level is well formed when the stored counts match the sequences and
/// every sector and wall is itself well formed.
pub open spec fn level_wf(l: Level) -> bool {
    &&& l.number_of_sectors == l.sectors@.len()
    &&& l.number_of_walls == l.walls@.len()
    &&& forall|i: int|
        0 <= i < l.sectors@.len() ==> sector_wf(#[trigger] l.sectors@[i], l.walls@.len() as int)
    &&& forall|i: int| 0 <= i < l.walls@.len() ==> wall_wf(#[trigger] l.walls@[i])
}

/// In a freshly built or freshly extended level the sector ranges tile the
/// wall sequence in order: each sector begins where the previous one ends.
/// Sorting sectors by distance permutes the ranges but keeps them disjoint
/// and covering.
pub open spec fn level_contiguous(l: Level) -> bool {
    &&& (l.sectors@.len() == 0 ==> l.walls@.len() == 0)
    &&& (l.sectors@.len() > 0 ==> l.sectors@[0].wall_start == 0
        && l.sectors@[l.sectors@.len() - 1].wall_end == l.walls@.len())
    &&& forall|i: int|
        0 <= i < l.sectors@.len() - 1 ==> (#[trigger] l.sectors@[i + 1]).wall_start
            == l.sectors@[i].wall_end
}

/// Wall `w` lies in sector `s`'s range.
pub open spec fn wall_in_sector(l: Level, s: int, w: int) -> bool {
    &&& 0 <= s < l.sectors@.len()
    &&& l.sectors@[s].wall_start <= w < l.sectors@[s].wall_end
}

/// Some sector's range holds wall `w`.
pub open spec fn wall_covered(ss: Seq<Sector>, w: int) -> bool {
    exists|s: int| 0 <= s < ss.len() && (#[trigger] ss[s]).wall_start <= w < ss[s].wall_end
}

/// Every wall belongs to some sector's range: no orphan walls.
pub open spec fn ranges_cover(ss: Seq<Sector>, nwalls: int) -> bool {
    forall|w: int| 0 <= w < nwalls ==> #[trigger] wall_covered(ss, w)
}

/// The ranges of different sectors never overlap.
pub open spec fn ranges_disjoint(ss: Seq<Sector>) -> bool {
    forall|i: int, j: int|
        0 <= i < ss.len() && 0 <= j < ss.len() && i != j ==> ((#[trigger] ss[i]).wall_end <= (
        #[trigger] ss[j]).wall_start || ss[j].wall_end <= ss[i].wall_start)
}

/// The sector ranges partition the wall sequence: they are pairwise
/// disjoint and together cover every wall. Unlike `level_contiguous` this
/// holds in any sector order, so it survives the back-to-front sort.
pub open spec fn level_partitioned(l: Level) -> bool {
    &&& ranges_cover(l.sectors@, l.walls@.len() as int)
    &&& ranges_disjoint(l.sectors@)
}

/// In a contiguous level an earlier sector ends before a later one starts.
proof fn lemma_contig_order(l: Level, i: int, j: int)
    requires
        level_wf(l),
        level_contiguous(l),
        0 <= i < j < l.sectors@.len(),
    ensures
        l.sectors@[i].wall_end <= l.sectors@[j].wall_start,
    decreases j - i,
{
    assert(l.sectors@[(j - 1) + 1].wall_start == l.sectors@[j - 1].wall_end);
    if j == i + 1 {
    } else {
        lemma_contig_order(l, i, j - 1);
        assert(sector_wf(l.sectors@[j - 1], l.walls@.len() as int));
    }
}

/// In a contiguous level every wall index from the start of sector `k` on
/// lies in some sector's range.
proof fn lemma_contig_find(l: Level, w: int, k: int)
    requires
        level_wf(l),
        level_contiguous(l),
        0 <= k < l.sectors@.len(),
        l.sectors@[k].wall_start <= w,
        w < l.sectors@[l.sectors@.len() - 1].wall_end,
    ensures
        wall_covered(l.sectors@, w),
    decreases l.sectors@.len() - k,
{
    if w < l.sectors@[k].wall_end {
        assert(0 <= k < l.sectors@.len() && (#[trigger] l.sectors@[k]).wall_start <= w
            < l.sectors@[k].wall_end);
    } else {
        if k + 1 >= l.sectors@.len() {
            assert(false);
        } else {
            lemma_contig_find(l, w, k + 1);
        }
    }
}

/// A well-formed contiguous level is partitioned: the ordered tiling of
/// the wall sequence is in particular disjoint and covering.
pub proof fn lemma_contiguous_partitioned(l: Level)
    requires
        level_wf(l),
        level_contiguous(l),
    ensures
        level_partitioned(l),
{
    assert forall|w: int| 0 <= w < l.walls@.len() implies #[trigger] wall_covered(
        l.sectors@,
        w,
    ) by {
        lemma_contig_find(l, w, 0);
    };
    assert forall|i: int, j: int|
        0 <= i < l.sectors@.len() && 0 <= j < l.sectors@.len() && i != j implies ((
    #[trigger] l.sectors@[i]).wall_end <= (#[trigger] l.sectors@[j]).wall_start
        || l.sectors@[j].wall_end <= l.sectors@[i].wall_start) by {
        if i < j {
            lemma_contig_order(l, i, j);
        } else {
            lemma_contig_order(l, j, i);
        }
    };
}

/// Two distinct positions holding the same value put its multiset count
/// at two or more.
proof fn lemma_two_indices_count(s: Seq<Sector>, i: int, j: int)
    requires
        0 <= i < s.len(),
        0 <= j < s.len(),
        i != j,
        s[i] == s[j],
    ensures
        s.to_multiset().count(s[i]) >= 2,
{
    broadcast use vstd::seq_lib::group_seq_properties;

    s.to_multiset_ensures();
    let s2 = s.remove(i);
    s2.to_multiset_ensures();
    vstd::seq_lib::to_multiset_remove(s, i);
    let j2 = if j < i {
        j
    } else {
        j - 1
    };
    assert(s2[j2] == s[j]);
    assert(s2.contains(s[j]));
    assert(s2.to_multiset().count(s[j]) > 0);
}

/// A multiset count of two or more puts the value at two distinct
/// positions.
proof fn lemma_count_two_indices(s: Seq<Sector>, e: Sector)
    requires
        s.to_multiset().count(e) >= 2,
    ensures
        exists|i: int, j: int|
            0 <= i < s.len() && 0 <= j < s.len() && i != j && (#[trigger] s[i]) == e && (
            #[trigger] s[j]) == e,
{
    broadcast use vstd::seq_lib::group_seq_properties;

    s.to_multiset_ensures();
    assert(s.contains(e));
    let i = choose|i: int| 0 <= i < s.len() && s[i] == e;
    let s2 = s.remove(i);
    s2.to_multiset_ensures();
    vstd::seq_lib::to_multiset_remove(s, i);
    assert(s2.to_multiset().count(e) >= 1);
    assert(s2.contains(e));
    let j2 = choose|j2: int| 0 <= j2 < s2.len() && s2[j2] == e;
    let j = if j2 < i {
        j2
    } else {
        j2 + 1
    };
    assert(s[j] == s2[j2]);
    assert(0 <= i < s.len() && 0 <= j < s.len() && i != j && (#[trigger] s[i]) == e && (
    #[trigger] s[j]) == e);
}

/// A partition of the wall sequence survives any permutation of the
/// sectors, as long as every range is nonempty.
pub proof fn lemma_partition_permuted(a: Seq<Sector>, b: Seq<Sector>, nwalls: int)
    requires
        a.to_multiset() == b.to_multiset(),
        ranges_cover(a, nwalls),
        ranges_disjoint(a),
        forall|i: int| 0 <= i < a.len() ==> (#[trigger] a[i]).wall_start < a[i].wall_end,
    ensures
        ranges_cover(b, nwalls),
        ranges_disjoint(b),
{
    broadcast use vstd::seq_lib::group_seq_properties;

    a.to_multiset_ensures();
    b.to_multiset_ensures();
    assert forall|w: int| 0 <= w < nwalls implies #[trigger] wall_covered(b, w) by {
        assert(wall_covered(a, w));
        let sa = choose|s: int| 0 <= s < a.len() && (#[trigger] a[s]).wall_start <= w < a[s].wall_end;
        let e = a[sa];
        assert(a.contains(e));
        assert(b.to_multiset().count(e) > 0);
        assert(b.contains(e));
        let sb = choose|s: int| 0 <= s < b.len() && b[s] == e;
        assert(0 <= sb < b.len() && (#[trigger] b[sb]).wall_start <= w < b[sb].wall_end);
    };
    assert forall|i: int, j: int|
        0 <= i < b.len() && 0 <= j < b.len() && i != j implies ((#[trigger] b[i]).wall_end <= (
    #[trigger] b[j]).wall_start || b[j].wall_end <= b[i].wall_start) by {
        let e1 = b[i];
        let e2 = b[j];
        if e1 == e2 {
            lemma_two_indices_count(b, i, j);
            assert(a.to_multiset().count(e1) >= 2);
            lemma_count_two_indices(a, e1);
            let (i2, j2): (int, int) = choose|i2: int, j2: int|
                0 <= i2 < a.len() && 0 <= j2 < a.len() && i2 != j2 && (#[trigger] a[i2]) == e1 && (
                #[trigger] a[j2]) == e1;
            assert(a[i2].wall_end <= a[j2].wall_start || a[j2].wall_end <= a[i2].wall_start);
            assert(false);
        } else {
            assert(a.to_multiset().count(e1) > 0);
            assert(a.contains(e1));
            assert(a.to_multiset().count(e2) > 0);
            assert(a.contains(e2));
            let i2 = choose|s: int| 0 <= s < a.len() && a[s] == e1;
            let j2 = choose|s: int| 0 <= s < a.len() && a[s] == e2;
            assert(a[i2].wall_end <= a[j2].wall_start || a[j2].wall_end <= a[i2].wall_start);
        }
    };
}

/// The player is well formed when the position is within the map bound,
/// the angle within the angle bound, and the level well formed.
pub open spec fn player_wf(p: PlayerInfo) -> bool {
    &&& -MAP_LIMIT <= p.position.x <= MAP_LIMIT
    &&& -MAP_LIMIT <= p.position.y <= MAP_LIMIT
    &&& -MAP_LIMIT <= p.position.z <= MAP_LIMIT
    &&& -ANGLE_LIMIT <= p.angle_h <= ANGLE_LIMIT
    &&& level_wf(p.level)
}

/// Clamping into the map bound.
pub open spec fn spec_clamp_map(v: int) -> int {
    if v < -MAP_LIMIT {
        -MAP_LIMIT as int
    } else if v > MAP_LIMIT {
        MAP_LIMIT as int
    } else {
        v
    }
}

/// Clamps a computed coordinate into the map bound.
pub fn clamp_map(v: i64) -> (r: i32)
    ensures
        r == spec_clamp_map(v as int),
{
    if v < -(MAP_LIMIT as i64) {
        -MAP_LIMIT
    } else if v > MAP_LIMIT as i64 {
        MAP_LIMIT
    } else {
        v as i32
    }
}

impl Wall {
    /// Builds a wall from its endpoints with the given color, texture and
    /// unit repeat factors, clamping the endpoints into the map bound.
    pub fn new(x1: i64, y1: i64, x2: i64, y2: i64, color: Rgba, texture: Option<u32>) -> (w: Wall)
        ensures
            wall_wf(w),
            w.x1 == spec_clamp_map(x1 as int),
            w.y1 == spec_clamp_map(y1 as int),
            w.x2 == spec_clamp_map(x2 as int),
            w.y2 == spec_clamp_map(y2 as int),
            w.color == color,
            w.texture == texture,
            w.u == 1 && w.v == 1,
    {
        Wall {
            x1: clamp_map(x1),
            y1: clamp_map(y1),
            x2: clamp_map(x2),
            y2: clamp_map(y2),
            color,
            texture,
            u: 1,
            v: 1,
        }
    }

    /// Cycles this wall's texture forward through a bank of `bank_len`
    /// entries, wrapping from the last entry to the first; a wall with no
    /// texture, or one pointing outside the bank, is left unchanged.
    pub fn next_texture(&mut self, bank_len: u32)
        ensures
            match old(self).texture {
                Some(i) => if i < bank_len {
                    *final(self) == (Wall {
                        texture: Some(if i + 1 == bank_len {
                            0u32
                        } else {
                            (i + 1) as u32
                        }),
                        ..*old(self)
                    })
                } else {
                    *final(self) == *old(self)
                },
                None => *final(self) == *old(self),
            },
    {
        match self.texture {
            Some(i) => {
                if i < bank_len {
                    self.texture = Some(crate::texture::next_texture_index(i, bank_len));
                }
            },
            None => {},
        }
    }

    /// Cycles this wall's texture backward through a bank of `bank_len`
    /// entries, wrapping from the first entry to the last; a wall with no
    /// texture, or one pointing outside the bank, is left unchanged.
    pub fn prev_texture(&mut self, bank_len: u32)
        ensures
            match old(self).texture {
                Some(i) => if i < bank_len {
                    *final(self) == (Wall {
                        texture: Some(if i == 0 {
                            (bank_len - 1) as u32
                        } else {
                            (i - 1) as u32
                        }),
                        ..*old(self)
                    })
                } else {
                    *final(self) == *old(self)
                },
                None => *final(self) == *old(self),
            },
    {
        match self.texture {
            Some(i) => {
                if i < bank_len {
                    self.texture = Some(crate::texture::prev_texture_index(i, bank_len));
                }
            },
            None => {},
        }
    }
}

impl PlayerInfo {
    /// A fresh player standing in a single square seed sector.
    pub fn new() -> (p: PlayerInfo)
        ensures
            player_wf(p),
            level_contiguous(p.level),
            p.position == (XYZ { x: 32, y: 32, z: 10 }),
            p.angle_h == 0,
            p.level.number_of_sectors == 1,
            p.level.number_of_walls == 4,
    {
        let green = crate::color::green();
        let white = crate::color::white();
        let black = crate::color::black();
        let mut walls: Vec<Wall> = Vec::new();
        walls.push(Wall::new(32, 32, 64, 32, green, Some(0)));
        walls.push(Wall::new(64, 32, 64, 64, green, Some(0)));
        walls.push(Wall::new(64, 64, 32, 64, green, Some(0)));
        walls.push(Wall::new(32, 64, 32, 32, green, Some(0)));
        let mut sectors: Vec<Sector> = Vec::new();
        sectors.push(
            Sector {
                wall_start: 0,
                wall_end: 4,
                bottom_height: 0,
                top_height: 40,
                distance: 0,
                top_color: white,
                bottom_color: black,
                surface_texture: Some(0),
            },
        );
        PlayerInfo {
            position: XYZ { x: 32, y: 32, z: 10 },
            angle_h: 0,
            level: Level { number_of_sectors: 1, sectors, number_of_walls: 4, walls },
        }
    }

    /// Moves the player up by one pixel-scale step (screen up is smaller z).
    pub fn move_up(player: &mut PlayerInfo)
        requires
            player_wf(*old(player)),
        ensures
            player_wf(*final(player)),
            final(player).position.z == spec_clamp_map(old(player).position.z - 1),
            final(player).position.x == old(player).position.x,
            final(player).position.y == old(player).position.y,
            final(player).angle_h == old(player).angle_h,
            final(player).level == old(player).level,
    {
        player.position.z = clamp_map(player.position.z as i64 - 1);
    }

    /// Moves the player down by one pixel-scale step.
    pub fn move_down(player: &mut PlayerInfo)
        requires
            player_wf(*old(player)),
        ensures
            player_wf(*final(player)),
            final(player).position.z == spec_clamp_map(old(player).position.z + 1),
            final(player).position.x == old(player).position.x,
            final(player).position.y == old(player).position.y,
            final(player).angle_h == old(player).angle_h,
            final(player).level == old(player).level,
    {
        player.position.z = clamp_map(player.position.z as i64 + 1);
    }

    /// Turns the view ten degrees to the left.
    pub fn look_left(player: &mut PlayerInfo)
        requires
            player_wf(*old(player)),
        ensures
            player_wf(*final(player)),
            final(player).angle_h == spec_clamp_angle(old(player).angle_h - 10),
            final(player).position == old(player).position,
            final(player).level == old(player).level,
    {
        player.angle_h = clamp_angle(player.angle_h as i64 - 10);
    }

    /// Turns the view ten degrees to the right.
    pub fn look_right(player: &mut PlayerInfo)
        requires
            player_wf(*old(player)),
        ensures
            player_wf(*final(player)),
            final(player).angle_h == spec_clamp_angle(old(player).angle_h + 10),
            final(player).position == old(player).position,
            final(player).level == old(player).level,
    {
        player.angle_h = clamp_angle(player.angle_h as i64 + 10);
    }

    /// Walks ten map units along the view direction.
    pub fn move_fowward(player: &mut PlayerInfo)
        requires
            player_wf(*old(player)),
        ensures
            player_wf(*final(player)),
            final(player).position.x == spec_clamp_map(
                old(player).position.x + step_dx(old(player).angle_h as int),
            ),
            final(player).position.y == spec_clamp_map(
                old(player).position.y + step_dy(old(player).angle_h as int),
            ),
            final(player).position.z == old(player).position.z,
            final(player).angle_h == old(player).angle_h,
            final(player).level == old(player).level,
    {
        let (dx, dy) = view_step(player.angle_h);
        player.position.x = clamp_map(player.position.x as i64 + dx as i64);
        player.position.y = clamp_map(player.position.y as i64 + dy as i64);
    }

    /// Walks ten map units away from the view direction.
    pub fn move_backward(player: &mut PlayerInfo)
        requires
            player_wf(*old(player)),
        ensures
            player_wf(*final(player)),
            final(player).position.x == spec_clamp_map(
                old(player).position.x - step_dx(old(player).angle_h as int),
            ),
            final(player).position.y == spec_clamp_map(
                old(player).position.y - step_dy(old(player).angle_h as int),
            ),
            final(player).position.z == old(player).position.z,
            final(player).angle_h == old(player).angle_h,
            final(player).level == old(player).level,
    {
        let (dx, dy) = view_step(player.angle_h);
        player.position.x = clamp_map(player.position.x as i64 - dx as i64);
        player.position.y = clamp_map(player.position.y as i64 - dy as i64);
    }

    /// Strafes ten map units to the right of the view direction.
    pub fn move_right(player: &mut PlayerInfo)
        requires
            player_wf(*old(player)),
        ensures
            player_wf(*final(player)),
            final(player).position.x == spec_clamp_map(
                old(player).position.x + step_dy(old(player).angle_h as int),
            ),
            final(player).position.y == spec_clamp_map(
                old(player).position.y - step_dx(old(player).angle_h as int),
            ),
            final(player).position.z == old(player).position.z,
            final(player).angle_h == old(player).angle_h,
            final(player).level == old(player).level,
    {
        let (dx, dy) = view_step(player.angle_h);
        player.position.x = clamp_map(player.position.x as i64 + dy as i64);
        player.position.y = clamp_map(player.position.y as i64 - dx as i64);
    }

    /// Strafes ten map units to the left of the view direction.
    pub fn move_left(player: &mut PlayerInfo)
        requires
            player_wf(*old(player)),
        ensures
            player_wf(*final(player)),
            final(player).position.x == spec_clamp_map(
                old(player).position.x - step_dy(old(player).angle_h as int),
            ),
            final(player).position.y == spec_clamp_map(
                old(player).position.y + step_dx(old(player).angle_h as int),
            ),
            final(player).position.z == old(player).position.z,
            final(player).angle_h == old(player).angle_h,
            final(player).level == old(player).level,
    {
        let (dx, dy) = view_step(player.angle_h);
        player.position.x = clamp_map(player.position.x as i64 - dy as i64);
        player.position.y = clamp_map(player.position.y as i64 + dx as i64);
    }
}

/// The number of steps of the digital-line walk along a wall: the span of
/// its dominant axis.
pub open spec fn walk_steps(w: Wall) -> int {
    let ax = if w.x2 >= w.x1 {
        w.x2 - w.x1
    } else {
        w.x1 - w.x2
    };
    let ay = if w.y2 >= w.y1 {
        w.y2 - w.y1
    } else {
        w.y1 - w.y2
    };
    if ax >= ay {
        ax
    } else {
        ay
    }
}

/// The `n`-th point of the digital-line walk along a wall: both coordinates
/// advance by `n / steps` of their span, rounded toward zero.
pub open spec fn walk_point(w: Wall, n: int) -> (int, int) {
    let m = if walk_steps(w) == 0 {
        1
    } else {
        walk_steps(w)
    };
    (w.x1 + tdiv(n * (w.x2 - w.x1), m), w.y1 + tdiv(n * (w.y2 - w.y1), m))
}

impl Wall {
    /// The points of the digital-line walk from the wall's first endpoint
    /// toward its second, one per step of the dominant axis.
    pub fn get_points(self) -> (r: Vec<(i32, i32)>)
        requires
            wall_wf(self),
        ensures
            r@.len() == walk_steps(self),
            forall|n: int|
                0 <= n < r@.len() ==> (#[trigger] r@[n]).0 == walk_point(self, n).0 && r@[n].1
                    == walk_point(self, n).1,
    {
        let dx = self.x2 as i64 - self.x1 as i64;
        let dy = self.y2 as i64 - self.y1 as i64;
        let ax = if dx >= 0 {
            dx
        } else {
            -dx
        };
        let ay = if dy >= 0 {
            dy
        } else {
            -dy
        };
        let steps = if ax >= ay {
            ax
        } else {
            ay
        };
        let m = one_if_none(steps);
        let mut r: Vec<(i32, i32)> = Vec::new();
        let mut n: i64 = 0;
        while n < steps
            invariant
                0 <= n <= steps,
                steps == walk_steps(self),
                m == if steps == 0 {
                    1int
                } else {
                    steps as int
                },
                wall_wf(self),
                dx == self.x2 - self.x1,
                dy == self.y2 - self.y1,
                r@.len() == n,
                forall|k: int|
                    0 <= k < n ==> (#[trigger] r@[k]).0 == walk_point(self, k).0 && r@[k].1
                        == walk_point(self, k).1,
            decreases steps - n,
        {
            proof {
                assert(-4_000_000_000_000 <= n * dx <= 4_000_000_000_000 && -4_000_000_000_000 <= n
                    * dy <= 4_000_000_000_000) by (nonlinear_arith)
                    requires
                        0 <= n <= 2_000_000,
                        -2_000_000 <= dx <= 2_000_000,
                        -2_000_000 <= dy <= 2_000_000,
                ;
                lemma_tdiv_mul_bound(n as int, dx as int, m as int);
                lemma_tdiv_mul_bound(n as int, dy as int, m as int);
            }
            let px = self.x1 as i64 + div_trunc(n * dx, m);
            let py = self.y1 as i64 + div_trunc(n * dy, m);
            r.push((px as i32, py as i32));
            n = n + 1;
        }
        r
    }
}

/// Deep equality of two walls.
pub fn wall_eq(a: &Wall, b: &Wall) -> (r: bool)
    ensures
        r == (*a == *b),
{
    let tex_eq = match (a.texture, b.texture) {
        (Some(i), Some(j)) => i == j,
        (None, None) => true,
        _ => false,
    };
    a.x1 == b.x1 && a.y1 == b.y1 && a.x2 == b.x2 && a.y2 == b.y2 && a.color == b.color && tex_eq
        && a.u == b.u && a.v == b.v
}

/// Deep equality of two sectors.
pub fn sector_eq(a: &Sector, b: &Sector) -> (r: bool)
    ensures
        r == (*a == *b),
{
    let tex_eq = match (a.surface_texture, b.surface_texture) {
        (Some(i), Some(j)) => i == j,
        (None, None) => true,
        _ => false,
    };
    a.wall_start == b.wall_start && a.wall_end == b.wall_end && a.bottom_height == b.bottom_height
        && a.top_height == b.top_height && a.distance == b.distance && a.top_color == b.top_color
        && a.bottom_color == b.bottom_color && tex_eq
}

/// Deep equality of two levels: same counts, same sectors, same walls,
/// field for field and in the same order.
pub fn level_eq(a: &Level, b: &Level) -> (r: bool)
    ensures
        r == (a.number_of_sectors == b.number_of_sectors && a.number_of_walls
            == b.number_of_walls && a.sectors@ == b.sectors@ && a.walls@ == b.walls@),
{
    if a.number_of_sectors != b.number_of_sectors || a.number_of_walls != b.number_of_walls {
        return false;
    }
    if a.sectors.len() != b.sectors.len() || a.walls.len() != b.walls.len() {
        proof {
            assert(a.sectors@ == b.sectors@ ==> a.sectors@.len() == b.sectors@.len());
            assert(a.walls@ == b.walls@ ==> a.walls@.len() == b.walls@.len());
        }
        return false;
    }
    let mut i: usize = 0;
    while i < a.sectors.len()
        invariant
            i <= a.sectors@.len() == b.sectors@.len(),
            a.walls@.len() == b.walls@.len(),
            forall|k: int| 0 <= k < i ==> a.sectors@[k] == b.sectors@[k],
        decreases a.sectors@.len() - i,
    {
        if !sector_eq(&a.sectors[i], &b.sectors[i]) {
            proof {
                assert(a.sectors@ == b.sectors@ ==> a.sectors@[i as int] == b.sectors@[i as int]);
            }
            return false;
        }
        i = i + 1;
    }
    let mut j: usize = 0;
    while j < a.walls.len()
        invariant
            j <= a.walls@.len() == b.walls@.len(),
            a.sectors@.len() == b.sectors@.len(),
            forall|k: int| 0 <= k < a.sectors@.len() ==> a.sectors@[k] == b.sectors@[k],
            forall|k: int| 0 <= k < j ==> a.walls@[k] == b.walls@[k],
        decreases a.walls@.len() - j,
    {
        if !wall_eq(&a.walls[j], &b.walls[j]) {
            proof {
                assert(a.walls@ == b.walls@ ==> a.walls@[j as int] == b.walls@[j as int]);
            }
            return false;
        }
        j = j + 1;
    }
    proof {
        assert(a.sectors@ =~= b.sectors@);
        assert(a.walls@ =~= b.walls@);
    }
    true
}

/// The identity on a mouse position: the cursor is already in screen space.
pub fn mouse_point(mouse_x: i32, mouse_y: i32) -> (r: (i32, i32))
    ensures
        r.0 == mouse_x && r.1 == mouse_y,
{
    (mouse_x, mouse_y)
}

/// Clamping into the angle bound.
pub open spec fn spec_clamp_angle(v: int) -> int {
    if v < -ANGLE_LIMIT {
        -ANGLE_LIMIT as int
    } else if v > ANGLE_LIMIT {
        ANGLE_LIMIT as int
    } else {
        v
    }
}

/// Clamps an angle into the angle bound.
pub fn clamp_angle(v: i64) -> (r: i32)
    ensures
        r == spec_clamp_angle(v as int),
{
    if v < -(ANGLE_LIMIT as i64) {
        -ANGLE_LIMIT
    } else if v > ANGLE_LIMIT as i64 {
        ANGLE_LIMIT
    } else {
        v as i32
    }
}

/// The x component of a ten-unit walk along view angle `deg`.
pub open spec fn step_dx(deg: int) -> int {
    tdiv(10 * spec_sine(deg), 1000)
}

/// The y component of a ten-unit walk along view angle `deg`.
pub open spec fn step_dy(deg: int) -> int {
    tdiv(10 * spec_cosine(deg), 1000)
}

/// Sectors in non-increasing order of derived distance: the farthest sector
/// is drawn first.
pub open spec fn sorted_desc(s: Seq<Sector>) -> bool {
    forall|i: int, j: int| 0 <= i <= j < s.len() ==> s[i].distance >= s[j].distance
}

/// Swapping two entries of a sequence leaves its multiset unchanged.
proof fn lemma_swap_multiset(s: Seq<Sector>, i: int, j: int)
    requires
        0 <= i < s.len(),
        0 <= j < s.len(),
        i != j,
    ensures
        s.update(i, s[j]).update(j, s[i]).to_multiset() == s.to_multiset(),
{
    broadcast use vstd::seq_lib::group_seq_properties;

    let s1 = s.update(i, s[j]);
    let s2 = s1.update(j, s[i]);
    vstd::seq_lib::to_multiset_update(s, i, s[j]);
    vstd::seq_lib::to_multiset_update(s1, j, s[i]);
    s.to_multiset_ensures();
    s1.to_multiset_ensures();
    assert(s.to_multiset().count(s[i]) > 0);
    assert(s1[j] == s[j]);
    assert(s2.to_multiset() =~= s.to_multiset());
}

/// A stable exchange sort of the sectors by non-increasing distance:
/// the result is a permutation of the input, ordered back to front.
pub fn sort(sec_vec: Vec<Sector>) -> (r: Vec<Sector>)
    ensures
        r@.len() == sec_vec@.len(),
        r@.to_multiset() == sec_vec@.to_multiset(),
        sorted_desc(r@),
{
    let mut v = sec_vec;
    let ghost orig = v@;
    let n = v.len();
    proof {
        v@.to_multiset_ensures();
    }
    if n == 0 {
        return v;
    }
    let mut pass: usize = 0;
    while pass < n
        invariant
            v@.len() == n == orig.len(),
            n >= 1,
            pass <= n,
            v@.to_multiset() == orig.to_multiset(),
            forall|i: int, j: int|
                n - pass <= i <= j < n ==> v@[i].distance >= v@[j].distance,
            forall|i: int, j: int|
                0 <= i < n - pass && n - pass <= j < n ==> v@[i].distance >= v@[j].distance,
        decreases n - pass,
    {
        let mut k: usize = 0;
        while k + 1 < n - pass
            invariant
                v@.len() == n == orig.len(),
                n >= 1,
                pass < n,
                k + pass + 1 <= n,
                v@.to_multiset() == orig.to_multiset(),
                forall|i: int, j: int|
                    n - pass <= i <= j < n ==> v@[i].distance >= v@[j].distance,
                forall|i: int, j: int|
                    0 <= i < n - pass && n - pass <= j < n ==> v@[i].distance >= v@[j].distance,
                forall|i: int| 0 <= i <= k ==> (#[trigger] v@[i]).distance >= v@[k as int].distance,
            decreases n - pass - k,
        {
            if v[k].distance < v[k + 1].distance {
                let a = v[k];
                let b = v[k + 1];
                proof {
                    lemma_swap_multiset(v@, k as int, k + 1 as int);
                }
                v[k] = b;
                v[k + 1] = a;
            }
            k = k + 1;
        }
        proof {
            assert(k == n - 1 - pass);
            assert forall|i: int, j: int|
                0 <= i < n - (pass + 1) && n - (pass + 1) <= j < n implies v@[i].distance
                >= v@[j].distance by {
                if j == n - 1 - pass {
                    assert(v@[i].distance >= v@[k as int].distance);
                }
            };
            assert forall|i: int, j: int|
                n - (pass + 1) <= i <= j < n implies v@[i].distance >= v@[j].distance by {
                if i == n - 1 - pass && j > i {
                    assert(0 <= i < n - pass && n - pass <= j < n);
                }
            };
        }
        pass = pass + 1;
    }
    proof {
        assert(forall|i: int, j: int| 0 <= i <= j < n ==> v@[i].distance >= v@[j].distance);
    }
    v
}

/// The x coordinate of a wall's midpoint, rounded toward zero.
pub open spec fn wall_mid_x(w: Wall) -> int {
    tdiv(w.x1 + w.x2, 2)
}

/// The y coordinate of a wall's midpoint, rounded toward zero.
pub open spec fn wall_mid_y(w: Wall) -> int {
    tdiv(w.y1 + w.y2, 2)
}

/// The sum of the midpoint x coordinates of the walls in `[lo, hi)`.
pub open spec fn sum_mid_x(walls: Seq<Wall>, lo: int, hi: int) -> int
    decreases hi - lo,
{
    if lo >= hi {
        0
    } else {
        wall_mid_x(walls[lo]) + sum_mid_x(walls, lo + 1, hi)
    }
}

/// The sum of the midpoint y coordinates of the walls in `[lo, hi)`.
pub open spec fn sum_mid_y(walls: Seq<Wall>, lo: int, hi: int) -> int
    decreases hi - lo,
{
    if lo >= hi {
        0
    } else {
        wall_mid_y(walls[lo]) + sum_mid_y(walls, lo + 1, hi)
    }
}

/// The centroid of a sector's wall midpoints, rounded toward zero.
pub open spec fn sector_centroid(walls: Seq<Wall>, s: Sector) -> (int, int) {
    let count = s.wall_end - s.wall_start;
    (
        tdiv(sum_mid_x(walls, s.wall_start as int, s.wall_end as int), count),
        tdiv(sum_mid_y(walls, s.wall_start as int, s.wall_end as int), count),
    )
}

/// The derived distance of a sector: the Euclidean distance from the
/// player to the centroid of the sector's wall midpoints.
pub open spec fn spec_sector_distance(walls: Seq<Wall>, s: Sector, px: int, py: int) -> int {
    sqrt_floor(
        dist_sq(px, py, sector_centroid(walls, s).0, sector_centroid(walls, s).1),
    )
}

/// The same sector with its derived distance replaced.
pub open spec fn with_distance(s: Sector, d: i64) -> Sector {
    Sector { distance: d, ..s }
}

/// A well-formed wall's midpoint stays within twice the map bound.
proof fn lemma_wall_mid_bounds(w: Wall)
    requires
        wall_wf(w),
    ensures
        -2_000_000 <= wall_mid_x(w) <= 2_000_000,
        -2_000_000 <= wall_mid_y(w) <= 2_000_000,
{
    lemma_tdiv_bounds(w.x1 + w.x2, 2);
    lemma_tdiv_bounds(w.y1 + w.y2, 2);
}

/// Extending a midpoint sum by one wall on the right.
proof fn lemma_sum_mid_extend(walls: Seq<Wall>, lo: int, hi: int)
    requires
        lo <= hi < walls.len(),
    ensures
        sum_mid_x(walls, lo, hi + 1) == sum_mid_x(walls, lo, hi) + wall_mid_x(walls[hi]),
        sum_mid_y(walls, lo, hi + 1) == sum_mid_y(walls, lo, hi) + wall_mid_y(walls[hi]),
    decreases hi - lo,
{
    if lo >= hi {
        assert(sum_mid_x(walls, lo + 1, hi + 1) == 0);
        assert(sum_mid_y(walls, lo + 1, hi + 1) == 0);
    } else {
        lemma_sum_mid_extend(walls, lo + 1, hi);
    }
}

/// A midpoint sum over well-formed walls is within
/// `(hi - lo) * 2_000_000` of zero in both axes.
proof fn lemma_sum_mid_bounds(walls: Seq<Wall>, lo: int, hi: int)
    requires
        0 <= lo <= hi <= walls.len(),
        forall|i: int| 0 <= i < walls.len() ==> wall_wf(#[trigger] walls[i]),
    ensures
        -(hi - lo) * 2_000_000 <= sum_mid_x(walls, lo, hi) <= (hi - lo) * 2_000_000,
        -(hi - lo) * 2_000_000 <= sum_mid_y(walls, lo, hi) <= (hi - lo) * 2_000_000,
    decreases hi - lo,
{
    if lo >= hi {
    } else {
        lemma_wall_mid_bounds(walls[lo]);
        lemma_sum_mid_bounds(walls, lo + 1, hi);
        assert((hi - lo - 1) * 2_000_000 + 2_000_000 == (hi - lo) * 2_000_000) by (nonlinear_arith);
    }
}

/// The centroid of a well-formed sector's wall midpoints stays within
/// twice the map bound.
proof fn lemma_sector_centroid_bounds(walls: Seq<Wall>, s: Sector)
    requires
        sector_wf(s, walls.len() as int),
        forall|i: int| 0 <= i < walls.len() ==> wall_wf(#[trigger] walls[i]),
    ensures
        -2_000_000 <= sector_centroid(walls, s).0 <= 2_000_000,
        -2_000_000 <= sector_centroid(walls, s).1 <= 2_000_000,
{
    let lo = s.wall_start as int;
    let hi = s.wall_end as int;
    let count = hi - lo;
    lemma_sum_mid_bounds(walls, lo, hi);
    lemma_tdiv_quotient_bound(sum_mid_x(walls, lo, hi), count, 2_000_000);
    lemma_tdiv_quotient_bound(sum_mid_y(walls, lo, hi), count, 2_000_000);
}

/// A sum within `c * m` of zero divides by `c` into `[-m, m]`.
proof fn lemma_tdiv_quotient_bound(a: int, c: int, m: int)
    requires
        c >= 1,
        m >= 0,
        -c * m <= a <= c * m,
    ensures
        -m <= tdiv(a, c) <= m,
{
    if a >= 0 {
        vstd::arithmetic::div_mod::lemma_div_pos_is_pos(a, c);
        vstd::arithmetic::div_mod::lemma_div_is_ordered(a, c * m, c);
        vstd::arithmetic::div_mod::lemma_div_multiples_vanish(m, c);
    } else {
        assert(-a <= c * m && -(c * m) == c * (-m)) by (nonlinear_arith)
            requires
                -c * m <= a,
        ;
        vstd::arithmetic::div_mod::lemma_div_pos_is_pos(-a, c);
        vstd::arithmetic::div_mod::lemma_div_is_ordered(-a, c * m, c);
        vstd::arithmetic::div_mod::lemma_div_multiples_vanish(m, c);
    }
}

/// The derived distance of a well-formed sector is within `[0, 6_000_000]`.
proof fn lemma_sector_distance_bounds(walls: Seq<Wall>, s: Sector, px: int, py: int)
    requires
        sector_wf(s, walls.len() as int),
        forall|i: int| 0 <= i < walls.len() ==> wall_wf(#[trigger] walls[i]),
        -MAP_LIMIT <= px <= MAP_LIMIT,
        -MAP_LIMIT <= py <= MAP_LIMIT,
    ensures
        0 <= spec_sector_distance(walls, s, px, py) <= 6_000_000,
{
    lemma_sector_centroid_bounds(walls, s);
    let cx = sector_centroid(walls, s).0;
    let cy = sector_centroid(walls, s).1;
    let d = dist_sq(px, py, cx, cy);
    assert(0 <= d <= 18_000_000_000_000) by (nonlinear_arith)
        requires
            -3_000_000 <= cx - px <= 3_000_000,
            -3_000_000 <= cy - py <= 3_000_000,
            d == dist_sq(px, py, cx, cy),
    ;
    lemma_sqrt_floor_is_sqrt(d);
    assert(sqrt_floor(d) <= 6_000_000) by (nonlinear_arith)
        requires
            is_sqrt(d, sqrt_floor(d)),
            d <= 18_000_000_000_000,
    ;
}

/// Computes the distance from the player to the centroid of one sector's
/// wall midpoints.
fn sector_distance(walls: &Vec<Wall>, s: &Sector, px: i32, py: i32) -> (d: i64)
    requires
        sector_wf(*s, walls@.len() as int),
        forall|i: int| 0 <= i < walls@.len() ==> wall_wf(#[trigger] walls@[i]),
        -MAP_LIMIT <= px <= MAP_LIMIT,
        -MAP_LIMIT <= py <= MAP_LIMIT,
    ensures
        d == spec_sector_distance(walls@, *s, px as int, py as int),
        0 <= d <= 6_000_000,
{
    let lo = s.wall_start as usize;
    let hi = s.wall_end as usize;
    let mut sum_x: i64 = 0;
    let mut sum_y: i64 = 0;
    let mut i = lo;
    while i < hi
        invariant
            lo <= i <= hi <= walls@.len(),
            hi <= 0x7fffffff,
            sum_x == sum_mid_x(walls@, lo as int, i as int),
            sum_y == sum_mid_y(walls@, lo as int, i as int),
            -(i - lo) * 2_000_000 <= sum_x <= (i - lo) * 2_000_000,
            -(i - lo) * 2_000_000 <= sum_y <= (i - lo) * 2_000_000,
            forall|k: int| 0 <= k < walls@.len() ==> wall_wf(#[trigger] walls@[k]),
        decreases hi - i,
    {
        let w = &walls[i];
        proof {
            lemma_wall_mid_bounds(walls@[i as int]);
            lemma_sum_mid_extend(walls@, lo as int, i as int);
            lemma_sum_mid_bounds(walls@, lo as int, (i + 1) as int);
            assert((i + 1 - lo) * 2_000_000 <= 0x7fffffffi64 * 2_000_000) by (nonlinear_arith)
                requires
                    0 <= i + 1 - lo <= 0x7fffffffi64,
            ;
        }
        sum_x = sum_x + div_trunc(w.x1 as i64 + w.x2 as i64, 2);
        sum_y = sum_y + div_trunc(w.y1 as i64 + w.y2 as i64, 2);
        i = i + 1;
    }
    let count = (hi - lo) as i64;
    proof {
        lemma_tdiv_quotient_bound(sum_x as int, count as int, 2_000_000);
        lemma_tdiv_quotient_bound(sum_y as int, count as int, 2_000_000);
        assert(count as int * 2_000_000 <= 0x7fffffffi64 * 2_000_000 && -(0x7fffffffi64
            * 2_000_000) <= -(count as int * 2_000_000)) by (nonlinear_arith)
            requires
                1 <= count as int <= 0x7fffffffi64,
        ;
    }
    let cx = div_trunc(sum_x, count);
    let cy = div_trunc(sum_y, count);
    let d = distance(px as i64, py as i64, cx, cy);
    proof {
        lemma_sector_distance_bounds(walls@, *s, px as int, py as int);
    }
    d
}

/// The sectors of `l`, each with its derived distance recomputed for a
/// player at `(px, py)`.
pub open spec fn with_distances(l: Level, px: int, py: int) -> Seq<Sector> {
    l.sectors@.map_values(
        |s: Sector| with_distance(s, spec_sector_distance(l.walls@, s, px, py) as i64),
    )
}

impl PlayerInfo {
    /// Recomputes every sector's distance from the player (the Euclidean
    /// distance to the centroid of its walls' midpoints) and reorders the
    /// sectors back to front, farthest first.
    pub fn distances(player: &mut PlayerInfo)
        requires
            player_wf(*old(player)),
        ensures
            player_wf(*final(player)),
            final(player).position == old(player).position,
            final(player).angle_h == old(player).angle_h,
            final(player).level.walls@ == old(player).level.walls@,
            final(player).level.number_of_walls == old(player).level.number_of_walls,
            final(player).level.number_of_sectors == old(player).level.number_of_sectors,
            final(player).level.sectors@.to_multiset() == with_distances(
                old(player).level,
                old(player).position.x as int,
                old(player).position.y as int,
            ).to_multiset(),
            sorted_desc(final(player).level.sectors@),
            level_partitioned(old(player).level) ==> level_partitioned(final(player).level),
    {
        let px = player.position.x;
        let py = player.position.y;
        let n = player.level.sectors.len();
        let ghost orig = player.level.sectors@;
        let ghost walls0 = player.level.walls@;
        let mut i: usize = 0;
        while i < n
            invariant
                player.level.sectors@.len() == n == orig.len(),
                player.level.walls@ == walls0,
                player_wf(*player),
                player.position.x == px,
                player.position.y == py,
                i <= n,
                forall|k: int|
                    0 <= k < i ==> player.level.sectors@[k] == with_distance(
                        orig[k],
                        spec_sector_distance(walls0, orig[k], px as int, py as int) as i64,
                    ),
                forall|k: int| i <= k < n ==> player.level.sectors@[k] == orig[k],
                player.level.number_of_sectors == old(player).level.number_of_sectors,
                player.level.number_of_walls == old(player).level.number_of_walls,
                player.position == old(player).position,
                player.angle_h == old(player).angle_h,
            decreases n - i,
        {
            let mut s = player.level.sectors[i];
            let d = sector_distance(&player.level.walls, &s, px, py);
            s.distance = d;
            player.level.sectors[i] = s;
            proof {
                assert(player.level.sectors@[i as int] == with_distance(
                    orig[i as int],
                    spec_sector_distance(walls0, orig[i as int], px as int, py as int) as i64,
                ));
            }
            i = i + 1;
        }
        proof {
            assert(player.level.sectors@ =~= with_distances(
                old(player).level,
                px as int,
                py as int,
            ));
        }
        let mut sectors: Vec<Sector> = Vec::new();
        std::mem::swap(&mut sectors, &mut player.level.sectors);
        let sorted = sort(sectors);
        player.level.sectors = sorted;
        proof {
            let src = with_distances(old(player).level, px as int, py as int);
            let fin = player.level.sectors@;
            assert forall|idx: int| 0 <= idx < src.len() implies sector_wf(
                #[trigger] src[idx],
                walls0.len() as int,
            ) by {
                lemma_sector_distance_bounds(walls0, orig[idx], px as int, py as int);
            };
            fin.to_multiset_ensures();
            src.to_multiset_ensures();
            assert forall|idx: int| 0 <= idx < fin.len() implies sector_wf(
                #[trigger] fin[idx],
                walls0.len() as int,
            ) by {
                assert(fin.contains(fin[idx]));
                assert(src.to_multiset().count(fin[idx]) > 0);
                assert(src.contains(fin[idx]));
                let w = choose|k: int| 0 <= k < src.len() && src[k] == fin[idx];
                assert(sector_wf(src[w], walls0.len() as int));
            };
            if level_partitioned(old(player).level) {
                let mapped = with_distances(old(player).level, px as int, py as int);
                let nwalls = walls0.len() as int;
                assert forall|w: int| 0 <= w < nwalls implies #[trigger] wall_covered(
                    mapped,
                    w,
                ) by {
                    assert(wall_covered(orig, w));
                    let sa = choose|s2: int|
                        0 <= s2 < orig.len() && (#[trigger] orig[s2]).wall_start <= w
                            < orig[s2].wall_end;
                    assert((#[trigger] mapped[sa]).wall_start <= w < mapped[sa].wall_end);
                };
                assert forall|i2: int, j2: int|
                    0 <= i2 < mapped.len() && 0 <= j2 < mapped.len() && i2 != j2 implies ((
                #[trigger] mapped[i2]).wall_end <= (#[trigger] mapped[j2]).wall_start
                    || mapped[j2].wall_end <= mapped[i2].wall_start) by {
                    assert(orig[i2].wall_end <= orig[j2].wall_start || orig[j2].wall_end
                        <= orig[i2].wall_start);
                };
                assert forall|i2: int| 0 <= i2 < mapped.len() implies (
                #[trigger] mapped[i2]).wall_start < mapped[i2].wall_end by {
                    assert(sector_wf(orig[i2], nwalls));
                };
                lemma_partition_permuted(mapped, fin, nwalls);
            }
        }
    }
}

/// The movement step along the view direction: ten map units scaled by the
/// fixed-point sine and cosine of the view angle.
fn view_step(angle: i32) -> (r: (i32, i32))
    ensures
        r.0 == step_dx(angle as int),
        r.1 == step_dy(angle as int),
        -10 <= r.0 <= 10,
        -10 <= r.1 <= 10,
{
    let s = sine(angle);
    let c = cosine(angle);
    proof {
        lemma_tdiv_bounds(10 * s as int, 1000);
        lemma_tdiv_bounds(10 * c as int, 1000);
        lemma_tdiv_bounds(-(10 * s as int), 1000);
        lemma_tdiv_bounds(-(10 * c as int), 1000);
    }
    let dx = div_trunc(10 * (s as i64), 1000);
    let dy = div_trunc(10 * (c as i64), 1000);
    (dx as i32, dy as i32)
}

} // verus!
