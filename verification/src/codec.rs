//! The level codec: a level is serialized to a flat word sequence and
//! parsed back. Encoding is injective on well-formed levels and decoding
//! accepts exactly the encodings, so a saved level reloads identically.
use crate::color::Rgba;
use crate::level::{
    Level, Sector, Wall, level_wf, sector_wf, wall_wf, MAP_LIMIT,
};
use vstd::prelude::*;

verus! {

/// Number of words in an encoded sector record.
pub const SECTOR_WORDS: usize = 14;

/// Number of words in an encoded wall record.
pub const WALL_WORDS: usize = 11;

/// The four channel words of a color.
pub open spec fn color_words(c: Rgba) -> Seq<i64> {
    seq![c.r as i64, c.g as i64, c.b as i64, c.a as i64]
}

/// An optional texture index as one word: absent is `-1`.
pub open spec fn opt_word(t: Option<u32>) -> i64 {
    match t {
        None => -1i64,
        Some(i) => i as i64,
    }
}

/// The word record of one sector.
pub open spec fn sector_words(s: Sector) -> Seq<i64> {
    seq![s.wall_start as i64, s.wall_end as i64, s.bottom_height as i64, s.top_height as i64, s.distance]
        + color_words(s.top_color) + color_words(s.bottom_color) + seq![opt_word(s.surface_texture)]
}

/// The word record of one wall.
pub open spec fn wall_words(w: Wall) -> Seq<i64> {
    seq![w.x1 as i64, w.y1 as i64, w.x2 as i64, w.y2 as i64] + color_words(w.color)
        + seq![opt_word(w.texture), w.u as i64, w.v as i64]
}

/// The concatenated records of a sector sequence.
pub open spec fn sectors_words(ss: Seq<Sector>) -> Seq<i64>
    decreases ss.len(),
{
    if ss.len() == 0 {
        Seq::empty()
    } else {
        sectors_words(ss.drop_last()) + sector_words(ss.last())
    }
}

/// The concatenated records of a wall sequence.
pub open spec fn walls_words(ws: Seq<Wall>) -> Seq<i64>
    decreases ws.len(),
{
    if ws.len() == 0 {
        Seq::empty()
    } else {
        walls_words(ws.drop_last()) + wall_words(ws.last())
    }
}

/// The full word sequence of a level: the two counts, the sector records,
/// then the wall records.
pub open spec fn level_words(l: Level) -> Seq<i64> {
    seq![l.number_of_sectors as i64, l.number_of_walls as i64] + sectors_words(l.sectors@)
        + walls_words(l.walls@)
}

/// A sector-record sequence is as long as fourteen words per sector.
pub proof fn lemma_sectors_words_len(ss: Seq<Sector>)
    ensures
        sectors_words(ss).len() == SECTOR_WORDS * ss.len(),
    decreases ss.len(),
{
    if ss.len() == 0 {
    } else {
        lemma_sectors_words_len(ss.drop_last());
        assert(SECTOR_WORDS * (ss.len() - 1) + SECTOR_WORDS == SECTOR_WORDS * ss.len())
            by (nonlinear_arith);
    }
}

/// A wall-record sequence is as long as eleven words per wall.
pub proof fn lemma_walls_words_len(ws: Seq<Wall>)
    ensures
        walls_words(ws).len() == WALL_WORDS * ws.len(),
    decreases ws.len(),
{
    if ws.len() == 0 {
    } else {
        lemma_walls_words_len(ws.drop_last());
        assert(WALL_WORDS * (ws.len() - 1) + WALL_WORDS == WALL_WORDS * ws.len())
            by (nonlinear_arith);
    }
}

/// The record of sector `k` sits at offset `14 * k` of the concatenation.
pub proof fn lemma_sectors_words_index(ss: Seq<Sector>, k: int)
    requires
        0 <= k < ss.len(),
    ensures
        sectors_words(ss).subrange(
            SECTOR_WORDS * k,
            SECTOR_WORDS * k + SECTOR_WORDS,
        ) == sector_words(ss[k]),
    decreases ss.len(),
{
    lemma_sectors_words_len(ss);
    lemma_sectors_words_len(ss.drop_last());
    if k == ss.len() - 1 {
        assert(sectors_words(ss).subrange(SECTOR_WORDS * k, SECTOR_WORDS * k + SECTOR_WORDS)
            =~= sector_words(ss.last()));
    } else {
        lemma_sectors_words_index(ss.drop_last(), k);
        assert(ss.drop_last()[k] == ss[k]);
        assert(sectors_words(ss).subrange(SECTOR_WORDS * k, SECTOR_WORDS * k + SECTOR_WORDS)
            =~= sectors_words(ss.drop_last()).subrange(
            SECTOR_WORDS * k,
            SECTOR_WORDS * k + SECTOR_WORDS,
        ));
    }
}

/// The record of wall `k` sits at offset `11 * k` of the concatenation.
pub proof fn lemma_walls_words_index(ws: Seq<Wall>, k: int)
    requires
        0 <= k < ws.len(),
    ensures
        walls_words(ws).subrange(WALL_WORDS * k, WALL_WORDS * k + WALL_WORDS) == wall_words(ws[k]),
    decreases ws.len(),
{
    lemma_walls_words_len(ws);
    lemma_walls_words_len(ws.drop_last());
    if k == ws.len() - 1 {
        assert(walls_words(ws).subrange(WALL_WORDS * k, WALL_WORDS * k + WALL_WORDS)
            =~= wall_words(ws.last()));
    } else {
        lemma_walls_words_index(ws.drop_last(), k);
        assert(ws.drop_last()[k] == ws[k]);
        assert(walls_words(ws).subrange(WALL_WORDS * k, WALL_WORDS * k + WALL_WORDS)
            =~= walls_words(ws.drop_last()).subrange(WALL_WORDS * k, WALL_WORDS * k + WALL_WORDS));
    }
}

/// Encoding is injective: two well-formed levels with the same words hold
/// the same sectors and walls. Together with the contracts of `encode` and
/// `decode` this is the round-trip law: a saved level loads back
/// identically, record for record.
pub proof fn lemma_level_words_injective(a: Level, b: Level)
    requires
        level_wf(a),
        level_wf(b),
        level_words(a) == level_words(b),
    ensures
        a.number_of_sectors == b.number_of_sectors,
        a.number_of_walls == b.number_of_walls,
        a.sectors@ == b.sectors@,
        a.walls@ == b.walls@,
{
    lemma_sectors_words_len(a.sectors@);
    lemma_sectors_words_len(b.sectors@);
    lemma_walls_words_len(a.walls@);
    lemma_walls_words_len(b.walls@);
    assert(level_words(a)[0] == a.number_of_sectors as i64);
    assert(level_words(b)[0] == b.number_of_sectors as i64);
    assert(level_words(a)[1] == a.number_of_walls as i64);
    assert(a.sectors@.len() == b.sectors@.len());
    assert(a.walls@.len() == b.walls@.len());
    let na = a.sectors@.len() as int;
    let base = 2 + SECTOR_WORDS * na;
    assert forall|k: int| 0 <= k < na implies a.sectors@[k] == b.sectors@[k] by {
        lemma_sectors_words_index(a.sectors@, k);
        lemma_sectors_words_index(b.sectors@, k);
        let sa = a.sectors@[k];
        let sb = b.sectors@[k];
        assert forall|j: int| 0 <= j < SECTOR_WORDS implies sector_words(sa)[j] == sector_words(
            sb,
        )[j] by {
            assert(sector_words(sa)[j] == sectors_words(a.sectors@)[SECTOR_WORDS * k + j]);
            assert(sector_words(sb)[j] == sectors_words(b.sectors@)[SECTOR_WORDS * k + j]);
            assert(level_words(a)[2 + SECTOR_WORDS * k + j] == sectors_words(a.sectors@)[
                SECTOR_WORDS * k + j]);
            assert(level_words(b)[2 + SECTOR_WORDS * k + j] == sectors_words(b.sectors@)[
                SECTOR_WORDS * k + j]);
        };
        lemma_sector_words_injective(sa, sb);
    };
    assert(a.sectors@ =~= b.sectors@);
    assert forall|k: int| 0 <= k < a.walls@.len() implies a.walls@[k] == b.walls@[k] by {
        lemma_walls_words_index(a.walls@, k);
        lemma_walls_words_index(b.walls@, k);
        let wa = a.walls@[k];
        let wb = b.walls@[k];
        assert forall|j: int| 0 <= j < WALL_WORDS implies wall_words(wa)[j] == wall_words(
            wb,
        )[j] by {
            assert(wall_words(wa)[j] == walls_words(a.walls@)[WALL_WORDS * k + j]);
            assert(wall_words(wb)[j] == walls_words(b.walls@)[WALL_WORDS * k + j]);
            assert(level_words(a)[base + WALL_WORDS * k + j] == walls_words(a.walls@)[WALL_WORDS
                * k + j]);
            assert(level_words(b)[base + WALL_WORDS * k + j] == walls_words(b.walls@)[WALL_WORDS
                * k + j]);
        };
        lemma_wall_words_injective(wa, wb);
    };
    assert(a.walls@ =~= b.walls@);
}

/// Field-for-field equal records come from equal sectors.
proof fn lemma_sector_words_injective(a: Sector, b: Sector)
    requires
        forall|j: int| 0 <= j < SECTOR_WORDS ==> sector_words(a)[j] == #[trigger] sector_words(
            b,
        )[j],
    ensures
        a == b,
{
    assert(sector_words(a)[0] == sector_words(b)[0]);
    assert(sector_words(a)[1] == sector_words(b)[1]);
    assert(sector_words(a)[2] == sector_words(b)[2]);
    assert(sector_words(a)[3] == sector_words(b)[3]);
    assert(sector_words(a)[4] == sector_words(b)[4]);
    assert(sector_words(a)[5] == sector_words(b)[5]);
    assert(sector_words(a)[6] == sector_words(b)[6]);
    assert(sector_words(a)[7] == sector_words(b)[7]);
    assert(sector_words(a)[8] == sector_words(b)[8]);
    assert(sector_words(a)[9] == sector_words(b)[9]);
    assert(sector_words(a)[10] == sector_words(b)[10]);
    assert(sector_words(a)[11] == sector_words(b)[11]);
    assert(sector_words(a)[12] == sector_words(b)[12]);
    assert(sector_words(a)[13] == sector_words(b)[13]);
    lemma_opt_word_injective(a.surface_texture, b.surface_texture);
    assert(a.top_color == b.top_color);
    assert(a.bottom_color == b.bottom_color);
}

/// Field-for-field equal records come from equal walls.
proof fn lemma_wall_words_injective(a: Wall, b: Wall)
    requires
        forall|j: int| 0 <= j < WALL_WORDS ==> wall_words(a)[j] == #[trigger] wall_words(b)[j],
    ensures
        a == b,
{
    assert(wall_words(a)[0] == wall_words(b)[0]);
    assert(wall_words(a)[1] == wall_words(b)[1]);
    assert(wall_words(a)[2] == wall_words(b)[2]);
    assert(wall_words(a)[3] == wall_words(b)[3]);
    assert(wall_words(a)[4] == wall_words(b)[4]);
    assert(wall_words(a)[5] == wall_words(b)[5]);
    assert(wall_words(a)[6] == wall_words(b)[6]);
    assert(wall_words(a)[7] == wall_words(b)[7]);
    assert(wall_words(a)[8] == wall_words(b)[8]);
    assert(wall_words(a)[9] == wall_words(b)[9]);
    assert(wall_words(a)[10] == wall_words(b)[10]);
    lemma_opt_word_injective(a.texture, b.texture);
    assert(a.color == b.color);
}

/// The optional-index word determines the optional index.
proof fn lemma_opt_word_injective(a: Option<u32>, b: Option<u32>)
    requires
        opt_word(a) == opt_word(b),
    ensures
        a == b,
{
}

/// The fourteen words of a sector record, by position.
pub proof fn lemma_sector_words_fields(s: Sector)
    ensures
        sector_words(s).len() == SECTOR_WORDS,
        sector_words(s)[0] == s.wall_start as i64,
        sector_words(s)[1] == s.wall_end as i64,
        sector_words(s)[2] == s.bottom_height as i64,
        sector_words(s)[3] == s.top_height as i64,
        sector_words(s)[4] == s.distance,
        sector_words(s)[5] == s.top_color.r as i64,
        sector_words(s)[6] == s.top_color.g as i64,
        sector_words(s)[7] == s.top_color.b as i64,
        sector_words(s)[8] == s.top_color.a as i64,
        sector_words(s)[9] == s.bottom_color.r as i64,
        sector_words(s)[10] == s.bottom_color.g as i64,
        sector_words(s)[11] == s.bottom_color.b as i64,
        sector_words(s)[12] == s.bottom_color.a as i64,
        sector_words(s)[13] == opt_word(s.surface_texture),
{
}

/// The eleven words of a wall record, by position.
pub proof fn lemma_wall_words_fields(w: Wall)
    ensures
        wall_words(w).len() == WALL_WORDS,
        wall_words(w)[0] == w.x1 as i64,
        wall_words(w)[1] == w.y1 as i64,
        wall_words(w)[2] == w.x2 as i64,
        wall_words(w)[3] == w.y2 as i64,
        wall_words(w)[4] == w.color.r as i64,
        wall_words(w)[5] == w.color.g as i64,
        wall_words(w)[6] == w.color.b as i64,
        wall_words(w)[7] == w.color.a as i64,
        wall_words(w)[8] == opt_word(w.texture),
        wall_words(w)[9] == w.u as i64,
        wall_words(w)[10] == w.v as i64,
{
}

/// The overall shape of a well-formed level's words: the header gives the
/// record counts and each record sits at its fixed offset.
pub proof fn lemma_words_shape(l: Level, ws: Seq<i64>)
    requires
        level_wf(l),
        level_words(l) == ws,
    ensures
        ws.len() == 2 + SECTOR_WORDS * l.sectors@.len() + WALL_WORDS * l.walls@.len(),
        ws.len() >= 2,
        ws[0] == l.sectors@.len() as i64,
        ws[1] == l.walls@.len() as i64,
        forall|k: int, j: int|
            0 <= k < l.sectors@.len() && 0 <= j < SECTOR_WORDS ==> ws[2 + SECTOR_WORDS * k + j]
                == #[trigger] sector_words(l.sectors@[k])[j],
        forall|k: int, j: int|
            0 <= k < l.walls@.len() && 0 <= j < WALL_WORDS ==> ws[2 + SECTOR_WORDS
                * l.sectors@.len() + WALL_WORDS * k + j] == #[trigger] wall_words(l.walls@[k])[j],
{
    lemma_sectors_words_len(l.sectors@);
    lemma_walls_words_len(l.walls@);
    vstd::arithmetic::mul::lemma_mul_nonnegative(SECTOR_WORDS as int, l.sectors@.len() as int);
    vstd::arithmetic::mul::lemma_mul_nonnegative(WALL_WORDS as int, l.walls@.len() as int);
    let ns = l.sectors@.len() as int;
    assert forall|k: int, j: int|
        0 <= k < l.sectors@.len() && 0 <= j < SECTOR_WORDS implies ws[2 + SECTOR_WORDS * k + j]
        == #[trigger] sector_words(l.sectors@[k])[j] by {
        lemma_sectors_words_index(l.sectors@, k);
        assert(SECTOR_WORDS * k + SECTOR_WORDS <= SECTOR_WORDS * ns) by (nonlinear_arith)
            requires
                k + 1 <= ns,
        ;
        assert(sectors_words(l.sectors@)[SECTOR_WORDS * k + j] == sectors_words(
            l.sectors@,
        ).subrange(SECTOR_WORDS * k, SECTOR_WORDS * k + SECTOR_WORDS)[j]);
    };
    assert forall|k: int, j: int|
        0 <= k < l.walls@.len() && 0 <= j < WALL_WORDS implies ws[2 + SECTOR_WORDS
        * l.sectors@.len() + WALL_WORDS * k + j] == #[trigger] wall_words(l.walls@[k])[j] by {
        lemma_walls_words_index(l.walls@, k);
        assert(WALL_WORDS * k + WALL_WORDS <= WALL_WORDS * l.walls@.len()) by (nonlinear_arith)
            requires
                k + 1 <= l.walls@.len(),
        ;
        assert(walls_words(l.walls@)[WALL_WORDS * k + j] == walls_words(l.walls@).subrange(
            WALL_WORDS * k,
            WALL_WORDS * k + WALL_WORDS,
        )[j]);
    };
}

/// Pushes the four channel words of a color.
fn push_color(out: &mut Vec<i64>, c: Rgba)
    ensures
        final(out)@ == old(out)@ + color_words(c),
{
    out.push(c.r as i64);
    out.push(c.g as i64);
    out.push(c.b as i64);
    out.push(c.a as i64);
    proof {
        assert(out@ =~= old(out)@ + color_words(c));
    }
}

/// The optional-index word of a texture reference.
fn opt_to_word(t: Option<u32>) -> (r: i64)
    ensures
        r == opt_word(t),
{
    match t {
        None => -1,
        Some(i) => i as i64,
    }
}

/// Serializes a level to its word sequence.
pub fn encode(l: &Level) -> (r: Vec<i64>)
    requires
        level_wf(*l),
    ensures
        r@ == level_words(*l),
{
    let mut out: Vec<i64> = Vec::new();
    out.push(l.number_of_sectors as i64);
    out.push(l.number_of_walls as i64);
    let ghost header = seq![l.number_of_sectors as i64, l.number_of_walls as i64];
    proof {
        assert(out@ =~= header + sectors_words(l.sectors@.take(0)));
    }
    let mut i: usize = 0;
    while i < l.sectors.len()
        invariant
            i <= l.sectors@.len(),
            out@ == header + sectors_words(l.sectors@.take(i as int)),
            header == seq![l.number_of_sectors as i64, l.number_of_walls as i64],
        decreases l.sectors@.len() - i,
    {
        let s = l.sectors[i];
        let ghost before = out@;
        out.push(s.wall_start as i64);
        out.push(s.wall_end as i64);
        out.push(s.bottom_height as i64);
        out.push(s.top_height as i64);
        out.push(s.distance);
        push_color(&mut out, s.top_color);
        push_color(&mut out, s.bottom_color);
        let tw = opt_to_word(s.surface_texture);
        out.push(tw);
        proof {
            lemma_sector_words_fields(s);
            assert(out@ =~= before + sector_words(s));
            assert(l.sectors@.take(i + 1).drop_last() =~= l.sectors@.take(i as int));
            assert(l.sectors@.take(i + 1).last() == l.sectors@[i as int]);
            assert(out@ =~= header + sectors_words(l.sectors@.take(i + 1)));
        }
        i = i + 1;
    }
    proof {
        assert(l.sectors@.take(l.sectors@.len() as int) =~= l.sectors@);
        assert(l.walls@.take(0) =~= Seq::<Wall>::empty());
    }
    let ghost mid = header + sectors_words(l.sectors@);
    let mut j: usize = 0;
    while j < l.walls.len()
        invariant
            j <= l.walls@.len(),
            out@ == mid + walls_words(l.walls@.take(j as int)),
            mid == header + sectors_words(l.sectors@),
            header == seq![l.number_of_sectors as i64, l.number_of_walls as i64],
        decreases l.walls@.len() - j,
    {
        let w = l.walls[j];
        let ghost before = out@;
        out.push(w.x1 as i64);
        out.push(w.y1 as i64);
        out.push(w.x2 as i64);
        out.push(w.y2 as i64);
        push_color(&mut out, w.color);
        let tw = opt_to_word(w.texture);
        out.push(tw);
        out.push(w.u as i64);
        out.push(w.v as i64);
        proof {
            lemma_wall_words_fields(w);
            assert(out@ =~= before + wall_words(w));
            assert(l.walls@.take(j + 1).drop_last() =~= l.walls@.take(j as int));
            assert(l.walls@.take(j + 1).last() == l.walls@[j as int]);
            assert(out@ =~= mid + walls_words(l.walls@.take(j + 1)));
        }
        j = j + 1;
    }
    proof {
        assert(l.walls@.take(l.walls@.len() as int) =~= l.walls@);
        assert(out@ =~= level_words(*l));
    }
    out
}

/// Reads one color out of four consecutive channel words, rejecting values
/// outside a byte.
fn read_color(ws: &Vec<i64>, idx: usize) -> (r: Option<Rgba>)
    requires
        idx + 4 <= ws@.len(),
    ensures
        match r {
            Some(c) => color_words(c) == ws@.subrange(idx as int, idx + 4),
            None => forall|c: Rgba| color_words(c) != ws@.subrange(idx as int, idx + 4),
        },
{
    let n = ws.len();
    let r0 = ws[idx];
    let g0 = ws[idx + 1];
    let b0 = ws[idx + 2];
    let a0 = ws[idx + 3];
    if r0 < 0 || r0 > 255 || g0 < 0 || g0 > 255 || b0 < 0 || b0 > 255 || a0 < 0 || a0 > 255 {
        proof {
            assert forall|c: Rgba| color_words(c) != ws@.subrange(idx as int, idx + 4) by {
                if color_words(c) == ws@.subrange(idx as int, idx + 4) {
                    assert(color_words(c)[0] == r0 && color_words(c)[1] == g0 && color_words(c)[2]
                        == b0 && color_words(c)[3] == a0);
                }
            };
        }
        return None;
    }
    let c = Rgba { r: r0 as u8, g: g0 as u8, b: b0 as u8, a: a0 as u8 };
    proof {
        assert(color_words(c) =~= ws@.subrange(idx as int, idx + 4));
    }
    Some(c)
}

/// Reads one optional texture index word: `-1` is absent, a value that fits
/// an unsigned index is present, anything else is rejected.
fn read_opt(w: i64) -> (r: Option<Option<u32>>)
    ensures
        match r {
            Some(t) => opt_word(t) == w,
            None => forall|t: Option<u32>| opt_word(t) != w,
        },
{
    if w == -1 {
        Some(None)
    } else if w >= 0 && w <= u32::MAX as i64 {
        Some(Some(w as u32))
    } else {
        None
    }
}

/// In a matching well-formed level, the sector record at index `k` carries
/// values inside the well-formedness bounds.
proof fn lemma_sector_block_props(l2: Level, ws: Seq<i64>, k: int)
    requires
        level_wf(l2),
        level_words(l2) == ws,
        0 <= k < l2.sectors@.len(),
    ensures
        0 <= ws[2 + SECTOR_WORDS * k] < ws[2 + SECTOR_WORDS * k + 1],
        ws[2 + SECTOR_WORDS * k + 1] <= ws[1],
        ws[2 + SECTOR_WORDS * k + 1] <= i32::MAX as i64,
        -MAP_LIMIT <= ws[2 + SECTOR_WORDS * k + 2] <= MAP_LIMIT,
        -MAP_LIMIT <= ws[2 + SECTOR_WORDS * k + 3] <= MAP_LIMIT,
        0 <= ws[2 + SECTOR_WORDS * k + 4] <= 6_000_000,
        color_words(l2.sectors@[k].top_color) == ws.subrange(
            2 + SECTOR_WORDS * k + 5,
            2 + SECTOR_WORDS * k + 9,
        ),
        color_words(l2.sectors@[k].bottom_color) == ws.subrange(
            2 + SECTOR_WORDS * k + 9,
            2 + SECTOR_WORDS * k + 13,
        ),
        opt_word(l2.sectors@[k].surface_texture) == ws[2 + SECTOR_WORDS * k + 13],
{
    lemma_words_shape(l2, ws);
    let s2 = l2.sectors@[k];
    lemma_sector_words_fields(s2);
    assert(sector_wf(s2, l2.walls@.len() as int));
    assert(ws[1] == l2.walls@.len() as i64);
    assert(color_words(s2.top_color) =~= ws.subrange(
        2 + SECTOR_WORDS * k + 5,
        2 + SECTOR_WORDS * k + 9,
    ));
    assert(color_words(s2.bottom_color) =~= ws.subrange(
        2 + SECTOR_WORDS * k + 9,
        2 + SECTOR_WORDS * k + 13,
    ));
}

/// In a matching well-formed level, the wall record at index `k` carries
/// values inside the well-formedness bounds.
proof fn lemma_wall_block_props(l2: Level, ws: Seq<i64>, base: int, k: int)
    requires
        level_wf(l2),
        level_words(l2) == ws,
        0 <= k < l2.walls@.len(),
        base == 2 + SECTOR_WORDS * l2.sectors@.len(),
    ensures
        -MAP_LIMIT <= ws[base + WALL_WORDS * k] <= MAP_LIMIT,
        -MAP_LIMIT <= ws[base + WALL_WORDS * k + 1] <= MAP_LIMIT,
        -MAP_LIMIT <= ws[base + WALL_WORDS * k + 2] <= MAP_LIMIT,
        -MAP_LIMIT <= ws[base + WALL_WORDS * k + 3] <= MAP_LIMIT,
        color_words(l2.walls@[k].color) == ws.subrange(
            base + WALL_WORDS * k + 4,
            base + WALL_WORDS * k + 8,
        ),
        opt_word(l2.walls@[k].texture) == ws[base + WALL_WORDS * k + 8],
        -MAP_LIMIT <= ws[base + WALL_WORDS * k + 9] <= MAP_LIMIT,
        -MAP_LIMIT <= ws[base + WALL_WORDS * k + 10] <= MAP_LIMIT,
{
    lemma_words_shape(l2, ws);
    let w2 = l2.walls@[k];
    lemma_wall_words_fields(w2);
    assert(wall_wf(w2));
    assert(color_words(w2.color) =~= ws.subrange(
        base + WALL_WORDS * k + 4,
        base + WALL_WORDS * k + 8,
    ));
}

/// Parses a word sequence back into a level. Decoding succeeds exactly on
/// the encodings of well-formed levels: on success the words are the
/// returned level's encoding, and on failure no well-formed level has this
/// encoding.
#[verifier::rlimit(60)]
pub fn decode(ws: &Vec<i64>) -> (r: Option<Level>)
    ensures
        match r {
            Some(l) => level_wf(l) && level_words(l) == ws@,
            None => forall|l2: Level| level_wf(l2) ==> level_words(l2) != ws@,
        },
{
    let total = ws.len();
    if total < 2 {
        proof {
            assert forall|l2: Level| level_wf(l2) implies level_words(l2) != ws@ by {
                if level_words(l2) == ws@ {
                    lemma_words_shape(l2, ws@);
                }
            };
        }
        return None;
    }
    let n_sec = ws[0];
    let n_walls = ws[1];
    if n_sec < 0 || n_sec > u32::MAX as i64 || n_walls < 0 || n_walls > u32::MAX as i64 {
        proof {
            assert forall|l2: Level| level_wf(l2) implies level_words(l2) != ws@ by {
                if level_words(l2) == ws@ {
                    lemma_words_shape(l2, ws@);
                }
            };
        }
        return None;
    }
    proof {
        assert((SECTOR_WORDS as i64) * n_sec <= SECTOR_WORDS * 0x1_0000_0000int && (
        WALL_WORDS as i64) * n_walls <= WALL_WORDS * 0x1_0000_0000int && (SECTOR_WORDS as i64)
            * n_sec >= 0 && (WALL_WORDS as i64) * n_walls >= 0) by (nonlinear_arith)
            requires
                0 <= n_sec <= 0x1_0000_0000int,
                0 <= n_walls <= 0x1_0000_0000int,
        ;
    }
    let expected: i64 = 2 + (SECTOR_WORDS as i64) * n_sec + (WALL_WORDS as i64) * n_walls;
    if total as u64 != expected as u64 {
        proof {
            assert forall|l2: Level| level_wf(l2) implies level_words(l2) != ws@ by {
                if level_words(l2) == ws@ {
                    lemma_words_shape(l2, ws@);
                }
            };
        }
        return None;
    }
    let ns = n_sec as usize;
    let nw = n_walls as usize;
    let mut sectors: Vec<Sector> = Vec::new();
    let mut k: usize = 0;
    proof {
        assert(sectors_words(sectors@) =~= ws@.subrange(2, 2));
    }
    while k < ns
        invariant
            k <= ns,
            total == ws@.len(),
            ws@.len() == 2 + SECTOR_WORDS * ns + WALL_WORDS * nw,
            ws@[0] == ns as i64,
            ws@[1] == nw as i64,
            n_sec == ns as i64,
            n_walls == nw as i64,
            sectors@.len() == k,
            sectors_words(sectors@) == ws@.subrange(2, 2 + SECTOR_WORDS * k as int),
            forall|q: int| 0 <= q < k ==> sector_wf(#[trigger] sectors@[q], nw as int),
        decreases ns - k,
    {
        proof {
            assert(SECTOR_WORDS * (k as int) + SECTOR_WORDS <= SECTOR_WORDS * ns as int)
                by (nonlinear_arith)
                requires
                    k as int + 1 <= ns as int,
            ;
            assert(SECTOR_WORDS * (k as int) >= 0) by (nonlinear_arith)
                requires
                    k as int >= 0,
            ;
            vstd::arithmetic::mul::lemma_mul_nonnegative(WALL_WORDS as int, nw as int);
        }
        let idx = 2 + SECTOR_WORDS * k;
        let w0 = ws[idx];
        let w1 = ws[idx + 1];
        let w2 = ws[idx + 2];
        let w3 = ws[idx + 3];
        let w4 = ws[idx + 4];
        let top_color = read_color(ws, idx + 5);
        let bottom_color = read_color(ws, idx + 9);
        let st = read_opt(ws[idx + 13]);
        let ok = w0 >= 0 && w0 < w1 && w1 <= n_walls && w1 <= i32::MAX as i64 && w2 >= -(
        MAP_LIMIT as i64) && w2 <= MAP_LIMIT as i64 && w3 >= -(MAP_LIMIT as i64) && w3
            <= MAP_LIMIT as i64 && w4 >= 0 && w4 <= 6_000_000 && top_color.is_some()
            && bottom_color.is_some() && st.is_some();
        if !ok {
            proof {
                assert forall|l2: Level| level_wf(l2) implies level_words(l2) != ws@ by {
                    if level_words(l2) == ws@ {
                        lemma_words_shape(l2, ws@);
                        lemma_sector_block_props(l2, ws@, k as int);
                    }
                };
            }
            return None;
        }
        let s = Sector {
            wall_start: w0 as i32,
            wall_end: w1 as i32,
            bottom_height: w2 as i32,
            top_height: w3 as i32,
            distance: w4,
            top_color: top_color.unwrap(),
            bottom_color: bottom_color.unwrap(),
            surface_texture: st.unwrap(),
        };
        proof {
            assert(sector_wf(s, nw as int));
        }
        let ghost before = sectors@;
        sectors.push(s);
        proof {
            lemma_sector_words_fields(s);
            assert(sector_words(s) =~= ws@.subrange(idx as int, idx + SECTOR_WORDS));
            assert(sectors@.drop_last() =~= before);
            assert(sectors@.last() == s);
            assert(sectors_words(sectors@) == sectors_words(before) + sector_words(s));
            assert(sectors_words(sectors@) =~= ws@.subrange(2, 2 + SECTOR_WORDS * (k + 1)));
        }
        k = k + 1;
    }
    let base = 2 + SECTOR_WORDS * ns;
    let mut walls: Vec<Wall> = Vec::new();
    let mut m: usize = 0;
    proof {
        vstd::arithmetic::mul::lemma_mul_nonnegative(SECTOR_WORDS as int, ns as int);
        assert(walls_words(walls@) =~= ws@.subrange(base as int, base as int));
    }
    while m < nw
        invariant
            m <= nw,
            base == 2 + SECTOR_WORDS * ns,
            total == ws@.len(),
            base <= total,
            ws@.len() == 2 + SECTOR_WORDS * ns + WALL_WORDS * nw,
            ws@[0] == ns as i64,
            ws@[1] == nw as i64,
            walls@.len() == m,
            walls_words(walls@) == ws@.subrange(base as int, base + WALL_WORDS * m as int),
            forall|q: int| 0 <= q < m ==> wall_wf(#[trigger] walls@[q]),
            sectors@.len() == ns,
            sectors_words(sectors@) == ws@.subrange(2, 2 + SECTOR_WORDS * ns as int),
            forall|q: int| 0 <= q < ns ==> sector_wf(#[trigger] sectors@[q], nw as int),
        decreases nw - m,
    {
        proof {
            assert(WALL_WORDS * (m as int) + WALL_WORDS <= WALL_WORDS * nw as int)
                by (nonlinear_arith)
                requires
                    m as int + 1 <= nw as int,
            ;
            assert(WALL_WORDS * (m as int) >= 0) by (nonlinear_arith)
                requires
                    m as int >= 0,
            ;
        }
        let idx = base + WALL_WORDS * m;
        let w0 = ws[idx];
        let w1 = ws[idx + 1];
        let w2 = ws[idx + 2];
        let w3 = ws[idx + 3];
        let color = read_color(ws, idx + 4);
        let tex = read_opt(ws[idx + 8]);
        let w9 = ws[idx + 9];
        let w10 = ws[idx + 10];
        let lim = MAP_LIMIT as i64;
        let ok = w0 >= -lim && w0 <= lim && w1 >= -lim && w1 <= lim && w2 >= -lim && w2 <= lim
            && w3 >= -lim && w3 <= lim && w9 >= -lim && w9 <= lim && w10 >= -lim && w10 <= lim
            && color.is_some() && tex.is_some();
        if !ok {
            proof {
                assert forall|l2: Level| level_wf(l2) implies level_words(l2) != ws@ by {
                    if level_words(l2) == ws@ {
                        lemma_words_shape(l2, ws@);
                        lemma_wall_block_props(l2, ws@, base as int, m as int);
                    }
                };
            }
            return None;
        }
        let w = Wall {
            x1: w0 as i32,
            y1: w1 as i32,
            x2: w2 as i32,
            y2: w3 as i32,
            color: color.unwrap(),
            texture: tex.unwrap(),
            u: w9 as i32,
            v: w10 as i32,
        };
        let ghost before = walls@;
        walls.push(w);
        proof {
            lemma_wall_words_fields(w);
            assert(wall_words(w) =~= ws@.subrange(idx as int, idx + WALL_WORDS));
            assert(walls@.drop_last() =~= before);
            assert(walls@.last() == w);
            assert(walls_words(walls@) == walls_words(before) + wall_words(w));
            assert(walls_words(walls@) =~= ws@.subrange(base as int, base + WALL_WORDS * (m + 1)));
        }
        m = m + 1;
    }
    let l = Level { number_of_sectors: ns as u32, sectors, number_of_walls: nw as u32, walls };
    proof {
        assert(level_wf(l));
        assert(level_words(l) =~= ws@);
    }
    Some(l)
}

/// The round-trip law as an executable witness: encoding a well-formed
/// level and decoding the words again yields a level with the same counts
/// and the identical sector and wall arrays, field for field and in the
/// same order.
pub fn round_trip(l: &Level) -> (r: Level)
    requires
        level_wf(*l),
    ensures
        r.number_of_sectors == l.number_of_sectors,
        r.number_of_walls == l.number_of_walls,
        r.sectors@ == l.sectors@,
        r.walls@ == l.walls@,
{
    let words = encode(l);
    let decoded = decode(&words);
    match decoded {
        Some(back) => {
            proof {
                lemma_level_words_injective(*l, back);
            }
            back
        },
        None => {
            proof {
                assert(false);
            }
            Level {
                number_of_sectors: 0,
                sectors: Vec::new(),
                number_of_walls: 0,
                walls: Vec::new(),
            }
        },
    }
}

} // verus!
