//! The immutable texture bank: named pixel rectangles the renderer samples,
//! and the wrap-around cycling between bank entries.
use vstd::prelude::*;

verus! {

/// An immutable texture: a name and a row-major array of packed RGBA
/// pixel words, `height` rows of `width` pixels.
pub struct Texture {
    pub name: String,
    pub width: u32,
    pub height: u32,
    pub data: Vec<u32>,
}

impl Texture {
    /// A texture is well formed when both dimensions are positive and the
    /// pixel array holds exactly one word per pixel.
    pub open spec fn wf(self) -> bool {
        &&& self.width >= 1
        &&& self.height >= 1
        &&& self.data@.len() == self.width * self.height
    }

    /// Builds a texture, rejecting dimensions that do not match the data.
    pub fn new(name: String, width: u32, height: u32, data: Vec<u32>) -> (t: Option<Texture>)
        ensures
            match t {
                Some(t) => t.wf() && t.name == name && t.width == width && t.height == height
                    && t.data == data,
                None => width == 0 || height == 0 || data@.len() != width * height,
            },
    {
        if width == 0 || height == 0 {
            return None;
        }
        proof {
            assert((width as int) * (height as int) < 0x1_0000_0000_0000_0000int) by (nonlinear_arith)
                requires
                    width < 0x1_0000_0000int,
                    height < 0x1_0000_0000int,
            ;
        }
        let pixels: u64 = (width as u64) * (height as u64);
        if data.len() as u64 != pixels {
            return None;
        }
        Some(Texture { name, width, height, data })
    }

    /// The pixel word at the given row and column.
    pub fn pixel(&self, row: u32, col: u32) -> (p: u32)
        requires
            self.wf(),
            row < self.height,
            col < self.width,
        ensures
            p == self.data@[row as int * self.width as int + col as int],
    {
        let n = self.data.len();
        proof {
            let w = self.width as int;
            let h = self.height as int;
            let ri = row as int;
            let ci = col as int;
            assert(0 <= ri * w + ci && ri * w + ci < w * h) by (nonlinear_arith)
                requires
                    0 <= ri < h,
                    0 <= ci < w,
                    w >= 1,
                    h >= 1,
            ;
            assert(w * h == self.width * self.height);
            assert(ri * w + ci < self.data@.len());
            assert(ri * w <= ri * w + ci);
            assert(self.data@.len() == n <= usize::MAX);
            assert(ri * w + ci <= u64::MAX as int);
        }
        let idx: u64 = (row as u64) * (self.width as u64) + (col as u64);
        self.data[idx as usize]
    }
}

/// Advances a texture bank index to the next entry, wrapping from the last
/// entry back to the first.
pub fn next_texture_index(i: u32, bank_len: u32) -> (r: u32)
    requires
        bank_len >= 1,
        i < bank_len,
    ensures
        r == (i + 1) as int % bank_len as int,
        r < bank_len,
        i + 1 == bank_len ==> r == 0,
        i + 1 < bank_len ==> r == i + 1,
{
    proof {
        if i + 1 < bank_len {
            vstd::arithmetic::div_mod::lemma_small_mod((i + 1) as nat, bank_len as nat);
        } else {
            vstd::arithmetic::div_mod::lemma_mod_self_0(bank_len as int);
        }
    }
    if i + 1 == bank_len {
        0
    } else {
        i + 1
    }
}

/// Steps a texture bank index back to the previous entry, wrapping from the
/// first entry to the last.
pub fn prev_texture_index(i: u32, bank_len: u32) -> (r: u32)
    requires
        bank_len >= 1,
        i < bank_len,
    ensures
        r == (i + bank_len - 1) as int % bank_len as int,
        r < bank_len,
        i == 0 ==> r == bank_len - 1,
        i > 0 ==> r == i - 1,
{
    proof {
        if i == 0 {
            vstd::arithmetic::div_mod::lemma_small_mod((bank_len - 1) as nat, bank_len as nat);
        } else {
            vstd::arithmetic::div_mod::lemma_mod_add_multiples_vanish((i - 1) as int,
                bank_len as int);
            vstd::arithmetic::div_mod::lemma_small_mod((i - 1) as nat, bank_len as nat);
        }
    }
    if i == 0 {
        bank_len - 1
    } else {
        i - 1
    }
}

} // verus!
