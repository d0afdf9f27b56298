//! Filling a pixel buffer with a single colour.

use vstd::prelude::*;
use vstd::arithmetic::div_mod::{lemma_fundamental_div_mod, lemma_mod_bound};
use crate::color::Color;

verus! {

/// Whether pixel `i` of the RGBA byte buffer `p` holds the colour `c`.
pub open spec fn pixel_is(p: Seq<u8>, i: int, c: Color) -> bool {
    p[4 * i] == c.r && p[4 * i + 1] == c.g && p[4 * i + 2] == c.b && p[4 * i + 3] == c.a
}

/// Whether `p` is a `w` by `h` RGBA byte buffer with every pixel set to `c`.
pub open spec fn filled(p: Seq<u8>, w: nat, h: nat, c: Color) -> bool {
    p.len() == 4 * w * h && forall|i: int| 0 <= i < w * h ==> #[trigger] pixel_is(p, i, c)
}

/// Build the RGBA byte buffer of a `width` by `height` image whose every
/// pixel is `color`.
pub fn fill_pixels(width: u32, height: u32, color: &Color) -> (r: Vec<u8>)
    requires
        width >= 1,
        height >= 1,
        4 * (width as int) * (height as int) <= usize::MAX,
    ensures
        filled(r@, width as nat, height as nat, *color),
{
    proof {
        assert(4 * (width as int) * (height as int) == 4 * ((width as int) * (height as int)))
            by (nonlinear_arith);
    }
    let count: usize = (width as usize) * (height as usize);
    let mut v: Vec<u8> = Vec::new();
    let mut i: usize = 0;
    while i < count
        invariant
            i <= count,
            count == (width as int) * (height as int),
            4 * count <= usize::MAX,
            v@.len() == 4 * i,
            forall|j: int| 0 <= j < i ==> #[trigger] pixel_is(v@, j, *color),
        decreases count - i,
    {
        let ghost v0 = v@;
        v.push(color.r);
        v.push(color.g);
        v.push(color.b);
        v.push(color.a);
        i = i + 1;
        proof {
            assert forall|j: int| 0 <= j < i implies #[trigger] pixel_is(v@, j, *color) by {
                if j == i - 1 {
                    assert(v@[4 * j] == color.r);
                    assert(v@[4 * j + 1] == color.g);
                    assert(v@[4 * j + 2] == color.b);
                    assert(v@[4 * j + 3] == color.a);
                } else {
                    assert(pixel_is(v0, j, *color));
                    assert(v@[4 * j] == v0[4 * j]);
                    assert(v@[4 * j + 1] == v0[4 * j + 1]);
                    assert(v@[4 * j + 2] == v0[4 * j + 2]);
                    assert(v@[4 * j + 3] == v0[4 * j + 3]);
                }
            }
        }
    }
    proof {
        assert(4 * (width as int) * (height as int) == 4 * ((width as int) * (height as int)))
            by (nonlinear_arith);
    }
    v
}

/// Two buffers filled with the same colour and dimensions are equal: the
/// pixel content of a run is determined by its inputs alone.
pub proof fn lemma_fill_deterministic(p1: Seq<u8>, p2: Seq<u8>, w: nat, h: nat, c: Color)
    requires
        filled(p1, w, h, c),
        filled(p2, w, h, c),
    ensures
        p1 == p2,
{
    assert(4 * w * h == 4 * (w * h)) by (nonlinear_arith);
    assert forall|k: int| 0 <= k < p1.len() implies p1[k] == p2[k] by {
        let i = k / 4;
        let m = k % 4;
        lemma_fundamental_div_mod(k, 4);
        lemma_mod_bound(k, 4);
        assert(k == 4 * i + m);
        assert(0 <= i < w * h);
        assert(pixel_is(p1, i, c));
        assert(pixel_is(p2, i, c));
    }
    assert(p1 =~= p2);
}

} // verus!
