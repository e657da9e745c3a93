use vstd::prelude::*;

use vstd::arithmetic::div_mod::lemma_multiply_divide_lt;

verus! {

/// Floor of the square root: the unique `r` with `r*r <= x < (r+1)*(r+1)`.
fn isqrt64(x: u64) -> (r: u64)
    ensures
        r * r <= x,
        (r as int + 1) * (r as int + 1) > x as int,
{
    let mut lo: u64 = 0;
    let mut hi: u64 = if x < 0xFFFF_FFFF {
        x
    } else {
        0xFFFF_FFFF
    };
    proof {
        assert((hi as int + 1) * (hi as int + 1) > x as int) by (nonlinear_arith)
            requires
                hi as int >= 0,
                x as int >= 0,
                x < 0xFFFF_FFFF ==> hi == x,
                x >= 0xFFFF_FFFF ==> hi == 0xFFFF_FFFFu64,
                x <= 0xFFFF_FFFF_FFFF_FFFFu64,
        ;
    }
    while lo < hi
        invariant
            lo <= hi,
            hi <= 0xFFFF_FFFFu64,
            lo * lo <= x,
            (hi as int + 1) * (hi as int + 1) > x as int,
        decreases hi - lo,
    {
        let mid: u64 = lo + (hi - lo + 1) / 2;
        proof {
            assert(mid as int * mid as int <= 0xFFFF_FFFFint * 0xFFFF_FFFFint)
                by (nonlinear_arith)
                requires
                    0 <= mid as int <= 0xFFFF_FFFFint,
            ;
        }
        let sq: u128 = (mid as u128) * (mid as u128);
        if sq <= x as u128 {
            lo = mid;
        } else {
            hi = mid - 1;
        }
    }
    lo
}

/// The thumbnail dimensions for an original of `width` by `height` under a
/// pixel-area budget: unchanged when the image already fits the budget
/// (never upscale), else both sides scaled down by the square root of
/// `budget / (width * height)`, rounded down.
pub fn thumb_dims(width: u32, height: u32, budget: u32) -> (r: (u32, u32))
    ensures
        (width as int * height as int <= budget as int) ==> r == (width, height),
        (width as int * height as int > budget as int) ==> {
            let x = (width as int * budget as int) / (height as int);
            let y = (height as int * budget as int) / (width as int);
            &&& r.0 as int * r.0 as int <= x
            &&& (r.0 as int + 1) * (r.0 as int + 1) > x
            &&& r.1 as int * r.1 as int <= y
            &&& (r.1 as int + 1) * (r.1 as int + 1) > y
            &&& r.0 < width
            &&& r.1 < height
        },
{
    let w: u64 = width as u64;
    let h: u64 = height as u64;
    let b: u64 = budget as u64;
    proof {
        assert(w * h <= 0xFFFF_FFFF_FFFF_FFFF && w * b <= 0xFFFF_FFFF_FFFF_FFFF && h * b
            <= 0xFFFF_FFFF_FFFF_FFFF) by (nonlinear_arith)
            requires
                w <= 0xFFFF_FFFFu64,
                h <= 0xFFFF_FFFFu64,
                b <= 0xFFFF_FFFFu64,
        ;
    }
    if w * h <= b {
        return (width, height);
    }
    proof {
        assert(w >= 1 && h >= 1) by (nonlinear_arith)
            requires
                w * h > b,
                b >= 0,
                w >= 0,
                h >= 0,
        ;
    }
    let x: u64 = w * b / h;
    let y: u64 = h * b / w;
    let nw = isqrt64(x);
    let nh = isqrt64(y);
    proof {
        assert(w * b < h * (w * w) && h * b < w * (h * h)) by (nonlinear_arith)
            requires
                w >= 1,
                h >= 1,
                b < w * h,
        ;
        lemma_multiply_divide_lt(w as int * b as int, h as int, w as int * w as int);
        lemma_multiply_divide_lt(h as int * b as int, w as int, h as int * h as int);
        assert(nw < w) by (nonlinear_arith)
            requires
                nw * nw <= x,
                (x as int) < w as int * w as int,
                nw >= 0,
                w >= 1,
        ;
        assert(nh < h) by (nonlinear_arith)
            requires
                nh * nh <= y,
                (y as int) < h as int * h as int,
                nh >= 0,
                h >= 1,
        ;
    }
    (nw as u32, nh as u32)
}

} // verus!
