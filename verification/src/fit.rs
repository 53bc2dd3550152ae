//! Sizes computed from an image's aspect ratio: the height that the aspect
//! lock gives a window of a given width, and the size of a window fitted to
//! its image. All of it is exact arithmetic on whole numbers; a size that
//! is no whole number is a fraction of two.

use vstd::prelude::*;

verus! {

/// The aspect ratio of an image, as its width and height in pixels.
#[derive(Clone, Copy, Debug, PartialEq, Eq, Structural)]
pub struct AspectRatio {
    pub width: u32,
    pub height: u32,
}

/// A non-negative rational number `num / den`.
#[derive(Clone, Copy, Debug, PartialEq, Eq, Structural)]
pub struct Fraction {
    pub num: u128,
    pub den: u128,
}

/// The size of a fitted window.
#[derive(Clone, Copy, Debug, PartialEq, Eq, Structural)]
pub struct FitSize {
    pub width: Fraction,
    pub height: Fraction,
}

/// No fitted window is smaller than this in either dimension.
pub const MIN_DIMENSION: u32 = 50;

/// `n / d` rounded to the nearest whole number, halves upwards, for
/// `n >= 0` and `d > 0`.
pub open spec fn round_div(n: int, d: int) -> int {
    (2 * n + d) / (2 * d)
}

impl AspectRatio {
    /// A ratio that can drive a resize: finite and positive.
    pub open spec fn usable(self) -> bool {
        self.width > 0 && self.height > 0
    }

    /// The height that goes with `width` under this ratio:
    /// `width / (self.width / self.height)`, rounded, and at least 1.
    pub open spec fn height_for(self, width: u32) -> int {
        let h = round_div(width * self.height, self.width as int);
        if h < 1 {
            1
        } else {
            h
        }
    }
}

impl Fraction {
    /// The whole number `n`.
    pub open spec fn whole(n: u32) -> Fraction {
        Fraction { num: n as u128, den: 1 }
    }

    /// The fraction `n * by / over`.
    pub open spec fn scaled(n: u32, by: u32, over: u32) -> Fraction {
        Fraction { num: (n * by) as u128, den: over as u128 }
    }

    /// The greater of this fraction and the whole number `floor`.
    pub open spec fn at_least(self, floor: u32) -> Fraction {
        if self.num < floor * self.den {
            Fraction::whole(floor)
        } else {
            self
        }
    }
}

/// The largest size with the proportions of an image of `iw` by `ih` pixels
/// that a window of `cw` by `ch` holds. The greater dimension of the window
/// is the anchor: the other is computed from it, and where that would
/// exceed the window both are scaled down together.
pub open spec fn fitted(cw: u32, ch: u32, iw: u32, ih: u32) -> FitSize {
    if cw >= ch {
        if cw * ih > ch * iw {
            FitSize { width: Fraction::scaled(ch, iw, ih), height: Fraction::whole(ch) }
        } else {
            FitSize { width: Fraction::whole(cw), height: Fraction::scaled(cw, ih, iw) }
        }
    } else {
        if ch * iw > cw * ih {
            FitSize { width: Fraction::whole(cw), height: Fraction::scaled(cw, ih, iw) }
        } else {
            FitSize { width: Fraction::scaled(ch, iw, ih), height: Fraction::whole(ch) }
        }
    }
}

/// The size that fitting gives a window: `fitted`, with each dimension
/// raised to `floor` where it is less. An image without a positive width
/// and height gives none.
pub open spec fn fit(cw: u32, ch: u32, iw: u32, ih: u32, floor: u32) -> Option<FitSize> {
    if iw == 0 || ih == 0 {
        None
    } else {
        let f = fitted(cw, ch, iw, ih);
        Some(FitSize { width: f.width.at_least(floor), height: f.height.at_least(floor) })
    }
}

/// `round_div(n, d)` is the whole number nearest to `n / d`: it differs
/// from it by at most a half, and a half is rounded upwards.
pub proof fn lemma_round_div_nearest(n: int, d: int)
    requires
        n >= 0,
        d > 0,
    ensures
        2 * n - d < 2 * d * round_div(n, d) <= 2 * n + d,
        round_div(n, d) >= 0,
{
    let a = 2 * n + d;
    let b = 2 * d;
    assert(a == b * (a / b) + a % b && 0 <= a % b < b && a / b >= 0) by (nonlinear_arith)
        requires
            a >= 0,
            b > 0,
    ;
}

/// The height that the aspect lock gives is at least 1 and fits the
/// machine's widest whole number.
pub proof fn lemma_height_for_bounds(ratio: AspectRatio, width: u32)
    requires
        ratio.usable(),
    ensures
        1 <= ratio.height_for(width) <= u64::MAX,
{
    let n = width * ratio.height;
    let d = ratio.width as int;
    assert(0 <= n <= 0xffff_ffff * 0xffff_ffff) by (nonlinear_arith)
        requires
            n == width * ratio.height,
            0 <= width <= 0xffff_ffff,
            0 <= ratio.height <= 0xffff_ffff,
    ;
    assert((2 * n + d) / (2 * d) <= n) by (nonlinear_arith)
        requires
            d >= 1,
            n >= 0,
    ;
}

/// Before the floor is applied, a fitted size has the proportions of the
/// image exactly, lies within the window, and touches it in one dimension.
pub proof fn lemma_fitted(cw: u32, ch: u32, iw: u32, ih: u32)
    requires
        iw > 0,
        ih > 0,
    ensures
        ({
            let f = fitted(cw, ch, iw, ih);
            &&& f.width.den > 0 && f.height.den > 0
            &&& f.width.num * f.height.den * ih == f.height.num * f.width.den * iw
            &&& f.width.num <= cw * f.width.den
            &&& f.height.num <= ch * f.height.den
            &&& f.width == Fraction::whole(cw) || f.height == Fraction::whole(ch)
        }),
{
    let by_width = cw * ih;
    let by_height = ch * iw;
    assert(0 <= by_width <= u64::MAX && 0 <= by_height <= u64::MAX) by (nonlinear_arith)
        requires
            by_width == cw * ih,
            by_height == ch * iw,
            0 <= cw <= u32::MAX,
            0 <= ch <= u32::MAX,
            0 <= iw <= u32::MAX,
            0 <= ih <= u32::MAX,
    ;
    let keep_height = if cw >= ch {
        by_width > by_height
    } else {
        !(by_height > by_width)
    };
    let f = fitted(cw, ch, iw, ih);
    if keep_height {
        assert(f.width == Fraction { num: by_height as u128, den: ih as u128 });
        assert(f.height == Fraction { num: ch as u128, den: 1 });
        assert(by_height * 1 * ih == ch * ih * iw) by (nonlinear_arith)
            requires
                by_height == ch * iw,
        ;
        assert(f.width.num * f.height.den == by_height) by (nonlinear_arith)
            requires
                f.width.num == by_height,
                f.height.den == 1,
        ;
        assert(f.height.num * f.width.den == ch * ih) by (nonlinear_arith)
            requires
                f.height.num == ch,
                f.width.den == ih,
        ;
        assert(cw * f.width.den == by_width) by (nonlinear_arith)
            requires
                f.width.den == ih,
                by_width == cw * ih,
        ;
        assert(ch * f.height.den == ch) by (nonlinear_arith)
            requires
                f.height.den == 1,
        ;
    } else {
        assert(f.width == Fraction { num: cw as u128, den: 1 });
        assert(f.height == Fraction { num: by_width as u128, den: iw as u128 });
        assert(cw * iw * ih == by_width * 1 * iw) by (nonlinear_arith)
            requires
                by_width == cw * ih,
        ;
        assert(f.width.num * f.height.den == cw * iw) by (nonlinear_arith)
            requires
                f.width.num == cw,
                f.height.den == iw,
        ;
        assert(f.height.num * f.width.den == by_width) by (nonlinear_arith)
            requires
                f.height.num == by_width,
                f.width.den == 1,
        ;
        assert(cw * f.width.den == cw) by (nonlinear_arith)
            requires
                f.width.den == 1,
        ;
        assert(ch * f.height.den == by_height) by (nonlinear_arith)
            requires
                f.height.den == iw,
                by_height == ch * iw,
        ;
    }
}

/// The height that the aspect lock gives a window of `width`, where the
/// ratio can drive a resize.
pub fn locked_height(width: u32, ratio: AspectRatio) -> (h: Option<u64>)
    ensures
        match h {
            Some(v) => ratio.usable() && v == ratio.height_for(width),
            None => !ratio.usable(),
        },
{
    if ratio.width == 0 || ratio.height == 0 {
        return None;
    }
    assert(0 <= width * ratio.height <= 0xffff_ffff * 0xffff_ffff) by (nonlinear_arith)
        requires
            0 <= width <= 0xffff_ffff,
            0 <= ratio.height <= 0xffff_ffff,
    ;
    let n: u128 = (width as u128) * (ratio.height as u128);
    let d: u128 = ratio.width as u128;
    let q: u128 = (2 * n + d) / (2 * d);
    assert(q <= n) by (nonlinear_arith)
        requires
            q == (2 * n + d) / (2 * d),
            d >= 1,
            n >= 0,
    ;
    assert(q == round_div(width * ratio.height, ratio.width as int));
    if q < 1 {
        Some(1)
    } else {
        Some(q as u64)
    }
}

/// The greater of `num / den` and `floor`.
fn raised(num: u128, den: u128, floor: u32) -> (f: Fraction)
    requires
        0 < den <= u32::MAX,
    ensures
        f == (Fraction { num, den }).at_least(floor),
{
    assert(floor * den <= u64::MAX) by (nonlinear_arith)
        requires
            floor <= u32::MAX,
            den <= u32::MAX,
    ;
    if num < (floor as u128) * den {
        Fraction { num: floor as u128, den: 1 }
    } else {
        Fraction { num, den }
    }
}

/// The size to give a window of `cw` by `ch` so that it has the
/// proportions of an image of `iw` by `ih` pixels, with no dimension
/// under `floor`.
pub fn fit_size(cw: u32, ch: u32, iw: u32, ih: u32, floor: u32) -> (r: Option<FitSize>)
    ensures
        r == fit(cw, ch, iw, ih, floor),
{
    if iw == 0 || ih == 0 {
        return None;
    }
    assert(cw * ih <= u64::MAX && ch * iw <= u64::MAX) by (nonlinear_arith)
        requires
            cw <= u32::MAX,
            ch <= u32::MAX,
            iw <= u32::MAX,
            ih <= u32::MAX,
    ;
    let by_width: u128 = (cw as u128) * (ih as u128);
    let by_height: u128 = (ch as u128) * (iw as u128);
    let keep_height = if cw >= ch {
        by_width > by_height
    } else {
        !(by_height > by_width)
    };
    if keep_height {
        Some(
            FitSize {
                width: raised(by_height, ih as u128, floor),
                height: raised(ch as u128, 1, floor),
            },
        )
    } else {
        Some(
            FitSize {
                width: raised(cw as u128, 1, floor),
                height: raised(by_width, iw as u128, floor),
            },
        )
    }
}

/// The size of an image of `w` by `h` that is to be shown in full on a
/// screen of `sw` by `sh`: the size itself where it takes up at most nine
/// tenths of the screen in each dimension, else the size scaled down, in
/// proportion, until it does.
pub open spec fn clamped(w: u32, h: u32, sw: u32, sh: u32) -> FitSize {
    if 10 * w <= 9 * sw && 10 * h <= 9 * sh {
        FitSize { width: Fraction::whole(w), height: Fraction::whole(h) }
    } else if sw * h <= sh * w {
        FitSize {
            width: Fraction { num: (9 * sw) as u128, den: 10 },
            height: Fraction { num: (9 * sw * h) as u128, den: (10 * w) as u128 },
        }
    } else {
        FitSize {
            width: Fraction { num: (9 * sh * w) as u128, den: (10 * h) as u128 },
            height: Fraction { num: (9 * sh) as u128, den: 10 },
        }
    }
}

/// The size that clamping gives an image. Without a screen the size stays
/// as it is; an image without a positive width and height has no size.
pub open spec fn clamp(w: u32, h: u32, screen: Option<(u32, u32)>) -> Option<FitSize> {
    if w == 0 || h == 0 {
        None
    } else {
        match screen {
            Some(s) => Some(clamped(w, h, s.0, s.1)),
            None => Some(FitSize { width: Fraction::whole(w), height: Fraction::whole(h) }),
        }
    }
}

/// A clamped size has the proportions of the image exactly, is no larger
/// than the image, and takes up at most nine tenths of the screen in each
/// dimension.
pub proof fn lemma_clamped(w: u32, h: u32, sw: u32, sh: u32)
    requires
        w > 0,
        h > 0,
    ensures
        ({
            let f = clamped(w, h, sw, sh);
            &&& f.width.den > 0 && f.height.den > 0
            &&& f.width.num * f.height.den * h == f.height.num * f.width.den * w
            &&& f.width.num <= w * f.width.den
            &&& f.height.num <= h * f.height.den
            &&& 10 * f.width.num <= 9 * sw * f.width.den
            &&& 10 * f.height.num <= 9 * sh * f.height.den
        }),
{
    let f = clamped(w, h, sw, sh);
    let a = sw * h;
    let b = sh * w;
    assert(0 <= a <= 0xffff_ffff * 0xffff_ffff && 0 <= b <= 0xffff_ffff * 0xffff_ffff)
        by (nonlinear_arith)
        requires
            a == sw * h,
            b == sh * w,
            0 <= w <= 0xffff_ffff,
            0 <= h <= 0xffff_ffff,
            0 <= sw <= 0xffff_ffff,
            0 <= sh <= 0xffff_ffff,
    ;
    assert(9 * sw * h == 9 * a && 9 * sh * w == 9 * b) by (nonlinear_arith)
        requires
            a == sw * h,
            b == sh * w,
    ;
    if 10 * w <= 9 * sw && 10 * h <= 9 * sh {
        assert(f.width == Fraction { num: w as u128, den: 1 });
        assert(f.height == Fraction { num: h as u128, den: 1 });
        assert(w * 1 * h == h * 1 * w) by (nonlinear_arith);
        assert(w * 1 == w && h * 1 == h && 9 * sw * 1 == 9 * sw && 9 * sh * 1 == 9 * sh);
    } else if a <= b {
        assert(f.width == Fraction { num: (9 * sw) as u128, den: 10 });
        assert(f.height == Fraction { num: (9 * a) as u128, den: (10 * w) as u128 });
        // the width is the tighter bound, so it is over nine tenths of the screen
        assert(10 * w > 9 * sw) by (nonlinear_arith)
            requires
                !(10 * w <= 9 * sw && 10 * h <= 9 * sh),
                sw * h <= sh * w,
                w > 0,
                h > 0,
                sw >= 0,
                sh >= 0,
        ;
        assert((9 * sw) * (10 * w) * h == (9 * a) * 10 * w) by (nonlinear_arith)
            requires
                a == sw * h,
        ;
        assert(9 * a <= h * (10 * w)) by (nonlinear_arith)
            requires
                a == sw * h,
                9 * sw < 10 * w,
                h > 0,
        ;
        assert(10 * (9 * a) <= 9 * sh * (10 * w)) by (nonlinear_arith)
            requires
                a <= b,
                b == sh * w,
        ;
        assert(f.width.num * f.height.den * h == f.height.num * f.width.den * w);
        assert(f.height.num <= h * f.height.den);
        assert(10 * f.height.num <= 9 * sh * f.height.den);
    } else {
        assert(f.width == Fraction { num: (9 * b) as u128, den: (10 * h) as u128 });
        assert(f.height == Fraction { num: (9 * sh) as u128, den: 10 });
        assert(10 * h > 9 * sh) by (nonlinear_arith)
            requires
                !(10 * w <= 9 * sw && 10 * h <= 9 * sh),
                sw * h > sh * w,
                w > 0,
                h > 0,
                sw >= 0,
                sh >= 0,
        ;
        assert((9 * b) * 10 * h == (9 * sh) * (10 * h) * w) by (nonlinear_arith)
            requires
                b == sh * w,
        ;
        assert(9 * b <= w * (10 * h)) by (nonlinear_arith)
            requires
                b == sh * w,
                9 * sh < 10 * h,
                w > 0,
        ;
        assert(10 * (9 * b) <= 9 * sw * (10 * h)) by (nonlinear_arith)
            requires
                b < a,
                a == sw * h,
        ;
        assert(f.width.num * f.height.den * h == f.height.num * f.width.den * w);
        assert(f.width.num <= w * f.width.den);
        assert(10 * f.width.num <= 9 * sw * f.width.den);
    }
}

/// The size at which an image of `w` by `h` is shown in full on the
/// screen, `screen` being the size of its visible part where there is a
/// screen.
pub fn clamp_to_screen(w: u32, h: u32, screen: Option<(u32, u32)>) -> (r: Option<FitSize>)
    ensures
        r == clamp(w, h, screen),
{
    if w == 0 || h == 0 {
        return None;
    }
    let s = match screen {
        Some(s) => s,
        None => {
            return Some(
                FitSize {
                    width: Fraction { num: w as u128, den: 1 },
                    height: Fraction { num: h as u128, den: 1 },
                },
            );
        },
    };
    let sw = s.0;
    let sh = s.1;
    assert(0 <= sw * h <= 0xffff_ffff * 0xffff_ffff && 0 <= sh * w <= 0xffff_ffff * 0xffff_ffff)
        by (nonlinear_arith)
        requires
            0 <= w <= 0xffff_ffff,
            0 <= h <= 0xffff_ffff,
            0 <= sw <= 0xffff_ffff,
            0 <= sh <= 0xffff_ffff,
    ;
    let a: u128 = (sw as u128) * (h as u128);
    let b: u128 = (sh as u128) * (w as u128);
    assert(9 * sw * h == 9 * a && 9 * sh * w == 9 * b) by (nonlinear_arith)
        requires
            a == sw * h,
            b == sh * w,
    ;
    if 10 * (w as u128) <= 9 * (sw as u128) && 10 * (h as u128) <= 9 * (sh as u128) {
        Some(
            FitSize {
                width: Fraction { num: w as u128, den: 1 },
                height: Fraction { num: h as u128, den: 1 },
            },
        )
    } else if a <= b {
        Some(
            FitSize {
                width: Fraction { num: 9 * (sw as u128), den: 10 },
                height: Fraction { num: 9 * a, den: 10 * (w as u128) },
            },
        )
    } else {
        Some(
            FitSize {
                width: Fraction { num: 9 * b, den: 10 * (h as u128) },
                height: Fraction { num: 9 * (sh as u128), den: 10 },
            },
        )
    }
}

} // verus!
