//! Thumbnail grid layout: pack a given number of aspect-ratio-preserving
//! cells, plus proportional margins, into the usable sub-region of a
//! display.
//!
//! All arithmetic is exact integer/rational arithmetic. The ideal cell
//! height `x` solves
//!
//! ```text
//! x^2 = usable_area / (frame_count * ratio * k)
//! ```
//!
//! where `usable_area = display_w * (94/100) * display_h * (82/100)`,
//! `ratio = frame_w / frame_h`, and `k` accounts for the margins around
//! each cell: with width-margin ratio `wm = 4/100` and height-margin
//! ratio `hm = (frame_w - frame_h) / (5 * frame_h)`,
//!
//! ```text
//! k = 1 + 2*wm + 2*hm + 5*wm*hm = (16*frame_h + 11*frame_w) / (25*frame_h)
//! ```
//!
//! Substituting gives `x^2` as the single reduced fraction
//! `height_sq_num / height_sq_den` below: with `94/100 * 82/100 =
//! 1927/2500` and the `25 * frame_h` denominator of `k`,
//!
//! ```text
//! x^2 = 1927 * display_w * display_h * frame_h^2
//!       / (100 * frame_count * frame_w * (16 * frame_h + 11 * frame_w))
//! ```
//!
//! Every output is the exact rounding of the exact real-valued
//! formula, so the layout is a pure function of its inputs.

use vstd::prelude::*;

use crate::math::{isqrt_u128, lemma_div_bounded, lemma_isqrt_lt, spec_isqrt};

verus! {

/// Numerator of the usable-width factor: the grid gets 94/100 of the
/// display width.
pub const WIDTH_FACTOR_NUM: u64 = 94;

/// Denominator of the usable-area factors.
pub const FACTOR_DEN: u64 = 100;

/// Largest display dimension, frame dimension or frame count the
/// calculator handles; keeps every intermediate product inside `u128`.
pub const MAX_EXTENT: u64 = 65535;

/// The population of preprocessed frames discovered on disk.
#[derive(Clone, Copy, PartialEq, Eq, Structural, Debug)]
pub struct FrameSet {
    /// How many frames there are.
    pub count: u64,
    /// Width of one source frame, in pixels.
    pub frame_width: u64,
    /// Height of one source frame, in pixels.
    pub frame_height: u64,
}

/// One thumbnail's slot in the grid: cell size, margins and how many
/// cells stand in a row.
#[derive(Clone, Copy, PartialEq, Eq, Structural, Debug)]
pub struct ThumbnailLayout {
    /// Width of one cell, in pixels.
    pub cell_width: u64,
    /// Height of one cell, in pixels.
    pub cell_height: u64,
    /// Horizontal margin on each side of a cell, in pixels.
    pub margin_x: u64,
    /// Vertical margin above and below a cell, in pixels.
    pub margin_y: u64,
    /// Number of cells per row.
    pub columns: u64,
}

/// The calculator rejects a configuration it cannot lay out.
#[derive(Clone, Copy, PartialEq, Eq, Structural, Debug)]
pub enum LayoutError {
    /// Zero frame count, degenerate dimensions, a frame taller than it
    /// is wide, dimensions beyond `MAX_EXTENT`, or a display too small
    /// to hold even one column.
    InvalidConfig,
}

/// Inputs the calculator accepts: everything positive and bounded, and
/// frames at least as wide as they are tall (the vertical margin ratio
/// `(frame_w - frame_h) / (5 * frame_h)` is meaningful only then).
pub open spec fn valid_inputs(dw: int, dh: int, fc: int, fw: int, fh: int) -> bool {
    &&& 1 <= dw <= MAX_EXTENT
    &&& 1 <= dh <= MAX_EXTENT
    &&& 1 <= fc <= MAX_EXTENT
    &&& 1 <= fh <= fw <= MAX_EXTENT
}

/// Numerator of `x^2`, the squared ideal cell height.
pub open spec fn height_sq_num(dw: int, dh: int, fh: int) -> int {
    1927 * dw * dh * fh * fh
}

/// Denominator of `x^2`.
pub open spec fn height_sq_den(fc: int, fw: int, fh: int) -> int {
    100 * fc * fw * (16 * fh + 11 * fw)
}

/// `round(sqrt(p / q))` for `p >= 0`, `q > 0`, on exact rationals:
/// for real `t >= 0`, `round(t) == (floor(2t) + 1) / 2`, and
/// `floor(2 * sqrt(p / q)) == isqrt(floor(4 * p / q))`.
pub open spec fn rounded_sqrt(p: int, q: int) -> int {
    (spec_isqrt(4 * p / q) + 1) / 2
}

/// The rounded cell height.
pub open spec fn cell_height_spec(dw: int, dh: int, fc: int, fw: int, fh: int) -> int {
    rounded_sqrt(height_sq_num(dw, dh, fh), height_sq_den(fc, fw, fh))
}

/// The cell width: the already-rounded height, scaled by the frame
/// ratio and rounded once more (never rounded independently, so the
/// two roundings cannot drift apart).
pub open spec fn cell_width_spec(h: int, fw: int, fh: int) -> int {
    (2 * h * fw + fh) / (2 * fh)
}

/// The horizontal margin: `round(x * (fw / fh) * (4 / 100))`, taken on
/// the unrounded ideal height `x`.
pub open spec fn margin_x_spec(dw: int, dh: int, fc: int, fw: int, fh: int) -> int {
    rounded_sqrt(
        height_sq_num(dw, dh, fh) * fw * fw,
        625 * fh * fh * height_sq_den(fc, fw, fh),
    )
}

/// The vertical margin: `round(x * (fw - fh) / (5 * fh))`, taken on the
/// unrounded ideal height `x`.
pub open spec fn margin_y_spec(dw: int, dh: int, fc: int, fw: int, fh: int) -> int {
    rounded_sqrt(
        height_sq_num(dw, dh, fh) * (fw - fh) * (fw - fh),
        25 * fh * fh * height_sq_den(fc, fw, fh),
    )
}

/// The usable grid width in whole pixels.
pub open spec fn usable_width_spec(dw: int) -> int {
    WIDTH_FACTOR_NUM * dw / (FACTOR_DEN as int)
}

/// How many cells, each with its two horizontal margins, fit across the
/// usable width.
pub open spec fn columns_spec(dw: int, dh: int, fc: int, fw: int, fh: int) -> int {
    let h = cell_height_spec(dw, dh, fc, fw, fh);
    let w = cell_width_spec(h, fw, fh);
    let mx = margin_x_spec(dw, dh, fc, fw, fh);
    usable_width_spec(dw) / (w + 2 * mx)
}

/// When the calculator succeeds: valid inputs, a cell at least one
/// pixel tall, and room for at least one column.
pub open spec fn layout_computable(dw: int, dh: int, fc: int, fw: int, fh: int) -> bool {
    &&& valid_inputs(dw, dh, fc, fw, fh)
    &&& cell_height_spec(dw, dh, fc, fw, fh) >= 1
    &&& columns_spec(dw, dh, fc, fw, fh) >= 1
}

/// The layout the calculator returns on valid inputs.
pub open spec fn layout_spec(dw: int, dh: int, fc: int, fw: int, fh: int) -> ThumbnailLayout {
    let h = cell_height_spec(dw, dh, fc, fw, fh);
    ThumbnailLayout {
        cell_width: cell_width_spec(h, fw, fh) as u64,
        cell_height: h as u64,
        margin_x: margin_x_spec(dw, dh, fc, fw, fh) as u64,
        margin_y: margin_y_spec(dw, dh, fc, fw, fh) as u64,
        columns: columns_spec(dw, dh, fc, fw, fh) as u64,
    }
}

/// Computes thumbnail grid layouts; a pure function wrapped in a type.
pub struct LayoutCalculator {
}

impl LayoutCalculator {
    /// Lay `frame_count` thumbnails of a `frame_w x frame_h` source out
    /// on a `display_w x display_h` display.
    ///
    /// On success the result is exactly `layout_spec`, so equal inputs
    /// always give the identical layout. The cell preserves the source
    /// aspect ratio to within one rounding unit, and the columns never
    /// overflow the usable width.
    ///
    /// Known gap, kept deliberately: the implied row count
    /// (`frame_count` over `columns`, rounded up) is not checked
    /// against the usable height; the compositor wraps rows on its
    /// own.
    pub fn compute(
        display_w: u64,
        display_h: u64,
        frame_count: u64,
        frame_w: u64,
        frame_h: u64,
    ) -> (r: Result<ThumbnailLayout, LayoutError>)
        ensures
            r is Ok <==> layout_computable(
                display_w as int,
                display_h as int,
                frame_count as int,
                frame_w as int,
                frame_h as int,
            ),
            r matches Ok(l) ==> l == layout_spec(
                display_w as int,
                display_h as int,
                frame_count as int,
                frame_w as int,
                frame_h as int,
            ),
            r matches Ok(l) ==> 1 <= l.cell_height && 1 <= l.cell_width && 1 <= l.columns,
            // the cell keeps the source aspect ratio to within one
            // rounding unit of the width
            r matches Ok(l) ==> -(frame_h as int) <= 2 * (l.cell_width * frame_h
                - l.cell_height * frame_w) <= frame_h as int,
            // the row of columns never overflows the usable width
            r matches Ok(l) ==> FACTOR_DEN * (l.columns * (l.cell_width + 2 * l.margin_x))
                <= WIDTH_FACTOR_NUM * display_w,
            frame_count == 0 ==> r is Err,
            r is Err ==> r == Result::<ThumbnailLayout, LayoutError>::Err(
                LayoutError::InvalidConfig,
            ),
    {
        if !(1 <= display_w && display_w <= MAX_EXTENT && 1 <= display_h && display_h <= MAX_EXTENT
            && 1 <= frame_count && frame_count <= MAX_EXTENT && 1 <= frame_h && frame_h <= frame_w
            && frame_w <= MAX_EXTENT) {
            return Err(LayoutError::InvalidConfig);
        }
        let dw = display_w as u128;
        let dh = display_h as u128;
        let fc = frame_count as u128;
        let fw = frame_w as u128;
        let fh = frame_h as u128;

        proof {
            // 1927 * 65535^4 < 2^75
            assert(1927 * dw * dh < 8796093022208 && 1927 * dw * dh * fh
                < 576460752303423488 && 1927 * dw * dh * fh * fh
                < 37778931862957161709568) by (nonlinear_arith)
                requires
                    1 <= dw <= 65535,
                    1 <= dh <= 65535,
                    1 <= fh <= 65535,
            ;
        }
        let num: u128 = 1927 * dw * dh * fh * fh;
        let part: u128 = 16 * fh + 11 * fw;
        proof {
            // den stays below 2^60 and above 100 * 1 * 1 * 27
            assert(100 * fc * fw < 549755813888 && 2700 <= 100 * fc * fw * part
                < 1152921504606846976) by (nonlinear_arith)
                requires
                    1 <= fc <= 65535,
                    1 <= fw <= 65535,
                    27 <= part < 2097152,
            ;
        }
        let den: u128 = 100 * fc * fw * part;

        // cell height: round(sqrt(num / den))
        let hq: u128 = 4 * num / den;
        proof {
            // 4 * num < 2^77 < 2700 * 2^66, so hq < 2^66 = (2^33)^2
            lemma_div_bounded(4 * num as int, den as int, 2700, 73786976294838206464);
        }
        let hs: u128 = isqrt_u128(hq);
        proof {
            lemma_isqrt_lt(hq as int, 8589934592);
        }
        let cell_height: u64 = ((hs + 1) / 2) as u64;
        if cell_height == 0 {
            return Err(LayoutError::InvalidConfig);
        }

        // cell width from the already-rounded height
        let chw: u128 = cell_height as u128;
        proof {
            assert(2 * chw * fw < 562949953421312) by (nonlinear_arith)
                requires
                    chw <= 4294967296,
                    fw <= 65535,
            ;
        }
        let wn: u128 = 2 * chw * fw + fh;
        let wd: u128 = 2 * fh;
        proof {
            lemma_div_bounded(wn as int, wd as int, 1, 1125899906842624);
        }
        let cell_width: u64 = (wn / wd) as u64;
        proof {
            lemma_cell_width_shape(cell_height as int, frame_w as int, frame_h as int);
        }

        // margins from the unrounded ideal height
        proof {
            // 4 * num * fw^2 < 2^109; 625 * fh^2 * den >= 625 * 2700
            assert(4 * num * fw < 9903520314283042199192993792 && 4 * num * fw * fw
                < 649037107316853453566312041152512) by (nonlinear_arith)
                requires
                    num < 37778931862957161709568,
                    1 <= fw <= 65535,
            ;
            assert(625 * fh * fh < 175921860444160 && 1687500 <= 625 * fh * fh * den
                < 1298074214633706907132624082305024) by (nonlinear_arith)
                requires
                    1 <= fh <= 65535,
                    2700 <= den < 1152921504606846976,
            ;
        }
        let mxn: u128 = 4 * num * fw * fw;
        let mxd: u128 = 625 * fh * fh * den;
        let mxq: u128 = mxn / mxd;
        proof {
            // 2^109 < 1687500 * 2^90, so mxq < 2^90 = (2^45)^2
            lemma_div_bounded(mxn as int, mxd as int, 1687500, 1237940039285380274899124224);
            lemma_isqrt_lt(mxq as int, 35184372088832);
            assert(4 * num * fw * fw == 4 * (num * fw * fw)) by (nonlinear_arith);
        }
        let mxs: u128 = isqrt_u128(mxq);
        let margin_x: u64 = ((mxs + 1) / 2) as u64;

        let dd: u128 = fw - fh;
        proof {
            assert(4 * num * dd < 9903520314283042199192993792 && 4 * num * dd * dd
                < 649037107316853453566312041152512) by (nonlinear_arith)
                requires
                    num < 37778931862957161709568,
                    0 <= dd <= 65535,
            ;
            assert(25 * fh * fh < 175921860444160 && 67500 <= 25 * fh * fh * den
                < 1298074214633706907132624082305024) by (nonlinear_arith)
                requires
                    1 <= fh <= 65535,
                    2700 <= den < 1152921504606846976,
            ;
        }
        let myn: u128 = 4 * num * dd * dd;
        let myd: u128 = 25 * fh * fh * den;
        let myq: u128 = myn / myd;
        proof {
            // 2^109 < 67500 * 2^94, so myq < 2^94 = (2^47)^2
            lemma_div_bounded(myn as int, myd as int, 67500, 19807040628566084398385987584);
            lemma_isqrt_lt(myq as int, 140737488355328);
            assert(4 * num * dd * dd == 4 * (num * dd * dd)) by (nonlinear_arith);
        }
        let mys: u128 = isqrt_u128(myq);
        let margin_y: u64 = ((mys + 1) / 2) as u64;

        // columns that fit across the usable width
        let usable_w: u64 = WIDTH_FACTOR_NUM * display_w / FACTOR_DEN;
        let stride: u64 = cell_width + 2 * margin_x;
        let columns: u64 = usable_w / stride;
        if columns == 0 {
            return Err(LayoutError::InvalidConfig);
        }
        proof {
            lemma_columns_fit(usable_w as int, stride as int, columns as int, display_w as int);
        }
        Ok(
            ThumbnailLayout {
                cell_width,
                cell_height,
                margin_x,
                margin_y,
                columns,
            },
        )
    }
}

/// The rounded cell width stays within half a pixel of `h * fw / fh`
/// and is at least `h` when the frame is at least as wide as tall.
proof fn lemma_cell_width_shape(h: int, fw: int, fh: int)
    requires
        h >= 1,
        1 <= fh <= fw,
    ensures
        -fh <= 2 * (cell_width_spec(h, fw, fh) * fh - h * fw) <= fh,
        cell_width_spec(h, fw, fh) >= h,
{
    let w = cell_width_spec(h, fw, fh);
    vstd::arithmetic::div_mod::lemma_fundamental_div_mod(2 * h * fw + fh, 2 * fh);
    vstd::arithmetic::div_mod::lemma_mod_bound(2 * h * fw + fh, 2 * fh);
    // 2*h*fw + fh == 2*fh*w + rem with 0 <= rem < 2*fh
    let rem = (2 * h * fw + fh) % (2 * fh);
    assert(2 * (w * fh - h * fw) == fh - rem) by (nonlinear_arith)
        requires
            2 * h * fw + fh == 2 * fh * w + rem,
    ;
    assert(w >= h) by (nonlinear_arith)
        requires
            2 * h * fw + fh == 2 * fh * w + rem,
            0 <= rem < 2 * fh,
            h >= 1,
            1 <= fh <= fw,
    ;
}

/// `columns = usable_w / stride` never overflows the usable width:
/// `columns * stride <= usable_w <= 94 * display_w / 100`.
proof fn lemma_columns_fit(usable_w: int, stride: int, columns: int, display_w: int)
    requires
        stride >= 1,
        usable_w == 94 * display_w / 100,
        columns == usable_w / stride,
        display_w >= 0,
    ensures
        100 * (columns * stride) <= 94 * display_w,
{
    vstd::arithmetic::div_mod::lemma_fundamental_div_mod(usable_w, stride);
    vstd::arithmetic::div_mod::lemma_mod_bound(usable_w, stride);
    assert(columns * stride <= usable_w) by (nonlinear_arith)
        requires
            usable_w == stride * columns + usable_w % stride,
            usable_w % stride >= 0,
    ;
    vstd::arithmetic::div_mod::lemma_fundamental_div_mod(94 * display_w, 100);
    vstd::arithmetic::div_mod::lemma_mod_bound(94 * display_w, 100);
}

} // verus!
