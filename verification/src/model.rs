//! The letterbox geometry as mathematics over the real numbers.
//!
//! Everything here is ghost: it says what the layout of a virtual resolution
//! inside a surface *is*. The executable code in [`crate::scaler`] is proved
//! to return exactly these values, and the laws at the end of this file hold
//! for every pair of positive extents, whole or fractional.
//!
//! All lengths and offsets are in virtual units, the units in which content
//! is laid out; multiplied by the uniform scale they become surface units.

use crate::side::AspectRatioMaskSide;
use vstd::prelude::*;

verus! {

/// A width and a height.
pub struct Extent {
    pub width: real,
    pub height: real,
}

impl Extent {
    /// Both dimensions are strictly positive.
    pub open spec fn positive(self) -> bool {
        self.width > 0real && self.height > 0real
    }

    /// The same extent with width and height exchanged.
    pub open spec fn transposed(self) -> Extent {
        Extent { width: self.height, height: self.width }
    }

    /// The same extent measured in units `k` times finer.
    pub open spec fn scaled(self, k: real) -> Extent {
        Extent { width: k * self.width, height: k * self.height }
    }
}

/// The smaller of two real numbers.
pub open spec fn min_real(a: real, b: real) -> real {
    if a <= b {
        a
    } else {
        b
    }
}

/// `x` where it is positive, zero elsewhere.
pub open spec fn clamped(x: real) -> real {
    if x > 0real {
        x
    } else {
        0real
    }
}

/// How far the surface stretches the virtual resolution horizontally.
pub open spec fn scale_x(v: Extent, s: Extent) -> real {
    s.width / v.width
}

/// How far the surface stretches the virtual resolution vertically.
pub open spec fn scale_y(v: Extent, s: Extent) -> real {
    s.height / v.height
}

/// The one factor applied to both axes: the largest that lets the whole
/// virtual resolution fit inside the surface.
pub open spec fn uniform_scale(v: Extent, s: Extent) -> real {
    min_real(scale_x(v, s), scale_y(v, s))
}

/// Width of the surface in virtual units once the vertical scale is applied
/// to both axes.
pub open spec fn normalized_width(v: Extent, s: Extent) -> real {
    v.width * scale_x(v, s) / scale_y(v, s)
}

/// Height of the surface in virtual units once the horizontal scale is
/// applied to both axes.
pub open spec fn normalized_height(v: Extent, s: Extent) -> real {
    v.height * scale_y(v, s) / scale_x(v, s)
}

/// Leftover width. Negative when the horizontal axis is the one that limits
/// the scale.
pub open spec fn dx(v: Extent, s: Extent) -> real {
    normalized_width(v, s) - v.width
}

/// Leftover height. Negative when the vertical axis is the one that limits
/// the scale.
pub open spec fn dy(v: Extent, s: Extent) -> real {
    normalized_height(v, s) - v.height
}

/// Distance from the surface's left edge to the content.
pub open spec fn margin_left(v: Extent, s: Extent) -> real {
    if scale_x(v, s) > uniform_scale(v, s) {
        dx(v, s) / 2real
    } else {
        0real
    }
}

/// Distance from the surface's top edge to the content.
pub open spec fn margin_top(v: Extent, s: Extent) -> real {
    if scale_y(v, s) > uniform_scale(v, s) {
        dy(v, s) / 2real
    } else {
        0real
    }
}

/// Thickness of a bar along its own axis: the leftover space on that axis,
/// and zero where there is none.
pub open spec fn mask_length(side: AspectRatioMaskSide, v: Extent, s: Extent) -> real {
    match side {
        AspectRatioMaskSide::Left | AspectRatioMaskSide::Right => clamped(dx(v, s)),
        AspectRatioMaskSide::Top | AspectRatioMaskSide::Bottom => clamped(dy(v, s)),
    }
}

/// Where a bar starts along its own axis, measured from the left edge of
/// the surface for the left and right bars and from its top edge for the top
/// and bottom bars. The leftover space enters unclamped, so the offsets of a
/// bar of zero length still follow the same formulas.
pub open spec fn mask_offset(side: AspectRatioMaskSide, v: Extent, s: Extent) -> real {
    match side {
        AspectRatioMaskSide::Left => -dx(v, s) / 2real,
        AspectRatioMaskSide::Right => normalized_width(v, s) - dx(v, s) / 2real,
        AspectRatioMaskSide::Top => -dy(v, s) / 2real,
        AspectRatioMaskSide::Bottom => normalized_height(v, s) - dy(v, s) / 2real,
    }
}

/// Extent of a bar across its axis: the full height of the surface for the
/// left and right bars, the full width for the top and bottom bars. Like
/// every length here it is in virtual units, so it is the surface's extent
/// divided by the uniform scale.
pub open spec fn mask_breadth(side: AspectRatioMaskSide, v: Extent, s: Extent) -> real {
    match side {
        AspectRatioMaskSide::Left | AspectRatioMaskSide::Right => s.height / uniform_scale(v, s),
        AspectRatioMaskSide::Top | AspectRatioMaskSide::Bottom => s.width / uniform_scale(v, s),
    }
}

/// One bar.
pub struct MaskModel {
    pub side: AspectRatioMaskSide,
    pub offset: real,
    pub length: real,
    pub breadth: real,
}

impl MaskModel {
    /// The bar that takes this one's place when width and height trade
    /// places.
    pub open spec fn transposed(self) -> MaskModel {
        MaskModel {
            side: self.side.transposed(),
            offset: self.offset,
            length: self.length,
            breadth: self.breadth,
        }
    }
}

/// The whole result: scale, margins, and the four bars in the order left,
/// right, top, bottom.
pub struct LayoutModel {
    pub uniform_scale: real,
    pub margin_left: real,
    pub margin_top: real,
    pub masks: Seq<MaskModel>,
}

impl MaskModel {
    /// The same bar measured in units `k` times finer.
    pub open spec fn scaled(self, k: real) -> MaskModel {
        MaskModel {
            side: self.side,
            offset: k * self.offset,
            length: k * self.length,
            breadth: k * self.breadth,
        }
    }
}

impl LayoutModel {
    /// The same layout measured in units `k` times finer: every length is
    /// multiplied by `k`, and the uniform scale, a ratio of lengths, stays.
    pub open spec fn scaled(self, k: real) -> LayoutModel {
        LayoutModel {
            uniform_scale: self.uniform_scale,
            margin_left: k * self.margin_left,
            margin_top: k * self.margin_top,
            masks: seq![
                self.masks[0].scaled(k),
                self.masks[1].scaled(k),
                self.masks[2].scaled(k),
                self.masks[3].scaled(k),
            ],
        }
    }

    /// The same layout with the uniform scale multiplied by `k`.
    pub open spec fn magnified(self, k: real) -> LayoutModel {
        LayoutModel {
            uniform_scale: k * self.uniform_scale,
            margin_left: self.margin_left,
            margin_top: self.margin_top,
            masks: self.masks,
        }
    }

    /// The layout with the roles of the two axes exchanged.
    pub open spec fn transposed(self) -> LayoutModel {
        LayoutModel {
            uniform_scale: self.uniform_scale,
            margin_left: self.margin_top,
            margin_top: self.margin_left,
            masks: seq![
                self.masks[2].transposed(),
                self.masks[3].transposed(),
                self.masks[0].transposed(),
                self.masks[1].transposed(),
            ],
        }
    }
}

/// The bar on `side`.
pub open spec fn mask(side: AspectRatioMaskSide, v: Extent, s: Extent) -> MaskModel {
    MaskModel {
        side,
        offset: mask_offset(side, v, s),
        length: mask_length(side, v, s),
        breadth: mask_breadth(side, v, s),
    }
}

/// The layout of virtual resolution `v` inside surface `s`.
pub open spec fn layout(v: Extent, s: Extent) -> LayoutModel {
    LayoutModel {
        uniform_scale: uniform_scale(v, s),
        margin_left: margin_left(v, s),
        margin_top: margin_top(v, s),
        masks: seq![
            mask(AspectRatioMaskSide::Left, v, s),
            mask(AspectRatioMaskSide::Right, v, s),
            mask(AspectRatioMaskSide::Top, v, s),
            mask(AspectRatioMaskSide::Bottom, v, s),
        ],
    }
}

/// The normalized dimensions and the leftover space written as single
/// fractions of the four input lengths.
pub proof fn lemma_closed_forms(v: Extent, s: Extent)
    by (nonlinear_arith)
    requires
        v.positive(),
        s.positive(),
    ensures
        normalized_width(v, s) == s.width * v.height / s.height,
        normalized_height(v, s) == s.height * v.width / s.width,
        dx(v, s) == (s.width * v.height - s.height * v.width) / s.height,
        dy(v, s) == (s.height * v.width - s.width * v.height) / s.width,
        scale_x(v, s) <= scale_y(v, s) <==> s.width * v.height <= s.height * v.width,
        scale_x(v, s) > 0real,
        scale_y(v, s) > 0real,
{
}

/// The sign of the leftover space on an axis tells which axis limits the
/// scale: leftover width is positive exactly when the horizontal scale is
/// the larger one, and the two leftovers never have the same strict sign.
pub proof fn lemma_leftover_signs(v: Extent, s: Extent)
    requires
        v.positive(),
        s.positive(),
    ensures
        dx(v, s) > 0real <==> scale_x(v, s) > scale_y(v, s),
        dy(v, s) > 0real <==> scale_y(v, s) > scale_x(v, s),
        dx(v, s) == 0real <==> scale_x(v, s) == scale_y(v, s),
        dy(v, s) == 0real <==> scale_x(v, s) == scale_y(v, s),
        dx(v, s) >= 0real || dy(v, s) >= 0real,
        dx(v, s) <= 0real || dy(v, s) <= 0real,
{
    lemma_closed_forms(v, s);
    let a = s.width * v.height;
    let b = s.height * v.width;
    assert(((a - b) / s.height > 0real <==> a > b) && ((a - b) / s.height == 0real <==> a == b))
        by (nonlinear_arith)
        requires
            s.height > 0real,
    ;
    assert(((b - a) / s.width > 0real <==> b > a) && ((b - a) / s.width == 0real <==> a == b))
        by (nonlinear_arith)
        requires
            s.width > 0real,
    ;
    lemma_closed_forms(v.transposed(), s.transposed());
}

/// Where the surface has the aspect ratio of the virtual resolution, the
/// uniform scale is the common ratio, no bar has any length, and the content
/// has no margin.
pub proof fn lemma_matching_aspect(v: Extent, s: Extent)
    requires
        v.positive(),
        s.positive(),
        s.width / v.width == s.height / v.height,
    ensures
        layout(v, s).uniform_scale == s.width / v.width,
        layout(v, s).uniform_scale == s.height / v.height,
        layout(v, s).margin_left == 0real,
        layout(v, s).margin_top == 0real,
        forall|i: int| 0 <= i < 4 ==> (#[trigger] layout(v, s).masks[i]).length == 0real,
{
    lemma_leftover_signs(v, s);
}

/// Where the aspect ratios differ, exactly one pair of opposite bars has
/// length: left and right when the surface is relatively wider, top and
/// bottom when it is relatively taller. The other pair has length zero, and
/// only the axis with bars has a margin.
pub proof fn lemma_one_axis_masked(v: Extent, s: Extent)
    requires
        v.positive(),
        s.positive(),
        s.width / v.width != s.height / v.height,
    ensures
        ({
            let l = layout(v, s);
            let wide = s.width / v.width > s.height / v.height;
            &&& wide ==> {
                &&& l.masks[0].length > 0real
                &&& l.masks[1].length > 0real
                &&& l.masks[2].length == 0real
                &&& l.masks[3].length == 0real
                &&& l.margin_left > 0real
                &&& l.margin_top == 0real
            }
            &&& !wide ==> {
                &&& l.masks[0].length == 0real
                &&& l.masks[1].length == 0real
                &&& l.masks[2].length > 0real
                &&& l.masks[3].length > 0real
                &&& l.margin_left == 0real
                &&& l.margin_top > 0real
            }
        }),
{
    lemma_leftover_signs(v, s);
}

/// Exchanging width and height in both the virtual resolution and the
/// surface exchanges the roles of the two axes in the result and changes
/// nothing else: the uniform scale is the same, the margins trade places,
/// and each bar becomes the bar on the transposed side.
pub proof fn lemma_transpose(v: Extent, s: Extent)
    ensures
        layout(v.transposed(), s.transposed()) == layout(v, s).transposed(),
{
    assert(layout(v.transposed(), s.transposed()).masks =~= layout(v, s).transposed().masks);
}

/// The content is centered: on each axis, the margin on both sides plus the
/// virtual resolution is the surface's extent in virtual units, which is
/// also the breadth of the bars that run across that axis.
pub proof fn lemma_content_centered(v: Extent, s: Extent)
    requires
        v.positive(),
        s.positive(),
    ensures
        2real * margin_left(v, s) + v.width == s.width / uniform_scale(v, s),
        2real * margin_top(v, s) + v.height == s.height / uniform_scale(v, s),
        s.width / uniform_scale(v, s) == mask_breadth(AspectRatioMaskSide::Top, v, s),
        s.height / uniform_scale(v, s) == mask_breadth(AspectRatioMaskSide::Left, v, s),
{
    lemma_closed_forms(v, s);
    lemma_leftover_signs(v, s);
    assert(s.width / (s.width / v.width) == v.width && s.width / (s.height / v.height) == s.width
        * v.height / s.height) by (nonlinear_arith)
        requires
            v.positive(),
            s.positive(),
    ;
    assert(s.height / (s.height / v.height) == v.height && s.height / (s.width / v.width)
        == s.height * v.width / s.width) by (nonlinear_arith)
        requires
            v.positive(),
            s.positive(),
    ;
}

/// The bars meet the content and straddle the edges of the surface. On an
/// axis with leftover space, the first bar is centered on the near edge of
/// the surface and ends where the content starts; the second starts where
/// the content ends and is centered on the far edge.
pub proof fn lemma_bars_meet_content(v: Extent, s: Extent)
    requires
        v.positive(),
        s.positive(),
    ensures
        dx(v, s) >= 0real ==> {
            let left = mask(AspectRatioMaskSide::Left, v, s);
            let right = mask(AspectRatioMaskSide::Right, v, s);
            &&& left.offset + left.length / 2real == 0real
            &&& left.offset + left.length == margin_left(v, s)
            &&& right.offset == margin_left(v, s) + v.width
            &&& right.offset + right.length / 2real == s.width / uniform_scale(v, s)
        },
        dy(v, s) >= 0real ==> {
            let top = mask(AspectRatioMaskSide::Top, v, s);
            let bottom = mask(AspectRatioMaskSide::Bottom, v, s);
            &&& top.offset + top.length / 2real == 0real
            &&& top.offset + top.length == margin_top(v, s)
            &&& bottom.offset == margin_top(v, s) + v.height
            &&& bottom.offset + bottom.length / 2real == s.height / uniform_scale(v, s)
        },
{
    lemma_leftover_signs(v, s);
    lemma_content_centered(v, s);
}

/// The uniform scale is the largest factor at which the virtual resolution
/// fits inside the surface: scaled by it the content is no wider and no
/// taller than the surface, it touches the surface on at least one axis, and
/// any factor at which the content fits is no larger.
pub proof fn lemma_uniform_scale_fits(v: Extent, s: Extent, k: real)
    requires
        v.positive(),
        s.positive(),
    ensures
        uniform_scale(v, s) > 0real,
        uniform_scale(v, s) * v.width <= s.width,
        uniform_scale(v, s) * v.height <= s.height,
        uniform_scale(v, s) * v.width == s.width || uniform_scale(v, s) * v.height == s.height,
        k * v.width <= s.width && k * v.height <= s.height ==> k <= uniform_scale(v, s),
{
    let w = v.width;
    let h = v.height;
    assert(s.width / w > 0real && s.width / w * w == s.width && (k * w <= s.width ==> k <= s.width
        / w)) by (nonlinear_arith)
        requires
            w > 0real,
            s.width > 0real,
    ;
    assert(s.height / h > 0real && s.height / h * h == s.height && (k * h <= s.height ==> k
        <= s.height / h)) by (nonlinear_arith)
        requires
            h > 0real,
            s.height > 0real,
    ;
    assert(s.width / w <= s.height / h ==> s.width / w * h <= s.height) by (nonlinear_arith)
        requires
            h > 0real,
            s.height / h * h == s.height,
    ;
    assert(s.height / h <= s.width / w ==> s.height / h * w <= s.width) by (nonlinear_arith)
        requires
            w > 0real,
            s.width / w * w == s.width,
    ;
}

/// The layout does not depend on the unit of length. Measuring the virtual
/// resolution and the surface in units `k` times finer leaves the uniform
/// scale as it is and multiplies every margin, offset, length and breadth by
/// `k`.
pub proof fn lemma_unit_invariance(v: Extent, s: Extent, k: real)
    requires
        v.positive(),
        s.positive(),
        k > 0real,
    ensures
        layout(v.scaled(k), s.scaled(k)) == layout(v, s).scaled(k),
{
    let vk = v.scaled(k);
    let sk = s.scaled(k);
    lemma_closed_forms(v, s);
    assert(scale_x(vk, sk) == scale_x(v, s)) by (nonlinear_arith)
        requires
            v.width > 0real,
            k > 0real,
            scale_x(vk, sk) == (k * s.width) / (k * v.width),
            scale_x(v, s) == s.width / v.width,
    ;
    assert(scale_y(vk, sk) == scale_y(v, s)) by (nonlinear_arith)
        requires
            v.height > 0real,
            k > 0real,
            scale_y(vk, sk) == (k * s.height) / (k * v.height),
            scale_y(v, s) == s.height / v.height,
    ;
    let sx = scale_x(v, s);
    let sy = scale_y(v, s);
    assert(normalized_width(vk, sk) == k * normalized_width(v, s)) by (nonlinear_arith)
        requires
            normalized_width(vk, sk) == (k * v.width) * sx / sy,
            normalized_width(v, s) == v.width * sx / sy,
            sy > 0real,
    ;
    assert(normalized_height(vk, sk) == k * normalized_height(v, s)) by (nonlinear_arith)
        requires
            normalized_height(vk, sk) == (k * v.height) * sy / sx,
            normalized_height(v, s) == v.height * sy / sx,
            sx > 0real,
    ;
    let u = uniform_scale(v, s);
    assert((k * s.width) / u == k * (s.width / u) && (k * s.height) / u == k * (s.height / u))
        by (nonlinear_arith)
        requires
            u > 0real,
    ;
    let dxk = dx(vk, sk);
    let dyk = dy(vk, sk);
    assert(dxk == k * dx(v, s) && dyk == k * dy(v, s)) by (nonlinear_arith)
        requires
            dxk == normalized_width(vk, sk) - k * v.width,
            dyk == normalized_height(vk, sk) - k * v.height,
            normalized_width(vk, sk) == k * normalized_width(v, s),
            normalized_height(vk, sk) == k * normalized_height(v, s),
            dx(v, s) == normalized_width(v, s) - v.width,
            dy(v, s) == normalized_height(v, s) - v.height,
    ;
    assert(dxk / 2real == k * (dx(v, s) / 2real) && -dxk / 2real == k * (-dx(v, s) / 2real)
        && dyk / 2real == k * (dy(v, s) / 2real) && -dyk / 2real == k * (-dy(v, s) / 2real)
        && (dxk > 0real <==> dx(v, s) > 0real) && (dyk > 0real <==> dy(v, s) > 0real)
        && k * 0real == 0real) by (nonlinear_arith)
        requires
            dxk == k * dx(v, s),
            dyk == k * dy(v, s),
            k > 0real,
    ;
    assert(normalized_width(vk, sk) - dxk / 2real == k * (normalized_width(v, s) - dx(v, s)
        / 2real) && normalized_height(vk, sk) - dyk / 2real == k * (normalized_height(v, s) - dy(
        v,
        s,
    ) / 2real)) by (nonlinear_arith)
        requires
            normalized_width(vk, sk) == k * normalized_width(v, s),
            normalized_height(vk, sk) == k * normalized_height(v, s),
            dxk / 2real == k * (dx(v, s) / 2real),
            dyk / 2real == k * (dy(v, s) / 2real),
    ;
    assert(layout(vk, sk).masks =~= layout(v, s).scaled(k).masks);
}

/// Only the uniform scale depends on the unit in which the surface is
/// measured. Measuring the surface alone in units `k` times finer multiplies
/// the uniform scale by `k` and leaves every margin, offset, length and
/// breadth as it is.
pub proof fn lemma_surface_units(v: Extent, s: Extent, k: real)
    requires
        v.positive(),
        s.positive(),
        k > 0real,
    ensures
        layout(v, s.scaled(k)) == layout(v, s).magnified(k),
{
    let sk = s.scaled(k);
    lemma_closed_forms(v, s);
    let sx = scale_x(v, s);
    let sy = scale_y(v, s);
    assert(scale_x(v, sk) == k * sx && scale_y(v, sk) == k * sy) by (nonlinear_arith)
        requires
            v.positive(),
            scale_x(v, sk) == (k * s.width) / v.width,
            scale_y(v, sk) == (k * s.height) / v.height,
            sx == s.width / v.width,
            sy == s.height / v.height,
    ;
    assert((k * sx <= k * sy <==> sx <= sy) && (k * sx > k * sy <==> sx > sy)
        && (k * sy > k * sx <==> sy > sx)) by (nonlinear_arith)
        requires
            k > 0real,
    ;
    assert(v.width * (k * sx) / (k * sy) == v.width * sx / sy && v.height * (k * sy) / (k * sx)
        == v.height * sy / sx) by (nonlinear_arith)
        requires
            k > 0real,
            sx > 0real,
            sy > 0real,
    ;
    assert((k * s.width) / (k * sx) == s.width / sx && (k * s.width) / (k * sy) == s.width / sy
        && (k * s.height) / (k * sx) == s.height / sx && (k * s.height) / (k * sy) == s.height
        / sy) by (nonlinear_arith)
        requires
            k > 0real,
            sx > 0real,
            sy > 0real,
    ;
    assert(layout(v, sk).masks =~= layout(v, s).masks);
}

} // verus!
