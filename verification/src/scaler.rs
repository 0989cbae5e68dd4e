//! The executable scaler: from a virtual resolution and a surface size, both
//! in whole units, to the exact layout.

use crate::model::dx;
use crate::model::dy;
use crate::model::layout;
use crate::model::min_real;
use crate::model::normalized_height;
use crate::model::normalized_width;
use crate::model::scale_x;
use crate::model::scale_y;
use crate::model::Extent;
use crate::model::LayoutModel;
use crate::model::MaskModel;
use crate::ratio::lemma_wf_unique;
use crate::ratio::quotient;
use crate::ratio::Ratio;
use crate::side::AspectRatioMaskSide;
use vstd::prelude::*;

verus! {

/// Why no layout was computed.
#[derive(Clone, Copy, Debug, PartialEq, Eq, Structural)]
pub enum ScaleError {
    /// The virtual resolution has a zero width or height.
    InvalidConfiguration,
    /// The surface has a zero width or height, as a minimized window does.
    DegenerateSurface,
}

/// The virtual resolution: the fixed size, in whole units, that content is
/// designed for.
#[derive(Clone, Copy, Debug, PartialEq, Eq, Structural)]
pub struct Resolution {
    /// The target width of the virtual resolution.
    pub width: u32,
    /// The target height of the virtual resolution.
    pub height: u32,
}

impl View for Resolution {
    type V = Extent;

    open spec fn view(&self) -> Extent {
        Extent { width: self.width as real, height: self.height as real }
    }
}

impl Resolution {
    /// Both dimensions are positive.
    pub open spec fn valid(self) -> bool {
        self.width > 0 && self.height > 0
    }

    /// A virtual resolution of `width` by `height`, refused when either is
    /// zero.
    pub fn new(width: u32, height: u32) -> (out: Result<Resolution, ScaleError>)
        ensures
            width > 0 && height > 0 ==> out == Ok::<Resolution, ScaleError>(
                (Resolution { width, height }),
            ),
            width == 0 || height == 0 ==> out == Err::<Resolution, ScaleError>(
                ScaleError::InvalidConfiguration,
            ),
    {
        if width == 0 || height == 0 {
            Err(ScaleError::InvalidConfiguration)
        } else {
            Ok(Resolution { width, height })
        }
    }

    /// Whether both dimensions are positive.
    pub fn is_valid(&self) -> (ok: bool)
        ensures
            ok == self.valid(),
    {
        self.width > 0 && self.height > 0
    }
}

impl Default for Resolution {
    /// 960 by 540.
    fn default() -> (r: Resolution)
        ensures
            r.width == 960,
            r.height == 540,
    {
        Resolution { width: 960, height: 540 }
    }
}

/// The live size of the display surface, in whole units.
#[derive(Clone, Copy, Debug, PartialEq, Eq, Structural)]
pub struct SurfaceSize {
    pub width: u32,
    pub height: u32,
}

impl View for SurfaceSize {
    type V = Extent;

    open spec fn view(&self) -> Extent {
        Extent { width: self.width as real, height: self.height as real }
    }
}

impl SurfaceSize {
    /// Both dimensions are positive.
    pub open spec fn valid(self) -> bool {
        self.width > 0 && self.height > 0
    }

    /// Whether a dimension is zero.
    pub fn is_degenerate(&self) -> (degenerate: bool)
        ensures
            degenerate == !self.valid(),
    {
        self.width == 0 || self.height == 0
    }
}

/// One letterbox bar. `length` runs along the bar's own axis (the width of a
/// left or right bar, the height of a top or bottom bar), `offset` is where
/// it starts on that axis, and `breadth` is its extent across it. All three
/// are in virtual units.
#[derive(Clone, Copy, Debug, PartialEq, Eq)]
pub struct MaskRect {
    pub side: AspectRatioMaskSide,
    pub offset: Ratio,
    pub length: Ratio,
    pub breadth: Ratio,
}

impl View for MaskRect {
    type V = MaskModel;

    open spec fn view(&self) -> MaskModel {
        MaskModel {
            side: self.side,
            offset: self.offset@,
            length: self.length@,
            breadth: self.breadth@,
        }
    }
}

impl MaskRect {
    /// Every fraction is well-formed.
    pub open spec fn wf(self) -> bool {
        self.offset.wf() && self.length.wf() && self.breadth.wf()
    }
}

/// Where the content starts inside the surface.
#[derive(Clone, Copy, Debug, PartialEq, Eq)]
pub struct ContentMargin {
    pub left: Ratio,
    pub top: Ratio,
}

/// The computed layout: the uniform scale, the content margin, and the four
/// bars in the order left, right, top, bottom.
#[derive(Clone, Copy, Debug, PartialEq, Eq)]
pub struct ScaleResult {
    pub uniform_scale: Ratio,
    pub content_margin: ContentMargin,
    pub masks: [MaskRect; 4],
}

impl View for ScaleResult {
    type V = LayoutModel;

    open spec fn view(&self) -> LayoutModel {
        LayoutModel {
            uniform_scale: self.uniform_scale@,
            margin_left: self.content_margin.left@,
            margin_top: self.content_margin.top@,
            masks: Seq::new(4, |i: int| self.masks[i]@),
        }
    }
}

impl ScaleResult {
    /// Every fraction is well-formed.
    pub open spec fn wf(self) -> bool {
        &&& self.uniform_scale.wf()
        &&& self.content_margin.left.wf()
        &&& self.content_margin.top.wf()
        &&& forall|i: int| 0 <= i < 4 ==> (#[trigger] self.masks[i]).wf()
    }
}

/// The layout's quantities for whole-unit inputs, each as one fraction of
/// integers.
proof fn lemma_fractions(v: Extent, s: Extent, vw: int, vh: int, sw: int, sh: int)
    by (nonlinear_arith)
    requires
        vw > 0,
        vh > 0,
        sw > 0,
        sh > 0,
        v == (Extent { width: vw as real, height: vh as real }),
        s == (Extent { width: sw as real, height: sh as real }),
    ensures
        scale_x(v, s) == quotient(sw, vw),
        scale_y(v, s) == quotient(sh, vh),
        scale_x(v, s) <= scale_y(v, s) <==> sw * vh <= sh * vw,
        scale_x(v, s) > scale_y(v, s) <==> sw * vh > sh * vw,
        dx(v, s) == quotient(sw * vh - sh * vw, sh),
        dx(v, s) / 2real == quotient(sw * vh - sh * vw, 2 * sh),
        -dx(v, s) / 2real == quotient(sh * vw - sw * vh, 2 * sh),
        normalized_width(v, s) - dx(v, s) / 2real == quotient(sw * vh + sh * vw, 2 * sh),
        dx(v, s) > 0real <==> sw * vh > sh * vw,
        s.height / scale_x(v, s) == quotient(sh * vw, sw),
        s.height / scale_y(v, s) == vh as real,
{
}

/// The same quantities on the vertical axis.
proof fn lemma_fractions_vertical(v: Extent, s: Extent, vw: int, vh: int, sw: int, sh: int)
    requires
        vw > 0,
        vh > 0,
        sw > 0,
        sh > 0,
        v == (Extent { width: vw as real, height: vh as real }),
        s == (Extent { width: sw as real, height: sh as real }),
    ensures
        dy(v, s) == quotient(sh * vw - sw * vh, sw),
        dy(v, s) / 2real == quotient(sh * vw - sw * vh, 2 * sw),
        -dy(v, s) / 2real == quotient(sw * vh - sh * vw, 2 * sw),
        normalized_height(v, s) - dy(v, s) / 2real == quotient(sh * vw + sw * vh, 2 * sw),
        dy(v, s) > 0real <==> sh * vw > sw * vh,
        scale_y(v, s) > scale_x(v, s) <==> sh * vw > sw * vh,
        s.width / scale_y(v, s) == quotient(sw * vh, sh),
        s.width / scale_x(v, s) == vw as real,
{
    let vt = v.transposed();
    let st = s.transposed();
    lemma_fractions(vt, st, vh, vw, sh, sw);
}

/// What [`compute`] returns for `virtual_res` and `surface`. An invalid
/// virtual resolution is an error whatever the surface is, a degenerate
/// surface is an error for a valid virtual resolution, and every other input
/// has a layout: the one of [`crate::model::layout`], with each number in
/// lowest terms.
pub open spec fn is_outcome(
    virtual_res: Resolution,
    surface: SurfaceSize,
    out: Result<ScaleResult, ScaleError>,
) -> bool {
    &&& out is Ok <==> virtual_res.valid() && surface.valid()
    &&& out == Err::<ScaleResult, ScaleError>(ScaleError::InvalidConfiguration)
        <==> !virtual_res.valid()
    &&& out == Err::<ScaleResult, ScaleError>(ScaleError::DegenerateSurface)
        <==> virtual_res.valid() && !surface.valid()
    &&& out matches Ok(r) ==> r.wf() && r@ == layout(virtual_res@, surface@)
}

/// The layout of `virtual_res` inside `surface`.
///
/// Fails with [`ScaleError::InvalidConfiguration`] when the virtual
/// resolution has a zero dimension, and otherwise with
/// [`ScaleError::DegenerateSurface`] when the surface has one. On every
/// other input the result is the layout of [`crate::model::layout`], each
/// number in lowest terms; in particular its uniform scale is the smaller of
/// the two per-axis scales.
pub fn compute(virtual_res: Resolution, surface: SurfaceSize) -> (out: Result<
    ScaleResult,
    ScaleError,
>)
    ensures
        is_outcome(virtual_res, surface, out),
        out matches Ok(r) ==> r.uniform_scale@ == min_real(
            surface@.width / virtual_res@.width,
            surface@.height / virtual_res@.height,
        ),
{
    if !virtual_res.is_valid() {
        return Err(ScaleError::InvalidConfiguration);
    }
    if surface.is_degenerate() {
        return Err(ScaleError::DegenerateSurface);
    }
    let vw: u64 = virtual_res.width as u64;
    let vh: u64 = virtual_res.height as u64;
    let sw: u64 = surface.width as u64;
    let sh: u64 = surface.height as u64;
    proof {
        assert(sw * vh <= 0xffff_ffff * 0xffff_ffff && sh * vw <= 0xffff_ffff * 0xffff_ffff)
            by (nonlinear_arith)
            requires
                vw <= 0xffff_ffff,
                vh <= 0xffff_ffff,
                sw <= 0xffff_ffff,
                sh <= 0xffff_ffff,
        ;
        lemma_fractions(
            virtual_res@,
            surface@,
            vw as int,
            vh as int,
            sw as int,
            sh as int,
        );
        lemma_fractions_vertical(
            virtual_res@,
            surface@,
            vw as int,
            vh as int,
            sw as int,
            sh as int,
        );
    }
    // The two scales over their common denominator `vw * vh`: comparing
    // `x` with `y` compares the horizontal scale with the vertical one.
    let x: u64 = sw * vh;
    let y: u64 = sh * vw;
    let spare_x: i128 = x as i128 - y as i128;
    let spare_y: i128 = y as i128 - x as i128;
    let both: i128 = x as i128 + y as i128;

    let scale = if x <= y {
        Ratio::reduced(sw as i128, vw)
    } else {
        Ratio::reduced(sh as i128, vh)
    };
    let content_margin = ContentMargin {
        left: if x > y {
            Ratio::reduced(spare_x, 2 * sh)
        } else {
            Ratio::zero()
        },
        top: if y > x {
            Ratio::reduced(spare_y, 2 * sw)
        } else {
            Ratio::zero()
        },
    };
    let width = if x > y {
        Ratio::reduced(spare_x, sh)
    } else {
        Ratio::zero()
    };
    let height = if y > x {
        Ratio::reduced(spare_y, sw)
    } else {
        Ratio::zero()
    };
    let full_height = if x <= y {
        Ratio::reduced(y as i128, sw)
    } else {
        Ratio::from_integer(vh as i128)
    };
    let full_width = if x <= y {
        Ratio::from_integer(vw as i128)
    } else {
        Ratio::reduced(x as i128, sh)
    };
    let left = MaskRect {
        side: AspectRatioMaskSide::Left,
        offset: Ratio::reduced(spare_y, 2 * sh),
        length: width,
        breadth: full_height,
    };
    let right = MaskRect {
        side: AspectRatioMaskSide::Right,
        offset: Ratio::reduced(both, 2 * sh),
        length: width,
        breadth: full_height,
    };
    let top = MaskRect {
        side: AspectRatioMaskSide::Top,
        offset: Ratio::reduced(spare_x, 2 * sw),
        length: height,
        breadth: full_width,
    };
    let bottom = MaskRect {
        side: AspectRatioMaskSide::Bottom,
        offset: Ratio::reduced(both, 2 * sw),
        length: height,
        breadth: full_width,
    };
    let r = ScaleResult { uniform_scale: scale, content_margin, masks: [left, right, top, bottom] };
    proof {
        assert(r@.masks =~= layout(virtual_res@, surface@).masks);
    }
    Ok(r)
}

impl ScaleResult {
    /// The bar at `side`'s position in the fixed order.
    pub fn mask(&self, side: AspectRatioMaskSide) -> (m: MaskRect)
        ensures
            m == self.masks[side.index()],
    {
        self.masks[side.position()]
    }
}

/// The layout to hold after a resize notification, given the one held
/// before it, if any.
///
/// A surface with a zero dimension changes nothing: the layout held so far
/// stays. Any other surface replaces it with the layout for that surface. An
/// invalid virtual resolution is an error whatever the surface is.
pub fn on_resize(held: Option<ScaleResult>, virtual_res: Resolution, surface: SurfaceSize) -> (out:
    Result<Option<ScaleResult>, ScaleError>)
    ensures
        out is Err <==> !virtual_res.valid(),
        out matches Err(e) ==> e == ScaleError::InvalidConfiguration,
        virtual_res.valid() && !surface.valid() ==> out == Ok::<Option<ScaleResult>, ScaleError>(
            held,
        ),
        virtual_res.valid() && surface.valid() ==> (out matches Ok(Some(r)) && r.wf() && r@
            == layout(virtual_res@, surface@)),
{
    match compute(virtual_res, surface) {
        Ok(r) => Ok(Some(r)),
        Err(ScaleError::DegenerateSurface) => Ok(held),
        Err(ScaleError::InvalidConfiguration) => Err(ScaleError::InvalidConfiguration),
    }
}

/// Two well-formed results that stand for the same layout are the same
/// value, field by field.
pub proof fn lemma_layout_unique(a: ScaleResult, b: ScaleResult)
    requires
        a.wf(),
        b.wf(),
        a@ == b@,
    ensures
        a == b,
{
    lemma_wf_unique(a.uniform_scale, b.uniform_scale);
    lemma_wf_unique(a.content_margin.left, b.content_margin.left);
    lemma_wf_unique(a.content_margin.top, b.content_margin.top);
    assert forall|i: int| 0 <= i < 4 implies a.masks[i] == b.masks[i] by {
        assert(a.masks[i].wf() && b.masks[i].wf());
        assert(a@.masks[i] == a.masks[i]@ && b@.masks[i] == b.masks[i]@);
        lemma_wf_unique(a.masks[i].offset, b.masks[i].offset);
        lemma_wf_unique(a.masks[i].length, b.masks[i].length);
        lemma_wf_unique(a.masks[i].breadth, b.masks[i].breadth);
    }
    assert(a.masks =~= b.masks);
}

/// Computing twice from the same arguments gives the same result: whatever
/// two calls of [`compute`] return for one virtual resolution and one
/// surface is equal, errors included.
pub proof fn lemma_compute_deterministic(
    virtual_res: Resolution,
    surface: SurfaceSize,
    first: Result<ScaleResult, ScaleError>,
    second: Result<ScaleResult, ScaleError>,
)
    requires
        is_outcome(virtual_res, surface, first),
        is_outcome(virtual_res, surface, second),
    ensures
        first == second,
{
    if first is Ok {
        lemma_layout_unique(first->Ok_0, second->Ok_0);
    }
}

} // verus!
