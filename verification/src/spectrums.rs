//! Spectrums: fields of colour in which one component of a colour varies
//! along each axis of an area, with the mappings from a position to a colour
//! and back.

use vstd::prelude::*;

use crate::fixed::{
    clamp_unit, div_nearest, fraction, fraction_of, lemma_fraction_inverts, lemma_nearest_cancel,
    lemma_nearest_le, nearest, TURN, UNIT,
};
use crate::geometry::{Point, Rectangle, Size};
use crate::hsv::{Hsv, Rgba};

verus! {

/// One of the three components of a colour that a spectrum can vary.
#[derive(Debug, Clone, Copy, PartialEq, Eq, Structural)]
pub enum HsvComponent {
    Hue,
    Saturation,
    Value,
}

/// Which component varies along each axis of an area. An axis without a
/// component leaves the colour as it is.
#[derive(Debug, Clone, Copy, PartialEq, Eq, Structural)]
pub struct Spectrum {
    /// The component that varies from left to right.
    pub x_axis: Option<HsvComponent>,
    /// The component that varies from top to bottom.
    pub y_axis: Option<HsvComponent>,
}

/// The side, in pixels, of the square blocks that a spectrum is painted in.
/// It is never zero; a larger side paints faster and coarser.
#[derive(Debug, Clone, Copy)]
pub struct Quantization {
    side: u32,
}

/// A square of one colour in the raster image of a spectrum.
#[derive(Debug, Clone, Copy, PartialEq, Eq, Structural)]
pub struct Block {
    /// The horizontal pixel coordinate of the top-left corner.
    pub x: u32,
    /// The vertical pixel coordinate of the top-left corner.
    pub y: u32,
    /// The length of each side in pixels.
    pub side: u32,
    /// The colour that fills the square.
    pub color: Rgba,
}

impl Quantization {
    #[verifier::type_invariant]
    spec fn positive(self) -> bool {
        self.side > 0
    }

    /// The side of a block in pixels.
    pub closed spec fn view(self) -> int {
        self.side as int
    }

    /// Blocks of the given side, if it is not zero.
    pub fn new(side: u32) -> (out: Option<Self>)
        ensures
            side == 0 <==> out is None,
            out matches Some(q) ==> q@ == side,
    {
        if side == 0 {
            None
        } else {
            Some(Quantization { side })
        }
    }

    /// The side of a block in pixels.
    pub fn get(&self) -> (out: u32)
        ensures
            out == self@,
            out > 0,
    {
        proof {
            use_type_invariant(self);
        }
        self.side
    }
}

impl Default for Quantization {
    /// Blocks of two by two pixels.
    fn default() -> (out: Self)
        ensures
            out@ == 2,
    {
        Quantization { side: 2 }
    }
}

impl HsvComponent {
    /// This component of `hsv`.
    pub open spec fn of(self, hsv: Hsv) -> u32 {
        match self {
            HsvComponent::Hue => hsv.h,
            HsvComponent::Saturation => hsv.s,
            HsvComponent::Value => hsv.v,
        }
    }

    /// Returns the component part of a given hsv value, depending on the
    /// enum type of self.
    pub fn get_hsv_component(&self, hsv: Hsv) -> (out: u32)
        ensures
            out == self.of(hsv),
    {
        match self {
            HsvComponent::Hue => hsv.h,
            HsvComponent::Saturation => hsv.s,
            HsvComponent::Value => hsv.v,
        }
    }

    /// `color` with this component taken from a position `percent`
    /// millionths along an axis, limited to `UNIT`: the hue spans a full
    /// turn, the saturation grows with the position, and the value falls
    /// with it, from full value at the start.
    pub open spec fn applied(self, color: Hsv, percent: int) -> Hsv {
        let part = clamp_unit(percent);
        match self {
            HsvComponent::Hue => Hsv { h: (part * 360) as u32, ..color },
            HsvComponent::Saturation => Hsv { s: part as u32, ..color },
            HsvComponent::Value => Hsv { v: (UNIT - part) as u32, ..color },
        }
    }

    /// `applied` on machine integers.
    fn apply(&self, color: Hsv, percent: u32) -> (out: Hsv)
        ensures
            out == self.applied(color, percent as int),
    {
        let part: u32 = if percent > UNIT {
            UNIT
        } else {
            percent
        };
        match self {
            HsvComponent::Hue => Hsv { h: part * 360, s: color.s, v: color.v, a: color.a },
            HsvComponent::Saturation => Hsv { h: color.h, s: part, v: color.v, a: color.a },
            HsvComponent::Value => Hsv { h: color.h, s: color.s, v: UNIT - part, a: color.a },
        }
    }

    /// Where along an axis of length `extent` the marker of `color` lies:
    /// `h / 360`, `s` or `1 - v` of the extent, rounded.
    pub open spec fn position(self, color: Hsv, extent: int) -> int {
        match self {
            HsvComponent::Hue => nearest(color.h as int * extent, TURN as int),
            HsvComponent::Saturation => nearest(color.s as int * extent, UNIT as int),
            HsvComponent::Value => nearest((UNIT as int - color.v as int) * extent, UNIT as int),
        }
    }
}

/// Where the marker lies along an axis of length `extent`: in the middle of
/// an axis without a component, else where the component puts it.
pub open spec fn axis_position(axis: Option<HsvComponent>, color: Hsv, extent: int) -> int {
    match axis {
        None => nearest(extent, 2),
        Some(component) => component.position(color, extent),
    }
}

/// No marker lies farther than this from the corner of its spectrum, along
/// either axis.
pub const MARKER_SPAN: i64 = 20_000_000_000_000;

/// `part * extent / whole`, rounded, for a numerator of either sign.
fn scaled(part: i64, extent: u32, whole: u32) -> (out: i64)
    requires
        whole >= UNIT,
        -0xffff_ffff <= part <= 0xffff_ffff,
    ensures
        out == nearest(part as int * extent as int, whole as int),
        -MARKER_SPAN <= out <= MARKER_SPAN,
{
    let magnitude: u64 = if part < 0 {
        (-part) as u64
    } else {
        part as u64
    };
    assert(magnitude * extent <= 0xffff_ffff * 0xffff_ffff) by (nonlinear_arith)
        requires
            0 <= magnitude <= 0xffff_ffff,
            0 <= extent <= 0xffff_ffff,
    ;
    proof {
        assert(20_000_000_000_000 * whole >= 0xffff_ffff * 0xffff_ffff) by (nonlinear_arith)
            requires
                whole >= 1_000_000,
        ;
        lemma_nearest_le(magnitude as int * extent as int, whole as int, 20_000_000_000_000);
        assert(part as int * extent as int == if part < 0 {
            -(magnitude as int * extent as int)
        } else {
            magnitude as int * extent as int
        }) by (nonlinear_arith)
            requires
                magnitude == if part < 0 {
                    -part
                } else {
                    part as int
                },
        ;
        assert(part < 0 && extent > 0 ==> (part as int) * (extent as int) < 0) by (nonlinear_arith);
        assert(extent == 0 ==> (part as int) * (extent as int) == 0) by (nonlinear_arith);
        assert(part >= 0 ==> (part as int) * (extent as int) >= 0) by (nonlinear_arith);
        if extent == 0 {
            crate::fixed::lemma_nearest_sign(0, whole as int);
        }
    }
    let q: u128 = div_nearest((magnitude as u128) * (extent as u128), whole as u64);
    if part < 0 {
        -(q as i64)
    } else {
        q as i64
    }
}

/// `axis_position` on machine integers.
fn position_on(axis: Option<HsvComponent>, color: Hsv, extent: u32) -> (out: i64)
    ensures
        out == axis_position(axis, color, extent as int),
        -MARKER_SPAN <= out <= MARKER_SPAN,
{
    match axis {
        None => div_nearest(extent as u128, 2) as i64,
        Some(HsvComponent::Hue) => scaled(color.h as i64, extent, TURN),
        Some(HsvComponent::Saturation) => scaled(color.s as i64, extent, UNIT),
        Some(HsvComponent::Value) => scaled(UNIT as i64 - color.v as i64, extent, UNIT),
    }
}

impl Default for Spectrum {
    /// The hue from left to right and the value from top to bottom.
    fn default() -> (out: Self)
        ensures
            out == (Spectrum { x_axis: Some(HsvComponent::Hue), y_axis: Some(HsvComponent::Value) }),
    {
        Spectrum { x_axis: Some(HsvComponent::Hue), y_axis: Some(HsvComponent::Value) }
    }
}

impl Spectrum {
    /// A strip in which `comp` varies from top to bottom.
    pub fn new_vertical(comp: HsvComponent) -> (out: Self)
        ensures
            out == (Spectrum { x_axis: None, y_axis: Some(comp) }),
    {
        Spectrum { x_axis: None, y_axis: Some(comp) }
    }

    /// A strip in which `comp` varies from left to right.
    pub fn new_horizontal(comp: HsvComponent) -> (out: Self)
        ensures
            out == (Spectrum { x_axis: Some(comp), y_axis: None }),
    {
        Spectrum { x_axis: Some(comp), y_axis: None }
    }

    /// A field in which `x_comp` varies from left to right and `y_comp`
    /// from top to bottom.
    pub fn new_matrix(x_comp: HsvComponent, y_comp: HsvComponent) -> (out: Self)
        ensures
            out == (Spectrum { x_axis: Some(x_comp), y_axis: Some(y_comp) }),
    {
        Spectrum { x_axis: Some(x_comp), y_axis: Some(y_comp) }
    }

    /// The field of saturation from left to right and value from top to
    /// bottom.
    pub fn get_saturation_value() -> (out: Self)
        ensures
            out == (Spectrum {
                x_axis: Some(HsvComponent::Saturation),
                y_axis: Some(HsvComponent::Value),
            }),
    {
        Spectrum { x_axis: Some(HsvComponent::Saturation), y_axis: Some(HsvComponent::Value) }
    }

    /// The strip of hue from top to bottom.
    pub fn get_hue_vertical() -> (out: Self)
        ensures
            out == (Spectrum { x_axis: None, y_axis: Some(HsvComponent::Hue) }),
    {
        Spectrum::new_vertical(HsvComponent::Hue)
    }

    /// The strip of hue from left to right.
    pub fn get_hue_horizontal() -> (out: Self)
        ensures
            out == (Spectrum { x_axis: Some(HsvComponent::Hue), y_axis: None }),
    {
        Spectrum::new_horizontal(HsvComponent::Hue)
    }

    /// Whether `component` varies along one of the axes.
    pub open spec fn assigns(self, component: HsvComponent) -> bool {
        self.x_axis == Some(component) || self.y_axis == Some(component)
    }

    /// Whether both axes carry a component.
    pub open spec fn is_matrix(self) -> bool {
        self.x_axis is Some && self.y_axis is Some
    }

    /// Whether the spectrum is a strip of hue: exactly one axis carries a
    /// component, and that component is the hue.
    pub open spec fn is_hue_strip(self) -> bool {
        ||| self.x_axis == Some(HsvComponent::Hue) && self.y_axis is None
        ||| self.x_axis is None && self.y_axis == Some(HsvComponent::Hue)
    }

    /// The colour at `col_percent` millionths of the width and
    /// `row_percent` millionths of the height: `color` with the component
    /// of the x axis set from the column, then the component of the y axis
    /// set from the row. Where both axes carry the same component, the row
    /// decides it.
    pub open spec fn modified(self, color: Hsv, col_percent: int, row_percent: int) -> Hsv {
        let across = match self.x_axis {
            Some(component) => component.applied(color, col_percent),
            None => color,
        };
        match self.y_axis {
            Some(component) => component.applied(across, row_percent),
            None => across,
        }
    }

    /// The colour of the spectrum at the given millionths of its width and
    /// height, with `color` giving the components that no axis carries.
    pub fn modify_hsv(&self, col_percent: u32, row_percent: u32, color: Hsv) -> (out: Hsv)
        ensures
            out == self.modified(color, col_percent as int, row_percent as int),
    {
        let across = match self.x_axis {
            Some(component) => component.apply(color, col_percent),
            None => color,
        };
        match self.y_axis {
            Some(component) => component.apply(across, row_percent),
            None => across,
        }
    }

    /// The colour that a cursor picks: the colour of the spectrum at the
    /// cursor's place within `bounds`, a cursor outside counting as on the
    /// nearest edge. Bounds without an area leave `color` as it is.
    pub open spec fn picked(self, color: Hsv, bounds: Rectangle, cursor: Point) -> Hsv {
        if bounds.width == 0 || bounds.height == 0 {
            color
        } else {
            self.modified(
                color,
                fraction(cursor.x - bounds.x, bounds.width as int),
                fraction(cursor.y - bounds.y, bounds.height as int),
            )
        }
    }

    /// Gives the HSV color of the spectrum, at a given cursor position
    pub fn fetch_hsv(&self, color: Hsv, bounds: Rectangle, cursor: Point) -> (out: Hsv)
        ensures
            out == self.picked(color, bounds, cursor),
    {
        if bounds.width == 0 || bounds.height == 0 {
            return color;
        }
        let col_percent: u32 = fraction_of(cursor.x as i128 - bounds.x as i128, bounds.width);
        let row_percent: u32 = fraction_of(cursor.y as i128 - bounds.y as i128, bounds.height);
        self.modify_hsv(col_percent, row_percent, color)
    }

    /// Where the marker of `color` lies in an area of the given size, from
    /// its top-left corner.
    pub open spec fn marker_position(self, color: Hsv, bounds: Size) -> Point {
        Point {
            x: axis_position(self.x_axis, color, bounds.width as int) as i64,
            y: axis_position(self.y_axis, color, bounds.height as int) as i64,
        }
    }

    /// Provides the correct position for the marker, taking into account
    /// potential None axis
    pub fn get_marker_pos(&self, color: Hsv, bounds: Size) -> (out: Point)
        ensures
            out == self.marker_position(color, bounds),
            out.x == axis_position(self.x_axis, color, bounds.width as int),
            out.y == axis_position(self.y_axis, color, bounds.height as int),
            -MARKER_SPAN <= out.x <= MARKER_SPAN,
            -MARKER_SPAN <= out.y <= MARKER_SPAN,
    {
        Point {
            x: position_on(self.x_axis, color, bounds.width),
            y: position_on(self.y_axis, color, bounds.height),
        }
    }

    /// Whether a component that an axis carries differs between the two
    /// colours.
    pub open spec fn differs(self, old_color: Hsv, new_color: Hsv) -> bool {
        ||| self.x_axis matches Some(component) && component.of(old_color) != component.of(new_color)
        ||| self.y_axis matches Some(component) && component.of(old_color) != component.of(new_color)
    }

    /// Whether going from `old_color` to `new_color` moves the marker:
    /// true if and only if a component that an axis carries has changed.
    pub fn requires_redraw(&self, old_color: &Hsv, new_color: &Hsv) -> (out: bool)
        ensures
            out == self.differs(*old_color, *new_color),
    {
        if let Some(x_ax) = self.x_axis {
            if x_ax.get_hsv_component(*old_color) != x_ax.get_hsv_component(*new_color) {
                return true;
            }
        }
        if let Some(y_ax) = self.y_axis {
            if y_ax.get_hsv_component(*old_color) != y_ax.get_hsv_component(*new_color) {
                return true;
            }
        }
        false
    }

    /// The colour that gives a painted spectrum the components that no axis
    /// carries: `color` made opaque, and in a strip of hue also brought to
    /// full saturation and full value.
    pub open spec fn swatch_base(self, color: Hsv) -> Hsv {
        if self.is_hue_strip() {
            Hsv { h: color.h, s: UNIT, v: UNIT, a: UNIT }
        } else {
            Hsv { h: color.h, s: color.s, v: color.v, a: UNIT }
        }
    }

    /// The block in column `col` and row `row` of a spectrum painted over
    /// `size` pixels in blocks of side `q`. Its colour is the colour of the
    /// spectrum at its top-left corner.
    pub open spec fn block_at(self, size: Size, color: Hsv, q: int, col: int, row: int) -> Block {
        Block {
            x: (col * q) as u32,
            y: (row * q) as u32,
            side: q as u32,
            color: self.modified(
                self.swatch_base(color),
                fraction(col * q, size.width as int),
                fraction(row * q, size.height as int),
            ).rgba(),
        }
    }

    /// The raster image of the spectrum over `size` pixels in blocks of
    /// side `q`: as many columns and rows of whole blocks as fit, column by
    /// column from the left, each column from the top.
    pub open spec fn rendered(self, size: Size, color: Hsv, q: int) -> Seq<Block> {
        let cols = size.width as int / q;
        let rows = size.height as int / q;
        Seq::new((cols * rows) as nat, |i: int| self.block_at(size, color, q, i / rows, i % rows))
    }

    /// Renders the current spectrum as blocks of colour.
    ///
    /// This function renders the spectrum with a given x and y axis over an
    /// area of `size` pixels, taking the values of the provided color as the
    /// default colour for any HSV component not bound to an axis of the
    /// spectrum. An area without width or height gives no block.
    pub fn render_spectrum(&self, size: Size, color: &Hsv, quantization: Quantization) -> (out: Vec<Block>)
        ensures
            out@ == self.rendered(size, *color, quantization@),
            out@.len() == (size.width as int / quantization@) * (size.height as int / quantization@),
    {
        let q: u32 = quantization.get();
        let cols: u32 = size.width / q;
        let rows: u32 = size.height / q;
        let (mut s, mut v) = (color.s, color.v);
        self.singular_hue_colour_change(&mut s, &mut v);
        let base = Hsv { h: color.h, s, v, a: UNIT };
        let mut blocks: Vec<Block> = Vec::new();
        let mut col: u32 = 0;
        proof {
            vstd::arithmetic::div_mod::lemma_fundamental_div_mod(size.width as int, q as int);
            vstd::arithmetic::div_mod::lemma_fundamental_div_mod(size.height as int, q as int);
            vstd::arithmetic::div_mod::lemma_mod_bound(size.width as int, q as int);
            vstd::arithmetic::div_mod::lemma_mod_bound(size.height as int, q as int);
            assert(q * cols == (q as int) * (size.width as int / q as int));
            assert(q * rows == (q as int) * (size.height as int / q as int));
            assert(0 * rows == 0) by (nonlinear_arith);
        }
        while col < cols
            invariant
                q > 0,
                q == quantization@,
                cols == size.width as int / q as int,
                rows == size.height as int / q as int,
                q * cols <= size.width,
                q * rows <= size.height,
                base == self.swatch_base(*color),
                col <= cols,
                blocks@.len() == col * rows,
                forall|i: int|
                    0 <= i < blocks@.len() ==> #[trigger] blocks@[i] == self.block_at(
                        size,
                        *color,
                        q as int,
                        i / rows as int,
                        i % rows as int,
                    ),
            decreases cols - col,
        {
            assert(col * q <= q * cols - q) by (nonlinear_arith)
                requires
                    col < cols,
                    q > 0,
            ;
            let x: u32 = col * q;
            let col_percent: u32 = fraction_of(x as i128, size.width);
            let mut row: u32 = 0;
            while row < rows
                invariant
                    q > 0,
                    q == quantization@,
                    cols == size.width as int / q as int,
                    rows == size.height as int / q as int,
                    q * cols <= size.width,
                    q * rows <= size.height,
                    base == self.swatch_base(*color),
                    col < cols,
                    row <= rows,
                    x == col * q,
                    size.width > 0,
                    col_percent == fraction(col * q, size.width as int),
                    blocks@.len() == col * rows + row,
                    forall|i: int|
                        0 <= i < blocks@.len() ==> #[trigger] blocks@[i] == self.block_at(
                            size,
                            *color,
                            q as int,
                            i / rows as int,
                            i % rows as int,
                        ),
                decreases rows - row,
            {
                assert(row * q <= q * rows - q) by (nonlinear_arith)
                    requires
                        row < rows,
                        q > 0,
                ;
                let y: u32 = row * q;
                let row_percent: u32 = fraction_of(y as i128, size.height);
                let block = Block {
                    x,
                    y,
                    side: q,
                    color: self.modify_hsv(col_percent, row_percent, base).to_color(),
                };
                proof {
                    let i = col * rows + row;
                    assert(i == col as int * rows as int + row as int);
                    vstd::arithmetic::div_mod::lemma_fundamental_div_mod_converse(
                        i,
                        rows as int,
                        col as int,
                        row as int,
                    );
                    assert(block == self.block_at(size, *color, q as int, i / rows as int, i % rows as int));
                }
                blocks.push(block);
                row = row + 1;
            }
            proof {
                assert((col + 1) * rows == col * rows + rows) by (nonlinear_arith);
            }
            col = col + 1;
        }
        proof {
            assert(blocks@ =~= self.rendered(size, *color, q as int));
        }
        blocks
    }

    /// If the spectrum only contains one axis, which is Hue, then we want to
    /// ensure that the colours shown are at full saturation and value.
    pub fn singular_hue_colour_change(&self, s: &mut u32, v: &mut u32)
        ensures
            self.is_hue_strip() ==> *final(s) == UNIT && *final(v) == UNIT,
            !self.is_hue_strip() ==> *final(s) == *old(s) && *final(v) == *old(v),
    {
        if self.shows_hue_alone() {
            *s = UNIT;
            *v = UNIT;
        }
    }

    /// Whether the spectrum is a strip of hue.
    pub fn shows_hue_alone(&self) -> (out: bool)
        ensures
            out == self.is_hue_strip(),
    {
        match (self.x_axis, self.y_axis) {
            (Some(HsvComponent::Hue), None) => true,
            (None, Some(HsvComponent::Hue)) => true,
            _ => false,
        }
    }
}

/// A component that was set from an offset along an axis puts the marker
/// at that offset, as long as the axis is no longer than `UNIT`.
pub proof fn lemma_component_inverts(component: HsvComponent, color: Hsv, offset: int, extent: int)
    requires
        0 <= offset <= extent,
        0 < extent <= UNIT,
    ensures
        component.position(component.applied(color, fraction(offset, extent)), extent) == offset,
{
    let part = fraction(offset, extent);
    lemma_fraction_inverts(offset, extent);
    match component {
        HsvComponent::Hue => {
            assert(part * extent >= 0) by (nonlinear_arith)
                requires
                    part >= 0,
                    extent > 0,
            ;
            assert((part * 360) * extent == 360 * (part * extent)) by (nonlinear_arith);
            lemma_nearest_cancel(360, part * extent, UNIT as int);
        },
        HsvComponent::Saturation => {},
        HsvComponent::Value => {},
    }
}

/// The marker of a picked colour lies under the cursor that picked it.
///
/// For a cursor within the bounds, the marker of the colour that the
/// cursor picks has the cursor's offset from the corner of the bounds along
/// every axis that carries a component. Two conditions apply. The bounds
/// are at most `UNIT` long on that axis: beyond that the millionths are too
/// coarse to tell neighbouring offsets apart. And for the x axis, the y
/// axis does not carry the same component, since the row would then decide
/// it.
pub proof fn lemma_marker_lies_under_cursor(
    spectrum: Spectrum,
    base: Hsv,
    bounds: Rectangle,
    cursor: Point,
)
    requires
        bounds.holds(cursor),
    ensures
        ({
            let picked = spectrum.picked(base, bounds, cursor);
            let marker = spectrum.marker_position(
                picked,
                Size { width: bounds.width, height: bounds.height },
            );
            &&& spectrum.x_axis is Some && spectrum.x_axis != spectrum.y_axis && bounds.width
                <= UNIT ==> marker.x == cursor.x - bounds.x
            &&& spectrum.y_axis is Some && bounds.height <= UNIT ==> marker.y == cursor.y
                - bounds.y
        }),
{
    let col = fraction(cursor.x - bounds.x, bounds.width as int);
    let row = fraction(cursor.y - bounds.y, bounds.height as int);
    let across = match spectrum.x_axis {
        Some(component) => component.applied(base, col),
        None => base,
    };
    if let Some(component) = spectrum.y_axis {
        if bounds.height <= UNIT {
            lemma_component_inverts(component, across, cursor.y - bounds.y, bounds.height as int);
        }
    }
    if let Some(component) = spectrum.x_axis {
        if bounds.width <= UNIT && spectrum.x_axis != spectrum.y_axis {
            lemma_component_inverts(component, base, cursor.x - bounds.x, bounds.width as int);
        }
    }
}

/// A cursor above and to the left of the bounds picks what a cursor on
/// their top-left corner picks.
pub proof fn lemma_cursor_before_corner(
    spectrum: Spectrum,
    base: Hsv,
    bounds: Rectangle,
    cursor: Point,
)
    requires
        cursor.x <= bounds.x,
        cursor.y <= bounds.y,
    ensures
        spectrum.picked(base, bounds, cursor) == spectrum.picked(
            base,
            bounds,
            Point { x: bounds.x, y: bounds.y },
        ),
{
}

/// A painted block shows what a cursor on its top-left corner picks.
///
/// In a spectrum painted over an area with the corner at the origin, the
/// colour of the block in column `col` and row `row` is the colour that a
/// cursor on the top-left corner of that block picks, given the base
/// colour of the painting.
pub proof fn lemma_block_shows_its_corner(
    spectrum: Spectrum,
    size: Size,
    color: Hsv,
    q: int,
    col: int,
    row: int,
)
    requires
        q > 0,
        0 <= col < size.width as int / q,
        0 <= row < size.height as int / q,
    ensures
        spectrum.block_at(size, color, q, col, row).color == spectrum.picked(
            spectrum.swatch_base(color),
            Rectangle { x: 0, y: 0, width: size.width, height: size.height },
            Point { x: (col * q) as i64, y: (row * q) as i64 },
        ).rgba(),
{
    vstd::arithmetic::div_mod::lemma_fundamental_div_mod(size.width as int, q);
    vstd::arithmetic::div_mod::lemma_fundamental_div_mod(size.height as int, q);
    vstd::arithmetic::div_mod::lemma_mod_bound(size.width as int, q);
    vstd::arithmetic::div_mod::lemma_mod_bound(size.height as int, q);
    assert(0 <= col * q <= q * (size.width as int / q) - q) by (nonlinear_arith)
        requires
            0 <= col < size.width as int / q,
            q > 0,
    ;
    assert(0 <= row * q <= q * (size.height as int / q) - q) by (nonlinear_arith)
        requires
            0 <= row < size.height as int / q,
            q > 0,
    ;
}

} // verus!
