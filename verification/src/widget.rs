//! The state of one colour picker: the pointer that drags in it, the colour
//! it last saw, and the two raster caches, with the rules by which events
//! and colour updates change them.

use vstd::prelude::*;

use crate::cache::RasterCache;
use crate::fixed::UNIT;
use crate::geometry::{Point, Rectangle, Size};
use crate::hsv::{hsv, Hsv, Rgba};
use crate::spectrums::{Block, HsvComponent, Quantization, MARKER_SPAN};
use crate::style::MarkerShape;

verus! {

/// The ranges of colour that a picker offers ready-made.
#[derive(Debug, Clone, Copy, PartialEq, Eq, Structural)]
pub enum Spectrum {
    /// A 2-Dimensional spectrum where the saturation changes along the x-axis,
    /// and the value changes along the y-axis.
    SaturationValue,
    /// A 1-Dimensional spectrum where the hue changes along the x-axis.
    HueHorizontal,
    /// A 1-Dimensional spectrum where the hue changes along the y-axis.
    HueVertical,
}

impl Spectrum {
    /// The components that the two axes of this range carry.
    pub open spec fn axes_of(self) -> crate::spectrums::Spectrum {
        match self {
            Spectrum::SaturationValue => crate::spectrums::Spectrum {
                x_axis: Some(HsvComponent::Saturation),
                y_axis: Some(HsvComponent::Value),
            },
            Spectrum::HueHorizontal => crate::spectrums::Spectrum {
                x_axis: Some(HsvComponent::Hue),
                y_axis: None,
            },
            Spectrum::HueVertical => crate::spectrums::Spectrum {
                x_axis: None,
                y_axis: Some(HsvComponent::Hue),
            },
        }
    }

    /// The components that the two axes of this range carry.
    pub fn axes(self) -> (out: crate::spectrums::Spectrum)
        ensures
            out == self.axes_of(),
    {
        match self {
            Spectrum::SaturationValue => crate::spectrums::Spectrum::get_saturation_value(),
            Spectrum::HueHorizontal => crate::spectrums::Spectrum::get_hue_horizontal(),
            Spectrum::HueVertical => crate::spectrums::Spectrum::get_hue_vertical(),
        }
    }
}

impl From<Spectrum> for crate::spectrums::Spectrum {
    fn from(range: Spectrum) -> (out: crate::spectrums::Spectrum) {
        range.axes()
    }
}

impl vstd::std_specs::convert::FromSpecImpl<Spectrum> for crate::spectrums::Spectrum {
    open spec fn obeys_from_spec() -> bool {
        true
    }

    open spec fn from_spec(range: Spectrum) -> crate::spectrums::Spectrum {
        range.axes_of()
    }
}

/// The pointer that holds the picker while it drags.
#[derive(Debug, Clone, Copy, PartialEq, Eq, Structural)]
pub enum Pressed {
    /// The primary mouse button.
    Primary,
    /// The secondary mouse button.
    Secondary,
    /// The finger with the given id.
    Finger(u64),
}

/// What the host reports to the picker.
#[derive(Debug, Clone, Copy, PartialEq, Eq, Structural)]
pub enum Event {
    /// The primary mouse button went down with the cursor at the position.
    PrimaryPressed(Point),
    /// The secondary mouse button went down with the cursor at the position.
    SecondaryPressed(Point),
    /// The primary mouse button went up.
    PrimaryReleased,
    /// The secondary mouse button went up.
    SecondaryReleased,
    /// The cursor moved to the position.
    CursorMoved(Point),
    /// A finger touched down.
    FingerPressed { id: u64, position: Point },
    /// A finger moved.
    FingerMoved { id: u64, position: Point },
    /// A finger was lifted.
    FingerLifted { id: u64 },
    /// Anything else. It changes nothing.
    Other,
}

/// A colour that the user picked, on the channel of the pointer that
/// picked it.
#[derive(Debug, Clone, Copy, PartialEq, Eq, Structural)]
pub enum Selection {
    /// Picked with the primary mouse button or a finger.
    Primary(Hsv),
    /// Picked with the secondary mouse button.
    Secondary(Hsv),
}

/// What one call of `State::update` asks of the host.
#[derive(Debug, Clone, Copy, PartialEq, Eq, Structural)]
pub struct Update {
    /// Whether the picker has to be drawn again.
    pub redraw: bool,
    /// The colour that the event picked, if it picked one.
    pub selection: Option<Selection>,
}

/// The marker that shows the current colour in a spectrum.
#[derive(Debug, Clone, Copy, PartialEq, Eq, Structural)]
pub struct Marker {
    /// Where the centre of the marker lies, from the top-left corner of
    /// the spectrum.
    pub position: Point,
    /// The colour that fills the marker.
    pub color: Rgba,
}

/// A filled figure of one colour.
#[derive(Debug, Clone, Copy, PartialEq, Eq, Structural)]
pub enum Figure {
    /// A square, by its top-left corner and the length of its sides.
    Square { top_left: Point, side: u64 },
    /// A disc, by its centre and its radius.
    Circle { center: Point, radius: u64 },
}

/// The farthest from the origin that a marker may lie, along either axis,
/// for its figures to be laid out.
pub const MARKER_REACH: i64 = 0x4000_0000_0000_0000;

impl Marker {
    /// The figure that shows behind the marker as its border: the body
    /// grown by the width of the border on every side.
    pub open spec fn outline_of(self, shape: MarkerShape) -> Figure {
        match shape {
            MarkerShape::Square { size, border_width } => Figure::Square {
                top_left: Point {
                    x: (self.position.x - size / 2 - border_width) as i64,
                    y: (self.position.y - size / 2 - border_width) as i64,
                },
                side: (size + 2 * border_width) as u64,
            },
            MarkerShape::Circle { radius, border_width } => Figure::Circle {
                center: self.position,
                radius: (radius + border_width) as u64,
            },
        }
    }

    /// The figure that is filled with the marker's colour: a square or a
    /// disc around the marker's position. A square of odd size reaches one
    /// unit farther to the right and to the bottom than to the left and to
    /// the top.
    pub open spec fn body_of(self, shape: MarkerShape) -> Figure {
        match shape {
            MarkerShape::Square { size, border_width } => Figure::Square {
                top_left: Point {
                    x: (self.position.x - size / 2) as i64,
                    y: (self.position.y - size / 2) as i64,
                },
                side: size as u64,
            },
            MarkerShape::Circle { radius, border_width } => Figure::Circle {
                center: self.position,
                radius: radius as u64,
            },
        }
    }

    /// The two figures that draw the marker in the given shape: first the
    /// outline, then the body that goes on top of it.
    pub fn figures(&self, shape: MarkerShape) -> (out: (Figure, Figure))
        requires
            -MARKER_REACH <= self.position.x <= MARKER_REACH,
            -MARKER_REACH <= self.position.y <= MARKER_REACH,
        ensures
            out.0 == self.outline_of(shape),
            out.1 == self.body_of(shape),
    {
        match shape {
            MarkerShape::Square { size, border_width } => {
                let half: i64 = (size / 2) as i64;
                let border: i64 = border_width as i64;
                (
                    Figure::Square {
                        top_left: Point {
                            x: self.position.x - half - border,
                            y: self.position.y - half - border,
                        },
                        side: size as u64 + 2 * border_width as u64,
                    },
                    Figure::Square {
                        top_left: Point { x: self.position.x - half, y: self.position.y - half },
                        side: size as u64,
                    },
                )
            },
            MarkerShape::Circle { radius, border_width } => (
                Figure::Circle { center: self.position, radius: radius as u64 + border_width as u64 },
                Figure::Circle { center: self.position, radius: radius as u64 },
            ),
        }
    }
}

/// The pointer that holds the picker after `event`.
///
/// A press takes hold if no pointer holds the picker and the press lies
/// within `bounds`; the secondary button also needs `has_alt`, a receiver
/// for secondary selections. A release or a lift lets go if it comes from
/// the pointer that holds. Everything else leaves the holder as it is.
pub open spec fn next_pressed(
    pressed: Option<Pressed>,
    event: Event,
    bounds: Rectangle,
    has_alt: bool,
) -> Option<Pressed> {
    match event {
        Event::PrimaryPressed(position) => if pressed is None && bounds.holds(position) {
            Some(Pressed::Primary)
        } else {
            pressed
        },
        Event::SecondaryPressed(position) => if pressed is None && bounds.holds(position) && has_alt {
            Some(Pressed::Secondary)
        } else {
            pressed
        },
        Event::FingerPressed { id, position } => if pressed is None && bounds.holds(position) {
            Some(Pressed::Finger(id))
        } else {
            pressed
        },
        Event::PrimaryReleased => if pressed == Some(Pressed::Primary) {
            None
        } else {
            pressed
        },
        Event::SecondaryReleased => if pressed == Some(Pressed::Secondary) {
            None
        } else {
            pressed
        },
        Event::FingerLifted { id } => if pressed == Some(Pressed::Finger(id)) {
            None
        } else {
            pressed
        },
        _ => pressed,
    }
}

/// The selection that `event` makes, if any.
///
/// A press that takes hold picks the colour under it. A move of the cursor
/// picks for the mouse button that holds, and a move of a finger picks if
/// that finger holds; the position need not lie within `bounds`. The
/// secondary button picks only with `has_alt`. Nothing else picks.
pub open spec fn emitted(
    pressed: Option<Pressed>,
    color: Hsv,
    spectrum: crate::spectrums::Spectrum,
    event: Event,
    bounds: Rectangle,
    has_alt: bool,
) -> Option<Selection> {
    match event {
        Event::PrimaryPressed(position) => if pressed is None && bounds.holds(position) {
            Some(Selection::Primary(spectrum.picked(color, bounds, position)))
        } else {
            None
        },
        Event::SecondaryPressed(position) => if pressed is None && bounds.holds(position) && has_alt {
            Some(Selection::Secondary(spectrum.picked(color, bounds, position)))
        } else {
            None
        },
        Event::FingerPressed { id, position } => if pressed is None && bounds.holds(position) {
            Some(Selection::Primary(spectrum.picked(color, bounds, position)))
        } else {
            None
        },
        Event::CursorMoved(position) => match pressed {
            Some(Pressed::Primary) => Some(Selection::Primary(spectrum.picked(color, bounds, position))),
            Some(Pressed::Secondary) => if has_alt {
                Some(Selection::Secondary(spectrum.picked(color, bounds, position)))
            } else {
                None
            },
            _ => None,
        },
        Event::FingerMoved { id, position } => if pressed == Some(Pressed::Finger(id)) {
            Some(Selection::Primary(spectrum.picked(color, bounds, position)))
        } else {
            None
        },
        _ => None,
    }
}

/// Whether a component differs between the two colours.
pub open spec fn changed(component: HsvComponent, old_color: Hsv, new_color: Hsv) -> bool {
    component.of(old_color) != component.of(new_color)
}

/// Whether going from `old_color` to `new_color` makes the painted
/// spectrum stale. Only a field of two components goes stale, and only
/// when a component changes that neither axis carries.
pub open spec fn stales_spectrum(
    spectrum: crate::spectrums::Spectrum,
    old_color: Hsv,
    new_color: Hsv,
) -> bool {
    &&& spectrum.is_matrix()
    &&& {
        ||| !spectrum.assigns(HsvComponent::Hue) && changed(HsvComponent::Hue, old_color, new_color)
        ||| !spectrum.assigns(HsvComponent::Saturation) && changed(
            HsvComponent::Saturation,
            old_color,
            new_color,
        )
        ||| !spectrum.assigns(HsvComponent::Value) && changed(HsvComponent::Value, old_color, new_color)
    }
}

/// Whether going from `old_color` to `new_color` makes the marker stale.
/// In a field of two components any change of hue, saturation or value
/// does; elsewhere only a change of a component that an axis carries.
pub open spec fn stales_marker(
    spectrum: crate::spectrums::Spectrum,
    old_color: Hsv,
    new_color: Hsv,
) -> bool {
    if spectrum.is_matrix() {
        ||| changed(HsvComponent::Hue, old_color, new_color)
        ||| changed(HsvComponent::Saturation, old_color, new_color)
        ||| changed(HsvComponent::Value, old_color, new_color)
    } else {
        spectrum.differs(old_color, new_color)
    }
}

/// Takes in a colour that the host supplies: empties the caches that the
/// change makes stale, remembers the colour, and says whether the picker
/// has to be drawn again, which it has whenever the marker is stale.
pub fn diff<S, M>(
    spectrum: crate::spectrums::Spectrum,
    canvas_cache: &mut RasterCache<S>,
    cursor_cache: &mut RasterCache<M>,
    current_color: &mut Hsv,
    new_color: Hsv,
) -> (redraw: bool)
    ensures
        redraw == stales_marker(spectrum, *old(current_color), new_color),
        *final(current_color) == new_color,
        final(canvas_cache)@ == if stales_spectrum(spectrum, *old(current_color), new_color) {
            None
        } else {
            old(canvas_cache)@
        },
        final(cursor_cache)@ == if stales_marker(spectrum, *old(current_color), new_color) {
            None
        } else {
            old(cursor_cache)@
        },
{
    let hue = new_color.h != current_color.h;
    let saturation = new_color.s != current_color.s;
    let value = new_color.v != current_color.v;
    let mut redraw = false;
    match (spectrum.x_axis, spectrum.y_axis) {
        (Some(x), Some(y)) => {
            let held = (hue && !is_hue(x) && !is_hue(y)) || (saturation && !is_saturation(x)
                && !is_saturation(y)) || (value && !is_value(x) && !is_value(y));
            if held {
                canvas_cache.clear();
            }
            if hue || saturation || value {
                cursor_cache.clear();
                redraw = true;
            }
        },
        _ => {
            if spectrum.requires_redraw(current_color, &new_color) {
                cursor_cache.clear();
                redraw = true;
            }
        },
    }
    *current_color = new_color;
    redraw
}

fn is_hue(component: HsvComponent) -> (out: bool)
    ensures
        out == (component == HsvComponent::Hue),
{
    match component {
        HsvComponent::Hue => true,
        _ => false,
    }
}

fn is_saturation(component: HsvComponent) -> (out: bool)
    ensures
        out == (component == HsvComponent::Saturation),
{
    match component {
        HsvComponent::Saturation => true,
        _ => false,
    }
}

fn is_value(component: HsvComponent) -> (out: bool)
    ensures
        out == (component == HsvComponent::Value),
{
    match component {
        HsvComponent::Value => true,
        _ => false,
    }
}

/// The colour that fills the marker: the current colour, and in a strip of
/// hue the opaque colour of its hue at full saturation and full value.
pub open spec fn marker_base(spectrum: crate::spectrums::Spectrum, color: Hsv) -> Hsv {
    if spectrum.is_hue_strip() {
        Hsv { h: color.h, s: UNIT, v: UNIT, a: UNIT }
    } else {
        color
    }
}

/// The marker of `current_color` in a spectrum painted over `bounds`.
pub fn marker(spectrum: crate::spectrums::Spectrum, current_color: Hsv, bounds: Size) -> (out: Marker)
    ensures
        out.position == spectrum.marker_position(current_color, bounds),
        out.color == marker_base(spectrum, current_color).rgba(),
        -MARKER_SPAN <= out.position.x <= MARKER_SPAN,
        -MARKER_SPAN <= out.position.y <= MARKER_SPAN,
{
    let shown = if spectrum.shows_hue_alone() {
        hsv(current_color.h, UNIT, UNIT)
    } else {
        current_color
    };
    Marker { position: spectrum.get_marker_pos(current_color, bounds), color: shown.to_color() }
}

/// Everything that one picker keeps between events.
pub struct State {
    /// The painted spectrum.
    pub spectrum_cache: RasterCache<Vec<Block>>,
    /// The marker.
    pub marker_cache: RasterCache<Marker>,
    /// The pointer that holds the picker, if one does.
    pub pressed: Option<Pressed>,
    /// The colour that the host supplied last.
    pub current_color: Hsv,
}

impl Default for State {
    /// The state of a picker that has seen nothing yet.
    fn default() -> (out: Self)
        ensures
            out.spectrum_cache@ is None,
            out.marker_cache@ is None,
            out.pressed is None,
            out.current_color == (Hsv { h: 0, s: 0, v: 0, a: UNIT }),
    {
        State {
            spectrum_cache: RasterCache::new(),
            marker_cache: RasterCache::new(),
            pressed: None,
            current_color: Hsv::default(),
        }
    }
}

impl State {
    /// Handles a pointer event: moves the hold as `next_pressed` says and
    /// returns the selection that `emitted` gives for the colour last
    /// seen. Colour and caches stay as they are.
    pub fn handle(
        &mut self,
        spectrum: crate::spectrums::Spectrum,
        bounds: Rectangle,
        event: Event,
        has_alt: bool,
    ) -> (out: Option<Selection>)
        ensures
            final(self).pressed == next_pressed(old(self).pressed, event, bounds, has_alt),
            out == emitted(
                old(self).pressed,
                old(self).current_color,
                spectrum,
                event,
                bounds,
                has_alt,
            ),
            final(self).current_color == old(self).current_color,
            final(self).spectrum_cache@ == old(self).spectrum_cache@,
            final(self).marker_cache@ == old(self).marker_cache@,
    {
        let color = self.current_color;
        match event {
            Event::PrimaryPressed(position) => {
                if self.pressed.is_none() && bounds.contains(position) {
                    self.pressed = Some(Pressed::Primary);
                    Some(Selection::Primary(spectrum.fetch_hsv(color, bounds, position)))
                } else {
                    None
                }
            },
            Event::SecondaryPressed(position) => {
                if self.pressed.is_none() && bounds.contains(position) && has_alt {
                    self.pressed = Some(Pressed::Secondary);
                    Some(Selection::Secondary(spectrum.fetch_hsv(color, bounds, position)))
                } else {
                    None
                }
            },
            Event::FingerPressed { id, position } => {
                if self.pressed.is_none() && bounds.contains(position) {
                    self.pressed = Some(Pressed::Finger(id));
                    Some(Selection::Primary(spectrum.fetch_hsv(color, bounds, position)))
                } else {
                    None
                }
            },
            Event::CursorMoved(position) => match self.pressed {
                Some(Pressed::Primary) => Some(
                    Selection::Primary(spectrum.fetch_hsv(color, bounds, position)),
                ),
                Some(Pressed::Secondary) => if has_alt {
                    Some(Selection::Secondary(spectrum.fetch_hsv(color, bounds, position)))
                } else {
                    None
                },
                _ => None,
            },
            Event::FingerMoved { id, position } => match self.pressed {
                Some(Pressed::Finger(finger_id)) => if id == finger_id {
                    Some(Selection::Primary(spectrum.fetch_hsv(color, bounds, position)))
                } else {
                    None
                },
                _ => None,
            },
            Event::PrimaryReleased => {
                if let Some(Pressed::Primary) = self.pressed {
                    self.pressed = None;
                }
                None
            },
            Event::SecondaryReleased => {
                if let Some(Pressed::Secondary) = self.pressed {
                    self.pressed = None;
                }
                None
            },
            Event::FingerLifted { id } => {
                if let Some(Pressed::Finger(finger_id)) = self.pressed {
                    if id == finger_id {
                        self.pressed = None;
                    }
                }
                None
            },
            Event::Other => None,
        }
    }

    /// Processes one event of the host together with the colour that the
    /// host holds at that moment.
    ///
    /// The colour is taken in first, whatever the event and whatever holds
    /// the picker: the caches that it makes stale are emptied and a redraw
    /// is asked for, as in `diff`. Then the event is handled as in
    /// `handle`, so that a selection starts from the colour just supplied.
    pub fn update(
        &mut self,
        spectrum: crate::spectrums::Spectrum,
        color: Hsv,
        bounds: Rectangle,
        event: Event,
        has_alt: bool,
    ) -> (out: Update)
        ensures
            out.redraw == stales_marker(spectrum, old(self).current_color, color),
            out.selection == emitted(old(self).pressed, color, spectrum, event, bounds, has_alt),
            final(self).pressed == next_pressed(old(self).pressed, event, bounds, has_alt),
            final(self).current_color == color,
            final(self).spectrum_cache@ == if stales_spectrum(
                spectrum,
                old(self).current_color,
                color,
            ) {
                None
            } else {
                old(self).spectrum_cache@
            },
            final(self).marker_cache@ == if stales_marker(spectrum, old(self).current_color, color) {
                None
            } else {
                old(self).marker_cache@
            },
    {
        let redraw = diff(
            spectrum,
            &mut self.spectrum_cache,
            &mut self.marker_cache,
            &mut self.current_color,
            color,
        );
        let selection = self.handle(spectrum, bounds, event, has_alt);
        Update { redraw, selection }
    }

    /// The painted spectrum for an area of `size` pixels: the image that
    /// the cache holds for this size if it holds one, else the spectrum
    /// rendered anew from the colour last seen, which the cache then holds.
    pub fn draw_spectrum(
        &mut self,
        spectrum: crate::spectrums::Spectrum,
        size: Size,
        quantization: Quantization,
    ) -> (image: &Vec<Block>)
        ensures
            final(self).spectrum_cache@ == Some((size, *image)),
            old(self).spectrum_cache.holds(size) ==> final(self).spectrum_cache@ == old(
                self,
            ).spectrum_cache@,
            !old(self).spectrum_cache.holds(size) ==> image@ == spectrum.rendered(
                size,
                old(self).current_color,
                quantization@,
            ),
            final(self).marker_cache@ == old(self).marker_cache@,
            final(self).pressed == old(self).pressed,
            final(self).current_color == old(self).current_color,
    {
        let color = self.current_color;
        let render = |area: Size| -> (out: Vec<Block>)
            ensures
                out@ == spectrum.rendered(area, color, quantization@),
        {
            spectrum.render_spectrum(area, &color, quantization)
        };
        self.spectrum_cache.draw(size, render)
    }

    /// The marker for a spectrum painted over `size`: the marker that the
    /// cache holds for this size if it holds one, else the marker of the
    /// colour last seen, which the cache then holds.
    pub fn draw_marker(&mut self, spectrum: crate::spectrums::Spectrum, size: Size) -> (image: &Marker)
        ensures
            final(self).marker_cache@ == Some((size, *image)),
            old(self).marker_cache.holds(size) ==> final(self).marker_cache@ == old(
                self,
            ).marker_cache@,
            !old(self).marker_cache.holds(size) ==> {
                &&& image.position == spectrum.marker_position(old(self).current_color, size)
                &&& image.color == marker_base(spectrum, old(self).current_color).rgba()
            },
            final(self).spectrum_cache@ == old(self).spectrum_cache@,
            final(self).pressed == old(self).pressed,
            final(self).current_color == old(self).current_color,
    {
        let color = self.current_color;
        let place = |area: Size| -> (out: Marker)
            ensures
                out.position == spectrum.marker_position(color, area),
                out.color == marker_base(spectrum, color).rgba(),
        {
            marker(spectrum, color, area)
        };
        self.marker_cache.draw(size, place)
    }
}

/// The pointer that holds the picker after each of `inputs` in turn, an
/// input being an event with the bounds and the `has_alt` of its moment.
pub open spec fn pressed_after(
    pressed: Option<Pressed>,
    inputs: Seq<(Event, Rectangle, bool)>,
) -> Option<Pressed>
    decreases inputs.len(),
{
    if inputs.len() == 0 {
        pressed
    } else {
        let last = inputs.last();
        next_pressed(pressed_after(pressed, inputs.drop_last()), last.0, last.1, last.2)
    }
}

/// The finger that an event reports of, if it reports of one.
pub open spec fn finger_of(event: Event) -> Option<u64> {
    match event {
        Event::FingerPressed { id, .. } => Some(id),
        Event::FingerMoved { id, .. } => Some(id),
        Event::FingerLifted { id } => Some(id),
        _ => None,
    }
}

/// While one finger holds the picker, no other pointer gets through.
///
/// Let the finger `id` hold the picker, and let `inputs` follow in which
/// this finger is never lifted. Then the finger still holds the picker
/// after every one of them, and no input but one of this very finger makes
/// a selection: a press, a move or a lift of another finger, and any event
/// of the mouse, leaves no trace, whatever the colour and the spectrum.
pub proof fn lemma_other_pointers_are_ignored(id: u64, inputs: Seq<(Event, Rectangle, bool)>)
    requires
        forall|i: int| 0 <= i < inputs.len() ==> inputs[i].0 != (Event::FingerLifted { id }),
    ensures
        forall|n: int|
            0 <= n <= inputs.len() ==> #[trigger] pressed_after(
                Some(Pressed::Finger(id)),
                inputs.take(n),
            ) == Some(Pressed::Finger(id)),
        forall|n: int, color: Hsv, spectrum: crate::spectrums::Spectrum|
            0 <= n < inputs.len() && finger_of(inputs[n].0) != Some(id) ==> #[trigger] emitted(
                pressed_after(Some(Pressed::Finger(id)), inputs.take(n)),
                color,
                spectrum,
                inputs[n].0,
                inputs[n].1,
                inputs[n].2,
            ) is None,
    decreases inputs.len(),
{
    let held = Some(Pressed::Finger(id));
    if inputs.len() > 0 {
        let front = inputs.drop_last();
        lemma_other_pointers_are_ignored(id, front);
        assert forall|n: int| 0 <= n <= inputs.len() implies #[trigger] pressed_after(
            held,
            inputs.take(n),
        ) == held by {
            if n < inputs.len() {
                assert(inputs.take(n) == front.take(n));
            } else {
                assert(inputs.take(n) == inputs);
                assert(front.take(n - 1) == front);
                assert(pressed_after(held, front) == held);
            }
        }
    } else {
        assert forall|n: int| 0 <= n <= inputs.len() implies #[trigger] pressed_after(
            held,
            inputs.take(n),
        ) == held by {
            assert(inputs.take(n).len() == 0);
        }
    }
}

/// A press while a pointer holds the picker is ignored.
///
/// Whatever holds the picker, a press of a mouse button or of a finger
/// leaves the hold as it is and makes no selection.
pub proof fn lemma_press_while_held_is_ignored(
    held: Pressed,
    color: Hsv,
    spectrum: crate::spectrums::Spectrum,
    event: Event,
    bounds: Rectangle,
    has_alt: bool,
)
    requires
        event is PrimaryPressed || event is SecondaryPressed || event is FingerPressed,
    ensures
        next_pressed(Some(held), event, bounds, has_alt) == Some(held),
        emitted(Some(held), color, spectrum, event, bounds, has_alt) is None,
{
}

/// A change of one component that no axis carries.
///
/// Let the two colours differ in `component` and in no other of hue,
/// saturation and value, and let neither axis of the spectrum carry it.
/// Then the marker does not move. In a field of two components the change
/// shifts the whole gradient: both caches go stale and the picker is drawn
/// again. In every other spectrum nothing goes stale and nothing is drawn.
pub proof fn lemma_change_of_a_held_component(
    spectrum: crate::spectrums::Spectrum,
    old_color: Hsv,
    new_color: Hsv,
    component: HsvComponent,
)
    requires
        !spectrum.assigns(component),
        changed(component, old_color, new_color),
        forall|other: HsvComponent|
            other != component ==> !#[trigger] changed(other, old_color, new_color),
    ensures
        !spectrum.differs(old_color, new_color),
        stales_spectrum(spectrum, old_color, new_color) == spectrum.is_matrix(),
        stales_marker(spectrum, old_color, new_color) == spectrum.is_matrix(),
{
    assert(component != HsvComponent::Hue ==> !changed(HsvComponent::Hue, old_color, new_color));
    assert(component != HsvComponent::Saturation ==> !changed(
        HsvComponent::Saturation,
        old_color,
        new_color,
    ));
    assert(component != HsvComponent::Value ==> !changed(HsvComponent::Value, old_color, new_color));
}

/// A change of components that the axes carry.
///
/// Let the two colours differ only in components that an axis of the
/// spectrum carries. Then the painted spectrum stays good, and the marker
/// goes stale, with a redraw, exactly when one of them has changed.
pub proof fn lemma_change_of_carried_components(
    spectrum: crate::spectrums::Spectrum,
    old_color: Hsv,
    new_color: Hsv,
)
    requires
        forall|component: HsvComponent| #[trigger]
            changed(component, old_color, new_color) ==> spectrum.assigns(component),
    ensures
        !stales_spectrum(spectrum, old_color, new_color),
        stales_marker(spectrum, old_color, new_color) == spectrum.differs(old_color, new_color),
        stales_marker(spectrum, old_color, new_color) == {
            ||| changed(HsvComponent::Hue, old_color, new_color)
            ||| changed(HsvComponent::Saturation, old_color, new_color)
            ||| changed(HsvComponent::Value, old_color, new_color)
        },
{
    assert(changed(HsvComponent::Hue, old_color, new_color) ==> spectrum.assigns(HsvComponent::Hue));
    assert(changed(HsvComponent::Saturation, old_color, new_color) ==> spectrum.assigns(
        HsvComponent::Saturation,
    ));
    assert(changed(HsvComponent::Value, old_color, new_color) ==> spectrum.assigns(
        HsvComponent::Value,
    ));
}

} // verus!
