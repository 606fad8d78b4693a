//! Colours as hue, saturation and value, and their conversion to and from
//! red, green and blue.

use vstd::prelude::*;

use crate::fixed::{
    clamp_unit, div_nearest, lemma_nearest_bounds, lemma_nearest_le, lemma_nearest_sign, nearest,
    SECTOR, TURN, UNIT,
};

verus! {

/// `SECTOR` times `UNIT`: the divisor of the channels that change within a
/// sector.
pub const SECTOR_UNIT: u64 = 60_000_000_000_000;

/// Hue, saturation, value (brightness) and alpha.
///
/// The hue counts millionths of a degree and is meant to stay below `TURN`;
/// the other three count millionths of the whole and are meant to stay at or
/// below `UNIT`. No function relies on either.
#[derive(Debug, Clone, Copy, PartialEq, Eq, Structural)]
pub struct Hsv {
    /// The hue component.
    pub h: u32,
    /// The saturation component.
    pub s: u32,
    /// The value component.
    pub v: u32,
    /// The alpha component.
    pub a: u32,
}

/// Red, green, blue and alpha, each in millionths of the whole.
#[derive(Debug, Clone, Copy, PartialEq, Eq, Structural)]
pub struct Rgba {
    /// The red channel.
    pub r: u32,
    /// The green channel.
    pub g: u32,
    /// The blue channel.
    pub b: u32,
    /// The alpha channel.
    pub a: u32,
}

impl Default for Hsv {
    /// Opaque black.
    fn default() -> (out: Self)
        ensures
            out == (Hsv { h: 0, s: 0, v: 0, a: UNIT }),
    {
        Hsv { h: 0, s: 0, v: 0, a: UNIT }
    }
}

/// An opaque colour of the given hue, saturation and value.
pub fn hsv(hue: u32, saturation: u32, value: u32) -> (out: Hsv)
    ensures
        out == (Hsv { h: hue, s: saturation, v: value, a: UNIT }),
{
    hsva(hue, saturation, value, UNIT)
}

/// The colour of the given hue, saturation, value and alpha.
pub fn hsva(hue: u32, saturation: u32, value: u32, alpha: u32) -> (out: Hsv)
    ensures
        out == (Hsv { h: hue, s: saturation, v: value, a: alpha }),
{
    Hsv { h: hue, s: saturation, v: value, a: alpha }
}

/// The largest of three channels.
pub open spec fn max3(r: int, g: int, b: int) -> int {
    if r >= g && r >= b {
        r
    } else if g >= b {
        g
    } else {
        b
    }
}

/// The smallest of three channels.
pub open spec fn min3(r: int, g: int, b: int) -> int {
    if r <= g && r <= b {
        r
    } else if g <= b {
        g
    } else {
        b
    }
}

/// `whole - take` parts out of `whole` of `v`, rounded and limited to the
/// range of a channel: `v * (1 - take / whole)`.
pub open spec fn shade(v: int, take: int, whole: int) -> int {
    clamp_unit(nearest(v * (whole - take), whole))
}

impl Hsv {
    /// The sector of the colour wheel that the hue lies in, from 0 to 5.
    /// A hue of a full turn or more wraps around.
    pub open spec fn sector(self) -> int {
        (self.h as int / SECTOR as int) % 6
    }

    /// How far the hue lies into its sector.
    pub open spec fn sector_offset(self) -> int {
        self.h as int % SECTOR as int
    }

    /// The channel that is lowest in every sector: `v * (1 - s)`.
    pub open spec fn low(self) -> int {
        shade(self.v as int, self.s as int, UNIT as int)
    }

    /// The channel that falls across the sector: `v * (1 - s * f)`, where
    /// `f` is the part of the sector that lies below the hue.
    pub open spec fn falling(self) -> int {
        shade(self.v as int, self.s as int * self.sector_offset(), SECTOR_UNIT as int)
    }

    /// The channel that rises across the sector: `v * (1 - s * (1 - f))`.
    pub open spec fn rising(self) -> int {
        shade(self.v as int, self.s as int * (SECTOR as int - self.sector_offset()), SECTOR_UNIT as int)
    }

    /// The colour in red, green and blue. The three channels are chosen by
    /// sector among the value, `low`, `falling` and `rising`; every channel
    /// and the alpha are limited to `UNIT`.
    pub open spec fn rgba(self) -> Rgba {
        let top = clamp_unit(self.v as int) as u32;
        let p = self.low() as u32;
        let q = self.falling() as u32;
        let t = self.rising() as u32;
        let a = clamp_unit(self.a as int) as u32;
        let k = self.sector();
        if k == 1 {
            Rgba { r: q, g: top, b: p, a }
        } else if k == 2 {
            Rgba { r: p, g: top, b: t, a }
        } else if k == 3 {
            Rgba { r: p, g: q, b: top, a }
        } else if k == 4 {
            Rgba { r: t, g: p, b: top, a }
        } else if k == 5 {
            Rgba { r: top, g: p, b: q, a }
        } else {
            Rgba { r: top, g: t, b: p, a }
        }
    }

    /// The colour in red, green, blue and alpha.
    pub fn to_color(self) -> (out: Rgba)
        ensures
            out == self.rgba(),
            out.r <= UNIT,
            out.g <= UNIT,
            out.b <= UNIT,
            out.a <= UNIT,
    {
        let k: u32 = (self.h / SECTOR) % 6;
        let offset: u32 = self.h % SECTOR;
        assert((self.s as u64) * (offset as u64) <= 0xffff_ffff * 60_000_000) by (nonlinear_arith)
            requires
                self.s <= 0xffff_ffff,
                offset <= 60_000_000,
        ;
        assert((self.s as u64) * ((SECTOR - offset) as u64) <= 0xffff_ffff * 60_000_000)
            by (nonlinear_arith)
            requires
                self.s <= 0xffff_ffff,
                SECTOR - offset <= 60_000_000,
                SECTOR - offset >= 0,
        ;
        let top: u32 = limit(self.v);
        let p: u32 = shaded(self.v, self.s as u64, UNIT as u64);
        let q: u32 = shaded(self.v, self.s as u64 * offset as u64, SECTOR_UNIT);
        let t: u32 = shaded(self.v, self.s as u64 * (SECTOR - offset) as u64, SECTOR_UNIT);
        let a: u32 = limit(self.a);
        if k == 1 {
            Rgba { r: q, g: top, b: p, a }
        } else if k == 2 {
            Rgba { r: p, g: top, b: t, a }
        } else if k == 3 {
            Rgba { r: p, g: q, b: top, a }
        } else if k == 4 {
            Rgba { r: t, g: p, b: top, a }
        } else if k == 5 {
            Rgba { r: top, g: p, b: q, a }
        } else {
            Rgba { r: top, g: t, b: p, a }
        }
    }
}

impl Rgba {
    /// The rounded share of a sector that the difference `up - down` is of
    /// `delta`: sixty degrees times `(up - down) / delta`.
    pub open spec fn sector_part(up: int, down: int, delta: int) -> int {
        nearest(SECTOR as int * (up - down), delta)
    }

    /// The hue before it is brought into one turn: zero for a grey, else
    /// the base angle of the strongest channel (red first, then green, then
    /// blue) plus the share of a sector by which its two neighbours differ.
    pub open spec fn raw_hue(self) -> int {
        let r = self.r as int;
        let g = self.g as int;
        let b = self.b as int;
        let max = max3(r, g, b);
        let delta = max - min3(r, g, b);
        if delta == 0 {
            0
        } else if r == max {
            Self::sector_part(g, b, delta)
        } else if g == max {
            2 * SECTOR as int + Self::sector_part(b, r, delta)
        } else {
            4 * SECTOR as int + Self::sector_part(r, g, delta)
        }
    }

    /// The hue: a negative raw hue is raised by a full turn, and the result
    /// is taken modulo a full turn.
    pub open spec fn hue(self) -> int {
        let raw = self.raw_hue();
        (if raw < 0 {
            raw + TURN as int
        } else {
            raw
        }) % (TURN as int)
    }

    /// The saturation: zero for black, else `(max - min) / max`.
    pub open spec fn saturation(self) -> int {
        let max = max3(self.r as int, self.g as int, self.b as int);
        let min = min3(self.r as int, self.g as int, self.b as int);
        if max == 0 {
            0
        } else {
            nearest((max - min) * UNIT as int, max)
        }
    }

    /// The colour as hue, saturation and value. The value is the strongest
    /// channel, and the alpha is kept.
    pub open spec fn hsv(self) -> Hsv {
        Hsv {
            h: self.hue() as u32,
            s: self.saturation() as u32,
            v: max3(self.r as int, self.g as int, self.b as int) as u32,
            a: self.a,
        }
    }

    /// The colour as hue, saturation and value. A grey has hue zero and
    /// saturation zero, and the hue is always below a full turn.
    pub fn to_hsv(self) -> (out: Hsv)
        ensures
            out == self.hsv(),
            out.h < TURN,
            out.s <= UNIT,
            (self.r == self.g && self.g == self.b) ==> out.h == 0 && out.s == 0,
    {
        let (r, g, b) = (self.r, self.g, self.b);
        let max: u32 = if r >= g && r >= b {
            r
        } else if g >= b {
            g
        } else {
            b
        };
        let min: u32 = if r <= g && r <= b {
            r
        } else if g <= b {
            g
        } else {
            b
        };
        let delta: u32 = max - min;
        let raw: i64 = if delta == 0 {
            0
        } else if r == max {
            sector_share(g, b, delta)
        } else if g == max {
            2 * (SECTOR as i64) + sector_share(b, r, delta)
        } else {
            4 * (SECTOR as i64) + sector_share(r, g, delta)
        };
        let turned: u64 = if raw < 0 {
            (raw + TURN as i64) as u64
        } else {
            raw as u64
        };
        let h: u64 = turned % (TURN as u64);
        let s: u32 = if max == 0 {
            0
        } else {
            assert(delta * UNIT <= 0xffff_ffff * 1_000_000) by (nonlinear_arith)
                requires
                    0 <= delta <= 0xffff_ffff,
            ;
            proof {
                assert((max - min) * UNIT as int <= UNIT as int * max as int) by (nonlinear_arith)
                    requires
                        0 <= max - min <= max,
                ;
                lemma_nearest_le((max - min) * UNIT as int, max as int, UNIT as int);
                if delta == 0 {
                    lemma_nearest_sign(0, max as int);
                }
            }
            div_nearest((delta as u128) * (UNIT as u128), max as u64) as u32
        };
        Hsv { h: h as u32, s, v: max, a: self.a }
    }
}

/// `Rgba::sector_part` on machine integers.
fn sector_share(up: u32, down: u32, delta: u32) -> (out: i64)
    requires
        delta > 0,
        up - down <= delta,
        down - up <= delta,
    ensures
        out == Rgba::sector_part(up as int, down as int, delta as int),
        -(SECTOR as int) <= out <= SECTOR as int,
{
    if up >= down {
        let diff: u32 = up - down;
        assert(SECTOR * diff <= 60_000_000 * 0xffff_ffff) by (nonlinear_arith)
            requires
                0 <= diff <= 0xffff_ffff,
        ;
        proof {
            assert(SECTOR as int * (up - down) <= SECTOR as int * delta as int) by (nonlinear_arith)
                requires
                    0 <= up - down <= delta,
            ;
            assert(SECTOR as int * (up - down) >= 0) by (nonlinear_arith)
                requires
                    0 <= up - down,
            ;
            lemma_nearest_le(SECTOR as int * (up - down), delta as int, SECTOR as int);
        }
        div_nearest((SECTOR as u128) * (diff as u128), delta as u64) as i64
    } else {
        let diff: u32 = down - up;
        assert(SECTOR * diff <= 60_000_000 * 0xffff_ffff) by (nonlinear_arith)
            requires
                0 <= diff <= 0xffff_ffff,
        ;
        proof {
            assert(SECTOR as int * (down - up) <= SECTOR as int * delta as int) by (nonlinear_arith)
                requires
                    0 <= down - up <= delta,
            ;
            assert(SECTOR as int * (down - up) > 0) by (nonlinear_arith)
                requires
                    0 < down - up,
            ;
            assert(-(SECTOR as int * (up - down)) == SECTOR as int * (down - up))
                by (nonlinear_arith);
            lemma_nearest_le(SECTOR as int * (down - up), delta as int, SECTOR as int);
        }
        -(div_nearest((SECTOR as u128) * (diff as u128), delta as u64) as i64)
    }
}

impl From<Hsv> for Rgba {
    fn from(hsv: Hsv) -> (out: Rgba) {
        hsv.to_color()
    }
}

impl vstd::std_specs::convert::FromSpecImpl<Hsv> for Rgba {
    open spec fn obeys_from_spec() -> bool {
        true
    }

    open spec fn from_spec(hsv: Hsv) -> Rgba {
        hsv.rgba()
    }
}

impl From<Rgba> for Hsv {
    fn from(color: Rgba) -> (out: Hsv) {
        color.to_hsv()
    }
}

impl vstd::std_specs::convert::FromSpecImpl<Rgba> for Hsv {
    open spec fn obeys_from_spec() -> bool {
        true
    }

    open spec fn from_spec(color: Rgba) -> Hsv {
        color.hsv()
    }
}

/// The eight-bit encoding of a channel: `c * 255` rounded, and 255 for
/// anything above.
pub open spec fn channel_to_u8(c: int) -> int {
    let q = nearest(c * 255, UNIT as int);
    if q > 255 {
        255
    } else {
        q
    }
}

/// The channel that an eight-bit value encodes: `c / 255` rounded to the
/// nearest millionth.
pub open spec fn channel_from_u8(c: int) -> int {
    nearest(c * UNIT as int, 255)
}

/// The eight-bit encoding of a channel.
pub fn to_u8(v: u32) -> (out: u8)
    ensures
        out == channel_to_u8(v as int),
{
    let q: u128 = div_nearest((v as u128) * 255, UNIT as u64);
    if q > 255 {
        255
    } else {
        q as u8
    }
}

/// The channel that an eight-bit value encodes.
pub fn from_u8(c: u8) -> (out: u32)
    ensures
        out == channel_from_u8(c as int),
        out <= UNIT,
{
    proof {
        lemma_nearest_le(c as int * UNIT as int, 255, UNIT as int);
    }
    div_nearest((c as u128) * (UNIT as u128), 255) as u32
}

/// Encoding in eight bits loses nothing of a channel that came from
/// eight bits.
pub proof fn lemma_u8_round_trip(c: u8)
    ensures
        channel_to_u8(channel_from_u8(c as int)) == c,
{
}

impl Hsv {
    /// The colour of four eight-bit channels: red, green, blue, alpha.
    pub fn from_rgba8(rgba: [u8; 4]) -> (out: Hsv)
        ensures
            out == (Rgba {
                r: channel_from_u8(rgba[0] as int) as u32,
                g: channel_from_u8(rgba[1] as int) as u32,
                b: channel_from_u8(rgba[2] as int) as u32,
                a: channel_from_u8(rgba[3] as int) as u32,
            }).hsv(),
    {
        Rgba {
            r: from_u8(rgba[0]),
            g: from_u8(rgba[1]),
            b: from_u8(rgba[2]),
            a: from_u8(rgba[3]),
        }.to_hsv()
    }

    /// The opaque colour of three eight-bit channels: red, green, blue.
    pub fn from_rgb8(rgb: [u8; 3]) -> (out: Hsv)
        ensures
            out == (Rgba {
                r: channel_from_u8(rgb[0] as int) as u32,
                g: channel_from_u8(rgb[1] as int) as u32,
                b: channel_from_u8(rgb[2] as int) as u32,
                a: UNIT,
            }).hsv(),
    {
        Rgba { r: from_u8(rgb[0]), g: from_u8(rgb[1]), b: from_u8(rgb[2]), a: UNIT }.to_hsv()
    }

    /// The colour of four channels: red, green, blue, alpha.
    pub fn from_rgba(rgba: [u32; 4]) -> (out: Hsv)
        ensures
            out == (Rgba { r: rgba[0], g: rgba[1], b: rgba[2], a: rgba[3] }).hsv(),
    {
        Rgba { r: rgba[0], g: rgba[1], b: rgba[2], a: rgba[3] }.to_hsv()
    }

    /// The opaque colour of three channels: red, green, blue.
    pub fn from_rgb(rgb: [u32; 3]) -> (out: Hsv)
        ensures
            out == (Rgba { r: rgb[0], g: rgb[1], b: rgb[2], a: UNIT }).hsv(),
    {
        Rgba { r: rgb[0], g: rgb[1], b: rgb[2], a: UNIT }.to_hsv()
    }

    /// Red, green, blue and alpha.
    pub fn to_rgba(self) -> (out: [u32; 4])
        ensures
            out[0] == self.rgba().r,
            out[1] == self.rgba().g,
            out[2] == self.rgba().b,
            out[3] == self.rgba().a,
    {
        let c = self.to_color();
        [c.r, c.g, c.b, c.a]
    }

    /// Red, green and blue.
    pub fn to_rgb(self) -> (out: [u32; 3])
        ensures
            out[0] == self.rgba().r,
            out[1] == self.rgba().g,
            out[2] == self.rgba().b,
    {
        let c = self.to_color();
        [c.r, c.g, c.b]
    }

    /// Red, green, blue and alpha in eight bits each.
    pub fn to_rgba8(self) -> (out: [u8; 4])
        ensures
            out[0] == channel_to_u8(self.rgba().r as int),
            out[1] == channel_to_u8(self.rgba().g as int),
            out[2] == channel_to_u8(self.rgba().b as int),
            out[3] == channel_to_u8(self.rgba().a as int),
    {
        let c = self.to_color();
        [to_u8(c.r), to_u8(c.g), to_u8(c.b), to_u8(c.a)]
    }

    /// Red, green and blue in eight bits each.
    pub fn to_rgb8(self) -> (out: [u8; 3])
        ensures
            out[0] == channel_to_u8(self.rgba().r as int),
            out[1] == channel_to_u8(self.rgba().g as int),
            out[2] == channel_to_u8(self.rgba().b as int),
    {
        let c = self.to_color();
        [to_u8(c.r), to_u8(c.g), to_u8(c.b)]
    }
}

/// A channel limited to `UNIT`.
fn limit(c: u32) -> (out: u32)
    ensures
        out == clamp_unit(c as int),
        out <= UNIT,
{
    if c > UNIT {
        UNIT
    } else {
        c
    }
}

/// `shade` on machine integers.
fn shaded(v: u32, take: u64, whole: u64) -> (out: u32)
    requires
        0 < whole <= SECTOR_UNIT,
    ensures
        out == shade(v as int, take as int, whole as int),
        out <= UNIT,
{
    if take >= whole {
        proof {
            assert(v * (whole - take) <= 0) by (nonlinear_arith)
                requires
                    v >= 0,
                    whole - take <= 0,
            ;
            lemma_nearest_sign(v * (whole - take), whole as int);
        }
        0
    } else {
        let keep: u64 = whole - take;
        assert(v * keep <= 0xffff_ffff * 60_000_000_000_000) by (nonlinear_arith)
            requires
                0 <= v <= 0xffff_ffff,
                0 <= keep <= 60_000_000_000_000,
        ;
        let n: u128 = (v as u128) * (keep as u128);
        let q: u128 = div_nearest(n, whole);
        if q > UNIT as u128 {
            UNIT
        } else {
            q as u32
        }
    }
}

/// A grey has neither hue nor saturation: a colour of three equal channels
/// has hue zero and saturation zero.
pub proof fn lemma_grey_has_no_hue(c: Rgba)
    requires
        c.r == c.g,
        c.g == c.b,
    ensures
        c.hsv().h == 0,
        c.hsv().s == 0,
{
    if c.r > 0 {
        lemma_nearest_sign(0, c.r as int);
    }
}

/// The saturation and the share of a sector that three distinct channels
/// give, and the two channels that are computed back from them: the lowest
/// comes back exactly, the middle one within a millionth.
proof fn lemma_round_trip_sorted(min: int, mid: int, max: int)
    requires
        0 < min < mid < max < UNIT,
    ensures
        ({
            let delta = max - min;
            let s = nearest(delta * UNIT as int, max);
            let m = nearest(SECTOR as int * (mid - min), delta);
            &&& 0 < s <= UNIT
            &&& 0 < m < SECTOR
            &&& shade(max, s, UNIT as int) == min
            &&& mid - 1 <= shade(max, s * (SECTOR as int - m), SECTOR_UNIT as int) <= mid + 1
        }),
{
    let unit = UNIT as int;
    let sector = SECTOR as int;
    let whole = SECTOR_UNIT as int;
    let delta = max - min;
    let s = nearest(delta * unit, max);
    let part = sector * (mid - min);
    let m = nearest(part, delta);

    // The saturation, and how far `max * s` lies from `delta * unit`.
    assert(0 < delta * unit <= unit * max) by (nonlinear_arith)
        requires
            0 < delta <= max,
            unit > 0,
    ;
    lemma_nearest_bounds(delta * unit, max);
    lemma_nearest_le(delta * unit, max, unit);
    let e1 = max * s - delta * unit;
    assert(-max < 2 * e1 <= max) by (nonlinear_arith)
        requires
            e1 == max * s - delta * unit,
            2 * max * s <= 2 * (delta * unit) + max,
            2 * (delta * unit) + max < 2 * max * s + 2 * max,
    ;
    assert(s > 0) by (nonlinear_arith)
        requires
            2 * (delta * unit) + max < 2 * max * s + 2 * max,
            delta >= 1,
            unit > max,
            max > 0,
            s >= 0,
    ;

    // The share of the sector, and how far `delta * m` lies from `part`.
    assert(0 < part <= sector * delta) by (nonlinear_arith)
        requires
            part == sector * (mid - min),
            0 < mid - min <= delta,
            sector > 0,
    ;
    lemma_nearest_bounds(part, delta);
    lemma_nearest_le(part, delta, sector);
    let e2 = delta * m - part;
    assert(-delta < 2 * e2 <= delta) by (nonlinear_arith)
        requires
            e2 == delta * m - part,
            2 * delta * m <= 2 * part + delta,
            2 * part + delta < 2 * delta * m + 2 * delta,
    ;
    assert(m < sector) by (nonlinear_arith)
        requires
            2 * delta * m <= 2 * part + delta,
            part == sector * (mid - min),
            delta - (mid - min) >= 1,
            0 < delta < 1_000_000,
            sector == 60_000_000,
    ;
    assert(m > 0) by (nonlinear_arith)
        requires
            2 * part + delta < 2 * delta * m + 2 * delta,
            part == sector * (mid - min),
            mid - min >= 1,
            0 < delta < 1_000_000,
            sector == 60_000_000,
            m >= 0,
    ;

    // The lowest channel.
    let low = max * (unit - s);
    assert(low - unit * min == -e1) by (nonlinear_arith)
        requires
            low == max * (unit - s),
            e1 == max * s - delta * unit,
            delta == max - min,
    ;
    assert(low >= 0) by (nonlinear_arith)
        requires
            low == max * (unit - s),
            max > 0,
            unit - s >= 0,
    ;
    lemma_nearest_bounds(low, unit);
    let low_back = nearest(low, unit);
    assert(low_back == min) by (nonlinear_arith)
        requires
            2 * unit * low_back <= 2 * low + unit,
            2 * low + unit < 2 * unit * low_back + 2 * unit,
            low - unit * min == -e1,
            -max < 2 * e1 <= max,
            max < unit,
    ;

    // The middle channel.
    let take = s * (sector - m);
    let middle = max * (whole - take);
    let lag = e1 * (sector - m);
    let scaled = max * s;
    assert(take == sector * s - s * m) by (nonlinear_arith)
        requires
            take == s * (sector - m),
    ;
    assert(middle == whole * max - sector * scaled + scaled * m) by (nonlinear_arith)
        requires
            middle == max * (whole - take),
            take == sector * s - s * m,
            scaled == max * s,
    ;
    assert(scaled * m == unit * (delta * m) + e1 * m) by (nonlinear_arith)
        requires
            scaled == delta * unit + e1,
    ;
    assert(lag == sector * e1 - e1 * m) by (nonlinear_arith)
        requires
            lag == e1 * (sector - m),
    ;
    assert(unit * part == whole * (mid - min)) by (nonlinear_arith)
        requires
            part == sector * (mid - min),
            whole == sector * unit,
    ;
    assert(sector * scaled == whole * delta + sector * e1) by (nonlinear_arith)
        requires
            scaled == delta * unit + e1,
            whole == sector * unit,
    ;
    assert(unit * (delta * m) == unit * part + unit * e2) by (nonlinear_arith)
        requires
            delta * m == part + e2,
    ;
    assert(whole * (mid - min) == whole * mid - whole * min) by (nonlinear_arith);
    assert(whole * delta == whole * max - whole * min) by (nonlinear_arith)
        requires
            delta == max - min,
    ;
    assert(middle - whole * mid == unit * e2 - lag);
    assert(-(unit * delta) <= 2 * (unit * e2) <= unit * delta) by (nonlinear_arith)
        requires
            -delta <= 2 * e2 <= delta,
            unit > 0,
    ;
    assert(unit * delta <= unit * unit) by (nonlinear_arith)
        requires
            0 <= delta <= unit,
            unit > 0,
    ;
    assert(-(unit * sector) <= 2 * lag <= unit * sector) by (nonlinear_arith)
        requires
            lag == e1 * (sector - m),
            -unit <= 2 * e1 <= unit,
            0 <= sector - m <= sector,
    ;
    assert(unit * sector == 60_000_000_000_000 && unit * unit == 1_000_000_000_000) by (nonlinear_arith)
        requires
            unit == 1_000_000,
            sector == 60_000_000,
    ;
    assert(whole * mid >= whole) by (nonlinear_arith)
        requires
            mid >= 1,
            whole > 0,
    ;
    assert(middle >= 0);
    lemma_nearest_bounds(middle, whole);
    let mid_back = nearest(middle, whole);
    assert(mid - 1 <= mid_back <= mid + 1) by (nonlinear_arith)
        requires
            2 * whole * mid_back <= 2 * middle + whole,
            2 * middle + whole < 2 * whole * mid_back + 2 * whole,
            -61_000_000_000_000 <= 2 * (middle - whole * mid) <= 61_000_000_000_000,
            whole == 60_000_000_000_000,
    ;
}

/// Converting a colour to hue, saturation and value and back gives the
/// colour again.
///
/// For a colour whose red, green and blue lie strictly between zero and
/// `UNIT` and differ from each other, and whose alpha is at most `UNIT`,
/// the strongest and the weakest channel and the alpha come back exactly,
/// and the channel between them comes back within a millionth.
pub proof fn lemma_round_trip(c: Rgba)
    requires
        0 < c.r < UNIT,
        0 < c.g < UNIT,
        0 < c.b < UNIT,
        c.r != c.g,
        c.g != c.b,
        c.r != c.b,
        c.a <= UNIT,
    ensures
        c.hsv().rgba().a == c.a,
        -1 <= c.hsv().rgba().r - c.r <= 1,
        -1 <= c.hsv().rgba().g - c.g <= 1,
        -1 <= c.hsv().rgba().b - c.b <= 1,
{
    let (r, g, b) = (c.r as int, c.g as int, c.b as int);
    let sector = SECTOR as int;
    let max = max3(r, g, b);
    let min = min3(r, g, b);
    let delta = max - min;
    let mid = r + g + b - max - min;
    lemma_round_trip_sorted(min, mid, max);
    let s = nearest(delta * UNIT as int, max);
    let m = nearest(sector * (mid - min), delta);
    let back = c.hsv();
    assert(back.s == s);
    assert(back.v == max);
    // Whether the hue runs up from the base angle of the strongest channel
    // or down from it.
    let up = (r == max && g > b) || (g == max && b > r) || (b == max && r > g);
    let base = if r == max {
        0
    } else if g == max {
        2 * sector
    } else {
        4 * sector
    };
    if up {
        assert(c.raw_hue() == base + m);
        assert(back.h == base + m);
        assert(back.sector_offset() == m);
        assert(back.sector() == base / sector);
    } else {
        assert(sector * (min - mid) == -(sector * (mid - min))) by (nonlinear_arith);
        assert(sector * (min - mid) < 0) by (nonlinear_arith)
            requires
                min - mid < 0,
                sector > 0,
        ;
        assert(c.raw_hue() == base - m);
        assert(back.h == if r == max {
            TURN - m
        } else {
            base - m
        });
        assert(back.sector_offset() == sector - m);
        assert(back.sector() == if r == max {
            5
        } else {
            base / sector - 1
        });
    }
}

} // verus!
