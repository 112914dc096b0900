use vstd::prelude::*;

verus! {

/// The alpha value of a fully opaque sample.
pub const OPAQUE: u8 = 255;

/// One RGBA sample, eight bits per channel.
///
/// Colors are ordered channel by channel, red first, then green, blue and
/// alpha. The derived comparison follows the field order and so agrees with
/// [`Color::rank`].
#[derive(Clone, Copy, Debug, PartialEq, Eq, Structural, PartialOrd, Ord, Hash)]
pub struct Color {
    pub r: u8,
    pub g: u8,
    pub b: u8,
    pub a: u8,
}

/// Absolute difference of two channel values.
pub open spec fn channel_gap(x: u8, y: u8) -> int {
    if x >= y {
        x - y
    } else {
        y - x
    }
}

/// Absolute difference of two channel values, widened so that three of them
/// can be added.
pub fn channel_distance(x: u8, y: u8) -> (d: u16)
    ensures
        d == channel_gap(x, y),
        d <= 255,
{
    let wide: u8 = if x >= y {
        x - y
    } else {
        y - x
    };
    wide as u16
}

impl Color {
    /// Position of the color in the canonical order: red is the most
    /// significant channel, alpha the least.
    pub open spec fn rank(self) -> int {
        self.r * 16777216 + self.g * 65536 + self.b * 256 + self.a
    }

    /// The same red, green and blue with the given alpha.
    pub open spec fn with_alpha_spec(self, a: u8) -> Color {
        Color { r: self.r, g: self.g, b: self.b, a }
    }

    /// The same red, green and blue, fully opaque.
    pub open spec fn opaque_spec(self) -> Color {
        self.with_alpha_spec(OPAQUE)
    }

    /// Whether two colors agree on red, green and blue.
    pub open spec fn same_rgb(self, other: Color) -> bool {
        self.r == other.r && self.g == other.g && self.b == other.b
    }

    /// Manhattan distance in RGB space. Alpha does not contribute.
    pub open spec fn gap(self, other: Color) -> int {
        channel_gap(self.r, other.r) + channel_gap(self.g, other.g) + channel_gap(self.b, other.b)
    }

    pub fn new(r: u8, g: u8, b: u8, a: u8) -> (c: Color)
        ensures
            c == (Color { r, g, b, a }),
    {
        Color { r, g, b, a }
    }

    #[verifier::when_used_as_spec(with_alpha_spec)]
    pub fn with_alpha(self, a: u8) -> (c: Color)
        ensures
            c == self.with_alpha_spec(a),
    {
        Color { r: self.r, g: self.g, b: self.b, a }
    }

    #[verifier::when_used_as_spec(opaque_spec)]
    pub fn opaque(self) -> (c: Color)
        ensures
            c == self.opaque_spec(),
    {
        self.with_alpha(OPAQUE)
    }

    /// Manhattan distance between the RGB parts of two colors.
    pub fn distance(self, other: Color) -> (d: u16)
        ensures
            d == self.gap(other),
            d <= 765,
    {
        channel_distance(self.r, other.r) + channel_distance(self.g, other.g) + channel_distance(
            self.b,
            other.b,
        )
    }

    /// Whether `self` comes strictly before `other` in the canonical order.
    pub fn precedes(self, other: Color) -> (before: bool)
        ensures
            before == (self.rank() < other.rank()),
    {
        if self.r != other.r {
            self.r < other.r
        } else if self.g != other.g {
            self.g < other.g
        } else if self.b != other.b {
            self.b < other.b
        } else {
            self.a < other.a
        }
    }
}

/// The distance is symmetric, zero exactly between colors with the same RGB,
/// and never above 765.
pub proof fn lemma_gap_metric(x: Color, y: Color)
    ensures
        x.gap(y) == y.gap(x),
        0 <= x.gap(y) <= 765,
        x.gap(y) == 0 <==> x.same_rgb(y),
{
}

/// The canonical order is the channel-by-channel order, red first, and two
/// colors of equal rank are the same color.
pub proof fn lemma_rank_is_lexicographic(x: Color, y: Color)
    ensures
        x.rank() == y.rank() <==> x == y,
        x.rank() < y.rank() <==> (x.r < y.r || (x.r == y.r && (x.g < y.g || (x.g == y.g && (x.b
            < y.b || (x.b == y.b && x.a < y.a)))))),
{
}

} // verus!
