use crate::color::Color;
use vstd::prelude::*;

verus! {

/// The pixels that a run of RGBA bytes holds: four bytes per pixel, in the
/// order red, green, blue, alpha. Bytes after the last whole pixel are not
/// read.
pub open spec fn pixels_of(samples: Seq<u8>) -> Seq<Color> {
    Seq::new(
        (samples.len() / 4) as nat,
        |i: int|
            Color {
                r: samples[4 * i],
                g: samples[4 * i + 1],
                b: samples[4 * i + 2],
                a: samples[4 * i + 3],
            },
    )
}

/// Channel `k` of a color, counted in the order red, green, blue, alpha.
pub open spec fn channel(c: Color, k: int) -> u8 {
    if k == 0 {
        c.r
    } else if k == 1 {
        c.g
    } else if k == 2 {
        c.b
    } else {
        c.a
    }
}

/// The RGBA bytes of a run of pixels, four per pixel.
pub open spec fn samples_of(pixels: Seq<Color>) -> Seq<u8> {
    Seq::new(4 * pixels.len(), |i: int| channel(pixels[i / 4], i % 4))
}

/// Reading back the bytes of a run of pixels gives the pixels.
pub proof fn lemma_samples_round_trip(pixels: Seq<Color>)
    ensures
        pixels_of(samples_of(pixels)) == pixels,
{
    assert(pixels_of(samples_of(pixels)) =~= pixels);
}

/// Number of pixels of a grid of the given size.
pub(crate) fn area(width: u32, height: u32) -> (n: u64)
    ensures
        n == width * height,
{
    assert(width * height <= 0xffff_ffff * 0xffff_ffff) by (nonlinear_arith)
        requires
            width <= 0xffff_ffff,
            height <= 0xffff_ffff,
    ;
    (width as u64) * (height as u64)
}

/// A grid as a plain value: its size and its pixels, row by row.
pub struct GridModel {
    pub width: u32,
    pub height: u32,
    pub pixels: Seq<Color>,
}

/// A decoded image: `width` times `height` colors, row by row from the top,
/// each row from the left.
#[derive(Debug)]
pub struct PixelGrid {
    width: u32,
    height: u32,
    pixels: Vec<Color>,
}

impl View for PixelGrid {
    type V = GridModel;

    closed spec fn view(&self) -> GridModel {
        GridModel { width: self.width, height: self.height, pixels: self.pixels@ }
    }
}

impl Clone for PixelGrid {
    fn clone(&self) -> (copy: Self)
        ensures
            copy@ == self@,
    {
        proof {
            use_type_invariant(self);
        }
        let pixels = self.pixels.clone();
        assert(pixels@ =~= self.pixels@);
        PixelGrid { width: self.width, height: self.height, pixels }
    }
}

impl PixelGrid {
    #[verifier::type_invariant]
    spec fn filled(&self) -> bool {
        self.pixels@.len() == self.width * self.height
    }

    pub open spec fn spec_width(&self) -> u32 {
        self@.width
    }

    pub open spec fn spec_height(&self) -> u32 {
        self@.height
    }

    /// A grid of the given size over `pixels`, if their number is
    /// `width * height`.
    pub fn new(width: u32, height: u32, pixels: Vec<Color>) -> (grid: Option<PixelGrid>)
        ensures
            grid.is_some() <==> pixels@.len() == width * height,
            grid matches Some(g) ==> g@ == (GridModel { width, height, pixels: pixels@ }),
    {
        if pixels.len() as u64 == area(width, height) {
            Some(PixelGrid { width, height, pixels })
        } else {
            None
        }
    }

    /// A grid of the given size read from RGBA bytes, if their number is
    /// `4 * width * height`.
    pub fn from_rgba(width: u32, height: u32, samples: &[u8]) -> (grid: Option<PixelGrid>)
        ensures
            grid.is_some() <==> samples@.len() == 4 * (width * height),
            grid matches Some(g) ==> g@ == (GridModel {
                width,
                height,
                pixels: pixels_of(samples@),
            }),
    {
        let total = samples.len();
        let count = total / 4;
        if total % 4 != 0 || count as u64 != area(width, height) {
            return None;
        }
        let mut pixels: Vec<Color> = Vec::with_capacity(count);
        let mut i: usize = 0;
        while i < count
            invariant
                i <= count,
                total == samples@.len(),
                total == 4 * count,
                pixels@.len() == i,
                forall|j: int| 0 <= j < i ==> (#[trigger] pixels@[j]) == pixels_of(samples@)[j],
            decreases count - i,
        {
            let at = 4 * i;
            pixels.push(
                Color { r: samples[at], g: samples[at + 1], b: samples[at + 2], a: samples[at + 3] },
            );
            i = i + 1;
        }
        assert(pixels@ =~= pixels_of(samples@));
        Some(PixelGrid { width, height, pixels })
    }

    #[verifier::when_used_as_spec(spec_width)]
    pub fn width(&self) -> (w: u32)
        ensures
            w == self.spec_width(),
    {
        self.width
    }

    #[verifier::when_used_as_spec(spec_height)]
    pub fn height(&self) -> (h: u32)
        ensures
            h == self.spec_height(),
    {
        self.height
    }

    /// The pixels, row by row.
    pub fn pixels(&self) -> (all: &Vec<Color>)
        ensures
            all@ == self@.pixels,
            all@.len() == self@.width * self@.height,
    {
        proof {
            use_type_invariant(self);
        }
        &self.pixels
    }

    /// The pixel in column `x` of row `y`, if the grid has one there.
    pub fn get(&self, x: u32, y: u32) -> (pixel: Option<Color>)
        ensures
            pixel == (if x < self.width() && y < self.height() {
                Some(self@.pixels[y * self@.width + x])
            } else {
                None
            }),
    {
        proof {
            use_type_invariant(self);
        }
        if x < self.width && y < self.height {
            let row = area(y, self.width);
            let n = self.pixels.len();
            proof {
                let w: int = self.width as int;
                let h: int = self.height as int;
                let col: int = x as int;
                let line: int = y as int;
                assert(line * w + col < w * h) by (nonlinear_arith)
                    requires
                        0 <= col < w,
                        0 <= line < h,
                ;
                assert(w * h == n);
                assert(row == line * w);
                assert(row + col < n);
            }
            let at: u64 = row + x as u64;
            Some(self.pixels[at as usize])
        } else {
            None
        }
    }

    /// The grid as RGBA bytes, four per pixel.
    pub fn to_rgba(&self) -> (samples: Vec<u8>)
        ensures
            samples@ == samples_of(self@.pixels),
            samples@.len() == 4 * (self@.width * self@.height),
            pixels_of(samples@) == self@.pixels,
    {
        proof {
            use_type_invariant(self);
        }
        let n = self.pixels.len();
        let mut samples: Vec<u8> = Vec::new();
        let mut i: usize = 0;
        while i < n
            invariant
                i <= n,
                n == self.pixels@.len(),
                samples@.len() == 4 * i,
                forall|j: int| 0 <= j < 4 * i ==> (#[trigger] samples@[j]) == samples_of(self.pixels@)[j],
            decreases n - i,
        {
            let c = self.pixels[i];
            samples.push(c.r);
            samples.push(c.g);
            samples.push(c.b);
            samples.push(c.a);
            i = i + 1;
        }
        assert(samples@ =~= samples_of(self.pixels@));
        proof {
            lemma_samples_round_trip(self.pixels@);
        }
        samples
    }
}

} // verus!
