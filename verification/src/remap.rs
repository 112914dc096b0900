use crate::color::Color;
use crate::grid::{GridModel, PixelGrid};
use crate::matcher::{fallback, nearest, nearest_color};
use crate::palette::{is_canonical, opaque_colors, palette_of, Palette, MAX_COLORS};
use vstd::prelude::*;

verus! {

/// A pixel after remapping: red, green and blue of its match, and its own
/// alpha.
pub open spec fn recolor(palette: Seq<Color>, pixel: Color) -> Color {
    nearest(palette, pixel).with_alpha(pixel.a)
}

/// A run of pixels after remapping: each pixel recolored by itself.
pub open spec fn remapped(pixels: Seq<Color>, palette: Seq<Color>) -> Seq<Color> {
    Seq::new(pixels.len(), |i: int| recolor(palette, pixels[i]))
}

/// Whether some color of `palette` has the red, green and blue of `c`.
pub open spec fn has_rgb(palette: Seq<Color>, c: Color) -> bool {
    exists|k: int| 0 <= k < palette.len() && (#[trigger] palette[k]).same_rgb(c)
}

/// Whether every pixel has the red, green and blue of some palette color.
pub open spec fn drawn_from(pixels: Seq<Color>, palette: Seq<Color>) -> bool {
    forall|i: int| 0 <= i < pixels.len() ==> has_rgb(palette, #[trigger] pixels[i])
}

/// Builds the palette of a grid: the colors of its pixels, each made fully
/// opaque and kept once, in canonical order. An empty grid gives the empty
/// palette.
pub fn extract_palette(grid: &PixelGrid) -> (palette: Palette)
    ensures
        palette@ == palette_of(grid@.pixels),
        is_canonical(palette@),
        palette@.to_set() == opaque_colors(grid@.pixels),
        palette@.len() <= grid@.pixels.len(),
        palette@.len() <= MAX_COLORS,
{
    Palette::from_colors(grid.pixels().as_slice())
}

/// Remaps `target` to the colors of `source`: the palette of `source` is
/// built, and every pixel of `target` is moved to its nearest color in it.
pub fn quantize(target: &PixelGrid, source: &PixelGrid) -> (out: PixelGrid)
    ensures
        out@ == (GridModel {
            width: target@.width,
            height: target@.height,
            pixels: remapped(target@.pixels, palette_of(source@.pixels)),
        }),
{
    let palette = extract_palette(source);
    remap(target, &palette)
}

/// Remaps one pixel: the RGB of its nearest palette color under its own
/// alpha.
pub fn remap_pixel(pixel: Color, palette: &Palette) -> (out: Color)
    ensures
        out == recolor(palette@, pixel),
{
    nearest_color(pixel, palette).with_alpha(pixel.a)
}

/// Remaps every pixel of `grid` to its nearest color in `palette`. The
/// result has the size of `grid`, and each pixel keeps its alpha.
pub fn remap(grid: &PixelGrid, palette: &Palette) -> (out: PixelGrid)
    ensures
        out@ == (GridModel {
            width: grid@.width,
            height: grid@.height,
            pixels: remapped(grid@.pixels, palette@),
        }),
{
    let source = grid.pixels();
    let n = source.len();
    let mut pixels: Vec<Color> = Vec::with_capacity(n);
    let mut i: usize = 0;
    while i < n
        invariant
            i <= n,
            n == source@.len(),
            pixels@.len() == i,
            forall|j: int| 0 <= j < i ==> (#[trigger] pixels@[j]) == recolor(palette@, source@[j]),
        decreases n - i,
    {
        pixels.push(remap_pixel(source[i], palette));
        i = i + 1;
    }
    assert(pixels@ =~= remapped(grid@.pixels, palette@));
    PixelGrid::new(grid.width(), grid.height(), pixels).unwrap()
}

/// Every remapped pixel has the RGB of a palette color, whenever the
/// palette holds one; under the empty palette every pixel becomes black.
pub proof fn lemma_remap_stays_in_palette(pixels: Seq<Color>, palette: Seq<Color>, i: int)
    requires
        0 <= i < pixels.len(),
    ensures
        palette.len() > 0 ==> has_rgb(palette, remapped(pixels, palette)[i]),
        palette.len() == 0 ==> remapped(pixels, palette)[i] == fallback(pixels[i]),
{
    crate::matcher::lemma_match_is_member_or_black(palette, pixels[i]);
    if palette.len() > 0 {
        let m = nearest(palette, pixels[i]);
        let k = choose|k: int| 0 <= k < palette.len() && palette[k] == m;
        assert(palette[k].same_rgb(remapped(pixels, palette)[i]));
    }
}

/// Remapping keeps the number of pixels and the alpha of each, whatever the
/// palette holds.
pub proof fn lemma_remap_keeps_alpha(pixels: Seq<Color>, palette: Seq<Color>, i: int)
    requires
        0 <= i < pixels.len(),
    ensures
        remapped(pixels, palette).len() == pixels.len(),
        remapped(pixels, palette)[i].a == pixels[i].a,
{
}

/// The result of remapping depends on the pixels and on the set of palette
/// colors alone: two canonical palettes of the same colors, however they
/// were built, remap equal grids to equal grids.
pub proof fn lemma_remap_is_determined(
    pixels: Seq<Color>,
    palette: Seq<Color>,
    again: Seq<Color>,
)
    requires
        is_canonical(palette),
        is_canonical(again),
        palette.to_set() == again.to_set(),
    ensures
        remapped(pixels, palette) == remapped(pixels, again),
{
    crate::palette::lemma_canonical_is_unique(palette, again);
}

/// A grid whose every pixel has the RGB of some palette color is left as it
/// is: distance zero cannot be beaten.
pub proof fn lemma_remap_fixes_palette_colors(pixels: Seq<Color>, palette: Seq<Color>)
    requires
        drawn_from(pixels, palette),
    ensures
        remapped(pixels, palette) == pixels,
{
    assert forall|i: int| 0 <= i < pixels.len() implies remapped(pixels, palette)[i]
        == pixels[i] by {
        assert(has_rgb(palette, pixels[i]));
        let k = choose|k: int| 0 <= k < palette.len() && (#[trigger] palette[k]).same_rgb(pixels[i]);
        crate::matcher::lemma_member_matches_itself(palette, pixels[i], k);
    }
    assert(remapped(pixels, palette) =~= pixels);
}

} // verus!
