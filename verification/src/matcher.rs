use crate::color::Color;
use crate::palette::{is_canonical, Palette};
use vstd::prelude::*;

verus! {

/// What the matcher gives under an empty palette, which has no nearest
/// color: black with the target's own alpha.
pub open spec fn fallback(target: Color) -> Color {
    Color { r: 0, g: 0, b: 0, a: target.a }
}

/// Whether position `k` holds the match for `target`: no entry is closer,
/// and every entry before it is strictly farther.
pub open spec fn is_nearest_at(palette: Seq<Color>, target: Color, k: int) -> bool {
    &&& 0 <= k < palette.len()
    &&& forall|j: int|
        0 <= j < palette.len() ==> palette[k].gap(target) <= (#[trigger] palette[j]).gap(target)
    &&& forall|j: int| 0 <= j < k ==> palette[k].gap(target) < (#[trigger] palette[j]).gap(target)
}

/// The position of the match for `target` in a palette that is not empty.
pub open spec fn nearest_index(palette: Seq<Color>, target: Color) -> int {
    choose|k: int| is_nearest_at(palette, target, k)
}

/// The color matched to `target`: the first of the closest palette entries,
/// however far away they are. Only the empty palette gives the fallback.
pub open spec fn nearest(palette: Seq<Color>, target: Color) -> Color {
    if palette.len() > 0 {
        palette[nearest_index(palette, target)]
    } else {
        fallback(target)
    }
}

/// At most one position holds the match, so `nearest` is the entry at any
/// position that qualifies.
pub proof fn lemma_nearest_at(palette: Seq<Color>, target: Color, k: int)
    requires
        is_nearest_at(palette, target, k),
    ensures
        nearest_index(palette, target) == k,
        nearest(palette, target) == palette[k],
{
    let c = nearest_index(palette, target);
    assert(is_nearest_at(palette, target, c));
    if c < k {
        assert(palette[k].gap(target) < palette[c].gap(target));
        assert(palette[c].gap(target) <= palette[k].gap(target));
    } else if k < c {
        assert(palette[c].gap(target) < palette[k].gap(target));
        assert(palette[k].gap(target) <= palette[c].gap(target));
    }
}

/// In a palette that is not empty, a position holds the match.
pub proof fn lemma_nearest_exists(palette: Seq<Color>, target: Color)
    requires
        palette.len() > 0,
    ensures
        is_nearest_at(palette, target, nearest_index(palette, target)),
{
    lemma_first_minimum(palette, target, palette.len() as int);
    let k = first_minimum(palette, target, palette.len() as int);
    assert(is_nearest_at(palette, target, k));
}

/// Position of the first entry of least distance among the first `n`.
spec fn first_minimum(palette: Seq<Color>, target: Color, n: int) -> int
    decreases n,
{
    if n <= 1 {
        0
    } else {
        let k = first_minimum(palette, target, n - 1);
        if palette[n - 1].gap(target) < palette[k].gap(target) {
            n - 1
        } else {
            k
        }
    }
}

proof fn lemma_first_minimum(palette: Seq<Color>, target: Color, n: int)
    requires
        1 <= n <= palette.len(),
    ensures
        0 <= first_minimum(palette, target, n) < n,
        forall|j: int|
            0 <= j < n ==> palette[first_minimum(palette, target, n)].gap(target) <= (
            #[trigger] palette[j]).gap(target),
        forall|j: int|
            0 <= j < first_minimum(palette, target, n) ==> palette[first_minimum(
                palette,
                target,
                n,
            )].gap(target) < (#[trigger] palette[j]).gap(target),
    decreases n,
{
    if n > 1 {
        lemma_first_minimum(palette, target, n - 1);
    }
}

/// Finds the palette color closest to `target` in RGB, by a scan in
/// canonical order that starts from the first entry and in which only a
/// strictly closer color replaces the best so far. Alpha plays no part in
/// the distance. No bound is put on the distance: every palette that is not
/// empty gives one of its colors, and only the empty palette gives black
/// with the target's alpha.
pub fn nearest_color(target: Color, palette: &Palette) -> (best: Color)
    ensures
        best == nearest(palette@, target),
{
    let colors = palette.colors();
    let n = colors.len();
    if n == 0 {
        return Color { r: 0, g: 0, b: 0, a: target.a };
    }
    let mut min_color = colors[0];
    let mut min_diff: u16 = min_color.distance(target);
    let ghost mut at: int = 0;
    let mut i: usize = 1;
    while i < n
        invariant
            1 <= i <= n,
            n == colors@.len(),
            0 <= at < i,
            min_color == colors@[at],
            min_diff == colors@[at].gap(target),
            forall|j: int| 0 <= j < i ==> min_diff <= (#[trigger] colors@[j]).gap(target),
            forall|j: int| 0 <= j < at ==> min_diff < (#[trigger] colors@[j]).gap(target),
        decreases n - i,
    {
        let candidate = colors[i];
        let diff = candidate.distance(target);
        if diff < min_diff {
            min_diff = diff;
            min_color = candidate;
            proof {
                at = i as int;
            }
        }
        i = i + 1;
    }
    proof {
        assert(is_nearest_at(colors@, target, at));
        lemma_nearest_at(colors@, target, at);
    }
    min_color
}

/// The match is a nearest palette color: no palette color is closer to the
/// target. Among palette colors at the same distance it is the one that
/// comes first in the canonical order.
pub proof fn lemma_match_is_closest_and_first(palette: Seq<Color>, target: Color, other: int)
    requires
        0 <= other < palette.len(),
    ensures
        nearest(palette, target).gap(target) <= palette[other].gap(target),
        is_canonical(palette) && palette[other].gap(target) == nearest(palette, target).gap(
            target,
        ) ==> nearest(palette, target).rank() <= palette[other].rank(),
{
    lemma_nearest_exists(palette, target);
    let k = nearest_index(palette, target);
    assert(palette[k].gap(target) <= palette[other].gap(target));
    if is_canonical(palette) && palette[other].gap(target) == palette[k].gap(target) {
        if other < k {
            assert(palette[k].gap(target) < palette[other].gap(target));
        } else if other > k {
            assert(palette[k].rank() < palette[other].rank());
        }
    }
}

/// A target whose RGB stands in the palette is matched to that color.
pub proof fn lemma_member_matches_itself(palette: Seq<Color>, target: Color, at: int)
    requires
        0 <= at < palette.len(),
        palette[at].same_rgb(target),
    ensures
        nearest(palette, target).same_rgb(target),
{
    crate::color::lemma_gap_metric(palette[at], target);
    lemma_nearest_exists(palette, target);
    let k = nearest_index(palette, target);
    assert(palette[k].gap(target) <= palette[at].gap(target));
    crate::color::lemma_gap_metric(palette[k], target);
}

/// The match is a palette color whenever the palette holds one, and black
/// with the target's alpha under the empty palette.
pub proof fn lemma_match_is_member_or_black(palette: Seq<Color>, target: Color)
    ensures
        palette.len() > 0 ==> palette.contains(nearest(palette, target)),
        palette.len() == 0 ==> nearest(palette, target) == fallback(target),
{
    if palette.len() > 0 {
        lemma_nearest_exists(palette, target);
    }
}

} // verus!
