use crate::color::{Color, OPAQUE};
use vstd::prelude::*;

verus! {

/// A sequence of colors is canonical when every entry is fully opaque and the
/// entries stand in strictly ascending canonical order, so none occurs twice.
pub open spec fn is_canonical(s: Seq<Color>) -> bool {
    &&& forall|i: int| 0 <= i < s.len() ==> (#[trigger] s[i]).a == OPAQUE
    &&& forall|i: int, j: int|
        0 <= i < j < s.len() ==> (#[trigger] s[i]).rank() < (#[trigger] s[j]).rank()
}

/// The opaque versions of the colors that occur in `pixels`.
pub open spec fn opaque_colors(pixels: Seq<Color>) -> Set<Color> {
    Set::new(
        |c: Color| exists|i: int| 0 <= i < pixels.len() && (#[trigger] pixels[i]).opaque() == c,
    )
}

/// The number of colors that differ in red, green or blue: no palette holds
/// more.
pub const MAX_COLORS: usize = 16777216;

/// A canonical sequence holds at most one entry for each RGB value.
pub proof fn lemma_canonical_is_bounded(s: Seq<Color>)
    requires
        is_canonical(s),
    ensures
        s.len() <= MAX_COLORS,
{
    if s.len() > 0 {
        lemma_rank_grows(s, s.len() - 1);
    }
}

/// In a canonical sequence the entry at position `i` has at least `i`
/// RGB values below its own.
proof fn lemma_rank_grows(s: Seq<Color>, i: int)
    requires
        is_canonical(s),
        0 <= i < s.len(),
    ensures
        s[i].rank() >= 256 * i + 255,
    decreases i,
{
    if i > 0 {
        lemma_rank_grows(s, i - 1);
        assert(s[i - 1].rank() < s[i].rank());
        assert(s[i - 1].a == OPAQUE && s[i].a == OPAQUE);
    }
}

/// The palette of a run of pixels: the canonical sequence of their opaque
/// colors. There is exactly one (see `lemma_palette_of`).
pub open spec fn palette_of(pixels: Seq<Color>) -> Seq<Color> {
    choose|s: Seq<Color>| is_canonical(s) && s.to_set() == opaque_colors(pixels)
}

/// Any canonical sequence that holds the opaque colors of `pixels` is their
/// palette.
pub proof fn lemma_palette_of(pixels: Seq<Color>, s: Seq<Color>)
    requires
        is_canonical(s),
        s.to_set() == opaque_colors(pixels),
    ensures
        palette_of(pixels) == s,
{
    let p = palette_of(pixels);
    assert(is_canonical(p) && p.to_set() == opaque_colors(pixels));
    lemma_canonical_is_unique(p, s);
}

/// A set of opaque colors, held in canonical order.
#[derive(Debug)]
pub struct Palette {
    colors: Vec<Color>,
}

impl View for Palette {
    type V = Seq<Color>;

    closed spec fn view(&self) -> Seq<Color> {
        self.colors@
    }
}

impl Clone for Palette {
    fn clone(&self) -> (copy: Self)
        ensures
            copy@ == self@,
    {
        proof {
            use_type_invariant(self);
        }
        let colors = self.colors.clone();
        assert(colors@ =~= self.colors@);
        Palette { colors }
    }
}

impl Palette {
    #[verifier::type_invariant]
    spec fn canonical(&self) -> bool {
        is_canonical(self.colors@)
    }

    /// The empty palette.
    pub fn new() -> (p: Palette)
        ensures
            p@ == Seq::<Color>::empty(),
    {
        Palette { colors: Vec::new() }
    }

    /// Number of colors held.
    pub fn len(&self) -> (n: usize)
        ensures
            n == self@.len(),
    {
        self.colors.len()
    }

    pub fn is_empty(&self) -> (e: bool)
        ensures
            e == (self@.len() == 0),
    {
        self.colors.len() == 0
    }

    /// The color at position `index` of the canonical order, if there is one.
    pub fn get(&self, index: usize) -> (c: Option<Color>)
        ensures
            c == (if index < self@.len() {
                Some(self@[index as int])
            } else {
                None
            }),
    {
        if index < self.colors.len() {
            Some(self.colors[index])
        } else {
            None
        }
    }

    /// The colors in canonical order.
    pub fn colors(&self) -> (all: &Vec<Color>)
        ensures
            all@ == self@,
            is_canonical(all@),
    {
        proof {
            use_type_invariant(self);
        }
        &self.colors
    }

    /// Whether the palette holds the opaque version of `c`.
    pub fn contains(&self, c: Color) -> (found: bool)
        ensures
            found == self@.contains(c.opaque()),
    {
        proof {
            use_type_invariant(self);
        }
        let key = c.opaque();
        let at = position(&self.colors, key);
        at < self.colors.len() && !key.precedes(self.colors[at])
    }

    /// The palette of the colors in `pixels`: each one made opaque, each
    /// kept once, in canonical order.
    pub fn from_colors(pixels: &[Color]) -> (p: Palette)
        ensures
            p@ == palette_of(pixels@),
            is_canonical(p@),
            p@.to_set() == opaque_colors(pixels@),
            p@.len() <= pixels@.len(),
            p@.len() <= MAX_COLORS,
    {
        let mut colors: Vec<Color> = Vec::new();
        let n = pixels.len();
        let mut i: usize = 0;
        assert(colors@.to_set() =~= opaque_colors(pixels@.take(0)));
        while i < n
            invariant
                i <= n,
                n == pixels@.len(),
                is_canonical(colors@),
                colors@.to_set() == opaque_colors(pixels@.take(i as int)),
                colors@.len() <= i,
            decreases n - i,
        {
            let ghost seen = pixels@.take(i as int);
            let ghost more = pixels@.take(i + 1);
            insert_sorted(&mut colors, pixels[i]);
            proof {
                let key = pixels@[i as int].opaque();
                assert forall|x: Color| opaque_colors(more).contains(x) <==> opaque_colors(
                    seen,
                ).insert(key).contains(x) by {
                    if opaque_colors(more).contains(x) {
                        let w = choose|w: int| 0 <= w < more.len() && (#[trigger] more[w]).opaque() == x;
                        if w < i {
                            assert(seen[w].opaque() == x);
                        }
                    }
                    if opaque_colors(seen).contains(x) {
                        let w = choose|w: int| 0 <= w < seen.len() && (#[trigger] seen[w]).opaque() == x;
                        assert(more[w].opaque() == x);
                    }
                    if x == key {
                        assert(more[i as int].opaque() == x);
                    }
                }
                assert(opaque_colors(more) =~= opaque_colors(seen).insert(key));
            }
            i = i + 1;
        }
        assert(pixels@.take(n as int) =~= pixels@);
        proof {
            lemma_palette_of(pixels@, colors@);
            lemma_canonical_is_bounded(colors@);
        }
        Palette { colors }
    }
}

/// Number of entries that come strictly before `c` in the canonical order.
fn position(colors: &Vec<Color>, c: Color) -> (at: usize)
    requires
        is_canonical(colors@),
    ensures
        at <= colors@.len(),
        forall|i: int| 0 <= i < at ==> (#[trigger] colors@[i]).rank() < c.rank(),
        forall|i: int| at <= i < colors@.len() ==> c.rank() <= (#[trigger] colors@[i]).rank(),
{
    let mut low: usize = 0;
    let mut high: usize = colors.len();
    while low < high
        invariant
            low <= high <= colors@.len(),
            is_canonical(colors@),
            forall|i: int| 0 <= i < low ==> (#[trigger] colors@[i]).rank() < c.rank(),
            forall|i: int| high <= i < colors@.len() ==> c.rank() <= (
            #[trigger] colors@[i]).rank(),
        decreases high - low,
    {
        let mid: usize = low + (high - low) / 2;
        if colors[mid].precedes(c) {
            low = mid + 1;
        } else {
            high = mid;
        }
    }
    low
}

/// Adds the opaque version of `c` to a canonical vector, at its place in
/// the order. Returns whether the color was new.
fn insert_sorted(colors: &mut Vec<Color>, c: Color) -> (added: bool)
    requires
        is_canonical(old(colors)@),
    ensures
        is_canonical(final(colors)@),
        added == !old(colors)@.contains(c.opaque()),
        final(colors)@.to_set() == old(colors)@.to_set().insert(c.opaque()),
        !added ==> final(colors)@ == old(colors)@,
        added ==> final(colors)@.len() == old(colors)@.len() + 1,
{
    let key = c.opaque();
    let at = position(colors, key);
    if at < colors.len() && !key.precedes(colors[at]) {
        proof {
            let s = colors@;
            assert(s[at as int] == key);
            assert(s.to_set().insert(key) =~= s.to_set());
        }
        false
    } else {
        let ghost before = colors@;
        colors.insert(at, key);
        proof {
            let after = colors@;
            assert(after == before.insert(at as int, key));
            assert forall|i: int, j: int| 0 <= i < j < after.len() implies (
            #[trigger] after[i]).rank() < (#[trigger] after[j]).rank() by {
                if i < at && j > at {
                    assert(after[i] == before[i]);
                    assert(after[j] == before[j - 1]);
                }
            }
            assert(!before.contains(key)) by {
                if before.contains(key) {
                    let w = choose|w: int| 0 <= w < before.len() && before[w] == key;
                    assert(before[w].rank() == key.rank());
                }
            }
            assert forall|x: Color| after.to_set().contains(x) <==> before.to_set().insert(
                key,
            ).contains(x) by {
                if after.contains(x) {
                    let w = choose|w: int| 0 <= w < after.len() && after[w] == x;
                    if w < at {
                        assert(before[w] == x);
                    } else if w > at {
                        assert(before[w - 1] == x);
                    }
                }
                if before.contains(x) {
                    let w = choose|w: int| 0 <= w < before.len() && before[w] == x;
                    if w < at {
                        assert(after[w] == x);
                    } else {
                        assert(after[w + 1] == x);
                    }
                }
                if x == key {
                    assert(after[at as int] == x);
                }
            }
            assert(after.to_set() =~= before.to_set().insert(key));
        }
        true
    }
}

/// Two canonical sequences that hold the same colors are the same sequence:
/// a set of colors has one palette.
pub proof fn lemma_canonical_is_unique(s: Seq<Color>, t: Seq<Color>)
    requires
        is_canonical(s),
        is_canonical(t),
        s.to_set() == t.to_set(),
    ensures
        s == t,
    decreases s.len(),
{
    if s.len() == 0 {
        if t.len() > 0 {
            assert(t.to_set().contains(t[0]));
            assert(s.contains(t[0]));
        }
        assert(s =~= t);
    } else {
        assert(s.to_set().contains(s[0]));
        assert(t.contains(s[0]));
        let tj = choose|j: int| 0 <= j < t.len() && t[j] == s[0];
        assert(t.to_set().contains(t[0]));
        assert(s.contains(t[0]));
        let si = choose|i: int| 0 <= i < s.len() && s[i] == t[0];
        assert(s[0] == t[0]) by {
            if si > 0 && tj > 0 {
                assert(s[0].rank() < s[si].rank());
                assert(t[0].rank() < t[tj].rank());
            }
        }
        let s1 = s.drop_first();
        let t1 = t.drop_first();
        assert forall|x: Color| s1.to_set().contains(x) <==> t1.to_set().contains(x) by {
            if s1.contains(x) {
                let w = choose|w: int| 0 <= w < s1.len() && s1[w] == x;
                assert(s[w + 1] == x);
                assert(s[0].rank() < s[w + 1].rank());
                assert(s.to_set().contains(x));
                assert(t.contains(x));
                let v = choose|v: int| 0 <= v < t.len() && t[v] == x;
                assert(v > 0);
                assert(t1[v - 1] == x);
            }
            if t1.contains(x) {
                let w = choose|w: int| 0 <= w < t1.len() && t1[w] == x;
                assert(t[w + 1] == x);
                assert(t[0].rank() < t[w + 1].rank());
                assert(t.to_set().contains(x));
                assert(s.contains(x));
                let v = choose|v: int| 0 <= v < s.len() && s[v] == x;
                assert(v > 0);
                assert(s1[v - 1] == x);
            }
        }
        assert(s1.to_set() =~= t1.to_set());
        assert(is_canonical(s1)) by {
            assert forall|i: int, j: int| 0 <= i < j < s1.len() implies (#[trigger] s1[i]).rank() < (
            #[trigger] s1[j]).rank() by {
                assert(s1[i] == s[i + 1] && s1[j] == s[j + 1]);
            }
            assert forall|i: int| 0 <= i < s1.len() implies (#[trigger] s1[i]).a == OPAQUE by {
                assert(s1[i] == s[i + 1]);
            }
        }
        assert(is_canonical(t1)) by {
            assert forall|i: int, j: int| 0 <= i < j < t1.len() implies (#[trigger] t1[i]).rank() < (
            #[trigger] t1[j]).rank() by {
                assert(t1[i] == t[i + 1] && t1[j] == t[j + 1]);
            }
            assert forall|i: int| 0 <= i < t1.len() implies (#[trigger] t1[i]).a == OPAQUE by {
                assert(t1[i] == t[i + 1]);
            }
        }
        lemma_canonical_is_unique(s1, t1);
        assert(s =~= t) by {
            assert(s.len() == t.len());
            assert forall|i: int| 0 <= i < s.len() implies s[i] == t[i] by {
                if i > 0 {
                    assert(s1[i - 1] == t1[i - 1]);
                }
            }
        }
    }
}

} // verus!
