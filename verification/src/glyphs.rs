//! The geometry of a solid tile in half-rows.
//!
//! A scored tile is painted with block glyphs that fill the upper or lower
//! half of a cell, so a tile can cover any run of half-rows: it squashes to
//! an edge as it turns over and lifts half a row at a time as it hops.
//! Half-row 0 is the upper half of the tile's first row; a run may start or
//! end mid-row, or reach above the tile's own rows.

use vstd::prelude::*;

verus! {

/// The row holding half-row `h`.
pub open spec fn row_of(h: int) -> int {
    h / 2
}

/// `v / 2` rounded toward zero, as integer division does.
pub open spec fn half_toward_zero(v: int) -> int {
    if v >= 0 {
        v / 2
    } else {
        -((-v) / 2)
    }
}

/// One row a run of half-rows touches: which row, and whether its upper and
/// lower halves are filled.
pub open spec fn run_row(lo: int, hi: int, r: int) -> (i16, bool, bool) {
    (r as i16, lo <= 2 * r < hi, lo <= 2 * r + 1 < hi)
}

/// The rows the run of half-rows `lo..hi` touches, top to bottom.
pub open spec fn spec_run_rows(lo: i16, hi: i16) -> Seq<(i16, bool, bool)> {
    if hi <= lo {
        Seq::empty()
    } else {
        let first = row_of(lo as int);
        Seq::new(
            (row_of(hi - 1) - first + 1) as nat,
            |k: int| run_row(lo as int, hi as int, first + k),
        )
    }
}

/// The row that carries the letter: whichever fully covered row is nearest
/// the middle of the run, if any is.
pub open spec fn spec_letter_row(lo: i16, hi: i16) -> Option<i16> {
    let row = row_of(half_toward_zero(lo + hi) - 1);
    if lo <= 2 * row && 2 * row + 1 < hi {
        Some(row as i16)
    } else {
        None
    }
}

fn floor_half(v: i32) -> (r: i32)
    requires
        -0x10000 <= v <= 0x10000,
    ensures
        r == v / 2,
{
    if v >= 0 {
        v / 2
    } else {
        -((1 - v) / 2)
    }
}

/// The rows the run of half-rows `lo..hi` touches, top to bottom, each with
/// whether its upper and lower halves are filled. Nothing when `hi <= lo`.
pub fn run_rows(lo: i16, hi: i16) -> (rows: Vec<(i16, bool, bool)>)
    ensures
        rows@ == spec_run_rows(lo, hi),
{
    let mut rows: Vec<(i16, bool, bool)> = Vec::new();
    if hi <= lo {
        assert(rows@ =~= spec_run_rows(lo, hi));
        return rows;
    }
    let first = floor_half(lo as i32);
    let last = floor_half(hi as i32 - 1);
    let mut r = first;
    while r <= last
        invariant
            lo < hi,
            first == row_of(lo as int),
            last == row_of(hi - 1),
            first <= r <= last + 1,
            -0x4000 <= first,
            last <= 0x4000,
            rows@.len() == r - first,
            forall|k: int|
                0 <= k < rows@.len() ==> #[trigger] rows@[k] == run_row(
                    lo as int,
                    hi as int,
                    first + k,
                ),
        decreases last + 1 - r,
    {
        let up = lo as i32 <= 2 * r && 2 * r < hi as i32;
        let down = lo as i32 <= 2 * r + 1 && 2 * r + 1 < hi as i32;
        rows.push((r as i16, up, down));
        r += 1;
    }
    assert(rows@ =~= spec_run_rows(lo, hi));
    rows
}

/// The row that carries a tile's letter across the run `lo..hi`, if any row
/// is fully covered near its middle.
pub fn letter_row(lo: i16, hi: i16) -> (row: Option<i16>)
    ensures
        row == spec_letter_row(lo, hi),
{
    let s = lo as i32 + hi as i32;
    let mid = if s >= 0 {
        s / 2
    } else {
        -((-s) / 2)
    };
    let row = floor_half(mid - 1);
    if lo as i32 <= 2 * row && 2 * row + 1 < hi as i32 {
        Some(row as i16)
    } else {
        None
    }
}

/// The glyph for a half-width edge column, `glyphs` being `[both, upper,
/// lower]`; nothing when neither half is filled.
pub fn edge_glyph(up: bool, down: bool, glyphs: [char; 3]) -> (g: Option<char>)
    ensures
        g == if up && down {
            Some(glyphs[0])
        } else if up {
            Some(glyphs[1])
        } else if down {
            Some(glyphs[2])
        } else {
            None
        },
{
    if up && down {
        Some(glyphs[0])
    } else if up {
        Some(glyphs[1])
    } else if down {
        Some(glyphs[2])
    } else {
        None
    }
}

/// Every half-row of a run is painted, in its own row and half, and nothing
/// outside the run is.
pub proof fn lemma_runs_cover_their_half_rows(lo: i16, hi: i16, h: int)
    requires
        lo < hi,
    ensures
        lo <= h < hi ==> exists|k: int|
            0 <= k < spec_run_rows(lo, hi).len() && #[trigger] spec_run_rows(lo, hi)[k].0 == row_of(h)
                && if h % 2 == 0 {
                spec_run_rows(lo, hi)[k].1
            } else {
                spec_run_rows(lo, hi)[k].2
            },
        forall|k: int|
            0 <= k < spec_run_rows(lo, hi).len() ==> {
                let (r, up, down) = #[trigger] spec_run_rows(lo, hi)[k];
                &&& up ==> lo <= 2 * r < hi
                &&& down ==> lo <= 2 * r + 1 < hi
            },
{
    let rows = spec_run_rows(lo, hi);
    let first = row_of(lo as int);
    if lo <= h < hi {
        let k = row_of(h) - first;
        assert(0 <= k < rows.len());
        assert(rows[k] == run_row(lo as int, hi as int, first + k));
        assert(-0x4000 <= row_of(h) < 0x4000);
        assert(rows[k].0 == row_of(h));
        assert(h % 2 == 0 ==> 2 * row_of(h) == h);
        assert(h % 2 == 1 ==> 2 * row_of(h) + 1 == h);
    }
}

/// The letter rides with a tile as it hops: a tile lifted by up to two
/// half-rows still has a fully covered row for its letter.
pub proof fn lemma_a_hopping_tile_keeps_its_letter(lift: i16)
    requires
        0 <= lift <= 2,
    ensures
        spec_letter_row((1 - lift) as i16, (5 - lift) as i16) is Some,
{
}

/// What a cell of a solid tile shows: its upper half (`▀`, drawn in the
/// foreground over the background), its lower half (`▄`), a blank filled by
/// its background, or anything else.
#[derive(Clone, Copy, PartialEq, Eq, Debug, Structural)]
pub enum Glyph {
    Upper,
    Lower,
    Blank,
    Other,
}

/// The colour code of an unpainted foreground or background; painted colours
/// are `0xRRGGBB`.
pub const NO_COLOR: u32 = 0x0100_0000;

/// The colour of a painted background, if it is painted.
pub open spec fn painted(bg: u32) -> Option<u32> {
    if bg != NO_COLOR {
        Some(bg)
    } else {
        None
    }
}

/// The colours of a cell's upper and lower halves, where painted.
pub open spec fn halves_of(shown: Glyph, fg: u32, bg: u32) -> (Option<u32>, Option<u32>) {
    match shown {
        Glyph::Upper => (Some(fg), painted(bg)),
        Glyph::Lower => (painted(bg), Some(fg)),
        Glyph::Blank => (painted(bg), painted(bg)),
        Glyph::Other => (None, None),
    }
}

/// How a cell shows an upper and a lower half: one colour fills it as a
/// blank background, two colours take `▀`, and a single half its own glyph.
pub open spec fn show_halves(top: Option<u32>, bottom: Option<u32>) -> Option<(Glyph, u32, u32)> {
    match (top, bottom) {
        (Some(t), Some(b)) => if t == b {
            Some((Glyph::Blank, NO_COLOR, t))
        } else {
            Some((Glyph::Upper, t, b))
        },
        (Some(t), None) => Some((Glyph::Upper, t, NO_COLOR)),
        (None, Some(b)) => Some((Glyph::Lower, b, NO_COLOR)),
        (None, None) => None,
    }
}

pub open spec fn spec_paint_halves(
    shown: Glyph,
    fg: u32,
    bg: u32,
    up: bool,
    down: bool,
    fill: u32,
) -> Option<(Glyph, u32, u32)> {
    let (top, bottom) = halves_of(shown, fg, bg);
    show_halves(
        if up {
            Some(fill)
        } else {
            top
        },
        if down {
            Some(fill)
        } else {
            bottom
        },
    )
}

/// Paint the upper and/or lower half of a cell showing `shown` in `fg` over
/// `bg` with `fill`, keeping any half a neighbouring tile already painted
/// there, so a hopping tile can butt up against another. Returns the glyph
/// and colours to show, or nothing when the cell is left as it is.
pub fn paint_halves(shown: Glyph, fg: u32, bg: u32, up: bool, down: bool, fill: u32) -> (r: Option<
    (Glyph, u32, u32),
>)
    ensures
        r == spec_paint_halves(shown, fg, bg, up, down, fill),
{
    let under = if bg != NO_COLOR {
        Some(bg)
    } else {
        None
    };
    let (mut top, mut bottom) = match shown {
        Glyph::Upper => (Some(fg), under),
        Glyph::Lower => (under, Some(fg)),
        Glyph::Blank => (under, under),
        Glyph::Other => (None, None),
    };
    if up {
        top = Some(fill);
    }
    if down {
        bottom = Some(fill);
    }
    match (top, bottom) {
        (Some(t), Some(b)) => if t == b {
            Some((Glyph::Blank, NO_COLOR, t))
        } else {
            Some((Glyph::Upper, t, b))
        },
        (Some(t), None) => Some((Glyph::Upper, t, NO_COLOR)),
        (None, Some(b)) => Some((Glyph::Lower, b, NO_COLOR)),
        (None, None) => None,
    }
}

/// Painting one half of a cell leaves the other half as it was, and the
/// painted half shows the fill, whenever the fill is a painted colour.
pub proof fn lemma_painting_keeps_the_other_half(
    shown: Glyph,
    fg: u32,
    bg: u32,
    up: bool,
    down: bool,
    fill: u32,
)
    requires
        fill != NO_COLOR,
        fg != NO_COLOR,
        up || down,
    ensures
        spec_paint_halves(shown, fg, bg, up, down, fill) matches Some((g, f, b)) && halves_of(g, f, b)
            == (if up {
            Some(fill)
        } else {
            halves_of(shown, fg, bg).0
        }, if down {
            Some(fill)
        } else {
            halves_of(shown, fg, bg).1
        }),
{
}

} // verus!
