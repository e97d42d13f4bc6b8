//! Where things go on the screen: how the rows of a window are shared out
//! between the title, the board, the message, the keyboard and the hints,
//! and how large the statistics panel can be.
//!
//! Spare height is spent in order of how much it adds: full-size tiles, then
//! the subtitle, then keycaps. A finished game's definition may push the
//! keyboard down, but never moves the board.

use vstd::prelude::*;

use crate::game::{MAX_GUESSES, WORD_LEN};

verus! {

/// A full tile is 5x3 cells on a 6-column pitch.
pub const TILE_W: u16 = 5;
pub const TILE_PITCH: u16 = 6;
pub const TILE_H: u16 = 3;
/// Short windows get one-row tiles on a 4-column pitch, with a blank row
/// between rows when there is room for one.
pub const SMALL_W: u16 = 3;
pub const SMALL_PITCH: u16 = 4;
/// Six one-row tiles with a blank row between each.
pub const SPACED_H: u16 = 11;
/// The widest keyboard row: 9 keys of 3 columns plus the gaps.
pub const KEYBOARD_W: u16 = 35;
/// Everything but the board and subtitle: title, message, a flat keyboard
/// and the hints, with the gaps between them.
pub const CHROME_H: u16 = 11;
/// Extra rows the keyboard takes when each key gets a lip beneath it.
pub const KEYCAP_H: u16 = 3;
pub const MIN_W: u16 = 37;
pub const MIN_H: u16 = 17;
/// Tall enough for full-size tiles.
pub const TALL_H: u16 = 29;

/// The statistics panel's widest and its height without a definition.
pub const STATS_W: u16 = 42;
pub const STATS_H: u16 = 15;

/// How the rows of a window large enough to play in are shared out.
#[derive(Clone, Copy, PartialEq, Eq, Debug, Structural)]
pub struct Screen {
    /// Full-size tiles rather than one-row ones.
    pub tall: bool,
    pub board_h: u16,
    /// Row pitch of one-row tiles: 2 leaves a gap, 1 packs them tight.
    pub small_rows: u16,
    pub subtitle: bool,
    pub keycaps: bool,
    pub keyboard_h: u16,
    /// The margin above the title.
    pub top: u16,
    /// Rows a long definition takes from the spare rows at the bottom.
    pub pushed: u16,
    /// 1 when the definition's second line takes the gap under the message.
    pub gap_used: u16,
}

pub open spec fn ind(b: bool) -> int {
    if b {
        1
    } else {
        0
    }
}

pub open spec fn spec_board_h(height: u16) -> u16 {
    if height >= TALL_H {
        (TILE_H * MAX_GUESSES) as u16
    } else if height >= SPACED_H + CHROME_H {
        SPACED_H
    } else {
        MAX_GUESSES as u16
    }
}

/// The rows a layout takes without a definition's extra lines.
pub open spec fn base_h(board_h: int, subtitle: bool, keyboard_h: int) -> int {
    board_h + CHROME_H + ind(subtitle) + keyboard_h - 3
}

/// The layout of a `width` by `height` window when a definition of
/// `gloss_lines` lines is showing under the board (0 when none is), or
/// `None` when the window is too small to play in.
pub open spec fn spec_screen(width: u16, height: u16, gloss_lines: u16) -> Option<Screen> {
    if width < MIN_W || height < MIN_H {
        None
    } else {
        let tall = height >= TALL_H;
        let board_h = spec_board_h(height);
        let spare = height - board_h - CHROME_H;
        let subtitle = spare >= 1;
        let keycaps = tall && spare >= 1 + KEYCAP_H;
        let keyboard_h: u16 = if keycaps {
            6
        } else {
            3
        };
        let base = base_h(board_h as int, subtitle, keyboard_h as int);
        let top = (height - base) / 2;
        let bottom = height - base - top;
        let extra = if gloss_lines >= 2 {
            gloss_lines - 2
        } else {
            0
        };
        Some(
            Screen {
                tall,
                board_h,
                small_rows: if board_h == SPACED_H {
                    2
                } else {
                    1
                },
                subtitle,
                keycaps,
                keyboard_h,
                top: top as u16,
                pushed: if extra < bottom {
                    extra as u16
                } else {
                    bottom as u16
                },
                gap_used: if gloss_lines >= 2 {
                    1
                } else {
                    0
                },
            },
        )
    }
}

/// The heights of the bands down the screen: margin, title, subtitle, gap,
/// board, gap, message, gap, keyboard, gap, hints. What is left below them
/// is the bottom margin.
pub open spec fn spec_bands(s: Screen) -> Seq<int> {
    seq![
        s.top as int,
        1,
        ind(s.subtitle),
        1,
        s.board_h as int,
        1,
        2 + s.gap_used + s.pushed,
        1 - s.gap_used,
        s.keyboard_h as int,
        1,
        1,
    ]
}

pub open spec fn band_sum(b: Seq<int>, n: int) -> int
    decreases n,
{
    if n <= 0 {
        0
    } else {
        band_sum(b, n - 1) + b[n - 1]
    }
}

/// Share out a `width` by `height` window, `gloss_lines` being how many lines
/// the definition under the board wraps to (0 while none shows). `None`
/// when the window is too small to play in.
pub fn screen(width: u16, height: u16, gloss_lines: u16) -> (s: Option<Screen>)
    ensures
        s == spec_screen(width, height, gloss_lines),
{
    if width < MIN_W || height < MIN_H {
        return None;
    }
    let tall = height >= TALL_H;
    let board_h: u16 = if tall {
        TILE_H * MAX_GUESSES as u16
    } else if height >= SPACED_H + CHROME_H {
        SPACED_H
    } else {
        MAX_GUESSES as u16
    };
    let small_rows: u16 = if board_h == SPACED_H {
        2
    } else {
        1
    };
    let spare = height - board_h - CHROME_H;
    let subtitle = spare >= 1;
    let keycaps = tall && spare >= 1 + KEYCAP_H;
    let keyboard_h: u16 = if keycaps {
        6
    } else {
        3
    };
    let base = board_h + CHROME_H + if subtitle {
        1
    } else {
        0
    } + keyboard_h - 3;
    let top = (height - base) / 2;
    let bottom = height - base - top;
    let extra = gloss_lines.saturating_sub(2);
    let pushed = if extra < bottom {
        extra
    } else {
        bottom
    };
    let gap_used: u16 = if gloss_lines >= 2 {
        1
    } else {
        0
    };
    Some(
        Screen { tall, board_h, small_rows, subtitle, keycaps, keyboard_h, top, pushed, gap_used },
    )
}

impl Screen {
    /// The heights of the bands down the screen, as `spec_bands` lists them.
    pub fn bands(&self) -> (b: [u16; 11])
        requires
            self.gap_used <= 1,
            self.pushed as int + 3 <= u16::MAX,
        ensures
            forall|i: int| 0 <= i < 11 ==> #[trigger] b@[i] as int == spec_bands(*self)[i],
    {
        [
            self.top,
            1,
            if self.subtitle {
                1
            } else {
                0
            },
            1,
            self.board_h,
            1,
            2 + self.gap_used + self.pushed,
            1 - self.gap_used,
            self.keyboard_h,
            1,
            1,
        ]
    }

    /// The board's width: five tiles on their pitch, less the last gap.
    pub fn board_w(&self) -> (w: u16)
        ensures
            w == if self.tall {
                TILE_PITCH * WORD_LEN - 1
            } else {
                SMALL_PITCH * WORD_LEN - 1
            },
    {
        if self.tall {
            TILE_PITCH * WORD_LEN as u16 - 1
        } else {
            SMALL_PITCH * WORD_LEN as u16 - 1
        }
    }
}

/// The bands of any playable layout fill no more than the window.
pub proof fn lemma_screen_fits(width: u16, height: u16, gloss_lines: u16)
    requires
        spec_screen(width, height, gloss_lines) is Some,
    ensures
        ({
            let s = spec_screen(width, height, gloss_lines)->0;
            &&& s.gap_used <= 1
            &&& s.pushed as int + 3 <= u16::MAX
            &&& band_sum(spec_bands(s), 11) <= height
        }),
{
    let s = spec_screen(width, height, gloss_lines)->0;
    let b = spec_bands(s);
    assert(band_sum(b, 11) == s.top + ind(s.subtitle) + s.board_h + s.keyboard_h + s.pushed + 8) by {
        reveal_with_fuel(band_sum, 12);
    }
}

/// The board does not move when a definition appears: its band starts on
/// the same row and has the same height whatever the definition's length.
pub proof fn lemma_board_stays_put(width: u16, height: u16, g1: u16, g2: u16)
    requires
        spec_screen(width, height, g1) is Some,
    ensures
        spec_screen(width, height, g2) is Some,
        ({
            let s1 = spec_screen(width, height, g1)->0;
            let s2 = spec_screen(width, height, g2)->0;
            &&& band_sum(spec_bands(s1), 4) == band_sum(spec_bands(s2), 4)
            &&& s1.board_h == s2.board_h
            &&& s1.tall == s2.tall
        }),
{
    let s1 = spec_screen(width, height, g1)->0;
    let s2 = spec_screen(width, height, g2)->0;
    assert(band_sum(spec_bands(s1), 4) == s1.top + 2 + ind(s1.subtitle)) by {
        reveal_with_fuel(band_sum, 5);
    }
    assert(band_sum(spec_bands(s2), 4) == s2.top + 2 + ind(s2.subtitle)) by {
        reveal_with_fuel(band_sum, 5);
    }
}

/// The statistics panel: its size and place in the window, and the rows
/// inside it above the numbers.
#[derive(Clone, Copy, PartialEq, Eq, Debug, Structural)]
pub struct Panel {
    pub x: u16,
    pub y: u16,
    pub w: u16,
    pub h: u16,
    /// A blank row under the top border.
    pub top_gap: u16,
    /// Lines of the definition shown under the verdict.
    pub gloss: u16,
    /// A blank row under the definition.
    pub gap_after: u16,
}

/// The panel's width in a window `width` columns wide.
pub open spec fn panel_w(width: u16) -> u16 {
    let room = if width >= 2 {
        width - 2
    } else {
        0
    };
    if room < STATS_W {
        room as u16
    } else {
        STATS_W
    }
}

/// The panel's height with `gloss` lines of definition and the given gaps;
/// `result` is whether a finished game's answer heads it.
pub open spec fn panel_h(result: bool, gloss: int, gap_after: int, top_gap: int) -> int {
    STATS_H - 1 + top_gap + ind(result) * (1 + gloss) + gap_after
}

/// The panel's rows: the whole definition if the window has room, giving up
/// first the gap under the answer, then the one above it, and only then
/// lines of the definition, never below two.
pub open spec fn panel_rows(result: bool, wanted: u16, height: u16) -> (u16, u16, u16) {
    let r = ind(result);
    if panel_h(result, wanted as int, r, 1) <= height {
        (wanted, r as u16, 1)
    } else if panel_h(result, wanted as int, 0, 1) <= height {
        (wanted, 0, 1)
    } else if panel_h(result, wanted as int, 0, 0) <= height {
        (wanted, 0, 0)
    } else if wanted <= 2 {
        (wanted, 0, 0)
    } else if result && height as int - 15 > 2 {
        ((height - 15) as u16, 0, 0)
    } else {
        (2, 0, 0)
    }
}

pub open spec fn spec_panel(width: u16, height: u16, result: bool, wanted: u16) -> Panel {
    let (gloss, gap_after, top_gap) = panel_rows(result, wanted, height);
    let w = panel_w(width);
    let full = panel_h(result, gloss as int, gap_after as int, top_gap as int);
    let h: u16 = if full <= height {
        full as u16
    } else {
        height
    };
    Panel {
        x: ((width - w) / 2) as u16,
        y: ((height - h) / 2) as u16,
        w,
        h,
        top_gap,
        gloss,
        gap_after,
    }
}

/// The width the definition wraps to inside the panel: within the border
/// and a two-column margin each side.
pub fn panel_text_w(width: u16) -> (t: u16)
    ensures
        t == if panel_w(width) >= 6 {
            panel_w(width) - 6
        } else {
            0
        },
{
    let w = if width.saturating_sub(2) < STATS_W {
        width.saturating_sub(2)
    } else {
        STATS_W
    };
    w.saturating_sub(6)
}

/// Size and place the statistics panel in a `width` by `height` window.
/// `result` is whether a finished game's answer heads it, and `wanted` how
/// many lines its definition wraps to.
pub fn stats_panel(width: u16, height: u16, result: bool, wanted: u16) -> (p: Panel)
    requires
        wanted <= u16::MAX - 18,
    ensures
        p == spec_panel(width, height, result, wanted),
        p.w <= width,
        p.h <= height,
        result ==> p.gloss >= if wanted < 2 {
            wanted
        } else {
            2
        },
        p.gloss <= wanted || p.gloss == 2,
        panel_h(result, wanted as int, ind(result), 1) <= height ==> p.gloss == wanted,
{
    let w = if width.saturating_sub(2) < STATS_W {
        width.saturating_sub(2)
    } else {
        STATS_W
    };
    let r: u16 = if result {
        1
    } else {
        0
    };
    let mut gloss = wanted;
    let mut gap_after = r;
    let mut top_gap: u16 = 1;
    while STATS_H - 1 + top_gap + r * (1 + gloss) + gap_after > height
        invariant
            gloss <= wanted <= u16::MAX - 18,
            r == ind(result),
            gap_after <= r,
            top_gap <= 1,
            gap_after > 0 ==> top_gap == 1 && gloss == wanted,
            top_gap == 0 ==> gap_after == 0,
            gloss < wanted ==> gap_after == 0 && top_gap == 0 && gloss >= 2,
            gloss < wanted ==> forall|g: int|
                gloss < g <= wanted ==> panel_h(result, g, 0, 0) > height,
            gap_after < r ==> panel_h(result, wanted as int, r as int, 1) > height,
            top_gap == 0 ==> panel_h(result, wanted as int, 0, 1) > height,
        ensures
            panel_h(result, gloss as int, gap_after as int, top_gap as int) <= height || (gloss
                <= 2 && gap_after == 0 && top_gap == 0),
            gloss <= wanted <= u16::MAX - 18,
            gap_after <= r,
            top_gap <= 1,
            gap_after > 0 ==> top_gap == 1 && gloss == wanted,
            top_gap == 0 ==> gap_after == 0,
            gloss < wanted ==> gap_after == 0 && top_gap == 0 && gloss >= 2,
            gloss < wanted ==> forall|g: int|
                gloss < g <= wanted ==> panel_h(result, g, 0, 0) > height,
            gap_after < r ==> panel_h(result, wanted as int, r as int, 1) > height,
            top_gap == 0 ==> panel_h(result, wanted as int, 0, 1) > height,
        decreases gloss + gap_after + top_gap,
    {
        if gap_after > 0 {
            gap_after = 0;
        } else if top_gap > 0 {
            top_gap = 0;
        } else if gloss > 2 {
            gloss -= 1;
        } else {
            break;
        }
    }
    let full = STATS_H - 1 + top_gap + r * (1 + gloss) + gap_after;
    let h = if full <= height {
        full
    } else {
        height
    };
    Panel { x: (width - w) / 2, y: (height - h) / 2, w, h, top_gap, gloss, gap_after }
}

} // verus!
