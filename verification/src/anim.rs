//! When the animations layered over the game start and end.
//!
//! The rules in `game` settle instantly. This schedule only decides how that
//! settled state is *shown* over the following second or so: when tiles flip
//! over, when a win bounces, when the stats panel opens, how long a note
//! stays, and whether input must wait. Times are nanoseconds on a clock the
//! caller keeps; every decision is a pure function of them, so a slow or
//! dropped frame never knocks anything out of step.

use vstd::prelude::*;

use crate::daily::{mix, spec_mix};
use crate::game::WORD_LEN;

verus! {

pub const MS: u64 = 1_000_000;

pub const FLIP: u64 = 440 * MS;
pub const FLIP_STAGGER: u64 = 230 * MS;
pub const SHAKE: u64 = 440 * MS;
pub const POP: u64 = 170 * MS;
pub const KEY_GLOW: u64 = 260 * MS;
pub const HOP: u64 = 380 * MS;
pub const HOP_STAGGER: u64 = 95 * MS;
/// Pause between the last tile landing and the first one hopping.
pub const HOP_DELAY: u64 = 80 * MS;
pub const DEAL: u64 = 260 * MS;
pub const DEAL_STAGGER: u64 = 38 * MS;
pub const SHIMMER: u64 = 1200 * MS;
pub const TOAST: u64 = 1900 * MS;
/// Pause after a game's celebration before the stats panel opens by itself.
pub const STATS_DELAY: u64 = 1300 * MS;
pub const STATS_GROW: u64 = 750 * MS;
pub const STATS_STAGGER: u64 = 70 * MS;
/// Staggered parts of the stats panel: the numbers, then one per bar.
pub const STATS_PARTS: u64 = 7;
/// Stop ambient motion (the caret pulse) after this long without a key.
pub const IDLE: u64 = 30_000 * MS;

/// The frame interval while something moves, while only the caret pulses,
/// and when nothing moves at all.
pub const FRAME_BUSY: u64 = 16 * MS;
pub const FRAME_AMBIENT: u64 = 50 * MS;
pub const FRAME_IDLE: u64 = 1_000 * MS;

/// Times the schedule takes: about 146 years of nanoseconds, so that adding
/// any of the durations above stays far from overflow.
pub const TIME_LIMIT: u64 = 0x4000_0000_0000_0000;

/// How far past the latest time a caller gives the schedule may look ahead.
pub const SLACK: u64 = 10_000 * MS;

/// The golden-ratio increment of splitmix64.
pub const GOLDEN: u64 = 0x9e37_79b9_7f4a_7c15;

/// Where one tile of the row being revealed is in its turn.
#[derive(Clone, Copy, PartialEq, Eq, Debug, Structural)]
pub enum Flip {
    /// Still waiting its turn; shown as typed.
    Pending,
    /// Turning over, this many nanoseconds into its `FLIP`. The scored face
    /// shows from halfway.
    Turning(u64),
    Done,
}

/// Where tile `col` of `row` is in its turn at `now`: tiles turn one after
/// another, left to right, and every other row is settled.
pub open spec fn spec_flip(a: Anim, row: usize, col: int, now: u64) -> Flip {
    match a.reveal {
        Some((r, t0)) => if r != row {
            Flip::Done
        } else {
            let start = t0 + FLIP_STAGGER * col;
            if now < start {
                Flip::Pending
            } else if now - start >= FLIP {
                Flip::Done
            } else {
                Flip::Turning((now - start) as u64)
            }
        },
        None => Flip::Done,
    }
}

pub struct Anim {
    /// Row whose tiles are flipping, and when the first one started.
    pub reveal: Option<(usize, u64)>,
    /// Winning row and when its first tile hops.
    pub bounce: Option<(usize, u64)>,
    pub shake: Option<u64>,
    /// When each tile of the input row last received a letter.
    pub typed: [Option<u64>; WORD_LEN],
    pub key: Option<(char, u64)>,
    pub deal: u64,
    pub shimmer: u64,
    pub toast: Option<(String, u64)>,
    /// When the stats panel opened, or will open if that is still ahead.
    pub stats: Option<u64>,
    pub epoch: u64,
    pub last_input: u64,
    pub focused: bool,
    pub rng: u64,
}

/// When a reveal that started at `t` has every tile landed.
pub open spec fn reveal_end_at(t: u64) -> int {
    t + FLIP_STAGGER * (WORD_LEN - 1) + FLIP
}

/// When a bounce that started at `t` has every tile back down.
pub open spec fn bounce_end_at(t: u64) -> int {
    t + HOP_STAGGER * (WORD_LEN - 1) + HOP
}

pub open spec fn time_ok(t: u64) -> bool {
    t <= TIME_LIMIT
}

/// A time at most a couple of seconds past the caller's: a win's bounce.
pub open spec fn soon(t: u64) -> bool {
    t <= TIME_LIMIT + 2_000 * MS
}

/// A time the schedule may hold: a caller's time, or one scheduled from it
/// a few seconds ahead.
pub open spec fn in_range(t: u64) -> bool {
    t <= TIME_LIMIT + SLACK
}

/// `a` is a schedule just begun at `now` with random stream `seed`: the
/// tiles deal in and the title shimmers, and nothing else moves.
pub open spec fn spec_started(a: Anim, now: u64, seed: u64) -> bool {
    &&& a.reveal is None
    &&& a.bounce is None
    &&& a.shake is None
    &&& forall|i: int| 0 <= i < WORD_LEN ==> #[trigger] a.typed@[i] is None
    &&& a.key is None
    &&& a.deal == now
    &&& a.shimmer == now
    &&& a.toast is None
    &&& a.stats is None
    &&& a.epoch == now
    &&& a.last_input == now
    &&& a.focused
    &&& a.rng == seed
}

/// `b` is `a` restarted for a new game at `now`: as a fresh schedule, but
/// keeping the clock's origin, focus and the random stream.
pub open spec fn spec_new_game(a: Anim, now: u64, b: Anim) -> bool {
    &&& spec_started(Anim { epoch: now, focused: true, rng: b.rng, ..b }, now, b.rng)
    &&& b.epoch == a.epoch
    &&& b.focused == a.focused
    &&& b.rng == a.rng
}

/// When the statistics panel opens after a result: a moment after the bounce
/// ends on a win, or after the last tile lands otherwise.
pub open spec fn stats_after_result(a: Anim) -> Option<u64> {
    match a.spec_bounce_end() {
        Some(e) => Some((e + STATS_DELAY) as u64),
        None => match a.spec_reveal_end() {
            Some(e) => Some((e + STATS_DELAY) as u64),
            None => None,
        },
    }
}

/// `b` is `a` after a letter landed in column `col` at `now`.
pub open spec fn spec_typed(a: Anim, col: int, letter: char, now: u64, b: Anim) -> bool {
    &&& b.typed@ == a.typed@.update(col, Some(now))
    &&& b == (Anim { typed: b.typed, key: Some((letter, now)), toast: None, ..a })
}

/// `b` is `a` after the letter in column `col` was erased.
pub open spec fn spec_erased(a: Anim, col: int, b: Anim) -> bool {
    &&& b.typed@ == if 0 <= col < WORD_LEN {
        a.typed@.update(col, None)
    } else {
        a.typed@
    }
    &&& b == (Anim { typed: b.typed, toast: None, ..a })
}

/// `b` is `a` after `row` started turning over at `now`; a win queues the
/// bounce, and the shimmer with it, for a moment after the last tile lands.
pub open spec fn spec_reveal_row(a: Anim, row: usize, won: bool, now: u64, b: Anim) -> bool {
    let hop = (reveal_end_at(now) + HOP_DELAY) as u64;
    &&& forall|i: int| 0 <= i < WORD_LEN ==> #[trigger] b.typed@[i] is None
    &&& b == (Anim {
        reveal: Some((row, now)),
        typed: b.typed,
        toast: None,
        bounce: if won {
            Some((row, hop))
        } else {
            a.bounce
        },
        shimmer: if won {
            hop
        } else {
            a.shimmer
        },
        ..a
    })
}

impl Anim {
    /// Every time the schedule holds is in range.
    pub open spec fn wf(&self) -> bool {
        &&& self.reveal matches Some((_, t)) ==> time_ok(t)
        &&& self.bounce matches Some((_, t)) ==> soon(t)
        &&& self.shake matches Some(t) ==> time_ok(t)
        &&& forall|i: int| 0 <= i < WORD_LEN ==> (#[trigger] self.typed@[i] matches Some(t) ==> time_ok(t))
        &&& self.key matches Some((_, t)) ==> time_ok(t)
        &&& time_ok(self.deal)
        &&& soon(self.shimmer)
        &&& self.toast matches Some((_, t)) ==> time_ok(t)
        &&& self.stats matches Some(t) ==> in_range(t)
        &&& time_ok(self.epoch)
        &&& time_ok(self.last_input)
    }

    pub open spec fn spec_reveal_end(&self) -> Option<int> {
        match self.reveal {
            Some((_, t)) => Some(reveal_end_at(t)),
            None => None,
        }
    }

    pub open spec fn spec_bounce_end(&self) -> Option<int> {
        match self.bounce {
            Some((_, t)) => Some(bounce_end_at(t)),
            None => None,
        }
    }

    /// Whether the guess is still being revealed or celebrated.
    pub open spec fn spec_busy(&self, now: u64) -> bool {
        ||| self.spec_reveal_end() matches Some(e) && now < e
        ||| self.spec_bounce_end() matches Some(e) && now < e
    }

    pub open spec fn spec_stats_open(&self, now: u64) -> bool {
        self.stats matches Some(t) && t <= now
    }

    pub open spec fn spec_ambient(&self, now: u64) -> bool {
        self.focused && now - self.last_input < IDLE
    }

    pub fn new(now: u64, seed: u64) -> (a: Self)
        requires
            time_ok(now),
        ensures
            a.wf(),
            spec_started(a, now, seed),
    {
        Self {
            reveal: None,
            bounce: None,
            shake: None,
            typed: [None; WORD_LEN],
            key: None,
            deal: now,
            shimmer: now,
            toast: None,
            stats: None,
            epoch: now,
            last_input: now,
            focused: true,
            rng: seed,
        }
    }

    /// A fresh board: deal the tiles in and run the shimmer across the title.
    /// Focus, the ambient clock and the random stream carry over.
    pub fn new_game(&mut self, now: u64)
        requires
            old(self).wf(),
            time_ok(now),
        ensures
            final(self).wf(),
            spec_new_game(*old(self), now, *final(self)),
    {
        let fresh = Self::new(now, 0);
        *self = Self { epoch: self.epoch, focused: self.focused, rng: self.rng, ..fresh };
    }

    pub fn input(&mut self, now: u64)
        requires
            old(self).wf(),
            time_ok(now),
        ensures
            final(self).wf(),
            *final(self) == (Anim { last_input: now, ..*old(self) }),
    {
        self.last_input = now;
    }

    pub fn focus(&mut self, focused: bool, now: u64)
        requires
            old(self).wf(),
            time_ok(now),
        ensures
            final(self).wf(),
            *final(self) == (Anim { focused, last_input: now, ..*old(self) }),
    {
        self.focused = focused;
        self.last_input = now;
    }

    /// A letter landed in column `col`: its tile pops, its key glows, and any
    /// note is dismissed.
    pub fn typed(&mut self, col: usize, letter: char, now: u64)
        requires
            old(self).wf(),
            time_ok(now),
            col < WORD_LEN,
        ensures
            final(self).wf(),
            spec_typed(*old(self), col as int, letter, now, *final(self)),
    {
        self.typed[col] = Some(now);
        self.key = Some((letter, now));
        self.toast = None;
    }

    /// The letter in column `col` was erased.
    pub fn erased(&mut self, col: usize)
        requires
            old(self).wf(),
        ensures
            final(self).wf(),
            spec_erased(*old(self), col as int, *final(self)),
    {
        if col < WORD_LEN {
            self.typed[col] = None;
        }
        self.toast = None;
    }

    /// A rejected guess: the row shakes and the note shows.
    pub fn reject(&mut self, message: String, now: u64)
        requires
            old(self).wf(),
            time_ok(now),
        ensures
            final(self).wf(),
            *final(self) == (Anim { shake: Some(now), toast: Some((message, now)), ..*old(self) }),
    {
        self.shake = Some(now);
        self.toast = Some((message, now));
    }

    /// A passing note, like `reject` without the shake.
    pub fn notify(&mut self, message: String, now: u64)
        requires
            old(self).wf(),
            time_ok(now),
        ensures
            final(self).wf(),
            *final(self) == (Anim { toast: Some((message, now)), ..*old(self) }),
    {
        self.toast = Some((message, now));
    }

    pub fn stats_open(&self, now: u64) -> (b: bool)
        ensures
            b == self.spec_stats_open(now),
    {
        match self.stats {
            Some(t) => t <= now,
            None => false,
        }
    }

    /// Open or close the stats panel; opening one that is only scheduled
    /// brings it forward.
    pub fn toggle_stats(&mut self, now: u64)
        requires
            old(self).wf(),
            time_ok(now),
        ensures
            final(self).wf(),
            *final(self) == (Anim {
                stats: if old(self).spec_stats_open(now) {
                    None
                } else {
                    Some(now)
                },
                ..*old(self)
            }),
            final(self).spec_stats_open(now) == !old(self).spec_stats_open(now),
    {
        self.stats = if self.stats_open(now) {
            None
        } else {
            Some(now)
        };
    }

    pub fn close_stats(&mut self)
        requires
            old(self).wf(),
        ensures
            final(self).wf(),
            *final(self) == (Anim { stats: None, ..*old(self) }),
    {
        self.stats = None;
    }

    /// When the row being revealed has every tile landed.
    pub fn reveal_end(&self) -> (e: Option<u64>)
        requires
            self.wf(),
        ensures
            match e {
                Some(t) => self.spec_reveal_end() == Some(t as int),
                None => self.spec_reveal_end() is None,
            },
    {
        match self.reveal {
            Some((_, t)) => Some(t + FLIP_STAGGER * (WORD_LEN as u64 - 1) + FLIP),
            None => None,
        }
    }

    /// When the winning row has every tile back down.
    pub fn bounce_end(&self) -> (e: Option<u64>)
        requires
            self.wf(),
        ensures
            match e {
                Some(t) => self.spec_bounce_end() == Some(t as int),
                None => self.spec_bounce_end() is None,
            },
    {
        match self.bounce {
            Some((_, t)) => Some(t + HOP_STAGGER * (WORD_LEN as u64 - 1) + HOP),
            None => None,
        }
    }

    /// Open the stats panel a moment after the reveal and any bounce finish.
    pub fn open_stats_after_result(&mut self)
        requires
            old(self).wf(),
        ensures
            final(self).wf(),
            *final(self) == (Anim { stats: stats_after_result(*old(self)), ..*old(self) }),
    {
        let settled = match self.bounce_end() {
            Some(t) => Some(t),
            None => self.reveal_end(),
        };
        self.stats = match settled {
            Some(t) => Some(t + STATS_DELAY),
            None => None,
        };
    }

    /// Flip `row` over. On a win, queue the bounce to follow it and run the
    /// shimmer with it.
    pub fn reveal_row(&mut self, row: usize, won: bool, now: u64)
        requires
            old(self).wf(),
            time_ok(now),
        ensures
            final(self).wf(),
            spec_reveal_row(*old(self), row, won, now, *final(self)),
    {
        self.reveal = Some((row, now));
        self.typed = [None; WORD_LEN];
        self.toast = None;
        if won {
            let hop = now + FLIP_STAGGER * (WORD_LEN as u64 - 1) + FLIP + HOP_DELAY;
            self.bounce = Some((row, hop));
            self.shimmer = hop;
        }
    }

    /// Where tile `col` of `row` is in its turn at `now`.
    pub fn flip(&self, row: usize, col: usize, now: u64) -> (f: Flip)
        requires
            self.wf(),
            col < WORD_LEN,
        ensures
            f == spec_flip(*self, row, col as int, now),
    {
        match self.reveal {
            Some((r, t0)) => {
                if r != row {
                    return Flip::Done;
                }
                let start = t0 + FLIP_STAGGER * col as u64;
                if now < start {
                    Flip::Pending
                } else if now - start >= FLIP {
                    Flip::Done
                } else {
                    Flip::Turning(now - start)
                }
            },
            None => Flip::Done,
        }
    }

    /// True while the guess is still being revealed or celebrated: input waits,
    /// and the result is held back so it does not spoil the last tiles.
    pub fn busy(&self, now: u64) -> (b: bool)
        requires
            self.wf(),
        ensures
            b == self.spec_busy(now),
    {
        let r = match self.reveal_end() {
            Some(e) => now < e,
            None => false,
        };
        let h = match self.bounce_end() {
            Some(e) => now < e,
            None => false,
        };
        r || h
    }

    /// The note to show, while it lasts.
    pub fn toast(&self, now: u64) -> (t: Option<&str>)
        requires
            self.wf(),
        ensures
            match self.toast {
                Some((msg, at)) => if now < at + TOAST {
                    t matches Some(s) && s@ == msg@
                } else {
                    t is None
                },
                None => t is None,
            },
    {
        match &self.toast {
            Some((msg, t)) => if now < *t + TOAST {
                Some(msg.as_str())
            } else {
                None
            },
            None => None,
        }
    }

    /// Whether the caret may pulse: the window has focus and a key was
    /// pressed recently.
    pub fn ambient(&self, now: u64) -> (b: bool)
        ensures
            b == (self.focused && now as int - self.last_input < IDLE),
    {
        self.focused && (now < self.last_input || now - self.last_input < IDLE)
    }

    /// One number from the random stream, 24 bits of splitmix64's output.
    pub fn next_draw(&mut self) -> (d: u32)
        ensures
            d == spec_mix(old(self).rng) >> 40u64,
            final(self).rng == old(self).rng.wrapping_add(GOLDEN),
            *final(self) == (Anim { rng: final(self).rng, ..*old(self) }),
    {
        let z = mix(self.rng);
        self.rng = self.rng.wrapping_add(GOLDEN);
        assert(z >> 40u64 <= 0xff_ffff) by (bit_vector);
        (z >> 40) as u32
    }

    /// How long the event loop may sleep before the picture next changes:
    /// a frame's time while anything moves (`sparks_end` being when the
    /// last spark burns out), a slower pulse while only the caret moves, and
    /// a second when nothing does.
    pub fn frame(&self, now: u64, sparks_end: Option<u64>) -> (d: u64)
        requires
            self.wf(),
        ensures
            d == if self.spec_moving(now, sparks_end) {
                FRAME_BUSY
            } else if self.spec_ambient(now) {
                FRAME_AMBIENT
            } else {
                FRAME_IDLE
            },
    {
        let mut moving = self.busy(now);
        if let Some(t) = self.shake {
            moving = moving || now < t + SHAKE;
        }
        if let Some((_, t)) = self.key {
            moving = moving || now < t + KEY_GLOW;
        }
        let mut i: usize = 0;
        let mut popping = false;
        while i < WORD_LEN
            invariant
                self.wf(),
                i <= WORD_LEN,
                popping == exists|k: int| 0 <= k < i && (#[trigger] self.typed@[k] matches Some(t) && now < t + POP),
            decreases WORD_LEN - i,
        {
            if let Some(t) = self.typed[i] {
                assert(self.typed@[i as int] == Some(t));
                if now < t + POP {
                    popping = true;
                }
            }
            i += 1;
        }
        moving = moving || popping;
        moving = moving || now < self.deal + DEAL_STAGGER * 11 + DEAL;
        moving = moving || now < self.shimmer + SHIMMER;
        if let Some((_, t)) = &self.toast {
            moving = moving || now < *t + TOAST;
        }
        if let Some(t) = self.stats {
            moving = moving || now < t + STATS_STAGGER * STATS_PARTS + STATS_GROW;
        }
        if let Some(t) = sparks_end {
            moving = moving || now < t;
        }
        if moving {
            FRAME_BUSY
        } else if self.ambient(now) {
            FRAME_AMBIENT
        } else {
            FRAME_IDLE
        }
    }

    /// Whether anything on screen is still moving at `now`.
    pub open spec fn spec_moving(&self, now: u64, sparks_end: Option<u64>) -> bool {
        ||| self.spec_busy(now)
        ||| self.shake matches Some(t) && now < t + SHAKE
        ||| self.key matches Some((_, t)) && now < t + KEY_GLOW
        ||| exists|k: int| 0 <= k < WORD_LEN && (#[trigger] self.typed@[k] matches Some(t) && now < t + POP)
        ||| now < self.deal + DEAL_STAGGER * 11 + DEAL
        ||| now < self.shimmer + SHIMMER
        ||| self.toast matches Some((_, t)) && now < t + TOAST
        ||| self.stats matches Some(t) && now < t + STATS_STAGGER * STATS_PARTS + STATS_GROW
        ||| sparks_end matches Some(t) && now < t
    }
}

/// On a win the bounce follows the reveal, and input waits for both: the
/// board is busy from the first tile turning until the last tile of the
/// bounce is back down.
pub proof fn lemma_a_win_holds_input(a: Anim, row: usize, now: u64, b: Anim, t: u64)
    requires
        time_ok(now),
        spec_reveal_row(a, row, true, now, b),
        now <= t < bounce_end_at((reveal_end_at(now) + HOP_DELAY) as u64),
    ensures
        b.spec_busy(t),
{
}

} // verus!
