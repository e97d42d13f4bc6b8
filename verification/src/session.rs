//! One sitting at the game: what each key press or focus change does to the
//! board, the animation schedule and the statistics.
//!
//! The terminal loop around this reads events and performs the actions it is
//! handed back: quitting, putting the result on the clipboard, starting a new
//! game with a fresh seed, or saving the statistics of a finished game. Each
//! of those needs the clock, the date or the disk, so the loop does them and
//! calls back in with what it found.

use vstd::prelude::*;

use crate::anim::{
    spec_erased, spec_new_game, spec_reveal_row, spec_started, spec_typed, stats_after_result, time_ok,
    Anim,
};
use crate::daily::{pick_answer, spec_pick};
use crate::game::{spec_backspace, spec_fresh, spec_push, spec_submit, Game, Status, WORD_LEN};
use crate::share::{guess_marks, result, spec_result};
use crate::stats::{spec_record, Stats};
use crate::words::{normalize_char, spec_normalize_char, Dictionary, Pool};

verus! {

/// The keys the game tells apart.
#[derive(Clone, Copy, PartialEq, Eq, Debug, Structural)]
pub enum Key {
    Char(char),
    Enter,
    Backspace,
    Esc,
    Tab,
    Other,
}

/// What the terminal reported.
#[derive(Clone, Copy, PartialEq, Eq, Debug, Structural)]
pub enum Event {
    /// The window gained (`true`) or lost focus.
    Focus(bool),
    /// A key went down (`press`), repeated (`press` too) or came back up, which
    /// only some terminals report. `ctrl` is whether Control was held.
    Key { key: Key, ctrl: bool, press: bool },
    Other,
}

/// What the loop must do after an event.
#[derive(Clone, Copy, PartialEq, Eq, Debug, Structural)]
pub enum Action {
    Continue,
    Quit,
    /// Put `App::share`'s text on the clipboard.
    Share,
    /// Start another game: call `App::new_game` with a fresh seed.
    NewGame,
    /// The game just ended: call `App::finish`, then save the statistics if
    /// it says they changed.
    Finished,
}

pub struct App {
    pub words: Dictionary,
    pub game: Game,
    pub anim: Anim,
    pub stats: Stats,
    /// Guesses taken by the game just won, if it went into the statistics;
    /// the panel picks out that bar. A replayed daily puzzle is not counted.
    pub counted_win: Option<usize>,
    /// One shared puzzle a day rather than a random word.
    pub daily: bool,
}

/// The words answers are drawn from: every word for the shared daily puzzle,
/// the player's chosen pool otherwise.
pub open spec fn pool_for(daily: bool, chosen: Pool) -> Pool {
    if daily {
        Pool::All
    } else {
        chosen
    }
}

/// The letter keys that share a finished game: C, and ψ, which is where C
/// sits on a Greek layout.
pub open spec fn share_key(c: char) -> bool {
    c == 'c' || c == 'C' || c == 'ψ' || c == 'Ψ'
}

pub open spec fn shares(key: Key) -> bool {
    match key {
        Key::Char(c) => share_key(c),
        _ => false,
    }
}

/// Control-C and Control-D quit whatever else is going on.
pub open spec fn quit_chord(key: Key, ctrl: bool) -> bool {
    ctrl && (key == Key::Char('c') || key == Key::Char('d'))
}

/// `f` and `act` are what a press of `key` at `now` makes of `o`.
pub open spec fn pressed(o: App, key: Key, ctrl: bool, now: u64, f: App, act: Action) -> bool {
    let a1 = Anim { last_input: now, ..o.anim };
    let settled = o.game.status != Status::Playing && !a1.spec_busy(now);
    let open = a1.spec_stats_open(now);
    if quit_chord(key, ctrl) {
        f == (App { anim: a1, ..o }) && act == Action::Quit
    } else if key == Key::Esc {
        if open {
            f == (App { anim: Anim { stats: None, ..a1 }, ..o }) && act == Action::Continue
        } else {
            f == (App { anim: a1, ..o }) && act == Action::Quit
        }
    } else if key == Key::Tab {
        &&& f == (App {
            anim: Anim {
                stats: if open {
                    None
                } else {
                    Some(now)
                },
                ..a1
            },
            ..o
        })
        &&& act == Action::Continue
    } else if settled && shares(key) {
        &&& f == (App { anim: f.anim, ..o })
        &&& f.anim == (Anim { toast: f.anim.toast, ..a1 })
        &&& f.anim.toast matches Some((m, t)) && m@ == "Result copied to clipboard"@ && t == now
        &&& act == Action::Share
    } else if settled && key == Key::Enter {
        f == (App { anim: a1, ..o }) && act == Action::NewGame
    } else if open || a1.spec_busy(now) {
        // The panel takes no other keys, and nothing is taken while tiles turn.
        f == (App { anim: a1, ..o }) && act == Action::Continue
    } else if key == Key::Backspace {
        &&& f == (App { game: f.game, anim: f.anim, ..o })
        &&& spec_backspace(o.game, f.game)
        &&& spec_erased(a1, f.game.input@.len() as int, f.anim)
        &&& act == Action::Continue
    } else if key == Key::Enter {
        entered(o, a1, now, f, act)
    } else if key is Char {
        typed_char(o, a1, key->0, now, f) && act == Action::Continue
    } else {
        f == (App { anim: a1, ..o }) && act == Action::Continue
    }
}

/// The typed row is a word of the list, so `submit` scores it.
pub open spec fn row_is_a_word(o: App) -> bool {
    &&& o.game.input@.len() >= WORD_LEN
    &&& exists|i: int| 0 <= i < o.words@.len() && #[trigger] o.words@[i].word@ == o.game.input@
}

/// `f` and `act` are what Enter makes of `o` in play, `a1` being its schedule
/// with the key press noted: a word is scored and turns over, and anything
/// else shakes the row with the reason.
pub open spec fn entered(o: App, a1: Anim, now: u64, f: App, act: Action) -> bool {
    &&& f == (App { game: f.game, anim: f.anim, ..o })
    &&& if row_is_a_word(o) {
        &&& spec_submit(o.game, o.words@, f.game)
        &&& spec_reveal_row(
            a1,
            o.game.guesses@.len() as usize,
            f.game.status == Status::Won,
            now,
            f.anim,
        )
        &&& act == if f.game.status == Status::Playing {
            Action::Continue
        } else {
            Action::Finished
        }
    } else {
        &&& f.anim.toast matches Some((m, t)) && t == now && spec_submit(
            o.game,
            o.words@,
            Game { message: Some(m), ..f.game },
        )
        &&& f.game.message is None
        &&& f.anim == (Anim { shake: Some(now), toast: f.anim.toast, ..a1 })
        &&& act == Action::Continue
    }
}

/// `f` is what typing `c` makes of `o` in play: a Greek letter joins the row,
/// anything else is ignored.
pub open spec fn typed_char(o: App, a1: Anim, c: char, now: u64, f: App) -> bool {
    match spec_normalize_char(c) {
        Some(l) => {
            &&& f == (App { game: f.game, anim: f.anim, ..o })
            &&& spec_push(o.game, l, f.game)
            &&& if f.game.input@.len() > o.game.input@.len() {
                spec_typed(a1, o.game.input@.len() as int, l, now, f.anim)
            } else {
                f.anim == a1
            }
        },
        None => f == (App { anim: a1, ..o }),
    }
}

/// `f` and `act` are what `event` at `now` makes of `o`.
pub open spec fn handled(o: App, event: Event, now: u64, f: App, act: Action) -> bool {
    match event {
        Event::Focus(b) => {
            f == (App { anim: Anim { focused: b, last_input: now, ..o.anim }, ..o }) && act
                == Action::Continue
        },
        Event::Key { key, ctrl, press } => if press {
            pressed(o, key, ctrl, now, f, act)
        } else {
            f == o && act == Action::Continue
        },
        Event::Other => f == o && act == Action::Continue,
    }
}

impl App {
    pub open spec fn wf(&self) -> bool {
        &&& self.game.wf()
        &&& self.anim.wf()
        &&& self.game.answer_idx < self.words@.len()
    }

    /// A sitting's first game, its answer picked from `seed` (the day number
    /// in daily mode, the clock otherwise); `rng` seeds the animations.
    pub fn new(words: Dictionary, stats: Stats, daily: bool, seed: u64, rng: u64, now: u64) -> (app:
        Self)
        requires
            time_ok(now),
        ensures
            app.wf(),
            app.words == words,
            app.stats == stats,
            app.daily == daily,
            app.counted_win is None,
            spec_fresh(app.game, words@, spec_pick(words@, pool_for(daily, stats.pool), seed)),
            spec_started(app.anim, now, rng),
    {
        let pool = if daily {
            Pool::All
        } else {
            stats.pool
        };
        let idx = pick_answer(&words, pool, seed);
        let game = Game::new(&words, idx);
        let anim = Anim::new(now, rng);
        App { words, game, anim, stats, counted_win: None, daily }
    }

    /// Start another game, its answer picked from `seed`.
    pub fn new_game(&mut self, seed: u64, now: u64)
        requires
            old(self).wf(),
            time_ok(now),
        ensures
            final(self).wf(),
            *final(self) == (App {
                game: final(self).game,
                anim: final(self).anim,
                counted_win: None,
                ..*old(self)
            }),
            spec_fresh(
                final(self).game,
                old(self).words@,
                spec_pick(old(self).words@, pool_for(old(self).daily, old(self).stats.pool), seed),
            ),
            spec_new_game(old(self).anim, now, final(self).anim),
    {
        let pool = if self.daily {
            Pool::All
        } else {
            self.stats.pool
        };
        let idx = pick_answer(&self.words, pool, seed);
        self.game = Game::new(&self.words, idx);
        self.anim.new_game(now);
        self.counted_win = None;
    }

    /// The text that shares the game on the board; `today` is the puzzle's
    /// day number in daily mode.
    pub fn share(&self, today: Option<u64>) -> (text: String)
        requires
            today matches Some(day) ==> day <= i64::MAX - 719_468,
        ensures
            text@ == spec_result(guess_marks(&self.game), self.game.status == Status::Won, today),
    {
        result(&self.game, today)
    }

    /// Count the game just ended and have the statistics panel open once
    /// the reveal has played out. `today` is the puzzle's day number in
    /// daily mode. Returns whether the statistics changed and need saving:
    /// a daily puzzle already counted is not counted again.
    pub fn finish(&mut self, today: Option<u64>) -> (counted: bool)
        requires
            old(self).wf(),
            old(self).game.status != Status::Playing,
            (today matches Some(d) && old(self).stats.dailies@.contains(d))
                || old(self).stats.spec_has_room(
                old(self).game.status == Status::Won,
                old(self).game.guesses@.len() as usize,
            ),
        ensures
            final(self).wf(),
            counted == !(today matches Some(d) && old(self).stats.dailies@.contains(d)),
            final(self).stats@ == spec_record(
                old(self).stats@,
                old(self).game.status == Status::Won,
                old(self).game.guesses@.len() as usize,
                today,
            ),
            final(self).counted_win == if !counted {
                old(self).counted_win
            } else if old(self).game.status == Status::Won {
                Some(old(self).game.guesses@.len() as usize)
            } else {
                None
            },
            final(self).anim == (Anim { stats: stats_after_result(old(self).anim), ..old(self).anim }),
            *final(self) == (App {
                stats: final(self).stats,
                counted_win: final(self).counted_win,
                anim: final(self).anim,
                ..*old(self)
            }),
    {
        let won = self.game.status == Status::Won;
        let guesses = self.game.guesses.len();
        if self.stats.record(won, guesses, today) {
            self.counted_win = if won {
                Some(guesses)
            } else {
                None
            };
            self.anim.open_stats_after_result();
            true
        } else {
            self.anim.open_stats_after_result();
            false
        }
    }

    /// Apply one terminal event at `now`.
    pub fn handle(&mut self, event: Event, now: u64) -> (act: Action)
        requires
            old(self).wf(),
            time_ok(now),
        ensures
            final(self).wf(),
            handled(*old(self), event, now, *final(self), act),
    {
        match event {
            Event::Focus(b) => {
                self.anim.focus(b, now);
                Action::Continue
            },
            Event::Key { key, ctrl, press } => {
                if press {
                    self.press(key, ctrl, now)
                } else {
                    Action::Continue
                }
            },
            Event::Other => Action::Continue,
        }
    }

    fn press(&mut self, key: Key, ctrl: bool, now: u64) -> (act: Action)
        requires
            old(self).wf(),
            time_ok(now),
        ensures
            final(self).wf(),
            pressed(*old(self), key, ctrl, now, *final(self), act),
    {
        self.anim.input(now);
        let chord = ctrl && match key {
            Key::Char(c) => c == 'c' || c == 'd',
            _ => false,
        };
        if chord {
            return Action::Quit;
        }
        let settled = self.game.is_over() && !self.anim.busy(now);
        let open = self.anim.stats_open(now);
        match key {
            Key::Esc => {
                if open {
                    self.anim.close_stats();
                    Action::Continue
                } else {
                    Action::Quit
                }
            },
            Key::Tab => {
                self.anim.toggle_stats(now);
                Action::Continue
            },
            Key::Char(c) if settled && (c == 'c' || c == 'C' || c == 'ψ' || c == 'Ψ') => {
                self.anim.notify(String::from_str("Result copied to clipboard"), now);
                Action::Share
            },
            Key::Enter if settled => Action::NewGame,
            _ => {
                if open || self.anim.busy(now) {
                    Action::Continue
                } else {
                    self.edit(key, now)
                }
            },
        }
    }

    /// A key nothing else has taken: it edits or submits the typed row.
    fn edit(&mut self, key: Key, now: u64) -> (act: Action)
        requires
            old(self).wf(),
            time_ok(now),
            key == Key::Enter ==> old(self).game.status == Status::Playing,
            !old(self).anim.spec_busy(now),
            !old(self).anim.spec_stats_open(now),
            key != Key::Esc,
            key != Key::Tab,
        ensures
            final(self).wf(),
            key == Key::Backspace ==> {
                &&& *final(self) == (App { game: final(self).game, anim: final(self).anim, ..*old(self) })
                &&& spec_backspace(old(self).game, final(self).game)
                &&& spec_erased(old(self).anim, final(self).game.input@.len() as int, final(self).anim)
                &&& act == Action::Continue
            },
            key == Key::Enter ==> entered(*old(self), old(self).anim, now, *final(self), act),
            key matches Key::Char(c) ==> typed_char(*old(self), old(self).anim, c, now, *final(self))
                && act == Action::Continue,
            !(key == Key::Backspace || key == Key::Enter || key is Char) ==> *final(self) == *old(self)
                && act == Action::Continue,
    {
        match key {
            Key::Backspace => {
                self.game.backspace();
                let n = self.game.input.len();
                self.anim.erased(n);
                Action::Continue
            },
            Key::Enter => {
                let row = self.game.guesses.len();
                self.game.submit(&self.words);
                if self.game.guesses.len() > row {
                    let won = self.game.status == Status::Won;
                    self.anim.reveal_row(row, won, now);
                    if self.game.is_over() {
                        Action::Finished
                    } else {
                        Action::Continue
                    }
                } else {
                    let note = self.game.message.take();
                    match note {
                        Some(m) => self.anim.reject(m, now),
                        None => {},
                    }
                    Action::Continue
                }
            },
            Key::Char(c) => {
                match normalize_char(c) {
                    Some(l) => {
                        let col = self.game.input.len();
                        self.game.push(l);
                        if self.game.input.len() > col {
                            self.anim.typed(col, l, now);
                        }
                    },
                    None => {},
                }
                Action::Continue
            },
            _ => Action::Continue,
        }
    }
}

/// A key that does not type a Greek letter (a Latin letter, a digit,
/// punctuation) never lands on the board.
pub proof fn lemma_stray_keys_never_land(
    o: App,
    c: char,
    ctrl: bool,
    now: u64,
    f: App,
    act: Action,
)
    requires
        handled(o, Event::Key { key: Key::Char(c), ctrl, press: true }, now, f, act),
        spec_normalize_char(c) is None,
    ensures
        f.game == o.game,
        f.stats == o.stats,
{
}

/// While a guess is still turning over or celebrating, no event changes the
/// board or the statistics.
pub proof fn lemma_input_waits_for_the_reveal(o: App, event: Event, now: u64, f: App, act: Action)
    requires
        handled(o, event, now, f, act),
        o.anim.spec_busy(now),
    ensures
        f.game == o.game,
        f.stats == o.stats,
        act != Action::NewGame,
        act != Action::Share,
{
    let a1 = Anim { last_input: now, ..o.anim };
    assert(a1.spec_busy(now));
}

/// While the statistics panel is open it takes no key that would change the
/// board.
pub proof fn lemma_the_panel_keeps_the_board(o: App, event: Event, now: u64, f: App, act: Action)
    requires
        handled(o, event, now, f, act),
        o.anim.spec_stats_open(now),
    ensures
        f.game == o.game,
        f.stats == o.stats,
{
    let a1 = Anim { last_input: now, ..o.anim };
    assert(a1.spec_stats_open(now));
}

} // verus!
