//! Lifetime statistics and the one setting that outlives a run, kept in a
//! small text file of `key=value` lines, so it is easy to inspect or reset by
//! hand. A missing or damaged file simply starts the counts again from zero.

use vstd::prelude::*;

use crate::game::MAX_GUESSES;
use crate::text::{
    all_digits, chars_eq_str, chars_of, decimal, digits_value, find_char, find_in, is_ws,
    lemma_decimal_parses, lemma_lines_cons, lemma_split_cons, lemma_trim_noop, lines_from,
    lines_of, parse_nat, parse_uint, push_decimal, push_str, split_chars, split_on, string_of,
    strip_cr, trim, trim_chars,
};
use crate::words::{spec_from_key, spec_key, Pool};

verus! {

#[derive(Clone, Debug, PartialEq)]
pub struct Stats {
    pub played: u32,
    pub won: u32,
    /// Wins in a row, broken by any loss.
    pub streak: u32,
    pub best: u32,
    /// Wins by how many guesses they took: `dist[0]` is a first-guess win.
    pub dist: [u32; MAX_GUESSES],
    /// Day numbers of the daily puzzles recorded, in the order they were, so
    /// no day's puzzle counts twice.
    pub dailies: Vec<u64>,
    /// Which words random games draw answers from. Daily puzzles ignore it so
    /// everyone shares one word.
    pub pool: Pool,
}

/// What a `Stats` holds, with the distribution as a sequence.
pub ghost struct StatsModel {
    pub played: u32,
    pub won: u32,
    pub streak: u32,
    pub best: u32,
    pub dist: Seq<u32>,
    pub dailies: Seq<u64>,
    pub pool: Pool,
}

impl View for Stats {
    type V = StatsModel;

    open spec fn view(&self) -> StatsModel {
        StatsModel {
            played: self.played,
            won: self.won,
            streak: self.streak,
            best: self.best,
            dist: self.dist@,
            dailies: self.dailies@,
            pool: self.pool,
        }
    }
}

/// No games yet, no daily puzzle recorded, every word in play.
pub open spec fn default_model() -> StatsModel {
    StatsModel {
        played: 0,
        won: 0,
        streak: 0,
        best: 0,
        dist: seq![0u32, 0u32, 0u32, 0u32, 0u32, 0u32],
        dailies: Seq::empty(),
        pool: Pool::All,
    }
}

impl Default for Stats {
    fn default() -> (s: Stats)
        ensures
            s@ == default_model(),
    {
        let s = Stats {
            played: 0,
            won: 0,
            streak: 0,
            best: 0,
            dist: [0; MAX_GUESSES],
            dailies: Vec::new(),
            pool: Pool::All,
        };
        assert(s.dist@ =~= seq![0u32, 0u32, 0u32, 0u32, 0u32, 0u32]);
        assert(s.dailies@ =~= Seq::<u64>::empty());
        s
    }
}

pub open spec fn key_played() -> Seq<char> {
    seq!['p', 'l', 'a', 'y', 'e', 'd']
}

pub open spec fn key_won() -> Seq<char> {
    seq!['w', 'o', 'n']
}

pub open spec fn key_streak() -> Seq<char> {
    seq!['s', 't', 'r', 'e', 'a', 'k']
}

pub open spec fn key_best() -> Seq<char> {
    seq!['b', 'e', 's', 't']
}

pub open spec fn key_dist() -> Seq<char> {
    seq!['d', 'i', 's', 't']
}

pub open spec fn key_pool() -> Seq<char> {
    seq!['p', 'o', 'o', 'l']
}

pub open spec fn key_last_daily() -> Seq<char> {
    seq!['l', 'a', 's', 't', '_', 'd', 'a', 'i', 'l', 'y']
}

pub open spec fn key_dailies() -> Seq<char> {
    seq!['d', 'a', 'i', 'l', 'i', 'e', 's']
}

/// A day number as the file holds it, if it reads as one.
pub open spec fn day_value(value: Seq<char>) -> Option<u64> {
    match parse_nat(trim(value), u64::MAX as nat) {
        Some(v) => Some(v as u64),
        None => None,
    }
}

/// The days a `dailies=` line lists: its comma-separated pieces that read
/// as day numbers, in order; the others are skipped.
pub open spec fn read_days(pieces: Seq<Seq<char>>) -> Seq<u64>
    decreases pieces.len(),
{
    if pieces.len() == 0 {
        Seq::empty()
    } else {
        let before = read_days(pieces.drop_last());
        match day_value(pieces.last()) {
            Some(d) => before.push(d),
            None => before,
        }
    }
}

/// The recorded days, comma-separated.
pub open spec fn days_text(ds: Seq<u64>) -> Seq<char>
    decreases ds.len(),
{
    if ds.len() == 0 {
        Seq::empty()
    } else if ds.len() == 1 {
        decimal(ds[0] as nat)
    } else {
        days_text(ds.drop_last()) + seq![','] + decimal(ds.last() as nat)
    }
}

/// A count as the file holds it; anything unreadable counts as zero.
pub open spec fn count_value(value: Seq<char>) -> u32 {
    match parse_nat(value, u32::MAX as nat) {
        Some(v) => v as u32,
        None => 0,
    }
}

/// The distribution after a `dist=` line: its comma-separated pieces fill
/// the slots in order, and slots with no piece keep what they held.
pub open spec fn fill_dist(dist: Seq<u32>, pieces: Seq<Seq<char>>) -> Seq<u32> {
    Seq::new(
        dist.len(),
        |i: int|
            if i < pieces.len() {
                count_value(trim(pieces[i]))
            } else {
                dist[i]
            },
    )
}

/// What one line of the file does to the statistics read so far: a line
/// without `=`, or with a key it does not know, does nothing.
pub open spec fn apply_line(st: StatsModel, line: Seq<char>) -> StatsModel {
    match find_char(line, '=') {
        None => st,
        Some(eq) => {
            let key = trim(line.take(eq as int));
            let value = trim(line.skip(eq as int + 1));
            if key == key_played() {
                StatsModel { played: count_value(value), ..st }
            } else if key == key_won() {
                StatsModel { won: count_value(value), ..st }
            } else if key == key_streak() {
                StatsModel { streak: count_value(value), ..st }
            } else if key == key_best() {
                StatsModel { best: count_value(value), ..st }
            } else if key == key_dailies() {
                StatsModel { dailies: read_days(split_on(value, ',')), ..st }
            } else if key == key_last_daily() {
                // The single day an older file kept.
                StatsModel {
                    dailies: match day_value(value) {
                        Some(d) => st.dailies.push(d),
                        None => st.dailies,
                    },
                    ..st
                }
            } else if key == key_pool() {
                StatsModel {
                    pool: match spec_from_key(value) {
                        Some(p) => p,
                        None => Pool::All,
                    },
                    ..st
                }
            } else if key == key_dist() {
                StatsModel { dist: fill_dist(st.dist, split_on(value, ',')), ..st }
            } else {
                st
            }
        },
    }
}

pub open spec fn apply_lines(st: StatsModel, lines: Seq<Seq<char>>) -> StatsModel
    decreases lines.len(),
{
    if lines.len() == 0 {
        st
    } else {
        apply_lines(apply_line(st, lines[0]), lines.drop_first())
    }
}

/// The statistics a text file holds, read line by line from the defaults.
pub open spec fn spec_parse(text: Seq<char>) -> StatsModel {
    apply_lines(default_model(), lines_of(text))
}

/// `key=value` and a newline.
pub open spec fn kv_line(key: Seq<char>, value: Seq<char>) -> Seq<char> {
    key + seq!['='] + value + seq!['\n']
}

/// The six counts of the distribution, comma-separated.
pub open spec fn dist_text(d: Seq<u32>) -> Seq<char> {
    decimal(d[0] as nat) + seq![','] + decimal(d[1] as nat) + seq![','] + decimal(d[2] as nat)
        + seq![','] + decimal(d[3] as nat) + seq![','] + decimal(d[4] as nat) + seq![',']
        + decimal(d[5] as nat)
}

/// The file text for `s`.
pub open spec fn spec_to_text(s: StatsModel) -> Seq<char> {
    kv_line(key_played(), decimal(s.played as nat)) + kv_line(key_won(), decimal(s.won as nat))
        + kv_line(key_streak(), decimal(s.streak as nat)) + kv_line(
        key_best(),
        decimal(s.best as nat),
    ) + kv_line(key_dist(), dist_text(s.dist)) + kv_line(key_pool(), spec_key(s.pool)) + if s.dailies.len() > 0 {
        kv_line(key_dailies(), days_text(s.dailies))
    } else {
        Seq::empty()
    }
}

/// The statistics after counting one finished game.
pub open spec fn spec_record(s: StatsModel, won: bool, guesses: usize, daily: Option<u64>) -> StatsModel {
    if daily matches Some(d) && s.dailies.contains(d) {
        s
    } else {
        let streak = if won {
            (s.streak + 1) as u32
        } else {
            0u32
        };
        StatsModel {
            played: (s.played + 1) as u32,
            won: if won {
                (s.won + 1) as u32
            } else {
                s.won
            },
            streak,
            best: if won && streak > s.best {
                streak
            } else {
                s.best
            },
            dist: if won && 1 <= guesses <= MAX_GUESSES {
                s.dist.update(guesses - 1, (s.dist[guesses - 1] + 1) as u32)
            } else {
                s.dist
            },
            dailies: match daily {
                Some(d) => s.dailies.push(d),
                None => s.dailies,
            },
            pool: s.pool,
        }
    }
}

/// The win percentage: the exact quotient, rounded half up, and saturating
/// at `u32::MAX`. (Computed in `f32` the quotient can round one lower for
/// very large counts; this is the exact figure.)
pub open spec fn spec_win_percent(won: u32, played: u32) -> u32 {
    if played == 0 {
        0
    } else {
        let p = (200 * (won as int) + played as int) / (2 * (played as int));
        if p > u32::MAX {
            u32::MAX
        } else {
            p as u32
        }
    }
}

impl Stats {
    /// Apply one line of the file.
    fn apply_line(&mut self, line: &[char])
        ensures
            final(self)@ == apply_line(old(self)@, line@),
    {
        let eq = match find_in(line, '=') {
            Some(eq) => eq,
            None => return ,
        };
        let mut head: Vec<char> = Vec::new();
        let mut tail: Vec<char> = Vec::new();
        let mut i: usize = 0;
        while i < line.len()
            invariant
                eq < line@.len(),
                i <= line@.len(),
                head@ == line@.take(if i < eq {
                    i as int
                } else {
                    eq as int
                }),
                tail@ == (if i <= eq + 1 {
                    Seq::empty()
                } else {
                    line@.subrange(eq + 1, i as int)
                }),
            decreases line@.len() - i,
        {
            if i < eq {
                head.push(line[i]);
            } else if i > eq {
                tail.push(line[i]);
            }
            i += 1;
            assert(head@ =~= line@.take(
                if i < eq {
                    i as int
                } else {
                    eq as int
                },
            ));
            assert(tail@ =~= (if i <= eq + 1 {
                Seq::empty()
            } else {
                line@.subrange(eq + 1, i as int)
            }));
        }
        assert(tail@ =~= line@.skip(eq + 1));
        let key = trim_chars(head.as_slice());
        let value = trim_chars(tail.as_slice());
        proof {
            reveal_strlit("played");
            reveal_strlit("won");
            reveal_strlit("streak");
            reveal_strlit("best");
            reveal_strlit("last_daily");
            reveal_strlit("dailies");
            reveal_strlit("pool");
            reveal_strlit("dist");
            assert("played"@ =~= key_played());
            assert("won"@ =~= key_won());
            assert("streak"@ =~= key_streak());
            assert("best"@ =~= key_best());
            assert("last_daily"@ =~= key_last_daily());
            assert("dailies"@ =~= key_dailies());
            assert("pool"@ =~= key_pool());
            assert("dist"@ =~= key_dist());
        }
        if chars_eq_str(key.as_slice(), "played") {
            self.played = read_count(value.as_slice());
        } else if chars_eq_str(key.as_slice(), "won") {
            self.won = read_count(value.as_slice());
        } else if chars_eq_str(key.as_slice(), "streak") {
            self.streak = read_count(value.as_slice());
        } else if chars_eq_str(key.as_slice(), "best") {
            self.best = read_count(value.as_slice());
        } else if chars_eq_str(key.as_slice(), "dailies") {
            self.dailies = read_day_list(value.as_slice());
        } else if chars_eq_str(key.as_slice(), "last_daily") {
            let trimmed = trim_chars(value.as_slice());
            match parse_uint(trimmed.as_slice(), u64::MAX) {
                Some(d) => self.dailies.push(d),
                None => {},
            }
        } else if chars_eq_str(key.as_slice(), "pool") {
            // An unknown pool name falls back to the default rather than
            // failing, so a hand-edited file cannot wedge the game.
            let text = string_of(value.as_slice());
            self.pool = match Pool::from_key(text.as_str()) {
                Some(p) => p,
                None => Pool::default(),
            };
        } else if chars_eq_str(key.as_slice(), "dist") {
            let pieces = split_chars(value.as_slice(), ',');
            let ghost before = self.dist@;
            let mut k: usize = 0;
            while k < MAX_GUESSES && k < pieces.len()
                invariant
                    k <= MAX_GUESSES,
                    k <= pieces@.len(),
                    self.dist@.len() == MAX_GUESSES,
                    pieces@.len() == split_on(value@, ',').len(),
                    forall|j: int| 0 <= j < pieces@.len() ==> #[trigger] pieces@[j]@ == split_on(value@, ',')[j],
                    forall|j: int|
                        0 <= j < MAX_GUESSES ==> #[trigger] self.dist@[j] == if j < k {
                            count_value(trim(split_on(value@, ',')[j]))
                        } else {
                            before[j]
                        },
                    self.played == old(self).played,
                    self.won == old(self).won,
                    self.streak == old(self).streak,
                    self.best == old(self).best,
                    self.dailies == old(self).dailies,
                    self.pool == old(self).pool,
                    before == old(self).dist@,
                decreases MAX_GUESSES - k,
            {
                let n = trim_chars(pieces[k].as_slice());
                self.dist[k] = read_count(n.as_slice());
                k += 1;
            }
            assert forall|j: int| 0 <= j < MAX_GUESSES implies #[trigger] self.dist@[j] == fill_dist(
                before,
                split_on(value@, ','),
            )[j] by {
                assert(self.dist@[j] == if j < k {
                    count_value(trim(split_on(value@, ',')[j]))
                } else {
                    before[j]
                });
            }
            assert(self.dist@ =~= fill_dist(before, split_on(value@, ',')));
        }
    }

    /// Read the statistics from the file's text.
    pub fn parse(text: &str) -> (s: Stats)
        ensures
            s@ == spec_parse(text@),
    {
        let chars = chars_of(text);
        let mut st = Stats::default();
        let mut cur: Vec<char> = Vec::new();
        let mut i: usize = 0;
        assert(chars@.skip(0) =~= chars@);
        assert(cur@ =~= Seq::<char>::empty());
        while i < chars.len()
            invariant
                chars@ == text@,
                i <= chars@.len(),
                spec_parse(text@) == apply_lines(st@, lines_from(chars@.skip(i as int), cur@)),
            decreases chars@.len() - i,
        {
            let ghost rest = chars@.skip(i as int);
            assert(rest.drop_first() =~= chars@.skip(i + 1));
            if chars[i] == '\n' {
                let ghost before_cur = cur@;
                let n = cur.len();
                if n > 0 && cur[n - 1] == '\r' {
                    cur.pop();
                }
                let ghost line = cur@;
                assert(line =~= strip_cr(before_cur));
                st.apply_line(cur.as_slice());
                cur = Vec::new();
                assert(cur@ =~= Seq::<char>::empty());
                assert(lines_from(rest, before_cur) == seq![line] + lines_from(rest.drop_first(), Seq::empty()));
                assert((seq![line] + lines_from(rest.drop_first(), Seq::empty())).drop_first() =~= lines_from(rest.drop_first(), Seq::empty()));
            } else {
                cur.push(chars[i]);
            }
            i += 1;
        }
        assert(chars@.skip(i as int) =~= Seq::<char>::empty());
        if cur.len() > 0 {
            let ghost line = cur@;
            assert(lines_from(Seq::<char>::empty(), line) == seq![line]);
            assert(seq![line].drop_first() =~= Seq::<Seq<char>>::empty());
            assert(apply_lines(st@, seq![line]) == apply_lines(apply_line(st@, line), Seq::<Seq<char>>::empty()));
            st.apply_line(cur.as_slice());
        } else {
            assert(lines_from(Seq::<char>::empty(), cur@) == Seq::<Seq<char>>::empty());
        }
        st
    }

    /// The file's text for these statistics.
    pub fn to_text(&self) -> (t: String)
        ensures
            t@ == spec_to_text(self@),
    {
        proof {
            reveal_strlit("played");
            reveal_strlit("won");
            reveal_strlit("streak");
            reveal_strlit("best");
            reveal_strlit("dist");
            reveal_strlit("pool");
            reveal_strlit("dailies");
            assert("played"@ =~= key_played());
            assert("won"@ =~= key_won());
            assert("streak"@ =~= key_streak());
            assert("best"@ =~= key_best());
            assert("dist"@ =~= key_dist());
            assert("pool"@ =~= key_pool());
            assert("dailies"@ =~= key_dailies());
        }
        let mut out: Vec<char> = Vec::new();
        push_field(&mut out, "played", self.played as u64);
        push_field(&mut out, "won", self.won as u64);
        push_field(&mut out, "streak", self.streak as u64);
        push_field(&mut out, "best", self.best as u64);
        let ghost counts = out@;
        assert(counts =~= kv_line(key_played(), decimal(self.played as nat)) + kv_line(
            key_won(),
            decimal(self.won as nat),
        ) + kv_line(key_streak(), decimal(self.streak as nat)) + kv_line(
            key_best(),
            decimal(self.best as nat),
        ));
        push_str(&mut out, "dist");
        out.push('=');
        let mut k: usize = 0;
        let ghost start = out@;
        assert(start =~= counts + key_dist() + seq!['=']);
        while k < MAX_GUESSES
            invariant
                k <= MAX_GUESSES,
                self.dist@.len() == MAX_GUESSES,
                out@ == start + dist_prefix(self.dist@, k as int),
            decreases MAX_GUESSES - k,
        {
            if k > 0 {
                out.push(',');
            }
            push_decimal(&mut out, self.dist[k] as u64);
            k += 1;
            assert(out@ =~= start + dist_prefix(self.dist@, k as int));
        }
        out.push('\n');
        proof {
            reveal_with_fuel(dist_prefix, 7);
            assert(dist_prefix(self.dist@, 6) =~= dist_text(self.dist@));
        }
        let ghost with_dist = out@;
        assert(with_dist =~= counts + kv_line(key_dist(), dist_text(self.dist@)));
        push_field_str(&mut out, "pool", self.pool.key());
        let ghost with_pool = out@;
        assert(with_pool =~= counts + kv_line(key_dist(), dist_text(self.dist@)) + kv_line(
            key_pool(),
            spec_key(self.pool),
        ));
        if self.dailies.len() > 0 {
            push_str(&mut out, "dailies");
            out.push('=');
            let ghost at = out@;
            let mut k: usize = 0;
            while k < self.dailies.len()
                invariant
                    k <= self.dailies@.len(),
                    out@ == at + days_text(self.dailies@.take(k as int)),
                decreases self.dailies@.len() - k,
            {
                if k > 0 {
                    out.push(',');
                }
                push_decimal(&mut out, self.dailies[k]);
                k += 1;
                proof {
                    let t = self.dailies@.take(k as int);
                    assert(t.drop_last() =~= self.dailies@.take(k - 1));
                    if k == 1 {
                        assert(self.dailies@.take(0) =~= Seq::<u64>::empty());
                    }
                }
                assert(out@ =~= at + days_text(self.dailies@.take(k as int)));
            }
            assert(self.dailies@.take(k as int) =~= self.dailies@);
            out.push('\n');
            assert(out@ =~= with_pool + kv_line(key_dailies(), days_text(self.dailies@)));
        }
        let t = string_of(out.as_slice());
        assert(t@ =~= spec_to_text(self@));
        t
    }

    /// Whether the counters have room to count one more game: `record` would
    /// otherwise overflow one of them.
    pub open spec fn spec_has_room(&self, won: bool, guesses: usize) -> bool {
        &&& self.played < u32::MAX
        &&& won ==> self.won < u32::MAX
        &&& won ==> self.streak < u32::MAX
        &&& won && 1 <= guesses <= MAX_GUESSES ==> self.dist[guesses - 1] < u32::MAX
    }

    pub fn has_room(&self, won: bool, guesses: usize) -> (b: bool)
        ensures
            b == self.spec_has_room(won, guesses),
    {
        let slot_ok = if won && 1 <= guesses && guesses <= MAX_GUESSES {
            self.dist[guesses - 1] < u32::MAX
        } else {
            true
        };
        self.played < u32::MAX && (!won || (self.won < u32::MAX && self.streak < u32::MAX))
            && slot_ok
    }

    /// Whether `daily` names a day whose puzzle is already recorded.
    pub fn has_recorded(&self, daily: Option<u64>) -> (b: bool)
        ensures
            b == (daily matches Some(d) && self.dailies@.contains(d)),
    {
        match daily {
            Some(d) => {
                let mut i: usize = 0;
                while i < self.dailies.len()
                    invariant
                        daily == Some(d),
                        i <= self.dailies@.len(),
                        forall|j: int| 0 <= j < i ==> #[trigger] self.dailies@[j] != d,
                    decreases self.dailies@.len() - i,
                {
                    if self.dailies[i] == d {
                        assert(self.dailies@[i as int] == d);
                        return true;
                    }
                    i += 1;
                }
                false
            },
            None => false,
        }
    }

    /// Count a finished game. `daily` is the puzzle's day number in daily mode.
    /// Returns false, counting nothing, when that day's puzzle was already
    /// recorded, whichever days came between.
    pub fn record(&mut self, won: bool, guesses: usize, daily: Option<u64>) -> (counted: bool)
        requires
            (daily matches Some(d) && old(self).dailies@.contains(d)) || old(self).spec_has_room(
                won,
                guesses,
            ),
        ensures
            counted == !(daily matches Some(d) && old(self).dailies@.contains(d)),
            final(self)@ == spec_record(old(self)@, won, guesses, daily),
    {
        if self.has_recorded(daily) {
            return false;
        }
        if let Some(d) = daily {
            self.dailies.push(d);
        }
        self.played += 1;
        if won {
            self.won += 1;
            self.streak += 1;
            if self.streak > self.best {
                self.best = self.streak;
            }
            let slot = guesses.wrapping_sub(1);
            if slot < MAX_GUESSES {
                self.dist[slot] = self.dist[slot] + 1;
            }
        } else {
            self.streak = 0;
        }
        proof {
            assert(final(self)@.dist =~= spec_record(old(self)@, won, guesses, daily).dist);
        }
        true
    }

    pub fn win_percent(&self) -> (p: u32)
        ensures
            p == spec_win_percent(self.won, self.played),
    {
        if self.played == 0 {
            0
        } else {
            let won = self.won as u64;
            let played = self.played as u64;
            let p = (200 * won + played) / (2 * played);
            if p > u32::MAX as u64 {
                u32::MAX
            } else {
                p as u32
            }
        }
    }
}

/// The first `k` counts of the distribution, comma-separated.
spec fn dist_prefix(d: Seq<u32>, k: int) -> Seq<char>
    decreases k,
{
    if k <= 0 {
        Seq::empty()
    } else if k == 1 {
        decimal(d[0] as nat)
    } else {
        dist_prefix(d, k - 1) + seq![','] + decimal(d[k - 1] as nat)
    }
}

/// A count as the file holds it; anything unreadable counts as zero.
fn read_count(value: &[char]) -> (n: u32)
    ensures
        n == count_value(value@),
{
    match parse_uint(value, u32::MAX as u64) {
        Some(v) => v as u32,
        None => 0,
    }
}

/// Appends `key=value` and a newline.
fn push_field_str(out: &mut Vec<char>, key: &str, value: &str)
    ensures
        final(out)@ == old(out)@ + kv_line(key@, value@),
{
    push_str(out, key);
    out.push('=');
    push_str(out, value);
    out.push('\n');
    assert(final(out)@ =~= old(out)@ + kv_line(key@, value@));
}

/// Appends `key=value` and a newline.
fn push_field(out: &mut Vec<char>, key: &str, value: u64)
    ensures
        final(out)@ == old(out)@ + kv_line(key@, decimal(value as nat)),
{
    push_str(out, key);
    out.push('=');
    push_decimal(out, value);
    out.push('\n');
    assert(final(out)@ =~= old(out)@ + kv_line(key@, decimal(value as nat)));
}

/// Decimal digits are a well-formed value: no separators, no whitespace,
/// and they read back as the number.
proof fn lemma_decimal_value(n: nat, max: nat)
    requires
        n <= max,
    ensures
        decimal(n).len() > 0,
        forall|k: int|
            0 <= k < decimal(n).len() ==> {
                let c = #[trigger] decimal(n)[k];
                &&& c != '\n'
                &&& c != '\r'
                &&& c != ','
                &&& c != '='
                &&& !is_ws(c)
            },
        parse_nat(decimal(n), max) == Some(n),
        trim(decimal(n)) == decimal(n),
{
    lemma_decimal_parses(n);
    let d = decimal(n);
    assert forall|k: int| 0 <= k < d.len() implies {
        let c = #[trigger] d[k];
        &&& c != '\n'
        &&& c != '\r'
        &&& c != ','
        &&& c != '='
        &&& !is_ws(c)
    } by {
        assert(crate::text::is_digit(d[k]));
    }
    assert(crate::text::is_digit(d[0]));
    lemma_trim_noop(d);
}

/// One `key=value` line at the front of the text is the first line read,
/// and it splits back into its key and value.
proof fn lemma_read_kv(key: Seq<char>, value: Seq<char>, rest: Seq<char>)
    requires
        key.len() > 0,
        value.len() > 0,
        forall|k: int|
            0 <= k < key.len() ==> #[trigger] key[k] != '=' && key[k] != '\n' && !is_ws(key[k]),
        forall|k: int| 0 <= k < value.len() ==> #[trigger] value[k] != '\n',
        !is_ws(value[0]),
        !is_ws(value.last()),
        value.last() != '\r',
    ensures
        lines_of(kv_line(key, value) + rest) == seq![key + seq!['='] + value] + lines_of(rest),
        find_char(key + seq!['='] + value, '=') == Some(key.len()),
        trim((key + seq!['='] + value).take(key.len() as int)) == key,
        trim((key + seq!['='] + value).skip(key.len() as int + 1)) == value,
{
    let l = key + seq!['='] + value;
    assert forall|k: int| 0 <= k < l.len() implies #[trigger] l[k] != '\n' by {
        if k < key.len() {
        } else if k > key.len() {
            assert(l[k] == value[k - key.len() - 1]);
        }
    }
    lemma_lines_cons(l, rest, Seq::empty());
    assert(kv_line(key, value) + rest =~= l + seq!['\n'] + rest);
    assert(Seq::<char>::empty() + l =~= l);
    assert(l.last() == value.last());
    crate::text::lemma_find_char(l, '=', key.len() as int);
    assert(l.take(key.len() as int) =~= key);
    assert(l.skip(key.len() as int + 1) =~= value);
    lemma_trim_noop(key);
    lemma_trim_noop(value);
}

proof fn lemma_apply_lines_cons(st: StatsModel, l: Seq<char>, rest: Seq<Seq<char>>)
    ensures
        apply_lines(st, seq![l] + rest) == apply_lines(apply_line(st, l), rest),
{
    assert((seq![l] + rest).drop_first() =~= rest);
}

#[verifier::spinoff_prover]
#[verifier::rlimit(40)]
/// The distribution's text has no line break, no whitespace at its ends,
/// and splits back into the six counts.
proof fn lemma_dist_text(d: Seq<u32>, before: Seq<u32>)
    requires
        d.len() == MAX_GUESSES,
        before.len() == MAX_GUESSES,
    ensures
        dist_text(d).len() > 0,
        forall|k: int| 0 <= k < dist_text(d).len() ==> #[trigger] dist_text(d)[k] != '\n',
        !is_ws(dist_text(d)[0]),
        !is_ws(dist_text(d).last()),
        dist_text(d).last() != '\r',
        fill_dist(before, split_on(dist_text(d), ',')) == d,
{
    let vd = dist_text(d);
    lemma_decimal_value(d[0] as nat, u32::MAX as nat);
    lemma_decimal_value(d[1] as nat, u32::MAX as nat);
    lemma_decimal_value(d[2] as nat, u32::MAX as nat);
    lemma_decimal_value(d[3] as nat, u32::MAX as nat);
    lemma_decimal_value(d[4] as nat, u32::MAX as nat);
    lemma_decimal_value(d[5] as nat, u32::MAX as nat);
    let d0 = decimal(d[0] as nat);
    let d1 = decimal(d[1] as nat);
    let d2 = decimal(d[2] as nat);
    let d3 = decimal(d[3] as nat);
    let d4 = decimal(d[4] as nat);
    let d5 = decimal(d[5] as nat);
    let a = d0 + seq![','];
    let b = a + d1 + seq![','];
    let c = b + d2 + seq![','];
    let e = c + d3 + seq![','];
    let f = e + d4 + seq![','];
    assert(vd =~= f + d5);
    assert forall|k: int| 0 <= k < vd.len() implies #[trigger] vd[k] != '\n' by {
        if k < d0.len() {
            assert(vd[k] == d0[k]);
        } else if k < a.len() {
        } else if k < a.len() + d1.len() {
            assert(vd[k] == d1[k - a.len()]);
        } else if k < b.len() {
        } else if k < b.len() + d2.len() {
            assert(vd[k] == d2[k - b.len()]);
        } else if k < c.len() {
        } else if k < c.len() + d3.len() {
            assert(vd[k] == d3[k - c.len()]);
        } else if k < e.len() {
        } else if k < e.len() + d4.len() {
            assert(vd[k] == d4[k - e.len()]);
        } else if k < f.len() {
        } else {
            assert(vd[k] == d5[k - f.len()]);
        }
    }
    assert(vd[0] == d0[0]);
    assert(vd.last() == d5.last());
    let t4 = d5;
    let t3 = d4 + seq![','] + t4;
    let t2 = d3 + seq![','] + t3;
    let t1 = d2 + seq![','] + t2;
    let t0 = d1 + seq![','] + t1;
    assert(vd =~= d0 + seq![','] + t0);
    lemma_split_cons(d0, t0, ',', Seq::empty());
    lemma_split_cons(d1, t1, ',', Seq::empty());
    lemma_split_cons(d2, t2, ',', Seq::empty());
    lemma_split_cons(d3, t3, ',', Seq::empty());
    lemma_split_cons(d4, t4, ',', Seq::empty());
    lemma_split_cons(d5, Seq::empty(), ',', Seq::empty());
    assert(Seq::<char>::empty() + d0 =~= d0);
    assert(Seq::<char>::empty() + d1 =~= d1);
    assert(Seq::<char>::empty() + d2 =~= d2);
    assert(Seq::<char>::empty() + d3 =~= d3);
    assert(Seq::<char>::empty() + d4 =~= d4);
    assert(Seq::<char>::empty() + d5 =~= d5);
    let pieces = split_on(vd, ',');
    assert(pieces =~= seq![d0, d1, d2, d3, d4, d5]);
    assert(fill_dist(before, pieces) =~= d);
}

/// A pool's key is a well-formed value and reads back as the pool.
proof fn lemma_pool_value(p: Pool)
    ensures
        spec_key(p).len() > 0,
        forall|k: int| 0 <= k < spec_key(p).len() ==> #[trigger] spec_key(p)[k] != '\n',
        !is_ws(spec_key(p)[0]),
        !is_ws(spec_key(p).last()),
        spec_key(p).last() != '\r',
        spec_from_key(spec_key(p)) == Some(p),
{
    reveal_strlit("all");
    reveal_strlit("no_proper_names");
    reveal_strlit("common");
    crate::words::lemma_pool_key_round_trip(p);
}

proof fn lemma_count_line(key: Seq<char>, n: u32, rest: Seq<char>)
    requires
        key.len() > 0,
        forall|k: int|
            0 <= k < key.len() ==> #[trigger] key[k] != '=' && key[k] != '\n' && !is_ws(key[k]),
    ensures
        lines_of(kv_line(key, decimal(n as nat)) + rest) == seq![key + seq!['='] + decimal(n as nat)]
            + lines_of(rest),
        find_char(key + seq!['='] + decimal(n as nat), '=') == Some(key.len()),
        trim((key + seq!['='] + decimal(n as nat)).take(key.len() as int)) == key,
        trim((key + seq!['='] + decimal(n as nat)).skip(key.len() as int + 1)) == decimal(n as nat),
        count_value(decimal(n as nat)) == n,
{
    lemma_decimal_value(n as nat, u32::MAX as nat);
    let v = decimal(n as nat);
    assert(forall|k: int| 0 <= k < v.len() ==> #[trigger] v[k] != '\n');
    lemma_read_kv(key, v, rest);
}

/// The text of a list of days, split at its commas, is the days' decimals.
proof fn lemma_days_split(ds: Seq<u64>)
    requires
        ds.len() > 0,
    ensures
        split_on(days_text(ds), ',') == ds.map_values(|d: u64| decimal(d as nat)),
    decreases ds.len(),
{
    let d0 = decimal(ds[0] as nat);
    lemma_decimal_value(ds[0] as nat, u64::MAX as nat);
    if ds.len() == 1 {
        crate::text::lemma_split_cons(d0, Seq::empty(), ',', Seq::empty());
        assert(Seq::<char>::empty() + d0 =~= d0);
        assert(ds.map_values(|d: u64| decimal(d as nat)) =~= seq![d0]);
    } else {
        let rest = ds.drop_first();
        lemma_days_split(rest);
        lemma_days_text_front(ds);
        crate::text::lemma_split_cons(d0, days_text(rest), ',', Seq::empty());
        assert(Seq::<char>::empty() + d0 =~= d0);
        assert(ds.map_values(|d: u64| decimal(d as nat)) =~= seq![d0] + rest.map_values(
            |d: u64| decimal(d as nat),
        ));
    }
}

/// A list of two or more days reads as its first day, a comma, and the rest.
proof fn lemma_days_text_front(ds: Seq<u64>)
    requires
        ds.len() >= 2,
    ensures
        days_text(ds) == decimal(ds[0] as nat) + seq![','] + days_text(ds.drop_first()),
    decreases ds.len(),
{
    let a = ds.drop_last();
    let b = ds.drop_first();
    assert(days_text(ds) == days_text(a) + seq![','] + decimal(ds.last() as nat));
    if ds.len() == 2 {
        assert(a.len() == 1 && a[0] == ds[0]);
        assert(days_text(a) == decimal(ds[0] as nat));
        assert(b.len() == 1 && b[0] == ds[1]);
        assert(days_text(b) == decimal(ds[1] as nat));
        assert(ds.last() == ds[1]);
    } else {
        lemma_days_text_front(a);
        assert(a.drop_first() =~= b.drop_last());
        assert(a[0] == ds[0]);
        assert(b.last() == ds.last());
        assert(days_text(b) == days_text(b.drop_last()) + seq![','] + decimal(b.last() as nat));
        assert(days_text(ds) =~= decimal(ds[0] as nat) + seq![','] + days_text(b));
    }
}

/// Reading the decimals of some days gives the days back.
proof fn lemma_read_days(ds: Seq<u64>)
    ensures
        read_days(ds.map_values(|d: u64| decimal(d as nat))) == ds,
    decreases ds.len(),
{
    let ps = ds.map_values(|d: u64| decimal(d as nat));
    if ds.len() > 0 {
        lemma_read_days(ds.drop_last());
        assert(ps.drop_last() =~= ds.drop_last().map_values(|d: u64| decimal(d as nat)));
        lemma_decimal_value(ds.last() as nat, u64::MAX as nat);
        assert(ps.last() == decimal(ds.last() as nat));
        assert(day_value(ps.last()) == Some(ds.last()));
        assert(ds.drop_last().push(ds.last()) =~= ds);
    } else {
        assert(ps.len() == 0);
        assert(ds =~= Seq::<u64>::empty());
    }
}

/// The days' text is a well-formed value: digits and commas, starting and
/// ending with a digit, and it reads back as the days.
proof fn lemma_days_text(ds: Seq<u64>)
    requires
        ds.len() > 0,
    ensures
        days_text(ds).len() > 0,
        forall|k: int| 0 <= k < days_text(ds).len() ==> #[trigger] days_text(ds)[k] != '\n',
        !is_ws(days_text(ds)[0]),
        !is_ws(days_text(ds).last()),
        days_text(ds).last() != '\r',
        read_days(split_on(days_text(ds), ',')) == ds,
{
    lemma_days_chars(ds);
    let t = days_text(ds);
    assert forall|k: int| 0 <= k < t.len() implies #[trigger] t[k] != '\n' by {
        assert(crate::text::is_digit(t[k]) || t[k] == ',');
    }
    lemma_days_split(ds);
    lemma_read_days(ds);
}

proof fn lemma_days_chars(ds: Seq<u64>)
    requires
        ds.len() > 0,
    ensures
        days_text(ds).len() > 0,
        forall|k: int|
            0 <= k < days_text(ds).len() ==> (#[trigger] crate::text::is_digit(days_text(ds)[k])
                || days_text(ds)[k] == ','),
        crate::text::is_digit(days_text(ds)[0]),
        crate::text::is_digit(days_text(ds).last()),
    decreases ds.len(),
{
    let dl = decimal(ds.last() as nat);
    lemma_decimal_parses(ds.last() as nat);
    lemma_decimal_value(ds.last() as nat, u64::MAX as nat);
    assert(crate::text::is_digit(dl[0]));
    if ds.len() == 1 {
        assert forall|k: int| 0 <= k < dl.len() implies #[trigger] crate::text::is_digit(dl[k]) by {
        }
        assert(crate::text::is_digit(dl[dl.len() - 1]));
    } else {
        lemma_days_chars(ds.drop_last());
        let a = days_text(ds.drop_last());
        let t = a + seq![','] + dl;
        assert(days_text(ds) == t);
        assert forall|k: int| 0 <= k < t.len() implies (#[trigger] crate::text::is_digit(t[k])
            || t[k] == ',') by {
            if k < a.len() {
                assert(t[k] == a[k]);
            } else if k > a.len() {
                assert(t[k] == dl[k - a.len() - 1]);
            }
        }
        assert(t[0] == a[0]);
        assert(t.last() == dl.last());
        assert(crate::text::is_digit(dl[dl.len() - 1]));
    }
}

/// The days a `dailies=` value lists.
fn read_day_list(value: &[char]) -> (ds: Vec<u64>)
    ensures
        ds@ == read_days(split_on(value@, ',')),
{
    let pieces = split_chars(value, ',');
    let ghost ps = split_on(value@, ',');
    let mut ds: Vec<u64> = Vec::new();
    let mut k: usize = 0;
    assert(ps.take(0) =~= Seq::<Seq<char>>::empty());
    while k < pieces.len()
        invariant
            k <= pieces@.len(),
            pieces@.len() == ps.len(),
            ps == split_on(value@, ','),
            forall|j: int| 0 <= j < pieces@.len() ==> #[trigger] pieces@[j]@ == ps[j],
            ds@ == read_days(ps.take(k as int)),
        decreases pieces@.len() - k,
    {
        let t = trim_chars(pieces[k].as_slice());
        match parse_uint(t.as_slice(), u64::MAX) {
            Some(d) => ds.push(d),
            None => {},
        }
        k += 1;
        assert(ps.take(k as int).drop_last() =~= ps.take(k - 1));
    }
    assert(ps.take(k as int) =~= ps);
    ds
}

/// Writing the statistics out and reading the text back gives the same
/// statistics: every count, the distribution, the pool and the daily puzzles
/// recorded survive a restart.
#[verifier::spinoff_prover]
#[verifier::rlimit(50)]
pub proof fn lemma_stats_round_trip(s: StatsModel)
    requires
        s.dist.len() == MAX_GUESSES,
    ensures
        spec_parse(spec_to_text(s)) == s,
{
    let kp = key_played();
    let kw = key_won();
    let ks = key_streak();
    let kb = key_best();
    let kd = key_dist();
    let ko = key_pool();
    let kl = key_dailies();
    let vp = decimal(s.played as nat);
    let vw = decimal(s.won as nat);
    let vs = decimal(s.streak as nat);
    let vb = decimal(s.best as nat);
    let vd = dist_text(s.dist);
    let vo = spec_key(s.pool);
    let r6 = if s.dailies.len() > 0 {
        kv_line(kl, days_text(s.dailies))
    } else {
        Seq::empty()
    };
    let r5 = kv_line(ko, vo) + r6;
    let r4 = kv_line(kd, vd) + r5;
    let r3 = kv_line(kb, vb) + r4;
    let r2 = kv_line(ks, vs) + r3;
    let r1 = kv_line(kw, vw) + r2;
    let text = spec_to_text(s);
    assert(text =~= kv_line(kp, vp) + r1);
    let st0 = default_model();
    lemma_dist_text(s.dist, st0.dist);
    lemma_pool_value(s.pool);
    lemma_count_line(kp, s.played, r1);
    lemma_count_line(kw, s.won, r2);
    lemma_count_line(ks, s.streak, r3);
    lemma_count_line(kb, s.best, r4);
    lemma_read_kv(kd, vd, r5);
    lemma_read_kv(ko, vo, r6);
    let l1 = kp + seq!['='] + vp;
    let l2 = kw + seq!['='] + vw;
    let l3 = ks + seq!['='] + vs;
    let l4 = kb + seq!['='] + vb;
    let l5 = kd + seq!['='] + vd;
    let l6 = ko + seq!['='] + vo;
    lemma_apply_lines_cons(st0, l1, lines_of(r1));
    let st1 = apply_line(st0, l1);
    assert(st1 == StatsModel { played: s.played, ..st0 });
    lemma_apply_lines_cons(st1, l2, lines_of(r2));
    let st2 = apply_line(st1, l2);
    assert(st2 == StatsModel { won: s.won, ..st1 });
    lemma_apply_lines_cons(st2, l3, lines_of(r3));
    let st3 = apply_line(st2, l3);
    assert(st3 == StatsModel { streak: s.streak, ..st2 });
    lemma_apply_lines_cons(st3, l4, lines_of(r4));
    let st4 = apply_line(st3, l4);
    assert(st4 == StatsModel { best: s.best, ..st3 });
    lemma_apply_lines_cons(st4, l5, lines_of(r5));
    let st5 = apply_line(st4, l5);
    assert(st5 == StatsModel { dist: s.dist, ..st4 });
    lemma_apply_lines_cons(st5, l6, lines_of(r6));
    let st6 = apply_line(st5, l6);
    assert(st6 == StatsModel { pool: s.pool, ..st5 });
    if s.dailies.len() > 0 {
        {
            let vl = days_text(s.dailies);
            lemma_days_text(s.dailies);
            lemma_read_kv(kl, vl, Seq::empty());
            assert(kv_line(kl, vl) + Seq::<char>::empty() =~= kv_line(kl, vl));
            let l7 = kl + seq!['='] + vl;
            assert(lines_of(Seq::<char>::empty()) == Seq::<Seq<char>>::empty());
            assert(seq![l7] + Seq::<Seq<char>>::empty() =~= seq![l7]);
            lemma_apply_lines_cons(st6, l7, Seq::empty());
            assert(apply_line(st6, l7) == StatsModel { dailies: s.dailies, ..st6 });
        }
    } else {
        assert(lines_of(Seq::<char>::empty()) == Seq::<Seq<char>>::empty());
        assert(st6.dailies =~= s.dailies);
    }
}

/// In daily mode each day's puzzle counts once: once a day has been
/// recorded, recording it again, however the replay went, changes nothing.
pub proof fn lemma_daily_counts_once(
    s: StatsModel,
    won: bool,
    guesses: usize,
    replay_won: bool,
    replay_guesses: usize,
    day: u64,
)
    ensures
        spec_record(spec_record(s, won, guesses, Some(day)), replay_won, replay_guesses, Some(day))
            == spec_record(s, won, guesses, Some(day)),
{
    assert(s.dailies.push(day)[s.dailies.len() as int] == day);
}

/// The statistics after counting `games` in order, each a win flag, the
/// guesses taken and the day number in daily mode.
pub open spec fn record_all(s: StatsModel, games: Seq<(bool, usize, Option<u64>)>) -> StatsModel
    decreases games.len(),
{
    if games.len() == 0 {
        s
    } else {
        let g = games.last();
        spec_record(record_all(s, games.drop_last()), g.0, g.1, g.2)
    }
}

/// The days the statistics hold after a run of games are the days they held
/// before and the days of the daily games among them.
pub proof fn lemma_recorded_days(s: StatsModel, games: Seq<(bool, usize, Option<u64>)>, day: u64)
    ensures
        record_all(s, games).dailies.contains(day) <==> (s.dailies.contains(day) || exists|i: int|
            0 <= i < games.len() && #[trigger] games[i].2 == Some(day)),
    decreases games.len(),
{
    if games.len() > 0 {
        let before = games.drop_last();
        lemma_recorded_days(s, before, day);
        let r = record_all(s, before);
        let g = games.last();
        if r.dailies.contains(day) {
            let k = choose|k: int| 0 <= k < r.dailies.len() && r.dailies[k] == day;
            if let Some(d) = g.2 {
                assert(r.dailies.push(d)[k] == day);
            }
        }
        if g.2 == Some(day) {
            assert(games[games.len() - 1].2 == Some(day));
            assert(r.dailies.push(day)[r.dailies.len() as int] == day);
        }
        if exists|i: int| 0 <= i < games.len() && #[trigger] games[i].2 == Some(day) {
            let i = choose|i: int| 0 <= i < games.len() && #[trigger] games[i].2 == Some(day);
            if i < games.len() - 1 {
                assert(before[i].2 == Some(day));
            }
        }
        if exists|i: int| 0 <= i < before.len() && #[trigger] before[i].2 == Some(day) {
            let i = choose|i: int| 0 <= i < before.len() && #[trigger] before[i].2 == Some(day);
            assert(games[i].2 == Some(day));
        }
        let f = record_all(s, games);
        if f.dailies.contains(day) && !r.dailies.contains(day) {
            let k = choose|k: int| 0 <= k < f.dailies.len() && f.dailies[k] == day;
            match g.2 {
                Some(d) => {
                    if k < r.dailies.len() {
                        assert(r.dailies[k] == day);
                    }
                },
                None => {},
            }
        }
    }
}

/// Each day's puzzle counts once: after a run of games that included a
/// given day's puzzle, that day is refused and nothing changes, whatever
/// other days came between.
pub proof fn lemma_each_day_counts_once(
    s: StatsModel,
    games: Seq<(bool, usize, Option<u64>)>,
    i: int,
    won: bool,
    guesses: usize,
)
    requires
        0 <= i < games.len(),
        games[i].2 is Some,
    ensures
        spec_record(record_all(s, games), won, guesses, games[i].2) == record_all(s, games),
{
    let day = games[i].2->0;
    lemma_recorded_days(s, games, day);
}

/// A random game is always counted: it adds one to the games played.
pub proof fn lemma_random_games_always_count(s: StatsModel, won: bool, guesses: usize)
    requires
        s.played < u32::MAX,
    ensures
        spec_record(s, won, guesses, None).played == s.played + 1,
{
}

/// Counts that hang together: no more wins than games, a streak no longer
/// than the best one, the best no longer than the wins, and no more wins in
/// the distribution than wins in all.
pub open spec fn consistent(s: StatsModel) -> bool {
    &&& s.dist.len() == MAX_GUESSES
    &&& s.won <= s.played
    &&& s.streak <= s.best
    &&& s.best <= s.won
    &&& dist_sum(s.dist, MAX_GUESSES as int) <= s.won
}

pub open spec fn dist_sum(d: Seq<u32>, n: int) -> int
    decreases n,
{
    if n <= 0 {
        0
    } else {
        dist_sum(d, n - 1) + d[n - 1]
    }
}

proof fn lemma_dist_sum_bump(d: Seq<u32>, i: int, n: int)
    requires
        0 <= i < d.len(),
        0 <= n <= d.len(),
        d[i] < u32::MAX,
    ensures
        dist_sum(d.update(i, (d[i] + 1) as u32), n) == dist_sum(d, n) + if i < n {
            1int
        } else {
            0int
        },
    decreases n,
{
    if n > 0 {
        lemma_dist_sum_bump(d, i, n - 1);
    }
}

proof fn lemma_dist_entry_within_sum(d: Seq<u32>, i: int, n: int)
    requires
        0 <= i < n <= d.len(),
    ensures
        d[i] <= dist_sum(d, n),
    decreases n,
{
    if n - 1 > i {
        lemma_dist_entry_within_sum(d, i, n - 1);
    }
    lemma_dist_sum_nonneg(d, n - 1);
}

proof fn lemma_dist_sum_nonneg(d: Seq<u32>, n: int)
    ensures
        dist_sum(d, n) >= 0,
    decreases n,
{
    if n > 0 {
        lemma_dist_sum_nonneg(d, n - 1);
    }
}

/// Counting a game keeps the counts hanging together.
pub proof fn lemma_record_keeps_counts_consistent(
    s: StatsModel,
    won: bool,
    guesses: usize,
    daily: Option<u64>,
)
    requires
        consistent(s),
        s.played < u32::MAX,
    ensures
        consistent(spec_record(s, won, guesses, daily)),
{
    if won && 1 <= guesses <= MAX_GUESSES {
        lemma_dist_entry_within_sum(s.dist, guesses - 1, MAX_GUESSES as int);
        lemma_dist_sum_bump(s.dist, guesses - 1, MAX_GUESSES as int);
    }
}

/// The first four lines of the file are `played=`, `won=`, `streak=` and
/// `best=`, each followed by its own count in decimal.
pub proof fn lemma_each_count_has_its_key(s: StatsModel)
    ensures
        lines_of(spec_to_text(s)).len() >= 4,
        lines_of(spec_to_text(s))[0] == "played="@ + decimal(s.played as nat),
        lines_of(spec_to_text(s))[1] == "won="@ + decimal(s.won as nat),
        lines_of(spec_to_text(s))[2] == "streak="@ + decimal(s.streak as nat),
        lines_of(spec_to_text(s))[3] == "best="@ + decimal(s.best as nat),
{
    reveal_strlit("played=");
    reveal_strlit("won=");
    reveal_strlit("streak=");
    reveal_strlit("best=");
    let r4 = spec_to_text(s).skip(
        (kv_line(key_played(), decimal(s.played as nat)) + kv_line(key_won(), decimal(s.won as nat))
            + kv_line(key_streak(), decimal(s.streak as nat)) + kv_line(key_best(), decimal(s.best as nat))).len() as int,
    );
    let r3 = kv_line(key_best(), decimal(s.best as nat)) + r4;
    let r2 = kv_line(key_streak(), decimal(s.streak as nat)) + r3;
    let r1 = kv_line(key_won(), decimal(s.won as nat)) + r2;
    assert(spec_to_text(s) =~= kv_line(key_played(), decimal(s.played as nat)) + r1);
    lemma_count_line(key_played(), s.played, r1);
    lemma_count_line(key_won(), s.won, r2);
    lemma_count_line(key_streak(), s.streak, r3);
    lemma_count_line(key_best(), s.best, r4);
    assert(key_played() + seq!['='] =~= "played="@);
    assert(key_won() + seq!['='] =~= "won="@);
    assert(key_streak() + seq!['='] =~= "streak="@);
    assert(key_best() + seq!['='] =~= "best="@);
}

/// Reading a file of one count line sets that count, and only that count:
/// `streak=n` sets the streak to n, `best=n` the best streak, and so on.
pub proof fn lemma_a_count_line_sets_its_field(n: u32)
    ensures
        spec_parse("played="@ + decimal(n as nat) + "\n"@) == (StatsModel { played: n, ..default_model() }),
        spec_parse("won="@ + decimal(n as nat) + "\n"@) == (StatsModel { won: n, ..default_model() }),
        spec_parse("streak="@ + decimal(n as nat) + "\n"@) == (StatsModel { streak: n, ..default_model() }),
        spec_parse("best="@ + decimal(n as nat) + "\n"@) == (StatsModel { best: n, ..default_model() }),
{
    reveal_strlit("played=");
    reveal_strlit("won=");
    reveal_strlit("streak=");
    reveal_strlit("best=");
    reveal_strlit("\n");
    let v = decimal(n as nat);
    let e = Seq::<char>::empty();
    assert(lines_of(e) == Seq::<Seq<char>>::empty());
    lemma_one_count_line(key_played(), n);
    lemma_one_count_line(key_won(), n);
    lemma_one_count_line(key_streak(), n);
    lemma_one_count_line(key_best(), n);
    assert("played="@ + v + "\n"@ =~= kv_line(key_played(), v));
    assert("won="@ + v + "\n"@ =~= kv_line(key_won(), v));
    assert("streak="@ + v + "\n"@ =~= kv_line(key_streak(), v));
    assert("best="@ + v + "\n"@ =~= kv_line(key_best(), v));
    let d = default_model();
    assert(apply_line(d, key_played() + seq!['='] + v) == StatsModel { played: n, ..d });
    assert(apply_line(d, key_won() + seq!['='] + v) == StatsModel { won: n, ..d });
    assert(apply_line(d, key_streak() + seq!['='] + v) == StatsModel { streak: n, ..d });
    assert(apply_line(d, key_best() + seq!['='] + v) == StatsModel { best: n, ..d });
}

proof fn lemma_one_count_line(key: Seq<char>, n: u32)
    requires
        key.len() > 0,
        forall|k: int|
            0 <= k < key.len() ==> #[trigger] key[k] != '=' && key[k] != '\n' && !is_ws(key[k]),
    ensures
        spec_parse(kv_line(key, decimal(n as nat))) == apply_line(
            default_model(),
            key + seq!['='] + decimal(n as nat),
        ),
        find_char(key + seq!['='] + decimal(n as nat), '=') == Some(key.len()),
        trim((key + seq!['='] + decimal(n as nat)).take(key.len() as int)) == key,
        trim((key + seq!['='] + decimal(n as nat)).skip(key.len() as int + 1)) == decimal(n as nat),
        count_value(decimal(n as nat)) == n,
{
    let e = Seq::<char>::empty();
    lemma_count_line(key, n, e);
    assert(kv_line(key, decimal(n as nat)) + e =~= kv_line(key, decimal(n as nat)));
    assert(lines_of(e) == Seq::<Seq<char>>::empty());
    let l = key + seq!['='] + decimal(n as nat);
    assert(seq![l] + Seq::<Seq<char>>::empty() =~= seq![l]);
    lemma_apply_lines_cons(default_model(), l, Seq::empty());
}

/// A win within the six guesses fills its bar: when the game is counted,
/// the bar for that many guesses grows by one, every other bar stays, and
/// the wins in the distribution grow by one.
pub proof fn lemma_a_win_fills_its_bar(s: StatsModel, guesses: usize, daily: Option<u64>)
    requires
        s.dist.len() == MAX_GUESSES,
        1 <= guesses <= MAX_GUESSES,
        s.dist[guesses - 1] < u32::MAX,
        !(daily matches Some(d) && s.dailies.contains(d)),
    ensures
        spec_record(s, true, guesses, daily).dist[guesses - 1] == s.dist[guesses - 1] + 1,
        forall|i: int|
            0 <= i < MAX_GUESSES && i != guesses - 1 ==> #[trigger] spec_record(
                s,
                true,
                guesses,
                daily,
            ).dist[i] == s.dist[i],
        dist_sum(spec_record(s, true, guesses, daily).dist, MAX_GUESSES as int) == dist_sum(
            s.dist,
            MAX_GUESSES as int,
        ) + 1,
{
    lemma_dist_sum_bump(s.dist, guesses - 1, MAX_GUESSES as int);
}

} // verus!
