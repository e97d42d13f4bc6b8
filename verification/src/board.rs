//! What the board and keyboard show at a moment: each tile's face as the
//! reveal sweeps across it, which keys have lit up so far, and the verdict
//! line of a finished game.

use std::collections::HashMap;

use vstd::prelude::*;

use crate::anim::{spec_flip, Anim, Flip, FLIP_STAGGER};
use crate::words::{is_letter, lemma_alphabet_is_the_letters, ALPHABET};
use crate::game::{best_mark, keys_of, record_keys, Game, Guess, Mark, Status, WORD_LEN};

verus! {

/// What a single tile is showing.
#[derive(Clone, Copy, PartialEq, Eq, Debug, Structural)]
pub enum Face {
    /// An empty slot; `caret` marks where the next letter goes.
    Blank { caret: bool },
    /// A letter not yet scored: on the row being typed when `live` (it pops
    /// as it lands and tints with a rejection), otherwise a guess waiting for
    /// its turn to flip.
    Typed { letter: char, live: bool },
    /// Turning over, `elapsed` nanoseconds into its flip.
    Turning { letter: char, mark: Mark, elapsed: u64 },
    Scored { letter: char, mark: Mark },
}

/// The face of tile `col` of `row` at `now`.
pub open spec fn spec_tile(g: Game, a: Anim, row: usize, col: usize, now: u64) -> Face {
    if row < g.guesses@.len() {
        let guess = g.guesses@[row as int];
        let letter = guess.letters@[col as int];
        let mark = guess.marks@[col as int];
        match spec_flip(a, row, col as int, now) {
            Flip::Pending => Face::Typed { letter, live: false },
            Flip::Turning(elapsed) => Face::Turning { letter, mark, elapsed },
            Flip::Done => Face::Scored { letter, mark },
        }
    } else {
        let input_row = row == g.guesses@.len() && g.status == Status::Playing;
        if input_row && col < g.input@.len() {
            Face::Typed { letter: g.input@[col as int], live: true }
        } else {
            Face::Blank { caret: input_row && col == g.input@.len() && !a.spec_busy(now) }
        }
    }
}

/// The face of tile `col` of `row` at `now`: guesses turn over as the
/// reveal reaches them, the row being typed shows its letters, and the caret
/// waits in the next slot once the board is still.
pub fn tile(g: &Game, a: &Anim, row: usize, col: usize, now: u64) -> (f: Face)
    requires
        g.wf(),
        a.wf(),
        col < WORD_LEN,
    ensures
        f == spec_tile(*g, *a, row, col, now),
{
    if row < g.guesses.len() {
        let guess = &g.guesses[row];
        let letter = guess.letters[col];
        let mark = guess.marks[col];
        return match a.flip(row, col, now) {
            Flip::Pending => Face::Typed { letter, live: false },
            Flip::Turning(elapsed) => Face::Turning { letter, mark, elapsed },
            Flip::Done => Face::Scored { letter, mark },
        };
    }
    let input_row = row == g.guesses.len() && !g.is_over();
    if input_row && col < g.input.len() {
        Face::Typed { letter: g.input[col], live: true }
    } else {
        Face::Blank { caret: input_row && col == g.input.len() && !a.busy(now) }
    }
}

/// Whether tile `col` of `row` has finished turning over at `now`.
pub open spec fn landed(a: Anim, row: int, col: int, now: u64) -> bool {
    spec_flip(a, row as usize, col, now) == Flip::Done
}

/// The keyboard after the first `n` tiles of guess `row` light their keys,
/// counting only the tiles that have landed.
pub open spec fn record_landed(
    kb: Map<u32, Mark>,
    guess: Guess,
    row: int,
    a: Anim,
    now: u64,
    n: nat,
) -> Map<u32, Mark>
    decreases n,
{
    if n == 0 {
        kb
    } else {
        let prev = record_landed(kb, guess, row, a, now, (n - 1) as nat);
        let k = guess.letters@[n - 1] as u32;
        if landed(a, row, n - 1, now) {
            prev.insert(
                k,
                best_mark(
                    if prev.contains_key(k) {
                        Some(prev[k])
                    } else {
                        None
                    },
                    guess.marks@[n - 1],
                ),
            )
        } else {
            prev
        }
    }
}

/// The keys the first `n` guesses of `rows` have lit at `now`.
pub open spec fn landed_keys(rows: Seq<Guess>, a: Anim, now: u64, n: nat) -> Map<u32, Mark>
    decreases n,
{
    if n == 0 {
        Map::empty()
    } else {
        record_landed(
            landed_keys(rows, a, now, (n - 1) as nat),
            rows[n - 1],
            n - 1,
            a,
            now,
            WORD_LEN as nat,
        )
    }
}

/// The best mark each letter has earned, counting only tiles that have
/// finished turning over: a key lights up as its tile lands, not before.
/// Keys are the letters' code points.
pub fn revealed_keys(g: &Game, a: &Anim, now: u64) -> (keys: HashMap<u32, Mark>)
    requires
        g.wf(),
        a.wf(),
    ensures
        keys@ == landed_keys(g.guesses@, *a, now, g.guesses@.len()),
{
    let mut keys: HashMap<u32, Mark> = HashMap::new();
    let mut row: usize = 0;
    while row < g.guesses.len()
        invariant
            g.wf(),
            a.wf(),
            row <= g.guesses@.len(),
            keys@ == landed_keys(g.guesses@, *a, now, row as nat),
        decreases g.guesses@.len() - row,
    {
        let guess = &g.guesses[row];
        let ghost start = keys@;
        let mut col: usize = 0;
        while col < WORD_LEN
            invariant
                g.wf(),
                a.wf(),
                row < g.guesses@.len(),
                *guess == g.guesses@[row as int],
                col <= WORD_LEN,
                keys@ == record_landed(start, *guess, row as int, *a, now, col as nat),
            decreases WORD_LEN - col,
        {
            broadcast use vstd::std_specs::hash::group_hash_axioms;

            if a.flip(row, col, now) == Flip::Done {
                let k = guess.letters[col] as u32;
                let m = guess.marks[col];
                let next = match keys.get(&k) {
                    Some(best) => if m.rank() > best.rank() {
                        m
                    } else {
                        *best
                    },
                    None => m,
                };
                keys.insert(k, next);
            }
            col += 1;
        }
        row += 1;
    }
    keys
}

proof fn lemma_all_landed_row(kb: Map<u32, Mark>, guess: Guess, row: int, a: Anim, now: u64, n: nat)
    requires
        n <= WORD_LEN,
        forall|c: int| 0 <= c < WORD_LEN ==> #[trigger] landed(a, row, c, now),
    ensures
        record_landed(kb, guess, row, a, now, n) == record_keys(
            kb,
            guess.letters@,
            guess.marks@,
            n,
        ),
    decreases n,
{
    if n > 0 {
        lemma_all_landed_row(kb, guess, row, a, now, (n - 1) as nat);
        assert(landed(a, row, n - 1, now));
    }
}

proof fn lemma_all_landed(rows: Seq<Guess>, a: Anim, now: u64, n: nat)
    requires
        n <= rows.len(),
        forall|r: int, c: int| 0 <= r < n && 0 <= c < WORD_LEN ==> #[trigger] landed(a, r, c, now),
    ensures
        landed_keys(rows, a, now, n) == keys_of(rows, n),
    decreases n,
{
    if n > 0 {
        lemma_all_landed(rows, a, now, (n - 1) as nat);
        assert forall|c: int| 0 <= c < WORD_LEN implies #[trigger] landed(a, n - 1, c, now) by {
            assert(landed(a, n - 1, c, now));
        }
        lemma_all_landed_row(
            landed_keys(rows, a, now, (n - 1) as nat),
            rows[n - 1],
            n - 1,
            a,
            now,
            WORD_LEN as nat,
        );
    }
}

/// Once every tile has landed, the keyboard shows exactly the marks the game
/// has recorded for each letter.
pub proof fn lemma_landed_keyboard_is_the_games(g: Game, a: Anim, now: u64)
    requires
        g.wf(),
        a.spec_reveal_end() matches Some(e) ==> now >= e,
    ensures
        landed_keys(g.guesses@, a, now, g.guesses@.len()) == g.keyboard@,
{
    assert forall|r: int, c: int|
        0 <= r < g.guesses@.len() && 0 <= c < WORD_LEN implies #[trigger] landed(a, r, c, now) by {
        match a.reveal {
            Some((row, t0)) => {
                assert(FLIP_STAGGER * c <= FLIP_STAGGER * (WORD_LEN - 1)) by (nonlinear_arith)
                    requires
                        0 <= c < WORD_LEN,
                ;
            },
            None => {},
        }
    }
    lemma_all_landed(g.guesses@, a, now, g.guesses@.len());
}

/// The verdict on a win in `guesses` guesses.
pub open spec fn spec_verdict(guesses: usize) -> Seq<char> {
    if guesses == 1 {
        "Θαυμάσιο!"@
    } else if guesses == 2 {
        "Έξοχο!"@
    } else if guesses == 3 {
        "Πολύ καλά!"@
    } else if guesses == 4 {
        "Ωραία!"@
    } else if guesses == 5 {
        "Καλά!"@
    } else {
        "Μόλις που τα κατάφερες!"@
    }
}

/// The verdict on a win in `guesses` guesses, warmer the sooner it came.
pub fn verdict(guesses: usize) -> (v: &'static str)
    ensures
        v@ == spec_verdict(guesses),
{
    if guesses == 1 {
        "Θαυμάσιο!"
    } else if guesses == 2 {
        "Έξοχο!"
    } else if guesses == 3 {
        "Πολύ καλά!"
    } else if guesses == 4 {
        "Ωραία!"
    } else if guesses == 5 {
        "Καλά!"
    } else {
        "Μόλις που τα κατάφερες!"
    }
}

/// The on-screen keyboard, laid out the way a Greek keyboard physically is,
/// minus the two keys (`;` and `ς`) that add no letter of their own.
pub const KEY_TOP: &'static str = "ερτυθιοπ";
pub const KEY_HOME: &'static str = "ασδφγηξκλ";
pub const KEY_BOTTOM: &'static str = "ζχψωβνμ";

/// The keyboard's letters, row by row.
pub open spec fn key_letters() -> Seq<char> {
    KEY_TOP@ + KEY_HOME@ + KEY_BOTTOM@
}

/// The keyboard holds exactly the 24-letter alphabet, each letter once.
pub proof fn lemma_keyboard_is_the_alphabet()
    ensures
        key_letters().len() == 24,
        forall|i: int, j: int|
            0 <= i < j < 24 ==> #[trigger] key_letters()[i] != #[trigger] key_letters()[j],
        forall|c: char| key_letters().contains(c) <==> is_letter(c),
{
    reveal_strlit("ερτυθιοπ");
    reveal_strlit("ασδφγηξκλ");
    reveal_strlit("ζχψωβνμ");
    reveal_strlit("αβγδεζηθικλμνξοπρστυφχψω");
    lemma_alphabet_is_the_letters();
    let k = key_letters();
    let a = ALPHABET@;
    assert(k =~= seq!['ε', 'ρ', 'τ', 'υ', 'θ', 'ι', 'ο', 'π', 'α', 'σ', 'δ', 'φ', 'γ', 'η', 'ξ', 'κ', 'λ', 'ζ', 'χ', 'ψ', 'ω', 'β', 'ν', 'μ']);
    assert(k[8] == a[0]);
    assert(k[21] == a[1]);
    assert(k[12] == a[2]);
    assert(k[10] == a[3]);
    assert(k[0] == a[4]);
    assert(k[17] == a[5]);
    assert(k[13] == a[6]);
    assert(k[4] == a[7]);
    assert(k[5] == a[8]);
    assert(k[15] == a[9]);
    assert(k[16] == a[10]);
    assert(k[23] == a[11]);
    assert(k[22] == a[12]);
    assert(k[14] == a[13]);
    assert(k[6] == a[14]);
    assert(k[7] == a[15]);
    assert(k[1] == a[16]);
    assert(k[9] == a[17]);
    assert(k[2] == a[18]);
    assert(k[3] == a[19]);
    assert(k[11] == a[20]);
    assert(k[18] == a[21]);
    assert(k[19] == a[22]);
    assert(k[20] == a[23]);
    assert forall|c: char| k.contains(c) <==> is_letter(c) by {
        if is_letter(c) {
            assert(a.contains(c));
            let i = choose|i: int| 0 <= i < a.len() && a[i] == c;
            assert(0 <= i < 24);
        }
    }
}

} // verus!
