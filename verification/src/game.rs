//! Game rules: scoring a guess and tracking board state.

use std::collections::HashMap;

use vstd::prelude::*;

use crate::text::string_of;
use crate::words::{upper, uppercase_head, Dictionary, Entry};

verus! {

pub const WORD_LEN: usize = 5;
pub const MAX_GUESSES: usize = 6;

#[derive(Clone, Copy, PartialEq, Eq, Debug, Structural)]
pub enum Mark {
    Correct,
    Present,
    Absent,
}

impl Mark {
    pub open spec fn spec_rank(self) -> u8 {
        match self {
            Mark::Absent => 0,
            Mark::Present => 1,
            Mark::Correct => 2,
        }
    }

    /// Ranking used to keep the best result a letter has ever earned on the
    /// on-screen keyboard: a green key must never fall back to yellow.
    #[verifier::when_used_as_spec(spec_rank)]
    pub fn rank(self) -> (r: u8)
        ensures
            r == self.spec_rank(),
    {
        match self {
            Mark::Absent => 0,
            Mark::Present => 1,
            Mark::Correct => 2,
        }
    }
}

pub open spec fn ind(b: bool) -> int {
    if b {
        1
    } else {
        0
    }
}

/// Whether position `k` of the guess matches the answer exactly.
pub open spec fn exact(g: Seq<char>, a: Seq<char>, k: int) -> bool {
    g[k] == a[k]
}

/// How many positions of the answer hold `c` without being matched exactly:
/// the copies of `c` that misplaced guesses may still light up.
pub open spec fn spare(g: Seq<char>, a: Seq<char>, c: char) -> int {
    ind(a[0] == c && !exact(g, a, 0)) + ind(a[1] == c && !exact(g, a, 1)) + ind(
        a[2] == c && !exact(g, a, 2),
    ) + ind(a[3] == c && !exact(g, a, 3)) + ind(a[4] == c && !exact(g, a, 4))
}

/// How many inexact positions before `i` the guess spends on `c`.
pub open spec fn earlier(g: Seq<char>, a: Seq<char>, c: char, i: int) -> int {
    ind(0 < i && g[0] == c && !exact(g, a, 0)) + ind(1 < i && g[1] == c && !exact(g, a, 1)) + ind(
        2 < i && g[2] == c && !exact(g, a, 2),
    ) + ind(3 < i && g[3] == c && !exact(g, a, 3)) + ind(4 < i && g[4] == c && !exact(g, a, 4))
}

/// The mark a guess earns at position `i`: green on an exact match, yellow
/// while the answer still has an unmatched copy of the letter left over for
/// this position after the earlier misplaced guesses of it, grey otherwise.
pub open spec fn mark_at(g: Seq<char>, a: Seq<char>, i: int) -> Mark {
    if exact(g, a, i) {
        Mark::Correct
    } else if earlier(g, a, g[i], i) < spare(g, a, g[i]) {
        Mark::Present
    } else {
        Mark::Absent
    }
}

pub open spec fn spec_score(g: Seq<char>, a: Seq<char>) -> Seq<Mark> {
    Seq::new(WORD_LEN as nat, |i: int| mark_at(g, a, i))
}

/// How many times `c` occurs in the five letters `w`.
pub open spec fn occurrences(w: Seq<char>, c: char) -> int {
    ind(w[0] == c) + ind(w[1] == c) + ind(w[2] == c) + ind(w[3] == c) + ind(w[4] == c)
}

/// How many tiles of letter `c` the scored guess lights (green or yellow).
pub open spec fn lit(w: Seq<char>, marks: Seq<Mark>, c: char) -> int {
    ind(w[0] == c && marks[0] != Mark::Absent) + ind(w[1] == c && marks[1] != Mark::Absent) + ind(
        w[2] == c && marks[2] != Mark::Absent,
    ) + ind(w[3] == c && marks[3] != Mark::Absent) + ind(w[4] == c && marks[4] != Mark::Absent)
}

/// Repeated letters light up no more tiles than the answer has copies: for
/// every letter, the lit tiles of it number exactly the smaller of its count
/// in the guess and its count in the answer.
pub proof fn lemma_lit_tiles_match_letter_counts(g: Seq<char>, a: Seq<char>, c: char)
    requires
        g.len() == WORD_LEN,
        a.len() == WORD_LEN,
    ensures
        lit(g, spec_score(g, a), c) == min(occurrences(g, c), occurrences(a, c)),
{
    let m = spec_score(g, a);
    assert(m[0] == mark_at(g, a, 0));
    assert(m[1] == mark_at(g, a, 1));
    assert(m[2] == mark_at(g, a, 2));
    assert(m[3] == mark_at(g, a, 3));
    assert(m[4] == mark_at(g, a, 4));
}

/// A guess scores five greens exactly when it is the answer.
pub proof fn lemma_all_correct_iff_answer(g: Seq<char>, a: Seq<char>)
    requires
        g.len() == WORD_LEN,
        a.len() == WORD_LEN,
    ensures
        (forall|i: int| 0 <= i < WORD_LEN ==> #[trigger] spec_score(g, a)[i] == Mark::Correct)
            <==> g == a,
{
    if g == a {
        assert forall|i: int| 0 <= i < WORD_LEN implies #[trigger] spec_score(g, a)[i] == Mark::Correct by {
            assert(exact(g, a, i));
        }
    }
    if forall|i: int| 0 <= i < WORD_LEN ==> #[trigger] spec_score(g, a)[i] == Mark::Correct {
        assert forall|i: int| 0 <= i < WORD_LEN implies g[i] == a[i] by {
            assert(spec_score(g, a)[i] == Mark::Correct);
        }
        assert(g =~= a);
    }
}

/// Answer positions already claimed by an inexact guess of `c`.
spec fn claimed_count(claimed: Seq<bool>, g: Seq<char>, a: Seq<char>, c: char) -> int {
    ind(claimed[0] && a[0] == c && !exact(g, a, 0)) + ind(claimed[1] && a[1] == c && !exact(g, a, 1))
        + ind(claimed[2] && a[2] == c && !exact(g, a, 2)) + ind(
        claimed[3] && a[3] == c && !exact(g, a, 3),
    ) + ind(claimed[4] && a[4] == c && !exact(g, a, 4))
}

pub open spec fn min(x: int, y: int) -> int {
    if x <= y {
        x
    } else {
        y
    }
}

proof fn lemma_unclaimed_copy(claimed: Seq<bool>, g: Seq<char>, a: Seq<char>, c: char, j: int)
    requires
        claimed.len() == WORD_LEN,
        g.len() == WORD_LEN,
        a.len() == WORD_LEN,
        0 <= j < WORD_LEN,
        !claimed[j],
        a[j] == c,
        forall|k: int| 0 <= k < WORD_LEN && exact(g, a, k) ==> #[trigger] claimed[k],
    ensures
        claimed_count(claimed, g, a, c) < spare(g, a, c),
{
}

proof fn lemma_claim_one(
    before: Seq<bool>,
    after: Seq<bool>,
    g: Seq<char>,
    a: Seq<char>,
    c: char,
    j: int,
    i: int,
)
    requires
        before.len() == WORD_LEN,
        g.len() == WORD_LEN,
        a.len() == WORD_LEN,
        0 <= j < WORD_LEN,
        0 <= i < WORD_LEN,
        !before[j],
        a[j] == c,
        g[i] == c,
        !exact(g, a, i),
        after == before.update(j, true),
        forall|k: int| 0 <= k < WORD_LEN && exact(g, a, k) ==> #[trigger] before[k],
        claimed_count(before, g, a, c) < spare(g, a, c),
        forall|cc: char|
            #[trigger] claimed_count(before, g, a, cc) == min(earlier(g, a, cc, i), spare(g, a, cc)),
    ensures
        earlier(g, a, c, i) < spare(g, a, c),
        forall|cc: char|
            #[trigger] claimed_count(after, g, a, cc) == min(earlier(g, a, cc, i + 1), spare(g, a, cc)),
{
    assert forall|cc: char|
        #[trigger] claimed_count(after, g, a, cc) == min(earlier(g, a, cc, i + 1), spare(g, a, cc)) by {
        assert(claimed_count(before, g, a, cc) == min(earlier(g, a, cc, i), spare(g, a, cc)));
        if cc == c {
            assert(claimed_count(after, g, a, cc) == claimed_count(before, g, a, cc) + 1);
            assert(earlier(g, a, cc, i + 1) == earlier(g, a, cc, i) + 1);
        } else {
            assert(claimed_count(after, g, a, cc) == claimed_count(before, g, a, cc));
            assert(earlier(g, a, cc, i + 1) == earlier(g, a, cc, i));
        }
    }
}

proof fn lemma_no_unclaimed_copy(claimed: Seq<bool>, g: Seq<char>, a: Seq<char>, c: char, i: int)
    requires
        claimed.len() == WORD_LEN,
        g.len() == WORD_LEN,
        a.len() == WORD_LEN,
        0 <= i < WORD_LEN,
        g[i] == c,
        !exact(g, a, i),
        forall|k: int| 0 <= k < WORD_LEN ==> (#[trigger] claimed[k] || a[k] != c),
        forall|cc: char|
            #[trigger] claimed_count(claimed, g, a, cc) == min(earlier(g, a, cc, i), spare(g, a, cc)),
    ensures
        mark_at(g, a, i) == Mark::Absent,
        forall|cc: char|
            #[trigger] claimed_count(claimed, g, a, cc) == min(earlier(g, a, cc, i + 1), spare(g, a, cc)),
{
    assert(claimed[0] || a[0] != c);
    assert(claimed[1] || a[1] != c);
    assert(claimed[2] || a[2] != c);
    assert(claimed[3] || a[3] != c);
    assert(claimed[4] || a[4] != c);
    assert(claimed_count(claimed, g, a, c) == spare(g, a, c));
    assert(claimed_count(claimed, g, a, c) == min(earlier(g, a, c, i), spare(g, a, c)));
    assert forall|cc: char|
        #[trigger] claimed_count(claimed, g, a, cc) == min(earlier(g, a, cc, i + 1), spare(g, a, cc)) by {
        assert(claimed_count(claimed, g, a, cc) == min(earlier(g, a, cc, i), spare(g, a, cc)));
        if cc == c {
            assert(earlier(g, a, cc, i + 1) == earlier(g, a, cc, i) + 1);
        } else {
            assert(earlier(g, a, cc, i + 1) == earlier(g, a, cc, i));
        }
    }
}

proof fn lemma_earlier_skips_exact(g: Seq<char>, a: Seq<char>, i: int)
    requires
        g.len() == WORD_LEN,
        a.len() == WORD_LEN,
        0 <= i < WORD_LEN,
        exact(g, a, i),
    ensures
        forall|cc: char| #[trigger] earlier(g, a, cc, i + 1) == earlier(g, a, cc, i),
{
}

/// Score a guess against the answer.
///
/// Two passes, so repeated letters behave like real Wordle: exact positions
/// claim their letter first, then remaining letters are matched against what
/// is left over. A letter guessed twice against an answer containing it once
/// yields one hit and one miss.
pub fn score(guess: &[char; WORD_LEN], answer: &[char; WORD_LEN]) -> (marks: [Mark; WORD_LEN])
    ensures
        marks@ == spec_score(guess@, answer@),
{
    let ghost g = guess@;
    let ghost a = answer@;
    let mut marks = [Mark::Absent;WORD_LEN];
    let mut claimed = [false;WORD_LEN];

    for i in 0..WORD_LEN
        invariant
            g == guess@,
            a == answer@,
            g.len() == WORD_LEN,
            a.len() == WORD_LEN,
            marks@.len() == WORD_LEN,
            claimed@.len() == WORD_LEN,
            forall|k: int| 0 <= k < WORD_LEN ==> (#[trigger] marks@[k] == Mark::Correct <==> (k < i && exact(g, a, k))),
            forall|k: int| 0 <= k < WORD_LEN ==> marks@[k] != Mark::Present,
            forall|k: int| 0 <= k < WORD_LEN ==> (#[trigger] claimed@[k] <==> (k < i && exact(g, a, k))),
    {
        if guess[i] == answer[i] {
            marks[i] = Mark::Correct;
            claimed[i] = true;
        }
    }
    assert(forall|c: char| #[trigger] claimed_count(claimed@, g, a, c) == 0);
    for i in 0..WORD_LEN
        invariant
            g == guess@,
            a == answer@,
            g.len() == WORD_LEN,
            a.len() == WORD_LEN,
            marks@.len() == WORD_LEN,
            claimed@.len() == WORD_LEN,
            forall|k: int| 0 <= k < i ==> #[trigger] marks@[k] == mark_at(g, a, k),
            forall|k: int|
                i <= k < WORD_LEN ==> #[trigger] marks@[k] == (if exact(g, a, k) {
                    Mark::Correct
                } else {
                    Mark::Absent
                }),
            forall|k: int| 0 <= k < WORD_LEN && exact(g, a, k) ==> #[trigger] claimed@[k],
            forall|c: char|
                #[trigger] claimed_count(claimed@, g, a, c) == min(earlier(g, a, c, i as int), spare(g, a, c)),
    {
        if marks[i] != Mark::Correct {
            let c = guess[i];
            let mut j: usize = 0;
            while j < WORD_LEN
                invariant_except_break
                    0 <= j <= WORD_LEN,
                    forall|k: int| 0 <= k < j ==> (#[trigger] claimed@[k] || a[k] != c),
                    marks@[i as int] == Mark::Absent,
                    forall|cc: char|
                        #[trigger] claimed_count(claimed@, g, a, cc) == min(
                            earlier(g, a, cc, i as int),
                            spare(g, a, cc),
                        ),
                invariant
                    g == guess@,
                    a == answer@,
                    g.len() == WORD_LEN,
                    a.len() == WORD_LEN,
                    marks@.len() == WORD_LEN,
                    claimed@.len() == WORD_LEN,
                    0 <= i < WORD_LEN,
                    c == g[i as int],
                    !exact(g, a, i as int),
                    forall|k: int| 0 <= k < i ==> #[trigger] marks@[k] == mark_at(g, a, k),
                    forall|k: int|
                        i < k < WORD_LEN ==> #[trigger] marks@[k] == (if exact(g, a, k) {
                            Mark::Correct
                        } else {
                            Mark::Absent
                        }),
                    forall|k: int| 0 <= k < WORD_LEN && exact(g, a, k) ==> #[trigger] claimed@[k],
                ensures
                    j < WORD_LEN ==> marks@[i as int] == mark_at(g, a, i as int),
                    j < WORD_LEN ==> forall|cc: char|
                        #[trigger] claimed_count(claimed@, g, a, cc) == min(
                            earlier(g, a, cc, i + 1),
                            spare(g, a, cc),
                        ),
                    j >= WORD_LEN ==> marks@[i as int] == Mark::Absent,
                    j >= WORD_LEN ==> forall|k: int|
                        0 <= k < WORD_LEN ==> (#[trigger] claimed@[k] || a[k] != c),
                    j >= WORD_LEN ==> forall|cc: char|
                        #[trigger] claimed_count(claimed@, g, a, cc) == min(
                            earlier(g, a, cc, i as int),
                            spare(g, a, cc),
                        ),
                decreases WORD_LEN - j,
            {
                if !claimed[j] && answer[j] == c {
                    let ghost before = claimed@;
                    proof {
                        lemma_unclaimed_copy(before, g, a, c, j as int);
                    }
                    marks[i] = Mark::Present;
                    claimed[j] = true;
                    proof {
                        lemma_claim_one(before, claimed@, g, a, c, j as int, i as int);
                    }
                    break;
                }
                j += 1;
            }
            proof {
                if j >= WORD_LEN {
                    lemma_no_unclaimed_copy(claimed@, g, a, c, i as int);
                }
            }
            assert(marks@[i as int] == mark_at(g, a, i as int));
        } else {
            proof {
                lemma_earlier_skips_exact(g, a, i as int);
            }
            assert(marks@[i as int] == mark_at(g, a, i as int));
        }
    }
    assert(marks@ =~= spec_score(g, a));
    marks
}

#[derive(Clone, Copy, PartialEq, Eq, Debug, Structural)]
pub enum Status {
    Playing,
    Won,
    Lost,
}

pub struct Guess {
    pub letters: [char; WORD_LEN],
    pub marks: [Mark; WORD_LEN],
}

/// The better of a letter's best mark so far and a new one.
pub open spec fn best_mark(so_far: Option<Mark>, m: Mark) -> Mark {
    match so_far {
        Some(b) => if m.spec_rank() > b.spec_rank() {
            m
        } else {
            b
        },
        None => m,
    }
}

/// The keyboard after the first `n` tiles of a scored guess light their keys,
/// each key keeping the best mark its letter has earned. Keys are the
/// letters' code points.
pub open spec fn record_keys(kb: Map<u32, Mark>, letters: Seq<char>, marks: Seq<Mark>, n: nat) -> Map<
    u32,
    Mark,
>
    decreases n,
{
    if n == 0 {
        kb
    } else {
        let prev = record_keys(kb, letters, marks, (n - 1) as nat);
        let k = letters[n - 1] as u32;
        prev.insert(
            k,
            best_mark(
                if prev.contains_key(k) {
                    Some(prev[k])
                } else {
                    None
                },
                marks[n - 1],
            ),
        )
    }
}

/// A key that has lit up never goes dark or falls back to a lesser colour,
/// and every letter of the guess lights its key at least as brightly as its
/// own tile.
pub proof fn lemma_keyboard_never_downgrades(
    kb: Map<u32, Mark>,
    letters: Seq<char>,
    marks: Seq<Mark>,
    n: nat,
)
    requires
        n <= letters.len(),
        n <= marks.len(),
    ensures
        forall|k: u32|
            #[trigger] kb.contains_key(k) ==> record_keys(kb, letters, marks, n).contains_key(k)
                && record_keys(kb, letters, marks, n)[k].spec_rank() >= kb[k].spec_rank(),
        forall|i: int|
            0 <= i < n ==> record_keys(kb, letters, marks, n).contains_key(#[trigger] (letters[i] as u32))
                && record_keys(kb, letters, marks, n)[letters[i] as u32].spec_rank()
                >= marks[i].spec_rank(),
        forall|k: u32|
            #[trigger] record_keys(kb, letters, marks, n).contains_key(k) ==> kb.contains_key(k)
                || exists|i: int| 0 <= i < n && k == (letters[i] as u32),
    decreases n,
{
    if n > 0 {
        lemma_keyboard_never_downgrades(kb, letters, marks, (n - 1) as nat);
        let prev = record_keys(kb, letters, marks, (n - 1) as nat);
        let cur = record_keys(kb, letters, marks, n);
        assert forall|k: u32| #[trigger] cur.contains_key(k) implies kb.contains_key(k) || exists|
            i: int,
        | 0 <= i < n && k == (letters[i] as u32) by {
            if k != letters[n - 1] as u32 {
                assert(prev.contains_key(k));
            }
        }
    }
}

/// The keyboard lit by the first `n` guesses of `rows`.
pub open spec fn keys_of(rows: Seq<Guess>, n: nat) -> Map<u32, Mark>
    decreases n,
{
    if n == 0 {
        Map::empty()
    } else {
        record_keys(
            keys_of(rows, (n - 1) as nat),
            rows[n - 1].letters@,
            rows[n - 1].marks@,
            WORD_LEN as nat,
        )
    }
}

/// Guesses added after the first `n` do not change what those lit.
proof fn lemma_keys_of_prefix(rows: Seq<Guess>, more: Seq<Guess>, n: nat)
    requires
        n <= rows.len(),
        n <= more.len(),
        forall|i: int| 0 <= i < n ==> #[trigger] more[i] == rows[i],
    ensures
        keys_of(more, n) == keys_of(rows, n),
    decreases n,
{
    if n > 0 {
        lemma_keys_of_prefix(rows, more, (n - 1) as nat);
    }
}

/// Letter `c` of some guess among the first `n` of `rows` is the key `k`.
pub open spec fn guessed(rows: Seq<Guess>, n: int, k: u32) -> bool {
    exists|r: int, c: int|
        0 <= r < n && 0 <= c < WORD_LEN && #[trigger] (rows[r].letters@[c] as u32) == k
}

/// Every tile among the first `n` guesses whose letter is key `k` has a mark
/// of rank at most `m`'s.
pub open spec fn beats_all(rows: Seq<Guess>, n: int, k: u32, m: Mark) -> bool {
    forall|r: int, c: int|
        0 <= r < n && 0 <= c < WORD_LEN && #[trigger] (rows[r].letters@[c] as u32) == k
            ==> rows[r].marks@[c].spec_rank() <= m.spec_rank()
}

/// Some tile among the first `n` guesses has letter `k` and mark `m`.
pub open spec fn earned(rows: Seq<Guess>, n: int, k: u32, m: Mark) -> bool {
    exists|r: int, c: int|
        0 <= r < n && 0 <= c < WORD_LEN && #[trigger] (rows[r].letters@[c] as u32) == k
            && rows[r].marks@[c] == m
}

proof fn lemma_record_keys_best(
    kb: Map<u32, Mark>,
    letters: Seq<char>,
    marks: Seq<Mark>,
    n: nat,
    k: u32,
)
    requires
        n <= letters.len(),
        n <= marks.len(),
    ensures
        ({
            let rk = record_keys(kb, letters, marks, n);
            &&& rk.contains_key(k) <==> (kb.contains_key(k) || exists|i: int|
                0 <= i < n && #[trigger] (letters[i] as u32) == k)
            &&& rk.contains_key(k) ==> {
                &&& kb.contains_key(k) ==> kb[k].spec_rank() <= rk[k].spec_rank()
                &&& forall|i: int|
                    0 <= i < n && #[trigger] (letters[i] as u32) == k ==> marks[i].spec_rank()
                        <= rk[k].spec_rank()
                &&& (kb.contains_key(k) && rk[k] == kb[k]) || exists|i: int|
                    0 <= i < n && #[trigger] (letters[i] as u32) == k && marks[i] == rk[k]
            }
        }),
    decreases n,
{
    if n > 0 {
        lemma_record_keys_best(kb, letters, marks, (n - 1) as nat, k);
        let prev = record_keys(kb, letters, marks, (n - 1) as nat);
        let rk = record_keys(kb, letters, marks, n);
        let j = n - 1;
        if (letters[j] as u32) == k {
            assert(rk.contains_key(k));
        } else {
            assert(rk.contains_key(k) == prev.contains_key(k));
            if rk.contains_key(k) {
                assert(rk[k] == prev[k]);
            }
        }
        if exists|i: int| 0 <= i < n - 1 && #[trigger] (letters[i] as u32) == k {
            let i = choose|i: int| 0 <= i < n - 1 && #[trigger] (letters[i] as u32) == k;
            assert(0 <= i < n && (letters[i] as u32) == k);
        }
        if prev.contains_key(k) && !((kb.contains_key(k) && prev[k] == kb[k])) {
            let i = choose|i: int| 0 <= i < n - 1 && #[trigger] (letters[i] as u32) == k && marks[i] == prev[k];
            assert(0 <= i < n && (letters[i] as u32) == k && marks[i] == prev[k]);
        }
    }
}

proof fn lemma_keys_of_best(rows: Seq<Guess>, n: nat, k: u32)
    requires
        n <= rows.len(),
    ensures
        keys_of(rows, n).contains_key(k) <==> guessed(rows, n as int, k),
        keys_of(rows, n).contains_key(k) ==> beats_all(rows, n as int, k, keys_of(rows, n)[k])
            && earned(rows, n as int, k, keys_of(rows, n)[k]),
    decreases n,
{
    if n > 0 {
        let m = (n - 1) as nat;
        lemma_keys_of_best(rows, m, k);
        let prev = keys_of(rows, m);
        let g = rows[m as int];
        lemma_record_keys_best(prev, g.letters@, g.marks@, WORD_LEN as nat, k);
        let cur = keys_of(rows, n);
        if guessed(rows, n as int, k) {
            let (r, c) = choose|r: int, c: int|
                0 <= r < n && 0 <= c < WORD_LEN && #[trigger] (rows[r].letters@[c] as u32) == k;
            if r < m {
                assert(guessed(rows, m as int, k));
            } else {
                assert((g.letters@[c] as u32) == k);
            }
        }
        if cur.contains_key(k) {
            if prev.contains_key(k) {
                assert(guessed(rows, n as int, k)) by {
                    let (r, c) = choose|r: int, c: int|
                        0 <= r < m && 0 <= c < WORD_LEN && #[trigger] (rows[r].letters@[c] as u32) == k;
                    assert(0 <= r < n);
                }
            } else {
                let i = choose|i: int| 0 <= i < WORD_LEN && #[trigger] (g.letters@[i] as u32) == k;
                assert((rows[m as int].letters@[i] as u32) == k);
            }
            assert forall|r: int, c: int|
                0 <= r < n && 0 <= c < WORD_LEN && #[trigger] (rows[r].letters@[c] as u32) == k
                    implies rows[r].marks@[c].spec_rank() <= cur[k].spec_rank() by {
                if r < m {
                    assert(prev.contains_key(k));
                } else {
                    assert((g.letters@[c] as u32) == k);
                }
            }
            if prev.contains_key(k) && cur[k] == prev[k] {
                let (r, c) = choose|r: int, c: int|
                    0 <= r < m && 0 <= c < WORD_LEN && #[trigger] (rows[r].letters@[c] as u32) == k
                        && rows[r].marks@[c] == prev[k];
                assert(0 <= r < n && (rows[r].letters@[c] as u32) == k && rows[r].marks@[c] == cur[k]);
            } else {
                let i = choose|i: int|
                    0 <= i < WORD_LEN && #[trigger] (g.letters@[i] as u32) == k && g.marks@[i] == cur[k];
                assert((rows[m as int].letters@[i] as u32) == k && rows[m as int].marks@[i] == cur[k]);
            }
        }
    }
}

/// A key's colour is the best mark its letter has earned in any guess, and a
/// key is lit exactly when its letter has been guessed: it never falls back,
/// green never to yellow or grey.
pub proof fn lemma_keyboard_shows_the_best_marks(g: Game, k: u32)
    requires
        g.wf(),
    ensures
        g.keyboard@.contains_key(k) <==> guessed(g.guesses@, g.guesses@.len() as int, k),
        g.keyboard@.contains_key(k) ==> beats_all(g.guesses@, g.guesses@.len() as int, k, g.keyboard@[k])
            && earned(g.guesses@, g.guesses@.len() as int, k, g.keyboard@[k]),
{
    lemma_keys_of_best(g.guesses@, g.guesses@.len(), k);
}

/// Every mark of a scored guess is green.
pub open spec fn all_correct(marks: Seq<Mark>) -> bool {
    forall|i: int| 0 <= i < WORD_LEN ==> #[trigger] marks[i] == Mark::Correct
}

pub struct Game {
    /// Which dictionary entry is the answer.
    pub answer_idx: usize,
    /// The answer's five letters.
    pub answer: [char; WORD_LEN],
    pub guesses: Vec<Guess>,
    pub input: Vec<char>,
    pub status: Status,
    /// Best mark each letter has earned so far, keyed by the letter's code point.
    pub keyboard: HashMap<u32, Mark>,
    /// Transient note shown under the board ("not in word list", the reveal).
    pub message: Option<String>,
}

/// `g` is a new game whose answer is entry `idx` of `words`: nothing typed,
/// nothing guessed, no key lit.
pub open spec fn spec_fresh(g: Game, words: Seq<Entry>, idx: usize) -> bool {
    &&& g.answer@ == words[idx as int].word@
    &&& g.answer_idx == idx
    &&& g.guesses@.len() == 0
    &&& g.input@.len() == 0
    &&& g.status == Status::Playing
    &&& g.keyboard@ == Map::<u32, Mark>::empty()
    &&& g.message is None
}

/// What `push` makes of `g` when `c` is typed: the letter joins the row
/// unless the game is over or the row is full.
pub open spec fn spec_push(g: Game, c: char, h: Game) -> bool {
    if g.status != Status::Playing || g.input@.len() >= WORD_LEN {
        h == g
    } else {
        &&& h.input@ == g.input@.push(c)
        &&& h.message is None
        &&& h.guesses == g.guesses
        &&& h.status == g.status
        &&& h.keyboard == g.keyboard
        &&& h.answer == g.answer
        &&& h.answer_idx == g.answer_idx
    }
}

/// What `backspace` makes of `g`: the last typed letter goes, while the game
/// is in play.
pub open spec fn spec_backspace(g: Game, h: Game) -> bool {
    if g.status != Status::Playing {
        h == g
    } else {
        &&& h.input@ == (if g.input@.len() == 0 {
            g.input@
        } else {
            g.input@.drop_last()
        })
        &&& h.message is None
        &&& h.guesses == g.guesses
        &&& h.status == g.status
        &&& h.keyboard == g.keyboard
        &&& h.answer == g.answer
        &&& h.answer_idx == g.answer_idx
    }
}

/// What `submit` makes of `g` against the word list `words`.
pub open spec fn spec_submit(g: Game, words: Seq<Entry>, h: Game) -> bool {
    &&& h.answer == g.answer
    &&& h.answer_idx == g.answer_idx
    &&& g.status != Status::Playing ==> h == g
    &&& g.status == Status::Playing && g.input@.len() < WORD_LEN ==> {
        &&& h.message matches Some(m) && m@ == "Not enough letters"@
        &&& h.input == g.input
        &&& h.guesses == g.guesses
        &&& h.status == g.status
        &&& h.keyboard == g.keyboard
    }
    &&& g.status == Status::Playing && g.input@.len() >= WORD_LEN && (forall|i: int|
        0 <= i < words.len() ==> #[trigger] words[i].word@ != g.input@) ==> {
        &&& h.message matches Some(m) && m@ == g.input@.map_values(|c: char| uppercase_head(c))
            + " is not in the word list"@
        &&& h.input == g.input
        &&& h.guesses == g.guesses
        &&& h.status == g.status
        &&& h.keyboard == g.keyboard
    }
    &&& g.status == Status::Playing && g.input@.len() >= WORD_LEN && (exists|i: int|
        0 <= i < words.len() && #[trigger] words[i].word@ == g.input@) ==> {
        let marks = spec_score(g.input@, g.answer@);
        &&& g.input@.len() == WORD_LEN
        &&& h.guesses@.len() == g.guesses@.len() + 1
        &&& forall|k: int| 0 <= k < g.guesses@.len() ==> #[trigger] h.guesses@[k] == g.guesses@[k]
        &&& h.guesses@.last().letters@ == g.input@
        &&& h.guesses@.last().marks@ == marks
        &&& h.input@.len() == 0
        &&& h.message == g.message
        &&& h.keyboard@ == record_keys(g.keyboard@, g.input@, marks, WORD_LEN as nat)
        &&& h.status == if all_correct(marks) {
            Status::Won
        } else if h.guesses@.len() >= MAX_GUESSES {
            Status::Lost
        } else {
            Status::Playing
        }
    }
}

impl Game {
    /// The board a game keeps to: at most five letters typed, at most six
    /// guesses, and a game still in play has a guess left.
    pub open spec fn wf(&self) -> bool {
        &&& self.input@.len() <= WORD_LEN
        &&& self.guesses@.len() <= MAX_GUESSES
        &&& self.status == Status::Playing ==> self.guesses@.len() < MAX_GUESSES
        &&& self.keyboard@ == keys_of(self.guesses@, self.guesses@.len())
    }

    pub fn new(words: &Dictionary, answer_idx: usize) -> (g: Self)
        requires
            answer_idx < words@.len(),
        ensures
            spec_fresh(g, words@, answer_idx),
            g.wf(),
    {
        let e = words.entry(answer_idx);
        let w = e.word.as_str();
        let answer = [w.get_char(0), w.get_char(1), w.get_char(2), w.get_char(3), w.get_char(4)];
        assert(answer@ =~= w@);
        Self {
            answer_idx,
            answer,
            guesses: Vec::new(),
            input: Vec::new(),
            status: Status::Playing,
            keyboard: HashMap::new(),
            message: None,
        }
    }

    /// The dictionary entry of the answer.
    pub fn entry<'a>(&self, words: &'a Dictionary) -> (e: &'a Entry)
        requires
            self.answer_idx < words@.len(),
        ensures
            *e == words@[self.answer_idx as int],
    {
        words.entry(self.answer_idx)
    }

    pub fn is_over(&self) -> (b: bool)
        ensures
            b == (self.status != Status::Playing),
    {
        self.status != Status::Playing
    }

    /// Accept a typed character. Non-Greek input is discarded by the caller's
    /// normalization, so anything arriving here is already a bare letter.
    pub fn push(&mut self, c: char)
        ensures
            spec_push(*old(self), c, *final(self)),
            old(self).wf() ==> final(self).wf(),
    {
        if self.is_over() || self.input.len() >= WORD_LEN {
            return;
        }
        self.input.push(c);
        self.message = None;
    }

    pub fn backspace(&mut self)
        ensures
            spec_backspace(*old(self), *final(self)),
            old(self).wf() ==> final(self).wf(),
    {
        if self.is_over() {
            return;
        }
        self.input.pop();
        self.message = None;
    }

    /// Submit the typed row. A row too short, or a word the dictionary does
    /// not have, only earns a note; a real word is scored against the answer,
    /// lights its keys and may end the game.
    pub fn submit(&mut self, words: &Dictionary)
        ensures
            spec_submit(*old(self), words@, *final(self)),
            old(self).wf() ==> final(self).wf(),
    {
        if self.is_over() {
            return;
        }
        if self.input.len() < WORD_LEN {
            self.message = Some(String::from_str("Not enough letters"));
            return;
        }
        let typed = string_of(self.input.as_slice());
        let found = words.lookup(typed.as_str());
        if found.is_none() {
            let mut note = String::new();
            let mut i: usize = 0;
            while i < self.input.len()
                invariant
                    i <= self.input@.len(),
                    note@ == self.input@.take(i as int).map_values(|c: char| uppercase_head(c)),
                decreases self.input@.len() - i,
            {
                crate::text::push_char(&mut note, upper(self.input[i]));
                i += 1;
                assert(note@ =~= self.input@.take(i as int).map_values(|c: char| uppercase_head(c)));
            }
            assert(self.input@.take(self.input@.len() as int) =~= self.input@);
            note.append(" is not in the word list");
            self.message = Some(note);
            return;
        }
        proof {
            let e = found.unwrap();
            assert(crate::words::is_word(e.word@));
        }
        let ghost input = self.input@;
        assert(self.input@.len() == WORD_LEN);
        let letters = [self.input[0], self.input[1], self.input[2], self.input[3], self.input[4]];
        assert(letters@ =~= input);
        let marks = score(&letters, &self.answer);

        let ghost kb0 = self.keyboard@;
        let mut i: usize = 0;
        while i < WORD_LEN
            invariant
                i <= WORD_LEN,
                letters@ == input,
                letters@.len() == WORD_LEN,
                marks@.len() == WORD_LEN,
                self.keyboard@ == record_keys(kb0, letters@, marks@, i as nat),
                self.answer == old(self).answer,
                self.answer_idx == old(self).answer_idx,
                self.guesses == old(self).guesses,
                self.input == old(self).input,
                self.message == old(self).message,
                self.status == old(self).status,
            decreases WORD_LEN - i,
        {
            broadcast use vstd::std_specs::hash::group_hash_axioms;

            let c = letters[i];
            let m = marks[i];
            let k = c as u32;
            let next = match self.keyboard.get(&k) {
                Some(best) => if m.rank() > best.rank() {
                    m
                } else {
                    *best
                },
                None => m,
            };
            self.keyboard.insert(k, next);
            i += 1;
        }

        let guess = Guess { letters, marks };
        let ghost before = self.guesses@;
        self.guesses.push(guess);
        self.input.clear();
        proof {
            lemma_keys_of_prefix(before, self.guesses@, before.len());
        }

        let mut won = true;
        let mut j: usize = 0;
        while j < WORD_LEN
            invariant
                j <= WORD_LEN,
                marks@.len() == WORD_LEN,
                won == forall|k: int| 0 <= k < j ==> #[trigger] marks@[k] == Mark::Correct,
            decreases WORD_LEN - j,
        {
            if marks[j] != Mark::Correct {
                won = false;
            }
            j += 1;
        }
        if won {
            self.status = Status::Won;
        } else if self.guesses.len() >= MAX_GUESSES {
            self.status = Status::Lost;
        }
    }
}

/// A scored guess wins exactly when it is the answer: after a word of the
/// list is submitted in play, the game is won precisely when the typed word
/// equals the answer letter for letter, and a guess with any tile that is
/// not green never wins.
pub proof fn lemma_a_guess_wins_exactly_on_the_answer(g: Game, words: Seq<Entry>, h: Game)
    requires
        spec_submit(g, words, h),
        g.status == Status::Playing,
        g.input@.len() == WORD_LEN,
        exists|i: int| 0 <= i < words.len() && #[trigger] words[i].word@ == g.input@,
        g.answer@.len() == WORD_LEN,
    ensures
        h.guesses@.len() == g.guesses@.len() + 1,
        (h.status == Status::Won) <==> g.input@ == g.answer@,
        (exists|k: int| 0 <= k < WORD_LEN && #[trigger] h.guesses@.last().marks@[k] != Mark::Correct)
            ==> h.status != Status::Won,
{
    lemma_all_correct_iff_answer(g.input@, g.answer@);
    let marks = h.guesses@.last().marks@;
    if exists|k: int| 0 <= k < WORD_LEN && #[trigger] marks[k] != Mark::Correct {
        let k = choose|k: int| 0 <= k < WORD_LEN && #[trigger] marks[k] != Mark::Correct;
        assert(!all_correct(marks));
    }
}

} // verus!
