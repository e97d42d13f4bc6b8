//! The word list and Greek input normalization.

use unicode_normalization::UnicodeNormalization;
use vstd::prelude::*;

use crate::game::WORD_LEN;
use crate::text::{chars_eq_str, compare_str, lex_lt, lemma_lex_lt_irreflexive, lemma_lex_lt_total, lemma_lex_lt_transitive};

verus! {

/// The 24 letters, in the order the game plays them.
pub const ALPHABET: &'static str = "αβγδεζηθικλμνξοπρστυφχψω";

/// A bare lowercase Greek letter: α to ω, without the final-sigma form ς.
pub open spec fn is_letter(c: char) -> bool {
    'α' <= c && c <= 'ω' && c != 'ς'
}

/// `ALPHABET` holds exactly the bare letters, each once, in code point order.
pub proof fn lemma_alphabet_is_the_letters()
    ensures
        ALPHABET@.len() == 24,
        forall|c: char| ALPHABET@.contains(c) <==> is_letter(c),
        forall|i: int, j: int| 0 <= i < j < 24 ==> (ALPHABET@[i] as int) < (ALPHABET@[j] as int),
{
    reveal_strlit("αβγδεζηθικλμνξοπρστυφχψω");
    let s = ALPHABET@;
    assert forall|c: char| s.contains(c) <==> is_letter(c) by {
        if is_letter(c) {
            let k: int = if (c as int) < ('ς' as int) {
                (c as int) - ('α' as int)
            } else {
                (c as int) - ('α' as int) - 1
            };
            assert(s[k] == c);
        }
    }
}

/// Whether `c` is one of the letters of `ALPHABET`.
pub fn in_alphabet(c: char) -> (b: bool)
    ensures
        b == is_letter(c),
{
    'α' <= c && c <= 'ω' && c != 'ς'
}

/// The first character of the canonical decomposition (NFD) of `c`.
pub uninterp spec fn nfd_head(c: char) -> char;

/// The first character of the lowercase mapping of `c`.
pub uninterp spec fn lowercase_head(c: char) -> char;

/// The first character of the uppercase mapping of `c`.
pub uninterp spec fn uppercase_head(c: char) -> char;

/// Trusted: calls `unicode_normalization`'s `nfd` on a single character and
/// takes the first character it yields. The crate's source decomposes every
/// character into at least one character (an undecomposable one stands for
/// itself), so the result is always there; which character it is depends on
/// `c` alone and is named `nfd_head`.
#[verifier::external_body]
fn nfd_first(c: char) -> (r: Option<char>)
    ensures
        r == Some(nfd_head(c)),
{
    c.nfd().next()
}

/// Trusted: calls `char::to_lowercase` and takes the first character it
/// yields. Its documentation says the mapping yields one or more characters;
/// which they are depends on `c` alone, and the first is named
/// `lowercase_head`.
#[verifier::external_body]
fn lowercase_first(c: char) -> (r: Option<char>)
    ensures
        r == Some(lowercase_head(c)),
{
    c.to_lowercase().next()
}

/// Trusted: calls `char::to_uppercase` and takes the first character it
/// yields. Its documentation says the mapping yields one or more characters;
/// which they are depends on `c` alone, and the first is named
/// `uppercase_head`.
#[verifier::external_body]
fn uppercase_first(c: char) -> (r: Option<char>)
    ensures
        r == Some(uppercase_head(c)),
{
    c.to_uppercase().next()
}

/// Final sigma counts as sigma.
pub open spec fn fold_sigma(c: char) -> char {
    if c == 'ς' {
        'σ'
    } else {
        c
    }
}

/// What a typed character reduces to: the base of its decomposition,
/// lowercased, final sigma folded, kept only when that is a letter.
pub open spec fn spec_normalize_char(c: char) -> Option<char> {
    let f = fold_sigma(lowercase_head(nfd_head(c)));
    if is_letter(f) {
        Some(f)
    } else {
        None
    }
}

/// Reduce a typed character to a bare lowercase Greek letter.
///
/// Returns `None` for anything that is not a Greek letter, so Latin keys,
/// digits and punctuation are simply ignored. A Greek keyboard layout emits
/// accented vowels through its dead key (ά, ΐ) and has a dedicated final
/// sigma key (ς); both fold to the bare letter the grid is played in, matching
/// the normalization the dictionary was built with.
pub fn normalize_char(c: char) -> (r: Option<char>)
    ensures
        r == spec_normalize_char(c),
        r matches Some(l) ==> is_letter(l),
{
    // NFD puts the base letter first: ά -> α + U+0301, ΐ -> ι + U+0308 + U+0301.
    let base = match nfd_first(c) {
        Some(b) => b,
        None => return None,
    };
    let lower = match lowercase_first(base) {
        Some(l) => l,
        None => return None,
    };
    bare_letter(lower)
}

/// The letter a lowercased character plays as: final sigma counts as sigma,
/// and anything outside the alphabet is no letter at all.
pub fn bare_letter(lower: char) -> (r: Option<char>)
    ensures
        r == if is_letter(fold_sigma(lower)) {
            Some(fold_sigma(lower))
        } else {
            None
        },
{
    let folded = if lower == 'ς' {
        'σ'
    } else {
        lower
    };
    if in_alphabet(folded) {
        Some(folded)
    } else {
        None
    }
}

/// Uppercase a bare Greek letter for display. Tiles and the keyboard are
/// always capitalized.
pub fn upper(c: char) -> (r: char)
    ensures
        r == uppercase_head(c),
{
    match uppercase_first(c) {
        Some(u) => u,
        None => c,
    }
}

/// How common a word must be to reach `Pool::Common`, in thousandths: the
/// upper half of its own source, since the two sources count on scales that
/// do not compare.
pub const COMMON_MIN_RANK: u16 = 500;

pub struct Entry {
    /// Bare lowercase form, no diacritics: what a guess is compared against.
    pub word: String,
    /// Accented lemma, shown when the answer is revealed.
    pub display: String,
    pub gloss: String,
    /// A proper noun, which `Pool::NoProperNames` drops.
    pub is_proper: bool,
    /// Commonness in thousandths (0 to 1000), ranked within this word's own
    /// dictionary source, so it is comparable across sources where the raw
    /// frequencies are not.
    pub rank: u16,
}

/// Which words the game may choose an answer from. Guessing is never
/// restricted: every word in the dictionary is always accepted as a guess.
#[derive(Clone, Copy, Debug, PartialEq, Eq, Structural)]
pub enum Pool {
    /// Every word in the dictionary. The default, because the point is to
    /// learn them all.
    All,
    /// Everything except proper nouns, which teach vocabulary least.
    NoProperNames,
    /// The commoner half of each source, for an easier round.
    Common,
}

impl Default for Pool {
    fn default() -> (p: Pool)
        ensures
            p == Pool::All,
    {
        Pool::All
    }
}

pub open spec fn spec_next(p: Pool) -> Pool {
    match p {
        Pool::All => Pool::NoProperNames,
        Pool::NoProperNames => Pool::Common,
        Pool::Common => Pool::All,
    }
}

pub open spec fn spec_label(p: Pool) -> Seq<char> {
    match p {
        Pool::All => "all words"@,
        Pool::NoProperNames => "no proper names"@,
        Pool::Common => "common words"@,
    }
}

pub open spec fn spec_key(p: Pool) -> Seq<char> {
    match p {
        Pool::All => "all"@,
        Pool::NoProperNames => "no_proper_names"@,
        Pool::Common => "common"@,
    }
}

pub open spec fn spec_from_key(k: Seq<char>) -> Option<Pool> {
    if k == spec_key(Pool::All) {
        Some(Pool::All)
    } else if k == spec_key(Pool::NoProperNames) {
        Some(Pool::NoProperNames)
    } else if k == spec_key(Pool::Common) {
        Some(Pool::Common)
    } else {
        None
    }
}

/// Whether pool `p` lets entry `e` be an answer.
pub open spec fn spec_admits(p: Pool, e: Entry) -> bool {
    match p {
        Pool::All => true,
        Pool::NoProperNames => !e.is_proper,
        Pool::Common => e.rank >= COMMON_MIN_RANK,
    }
}

impl Pool {
    /// The order the toggle steps through, widest pool first.
    pub const CYCLE: [Pool; 3] = [Pool::All, Pool::NoProperNames, Pool::Common];

    pub fn next(self) -> (r: Self)
        ensures
            r == spec_next(self),
    {
        let cycle = Self::CYCLE;
        let mut i: usize = 0;
        while i < 3
            invariant
                cycle@ == seq![Pool::All, Pool::NoProperNames, Pool::Common],
                i <= 3,
                forall|k: int| 0 <= k < i ==> cycle@[k] != self,
            ensures
                i <= 3,
                i < 3 ==> cycle@[i as int] == self,
                forall|k: int| 0 <= k < i ==> cycle@[k] != self,
            decreases 3 - i,
        {
            if cycle[i] == self {
                break;
            }
            i += 1;
        }
        let i = if i < 3 {
            i
        } else {
            0
        };
        cycle[(i + 1) % 3]
    }

    /// Shown under the title, so it reads as a phrase: "random word · all words".
    pub fn label(self) -> (l: &'static str)
        ensures
            l@ == spec_label(self),
    {
        match self {
            Pool::All => "all words",
            Pool::NoProperNames => "no proper names",
            Pool::Common => "common words",
        }
    }

    /// Stable key for the settings file; unknown keys fall back to the default.
    pub fn key(self) -> (k: &'static str)
        ensures
            k@ == spec_key(self),
    {
        match self {
            Pool::All => "all",
            Pool::NoProperNames => "no_proper_names",
            Pool::Common => "common",
        }
    }

    pub fn from_key(key: &str) -> (r: Option<Self>)
        ensures
            r == spec_from_key(key@),
    {
        let cycle = Self::CYCLE;
        let mut i: usize = 0;
        while i < 3
            invariant
                cycle@ == seq![Pool::All, Pool::NoProperNames, Pool::Common],
                i <= 3,
                forall|k: int| 0 <= k < i ==> spec_key(cycle@[k]) != key@,
            decreases 3 - i,
        {
            let p = cycle[i];
            let k = p.key();
            if crate::text::str_eq(k, key) {
                proof {
                    lemma_pool_keys_differ();
                }
                return Some(p);
            }
            i += 1;
        }
        None
    }

    pub fn admits(self, e: &Entry) -> (b: bool)
        ensures
            b == spec_admits(self, *e),
    {
        match self {
            Pool::All => true,
            Pool::NoProperNames => !e.is_proper,
            Pool::Common => e.rank >= COMMON_MIN_RANK,
        }
    }
}

/// The three pool keys are different strings.
pub proof fn lemma_pool_keys_differ()
    ensures
        spec_key(Pool::All) != spec_key(Pool::NoProperNames),
        spec_key(Pool::All) != spec_key(Pool::Common),
        spec_key(Pool::NoProperNames) != spec_key(Pool::Common),
{
    reveal_strlit("all");
    reveal_strlit("no_proper_names");
    reveal_strlit("common");
    assert("all"@.len() == 3);
    assert("no_proper_names"@.len() == 15);
    assert("common"@.len() == 6);
}

/// A pool's key reads back as that pool.
pub proof fn lemma_pool_key_round_trip(p: Pool)
    ensures
        spec_from_key(spec_key(p)) == Some(p),
{
    lemma_pool_keys_differ();
}

/// Stepping the toggle three times comes back to where it started, passing
/// every pool on the way.
pub proof fn lemma_pool_cycle(p: Pool, q: Pool)
    ensures
        spec_next(spec_next(spec_next(p))) == p,
        q == p || q == spec_next(p) || q == spec_next(spec_next(p)),
{
}

/// Five letters of the alphabet.
pub open spec fn is_word(w: Seq<char>) -> bool {
    w.len() == WORD_LEN && forall|k: int| 0 <= k < w.len() ==> is_letter(#[trigger] w[k])
}

/// Every letter of the alphabet occurs in some word of `s`.
pub open spec fn every_letter_used(s: Seq<Entry>) -> bool {
    forall|c: char|
        is_letter(c) ==> exists|i: int, k: int|
            0 <= i < s.len() && 0 <= k < s[i].word@.len() && #[trigger] s[i].word@[k] == c
}

/// Some entry of `s` may be an answer in pool `p`.
pub open spec fn pool_nonempty(s: Seq<Entry>, p: Pool) -> bool {
    exists|i: int| 0 <= i < s.len() && spec_admits(p, #[trigger] s[i])
}

/// Entries in strictly increasing order of their words.
pub open spec fn sorted_words(s: Seq<Entry>) -> bool {
    forall|i: int, j: int| 0 <= i < j < s.len() ==> lex_lt(#[trigger] s[i].word@, #[trigger] s[j].word@)
}

/// A word list fit to play: every word is five letters of the alphabet, the
/// words are sorted with no repeats, and every pool has a word in it.
pub open spec fn entries_wf(s: Seq<Entry>) -> bool {
    &&& forall|i: int| 0 <= i < s.len() ==> is_word(#[trigger] s[i].word@)
    &&& sorted_words(s)
    &&& pool_nonempty(s, Pool::All)
    &&& pool_nonempty(s, Pool::NoProperNames)
    &&& pool_nonempty(s, Pool::Common)
}

/// The first `n` entries are words, each before the next.
pub open spec fn checked_prefix(s: Seq<Entry>, n: nat) -> bool
    decreases n,
{
    if n == 0 {
        true
    } else {
        &&& checked_prefix(s, (n - 1) as nat)
        &&& is_word(s[n - 1].word@)
        &&& n >= 2 ==> lex_lt(s[n - 2].word@, s[n - 1].word@)
    }
}

/// Five letters of the alphabet make a word.
pub proof fn lemma_five_letters(w: Seq<char>)
    requires
        w.len() == WORD_LEN,
        is_letter(w[0]),
        is_letter(w[1]),
        is_letter(w[2]),
        is_letter(w[3]),
        is_letter(w[4]),
    ensures
        is_word(w),
{
    assert forall|k: int| 0 <= k < w.len() implies is_letter(#[trigger] w[k]) by {
        if k == 0 {
        } else if k == 1 {
        } else if k == 2 {
        } else if k == 3 {
        } else {
        }
    }
}

proof fn lemma_checked_prefix(s: Seq<Entry>, n: nat)
    requires
        n <= s.len(),
        checked_prefix(s, n),
    ensures
        forall|i: int| 0 <= i < n ==> is_word(#[trigger] s[i].word@),
        forall|i: int| 0 < i < n ==> lex_lt(#[trigger] s[i - 1].word@, s[i].word@),
    decreases n,
{
    if n > 0 {
        lemma_checked_prefix(s, (n - 1) as nat);
    }
}

/// A list checked entry by entry, with a word for every pool, is fit to play.
pub proof fn lemma_checked_list(s: Seq<Entry>)
    requires
        checked_prefix(s, s.len()),
        pool_nonempty(s, Pool::All),
        pool_nonempty(s, Pool::NoProperNames),
        pool_nonempty(s, Pool::Common),
    ensures
        entries_wf(s),
{
    lemma_checked_prefix(s, s.len());
    lemma_sorted_from_neighbours(s);
}

/// The indices below `n` of the entries pool `p` admits, in increasing order.
pub open spec fn pool_indices(s: Seq<Entry>, p: Pool, n: nat) -> Seq<usize>
    decreases n,
{
    if n == 0 {
        Seq::empty()
    } else {
        let rest = pool_indices(s, p, (n - 1) as nat);
        if spec_admits(p, s[n - 1]) {
            rest.push((n - 1) as usize)
        } else {
            rest
        }
    }
}

/// What `pool_indices` holds: each admitted index below `n`, once, in
/// increasing order, and nothing else.
pub proof fn lemma_pool_indices(s: Seq<Entry>, p: Pool, n: nat)
    requires
        n <= s.len(),
        n <= usize::MAX + 1,
    ensures
        pool_indices(s, p, n).len() <= n,
        forall|k: int|
            0 <= k < pool_indices(s, p, n).len() ==> {
                let i = #[trigger] pool_indices(s, p, n)[k];
                i < n && spec_admits(p, s[i as int])
            },
        forall|k: int, l: int|
            0 <= k < l < pool_indices(s, p, n).len() ==> #[trigger] pool_indices(s, p, n)[k]
                < #[trigger] pool_indices(s, p, n)[l],
        forall|i: int|
            0 <= i < n && spec_admits(p, #[trigger] s[i]) ==> pool_indices(s, p, n).contains(
                i as usize,
            ),
    decreases n,
{
    if n > 0 {
        lemma_pool_indices(s, p, (n - 1) as nat);
        let rest = pool_indices(s, p, (n - 1) as nat);
        let all = pool_indices(s, p, n);
        assert forall|i: int| 0 <= i < n && spec_admits(p, #[trigger] s[i]) implies all.contains(
            i as usize,
        ) by {
            if i < n - 1 {
                let k = choose|k: int| 0 <= k < rest.len() && rest[k] == i as usize;
                assert(all[k] == i as usize);
            } else {
                assert(all[all.len() - 1] == i as usize);
            }
        }
    }
}

/// The dictionary: every playable word, sorted, with the facts each answer
/// pool needs.
pub struct Dictionary {
    entries: Vec<Entry>,
}

impl View for Dictionary {
    type V = Seq<Entry>;

    closed spec fn view(&self) -> Seq<Entry> {
        self.entries@
    }
}

/// Strictly increasing neighbours make a strictly increasing list.
proof fn lemma_sorted_from_neighbours(s: Seq<Entry>)
    requires
        forall|i: int| 0 < i < s.len() ==> lex_lt(#[trigger] s[i - 1].word@, s[i].word@),
    ensures
        sorted_words(s),
{
    assert forall|i: int, j: int| 0 <= i < j < s.len() implies lex_lt(
        #[trigger] s[i].word@,
        #[trigger] s[j].word@,
    ) by {
        lemma_sorted_pair(s, i, j);
    }
}

proof fn lemma_sorted_pair(s: Seq<Entry>, i: int, j: int)
    requires
        0 <= i < j < s.len(),
        forall|k: int| 0 < k < s.len() ==> lex_lt(#[trigger] s[k - 1].word@, s[k].word@),
    ensures
        lex_lt(s[i].word@, s[j].word@),
    decreases j - i,
{
    assert(lex_lt(s[j - 1].word@, s[j].word@));
    if j - 1 > i {
        lemma_sorted_pair(s, i, j - 1);
        lemma_lex_lt_transitive(s[i].word@, s[j - 1].word@, s[j].word@);
    }
}

/// Whether `w` is five letters of the alphabet.
fn check_word(w: &str) -> (b: bool)
    ensures
        b == is_word(w@),
{
    let n = w.unicode_len();
    if n != WORD_LEN {
        return false;
    }
    let mut k: usize = 0;
    while k < n
        invariant
            n == w@.len(),
            k <= n,
            forall|j: int| 0 <= j < k ==> is_letter(#[trigger] w@[j]),
        decreases n - k,
    {
        if !in_alphabet(w.get_char(k)) {
            return false;
        }
        k += 1;
    }
    true
}

/// Whether some entry may be an answer in pool `p`.
fn check_pool(entries: &Vec<Entry>, p: Pool) -> (b: bool)
    ensures
        b == pool_nonempty(entries@, p),
{
    let mut i: usize = 0;
    while i < entries.len()
        invariant
            i <= entries@.len(),
            forall|k: int| 0 <= k < i ==> !spec_admits(p, #[trigger] entries@[k]),
        decreases entries@.len() - i,
    {
        if p.admits(&entries[i]) {
            return true;
        }
        i += 1;
    }
    false
}

impl Dictionary {
    #[verifier::type_invariant]
    spec fn inv(self) -> bool {
        entries_wf(self.entries@)
    }

    /// Accept a word list only if it is fit to play: the checks the word
    /// list is built under, made where it is loaded.
    pub fn new(entries: Vec<Entry>) -> (r: Option<Dictionary>)
        ensures
            r is Some <==> entries_wf(entries@),
            r matches Some(d) ==> d@ == entries@,
    {
        let n = entries.len();
        let mut i: usize = 0;
        while i < n
            invariant
                n == entries@.len(),
                i <= n,
                forall|k: int| 0 <= k < i ==> is_word(#[trigger] entries@[k].word@),
            decreases n - i,
        {
            if !check_word(entries[i].word.as_str()) {
                return None;
            }
            i += 1;
        }
        let mut i: usize = 1;
        while i < n
            invariant
                n == entries@.len(),
                1 <= i,
                i <= n || n == 0,
                forall|k: int| 0 < k < i && k < n ==> lex_lt(#[trigger] entries@[k - 1].word@, entries@[k].word@),
            decreases n - i,
        {
            if compare_str(entries[i - 1].word.as_str(), entries[i].word.as_str()) >= 0 {
                proof {
                    lemma_lex_lt_irreflexive(entries@[i - 1].word@);
                    if lex_lt(entries@[i - 1].word@, entries@[i as int].word@) {
                        lemma_lex_lt_transitive(
                            entries@[i - 1].word@,
                            entries@[i as int].word@,
                            entries@[i - 1].word@,
                        );
                    }
                    assert(!sorted_words(entries@) || !lex_lt(
                        entries@[i - 1].word@,
                        entries@[i as int].word@,
                    ));
                }
                return None;
            }
            i += 1;
        }
        proof {
            lemma_sorted_from_neighbours(entries@);
        }
        if !check_pool(&entries, Pool::All) || !check_pool(&entries, Pool::NoProperNames)
            || !check_pool(&entries, Pool::Common) {
            return None;
        }
        Some(Dictionary { entries })
    }

    /// The built-in word list, which always passes the checks of `new`: 181
    /// words, 164 of them not proper names and 156 of them common, and every
    /// letter of the alphabet in some word.
    pub fn builtin() -> (r: Option<Dictionary>)
        ensures
            r is Some,
            r matches Some(d) ==> {
                &&& entries_wf(d@)
                &&& d@.len() == 181
                &&& pool_indices(d@, Pool::All, 181).len() == 181
                &&& pool_indices(d@, Pool::NoProperNames, 181).len() == 164
                &&& pool_indices(d@, Pool::Common, 181).len() == 156
                &&& every_letter_used(d@)
            },
    {
        Self::new(crate::wordlist::entries())
    }

    /// How many words the dictionary holds.
    pub fn len(&self) -> (n: usize)
        ensures
            n == self@.len(),
    {
        self.entries.len()
    }

    /// The entry at index `i`.
    pub fn entry(&self, i: usize) -> (e: &Entry)
        requires
            i < self@.len(),
        ensures
            *e == self@[i as int],
            is_word(e.word@),
    {
        proof {
            use_type_invariant(self);
        }
        &self.entries[i]
    }

    /// Every entry, in order.
    pub fn entries(&self) -> (s: &[Entry])
        ensures
            s@ == self@,
            entries_wf(s@),
    {
        proof {
            use_type_invariant(self);
        }
        self.entries.as_slice()
    }

    /// A word is guessable if the dictionary has it, whether or not it can be
    /// an answer.
    pub fn lookup(&self, word: &str) -> (r: Option<&Entry>)
        ensures
            match r {
                Some(e) => exists|i: int| 0 <= i < self@.len() && self@[i] == *e && e.word@ == word@,
                None => forall|i: int| 0 <= i < self@.len() ==> #[trigger] self@[i].word@ != word@,
            },
            r matches Some(e) ==> is_word(e.word@),
    {
        proof {
            use_type_invariant(self);
        }
        let n = self.entries.len();
        let mut lo: usize = 0;
        let mut hi: usize = n;
        while lo < hi
            invariant
                n == self@.len(),
                lo <= hi <= n,
                entries_wf(self@),
                forall|i: int| 0 <= i < lo ==> lex_lt(#[trigger] self@[i].word@, word@),
                forall|i: int| hi <= i < n ==> lex_lt(word@, #[trigger] self@[i].word@),
            decreases hi - lo,
        {
            let mid = lo + (hi - lo) / 2;
            let c = compare_str(self.entries[mid].word.as_str(), word);
            if c == 0 {
                return Some(&self.entries[mid]);
            } else if c < 0 {
                proof {
                    assert forall|i: int| 0 <= i < mid + 1 implies lex_lt(
                        #[trigger] self@[i].word@,
                        word@,
                    ) by {
                        if i < mid {
                            assert(lex_lt(self@[i].word@, self@[mid as int].word@));
                            lemma_lex_lt_transitive(self@[i].word@, self@[mid as int].word@, word@);
                        }
                    }
                }
                lo = mid + 1;
            } else {
                proof {
                    assert forall|i: int| mid <= i < n implies lex_lt(
                        word@,
                        #[trigger] self@[i].word@,
                    ) by {
                        if i > mid {
                            assert(lex_lt(self@[mid as int].word@, self@[i].word@));
                            lemma_lex_lt_transitive(word@, self@[mid as int].word@, self@[i].word@);
                        }
                    }
                }
                hi = mid;
            }
        }
        proof {
            assert forall|i: int| 0 <= i < n implies #[trigger] self@[i].word@ != word@ by {
                lemma_lex_lt_irreflexive(word@);
            }
        }
        None
    }

    /// Indices of the words `pool` may use as an answer, in increasing order.
    /// Never empty: a dictionary is only accepted when every pool has words.
    pub fn pool(&self, pool: Pool) -> (r: Vec<usize>)
        ensures
            r@ == pool_indices(self@, pool, self@.len()),
            r@.len() > 0,
            forall|k: int|
                0 <= k < r@.len() ==> #[trigger] r@[k] < self@.len() && spec_admits(
                    pool,
                    self@[r@[k] as int],
                ),
    {
        proof {
            use_type_invariant(self);
        }
        let n = self.entries.len();
        let mut r: Vec<usize> = Vec::new();
        let mut i: usize = 0;
        while i < n
            invariant
                n == self@.len(),
                i <= n,
                r@ == pool_indices(self@, pool, i as nat),
            decreases n - i,
        {
            if pool.admits(&self.entries[i]) {
                r.push(i);
            }
            i += 1;
        }
        proof {
            lemma_pool_indices(self@, pool, n as nat);
            let w = choose|i: int| 0 <= i < self@.len() && spec_admits(pool, #[trigger] self@[i]);
            assert(r@.contains(w as usize));
        }
        r
    }
}

} // verus!
