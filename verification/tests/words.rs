use greek_wordle::words::{
    bare_letter, in_alphabet, normalize_char, upper, Dictionary, Entry, Pool, ALPHABET, COMMON_MIN_RANK,
};

fn dict() -> Dictionary {
    Dictionary::builtin().expect("the built-in word list is fit to play")
}

fn entry(word: &str, is_proper: bool, rank: u16) -> Entry {
    Entry {
        word: word.to_string(),
        display: word.to_string(),
        gloss: String::new(),
        is_proper,
        rank,
    }
}

#[test]
fn strips_accents_and_folds_final_sigma() {
    assert_eq!(normalize_char('ά'), Some('α'));
    assert_eq!(normalize_char('ΐ'), Some('ι'));
    assert_eq!(normalize_char('ῳ'), Some('ω')); // iota subscript
    assert_eq!(normalize_char('ς'), Some('σ'));
    assert_eq!(normalize_char('Σ'), Some('σ'));
    assert_eq!(normalize_char('Ά'), Some('α'));
}

#[test]
fn rejects_non_greek() {
    for c in ['a', 'Z', '5', ' ', '.', '-', '\t', '£', '्'] {
        assert_eq!(normalize_char(c), None, "should reject {c:?}");
    }
    // A lone tonos dead key press produces no letter.
    assert_eq!(normalize_char('\u{0384}'), None);
}

#[test]
fn every_alphabet_letter_uppercases() {
    for c in ALPHABET.chars() {
        let u = upper(c);
        assert!(u.is_uppercase(), "{c} did not uppercase");
    }
    assert_eq!(upper('σ'), 'Σ');
}

#[test]
fn word_list_is_sorted_and_normalized() {
    let words = dict();
    let entries = words.entries();
    assert!(entries.windows(2).all(|w| w[0].word < w[1].word));
    for e in entries {
        assert_eq!(e.word.chars().count(), 5);
        assert!(e.word.chars().all(|c| ALPHABET.contains(c)), "{}", e.word);
    }
}

#[test]
fn lookup_finds_words() {
    let words = dict();
    assert!(words.lookup("λογοσ").is_some());
    assert!(words.lookup("ζζζζζ").is_none());
}

#[test]
fn every_pool_has_words_and_none_is_wider_than_all() {
    let words = dict();
    let all = words.pool(Pool::All).len();
    assert_eq!(all, words.len(), "the default pool holds the dictionary");
    for p in Pool::CYCLE {
        let n = words.pool(p).len();
        assert!(n > 100, "{} has only {n} words", p.label());
        assert!(n <= all, "{} is wider than all words", p.label());
    }
}

#[test]
fn pools_drop_exactly_what_they_name() {
    let words = dict();
    let entries = words.entries();
    assert!(
        words.pool(Pool::NoProperNames).iter().all(|&i| !entries[i].is_proper),
        "a proper noun reached the no-proper-names pool"
    );
    assert!(
        words.pool(Pool::Common).iter().all(|&i| entries[i].rank >= COMMON_MIN_RANK),
        "a rare word reached the common pool"
    );
    // Proper nouns exist to be dropped, and some are common, so the two
    // narrower pools are genuinely different rather than one nested set.
    assert!(entries.iter().any(|e| e.is_proper));
    assert!(entries.iter().any(|e| e.is_proper && e.rank >= COMMON_MIN_RANK));
}

#[test]
fn the_toggle_cycles_through_every_pool_and_returns() {
    let mut seen = vec![Pool::default()];
    let mut p = Pool::default();
    for _ in 0..Pool::CYCLE.len() {
        p = p.next();
        seen.push(p);
    }
    assert_eq!(p, Pool::default(), "cycling all the way round returns");
    for expected in Pool::CYCLE {
        assert!(seen.contains(&expected), "{} unreachable", expected.label());
    }
}

#[test]
fn pool_keys_round_trip_and_junk_is_rejected() {
    for p in Pool::CYCLE {
        assert_eq!(Pool::from_key(p.key()), Some(p));
    }
    assert_eq!(Pool::from_key("nonsense"), None);
    assert_eq!(Pool::default(), Pool::All, "the default plays every word");
}

#[test]
fn pool_labels_read_as_phrases() {
    assert_eq!(Pool::All.label(), "all words");
    assert_eq!(Pool::NoProperNames.label(), "no proper names");
    assert_eq!(Pool::Common.label(), "common words");
    assert_eq!(Pool::NoProperNames.key(), "no_proper_names");
}

#[test]
fn the_alphabet_is_exactly_the_bare_letters() {
    assert_eq!(ALPHABET.chars().count(), 24);
    for c in ALPHABET.chars() {
        assert!(in_alphabet(c));
    }
    assert!(!in_alphabet('ς'));
    assert!(!in_alphabet('Α'));
    assert!(!in_alphabet('a'));
}

#[test]
fn a_word_list_out_of_order_or_with_bad_words_is_refused() {
    let good = || vec![entry("αβγδε", true, 900), entry("λογοσ", false, 900)];
    assert!(Dictionary::new(good()).is_some());
    let mut unsorted = good();
    unsorted.reverse();
    assert!(Dictionary::new(unsorted).is_none());
    let repeated = vec![entry("λογοσ", false, 900), entry("λογοσ", false, 900), entry("αβγδε", true, 900)];
    assert!(Dictionary::new(repeated).is_none());
    assert!(Dictionary::new(vec![entry("λογος", false, 900)]).is_none(), "final sigma is not played");
    assert!(Dictionary::new(vec![entry("λογο", false, 900)]).is_none(), "four letters");
    // No common word: the common pool would be empty.
    assert!(Dictionary::new(vec![entry("λογοσ", false, 10)]).is_none());
    // Only a proper noun: nothing for the no-proper-names pool.
    assert!(Dictionary::new(vec![entry("λογοσ", true, 900)]).is_none());
}

#[test]
fn lookup_tells_words_apart_from_prefixes_and_extensions() {
    let words = dict();
    assert!(words.lookup("λογο").is_none());
    assert!(words.lookup("λογοσσ").is_none());
    assert!(words.lookup("").is_none());
    let first = &words.entries()[0].word;
    let last = &words.entries()[words.len() - 1].word;
    assert_eq!(words.lookup(first).map(|e| &e.word), Some(first));
    assert_eq!(words.lookup(last).map(|e| &e.word), Some(last));
}

#[test]
fn bare_letters_fold_final_sigma_and_drop_the_rest() {
    assert_eq!(bare_letter('ς'), Some('σ'));
    assert_eq!(bare_letter('α'), Some('α'));
    assert_eq!(bare_letter('ω'), Some('ω'));
    assert_eq!(bare_letter('a'), None);
    assert_eq!(bare_letter('Α'), None, "capitals are lowered before they get here");
    assert_eq!(bare_letter('ϊ'), None);
}
