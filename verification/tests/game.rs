use greek_wordle::game::{score, Game, Mark, Status, MAX_GUESSES, WORD_LEN};
use greek_wordle::words::{Dictionary, Pool};

use Mark::{Absent, Correct, Present};

fn w(s: &str) -> [char; WORD_LEN] {
    s.chars().collect::<Vec<_>>().try_into().unwrap()
}

fn dict() -> Dictionary {
    Dictionary::builtin().expect("the built-in word list is fit to play")
}

#[test]
fn all_correct() {
    assert_eq!(score(&w("λογοσ"), &w("λογοσ")), [Correct; 5]);
}

#[test]
fn absent_letters() {
    assert_eq!(score(&w("βββββ"), &w("λογοσ")), [Absent; 5]);
}

#[test]
fn present_but_misplaced() {
    // γ and ρ exist in γραφω but sit elsewhere.
    let marks = score(&w("ργαφω"), &w("γραφω"));
    assert_eq!(marks, [Present, Present, Correct, Correct, Correct]);
}

#[test]
fn duplicate_guess_letter_only_matches_once() {
    // λογοσ has a single λ, so the second λ guessed finds nothing left.
    let marks = score(&w("λλβββ"), &w("λογοσ"));
    assert_eq!(marks[0], Correct);
    assert_eq!(marks[1], Absent);

    // Same rule when neither position is exact: one σ in, one σ out.
    let marks = score(&w("σσβββ"), &w("λογοσ"));
    assert_eq!(marks[0], Present);
    assert_eq!(marks[1], Absent);
}

#[test]
fn exact_match_claims_letter_before_misplaced_one() {
    // λογοσ has two ο. The exact position wins first.
    let marks = score(&w("οοοββ"), &w("λογοσ"));
    assert_eq!(marks[1], Correct);
    assert_eq!(
        marks.iter().filter(|m| **m != Absent).count(),
        2,
        "two ο in the answer means exactly two lit tiles"
    );
}

#[test]
fn rejects_word_not_in_list() {
    let words = dict();
    let mut g = Game::new(&words, words.pool(Pool::All)[0]);
    for c in "ζζζζζ".chars() {
        g.push(c);
    }
    g.submit(&words);
    assert!(g.guesses.is_empty());
    assert!(g.message.as_ref().unwrap().contains("not in the word list"));
}

#[test]
fn winning_and_losing() {
    let words = dict();
    let idx = words.pool(Pool::All)[0];
    let mut g = Game::new(&words, idx);
    for c in words.entry(idx).word.chars() {
        g.push(c);
    }
    g.submit(&words);
    assert_eq!(g.status, Status::Won);

    let mut g = Game::new(&words, idx);
    let wrong = &words
        .entries()
        .iter()
        .find(|e| e.word != words.entry(idx).word)
        .unwrap()
        .word;
    for _ in 0..MAX_GUESSES {
        for c in wrong.chars() {
            g.push(c);
        }
        g.submit(&words);
    }
    assert_eq!(g.status, Status::Lost);
}

#[test]
fn input_is_capped_and_ignored_after_game_ends() {
    let words = dict();
    let mut g = Game::new(&words, words.pool(Pool::All)[0]);
    for c in "λογοσλογοσ".chars() {
        g.push(c);
    }
    assert_eq!(g.input.len(), WORD_LEN);
    g.status = Status::Won;
    g.push('β');
    assert_eq!(g.input.len(), WORD_LEN);
}

#[test]
fn keyboard_never_downgrades_a_correct_letter() {
    let words = dict();
    let mut g = Game::new(&words, words.pool(Pool::All)[0]);
    g.keyboard.insert('λ' as u32, Correct);
    g.answer = w("βββββ");
    g.input = "λογοσ".chars().collect();
    g.submit(&words);
    assert_eq!(g.keyboard[&('λ' as u32)], Correct);
}

#[test]
fn too_short_a_row_only_earns_a_note() {
    let words = dict();
    let mut g = Game::new(&words, words.pool(Pool::All)[0]);
    for c in "λογ".chars() {
        g.push(c);
    }
    g.submit(&words);
    assert!(g.guesses.is_empty());
    assert_eq!(g.input.len(), 3);
    assert_eq!(g.message.as_deref(), Some("Not enough letters"));
    g.push('ο');
    assert_eq!(g.message, None, "typing clears the note");
}

#[test]
fn the_unknown_word_note_shows_it_in_capitals() {
    let words = dict();
    let mut g = Game::new(&words, words.pool(Pool::All)[0]);
    for c in "ζζζζζ".chars() {
        g.push(c);
    }
    g.submit(&words);
    assert_eq!(g.message.as_deref(), Some("ΖΖΖΖΖ is not in the word list"));
    assert_eq!(g.input.len(), WORD_LEN, "the row stays for editing");
}

#[test]
fn backspace_removes_the_last_letter_until_the_game_ends() {
    let words = dict();
    let mut g = Game::new(&words, words.pool(Pool::All)[0]);
    g.backspace();
    assert!(g.input.is_empty());
    g.push('λ');
    g.push('ο');
    g.backspace();
    assert_eq!(g.input, vec!['λ']);
    g.status = Status::Lost;
    g.backspace();
    assert_eq!(g.input, vec!['λ']);
}

#[test]
fn a_scored_row_lights_its_keys_with_their_best_marks() {
    let words = dict();
    let mut g = Game::new(&words, words.pool(Pool::All)[0]);
    g.answer = w("λογοσ");
    g.input = "λαλεω".chars().collect();
    g.submit(&words);
    assert_eq!(g.guesses.len(), 1);
    assert_eq!(g.guesses[0].marks, score(&w("λαλεω"), &w("λογοσ")));
    assert_eq!(g.keyboard[&('λ' as u32)], Correct);
    assert_eq!(g.keyboard[&('α' as u32)], Absent);
    assert!(g.input.is_empty());
    assert_eq!(g.status, Status::Playing);
}

#[test]
fn lit_tiles_never_outnumber_the_answers_copies() {
    // One λ in the answer: of two λ guessed, exactly one lights.
    let marks = score(&w("λαλεω"), &w("λογοσ"));
    assert_eq!(marks, [Correct, Absent, Absent, Absent, Absent]);
    // Two ο in the answer, three guessed: two light.
    let marks = score(&w("οοοββ"), &w("λογοσ"));
    assert_eq!(marks, [Present, Correct, Absent, Absent, Absent]);
}

#[test]
fn ranks_order_the_marks() {
    assert!(Correct.rank() > Present.rank());
    assert!(Present.rank() > Absent.rank());
    assert_eq!(Absent.rank(), 0);
}
