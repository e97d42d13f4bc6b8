use std::collections::HashSet;

use greek_wordle::anim::{Anim, FLIP, FLIP_STAGGER, MS};
use greek_wordle::board::{revealed_keys, tile, verdict, Face, KEY_BOTTOM, KEY_HOME, KEY_TOP};
use greek_wordle::game::{Game, Mark, Status};
use greek_wordle::words::{Dictionary, Pool, ALPHABET};

fn dict() -> Dictionary {
    Dictionary::builtin().expect("the built-in word list is fit to play")
}

fn game(words: &Dictionary, answer: &str) -> Game {
    let idx = words.entries().iter().position(|e| e.word == answer).unwrap();
    Game::new(words, idx)
}

fn guess(g: &mut Game, words: &Dictionary, word: &str) {
    for c in word.chars() {
        g.push(c);
    }
    g.submit(words);
}

#[test]
fn a_key_lights_as_its_tile_lands() {
    let words = dict();
    let mut g = game(&words, "λογοσ");
    guess(&mut g, &words, "αγαπη");
    let mut a = Anim::new(0, 1);
    a.reveal_row(0, false, 0);
    let code = |c: char| c as u32;
    // Only the first tile has landed: α is lit, the γ of the second is not yet.
    let t = FLIP;
    let keys = revealed_keys(&g, &a, t);
    assert_eq!(keys.get(&code('α')), Some(&Mark::Absent));
    assert_eq!(keys.get(&code('γ')), None);
    let all = FLIP_STAGGER * 4 + FLIP;
    let keys = revealed_keys(&g, &a, all);
    assert_eq!(keys.get(&code('γ')), Some(&Mark::Present));
    assert_eq!(keys, g.keyboard, "once everything lands the keyboard is the game's");
}

#[test]
fn tiles_show_typing_turning_and_scores() {
    let words = dict();
    let mut g = game(&words, "λογοσ");
    guess(&mut g, &words, "αγαπη");
    g.push('λ');
    let mut a = Anim::new(0, 1);
    a.reveal_row(0, false, 0);
    let mid = FLIP / 2;
    assert_eq!(
        tile(&g, &a, 0, 0, mid),
        Face::Turning { letter: 'α', mark: Mark::Absent, elapsed: FLIP / 2 }
    );
    assert_eq!(tile(&g, &a, 0, 4, mid), Face::Typed { letter: 'η', live: false });
    assert_eq!(tile(&g, &a, 1, 0, mid), Face::Typed { letter: 'λ', live: true });
    assert_eq!(tile(&g, &a, 1, 1, mid), Face::Blank { caret: false }, "no caret while tiles turn");
    let later = FLIP_STAGGER * 4 + FLIP;
    assert_eq!(tile(&g, &a, 1, 1, later), Face::Blank { caret: true });
    assert_eq!(tile(&g, &a, 0, 1, later), Face::Scored { letter: 'γ', mark: Mark::Present });
    assert_eq!(tile(&g, &a, 5, 0, later), Face::Blank { caret: false });
}

#[test]
fn a_finished_game_shows_no_caret() {
    let words = dict();
    let mut g = game(&words, "λογοσ");
    guess(&mut g, &words, "λογοσ");
    assert_eq!(g.status, Status::Won);
    let a = Anim::new(0, 1);
    assert_eq!(tile(&g, &a, 1, 0, 1000 * MS), Face::Blank { caret: false });
}

#[test]
fn verdicts_warm_with_speed() {
    assert_eq!(verdict(1), "Θαυμάσιο!");
    assert_eq!(verdict(2), "Έξοχο!");
    assert_eq!(verdict(3), "Πολύ καλά!");
    assert_eq!(verdict(4), "Ωραία!");
    assert_eq!(verdict(5), "Καλά!");
    assert_eq!(verdict(6), "Μόλις που τα κατάφερες!");
}

#[test]
fn the_keyboard_holds_the_alphabet_once() {
    let keys: Vec<char> = [KEY_TOP, KEY_HOME, KEY_BOTTOM].iter().flat_map(|r| r.chars()).collect();
    let set: HashSet<char> = keys.iter().copied().collect();
    assert_eq!(keys.len(), 24);
    assert_eq!(set, ALPHABET.chars().collect());
}

#[test]
fn keys_wait_for_their_tile_to_land() {
    let words = dict();
    let now = 0;
    let mut game = Game::new(&words, words.pool(Pool::All)[0]);
    for c in game.entry(&words).word.chars() {
        game.push(c);
    }
    game.submit(&words);
    let mut anim = Anim::new(now, 1);
    anim.reveal_row(0, true, now);
    assert!(revealed_keys(&game, &anim, now).is_empty());
    let later = now + 3_000 * MS;
    assert_eq!(revealed_keys(&game, &anim, later).len(), game.keyboard.len());
}
