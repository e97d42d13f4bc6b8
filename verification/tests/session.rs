use greek_wordle::anim::{Flip, MS, STATS_DELAY};
use greek_wordle::game::{Game, Status, MAX_GUESSES};
use greek_wordle::session::{Action, App, Event, Key};
use greek_wordle::stats::Stats;
use greek_wordle::words::Dictionary;

const SECOND: u64 = 1_000 * MS;

fn dict() -> Dictionary {
    Dictionary::builtin().expect("the built-in word list is fit to play")
}

fn index_of(words: &Dictionary, word: &str) -> usize {
    words.entries().iter().position(|e| e.word == word).expect("word in the list")
}

/// A sitting whose answer is `answer`, started at time 0.
fn app_with(answer: &str) -> App {
    let mut app = App::new(dict(), Stats::default(), false, 1, 1, 0);
    let idx = index_of(&app.words, answer);
    app.game = Game::new(&app.words, idx);
    app
}

fn press(key: Key) -> Event {
    Event::Key { key, ctrl: false, press: true }
}

fn type_word(app: &mut App, word: &str, now: u64) {
    for c in word.chars() {
        assert_eq!(app.handle(press(Key::Char(c)), now), Action::Continue);
    }
}

/// Wait until every tile has landed and any bounce is down.
fn settle(app: &App) -> u64 {
    app.anim.bounce_end().or(app.anim.reveal_end()).unwrap_or(0)
}

#[test]
fn greek_letters_land_and_stray_keys_do_not() {
    let mut app = app_with("λογοσ");
    app.handle(press(Key::Char('x')), 10);
    app.handle(press(Key::Char('7')), 10);
    assert!(app.game.input.is_empty(), "Latin letters and digits are ignored");
    app.handle(press(Key::Char('Λ')), 10);
    app.handle(press(Key::Char('ό')), 20);
    app.handle(press(Key::Char('ς')), 30);
    assert_eq!(app.game.input, vec!['λ', 'ο', 'σ']);
    assert_eq!(app.anim.typed[1], Some(20));
    assert_eq!(app.anim.key, Some(('σ', 30)));
    app.handle(press(Key::Backspace), 40);
    assert_eq!(app.game.input, vec!['λ', 'ο']);
    assert_eq!(app.anim.typed[2], None);
}

#[test]
fn key_releases_are_ignored() {
    let mut app = app_with("λογοσ");
    let act = app.handle(Event::Key { key: Key::Char('λ'), ctrl: false, press: false }, 5);
    assert_eq!(act, Action::Continue);
    assert!(app.game.input.is_empty());
    assert_eq!(app.anim.last_input, 0);
}

#[test]
fn a_short_row_or_unknown_word_shakes_with_the_reason() {
    let mut app = app_with("λογοσ");
    type_word(&mut app, "λογ", 10);
    assert_eq!(app.handle(press(Key::Enter), 20), Action::Continue);
    assert_eq!(app.anim.toast(20), Some("Not enough letters"));
    assert_eq!(app.anim.shake, Some(20));
    assert_eq!(app.game.message, None);
    type_word(&mut app, "ζζ", 30);
    app.handle(press(Key::Enter), 40);
    assert_eq!(app.anim.toast(40), Some("ΛΟΓΖΖ is not in the word list"));
    assert!(app.game.guesses.is_empty());
}

#[test]
fn a_win_turns_over_then_finishes() {
    let mut app = app_with("λογοσ");
    type_word(&mut app, "λογοσ", 10);
    assert_eq!(app.handle(press(Key::Enter), 100), Action::Finished);
    assert_eq!(app.game.status, Status::Won);
    assert_eq!(app.anim.reveal, Some((0, 100)));
    assert_eq!(app.anim.flip(0, 4, 100), Flip::Pending);
    assert!(app.finish(None));
    assert_eq!(app.stats.played, 1);
    assert_eq!(app.stats.dist[0], 1);
    assert_eq!(app.counted_win, Some(1));
    let settled = settle(&app);
    assert_eq!(app.anim.stats, Some(settled + STATS_DELAY));

    // Keys wait while the tiles turn and the row bounces.
    assert_eq!(app.handle(press(Key::Char('c')), settled - 1), Action::Continue);
    assert_eq!(app.handle(press(Key::Enter), settled - 1), Action::Continue);

    assert_eq!(app.handle(press(Key::Char('ψ')), settled), Action::Share);
    assert_eq!(app.anim.toast(settled), Some("Result copied to clipboard"));
    assert_eq!(app.share(None), "Ελληνικό Wordle 1/6\n\n🟩🟩🟩🟩🟩");
    assert_eq!(app.handle(press(Key::Enter), settled), Action::NewGame);
    app.new_game(42, settled);
    assert!(app.game.guesses.is_empty());
    assert_eq!(app.game.status, Status::Playing);
    assert_eq!(app.counted_win, None);
    assert_eq!(app.stats.played, 1);
}

#[test]
fn six_misses_lose() {
    let mut app = app_with("λογοσ");
    let mut now = 10;
    for row in 0..MAX_GUESSES {
        type_word(&mut app, "αγαπη", now);
        let act = app.handle(press(Key::Enter), now);
        if row + 1 < MAX_GUESSES {
            assert_eq!(act, Action::Continue);
        } else {
            assert_eq!(act, Action::Finished);
        }
        now = settle(&app) + 1;
    }
    assert_eq!(app.game.status, Status::Lost);
    assert!(app.finish(None));
    assert_eq!(app.counted_win, None);
    assert_eq!(app.stats.streak, 0);
    assert_eq!(app.share(None).lines().next(), Some("Ελληνικό Wordle X/6"));
}

#[test]
fn a_replayed_daily_puzzle_is_not_counted() {
    let mut app = app_with("λογοσ");
    app.daily = true;
    type_word(&mut app, "λογοσ", 10);
    app.handle(press(Key::Enter), 10);
    assert!(app.finish(Some(20712)));
    app.new_game(20712, SECOND * 10);
    let idx = index_of(&app.words, "λογοσ");
    app.game = Game::new(&app.words, idx);
    type_word(&mut app, "λογοσ", SECOND * 11);
    app.handle(press(Key::Enter), SECOND * 11);
    assert!(!app.finish(Some(20712)), "replay of the same day");
    assert_eq!(app.stats.played, 1);
    assert_eq!(app.counted_win, None, "a replay picks out no bar");
}

#[test]
fn escape_closes_the_panel_before_it_quits() {
    let mut app = app_with("λογοσ");
    assert_eq!(app.handle(press(Key::Tab), 10), Action::Continue);
    assert!(app.anim.stats_open(10));
    app.handle(press(Key::Char('λ')), 10);
    assert!(app.game.input.is_empty(), "the panel takes no letters");
    assert_eq!(app.handle(press(Key::Esc), 20), Action::Continue);
    assert!(!app.anim.stats_open(20));
    assert_eq!(app.handle(press(Key::Esc), 30), Action::Quit);
}

#[test]
fn control_c_quits_anywhere() {
    let mut app = app_with("λογοσ");
    app.handle(press(Key::Tab), 10);
    let act = app.handle(Event::Key { key: Key::Char('c'), ctrl: true, press: true }, 20);
    assert_eq!(act, Action::Quit);
    let act = app.handle(Event::Key { key: Key::Char('d'), ctrl: true, press: true }, 20);
    assert_eq!(act, Action::Quit);
}

#[test]
fn focus_changes_reach_the_schedule() {
    let mut app = app_with("λογοσ");
    app.handle(Event::Focus(false), 3 * SECOND);
    assert!(!app.anim.focused);
    assert_eq!(app.anim.last_input, 3 * SECOND);
    app.handle(Event::Focus(true), 4 * SECOND);
    assert!(app.anim.focused);
}

#[test]
fn daily_games_draw_from_every_word() {
    let words = dict();
    let mut stats = Stats::default();
    stats.pool = greek_wordle::words::Pool::Common;
    let daily = App::new(words, stats.clone(), true, 20712, 1, 0);
    let everything = greek_wordle::daily::pick_answer(&daily.words, greek_wordle::words::Pool::All, 20712);
    assert_eq!(daily.game.answer_idx, everything);
    let random = App::new(dict(), stats, false, 99, 1, 0);
    assert!(random.words.pool(greek_wordle::words::Pool::Common).contains(&random.game.answer_idx));
}
