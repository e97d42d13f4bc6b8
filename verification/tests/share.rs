use greek_wordle::game::{Game, Status};
use greek_wordle::calendar::civil_date;
use greek_wordle::share::{base64, osc52, result};
use greek_wordle::words::{Dictionary, Pool};

fn dict() -> Dictionary {
    Dictionary::builtin().expect("the built-in word list is fit to play")
}

#[test]
fn base64_matches_rfc4648_vectors() {
    let cases = [
        ("", ""),
        ("f", "Zg=="),
        ("fo", "Zm8="),
        ("foo", "Zm9v"),
        ("foob", "Zm9vYg=="),
        ("fooba", "Zm9vYmE="),
        ("foobar", "Zm9vYmFy"),
    ];
    for (plain, encoded) in cases {
        assert_eq!(base64(plain.as_bytes()), encoded);
    }
    assert_eq!(osc52("hi"), "\x1b]52;c;aGk=\x07");
}

#[test]
fn dates_from_day_numbers() {
    assert_eq!(civil_date(0), (1970, 1, 1));
    assert_eq!(civil_date(11_016), (2000, 2, 29));
    assert_eq!(civil_date(20_712), (2026, 9, 16));
}

#[test]
fn result_grid_hides_the_letters() {
    let words = dict();
    let idx = words.pool(Pool::All)[0];
    let mut g = Game::new(&words, idx);
    let answer = words.entry(idx).word.clone();
    let wrong = words
        .entries()
        .iter()
        .find(|e| e.word != answer)
        .unwrap()
        .word
        .clone();
    for word in [wrong, answer.clone()] {
        for c in word.chars() {
            g.push(c);
        }
        g.submit(&words);
    }
    let text = result(&g, Some(20_712));
    let lines: Vec<&str> = text.lines().collect();
    assert_eq!(lines[0], "Ελληνικό Wordle 16/09/2026 2/6");
    assert_eq!(lines[1], "");
    assert_eq!(lines[3], "🟩🟩🟩🟩🟩");
    assert_eq!(lines.len(), 4);
    assert!(!text.contains(answer.as_str()));
}

#[test]
fn a_loss_scores_x() {
    let words = dict();
    let mut g = Game::new(&words, words.pool(Pool::All)[0]);
    g.status = Status::Lost;
    assert!(result(&g, None).starts_with("Ελληνικό Wordle X/6\n"));
}

#[test]
fn base64_of_utf8_text_and_every_digit() {
    assert_eq!(base64("λ".as_bytes()), "zrs=");
    assert_eq!(osc52(""), "\x1b]52;c;\x07");
    let all: Vec<u8> = vec![0x00, 0x10, 0x83, 0x10, 0x51, 0x87, 0x20, 0x92, 0x8b, 0x30, 0xd3, 0x8f];
    assert_eq!(base64(&all), "ABCDEFGHIJKLMNOP");
    assert_eq!(base64(&[0xfb, 0xff]), "+/8=");
    assert_eq!(base64(&[0xff, 0xff, 0xff]), "////");
}

#[test]
fn dates_across_month_and_year_ends() {
    assert_eq!(civil_date(31), (1970, 2, 1));
    assert_eq!(civil_date(364), (1970, 12, 31));
    assert_eq!(civil_date(365), (1971, 1, 1));
    assert_eq!(civil_date(789), (1972, 2, 29));
    assert_eq!(civil_date(10_956), (1999, 12, 31));
}

#[test]
fn the_grid_has_a_row_per_guess_in_the_marks_colours() {
    let words = dict();
    let idx = words.entries().iter().position(|e| e.word == "λογοσ").unwrap();
    let mut g = Game::new(&words, idx);
    for c in "λαλεω".chars() {
        g.push(c);
    }
    g.submit(&words);
    let text = result(&g, None);
    assert_eq!(text, "Ελληνικό Wordle X/6\n\n🟩⬛⬛⬛⬛");
    assert_eq!(g.status, Status::Playing);
}
