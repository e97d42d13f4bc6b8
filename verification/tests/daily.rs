use std::collections::HashSet;
use std::time::{SystemTime, UNIX_EPOCH};

use greek_wordle::daily::{day_number, mix, pick_answer, utc_offset};
use greek_wordle::words::{Dictionary, Pool};

fn dict() -> Dictionary {
    Dictionary::builtin().expect("the built-in word list is fit to play")
}

fn today() -> u64 {
    let secs = SystemTime::now().duration_since(UNIX_EPOCH).unwrap().as_secs() as i64;
    day_number(secs, 0)
}

fn clock_nanos() -> u64 {
    SystemTime::now().duration_since(UNIX_EPOCH).map(|d| d.as_nanos() as u64).unwrap_or(0)
}

#[test]
fn daily_answer_is_stable_and_valid() {
    let words = dict();
    let a = pick_answer(&words, Pool::default(), today());
    assert_eq!(a, pick_answer(&words, Pool::default(), today()));
    assert!(words.pool(Pool::default()).contains(&a));
}

#[test]
fn random_answers_are_answer_eligible() {
    let words = dict();
    for p in Pool::CYCLE {
        for _ in 0..50 {
            let a = pick_answer(&words, p, clock_nanos());
            assert!(words.pool(p).contains(&a));
        }
    }
}

#[test]
fn mix_spreads_consecutive_days() {
    let words = dict();
    let pool = words.pool(Pool::default()).len() as u64;
    let picks: HashSet<u64> = (0..30).map(|d| mix(20000 + d) % pool).collect();
    assert!(picks.len() > 20, "consecutive days should rarely repeat");
}

#[test]
fn mix_is_splitmix64() {
    // The first outputs of splitmix64 seeded with 0, 1, 2 ... are mix(0), mix(γ), ...
    assert_eq!(mix(0), 0xe220_a839_7b1d_cdaf);
    assert_eq!(mix(0x9e37_79b9_7f4a_7c15), 0x6e78_9e6a_a1b9_65f4);
}

#[test]
fn days_start_at_local_midnight() {
    assert_eq!(day_number(0, 0), 0);
    assert_eq!(day_number(86_399, 0), 0);
    assert_eq!(day_number(86_400, 0), 1);
    assert_eq!(day_number(86_000, 3_600), 1, "an hour ahead of UTC");
    assert_eq!(day_number(-5, 0), 0, "before the epoch counts as day 0");
    assert_eq!(day_number(1_789_516_800, 0), 20_712);
}

#[test]
fn utc_offsets_read_from_date() {
    assert_eq!(utc_offset("+0130\n"), 5_400);
    assert_eq!(utc_offset("-0500"), -18_000);
    assert_eq!(utc_offset("+0000"), 0);
    assert_eq!(utc_offset(""), 0, "nothing read means UTC");
    assert_eq!(utc_offset("+01"), 0, "too short");
    assert_eq!(utc_offset("+0x30"), 1_800, "an unreadable field counts as zero");
}
