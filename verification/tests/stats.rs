use greek_wordle::stats::Stats;
use greek_wordle::words::Pool;

#[test]
fn wins_build_a_streak_and_a_loss_breaks_it() {
    let mut s = Stats::default();
    s.record(true, 3, None);
    s.record(true, 4, None);
    s.record(true, 3, None);
    s.record(false, 6, None);
    s.record(true, 1, None);
    assert_eq!((s.played, s.won, s.streak, s.best), (5, 4, 1, 3));
    assert_eq!(s.dist, [1, 0, 2, 1, 0, 0]);
    assert_eq!(s.win_percent(), 80);
}

#[test]
fn a_daily_puzzle_counts_once() {
    let mut s = Stats::default();
    assert!(s.record(true, 2, Some(20_712)));
    assert!(!s.record(true, 2, Some(20_712)), "replay of the same day");
    assert!(s.record(false, 6, Some(20_713)));
    assert!(s.record(true, 5, None), "random games are always counted");
    assert_eq!(s.played, 3);
}

#[test]
fn round_trips_through_text_and_tolerates_junk() {
    let mut s = Stats::default();
    s.record(true, 4, Some(9));
    s.record(false, 6, None);
    assert_eq!(Stats::parse(&s.to_text()), s);

    let damaged = Stats::parse("played=seven\nwon=2\ndist=1,x\ngarbage\n");
    assert_eq!((damaged.played, damaged.won), (0, 2));
    assert_eq!(damaged.dist, [1, 0, 0, 0, 0, 0]);
    assert_eq!(damaged.pool, Pool::default(), "no pool line keeps default");
}

#[test]
fn the_chosen_pool_survives_a_restart() {
    let mut s = Stats {
        pool: Pool::Common,
        ..Default::default()
    };
    s.record(true, 3, None);
    assert_eq!(Stats::parse(&s.to_text()).pool, Pool::Common);
    assert_eq!(
        Stats::parse("pool=made_up\n").pool,
        Pool::default(),
        "an unknown pool name falls back rather than wedging the game"
    );
}

#[test]
fn the_text_is_key_value_lines() {
    let mut s = Stats {
        pool: Pool::NoProperNames,
        ..Default::default()
    };
    s.record(true, 2, Some(20_712));
    assert_eq!(
        s.to_text(),
        "played=1\nwon=1\nstreak=1\nbest=1\ndist=0,1,0,0,0,0\npool=no_proper_names\ndailies=20712\n"
    );
    assert_eq!(
        Stats::default().to_text(),
        "played=0\nwon=0\nstreak=0\nbest=0\ndist=0,0,0,0,0,0\npool=all\n"
    );
}

#[test]
fn reading_follows_str_parse_and_lines() {
    // Spaces around keys and values, CRLF endings, a leading plus.
    let s = Stats::parse(" played = +12 \r\nwon=4294967295\r\nstreak=4294967296\nbest=-1\nlast_daily= 7 \n");
    assert_eq!(s.played, 12);
    assert_eq!(s.won, u32::MAX);
    assert_eq!(s.streak, 0, "too large for a count");
    assert_eq!(s.best, 0, "no sign for a count");
    assert_eq!(s.dailies, vec![7], "the one day an older file kept");
    // The last line need not end in a newline; later lines win.
    let s = Stats::parse("played=1\nplayed=2");
    assert_eq!(s.played, 2);
    // Short distributions fill from the front; long ones drop the rest.
    let s = Stats::parse("dist=1,2,3,4,5,6,7,8\ndist=9");
    assert_eq!(s.dist, [9, 2, 3, 4, 5, 6]);
    let s = Stats::parse("last_daily=soon\n");
    assert!(s.dailies.is_empty());
    let s = Stats::parse("dailies= 5, x ,+6,7\n");
    assert_eq!(s.dailies, vec![5, 6, 7], "unreadable days are skipped");
    assert_eq!(Stats::parse(""), Stats::default());
}

#[test]
fn the_win_percentage_rounds_half_up() {
    let mut s = Stats::default();
    assert_eq!(s.win_percent(), 0, "no games yet");
    s.played = 3;
    s.won = 2;
    assert_eq!(s.win_percent(), 67);
    s.played = 8;
    s.won = 1;
    assert_eq!(s.win_percent(), 13, "12.5 rounds up");
    s.played = 6;
    s.won = 1;
    assert_eq!(s.win_percent(), 17);
    s.played = 1;
    s.won = u32::MAX;
    assert_eq!(s.win_percent(), u32::MAX, "saturates like a float cast");
}

#[test]
fn a_win_in_no_slot_still_counts() {
    let mut s = Stats::default();
    s.record(true, 0, None);
    s.record(true, 7, None);
    assert_eq!((s.played, s.won, s.streak, s.best), (2, 2, 2, 2));
    assert_eq!(s.dist, [0; 6]);
}

#[test]
fn best_keeps_the_longest_streak() {
    let mut s = Stats::default();
    for _ in 0..4 {
        s.record(true, 2, None);
    }
    s.record(false, 6, None);
    s.record(true, 2, None);
    assert_eq!((s.streak, s.best), (1, 4));
    assert!(s.best >= s.streak);
}

#[test]
fn a_daily_puzzle_counts_once_whatever_days_came_between() {
    let mut s = Stats::default();
    assert!(s.record(true, 2, Some(5)));
    assert!(s.record(true, 3, Some(6)));
    let before = s.clone();
    assert!(!s.record(false, 6, Some(5)), "day 5 was already recorded");
    assert_eq!(s, before, "nothing counted, the streak untouched");
    assert_eq!(s.dailies, vec![5, 6]);
    let back = Stats::parse(&s.to_text());
    assert_eq!(back, s);
    let mut again = back;
    assert!(!again.record(true, 1, Some(6)), "recorded days survive a restart");
}

#[test]
fn a_replay_is_refused_even_with_full_counters() {
    let mut s = Stats::default();
    assert!(s.record(true, 1, Some(30)));
    s.played = u32::MAX;
    s.won = u32::MAX;
    assert!(s.has_recorded(Some(30)));
    assert!(!s.has_recorded(Some(31)));
    assert!(!s.has_recorded(None));
    assert!(!s.record(true, 1, Some(30)), "nothing to count, so nothing overflows");
    assert_eq!(s.played, u32::MAX);
}
