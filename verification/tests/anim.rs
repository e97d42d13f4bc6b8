use greek_wordle::anim::{
    Anim, Flip, FLIP, FLIP_STAGGER, FRAME_AMBIENT, FRAME_BUSY, FRAME_IDLE, HOP_DELAY, MS, SHAKE,
    STATS_DELAY, TOAST,
};
use greek_wordle::game::WORD_LEN;

const SECOND: u64 = 1_000 * MS;

#[test]
fn toggling_a_scheduled_panel_opens_it_now() {
    let t0 = 0;
    let mut a = Anim::new(t0, 1);
    a.reveal_row(5, false, t0);
    a.open_stats_after_result();
    assert!(!a.stats_open(t0));
    a.toggle_stats(t0);
    assert!(a.stats_open(t0));
}

#[test]
fn frames_slow_down_when_nothing_moves() {
    let t0 = 0;
    let mut a = Anim::new(t0, 1);
    assert_eq!(a.frame(t0, None), 16 * MS, "the opening deal animates");
    let later = t0 + 5 * SECOND;
    assert_eq!(a.frame(later, None), 50 * MS, "only the caret pulses");
    a.focus(false, later);
    assert_eq!(a.frame(later, None), SECOND);
}

#[test]
fn tiles_flip_left_to_right_then_settle() {
    let t0 = 7 * SECOND;
    let mut a = Anim::new(t0, 1);
    a.reveal_row(2, false, t0);
    let mid = t0 + FLIP / 2;
    assert_eq!(a.flip(2, 0, mid), Flip::Turning(FLIP / 2));
    assert_eq!(a.flip(2, 4, mid), Flip::Pending);
    assert_eq!(a.flip(1, 4, mid), Flip::Done, "earlier rows stay revealed");
    assert!(a.busy(mid));
    let end = t0 + FLIP_STAGGER * 4 + FLIP;
    assert!((0..WORD_LEN).all(|c| a.flip(2, c, end) == Flip::Done));
    assert!(!a.busy(end));
    assert_eq!(a.bounce, None, "no celebration without a win");
}

#[test]
fn a_win_bounces_after_the_reveal_and_holds_input() {
    let t0 = SECOND;
    let mut a = Anim::new(t0, 7);
    a.reveal_row(0, true, t0);
    let landed = a.reveal_end().unwrap();
    assert_eq!(landed, t0 + 4 * 230 * MS + 440 * MS);
    assert!(a.busy(landed), "input waits for the bounce too");
    assert_eq!(a.bounce, Some((0, landed + HOP_DELAY)));
    let down = a.bounce_end().unwrap();
    assert_eq!(down, landed + HOP_DELAY + 4 * 95 * MS + 380 * MS);
    assert!(a.busy(down - 1));
    assert!(!a.busy(down));
}

#[test]
fn stats_open_after_the_celebration_and_grow_in() {
    let t0 = 0;
    let mut a = Anim::new(t0, 1);
    a.reveal_row(0, true, t0);
    a.open_stats_after_result();
    let settled = a.bounce_end().unwrap();
    assert!(!a.stats_open(settled), "the bounce plays out first");
    let open = settled + STATS_DELAY;
    assert!(a.stats_open(open));
    a.toggle_stats(open);
    assert!(!a.stats_open(open));
    a.toggle_stats(open);
    assert!(a.stats_open(open));
    a.new_game(open);
    assert!(!a.stats_open(open + 9 * SECOND));
}

#[test]
fn a_loss_opens_the_panel_after_the_last_tile() {
    let t0 = 0;
    let mut a = Anim::new(t0, 1);
    a.reveal_row(5, false, t0);
    a.open_stats_after_result();
    assert_eq!(a.stats, Some(a.reveal_end().unwrap() + STATS_DELAY));
}

#[test]
fn typing_dismisses_the_note_and_a_rejection_shakes() {
    let t0 = 0;
    let mut a = Anim::new(t0, 1);
    a.reject("nope".to_string(), t0);
    assert_eq!(a.shake, Some(t0));
    assert_eq!(a.toast(t0), Some("nope"));
    assert!(a.frame(t0 + SHAKE - 1, None) == FRAME_BUSY);
    a.typed(3, 'λ', t0);
    assert_eq!(a.toast(t0), None, "typing dismisses the toast");
    assert_eq!(a.typed[3], Some(t0));
    assert_eq!(a.key, Some(('λ', t0)));
    a.erased(3);
    assert_eq!(a.typed[3], None);
}

#[test]
fn a_note_lasts_its_time() {
    let mut a = Anim::new(0, 1);
    a.notify("copied".to_string(), 0);
    assert_eq!(a.toast(TOAST - 1), Some("copied"));
    assert_eq!(a.toast(TOAST), None);
}

#[test]
fn the_caret_rests_when_the_player_walks_away() {
    let a = Anim::new(0, 1);
    assert!(a.ambient(29 * SECOND));
    assert!(!a.ambient(30 * SECOND));
    assert_eq!(a.frame(31 * SECOND, None), FRAME_IDLE);
    assert_eq!(a.frame(10 * SECOND, None), FRAME_AMBIENT);
    assert_eq!(a.frame(10 * SECOND, Some(11 * SECOND)), FRAME_BUSY, "sparks still flying");
}

#[test]
fn draws_follow_splitmix64() {
    let mut a = Anim::new(0, 0);
    let first = a.next_draw();
    // splitmix64 of 0 is 0xe220a8397b1dcdaf; its top 24 bits are the draw.
    assert_eq!(first, 0xe220a8);
    assert_eq!(a.rng, 0x9e37_79b9_7f4a_7c15);
    assert!(a.next_draw() < 1 << 24);
}
