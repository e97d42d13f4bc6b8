use greek_wordle::layout::wrap;
use greek_wordle::words::Dictionary;
use greek_wordle::screen::{screen, stats_panel, panel_text_w, Screen, MIN_H, MIN_W};

#[test]
fn small_windows_are_refused() {
    assert_eq!(screen(MIN_W - 1, 40, 0), None);
    assert_eq!(screen(80, MIN_H - 1, 0), None);
    assert!(screen(MIN_W, MIN_H, 0).is_some());
}

#[test]
fn a_classic_terminal_gets_spaced_small_tiles() {
    let s = screen(80, 24, 0).unwrap();
    assert_eq!(
        s,
        Screen {
            tall: false,
            board_h: 11,
            small_rows: 2,
            subtitle: true,
            keycaps: false,
            keyboard_h: 3,
            top: 0,
            pushed: 0,
            gap_used: 0,
        }
    );
    assert_eq!(s.board_w(), 19);
    assert_eq!(s.bands(), [0, 1, 1, 1, 11, 1, 2, 1, 3, 1, 1]);
}

#[test]
fn tall_windows_get_full_tiles_then_keycaps() {
    let s = screen(100, 40, 0).unwrap();
    assert!(s.tall && s.keycaps && s.subtitle);
    assert_eq!((s.board_h, s.keyboard_h), (18, 6));
    assert_eq!(s.board_w(), 29);
    // 18 + 11 + 1 + 6 - 3 = 33 rows of content, centred in 40.
    assert_eq!(s.top, 3);
    let tight = screen(100, 29, 0).unwrap();
    assert!(tight.tall && !tight.keycaps && !tight.subtitle);
}

#[test]
fn the_board_does_not_move_when_a_definition_appears() {
    for (w, h) in [(200, 100), (100, 40), (80, 24), (40, 17)] {
        let plain = screen(w, h, 0).unwrap();
        for lines in [1, 2, 3, 8, 40] {
            let with = screen(w, h, lines).unwrap();
            let b0 = plain.bands();
            let b1 = with.bands();
            assert_eq!(b0[..5], b1[..5], "shifted at {w}x{h}");
            assert!(b1.iter().map(|&x| x as u32).sum::<u32>() <= h as u32);
        }
    }
}

#[test]
fn a_long_definition_takes_the_gap_then_spare_rows() {
    let s = screen(100, 40, 5).unwrap();
    assert_eq!(s.gap_used, 1);
    assert_eq!(s.pushed, 3);
    let b = s.bands();
    assert_eq!(b[6], 6);
    assert_eq!(b[7], 0);
}

#[test]
fn the_stats_panel_shows_a_long_definition() {
    // The longest definition in the list fits whole in a roomy window, and
    // keeps at least two lines in the smallest one.
    let words = Dictionary::builtin().unwrap();
    let longest = words.entries().iter().map(|e| e.gloss.as_str()).max_by_key(|g| g.len()).unwrap();
    let roomy = wrap(longest, panel_text_w(100)).len() as u16;
    assert_eq!(stats_panel(100, 40, true, roomy).gloss, roomy);
    let tight = wrap(longest, panel_text_w(MIN_W)).len() as u16;
    assert!(stats_panel(MIN_W, MIN_H, true, tight).gloss >= tight.min(2));
    // Roomy: the whole definition and both gaps.
    let p = stats_panel(80, 40, true, 4);
    assert_eq!((p.w, p.gloss, p.gap_after, p.top_gap), (42, 4, 1, 1));
    assert_eq!(p.h, 15 - 1 + 1 + 5 + 1);
    assert_eq!((p.x, p.y), (19, (40 - p.h) / 2));
    // One row short: the gap under the answer goes first.
    let p = stats_panel(80, 20, true, 4);
    assert_eq!((p.gloss, p.gap_after, p.top_gap, p.h), (4, 0, 1, 20));
    // Then the gap above it.
    let p = stats_panel(80, 19, true, 4);
    assert_eq!((p.gloss, p.gap_after, p.top_gap, p.h), (4, 0, 0, 19));
    // Then definition lines, but never below two.
    let p = stats_panel(80, 17, true, 4);
    assert_eq!((p.gloss, p.h), (2, 17));
    let p = stats_panel(80, 10, true, 4);
    assert_eq!((p.gloss, p.h), (2, 10));
    // Without a result there is no answer to show.
    let p = stats_panel(80, 40, false, 0);
    assert_eq!((p.gloss, p.gap_after, p.top_gap, p.h), (0, 0, 1, 15));
}

#[test]
fn the_panel_narrows_with_the_window() {
    assert_eq!(stats_panel(30, 40, false, 0).w, 28);
    assert_eq!(panel_text_w(30), 22);
    assert_eq!(panel_text_w(200), 36);
    assert_eq!(stats_panel(1, 40, false, 0).w, 0);
}
