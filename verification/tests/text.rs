use tui_chat_app::clock::{
    clamp_millis, one_second_after, poll_timeout, Stopwatch, Timestamp, SECOND,
};
use tui_chat_app::ident::{fresh_id, id_text};
use tui_chat_app::method::Method;
use tui_chat_app::text::{blank, text_of};

#[test]
fn blank_text_is_text_of_whitespace_only() {
    assert!(blank(""));
    assert!(blank("   "));
    assert!(blank(" \t\r\n"));
    assert!(blank("\u{a0}\u{2003}\u{3000}\u{85}\u{1680}\u{2028}\u{2029}\u{202f}\u{205f}"));
    assert!(!blank("a"));
    assert!(!blank("  a  "));
    assert!(!blank("\u{200b}"));
    assert!(!blank("\u{feff}"));
}

#[test]
fn text_of_characters_spells_them_in_order() {
    assert_eq!(text_of(&vec![]), "");
    assert_eq!(text_of(&vec!['h', 'é', '!', '語']), "hé!語");
}

#[test]
fn identifiers_are_written_hyphenated_in_lower_case() {
    assert_eq!(id_text(0), "00000000-0000-0000-0000-000000000000");
    assert_eq!(
        id_text(0xa1a2a3a4b1b2c1c2d1d2d3d4d5d6d7d8),
        "a1a2a3a4-b1b2-c1c2-d1d2-d3d4d5d6d7d8"
    );
    assert_eq!(id_text(u128::MAX), "ffffffff-ffff-ffff-ffff-ffffffffffff");
    assert_eq!(id_text(0x0123456789ABCDEF0123456789ABCDEF), "01234567-89ab-cdef-0123-456789abcdef");
}

#[test]
fn fresh_identifiers_are_random_version_four() {
    let a = fresh_id();
    let b = fresh_id();
    assert_ne!(a, b);
    for id in [a, b, fresh_id(), fresh_id()] {
        assert_eq!((id >> 76) & 0xf, 4);
        assert_eq!((id >> 62) & 0x3, 2);
    }
}

#[test]
fn clock_text_is_the_local_time_of_day() {
    let t = Timestamp { unix_seconds: 0, offset_seconds: 0 };
    assert_eq!(t.clock_text(), "00:00:00");
    let t = Timestamp { unix_seconds: 1431648000 + 3 * 3600 + 4 * 60 + 5, offset_seconds: 0 };
    assert_eq!(t.clock_text(), "03:04:05");
    let t = Timestamp { unix_seconds: 1431648000, offset_seconds: 2 * 3600 };
    assert_eq!(t.clock_text(), "02:00:00");
    let t = Timestamp { unix_seconds: 1431648000, offset_seconds: -1 };
    assert_eq!(t.clock_text(), "23:59:59");
    let t = Timestamp { unix_seconds: -1, offset_seconds: 0 };
    assert_eq!(t.clock_text(), "23:59:59");
    let t = Timestamp { unix_seconds: 86399 + 86400 * 7, offset_seconds: 0 };
    assert_eq!(t.clock_text(), "23:59:59");
    let t = Timestamp { unix_seconds: i64::MAX, offset_seconds: i32::MAX };
    assert_eq!(t.clock_text().len(), 8);
    let t = Timestamp { unix_seconds: i64::MIN, offset_seconds: i32::MIN };
    assert_eq!(t.clock_text().len(), 8);
}

#[test]
fn the_wall_clock_reads_an_offset_of_less_than_a_day() {
    let now = tui_chat_app::clock::local_now();
    assert!(-86_400 < now.offset_seconds && now.offset_seconds < 86_400);
    assert!(now.unix_seconds > 1_600_000_000);
}

#[test]
fn the_stopwatch_does_not_run_backwards() {
    let watch = Stopwatch::start();
    let a = watch.millis();
    let b = watch.millis();
    assert!(a <= b);
    assert!(b < 60_000);
}

#[test]
fn heartbeats_are_a_second_apart() {
    assert_eq!(SECOND, 1000);
    assert_eq!(one_second_after(0), 1000);
    assert_eq!(one_second_after(41), 1041);
    assert_eq!(one_second_after(u64::MAX - 1000), u64::MAX);
    assert_eq!(one_second_after(u64::MAX - 999), u64::MAX);
    assert_eq!(one_second_after(u64::MAX), u64::MAX);
}

#[test]
fn the_poll_waits_for_what_is_left_of_the_tick() {
    assert_eq!(poll_timeout(100, 0), 100);
    assert_eq!(poll_timeout(100, 30), 70);
    assert_eq!(poll_timeout(100, 100), 0);
    assert_eq!(poll_timeout(100, 250), 0);
}

#[test]
fn methods_go_by_their_command_line_names() {
    assert_eq!(Method::Tui.to_text(), "tui");
    assert_eq!(Method::Prompts.to_text(), "prompts");
    assert_eq!(Method::Quiet.to_text(), "quiet");
}

#[test]
fn the_session_clock_ends_at_the_largest_value() {
    assert_eq!(clamp_millis(0), 0);
    assert_eq!(clamp_millis(1_234), 1_234);
    assert_eq!(clamp_millis(u64::MAX as u128), u64::MAX);
    assert_eq!(clamp_millis(u64::MAX as u128 + 1), u64::MAX);
    assert_eq!(clamp_millis(u128::MAX), u64::MAX);
}
