use claude_monitor::clock::{hms_millis, hms_of, millis_of, now_millis, reading_of, Reading};
use claude_monitor::config::{resolve_log, resolve_port, resolve_sound};
use claude_monitor::text::{
    compare_text, parse_u16, parse_u32, push_decimal, push_padded, same_text, strip_prefix, Order,
};

fn strings(v: &[&str]) -> Vec<String> {
    v.iter().map(|s| s.to_string()).collect()
}

#[test]
fn texts_are_ordered_by_bytes() {
    assert_eq!(compare_text("", ""), Order::Equal);
    assert_eq!(compare_text("", "a"), Order::Less);
    assert_eq!(compare_text("b", "a"), Order::Greater);
    assert_eq!(compare_text("ab", "abc"), Order::Less);
    assert_eq!(compare_text("Z", "a"), Order::Less);
    assert_eq!(compare_text("é", "z"), Order::Greater);
    for (a, b) in [("a", "b"), ("é", "e"), ("日本", "日"), ("", "x"), ("same", "same")] {
        let expected = match a.cmp(b) {
            std::cmp::Ordering::Less => Order::Less,
            std::cmp::Ordering::Equal => Order::Equal,
            std::cmp::Ordering::Greater => Order::Greater,
        };
        assert_eq!(compare_text(a, b), expected);
    }
}

#[test]
fn same_text_is_equality() {
    assert!(same_text("", ""));
    assert!(same_text("häh", "häh"));
    assert!(!same_text("a", "b"));
    assert!(!same_text("a", "aa"));
}

#[test]
fn numbers_are_read_as_std_reads_them() {
    for s in [
        "", "+", "-", "0", "7", "+7", "++7", "-1", "-0", "007", "65535", "65536", "4294967295",
        "4294967296", "99999999999999999999999", " 1", "1 ", "1_000", "0x10", "１", "12a",
    ] {
        assert_eq!(parse_u16(s), s.parse::<u16>().ok(), "{s:?}");
        assert_eq!(parse_u32(s), s.parse::<u32>().ok(), "{s:?}");
    }
}

#[test]
fn numbers_read_back() {
    for n in [0, 9, 10, 99, 100, 47100, u32::MAX] {
        let mut s = String::from("#");
        push_decimal(&mut s, n);
        assert_eq!(s, format!("#{n}"));
        assert_eq!(parse_u32(&s[1..]), Some(n));
    }
}

#[test]
fn padding_fills_to_the_width() {
    let mut s = String::from(">");
    push_padded(&mut s, "idle", 7);
    push_padded(&mut s, "ünknown", 7);
    push_padded(&mut s, "longer than that", 7);
    assert_eq!(s, format!(">{:<7}{:<7}{:<7}", "idle", "ünknown", "longer than that"));
    assert_eq!(s, ">idle   ünknownlonger than that");
}

#[test]
fn prefixes_are_stripped() {
    assert_eq!(strip_prefix("--port=1", "--port="), Some("1".to_string()));
    assert_eq!(strip_prefix("--port=", "--port="), Some(String::new()));
    assert_eq!(strip_prefix("--port", "--port="), None);
    assert_eq!(strip_prefix("--pOrt=1", "--port="), None);
}

#[test]
fn clock_readings() {
    assert_eq!(millis_of(Reading { secs: 1_700_000_000, millis: 7 }), 1_700_000_000_007);
    assert_eq!(millis_of(Reading { secs: 0, millis: 0 }), 0);
    assert_eq!(hms_of(Reading { secs: 0, millis: 0 }), "00:00:00.000");
    assert_eq!(hms_of(Reading { secs: 86_399, millis: 999 }), "23:59:59.999");
    assert_eq!(hms_of(Reading { secs: 86_400 + 3_723, millis: 45 }), "01:02:03.045");
}

#[test]
fn readings_of_times_since_the_epoch() {
    let r = reading_of(Some((1_700_000_000, 7)));
    assert_eq!((r.secs, r.millis), (1_700_000_000, 7));
    let before = reading_of(None);
    assert_eq!((before.secs, before.millis), (0, 0));
    assert_eq!(hms_of(before), "00:00:00.000");
}

#[test]
fn the_clock_runs() {
    let a = now_millis();
    assert!(a > 1_600_000_000_000);
    assert!(now_millis() < a + 60_000);
    let t = hms_millis();
    assert_eq!(t.len(), 12);
    assert_eq!(&t[2..3], ":");
    assert_eq!(&t[8..9], ".");
}

#[test]
fn port_precedence() {
    let none = None;
    let var = Some("5000".to_string());
    assert_eq!(resolve_port(&strings(&[]), &none), 47100);
    assert_eq!(resolve_port(&strings(&[]), &var), 5000);
    assert_eq!(resolve_port(&strings(&["--port", "40000"]), &var), 40000);
    assert_eq!(resolve_port(&strings(&["--port=40001"]), &var), 40001);
    assert_eq!(resolve_port(&strings(&["--log", "--port=1", "--port=2"]), &none), 1);
}

#[test]
fn port_values_that_are_none() {
    let var = Some("5000".to_string());
    assert_eq!(resolve_port(&strings(&["--port"]), &var), 5000);
    assert_eq!(resolve_port(&strings(&["--port", "x"]), &var), 5000);
    assert_eq!(resolve_port(&strings(&["--port", "--port=9"]), &var), 5000);
    assert_eq!(resolve_port(&strings(&["--port=x", "--port", "7"]), &var), 7);
    assert_eq!(resolve_port(&strings(&["--port=65536"]), &Some("65536".to_string())), 47100);
}

#[test]
fn sound_is_off_unless_set() {
    assert_eq!(resolve_sound(None), None);
    assert_eq!(resolve_sound(Some(String::new())), None);
    assert_eq!(resolve_sound(Some(" \t\u{a0}\n".to_string())), None);
    assert_eq!(resolve_sound(Some(" ding ".to_string())), Some(" ding ".to_string()));
}

#[test]
fn white_space_is_what_std_takes_for_it() {
    for c in '\0'..=char::MAX {
        let kept = resolve_sound(Some(c.to_string())).is_some();
        assert_eq!(kept, !c.to_string().trim().is_empty(), "{:x}", c as u32);
    }
    for c in ['\t', '\r', ' ', '\u{85}', '\u{a0}', '\u{1680}', '\u{200a}', '\u{3000}'] {
        assert_eq!(resolve_sound(Some(c.to_string())), None);
    }
    let listed = ('\0'..=char::MAX).filter(|c| resolve_sound(Some(c.to_string())).is_none());
    assert_eq!(listed.count(), 25);
}

#[test]
fn a_command_with_a_word_is_kept() {
    for cmd in ["a", "\n~", "paplay /usr/share/sounds/complete.oga", "! "] {
        assert_eq!(resolve_sound(Some(cmd.to_string())), Some(cmd.to_string()));
    }
}

#[test]
fn log_is_off_unless_asked_for() {
    assert!(!resolve_log(&strings(&[]), &None));
    assert!(!resolve_log(&strings(&["--logs"]), &Some("  ".to_string())));
    assert!(resolve_log(&strings(&["--port=1", "--log"]), &None));
    assert!(resolve_log(&strings(&[]), &Some("1".to_string())));
}
