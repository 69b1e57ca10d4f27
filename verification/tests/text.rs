use tmux_agent_sidebar::clock;
use tmux_agent_sidebar::text::fields;
use tmux_agent_sidebar::text::map::TextMap;
use tmux_agent_sidebar::text::numbers;
use tmux_agent_sidebar::text::strings;

#[test]
fn white_space_is_that_of_the_standard_library() {
    for code in 0..0x11_0000u32 {
        if let Some(c) = char::from_u32(code) {
            assert_eq!(strings::whitespace(c), c.is_whitespace(), "{code:x}");
        }
    }
}

#[test]
fn trimming_and_splitting_agree_with_the_standard_library() {
    for s in [
        "", " ", "a", " a ", "\u{3000}a b\t", "a|b|c", "||", "|", "a\r\nb\nc\r", "\n\n", "a\n",
        "vv1.2", "\u{e9}\u{1f600}|x y",
    ] {
        assert_eq!(strings::trim(s), s.trim());
        assert_eq!(strings::trim_leading(s, 'v'), s.trim_start_matches('v'));
        assert_eq!(strings::lower(s), s.to_ascii_lowercase());
        assert_eq!(fields::split_fields(s, '|', None), s.split('|').collect::<Vec<_>>());
        assert_eq!(fields::split_fields(s, '|', Some(2)), s.splitn(2, '|').collect::<Vec<_>>());
        assert_eq!(fields::split_words(s), s.split_whitespace().collect::<Vec<_>>());
        assert_eq!(fields::split_lines(s), s.lines().collect::<Vec<_>>());
        assert_eq!(
            fields::split_once(s, '|'),
            s.split_once('|').map(|(a, b)| (a.to_string(), b.to_string()))
        );
    }
    assert_eq!(strings::lower("AbZ\u{c4}"), "abz\u{c4}");
}

#[test]
fn numbers_are_read_as_the_standard_library_reads_them() {
    for s in ["", "+", "0", "+7", "-7", "007", "65535", "65536", "4294967295", "4294967296", "1 ", "x"] {
        assert_eq!(numbers::parse_u32(s), s.parse::<u32>().ok(), "{s}");
        assert_eq!(numbers::parse_u16(s), s.parse::<u16>().ok(), "{s}");
    }
    assert_eq!(numbers::parse_unsigned("18446744073709551615", u64::MAX), Some(u64::MAX));
    assert_eq!(numbers::parse_unsigned("18446744073709551616", u64::MAX), None);
    assert_eq!(numbers::u32_or("x", 80), 80);
}

#[test]
fn numbers_are_written_as_the_standard_library_writes_them() {
    for n in [0, 9, 10, 99, 100, 123456789, u64::MAX] {
        assert_eq!(numbers::to_decimal(n), n.to_string());
        assert_eq!(numbers::decimal_len(n), n.to_string().len());
        assert_eq!(numbers::to_hex(n, 16), format!("{n:016x}"));
        assert_eq!(numbers::parse_unsigned(&numbers::to_decimal(n), u64::MAX), Some(n));
    }
}

#[test]
fn the_last_value_under_a_key_counts() {
    let mut map = TextMap::new();
    assert_eq!(map.get("a"), None);
    map.insert("a".to_string(), 1);
    map.insert("b".to_string(), 2);
    map.insert("a".to_string(), 3);
    assert_eq!(map.get("a"), Some(&3));
    assert_eq!(map.get("b"), Some(&2));
    assert_eq!(map.get("c"), None);
}

#[test]
fn clocks_that_run_backwards_have_not_moved() {
    assert_eq!(clock::elapsed(5, 3), 2);
    assert_eq!(clock::elapsed(3, 5), 0);
    assert_eq!(clock::remaining(10, 5, 3), 8);
    assert_eq!(clock::remaining(10, 50, 3), 0);
    assert!(clock::due(None, 0, 9));
    assert!(clock::due(Some(1), 10, 9));
    assert!(!clock::due(Some(2), 10, 9));
}
