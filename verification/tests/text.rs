use lyra::layout::{centered, truncate, window, wrap, Area};
use lyra::number::{read_i64, read_u16, read_u32, read_u64, write_i32, write_u64};
use lyra::shell::shell_join;
use lyra::text::{
    capitalize_first, contains, ends_with, first_chars, is_before, is_blank, is_white, join, pad,
    replace, split_lines, split_on, split_once, split_words, starts_with, strip_prefix, to_lower,
    trim,
};

fn strings(list: &[&str]) -> Vec<String> {
    list.iter().map(|s| s.to_string()).collect()
}

#[test]
fn white_space_is_that_of_unicode() {
    for u in 0..0x11_0000u32 {
        if let Some(c) = char::from_u32(u) {
            assert_eq!(is_white(c), c.is_whitespace());
        }
    }
}

#[test]
fn texts_are_cut_as_in_std() {
    let samples = [
        "",
        " ",
        "a",
        "a b",
        "  two  words\t\n",
        "a=b=c",
        "line one\r\nline two\n\nlast",
        "\u{2003}wide\u{a0}",
        "ends\n",
        "é=ü&x",
        "\r\n",
        "a\rb\n",
    ];
    for s in samples {
        assert_eq!(trim(s), s.trim());
        assert_eq!(is_blank(s), s.trim().is_empty());
        let words: Vec<String> = s.split_whitespace().map(|w| w.to_string()).collect();
        assert_eq!(split_words(s), words);
        let lines: Vec<String> = s.lines().map(|w| w.to_string()).collect();
        assert_eq!(split_lines(s), lines);
        for c in ['=', '&', ' ', '\n'] {
            let pieces: Vec<String> = s.split(c).map(|w| w.to_string()).collect();
            assert_eq!(split_on(s, c), pieces);
            let once = s.split_once(c).map(|(a, b)| (a.to_string(), b.to_string()));
            assert_eq!(split_once(s, c), once);
            assert_eq!(replace(s, c, "<>"), s.replace(c, "<>"));
        }
        for p in samples {
            assert_eq!(starts_with(s, p), s.starts_with(p));
            assert_eq!(ends_with(s, p), s.ends_with(p));
            assert_eq!(contains(s, p), s.contains(p));
            assert_eq!(strip_prefix(s, p), s.strip_prefix(p).map(|r| r.to_string()));
            assert_eq!(is_before(s, p), s < p);
        }
        let n = s.chars().count();
        for k in 0..n + 2 {
            assert_eq!(first_chars(s, k), s.chars().take(k).collect::<String>());
            assert_eq!(pad(s, k), format!("{:<1$}", s, k));
        }
    }
    assert_eq!(join(&strings(&["a", "b", "c"]), ", "), "a, b, c");
    assert_eq!(join(&strings(&[]), ", "), "");
}

#[test]
fn case_is_changed_as_in_std() {
    assert_eq!(capitalize_first("abc"), "Abc");
    assert_eq!(capitalize_first("Abc"), "Abc");
    assert_eq!(capitalize_first("éa"), "Éa");
    assert_eq!(capitalize_first("ßa"), "SSa");
    assert_eq!(capitalize_first(""), "");
    assert_eq!(capitalize_first("1a"), "1a");
    assert_eq!(to_lower("INSTRUMENTAL Ä [Z]"), "instrumental ä [z]");
}

#[test]
fn numbers_are_read_as_in_std() {
    let samples = [
        "",
        "0",
        "7",
        "007",
        "+5",
        "-5",
        "+",
        "-",
        "--1",
        "+-1",
        "1 ",
        " 1",
        "1.0",
        "65535",
        "65536",
        "4294967295",
        "4294967296",
        "9223372036854775807",
        "9223372036854775808",
        "-9223372036854775808",
        "-9223372036854775809",
        "18446744073709551615",
        "18446744073709551616",
        "99999999999999999999999999",
        "-0",
        "١",
    ];
    for s in samples {
        assert_eq!(read_u64(s), s.parse::<u64>().ok());
        assert_eq!(read_u32(s), s.parse::<u32>().ok());
        assert_eq!(read_u16(s), s.parse::<u16>().ok());
        assert_eq!(read_i64(s), s.parse::<i64>().ok());
    }
    for n in [0u64, 9, 10, 12345, u64::MAX] {
        assert_eq!(write_u64(n), format!("{n}"));
        assert_eq!(read_u64(write_u64(n).as_str()), Some(n));
    }
    for n in [0i32, -1, 137, i32::MIN, i32::MAX] {
        assert_eq!(write_i32(n), format!("{n}"));
    }
}

#[test]
fn shell_quotes_what_it_has_to() {
    assert_eq!(shell_join(&strings(&["a", "--b=c/d.e_f-g"])), "a --b=c/d.e_f-g");
    assert_eq!(shell_join(&strings(&["it's", "a b"])), "'it'\\''s' 'a b'");
    assert_eq!(shell_join(&strings(&["$HOME", "é", "line\nfeed"])), "'$HOME' 'é' 'line\nfeed'");
}

#[test]
fn long_texts_are_cut() {
    assert_eq!(truncate("short", 5), "short");
    assert_eq!(truncate("longer", 5), "long…");
    assert_eq!(truncate("a\nb", 40), "a⏎b");
    assert_eq!(truncate("äöü", 2), "ä…");
    assert_eq!(truncate("abc", 1), "…");
    assert_eq!(truncate("abc", 0), "…");
    assert_eq!(truncate("", 0), "");
}

#[test]
fn text_is_wrapped_at_words() {
    assert_eq!(wrap("one two three four", 9), strings(&["one two", "three", "four"]));
    assert_eq!(wrap("one two three four", 0), strings(&["one two", "three", "four"]));
    assert_eq!(wrap("a\n\n b  c ", 20), strings(&["a", "", "b c"]));
    assert_eq!(
        wrap("incomprehensibilities are long", 10),
        strings(&["incomprehensibilities", "are long"])
    );
    assert_eq!(wrap("", 10), strings(&[""]));
    assert_eq!(wrap("12345678", 8), strings(&["12345678"]));
    assert_eq!(wrap("1234 678", 8), strings(&["1234 678"]));
    assert_eq!(wrap("1234 6789", 8), strings(&["1234", "6789"]));
    let text = "the quick brown fox jumps over the lazy dog";
    for width in 8..50usize {
        let lines = wrap(text, width);
        assert_eq!(lines.join(" "), text);
        assert!(lines.iter().all(|l| l.chars().count() <= width));
    }
}

#[test]
fn window_ends_at_the_end_of_the_log() {
    assert_eq!(window(100, 10, 0), (90, 100));
    assert_eq!(window(100, 10, 5), (85, 95));
    assert_eq!(window(100, 10, 95), (0, 5));
    assert_eq!(window(100, 10, 200), (0, 0));
    assert_eq!(window(3, 10, 0), (0, 3));
    assert_eq!(window(0, 10, 0), (0, 0));
}

#[test]
fn box_stands_in_the_middle() {
    let screen = Area { x: 0, y: 0, width: 100, height: 40 };
    assert_eq!(centered(screen, 70, 20), Area { x: 15, y: 10, width: 70, height: 20 });
    assert_eq!(centered(screen, 70, 60), Area { x: 15, y: 1, width: 70, height: 38 });
    let small = Area { x: 3, y: 2, width: 10, height: 4 };
    assert_eq!(centered(small, 70, 20), Area { x: 3, y: 2, width: 20, height: 5 });
}
