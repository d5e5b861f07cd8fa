use bucketmount::applog::{civil_from_days, log_line, log_line_for, timestamp, timestamp_at, timestamp_for};
use bucketmount::number::{
    decimal_padded_string, decimal_string, hex_byte_string, parse_i32, signed_decimal_string,
};
use bucketmount::path::{
    components_of, file_name, is_absolute, join_path, same_path, strip_base,
};
use bucketmount::split::{
    contains, ends_with, find, join, lines, replace, rfind, slice, split, split_once, starts_with,
    strip_prefix, strip_suffix,
};
use std::path::Path;
use bucketmount::text::{is_blank, is_white, trim, trim_of, trim_start_of, Class};

#[test]
fn stamps() {
    assert_eq!(timestamp_at(0), "1970-01-01 00:00:00Z");
    assert_eq!(timestamp_at(951_782_400), "2000-02-29 00:00:00Z");
    assert_eq!(timestamp_at(1_790_231_268), "2026-09-24 06:27:48Z");
    assert_eq!(timestamp_at(4_107_542_399), "2100-02-28 23:59:59Z");
    assert_eq!(timestamp_for(Some(951_868_799)), "2000-02-29 23:59:59Z");
    assert_eq!(timestamp_for(Some(0)), "1970-01-01 00:00:00Z");
    assert_eq!(timestamp_for(None), "1970-01-01 00:00:00Z");
    assert_eq!(log_line_for(Some(1), "x"), "1970-01-01 00:00:01Z x\n");
    assert_eq!(log_line_for(None, "x"), "1970-01-01 00:00:00Z x\n");
    assert_eq!(timestamp().len(), 20);
    assert!(log_line("hello").ends_with("Z hello\n"));
}

#[test]
fn dates_follow_the_calendar() {
    let mut expected = (1970u64, 1u64, 1u64);
    for day in 0..200_000u64 {
        assert_eq!(civil_from_days(day), expected);
        let (y, m, d) = expected;
        let leap = y % 4 == 0 && (y % 100 != 0 || y % 400 == 0);
        let len = match m {
            2 => if leap { 29 } else { 28 },
            4 | 6 | 9 | 11 => 30,
            _ => 31,
        };
        expected = if d < len {
            (y, m, d + 1)
        } else if m < 12 {
            (y, m + 1, 1)
        } else {
            (y + 1, 1, 1)
        };
    }
}

#[test]
fn numbers_as_text() {
    for n in [0u64, 9, 10, 12345, u64::MAX] {
        assert_eq!(decimal_string(n), n.to_string());
    }
    assert_eq!(signed_decimal_string(i32::MIN), "-2147483648");
    assert_eq!(decimal_padded_string(7, 4), "0007");
    assert_eq!(decimal_padded_string(12345, 4), "12345");
    assert_eq!(hex_byte_string(0x0a), "0a");
    assert_eq!(hex_byte_string(255), "ff");
}

#[test]
fn text_as_numbers() {
    for s in ["0", "-1", "+7", "2147483647", "-2147483648", "007"] {
        assert_eq!(parse_i32(s), s.parse::<i32>().ok());
        assert!(parse_i32(s).is_some());
    }
    for s in ["", "-", "+", "2147483648", "-2147483649", "1a", " 1", "--1"] {
        assert_eq!(parse_i32(s), None);
        assert!(s.parse::<i32>().is_err());
    }
}

#[test]
fn paths_like_the_standard_library() {
    let all = [
        "", "/", "a", "/a", "a/", "a/b", "/a/b", "./a", "a/./b", "a//b", "..", "/..", "a/..", ".", "//a",
        "/a/b/../c", "~", "a b/c.d", "./", "/./a",
    ];
    for p in all {
        assert_eq!(is_absolute(p), Path::new(p).is_absolute(), "{p}");
        assert_eq!(
            file_name(p),
            Path::new(p).file_name().map(|n| n.to_string_lossy().to_string()),
            "{p}"
        );
        for q in all {
            assert_eq!(join_path(p, q), Path::new(p).join(q).to_string_lossy(), "{p} {q}");
            assert_eq!(same_path(p, q), Path::new(p) == Path::new(q), "{p} {q}");
            if !q.is_empty() {
                let want = Path::new(p).strip_prefix(q).ok().map(|r| r.to_string_lossy().to_string());
                assert_eq!(strip_base(p, q), want, "{p} {q}");
                if let Some(rest) = strip_base(p, q) {
                    if is_absolute(q) {
                        assert!(same_path(&join_path(q, &rest), p), "{p} {q}");
                    }
                }
            }
        }
    }
    assert_eq!(components_of("/a//b/./c/"), vec!["a", "b", "c"]);
}

#[test]
fn searching_like_the_standard_library() {
    let texts = ["", "a", "ab", "aab", "abab", " on on ", "xäyä", "ä"];
    for h in texts {
        for n in texts {
            assert_eq!(contains(h, n), h.contains(n));
            assert_eq!(starts_with(h, n), h.starts_with(n));
            assert_eq!(ends_with(h, n), h.ends_with(n));
            assert_eq!(strip_prefix(h, n), h.strip_prefix(n).map(|s| s.to_string()));
            assert_eq!(strip_suffix(h, n), h.strip_suffix(n).map(|s| s.to_string()));
            assert_eq!(find(h, n), h.find(n).map(|i| h[..i].chars().count()));
            assert_eq!(rfind(h, n), h.rfind(n).map(|i| h[..i].chars().count()));
            assert_eq!(
                split_once(h, n),
                h.split_once(n).map(|(a, b)| (a.to_string(), b.to_string()))
            );
        }
    }
    assert_eq!(slice("xäyä", 1, 3), "äy");
}

#[test]
fn splitting_like_the_standard_library() {
    for s in ["", "\n", "a", "a\n", "a\nb", "a\r\nb\r", "\r\n\r\n", "a\n\nb\n"] {
        assert_eq!(lines(s), s.lines().collect::<Vec<_>>(), "{s:?}");
        assert_eq!(split(s, Class::Only('\n')), s.split('\n').collect::<Vec<_>>());
        assert_eq!(split(s, Class::Space), s.split(char::is_whitespace).collect::<Vec<_>>());
        assert_eq!(replace(s, '\n', "--"), s.replace('\n', "--"));
        assert_eq!(join(&split(s, Class::Only('\n')), "\n"), s);
    }
}

#[test]
fn trimming_like_the_standard_library() {
    for s in ["", " ", " a ", "\u{a0}a\u{2003}b\u{85}", "//a/b//", "::x: y", "\t\n"] {
        assert_eq!(trim(s), s.trim());
        assert_eq!(is_blank(s), s.trim().is_empty());
        assert_eq!(trim_of(s, Class::Only('/')), s.trim_matches('/'));
        assert_eq!(
            trim_start_of(s, Class::Only(':')),
            s.trim_start_matches(':')
        );
    }
    for c in (0u32..0x3100).filter_map(char::from_u32) {
        assert_eq!(is_white(c), c.is_whitespace(), "{c:?}");
    }
}
