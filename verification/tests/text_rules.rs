use vps_monitor::text::{
    clip, decimal_text, is_blank, is_root_path, is_white_space, name_list, parse_unsigned, starts_with, trim,
    trim_slashes,
};

#[test]
fn clip_counts_characters_not_bytes() {
    assert_eq!(clip("hello", 2), "he");
    assert_eq!(clip("東京大阪", 3), "東京大");
    assert_eq!(clip("hello", 5), "hello");
    assert_eq!(clip("hello", 64), "hello");
    assert_eq!(clip("hello", 0), "");
    assert_eq!(clip("", 8), "");
}

#[test]
fn clip_twice_is_clip_once() {
    let long = "名".repeat(100);
    let once = clip(&long, 64);
    assert_eq!(once.chars().count(), 64);
    assert!(long.starts_with(&once));
    assert_eq!(clip(&once, 64), once);
    assert_eq!(clip(&clip(&long, 8), 64), clip(&long, 8));
    assert_eq!(clip(&once, 8), clip(&long, 8));
}

#[test]
fn white_space_is_that_of_unicode() {
    for code in 0..=0x10ffffu32 {
        if let Some(c) = char::from_u32(code) {
            assert_eq!(is_white_space(c), c.is_whitespace(), "{:x}", code);
        }
    }
}

#[test]
fn trim_removes_white_space_at_both_ends() {
    for s in ["", " ", "a", " a", "a ", "\t a b \n", "\u{3000}host\u{a0}", "  \r\n ", "a  b"] {
        assert_eq!(trim(s), s.trim());
        assert_eq!(is_blank(s), s.trim().is_empty());
    }
}

#[test]
fn trim_slashes_removes_all_at_the_end() {
    assert_eq!(trim_slashes("http://a//"), "http://a");
    assert_eq!(trim_slashes("http://a"), "http://a");
    assert_eq!(trim_slashes("///"), "");
    assert_eq!(trim_slashes("/a"), "/a");
}

#[test]
fn starts_with_compares_whole_prefix() {
    assert!(starts_with("docker0", "docker"));
    assert!(starts_with("lo", "lo"));
    assert!(starts_with("eth0", ""));
    assert!(!starts_with("l", "lo"));
    assert!(!starts_with("eth0", "lo"));
}

#[test]
fn name_list_skips_blank_entries() {
    assert_eq!(name_list("eth0,ens18"), vec!["eth0", "ens18"]);
    assert_eq!(name_list(" eth0 , ,ens18,"), vec!["eth0", "ens18"]);
    assert_eq!(name_list("eth0"), vec!["eth0"]);
    assert!(name_list(",").is_empty());
    assert!(name_list("").is_empty());
}

#[test]
fn parse_unsigned_reads_what_std_reads() {
    for s in [
        "", "+", "-", "0", "20", "+20", "-0", "007", " 20", "20 ", "2_0", "１",
        "18446744073709551615", "18446744073709551616", "99999999999999999999999",
        "00000000000000000000000000000000000001", "1e3", "++1",
    ] {
        assert_eq!(parse_unsigned(s), s.parse::<u64>().ok(), "{:?}", s);
    }
}

#[test]
fn decimal_text_writes_what_std_writes() {
    for n in [0u64, 5, 9, 10, 99, 100, 1234567890, u64::MAX] {
        assert_eq!(decimal_text(n), n.to_string());
    }
}

#[test]
fn root_path_is_what_std_takes_for_the_root() {
    let paths = [
        "/", "//", "/.", "/./", "//.//.", "", ".", "./", "/..", "/...", "/./..", "/a", "/boot", "a/",
        "/ ", "\u{fffd}",
    ];
    for path in paths {
        let expected = std::path::Path::new(path) == std::path::Path::new("/");
        assert_eq!(is_root_path(path), expected, "{:?}", path);
    }
    assert!(is_root_path("/"));
    assert!(!is_root_path("/data"));
}
