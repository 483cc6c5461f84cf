//! Text, bytes and paths.
use aldis::failure::IoFailure;
use aldis::kconfig::contains_entry;
use aldis::{bytes, error_chain, paths, text};

const SAMPLES: [&str; 12] = [
    "",
    " ",
    "a",
    "  a b  ",
    "\u{a0}edge\u{3000}",
    "line\nnext\r\n\nlast",
    "trailing\n",
    "lone\r",
    "ÄÖ mcu Tool",
    "vendor:product",
    "::",
    "/a//b/",
];

#[test]
fn white_space_is_the_unicode_property() {
    for c in '\0'..=char::MAX {
        assert_eq!(text::white_space(c), c.is_whitespace(), "{c:?}");
        assert_eq!(text::to_lower(c), c.to_ascii_lowercase(), "{c:?}");
    }
}

#[test]
fn text_primitives_agree_with_std() {
    for sample in SAMPLES {
        assert_eq!(text::trim(sample), sample.trim());
        assert_eq!(text::to_lowercase(sample), sample.to_ascii_lowercase());
        assert_eq!(text::lines(sample), sample.lines().collect::<Vec<_>>());
        assert_eq!(text::chars_of(sample), sample.chars().collect::<Vec<_>>());
        assert_eq!(text::text_of(&text::chars_of(sample)), sample);
        assert_eq!(
            text::split_word(sample).map(|(word, _)| word),
            sample.split_whitespace().next()
        );
        for other in SAMPLES {
            assert_eq!(text::same_text(sample, other), sample == other);
            assert_eq!(text::starts_with(sample, other), sample.starts_with(other));
            assert_eq!(text::ends_with(sample, other), sample.ends_with(other));
            assert_eq!(text::contains(sample, other), sample.contains(other));
            assert_eq!(text::split_once(sample, other), sample.split_once(other));
            assert_eq!(text::text_before(sample, other), sample < other);
            assert_eq!(
                text::eq_ignore_case(sample, other),
                sample.eq_ignore_ascii_case(other)
            );
        }
    }
    assert_eq!(text::find("a::b", "::"), Some(1));
    assert_eq!(text::find("ä:b", ":"), Some(1));
    assert_eq!(text::find("ab", "c"), None);
}

#[test]
fn numbers_are_written_and_read_in_both_bases() {
    for n in [0, 1, 9, 10, 255, 4096, u64::from(u32::MAX), u64::MAX] {
        assert_eq!(text::decimal_text(n), n.to_string());
        assert_eq!(text::hexadecimal_text(n), format!("{n:x}"));
        assert_eq!(text::parse_unsigned(&n.to_string(), 10, u64::MAX), Some(n));
        assert_eq!(text::parse_unsigned(&format!("{n:X}"), 16, u64::MAX), Some(n));
    }
    for refused in ["", "+", "-1", "1 ", "0x1", "g", "18446744073709551616"] {
        assert_eq!(text::parse_unsigned(refused, 10, u64::MAX), None, "{refused}");
    }
    assert_eq!(text::parse_unsigned("+7", 10, 100), Some(7));
    assert_eq!(text::parse_unsigned("101", 10, 100), None);
    assert_eq!(text::parse_unsigned("00000000000000000000000012", 16, 100), Some(18));
}

#[test]
fn padding_never_cuts() {
    assert_eq!(text::pad_start("7", 3, '0'), "007");
    assert_eq!(text::pad_start("1234", 3, '0'), "1234");
    assert_eq!(text::pad_end("ab", 4, ' '), "ab  ");
    assert_eq!(text::pad_end("abcde", 4, ' '), "abcde");
}

#[test]
fn equal_keys_keep_their_order() {
    let keys: Vec<String> = ["02", "00", "01", "00", ""].map(str::to_owned).to_vec();
    assert_eq!(text::stable_order(&keys), [4, 1, 3, 2, 0]);
    assert_eq!(text::join(&keys, "-"), "02-00-01-00-");
    assert_eq!(text::join(&Vec::new(), "-"), "");
}

#[test]
fn numbers_are_little_endian() {
    assert_eq!(bytes::le_u16(0x34, 0x12), 0x1234);
    assert_eq!(bytes::le_u32_at(&[9, 0x78, 0x56, 0x34, 0x12], 1), 0x1234_5678);
    assert_eq!(bytes::u16_le(0x1234), [0x34, 0x12]);
    assert_eq!(bytes::u32_le(0x1234_5678), 0x1234_5678_u32.to_le_bytes());
    let mut buffer = vec![1];
    bytes::append(&mut buffer, &[2, 3]);
    assert_eq!(buffer, [1, 2, 3]);
    assert_eq!(bytes::copy_range(&buffer, 1, 3), [2, 3]);
    assert!(bytes::same_bytes(&buffer, &[1, 2, 3]));
    assert!(!bytes::same_bytes(&buffer, &[1, 2]));
    assert!(!bytes::same_bytes(&buffer, &[1, 2, 4]));
}

#[test]
fn paths_join_as_the_file_system_does() {
    for (base, part) in [
        ("", "a"),
        ("/", "a"),
        ("/a", "b"),
        ("/a/", "b"),
        ("a", "/b"),
        ("a", ""),
        ("rel/x", "y/z"),
    ] {
        let joined = std::path::Path::new(base).join(part);
        assert_eq!(paths::join(base, part), joined.to_str().unwrap());
    }
}

#[test]
fn settings_match_whole_trimmed_lines() {
    let kconfig = "# comment\n  CONFIG_A=y \r\nCONFIG_B=y";
    assert!(contains_entry(kconfig, "CONFIG_A=y"));
    assert!(contains_entry(kconfig, "CONFIG_B=y"));
    assert!(!contains_entry(kconfig, "CONFIG_"));
    assert!(!contains_entry("CONFIG_AB=y", "CONFIG_A=y"));
}

#[test]
fn chains_read_from_the_outside_in() {
    let failure = IoFailure {
        message: "gone".to_owned(),
    };
    assert_eq!(failure.clone(), failure);
    assert_eq!(error_chain(&vec!["could not run git".to_owned()]), "could not run git");
    assert_eq!(
        error_chain(&["a", "b", "c"].map(str::to_owned).to_vec()),
        "a: b: c"
    );
}
