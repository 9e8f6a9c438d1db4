use media_cruncher::media::{
    choose_thread_count, classify_extension, determine_media_type, required_tools,
    settle_compression, tally, thread_count_from_parsed, MediaType, Outcome, Settlement,
    SizeTotals,
};
use media_cruncher::text::{
    chars_of, contains_chars, decimal, ends_with_chars, parse_usize, same_text, trim,
};

#[test]
fn media_types() {
    for e in ["png", "jpg", "jpeg", "webp", "bmp"] {
        assert_eq!(determine_media_type(e), MediaType::Image);
    }
    for e in ["webm", "mp4", "mkv", "ogv", "avi", "mpg", "m4v", "gif"] {
        assert_eq!(determine_media_type(e), MediaType::Video);
    }
    for e in ["mp3", "wav", "ogg", "opus"] {
        assert_eq!(determine_media_type(e), MediaType::Audio);
    }
    for e in ["txt", "", "JPG", "flac", "tiff"] {
        assert_eq!(determine_media_type(e), MediaType::Ignore);
    }
}

#[test]
fn classification_ignores_case() {
    assert_eq!(classify_extension("JPG"), MediaType::Image);
    assert_eq!(classify_extension("Mp3"), MediaType::Audio);
    assert_eq!(classify_extension("MKV"), MediaType::Video);
    assert_eq!(classify_extension("Txt"), MediaType::Ignore);
}

#[test]
fn settlements() {
    assert_eq!(
        settle_compression(true, 100, 50),
        Settlement { outcome: Outcome::Replaced, final_bytes: 50 }
    );
    assert_eq!(
        settle_compression(true, 100, 0),
        Settlement { outcome: Outcome::KeptOriginal, final_bytes: 100 }
    );
    assert_eq!(
        settle_compression(true, 100, 100),
        Settlement { outcome: Outcome::KeptOriginal, final_bytes: 100 }
    );
    assert_eq!(
        settle_compression(true, 100, 150),
        Settlement { outcome: Outcome::KeptOriginal, final_bytes: 100 }
    );
    assert_eq!(
        settle_compression(false, 100, 10),
        Settlement { outcome: Outcome::Failed, final_bytes: 100 }
    );
    assert_eq!(
        settle_compression(true, 0, 0),
        Settlement { outcome: Outcome::KeptOriginal, final_bytes: 0 }
    );
}

#[test]
fn totals_and_savings() {
    let t = tally(&vec![(100, 50), (200, 200), (0, 0)]);
    assert_eq!(t, SizeTotals { original_bytes: 300, final_bytes: 250 });
    assert_eq!(t.saved_bytes(), 50);
    assert_eq!(tally(&vec![]), SizeTotals::new());
}

#[test]
fn totals_never_grow() {
    let sizes = [(1000u64, true, 400u64), (500, true, 700), (300, false, 0), (80, true, 0)];
    let records: Vec<(u64, u64)> = sizes
        .iter()
        .map(|&(orig, ok, new)| (orig, settle_compression(ok, orig, new).final_bytes))
        .collect();
    let t = tally(&records);
    assert_eq!(t.original_bytes, 1880);
    assert_eq!(t.final_bytes, 1280);
    assert!(t.final_bytes <= t.original_bytes);
    assert_eq!(t.saved_bytes(), 600);
}

#[test]
fn totals_wrap_like_counters() {
    let t = tally(&vec![(u64::MAX, 1), (2, 2)]);
    assert_eq!(t.original_bytes, 1);
    assert_eq!(t.final_bytes, 3);
    assert_eq!(t.saved_bytes(), 0);
    let mut s = SizeTotals::new();
    s.record(5, 3);
    s.record(u64::MAX, 0);
    assert_eq!(s, SizeTotals { original_bytes: 4, final_bytes: 3 });
}

#[test]
fn thread_counts() {
    assert_eq!(choose_thread_count(None, 8), 4);
    assert_eq!(choose_thread_count(None, 1), 1);
    assert_eq!(choose_thread_count(None, 3), 1);
    assert_eq!(choose_thread_count(Some("max"), 8), 8);
    assert_eq!(choose_thread_count(Some("3"), 8), 3);
    assert_eq!(choose_thread_count(Some("+2"), 8), 2);
    assert_eq!(choose_thread_count(Some("100"), 8), 8);
    assert_eq!(choose_thread_count(Some("0"), 8), 1);
    assert_eq!(choose_thread_count(Some("abc"), 8), 4);
    assert_eq!(choose_thread_count(Some("MAX"), 16), 8);
    assert_eq!(choose_thread_count(Some("-1"), 16), 8);
    assert_eq!(thread_count_from_parsed(Some(5), 4), 4);
    assert_eq!(thread_count_from_parsed(None, 10), 5);
}

#[test]
fn thread_count_within_cores() {
    for cores in 1usize..20 {
        for req in [None, Some("max"), Some("0"), Some("7"), Some("999"), Some("x")] {
            let n = choose_thread_count(req, cores);
            assert!(1 <= n && n <= cores);
        }
    }
}

#[test]
fn tools() {
    let t = required_tools();
    assert_eq!(t.len(), 2);
    assert_eq!(t[0].program, "ffmpeg");
    assert_eq!(t[0].args, vec!["-version".to_string()]);
    assert_eq!(t[1].program, "7z");
    assert_eq!(t[1].args, vec!["-h".to_string()]);
}

#[test]
fn text_helpers() {
    assert_eq!(decimal(0), "0");
    assert_eq!(decimal(9), "9");
    assert_eq!(decimal(10), "10");
    assert_eq!(decimal(u64::MAX), u64::MAX.to_string());
    assert!(same_text("abc", "abc"));
    assert!(!same_text("abc", "ABC"));
    let hay = chars_of("hello world");
    assert!(contains_chars(&hay, &chars_of("o w")));
    assert!(contains_chars(&hay, &chars_of("")));
    assert!(!contains_chars(&hay, &chars_of("worlds")));
    assert!(ends_with_chars(&hay, &chars_of("world")));
    assert!(!ends_with_chars(&hay, &chars_of("hello")));
    assert_eq!(chars_of("héllo"), vec!['h', 'é', 'l', 'l', 'o']);
}

#[test]
fn thread_count_numbers() {
    assert_eq!(choose_thread_count(Some("8"), 16), 8);
    assert_eq!(choose_thread_count(Some("007"), 16), 7);
    assert_eq!(choose_thread_count(Some("+"), 16), 8);
    assert_eq!(choose_thread_count(Some(""), 16), 8);
    assert_eq!(choose_thread_count(Some(" 3"), 16), 8);
    assert_eq!(choose_thread_count(Some("1_0"), 16), 8);
    assert_eq!(choose_thread_count(Some("٣"), 16), 8);
    assert_eq!(choose_thread_count(Some("99999999999999999999999999"), 16), 8);
    assert_eq!(choose_thread_count(Some("18446744073709551615"), 16), 16);
}

#[test]
fn parse_matches_std() {
    for s in ["0", "8", "+8", "007", "", "+", "-1", "-0", " 1", "1 ", "1_000", "++1", "٣",
        "18446744073709551615", "18446744073709551616", "99999999999999999999999999"] {
        assert_eq!(parse_usize(s), s.parse::<usize>().ok(), "{:?}", s);
    }
}

#[test]
fn trim_matches_std() {
    for s in ["", "  ", "a", " a ", "\u{3000}a b\u{a0}", "\u{1680}\u{180e}x\u{205f}", "\u{200b}x",
        "\t\n\u{b}\u{c}\r x \u{85}\u{2029}"] {
        assert_eq!(trim(s), s.trim(), "{:?}", s);
    }
}
