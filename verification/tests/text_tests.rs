use agent_host::decimal;
use agent_host::decimal::IntError;
use agent_host::git_host::ordering::sort_by_date;
use agent_host::git_host::types::UnifiedPrComment;
use agent_host::json::Json;
use agent_host::text;
use agent_host::text::CharClass;
use agent_host::time;
use agent_host::time::Timestamp;

#[test]
fn white_space_is_that_of_the_standard_library() {
    for n in 0..=0x10ffffu32 {
        if let Some(c) = char::from_u32(n) {
            assert_eq!(text::is_white_space(c), c.is_whitespace(), "{n:x}");
        }
    }
}

fn samples() -> Vec<&'static str> {
    vec![
        "",
        " ",
        "a",
        "a b",
        "\n",
        "a\nb\r\nc\r",
        "\r\n\r\n",
        "x\n\n",
        "  padded\t",
        "\u{85}é\u{3000}",
        "a/b//c/",
        "<<u>>",
        "日本語 text",
    ]
}

#[test]
fn text_is_cut_like_the_standard_library_cuts_it() {
    for s in samples() {
        assert_eq!(text::trim(s), s.trim());
        assert_eq!(text::trim_start(s), s.trim_start());
        assert_eq!(text::trim_end(s), s.trim_end());
        assert_eq!(text::lines(s), s.lines().collect::<Vec<_>>());
        assert_eq!(
            text::split_whitespace(s),
            s.split_whitespace().collect::<Vec<_>>()
        );
        assert_eq!(text::split(s, '/'), s.split('/').collect::<Vec<_>>());
        assert_eq!(text::join(&text::split(s, '/'), "/"), s);
        assert_eq!(text::is_blank(s), s.trim().is_empty());
        assert_eq!(text::byte_length(s), s.len());
        assert_eq!(text::escape_newlines(s), s.replace('\n', "\\n"));
        assert_eq!(text::to_lowercase(s), s.to_lowercase());
        for p in samples() {
            assert_eq!(text::str_contains(s, p), s.contains(p), "{s:?} {p:?}");
            assert_eq!(text::str_starts_with(s, p), s.starts_with(p));
            assert_eq!(text::strip_prefix(s, p), s.strip_prefix(p));
            assert_eq!(text::str_eq(s, p), s == p);
        }
    }
    assert_eq!(text::trim_of("<a>b<>", CharClass::Angle), "a>b");
    assert_eq!(text::trim_end_of("x.,;", CharClass::Stop), "x");
    assert_eq!(text::trim_end_of("7a", CharClass::NonDigit), "7");
    assert_eq!(text::trim_start_of("\r\n\nx\n", CharClass::Break), "x\n");
}

#[test]
fn text_is_cut_from_the_front_at_characters() {
    assert_eq!(text::truncate_front_to_max("abcdef", 4), "cdef");
    assert_eq!(text::truncate_front_to_max("abc", 4), "abc");
    assert_eq!(text::truncate_front_to_max("aéé", 4), "éé");
    assert_eq!(text::truncate_front_to_max("aéé", 3), "é");
    // Nothing is cut where only the loss of every character would do.
    assert_eq!(text::truncate_front_to_max("é", 1), "é");
    assert_eq!(text::truncate_front_to_max("😀😀", 5), "😀");
}

#[test]
fn numbers_are_read_like_the_standard_library_reads_them() {
    for s in [
        "",
        "+",
        "-",
        "0",
        "007",
        "+5",
        "-5",
        "--5",
        "5x",
        "9223372036854775807",
        "9223372036854775808",
        "-9223372036854775808",
        "-9223372036854775809",
        "18446744073709551615",
        "18446744073709551616",
        "99999999999999999999x",
        "٣",
    ] {
        match (decimal::parse_i64(s), s.parse::<i64>()) {
            (Ok(a), Ok(b)) => assert_eq!(a, b),
            (Err(a), Err(b)) => assert_eq!(a.message(), b.to_string(), "{s}"),
            other => panic!("{s}: {other:?}"),
        }
        match (decimal::parse_u64(s), s.parse::<u64>()) {
            (Ok(a), Ok(b)) => assert_eq!(a, b),
            (Err(a), Err(b)) => assert_eq!(a.message(), b.to_string(), "{s}"),
            other => panic!("{s}: {other:?}"),
        }
    }
    assert!(matches!(decimal::parse_u64("-1"), Err(IntError::InvalidDigit)));
}

#[test]
fn numbers_are_read_back() {
    for n in [0, 7, 10, 4096, i64::MAX, i64::MIN, -1, -90] {
        assert_eq!(decimal::i64_to_string(n), n.to_string());
        assert!(matches!(decimal::parse_i64(&decimal::i64_to_string(n)), Ok(m) if m == n));
    }
    assert_eq!(decimal::u64_to_string(u64::MAX), u64::MAX.to_string());
}

#[test]
fn json_is_read_and_written() {
    let v = Json::parse("{\"a\": [1, -2, 1.5, true, null, \"x\\n\"], \"b\": {}}").unwrap();
    assert_eq!(
        v.to_line(),
        "{\"a\":[1,-2,1.5,true,null,\"x\\n\"],\"b\":{}}"
    );
    assert_eq!(v.copy(), v);
    let items = v.get("a").unwrap().as_array().unwrap();
    assert_eq!(items[0].as_i64(), Some(1));
    assert_eq!(items[1].as_i64(), Some(-2));
    assert_eq!(items[2].as_i64(), None);
    assert_eq!(items[5].as_str(), Some("x\n"));
    assert!(v.get("b").unwrap().is_object());
    assert_eq!(v.get("c"), None);
    assert!(Json::parse("{").is_err());
    assert_eq!(Json::parse_items("[1]").unwrap().len(), 1);
    assert!(Json::parse_items("1").is_err());
}

#[test]
fn instants_are_read() {
    assert_eq!(
        time::parse_rfc3339("1970-01-01T01:00:00.25+01:00"),
        Some(Timestamp {
            seconds: 0,
            nanos: 250000000
        })
    );
    assert_eq!(time::parse_rfc3339("1970-01-01"), None);
    let early = Timestamp {
        seconds: 1,
        nanos: 2,
    };
    let late = Timestamp {
        seconds: 1,
        nanos: 3,
    };
    assert!(early.is_before(late));
    assert!(!late.is_before(early));
    assert_eq!(time::parse_rfc3339_or(Some("x"), early), early);
    assert!(early.is_before(time::now()));
    assert!(time::now().nanos < 1_000_000_000);
    let readings = time::instants(3);
    assert_eq!(readings.len(), 3);
    assert!(readings.iter().all(|t| t.nanos < 1_000_000_000));
}

fn general(id: &str, seconds: i64) -> UnifiedPrComment {
    UnifiedPrComment::General {
        id: id.to_string(),
        author: String::new(),
        author_association: String::new(),
        body: String::new(),
        created_at: Timestamp { seconds, nanos: 0 },
        url: String::new(),
    }
}

#[test]
fn comments_are_sorted_by_date_and_keep_their_order() {
    let sorted = sort_by_date(vec![
        general("a", 3),
        general("b", 1),
        general("c", 3),
        general("d", 2),
    ]);
    assert_eq!(
        sorted,
        vec![
            general("b", 1),
            general("d", 2),
            general("a", 3),
            general("c", 3)
        ]
    );
}

#[test]
fn numbers_are_written_as_they_were_read() {
    let mut texts: Vec<String> = vec![
        "0".to_string(),
        "-0".to_string(),
        "-7".to_string(),
        "1.0".to_string(),
        "1e2".to_string(),
        "1e-7".to_string(),
        "9223372036854775807".to_string(),
        "-9223372036854775808".to_string(),
        "18446744073709551615".to_string(),
        "18446744073709551616".to_string(),
        "31.245270191439438".to_string(),
    ];
    let mut seed: u64 = 88172645463325252;
    for i in 0..2000 {
        seed ^= seed << 13;
        seed ^= seed >> 7;
        seed ^= seed << 17;
        texts.push(format!("{}.{}e{}", seed % 100, seed >> 4, i % 60 - 30));
    }
    for text in texts {
        let value: serde_json::Value = serde_json::from_str(&text).unwrap();
        let json = Json::parse(&text).unwrap();
        assert_eq!(json.to_line(), value.to_string());
        assert_eq!(json.to_debug(), format!("{value:#?}"));
    }
}

#[test]
fn ascii_pieces_are_lowered_in_any_text() {
    for around in ["", "Σ", "ΑΣ", "İ", "ẞ", "Å", "ǅ", "名", "x"] {
        let text = format!("{around}AbZ[/.9{around}");
        let lower = text::to_lowercase(&text);
        assert!(lower.contains("abz[/.9"), "{lower}");
        assert_eq!(lower, text.to_lowercase());
    }
}
