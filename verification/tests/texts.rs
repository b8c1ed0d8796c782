use pixiv_archive::api::generate_user_headers;
use pixiv_archive::artwork::parse_description;
use pixiv_archive::comment::PixivComment;
use pixiv_archive::comment::build_comment;
use pixiv_archive::comment::comment_text;
use pixiv_archive::config::default_user_agent;
use pixiv_archive::config::session_cookie;
use pixiv_archive::tag::PixivTag;
use pixiv_archive::tag::PixivTags;
use pixiv_archive::text::parse_u64;
use pixiv_archive::text::split_ws;
use pixiv_archive::text::str_contains;
use pixiv_archive::text::str_eq;
use pixiv_archive::text::u64_to_dec;

#[test]
fn decimal_rendering() {
    assert_eq!(u64_to_dec(0), "0");
    assert_eq!(u64_to_dec(7), "7");
    assert_eq!(u64_to_dec(1234567890), "1234567890");
    assert_eq!(u64_to_dec(u64::MAX), "18446744073709551615");
}

#[test]
fn decimal_parsing() {
    assert_eq!(parse_u64("0"), Some(0));
    assert_eq!(parse_u64("00123"), Some(123));
    assert_eq!(parse_u64("18446744073709551615"), Some(u64::MAX));
    assert_eq!(parse_u64("18446744073709551616"), None);
    assert_eq!(parse_u64(""), None);
    assert_eq!(parse_u64("12a"), None);
    assert_eq!(parse_u64("-1"), None);
}

#[test]
fn substring_probes() {
    assert!(str_contains("hello world", "lo wo"));
    assert!(str_contains("hello", ""));
    assert!(!str_contains("hello", "world"));
    assert!(str_eq("abc", "abc"));
    assert!(!str_eq("abc", "abd"));
}

#[test]
fn whitespace_splitting() {
    let toks = split_ws("  Mozilla/5.0  (X11; Linux) \n Chrome/1.2 ");
    let expected = vec!["Mozilla/5.0", "(X11;", "Linux)", "Chrome/1.2"];
    assert_eq!(toks, expected);
}

#[test]
fn description_is_trimmed_and_quoted() {
    assert_eq!(parse_description("  hello  "), "> hello");
    assert_eq!(parse_description("a\nb\nc"), "> a\n> b\n> c");
    assert_eq!(parse_description(""), "> ");
}

/// Comment stamp formatting: an empty content with stamp id 42 yields the
/// combined text " (Stamp 42)" — the one-space join keeps the literal
/// leading space, nothing is trimmed.
#[test]
fn stamp_comment_text() {
    let text = comment_text(&String::from(""), &Some(String::from("42")));
    assert_eq!(text, " (Stamp 42)");
}

#[test]
fn plain_comment_text_keeps_trailing_space() {
    let text = comment_text(&String::from("nice"), &None);
    assert_eq!(text, "nice ");
}

#[test]
fn comment_assembly() {
    let record = PixivComment {
        user_id: String::from("1"),
        user_name: String::from("someone"),
        img: String::from(""),
        id: String::from("9"),
        comment_date: String::from(""),
        comment_parent_id: None,
        editable: false,
        has_replies: false,
        content: String::from("hi"),
        stamp_id: Some(String::from("7")),
    };
    let c = build_comment(&record, Vec::new());
    assert_eq!(c.user, "someone");
    assert_eq!(c.text, "hi (Stamp 7)");
    assert_eq!(c.replies.len(), 0);
}

/// Tag scoping: the maturity sentinel becomes a lowercase, unscoped tag;
/// every other tag keeps its name and is scoped to the platform.
#[test]
fn tag_scoping() {
    let tags = PixivTags {
        author_id: String::from("1"),
        is_locked: false,
        writable: true,
        tags: vec![
            PixivTag { tag: String::from("R-18"), locked: false, deletable: false },
            PixivTag { tag: String::from("landscape"), locked: false, deletable: false },
        ],
    };
    let scoped = tags.into_tags(3);
    assert_eq!(scoped.len(), 2);
    assert_eq!(scoped[0].name, "r-18");
    assert_eq!(scoped[0].platform, None);
    assert_eq!(scoped[1].name, "landscape");
    assert_eq!(scoped[1].platform, Some(3));
}

#[test]
fn tag_scoping_r18g() {
    let tags = PixivTags {
        author_id: String::from("1"),
        is_locked: false,
        writable: true,
        tags: vec![PixivTag { tag: String::from("R-18G"), locked: false, deletable: false }],
    };
    let scoped = tags.into_tags(9);
    assert_eq!(scoped[0].name, "r-18g");
    assert_eq!(scoped[0].platform, None);
}

#[test]
fn session_cookie_value() {
    assert_eq!(session_cookie("abc123"), "PHPSESSID=abc123");
}

#[test]
fn generated_user_agent() {
    let dt: u64 = 1_700_000_000;
    let major = dt % 2 + 4;
    let webkit = dt / 2 % 64;
    let chrome = dt / 128 % 5 + 132;
    let expected = format!(
        "Mozilla/{major}.0 (Windows NT 10.0; Win64; x64) AppleWebKit/537.{webkit} (KHTML, like Gecko) Chrome/{chrome}.0.0.0 Safari/537.{webkit}"
    );
    assert_eq!(default_user_agent(dt), expected);
}

#[test]
fn chrome_user_agent_headers() {
    let ua = "Mozilla/5.0 (Windows NT 10.0; Win64; x64) AppleWebKit/537.36 (KHTML, like Gecko) Chrome/120.0.0.0 Safari/537.36";
    let hints = generate_user_headers(ua);
    assert_eq!(hints.platform, "\"Windows\"");
    assert_eq!(hints.mobile, "?0");
    // no token starts with "Chromium", so the version falls back to 12
    assert_eq!(
        hints.sec_ch_ua,
        "\"Chromium\";v=\"12\",\"Google Chrome\";v=\"12\", \"Not_A Brand\";v=\"99\""
    );
}

#[test]
fn edge_user_agent_headers() {
    let ua = "Mozilla/5.0 (Macintosh; Intel Mac OS X 10_15_7) AppleWebKit/537.36 Edg/120.0.2210.91 Mobile";
    let hints = generate_user_headers(ua);
    assert_eq!(hints.platform, "\"macOS\"");
    assert_eq!(hints.mobile, "?1");
    assert_eq!(
        hints.sec_ch_ua,
        "\"Chromium\";v=\"120\",\"Microsoft Edge\";v=\"120\", \"Not_A Brand\";v=\"99\""
    );
}

#[test]
fn firefox_user_agent_headers() {
    let ua = "Mozilla/5.0 (X11; Linux x86_64; rv:109.0) Gecko/20100101 Firefox/115.0";
    let hints = generate_user_headers(ua);
    assert_eq!(hints.platform, "\"Linux\"");
    assert_eq!(hints.mobile, "?0");
    assert_eq!(
        hints.sec_ch_ua,
        "\"Chromium\";v=\"115\",\"Firefox\";v=\"115\", \"Not_A Brand\";v=\"99\""
    );
}
