use website_screenshot::evasions::string_array;
use website_screenshot::pattern::{replace, CompiledPattern, RegexPattern, SearchStep};
use website_screenshot::text::replace_literal;
use website_screenshot::util::{
    check_if_nsfw, check_if_url, check_if_url_with, get_nsfw_prefix_regex, get_url_regex,
    parse_nsfw_list, UrlCheckError,
};

#[test]
fn quoting_matches_serde_json() {
    for s in ["plain", "with \"quotes\"", "back\\slash", "line\nbreak\ttab", "\u{1}\u{1f}\u{7f}", "ünïcödé"] {
        let expected = serde_json::Value::Array(vec![serde_json::Value::String(s.to_owned())]).to_string();
        assert_eq!(string_array(&vec![s]), expected);
    }
    assert_eq!(string_array(&vec!["a\"b"]), "[\"a\\\"b\"]");
    assert_eq!(string_array(&vec!["\u{1}"]), "[\"\\u0001\"]");
}

#[test]
fn url_check_accepts_web_addresses() {
    assert_eq!(check_if_url("https://crates.io").unwrap(), true);
    assert_eq!(check_if_url("http://example.com/path?q=1").unwrap(), true);
    assert_eq!(check_if_url("www.rust-lang.org").unwrap(), true);
    assert_eq!(check_if_url("HTTPS://EXAMPLE.COM").unwrap(), true);
}

#[test]
fn url_check_refuses_other_text() {
    match check_if_url("i am an invalid url") {
        Err(e) => {
            assert!(matches!(e, UrlCheckError::NotAUrl));
            assert_eq!(e.to_string(), "url not valid");
        },
        Ok(_) => panic!("accepted an invalid url"),
    }
    assert!(check_if_url("").is_err());
    assert!(check_if_url("ftp://example.com").is_err());
}

#[test]
fn url_check_with_compiled_regex() {
    let re = get_url_regex().unwrap();
    assert!(check_if_url_with(&re, "https://nhentai.net").is_ok());
    assert!(check_if_url_with(&re, "nope").is_err());
}

#[test]
fn nsfw_membership() {
    let list = vec!["bad.com".to_owned(), "worse.org".to_owned()];
    assert!(check_if_nsfw(&list, "bad.com"));
    assert!(check_if_nsfw(&list, "worse.org"));
    assert!(!check_if_nsfw(&list, "good.com"));
    assert!(!check_if_nsfw(&list, "bad.co"));
    assert!(!check_if_nsfw(&vec![], "bad.com"));
}

#[test]
fn nsfw_list_parsing() {
    let prefix = get_nsfw_prefix_regex().unwrap();
    let text = "# Title: porn\n#\n0.0.0.0 bad.com\n\n0.0.0.0 worse.org\nplain.net\n";
    let entries = parse_nsfw_list(text, &prefix);
    assert_eq!(entries, vec!["bad.com".to_owned(), "worse.org".to_owned(), "plain.net".to_owned()]);
    assert!(parse_nsfw_list("", &prefix).is_empty());
    assert_eq!(parse_nsfw_list("0.0.0.0 last.com", &prefix), vec!["last.com".to_owned()]);
    assert_eq!(parse_nsfw_list("x 0.0.0.0 y", &prefix), vec!["x 0.0.0.0 y".to_owned()]);
}

#[test]
fn compile_errors_are_reported() {
    assert!(CompiledPattern::new("(", "").is_err());
    assert!(CompiledPattern::new("[0-9]+", "").is_ok());
}

#[test]
fn regex_match_ranges() {
    let re = CompiledPattern::new("[0-9]+", "").unwrap();
    assert_eq!(re.find_all("a1b22c"), vec![(1, 2), (3, 5)]);
    assert!(re.is_found_in("x9"));
    assert!(!re.is_found_in("xyz"));
    let ci = CompiledPattern::new("abc", "i").unwrap();
    assert_eq!(ci.find_all("xABCabc"), vec![(1, 4), (4, 7)]);
}

#[test]
fn searcher_steps_tile_the_haystack() {
    let re = CompiledPattern::new("[0-9]+", "").unwrap();
    let mut searcher = RegexPattern(&re).into_searcher("ab12cd");
    assert_eq!(searcher.haystack_str(), "ab12cd");
    assert_eq!(searcher.next(), SearchStep::Reject(0, 2));
    assert_eq!(searcher.next(), SearchStep::Match(2, 4));
    assert_eq!(searcher.next(), SearchStep::Reject(4, 6));
    assert_eq!(searcher.next(), SearchStep::Done);
    assert_eq!(searcher.next(), SearchStep::Done);

    let mut searcher = RegexPattern(&re).into_searcher("12");
    assert_eq!(searcher.next(), SearchStep::Match(0, 2));
    assert_eq!(searcher.next(), SearchStep::Done);
}

#[test]
fn regex_replace() {
    let re = CompiledPattern::new("[0-9]+", "").unwrap();
    assert_eq!(replace("a1b22c", RegexPattern(&re), "#"), "a#b#c");
    assert_eq!(replace("none", RegexPattern(&re), "#"), "none");
    assert_eq!(replace("7é8", RegexPattern(&re), ""), "é");
}

#[test]
fn literal_replace() {
    assert_eq!(replace_literal("a{{x}}b{{x}}", "{{x}}", "Z"), "aZbZ");
    assert_eq!(replace_literal("aaa", "aa", "b"), "ba");
    assert_eq!(replace_literal("", "x", "y"), "");
}

#[test]
fn search_steps_cover_the_haystack_once() {
    let re = CompiledPattern::new("[0-9]+", "").unwrap();
    for haystack in ["", "a", "1", "ab12cd3", "é1ü22", "123abc"] {
        let matches = re.find_all(haystack);
        let mut searcher = RegexPattern(&re).into_searcher(haystack);
        let mut pos = 0;
        let mut found = Vec::new();
        let mut last_was_reject = false;
        loop {
            match searcher.next() {
                SearchStep::Match(a, b) => {
                    assert_eq!(a, pos);
                    found.push((a, b));
                    pos = b;
                    last_was_reject = false;
                },
                SearchStep::Reject(a, b) => {
                    assert_eq!(a, pos);
                    assert!(a < b);
                    assert!(!last_was_reject);
                    assert!(haystack.is_char_boundary(a) && haystack.is_char_boundary(b));
                    pos = b;
                    last_was_reject = true;
                },
                SearchStep::Done => break,
            }
        }
        assert_eq!(pos, haystack.len());
        assert_eq!(found, matches);
        assert_eq!(searcher.next(), SearchStep::Done);
    }
}
