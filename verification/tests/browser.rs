use website_screenshot::browser::{chrome_args, CHROME_OPTIONS_KEY, DEFAULT_CHROMEDRIVER_ADDRESS, DEFAULT_PORT};
use website_screenshot::text::split_ascii;

const DEFAULTS: [&str; 6] = [
    "--disable-gpu",
    "--no-sandbox",
    "--disable-dev-shm-usage",
    "--headless",
    "--hide-scrollbars",
    "--whitelisted-ips=",
];

#[test]
fn default_chrome_flags() {
    assert_eq!(chrome_args(None), DEFAULTS.iter().map(|s| s.to_string()).collect::<Vec<_>>());
}

#[test]
fn extra_chrome_flags_are_split_on_commas() {
    let mut expected: Vec<String> = DEFAULTS.iter().map(|s| s.to_string()).collect();
    expected.extend(["--a", "--b", "-c"].iter().map(|s| s.to_string()));
    assert_eq!(chrome_args(Some("--a,--b,-c")), expected);

    let args = chrome_args(Some(""));
    assert_eq!(args.len(), 7);
    assert_eq!(args[6], "");
}

#[test]
fn split_matches_std() {
    for text in ["", ",", "a", "a,b", ",a,,b,", "é,ü"] {
        let expected: Vec<String> = text.split(',').map(|s| s.to_owned()).collect();
        assert_eq!(split_ascii(text, b','), expected);
    }
    let expected: Vec<String> = "x\ny\n".split('\n').map(|s| s.to_owned()).collect();
    assert_eq!(split_ascii("x\ny\n", b'\n'), expected);
}

#[test]
fn service_defaults() {
    assert_eq!(DEFAULT_CHROMEDRIVER_ADDRESS, "http://localhost:9515");
    assert_eq!(DEFAULT_PORT, 3000);
    assert_eq!(CHROME_OPTIONS_KEY, "goog:chromeOptions");
}
