use serde_json::Value;
use website_screenshot::cdp::ChromeCommand;
use website_screenshot::error::Error;
use website_screenshot::routes::{
    color_scheme_command, docs, fetch_error, get_screenshot, index, render_schema, schema,
    schema_origin,
    RequestData, DOCS_HTML, SCREENSHOT_CONTENT_TYPE, SCREENSHOT_MAX_AGE,
};

fn object(pairs: Vec<(&str, Value)>) -> Value {
    let mut map = serde_json::Map::new();
    for (k, v) in pairs {
        map.insert(k.to_owned(), v);
    }
    Value::Object(map)
}

#[test]
fn test_index() {
    assert_eq!("Hello, world!", index());
}

#[test]
fn docs_page() {
    assert_eq!(docs(), DOCS_HTML);
    assert!(DOCS_HTML.starts_with("\\\n<!DOCTYPE html>"));
    assert!(DOCS_HTML.contains("<script src=\"swagger-initializer.js\" charset=\"UTF-8\"></script>"));
    assert!(DOCS_HTML.ends_with("</html>\n"));
}

#[test]
fn schema_origin_defaults_to_http() {
    assert_eq!(schema_origin(Some("https"), "example.com"), "https://example.com");
    assert_eq!(schema_origin(None, "localhost:3000"), "http://localhost:3000");
}

#[test]
fn schema_rendering() {
    let template = "openapi: 3.0.0\ninfo:\n  version: {{version}}\nservers:\n  - url: {{url}}\n  - url: {{url}}/v1\n";
    assert_eq!(
        render_schema(template, "2.0.0", "http://localhost:3000"),
        "openapi: 3.0.0\ninfo:\n  version: 2.0.0\nservers:\n  - url: http://localhost:3000\n  - url: http://localhost:3000/v1\n"
    );
    assert_eq!(render_schema("{{version}}", "{{url}}", "x"), "x");
    assert_eq!(render_schema("no placeholders", "1", "o"), "no placeholders");
}

#[test]
fn schema_for_request() {
    let template = "version: {{version}}\nurl: {{url}}\n";
    assert_eq!(
        schema(template, "2.0.0", Some("https"), "shots.example.com"),
        "version: 2.0.0\nurl: https://shots.example.com\n"
    );
    assert_eq!(schema(template, "1", None, "localhost:3000"), "version: 1\nurl: http://localhost:3000\n");
}

#[test]
fn get_screenshot_answers() {
    assert_eq!(get_screenshot(true), Ok(()));
    assert_eq!(get_screenshot(false), Err(Error::ScreenshotNotFound));
    assert_eq!(Error::ScreenshotNotFound.status_code(), 404);
    assert_eq!(SCREENSHOT_CONTENT_TYPE, "image/png");
    assert_eq!(SCREENSHOT_MAX_AGE, 31_536_000);
}

#[test]
fn created_body_reports_request() {
    let request = RequestData {
        url: "https://crates.io".to_owned(),
        fullscreen: true,
        check_nsfw: false,
        dark_mode: true,
        width: Some(800),
        height: None,
    };
    let body = request.created_body("abc123");
    let expected = object(vec![
        ("slug", Value::String("abc123".to_owned())),
        ("path", Value::String("/s/abc123".to_owned())),
        (
            "metadata",
            object(vec![
                ("url", Value::String("https://crates.io".to_owned())),
                ("fullscreen", Value::Bool(true)),
                ("check_nsfw", Value::Bool(false)),
                ("dark_mode", Value::Bool(true)),
            ]),
        ),
    ]);
    assert_eq!(body, expected.to_string());
    let parsed: Value = serde_json::from_str(&body).unwrap();
    assert!(parsed.is_object());
}

#[test]
fn color_scheme_commands() {
    for (dark, value) in [(true, "dark"), (false, "light")] {
        match color_scheme_command(dark) {
            ChromeCommand::ExecuteCdpCommand(method, params) => {
                assert_eq!(method, "Emulation.setEmulatedMedia");
                let expected = object(vec![(
                    "features",
                    Value::Array(vec![object(vec![
                        ("name", Value::String("prefers-color-scheme".to_owned())),
                        ("value", Value::String(value.to_owned())),
                    ])]),
                )]);
                assert_eq!(params, expected.to_string());
            },
            other => panic!("unexpected command {:?}", other),
        }
    }
}

#[test]
fn fetch_errors() {
    assert_eq!(fetch_error(true, false), Error::TooManyRedirects);
    assert_eq!(fetch_error(true, true), Error::TooManyRedirects);
    assert_eq!(fetch_error(false, true), Error::FailedToConnect);
    assert_eq!(fetch_error(false, false), Error::WebsiteError);
    assert_eq!(Error::TooManyRedirects.status_code(), 413);
}
