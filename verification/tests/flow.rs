use website_screenshot::routes::{after_slug_draw, SLUG_FAILURE};
use website_screenshot::cdp::ChromeCommand;
use website_screenshot::error::Error;
use website_screenshot::routes::{
    screenshot, Action, Event, RequestData, ScreenshotFlow, Stage, CREATED_STATUS, FULL_PAGE_SELECTOR,
    HIDE_SCROLLBAR_SCRIPT, HOST_MISSING, SCROLL_HEIGHT_SCRIPT, SCROLL_WIDTH_SCRIPT, UNEXPECTED_EVENT,
};

fn request(url: &str, fullscreen: bool, check_nsfw: bool, dark_mode: bool) -> RequestData {
    RequestData { url: url.to_owned(), fullscreen, check_nsfw, dark_mode, width: None, height: None }
}

fn step(flow: ScreenshotFlow, event: Event) -> (ScreenshotFlow, Action) {
    flow.advance(event)
}

/// Runs the browser preparation steps every capture goes through.
fn prepare(flow: ScreenshotFlow, dark: bool) -> ScreenshotFlow {
    let (flow, a) = step(flow, Event::Done);
    assert!(matches!(a, Action::SetWindowSize(1980, 1080)));
    let (flow, a) = step(flow, Event::Done);
    match a {
        Action::Execute(script) => assert_eq!(script, HIDE_SCROLLBAR_SCRIPT),
        other => panic!("unexpected action {:?}", other),
    }
    let (flow, a) = step(flow, Event::Done);
    match a {
        Action::Issue(ChromeCommand::ExecuteCdpCommand(method, params)) => {
            assert_eq!(method, "Emulation.setEmulatedMedia");
            assert!(params.contains(if dark { "\"dark\"" } else { "\"light\"" }));
        },
        other => panic!("unexpected action {:?}", other),
    }
    let (flow, a) = step(flow, Event::Done);
    assert!(matches!(a, Action::Refresh));
    flow
}

#[test]
fn test_screenshot() {
    let (flow, a) = screenshot(request("https://crates.io", false, false, false), false, false);
    match a {
        Action::Fetch(url) => assert_eq!(url, "https://crates.io"),
        other => panic!("unexpected action {:?}", other),
    }
    let (flow, a) = step(flow, Event::Reached("https://crates.io/".to_owned()));
    match a {
        Action::Navigate(url) => assert_eq!(url, "https://crates.io/"),
        other => panic!("unexpected action {:?}", other),
    }
    let flow = prepare(flow, false);
    let (flow, a) = step(flow, Event::Done);
    assert!(matches!(a, Action::CapturePage));
    let (flow, a) = step(flow, Event::Image(vec![137, 80, 78, 71]));
    let slug = match a {
        Action::Store(slug, image) => {
            assert_eq!(image, vec![137, 80, 78, 71]);
            slug
        },
        other => panic!("unexpected action {:?}", other),
    };
    let (flow, a) = step(flow, Event::Done);
    match a {
        Action::Respond(status, body) => {
            assert_eq!(status, 201);
            assert_eq!(status, CREATED_STATUS);
            let parsed: serde_json::Value = serde_json::from_str(&body).unwrap();
            assert!(parsed.is_object());
            assert_eq!(parsed["slug"], serde_json::Value::String(slug.clone()));
            assert_eq!(parsed["path"], serde_json::Value::String(format!("/s/{}", slug)));
            assert_eq!(parsed["metadata"]["url"], serde_json::Value::String("https://crates.io".to_owned()));
        },
        other => panic!("unexpected action {:?}", other),
    }
    assert!(matches!(flow.stage, Stage::Finished));
}

#[test]
fn test_screenshot_invalid_url() {
    let (flow, a) = screenshot(request("i am an invalid url", false, false, false), false, false);
    match a {
        Action::Fail(e) => {
            assert_eq!(e, Error::InvalidUrl);
            assert_eq!(e.status_code(), 400);
            assert_eq!(e.to_string(), "The url that you provided was invalid.");
        },
        other => panic!("unexpected action {:?}", other),
    }
    assert!(matches!(flow.stage, Stage::Finished));
}

#[test]
fn test_screenshot_nsfw_url() {
    let (flow, _) = screenshot(request("https://nhentai.net", false, true, false), false, false);
    assert!(flow.check_nsfw);
    let (flow, a) = step(flow, Event::Reached("https://nhentai.net/".to_owned()));
    match a {
        Action::CheckNsfw(host) => assert_eq!(host, "nhentai.net"),
        other => panic!("unexpected action {:?}", other),
    }
    let (flow, a) = step(flow, Event::NsfwChecked(true));
    match a {
        Action::Fail(e) => {
            assert_eq!(e, Error::UrlNotSafeForWork);
            assert_eq!(e.status_code(), 403);
            assert_eq!(e.to_string(), "The url provided is marked as NSFW.");
        },
        other => panic!("unexpected action {:?}", other),
    }
    assert!(matches!(flow.stage, Stage::Finished));
}

#[test]
fn clean_host_goes_on_to_the_browser() {
    let (flow, _) = screenshot(request("https://crates.io", false, false, false), true, false);
    assert!(flow.check_nsfw);
    let (flow, a) = step(flow, Event::Reached("https://crates.io/".to_owned()));
    assert!(matches!(a, Action::CheckNsfw(_)));
    let (_, a) = step(flow, Event::NsfwChecked(false));
    match a {
        Action::Navigate(url) => assert_eq!(url, "https://crates.io/"),
        other => panic!("unexpected action {:?}", other),
    }
}

#[test]
fn missing_host_gives_up() {
    let (flow, _) = screenshot(request("https://crates.io", false, true, false), false, false);
    let (flow, a) = step(flow, Event::Reached("data:text/plain,x".to_owned()));
    match a {
        Action::Abort(reason) => assert_eq!(reason, HOST_MISSING),
        other => panic!("unexpected action {:?}", other),
    }
    assert!(matches!(flow.stage, Stage::Finished));
}

#[test]
fn fetch_failures_are_answered() {
    for (redirect, connect, expected) in [
        (true, false, Error::TooManyRedirects),
        (false, true, Error::FailedToConnect),
        (false, false, Error::WebsiteError),
    ] {
        let (flow, _) = screenshot(request("https://crates.io", false, false, false), false, false);
        let (flow, a) = step(flow, Event::FetchFailed(redirect, connect));
        match a {
            Action::Fail(e) => assert_eq!(e, expected),
            other => panic!("unexpected action {:?}", other),
        }
        assert!(matches!(flow.stage, Stage::Finished));
    }
}

#[test]
fn forced_options_apply_but_metadata_reports_request() {
    let (flow, _) = screenshot(request("https://crates.io", false, false, false), false, true);
    assert!(flow.dark_mode);
    assert!(!flow.check_nsfw);
    let (flow, _) = step(flow, Event::Reached("https://crates.io/".to_owned()));
    let flow = prepare(flow, true);
    let (flow, _) = step(flow, Event::Done);
    let (flow, _) = step(flow, Event::Image(vec![1]));
    let (_, a) = step(flow, Event::Done);
    match a {
        Action::Respond(_, body) => {
            let parsed: serde_json::Value = serde_json::from_str(&body).unwrap();
            assert_eq!(parsed["metadata"]["dark_mode"], serde_json::Value::Bool(false));
        },
        other => panic!("unexpected action {:?}", other),
    }
}

#[test]
fn full_page_capture() {
    let (flow, _) = screenshot(request("https://crates.io", true, false, false), false, false);
    let (flow, _) = step(flow, Event::Reached("https://crates.io/".to_owned()));
    let flow = prepare(flow, false);
    let (flow, a) = step(flow, Event::Done);
    assert!(matches!(a, Action::GetWindowSize));
    let (flow, a) = step(flow, Event::WindowSize(1980, 1080));
    match a {
        Action::Measure(script) => assert_eq!(script, SCROLL_WIDTH_SCRIPT),
        other => panic!("unexpected action {:?}", other),
    }
    let (flow, a) = step(flow, Event::Number(1200));
    match a {
        Action::Measure(script) => assert_eq!(script, SCROLL_HEIGHT_SCRIPT),
        other => panic!("unexpected action {:?}", other),
    }
    let (flow, a) = step(flow, Event::Number(5000));
    assert!(matches!(a, Action::SetWindowSize(1200, 5000)));
    let (flow, a) = step(flow, Event::Done);
    match a {
        Action::CaptureElement(selector) => assert_eq!(selector, FULL_PAGE_SELECTOR),
        other => panic!("unexpected action {:?}", other),
    }
    let (flow, a) = step(flow, Event::Image(vec![9, 9]));
    assert!(matches!(a, Action::SetWindowSize(1980, 1080)));
    let (flow, a) = step(flow, Event::Done);
    match a {
        Action::Store(_, image) => assert_eq!(image, vec![9, 9]),
        other => panic!("unexpected action {:?}", other),
    }
    let (flow, a) = step(flow, Event::Done);
    assert!(matches!(a, Action::Respond(201, _)));
    assert!(matches!(flow.stage, Stage::Finished));
}

#[test]
fn page_size_is_truncated_to_u32() {
    let (flow, _) = screenshot(request("https://crates.io", true, false, false), false, false);
    let (flow, _) = step(flow, Event::Reached("https://crates.io/".to_owned()));
    let flow = prepare(flow, false);
    let (flow, _) = step(flow, Event::Done);
    let (flow, _) = step(flow, Event::WindowSize(800, 600));
    let (flow, _) = step(flow, Event::Number((1u64 << 32) + 7));
    let (_, a) = step(flow, Event::Number(10));
    assert!(matches!(a, Action::SetWindowSize(7, 10)));
}

#[test]
fn unexpected_outcome_ends_serving() {
    let (flow, _) = screenshot(request("https://crates.io", false, false, false), false, false);
    let (flow, a) = step(flow, Event::Done);
    match a {
        Action::Abort(reason) => assert_eq!(reason, UNEXPECTED_EVENT),
        other => panic!("unexpected action {:?}", other),
    }
    let (_, a) = step(flow, Event::Done);
    assert!(matches!(a, Action::Abort(_)));
}

#[test]
fn block_list_lookup_uses_the_final_host() {
    let (flow, _) = screenshot(request("https://example.com", false, true, false), false, false);
    let (_, a) = step(flow, Event::Reached("https://user@Sub.Example.COM:8080/a/b?c=d".to_owned()));
    match a {
        Action::CheckNsfw(host) => assert_eq!(host, "sub.example.com"),
        other => panic!("unexpected action {:?}", other),
    }
}

#[test]
fn page_loads_at_requested_size() {
    let mut req = request("https://crates.io", false, false, false);
    req.width = Some(800);
    req.height = Some(600);
    assert_eq!(req.viewport(), (800, 600));
    let (flow, _) = screenshot(req, false, false);
    let (flow, _) = step(flow, Event::Reached("https://crates.io/".to_owned()));
    let (flow, a) = step(flow, Event::Done);
    assert!(matches!(a, Action::SetWindowSize(800, 600)));
    let (flow, _) = step(flow, Event::Done);
    let (flow, _) = step(flow, Event::Done);
    let (flow, _) = step(flow, Event::Done);
    let (flow, a) = step(flow, Event::Done);
    assert!(matches!(a, Action::CapturePage));
    let (flow, _) = step(flow, Event::Image(vec![1, 2]));
    let (_, a) = step(flow, Event::Done);
    assert!(matches!(a, Action::Respond(201, _)));
}

#[test]
fn unset_size_falls_back_to_default_viewport() {
    let mut req = request("https://crates.io", false, false, false);
    req.width = Some(1024);
    assert_eq!(req.viewport(), (1024, 1080));
    let (flow, _) = screenshot(req, false, false);
    let (flow, _) = step(flow, Event::Reached("https://crates.io/".to_owned()));
    let (_, a) = step(flow, Event::Done);
    assert!(matches!(a, Action::SetWindowSize(1024, 1080)));
    let mut req = request("https://crates.io", false, false, false);
    req.height = Some(700);
    assert_eq!(req.viewport(), (1980, 700));
}

#[test]
fn slug_draw_outcomes() {
    let (stage, action) = after_slug_draw(Ok("abc".to_owned()), vec![7, 8]);
    match stage {
        Stage::AwaitingStore(slug) => assert_eq!(slug, "abc"),
        other => panic!("unexpected stage {:?}", other),
    }
    match action {
        Action::Store(slug, image) => {
            assert_eq!(slug, "abc");
            assert_eq!(image, vec![7, 8]);
        },
        other => panic!("unexpected action {:?}", other),
    }
    let (stage, action) = after_slug_draw(Err(cuid::CuidError::CounterError), vec![1]);
    assert!(matches!(stage, Stage::Finished));
    match action {
        Action::Abort(reason) => assert_eq!(reason, SLUG_FAILURE),
        other => panic!("unexpected action {:?}", other),
    }
}
