use vstd::prelude::*;
use vstd::utf8::encode_utf8;
use crate::cdp::ChromeCommand;
use crate::error::Error;
use crate::json::{json_member, lemma_keys_ascending_from_neighbours, text_lt, array, boolean, json_array, json_bool, json_object, json_string, object, quote};
use crate::text::{literal_replaced, replace_literal};
use crate::pattern::{regex_compiles, regex_match_ranges};
use crate::util::{check_if_url, URL_PATTERN, URL_PATTERN_FLAGS};

verus! {

/// The greeting served at `/`.
pub fn index() -> (body: &'static str)
    ensures
        body@ == "Hello, world!"@,
{
    "Hello, world!"
}

/// The page served at `/docs`: a Swagger UI over the OpenAPI schema.
pub const DOCS_HTML: &'static str = r##"\
<!DOCTYPE html>
<html lang="en">
    <head>
        <meta charset="UTF-8" />
        <title>website-screenshot docs</title>
        <link rel="stylesheet" type="text/css" href="swagger-ui.css" />
        <link rel="stylesheet" type="text/css" href="style.css" />
    <body>
        <div id="swagger-ui"></div>
        <script src="swagger-ui-bundle.js" charset="UTF-8"></script>
        <script src="swagger-ui-standalone-preset.js" charset="UTF-8"></script>
        <script src="swagger-initializer.js" charset="UTF-8"></script>
    </body>
</html>
"##;

/// The body of the `/docs` page.
pub fn docs() -> (body: &'static str)
    ensures
        body@ == DOCS_HTML@,
{
    DOCS_HTML
}

/// The origin the schema advertises: the request's scheme (`http` when it has
/// none), `://`, and the `Host` header.
pub fn schema_origin(scheme: Option<&str>, host: &str) -> (origin: String)
    ensures
        origin@ == (match scheme {
            Some(s) => s@,
            None => "http"@,
        }) + "://"@ + host@,
{
    let mut origin = match scheme {
        Some(s) => s.to_owned(),
        None => "http".to_owned(),
    };
    origin.append("://");
    origin.append(host);
    origin
}

/// The placeholder of the schema template that the service version replaces.
pub const VERSION_PLACEHOLDER: &'static str = "{{version}}";

/// The placeholder of the schema template that the origin replaces.
pub const URL_PLACEHOLDER: &'static str = "{{url}}";

/// The OpenAPI schema served at `/openapi.yml`: the template with every
/// `{{version}}` replaced by `version`, and then every `{{url}}` by `origin`.
pub fn render_schema(template: &str, version: &str, origin: &str) -> (schema: String)
    ensures
        encode_utf8(schema@) == literal_replaced(
            literal_replaced(
                encode_utf8(template@),
                encode_utf8(VERSION_PLACEHOLDER@),
                encode_utf8(version@),
                0,
            ),
            encode_utf8(URL_PLACEHOLDER@),
            encode_utf8(origin@),
            0,
        ),
{
    proof {
        reveal_strlit("{{version}}");
        reveal_strlit("{{url}}");
    }
    let step = replace_literal(template, VERSION_PLACEHOLDER, version);
    let schema = replace_literal(step.as_str(), URL_PLACEHOLDER, origin);
    schema
}

/// The OpenAPI schema as served to a request with URI scheme `scheme` and
/// `Host` header `host`: the template with the version and the request's
/// origin filled in.
pub fn schema(template: &str, version: &str, scheme: Option<&str>, host: &str) -> (body: String)
    ensures
        encode_utf8(body@) == literal_replaced(
            literal_replaced(
                encode_utf8(template@),
                encode_utf8(VERSION_PLACEHOLDER@),
                encode_utf8(version@),
                0,
            ),
            encode_utf8(URL_PLACEHOLDER@),
            encode_utf8(
                (match scheme {
                    Some(s) => s@,
                    None => "http"@,
                }) + "://"@ + host@,
            ),
            0,
        ),
{
    let origin = schema_origin(scheme, host);
    render_schema(template, version, origin.as_str())
}

/// The content type of a served screenshot.
pub const SCREENSHOT_CONTENT_TYPE: &'static str = "image/png";

/// How long, in seconds, clients may cache a served screenshot (a year).
pub const SCREENSHOT_MAX_AGE: u32 = 31_536_000;

/// Whether the screenshot `/s/{slug}` can be served, given whether the storage
/// holds it: a missing one is answered `ScreenshotNotFound`.
pub fn get_screenshot(stored: bool) -> (res: Result<(), Error>)
    ensures
        res is Ok <==> stored,
        res is Err ==> res == Err::<(), Error>(Error::ScreenshotNotFound),
{
    if stored {
        Ok(())
    } else {
        Err(Error::ScreenshotNotFound)
    }
}


/// A screenshot request: the page to capture and the options the client set
/// (unset options take the service's defaults).
#[derive(Debug)]
pub struct RequestData {
    pub url: String,
    pub fullscreen: bool,
    pub check_nsfw: bool,
    pub dark_mode: bool,
    /// The window width to load the page at, when the client sets one.
    pub width: Option<u32>,
    /// The window height to load the page at, when the client sets one.
    pub height: Option<u32>,
}

/// The members of the `metadata` object of a created screenshot, in key order.
pub open spec fn request_metadata(url: Seq<char>, fullscreen: bool, check_nsfw: bool, dark_mode: bool) -> Seq<(Seq<char>, Seq<char>)> {
    seq![
        ("check_nsfw"@, json_bool(check_nsfw)),
        ("dark_mode"@, json_bool(dark_mode)),
        ("fullscreen"@, json_bool(fullscreen)),
        ("url"@, json_string(url)),
    ]
}

/// The JSON answer to a created screenshot: its slug, the path it is served
/// at (`/s/{slug}`) and the request's options as the client sent them.
pub open spec fn created_body(slug: Seq<char>, url: Seq<char>, fullscreen: bool, check_nsfw: bool, dark_mode: bool) -> Seq<char> {
    json_object(seq![
        ("metadata"@, json_object(request_metadata(url, fullscreen, check_nsfw, dark_mode))),
        ("path"@, json_string("/s/"@ + slug)),
        ("slug"@, json_string(slug)),
    ])
}

/// The HTTP status of the answer to a created screenshot.
pub const CREATED_STATUS: u16 = 201;

impl RequestData {
    /// The JSON answer once this request's screenshot is stored under `slug`.
    pub fn created_body(&self, slug: &str) -> (body: String)
        ensures
            body@ == created_body(slug@, self.url@, self.fullscreen, self.check_nsfw, self.dark_mode),
    {
        let mut metadata: Vec<(&str, String)> = Vec::new();
        metadata.push(("check_nsfw", boolean(self.check_nsfw)));
        metadata.push(("dark_mode", boolean(self.dark_mode)));
        metadata.push(("fullscreen", boolean(self.fullscreen)));
        metadata.push(("url", quote(self.url.as_str())));
        proof {
            let ms = request_metadata(self.url@, self.fullscreen, self.check_nsfw, self.dark_mode);
            assert(metadata@.map_values(|m: (&str, String)| (m.0@, m.1@)) =~= ms);
            reveal_strlit("check_nsfw");
            reveal_strlit("dark_mode");
            reveal_strlit("fullscreen");
            reveal_strlit("url");
            assert(text_lt(ms[0].0, ms[1].0));
            assert(text_lt(ms[1].0, ms[2].0));
            assert(text_lt(ms[2].0, ms[3].0));
            lemma_keys_ascending_from_neighbours(ms);
        }
        let mut path = "/s/".to_owned();
        path.append(slug);
        let mut members: Vec<(&str, String)> = Vec::new();
        members.push(("metadata", object(&metadata)));
        members.push(("path", quote(path.as_str())));
        members.push(("slug", quote(slug)));
        proof {
            let ms = seq![
                ("metadata"@, json_object(request_metadata(self.url@, self.fullscreen, self.check_nsfw, self.dark_mode))),
                ("path"@, json_string("/s/"@ + slug@)),
                ("slug"@, json_string(slug@)),
            ];
            assert(members@.map_values(|m: (&str, String)| (m.0@, m.1@)) =~= ms);
            reveal_strlit("metadata");
            reveal_strlit("path");
            reveal_strlit("slug");
            assert(text_lt(ms[0].0, ms[1].0));
            assert(text_lt(ms[1].0, ms[2].0));
            lemma_keys_ascending_from_neighbours(ms);
        }
        object(&members)
    }
}

/// The CDP method that sets the emulated media features.
pub const EMULATED_MEDIA_METHOD: &'static str = "Emulation.setEmulatedMedia";

/// The colour scheme a page is asked to render in.
pub open spec fn color_scheme(dark: bool) -> Seq<char> {
    if dark {
        "dark"@
    } else {
        "light"@
    }
}

/// The parameters that make the browser report `prefers-color-scheme` as
/// dark or light.
pub open spec fn color_scheme_params(dark: bool) -> Seq<char> {
    json_object(seq![
        ("features"@, json_array(seq![
            json_object(seq![
                ("name"@, json_string("prefers-color-scheme"@)),
                ("value"@, json_string(color_scheme(dark))),
            ]),
        ])),
    ])
}

/// The command that makes pages prefer the dark or the light colour scheme.
pub fn color_scheme_command(dark: bool) -> (cmd: ChromeCommand)
    ensures
        cmd matches ChromeCommand::ExecuteCdpCommand(method, params) && method@ == EMULATED_MEDIA_METHOD@
            && params@ == color_scheme_params(dark),
{
    let scheme = if dark {
        "dark"
    } else {
        "light"
    };
    let mut feature: Vec<(&str, String)> = Vec::new();
    feature.push(("name", quote("prefers-color-scheme")));
    feature.push(("value", quote(scheme)));
    proof {
        let ms = seq![
            ("name"@, json_string("prefers-color-scheme"@)),
            ("value"@, json_string(color_scheme(dark))),
        ];
        assert(feature@.map_values(|m: (&str, String)| (m.0@, m.1@)) =~= ms);
        reveal_strlit("name");
        reveal_strlit("value");
        assert(text_lt(ms[0].0, ms[1].0));
        lemma_keys_ascending_from_neighbours(ms);
    }
    let mut features: Vec<String> = Vec::new();
    features.push(object(&feature));
    let mut members: Vec<(&str, String)> = Vec::new();
    members.push(("features", array(&features)));
    proof {
        let f = json_object(seq![
            ("name"@, json_string("prefers-color-scheme"@)),
            ("value"@, json_string(color_scheme(dark))),
        ]);
        assert(features@.map_values(|p: String| p@) =~= seq![f]);
        assert(members@.map_values(|m: (&str, String)| (m.0@, m.1@)) =~= seq![
            ("features"@, json_array(seq![f])),
        ]);
    }
    ChromeCommand::ExecuteCdpCommand(EMULATED_MEDIA_METHOD.to_owned(), object(&members))
}

/// The script that hides the page's scroll bars before it is captured.
pub const HIDE_SCROLLBAR_SCRIPT: &'static str = "document.body.style.overflowX = 'hidden';\n            document.body.style.overflowY = 'hidden';\n        ";

/// The script that reads the full width of the page.
pub const SCROLL_WIDTH_SCRIPT: &'static str = "return document.body.parentNode.scrollWidth";

/// The script that reads the full height of the page.
pub const SCROLL_HEIGHT_SCRIPT: &'static str = "return document.body.parentNode.scrollHeight";

/// The window width pages are loaded at unless the request sets one.
pub const VIEWPORT_WIDTH: u32 = 1980;

/// The window height pages are loaded at unless the request sets one.
pub const VIEWPORT_HEIGHT: u32 = 1080;

/// The window size a request's page is loaded at: the width and height the
/// client set, each falling back to the default viewport.
pub open spec fn viewport(request: RequestData) -> (u32, u32) {
    (
        match request.width {
            Some(w) => w,
            None => VIEWPORT_WIDTH,
        },
        match request.height {
            Some(h) => h,
            None => VIEWPORT_HEIGHT,
        },
    )
}

impl RequestData {
    /// The window size this request's page is loaded at.
    pub fn viewport(&self) -> (size: (u32, u32))
        ensures
            size == viewport(*self),
    {
        let width = match self.width {
            Some(w) => w,
            None => VIEWPORT_WIDTH,
        };
        let height = match self.height {
            Some(h) => h,
            None => VIEWPORT_HEIGHT,
        };
        (width, height)
    }
}

/// The CSS selector of the element captured for a full-page screenshot.
pub const FULL_PAGE_SELECTOR: &'static str = "body";

/// The error that answers a failed fetch of the requested page: a redirect
/// failure, then a connection failure, then anything else.
pub open spec fn fetch_failure(is_redirect: bool, is_connect: bool) -> Error {
    if is_redirect {
        Error::TooManyRedirects
    } else if is_connect {
        Error::FailedToConnect
    } else {
        Error::WebsiteError
    }
}

/// The error that answers a failed fetch of the requested page.
pub fn fetch_error(is_redirect: bool, is_connect: bool) -> (e: Error)
    ensures
        e == fetch_failure(is_redirect, is_connect),
{
    if is_redirect {
        Error::TooManyRedirects
    } else if is_connect {
        Error::FailedToConnect
    } else {
        Error::WebsiteError
    }
}

#[verifier::external_type_specification]
#[verifier::external_body]
pub struct ExCuidError(cuid::CuidError);

/// Calls `cuid::slug`, which builds a short id from the clock, a process-wide
/// counter, the host's fingerprint and random bytes. Trusted for nothing about
/// its result: that rests on time and chance.
#[verifier::external_body]
#[allow(deprecated)]
fn new_slug() -> (res: Result<String, cuid::CuidError>) {
    cuid::slug()
}

/// The host of `url` as the `url` crate parses it; none when the text is no
/// URL or the URL has no host.
pub uninterp spec fn url_host(url: Seq<char>) -> Option<Seq<char>>;

/// Calls `url::Url::parse(url)` and then `Url::host_str` on the result.
/// Trusted: the host is the named `url_host` of the text, and is none exactly
/// when that name is.
#[verifier::external_body]
fn host_of(url: &str) -> (res: Option<String>)
    ensures
        match res {
            Some(h) => url_host(url@) == Some(h@),
            None => url_host(url@) is None,
        },
{
    url::Url::parse(url).ok().and_then(|u| u.host_str().map(|h| h.to_owned()))
}

/// Whether the URL check lets a requested address through.
pub open spec fn url_accepted(url: Seq<char>) -> bool {
    regex_compiles(URL_PATTERN@, URL_PATTERN_FLAGS@) && regex_match_ranges(
        URL_PATTERN@,
        URL_PATTERN_FLAGS@,
        url,
    ).len() > 0
}

/// Why serving a request stopped without an answer of its own.
pub const HOST_MISSING: &'static str = "Failed getting url host";

/// Why serving a request stopped without an answer of its own.
pub const SLUG_FAILURE: &'static str = "Failed generating slug";

/// Why serving a request stopped without an answer of its own.
pub const UNEXPECTED_EVENT: &'static str = "Outcome does not answer the pending action";

/// Where serving a screenshot request stands: which outside action it waits
/// for, with what it has gathered so far.
#[derive(Debug)]
pub enum Stage {
    AwaitingFetch,
    AwaitingNsfwCheck(String),
    AwaitingNavigation,
    AwaitingResize,
    AwaitingScrollbar,
    AwaitingColorScheme,
    AwaitingRefresh,
    AwaitingWindowSize,
    AwaitingScrollWidth((u64, u64)),
    AwaitingScrollHeight((u64, u64), u64),
    AwaitingPageResize((u64, u64)),
    AwaitingBodyCapture((u64, u64)),
    AwaitingRestore(Vec<u8>),
    AwaitingPageCapture,
    AwaitingStore(String),
    Finished,
}

/// What the service asks its surroundings to do next.
#[derive(Debug)]
pub enum Action {
    /// Request the page at this URL, following redirects.
    Fetch(String),
    /// Look this host up in the NSFW block list.
    CheckNsfw(String),
    /// Open this URL in the browser.
    Navigate(String),
    /// Resize the browser window.
    SetWindowSize(u32, u32),
    /// Run this script in the page.
    Execute(&'static str),
    /// Run this script in the page and read the number it returns.
    Measure(&'static str),
    /// Issue this WebDriver command.
    Issue(ChromeCommand),
    /// Reload the page.
    Refresh,
    /// Read the browser window's size.
    GetWindowSize,
    /// Capture the element this CSS selector finds.
    CaptureElement(&'static str),
    /// Capture the visible page.
    CapturePage,
    /// Store the image under the slug.
    Store(String, Vec<u8>),
    /// Answer the request with this status and JSON body; serving is done.
    Respond(u16, String),
    /// Answer the request with this error; serving is done.
    Fail(Error),
    /// Give up on the request for this reason; serving is done.
    Abort(&'static str),
}

/// The outcome of the last action.
#[derive(Debug)]
pub enum Event {
    /// The page was reached, at this final URL (after redirects).
    Reached(String),
    /// The page could not be fetched: whether redirects failed, whether the
    /// connection failed.
    FetchFailed(bool, bool),
    /// Whether the host is on the NSFW block list.
    NsfwChecked(bool),
    /// The action completed.
    Done,
    /// The window's width and height.
    WindowSize(u64, u64),
    /// The number a script returned.
    Number(u64),
    /// A captured PNG image.
    Image(Vec<u8>),
}

/// A screenshot request being served: the request, the options in force
/// (the client's, or forced on by the service), and the stage reached.
#[derive(Debug)]
pub struct ScreenshotFlow {
    pub request: RequestData,
    pub check_nsfw: bool,
    pub dark_mode: bool,
    pub stage: Stage,
}

/// How far a stage is from the end; every step lowers it.
pub open spec fn stage_rank(stage: Stage) -> nat {
    match stage {
        Stage::AwaitingFetch => 16,
        Stage::AwaitingNsfwCheck(_) => 15,
        Stage::AwaitingNavigation => 14,
        Stage::AwaitingResize => 13,
        Stage::AwaitingScrollbar => 12,
        Stage::AwaitingColorScheme => 11,
        Stage::AwaitingRefresh => 10,
        Stage::AwaitingWindowSize => 9,
        Stage::AwaitingScrollWidth(_) => 8,
        Stage::AwaitingScrollHeight(..) => 7,
        Stage::AwaitingPageResize(_) => 6,
        Stage::AwaitingBodyCapture(_) => 5,
        Stage::AwaitingRestore(_) => 4,
        Stage::AwaitingPageCapture => 3,
        Stage::AwaitingStore(_) => 1,
        Stage::Finished => 0,
    }
}

/// Once the image is taken: a fresh slug is drawn and the image stored under
/// it, or the request is given up when no slug can be drawn.
pub open spec fn stores_image(image: Vec<u8>, next: Stage, action: Action) -> bool {
    ||| (action matches Action::Store(slug, img) && img == image && next == Stage::AwaitingStore(slug))
    ||| (next is Finished && action == Action::Abort(SLUG_FAILURE))
}

/// The protocol of the screenshot route: from `stage`, given the outcome
/// `event` of the pending action, serving moves to `next` and asks for
/// `action`. An outcome that does not answer the pending action ends it.
pub open spec fn flow_step(flow: ScreenshotFlow, event: Event, next: Stage, action: Action) -> bool {
    match (flow.stage, event) {
        (Stage::AwaitingFetch, Event::FetchFailed(is_redirect, is_connect)) =>
            next is Finished && action == Action::Fail(fetch_failure(is_redirect, is_connect)),
        (Stage::AwaitingFetch, Event::Reached(url)) => if flow.check_nsfw {
            match url_host(url@) {
                Some(h) => next == Stage::AwaitingNsfwCheck(url) && (action matches Action::CheckNsfw(
                    host,
                ) && host@ == h),
                None => next is Finished && action == Action::Abort(HOST_MISSING),
            }
        } else {
            next == Stage::AwaitingNavigation && action == Action::Navigate(url)
        },
        (Stage::AwaitingNsfwCheck(url), Event::NsfwChecked(nsfw)) => if nsfw {
            next is Finished && action == Action::Fail(Error::UrlNotSafeForWork)
        } else {
            next == Stage::AwaitingNavigation && action == Action::Navigate(url)
        },
        (Stage::AwaitingNavigation, Event::Done) => next == Stage::AwaitingResize && action
            == Action::SetWindowSize(viewport(flow.request).0, viewport(flow.request).1),
        (Stage::AwaitingResize, Event::Done) => next == Stage::AwaitingScrollbar && action
            == Action::Execute(HIDE_SCROLLBAR_SCRIPT),
        (Stage::AwaitingScrollbar, Event::Done) => next == Stage::AwaitingColorScheme
            && (action matches Action::Issue(ChromeCommand::ExecuteCdpCommand(method, params))
            && method@ == EMULATED_MEDIA_METHOD@ && params@ == color_scheme_params(flow.dark_mode)),
        (Stage::AwaitingColorScheme, Event::Done) => next == Stage::AwaitingRefresh && action
            == Action::Refresh,
        (Stage::AwaitingRefresh, Event::Done) => if flow.request.fullscreen {
            next == Stage::AwaitingWindowSize && action == Action::GetWindowSize
        } else {
            next == Stage::AwaitingPageCapture && action == Action::CapturePage
        },
        (Stage::AwaitingWindowSize, Event::WindowSize(w, h)) => next == Stage::AwaitingScrollWidth(
            (w, h),
        ) && action == Action::Measure(SCROLL_WIDTH_SCRIPT),
        (Stage::AwaitingScrollWidth(saved_size), Event::Number(width)) => next
            == Stage::AwaitingScrollHeight(saved_size, width) && action == Action::Measure(
            SCROLL_HEIGHT_SCRIPT,
        ),
        (Stage::AwaitingScrollHeight(saved_size, width), Event::Number(height)) => next
            == Stage::AwaitingPageResize(saved_size) && action == Action::SetWindowSize(
            width as u32,
            height as u32,
        ),
        (Stage::AwaitingPageResize(saved_size), Event::Done) => next == Stage::AwaitingBodyCapture(
            saved_size,
        ) && action == Action::CaptureElement(FULL_PAGE_SELECTOR),
        (Stage::AwaitingBodyCapture(saved_size), Event::Image(image)) => next == Stage::AwaitingRestore(
            image,
        ) && action == Action::SetWindowSize(saved_size.0 as u32, saved_size.1 as u32),
        (Stage::AwaitingRestore(image), Event::Done) => stores_image(image, next, action),
        (Stage::AwaitingPageCapture, Event::Image(image)) => stores_image(image, next, action),
        (Stage::AwaitingStore(slug), Event::Done) => next is Finished && (action matches Action::Respond(status, body) && status == CREATED_STATUS
            && body@ == created_body(
            slug@,
            flow.request.url@,
            flow.request.fullscreen,
            flow.request.check_nsfw,
            flow.request.dark_mode,
        )),
        _ => next is Finished && action == Action::Abort(UNEXPECTED_EVENT),
    }
}

/// Begins serving `request`. The NSFW check and dark mode are on when the
/// client asks for them or the service forces them. An address that fails
/// the URL check is refused with `InvalidUrl`; any other is fetched.
pub fn screenshot(request: RequestData, force_nsfw_check: bool, force_dark_mode: bool) -> (res: (
    ScreenshotFlow,
    Action,
))
    ensures
        res.0.request == request,
        res.0.check_nsfw == (force_nsfw_check || request.check_nsfw),
        res.0.dark_mode == (force_dark_mode || request.dark_mode),
        url_accepted(request.url@) ==> res.0.stage == Stage::AwaitingFetch && res.1 == Action::Fetch(
            request.url,
        ),
        !url_accepted(request.url@) ==> res.0.stage is Finished && res.1 == Action::Fail(
            Error::InvalidUrl,
        ),
{
    let check_nsfw = force_nsfw_check || request.check_nsfw;
    let dark_mode = force_dark_mode || request.dark_mode;
    match check_if_url(request.url.as_str()) {
        Ok(_) => {
            let url = request.url.clone();
            (ScreenshotFlow { request, check_nsfw, dark_mode, stage: Stage::AwaitingFetch }, Action::Fetch(url))
        },
        Err(_) => (
            ScreenshotFlow { request, check_nsfw, dark_mode, stage: Stage::Finished },
            Action::Fail(Error::InvalidUrl),
        ),
    }
}

impl ScreenshotFlow {
    /// Takes in the outcome of the pending action and says what to do next.
    pub fn advance(self, event: Event) -> (res: (ScreenshotFlow, Action))
        ensures
            res.0.request == self.request,
            res.0.check_nsfw == self.check_nsfw,
            res.0.dark_mode == self.dark_mode,
            flow_step(self, event, res.0.stage, res.1),
    {
        let ScreenshotFlow { request, check_nsfw, dark_mode, stage } = self;
        let (next, action) = match stage {
            Stage::AwaitingFetch => match event {
                Event::FetchFailed(is_redirect, is_connect) => (
                    Stage::Finished,
                    Action::Fail(fetch_error(is_redirect, is_connect)),
                ),
                Event::Reached(url) => if check_nsfw {
                    match host_of(url.as_str()) {
                        Some(h) => (Stage::AwaitingNsfwCheck(url), Action::CheckNsfw(h)),
                        None => (Stage::Finished, Action::Abort(HOST_MISSING)),
                    }
                } else {
                    (Stage::AwaitingNavigation, Action::Navigate(url))
                },
                _ => (Stage::Finished, Action::Abort(UNEXPECTED_EVENT)),
            },
            Stage::AwaitingNsfwCheck(url) => match event {
                Event::NsfwChecked(nsfw) => if nsfw {
                    (Stage::Finished, Action::Fail(Error::UrlNotSafeForWork))
                } else {
                    (Stage::AwaitingNavigation, Action::Navigate(url))
                },
                _ => (Stage::Finished, Action::Abort(UNEXPECTED_EVENT)),
            },
            Stage::AwaitingNavigation => match event {
                Event::Done => {
                    let (width, height) = request.viewport();
                    (Stage::AwaitingResize, Action::SetWindowSize(width, height))
                },
                _ => (Stage::Finished, Action::Abort(UNEXPECTED_EVENT)),
            },
            Stage::AwaitingResize => match event {
                Event::Done => (Stage::AwaitingScrollbar, Action::Execute(HIDE_SCROLLBAR_SCRIPT)),
                _ => (Stage::Finished, Action::Abort(UNEXPECTED_EVENT)),
            },
            Stage::AwaitingScrollbar => match event {
                Event::Done => (Stage::AwaitingColorScheme, Action::Issue(color_scheme_command(dark_mode))),
                _ => (Stage::Finished, Action::Abort(UNEXPECTED_EVENT)),
            },
            Stage::AwaitingColorScheme => match event {
                Event::Done => (Stage::AwaitingRefresh, Action::Refresh),
                _ => (Stage::Finished, Action::Abort(UNEXPECTED_EVENT)),
            },
            Stage::AwaitingRefresh => match event {
                Event::Done => if request.fullscreen {
                    (Stage::AwaitingWindowSize, Action::GetWindowSize)
                } else {
                    (Stage::AwaitingPageCapture, Action::CapturePage)
                },
                _ => (Stage::Finished, Action::Abort(UNEXPECTED_EVENT)),
            },
            Stage::AwaitingWindowSize => match event {
                Event::WindowSize(w, h) => (Stage::AwaitingScrollWidth((w, h)), Action::Measure(SCROLL_WIDTH_SCRIPT)),
                _ => (Stage::Finished, Action::Abort(UNEXPECTED_EVENT)),
            },
            Stage::AwaitingScrollWidth(saved_size) => match event {
                Event::Number(width) => (
                    Stage::AwaitingScrollHeight(saved_size, width),
                    Action::Measure(SCROLL_HEIGHT_SCRIPT),
                ),
                _ => (Stage::Finished, Action::Abort(UNEXPECTED_EVENT)),
            },
            Stage::AwaitingScrollHeight(saved_size, width) => match event {
                Event::Number(height) => (
                    Stage::AwaitingPageResize(saved_size),
                    Action::SetWindowSize(width as u32, height as u32),
                ),
                _ => (Stage::Finished, Action::Abort(UNEXPECTED_EVENT)),
            },
            Stage::AwaitingPageResize(saved_size) => match event {
                Event::Done => (Stage::AwaitingBodyCapture(saved_size), Action::CaptureElement(FULL_PAGE_SELECTOR)),
                _ => (Stage::Finished, Action::Abort(UNEXPECTED_EVENT)),
            },
            Stage::AwaitingBodyCapture(saved_size) => match event {
                Event::Image(image) => (
                    Stage::AwaitingRestore(image),
                    Action::SetWindowSize(saved_size.0 as u32, saved_size.1 as u32),
                ),
                _ => (Stage::Finished, Action::Abort(UNEXPECTED_EVENT)),
            },
            Stage::AwaitingRestore(image) => match event {
                Event::Done => store_image(image),
                _ => (Stage::Finished, Action::Abort(UNEXPECTED_EVENT)),
            },
            Stage::AwaitingPageCapture => match event {
                Event::Image(image) => store_image(image),
                _ => (Stage::Finished, Action::Abort(UNEXPECTED_EVENT)),
            },
            Stage::AwaitingStore(slug) => match event {
                Event::Done => {
                    let body = request.created_body(slug.as_str());
                    (Stage::Finished, Action::Respond(CREATED_STATUS, body))
                },
                _ => (Stage::Finished, Action::Abort(UNEXPECTED_EVENT)),
            },
            Stage::Finished => (Stage::Finished, Action::Abort(UNEXPECTED_EVENT)),
        };
        (ScreenshotFlow { request, check_nsfw, dark_mode, stage: next }, action)
    }
}

/// Draws a slug for `image` and asks for the image to be stored under it.
fn store_image(image: Vec<u8>) -> (res: (Stage, Action))
    ensures
        stores_image(image, res.0, res.1),
{
    after_slug_draw(new_slug(), image)
}

/// What follows the draw of a slug for `image`: with a slug, the image is
/// stored under it and the flow waits for the store; when no slug could be
/// drawn, the request is given up.
pub fn after_slug_draw(draw: Result<String, cuid::CuidError>, image: Vec<u8>) -> (res: (Stage, Action))
    ensures
        match draw {
            Ok(slug) => res.0 == Stage::AwaitingStore(slug) && res.1 == Action::Store(slug, image),
            Err(_) => res.0 is Finished && res.1 == Action::Abort(SLUG_FAILURE),
        },
{
    match draw {
        Ok(slug) => {
            let kept = slug.clone();
            (Stage::AwaitingStore(kept), Action::Store(slug, image))
        },
        Err(_) => (Stage::Finished, Action::Abort(SLUG_FAILURE)),
    }
}

/// Whether an action ends serving the request: an answer, an error or giving up.
pub open spec fn ends_serving(action: Action) -> bool {
    action is Respond || action is Fail || action is Abort
}

/// Serving a request always ends: every step from an unfinished stage moves
/// to a stage nearer the end, a finished flow stays finished, and a step
/// finishes exactly when it answers, fails or gives up.
pub proof fn lemma_flow_progresses(flow: ScreenshotFlow, event: Event, next: Stage, action: Action)
    requires
        flow_step(flow, event, next, action),
    ensures
        !(flow.stage is Finished) ==> stage_rank(next) < stage_rank(flow.stage),
        flow.stage is Finished ==> next is Finished,
        next is Finished <==> ends_serving(action),
{
}

/// The answer to a stored screenshot names the slug it was stored under, and
/// reports the options the client sent.
pub proof fn lemma_answer_names_stored_slug(
    flow: ScreenshotFlow,
    event: Event,
    stored: ScreenshotFlow,
    slug: String,
    image: Vec<u8>,
    next: Stage,
    action: Action,
)
    requires
        flow_step(flow, event, stored.stage, Action::Store(slug, image)),
        stored.request == flow.request,
        flow_step(stored, Event::Done, next, action),
    ensures
        next is Finished,
        action matches Action::Respond(status, body) && status == CREATED_STATUS && body@
            == created_body(
            slug@,
            flow.request.url@,
            flow.request.fullscreen,
            flow.request.check_nsfw,
            flow.request.dark_mode,
        ),
{
}

/// The block list is consulted only when the NSFW check is on, and a listed
/// host is refused with `UrlNotSafeForWork` before the browser opens it.
pub proof fn lemma_nsfw_hosts_are_refused(flow: ScreenshotFlow, event: Event, next: Stage, action: Action)
    requires
        flow_step(flow, event, next, action),
    ensures
        action is CheckNsfw ==> flow.check_nsfw && flow.stage is AwaitingFetch,
        flow.stage is AwaitingNsfwCheck && event == Event::NsfwChecked(true) ==> next is Finished
            && action == Action::Fail(Error::UrlNotSafeForWork),
        action is Navigate ==> flow.stage is AwaitingFetch || flow.stage is AwaitingNsfwCheck,
{
}

/// A full-page capture puts the window back to the size it had before.
pub proof fn lemma_full_page_restores_window(
    flow: ScreenshotFlow,
    saved_size: (u64, u64),
    image: Vec<u8>,
    next: Stage,
    action: Action,
)
    requires
        flow.stage == Stage::AwaitingBodyCapture(saved_size),
        flow_step(flow, Event::Image(image), next, action),
    ensures
        action == Action::SetWindowSize(saved_size.0 as u32, saved_size.1 as u32),
        next == Stage::AwaitingRestore(image),
{
}

/// Once the page is open the window takes the size the client asked for,
/// the default viewport standing in for a width or height left unset.
pub proof fn lemma_page_loads_at_requested_size(flow: ScreenshotFlow, next: Stage, action: Action)
    requires
        flow.stage == Stage::AwaitingNavigation,
        flow_step(flow, Event::Done, next, action),
    ensures
        next == Stage::AwaitingResize,
        flow.request.width matches Some(w) ==> (action matches Action::SetWindowSize(aw, _) && aw == w),
        flow.request.height matches Some(h) ==> (action matches Action::SetWindowSize(_, ah) && ah == h),
        flow.request.width is None ==> (action matches Action::SetWindowSize(aw, _) && aw == VIEWPORT_WIDTH),
        flow.request.height is None ==> (action matches Action::SetWindowSize(_, ah) && ah == VIEWPORT_HEIGHT),
{
}

/// The answer to a created screenshot is an object with the slug, the path
/// `/s/{slug}` it is served at, and a metadata object of exactly four
/// members that report the request as the client sent it: its URL, and
/// each of its `fullscreen`, `check_nsfw` and `dark_mode` options under its
/// own name.
pub proof fn lemma_created_answer_reports_request(
    slug: Seq<char>,
    url: Seq<char>,
    fullscreen: bool,
    check_nsfw: bool,
    dark_mode: bool,
)
    ensures
        exists|meta: Seq<(Seq<char>, Seq<char>)>|
            {
                &&& created_body(slug, url, fullscreen, check_nsfw, dark_mode) == json_object(
                    seq![
                        ("metadata"@, json_object(meta)),
                        ("path"@, json_string("/s/"@ + slug)),
                        ("slug"@, json_string(slug)),
                    ],
                )
                &&& meta.len() == 4
                &&& json_member(meta, "url"@) == Some(json_string(url))
                &&& json_member(meta, "fullscreen"@) == Some(json_bool(fullscreen))
                &&& json_member(meta, "check_nsfw"@) == Some(json_bool(check_nsfw))
                &&& json_member(meta, "dark_mode"@) == Some(json_bool(dark_mode))
            },
{
    reveal_strlit("check_nsfw");
    reveal_strlit("dark_mode");
    reveal_strlit("fullscreen");
    reveal_strlit("url");
    let meta = request_metadata(url, fullscreen, check_nsfw, dark_mode);
    reveal_with_fuel(json_member, 5);
    assert("check_nsfw"@ != "url"@ && "dark_mode"@ != "url"@ && "fullscreen"@ != "url"@) by {
        assert("check_nsfw"@[0] != "url"@[0]);
        assert("dark_mode"@[0] != "url"@[0]);
        assert("fullscreen"@[0] != "url"@[0]);
    }
    assert("check_nsfw"@ != "fullscreen"@ && "dark_mode"@ != "fullscreen"@) by {
        assert("check_nsfw"@[0] != "fullscreen"@[0]);
        assert("dark_mode"@[0] != "fullscreen"@[0]);
    }
    assert("check_nsfw"@ != "dark_mode"@) by {
        assert("check_nsfw"@[0] != "dark_mode"@[0]);
    }
    assert(meta.drop_first()[0] == meta[1]);
    assert(meta.drop_first().drop_first()[0] == meta[2]);
    assert(meta.drop_first().drop_first().drop_first()[0] == meta[3]);
    assert(json_member(meta, "url"@) == Some(json_string(url)));
    assert(json_member(meta, "fullscreen"@) == Some(json_bool(fullscreen)));
    assert(json_member(meta, "check_nsfw"@) == Some(json_bool(check_nsfw)));
    assert(json_member(meta, "dark_mode"@) == Some(json_bool(dark_mode)));
}

/// Once the scroll bars are hidden, the page is asked for the dark colour
/// scheme exactly when dark mode is on for the request (asked by the client
/// or forced), and for the light one otherwise, whatever else the request
/// sets, full-page capture included.
pub proof fn lemma_color_scheme_follows_dark_mode(flow: ScreenshotFlow, next: Stage, action: Action)
    requires
        flow.stage == Stage::AwaitingScrollbar,
        flow_step(flow, Event::Done, next, action),
    ensures
        next == Stage::AwaitingColorScheme,
        action matches Action::Issue(ChromeCommand::ExecuteCdpCommand(method, params)) && method@
            == "Emulation.setEmulatedMedia"@ && params@ == json_object(
            seq![
                ("features"@, json_array(seq![
                    json_object(seq![
                        ("name"@, json_string("prefers-color-scheme"@)),
                        ("value"@, json_string(if flow.dark_mode { "dark"@ } else { "light"@ })),
                    ]),
                ])),
            ],
        ),
{
}

} // verus!
