//! Verified core of a website-screenshot service: request validation,
//! authentication decisions, error answers, WebDriver command encoding,
//! regex-driven text processing and the screenshot request protocol.

pub mod error;
pub mod text;
pub mod pattern;
pub mod util;
pub mod json;
pub mod cdp;
pub mod middlewares;
pub mod providers;
pub mod evasions;
pub mod routes;
pub mod browser;

