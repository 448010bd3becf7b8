use vstd::prelude::*;
use vstd::utf8::encode_utf8;
use crate::middlewares::opt_view;
use crate::text::{split_ascii, split_on};

verus! {

/// Where chromedriver listens unless told otherwise.
pub const DEFAULT_CHROMEDRIVER_ADDRESS: &'static str = "http://localhost:9515";

/// The port the service listens on unless told otherwise.
pub const DEFAULT_PORT: u16 = 3000;

/// The capability that carries Chrome's options.
pub const CHROME_OPTIONS_KEY: &'static str = "goog:chromeOptions";

/// The flags Chrome is always started with: headless, without GPU, sandbox
/// or shared-memory use, without scroll bars, and reachable from any address.
pub open spec fn default_chrome_args() -> Seq<Seq<char>> {
    seq![
        "--disable-gpu"@,
        "--no-sandbox"@,
        "--disable-dev-shm-usage"@,
        "--headless"@,
        "--hide-scrollbars"@,
        "--whitelisted-ips="@,
    ]
}

/// The extra flags given as comma-separated text, if any.
pub open spec fn extra_flags(flags: Option<Seq<char>>) -> Seq<Seq<u8>> {
    match flags {
        Some(f) => split_on(encode_utf8(f), 44u8),
        None => seq![],
    }
}

/// The flags Chrome is started with: the default ones, then each of the
/// comma-separated `extra` flags (as configured in `CHROME_FLAGS`).
pub fn chrome_args(extra: Option<&str>) -> (args: Vec<String>)
    ensures
        args@.len() == default_chrome_args().len() + extra_flags(opt_view(extra)).len(),
        forall|k: int| 0 <= k < default_chrome_args().len() ==> (#[trigger] args@[k])@ == default_chrome_args()[k],
        forall|k: int|
            0 <= k < extra_flags(opt_view(extra)).len() ==> encode_utf8(
                (#[trigger] args@[default_chrome_args().len() + k])@,
            ) == extra_flags(opt_view(extra))[k],
{
    let mut args: Vec<String> = Vec::new();
    args.push("--disable-gpu".to_owned());
    args.push("--no-sandbox".to_owned());
    args.push("--disable-dev-shm-usage".to_owned());
    args.push("--headless".to_owned());
    args.push("--hide-scrollbars".to_owned());
    args.push("--whitelisted-ips=".to_owned());
    match extra {
        Some(flags) => {
            let mut pieces = split_ascii(flags, 44u8);
            let ghost defaults = args@;
            let ghost split = pieces@;
            args.append(&mut pieces);
            proof {
                assert forall|k: int| 0 <= k < split.len() implies encode_utf8(
                    (#[trigger] args@[default_chrome_args().len() + k])@,
                ) == extra_flags(opt_view(extra))[k] by {
                    assert(args@[6 + k] == split[k]);
                }
                assert forall|k: int| 0 <= k < 6 implies (#[trigger] args@[k])@ == default_chrome_args()[k] by {
                    assert(args@[k] == defaults[k]);
                }
            }
        },
        None => {},
    }
    args
}

} // verus!
