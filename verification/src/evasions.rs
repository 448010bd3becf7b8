use vstd::prelude::*;
use vstd::utf8::{decode_utf8, encode_utf8, encode_utf8_decode_utf8};
use crate::cdp::ChromeCommand;
use crate::json::{
    lemma_keys_ascending_from_neighbours, text_lt,
    array, boolean, decimal_text, integer, join, join_texts, json_array, json_bool, json_object, json_string,
    object, quote,
};
use crate::text::{literal_replaced, replace_literal};

verus! {

/// The expression that calls the function `js` with the JSON arguments `args`:
/// `({js})({args joined by ", "})`.
pub open spec fn script_expression_text(js: Seq<char>, args: Seq<Seq<char>>) -> Seq<char> {
    "("@ + js + ")("@ + join(args, ", "@) + ")"@
}

/// The expression that calls the function `js` with the JSON arguments `args`.
pub fn script_expression(js: &str, args: &Vec<String>) -> (expr: String)
    ensures
        expr@ == script_expression_text(js@, args@.map_values(|a: String| a@)),
{
    let mut expr = "(".to_owned();
    expr.append(js);
    expr.append(")(");
    let joined = join_texts(args, ", ");
    expr.append(joined.as_str());
    expr.append(")");
    expr
}

/// The CDP method that installs a script to run in every new document.
pub const ADD_SCRIPT_METHOD: &'static str = "Page.addScriptToEvaluateOnNewDocument";

/// The command that makes the browser run `js`, called with `args`, in every
/// new document: its parameters are `{"source": <the call expression>}`.
pub fn evaluate_on_new_document(js: &str, args: &Vec<String>) -> (cmd: ChromeCommand)
    ensures
        cmd matches ChromeCommand::ExecuteCdpCommand(method, params) && method@ == ADD_SCRIPT_METHOD@
            && params@ == json_object(seq![
                ("source"@, json_string(script_expression_text(js@, args@.map_values(|a: String| a@)))),
            ]),
{
    let expr = script_expression(js, args);
    let mut members: Vec<(&str, String)> = Vec::new();
    members.push(("source", quote(expr.as_str())));
    proof {
        assert(members@.map_values(|m: (&str, String)| (m.0@, m.1@)) =~= seq![
            ("source"@, json_string(expr@)),
        ]);
    }
    ChromeCommand::ExecuteCdpCommand(ADD_SCRIPT_METHOD.to_owned(), object(&members))
}

/// The command that asks the browser for its version (and user agent).
pub fn browser_version_command() -> (cmd: ChromeCommand)
    ensures
        cmd matches ChromeCommand::ExecuteCdpCommand(method, params) && method@ == "Browser.getVersion"@
            && params@ == json_object(seq![]),
{
    let members: Vec<(&str, String)> = Vec::new();
    proof {
        assert(members@.map_values(|m: (&str, String)| (m.0@, m.1@)) =~= Seq::<(Seq<char>, Seq<char>)>::empty());
    }
    ChromeCommand::ExecuteCdpCommand("Browser.getVersion".to_owned(), object(&members))
}

/// The user agent that the browser reports once `user_agent` is disguised.
pub open spec fn disguised(user_agent: Seq<char>) -> Seq<char> {
    decode_utf8(
        literal_replaced(encode_utf8(user_agent), encode_utf8("HeadlessChrome"@), encode_utf8("Chrome"@), 0),
    )
}

/// The user agent with every `HeadlessChrome` turned into `Chrome`, so that
/// the browser does not announce that it runs headless.
pub fn disguised_user_agent(user_agent: &str) -> (ua: String)
    ensures
        encode_utf8(ua@) == literal_replaced(
            encode_utf8(user_agent@),
            encode_utf8("HeadlessChrome"@),
            encode_utf8("Chrome"@),
            0,
        ),
        ua@ == disguised(user_agent@),
{
    proof {
        reveal_strlit("HeadlessChrome");
    }
    let ua = replace_literal(user_agent, "HeadlessChrome", "Chrome");
    proof {
        encode_utf8_decode_utf8(ua@);
    }
    ua
}

/// The command that overrides the browser's user agent with the disguised
/// form of `user_agent` and asks for English content.
pub fn user_agent_override_command(user_agent: &str) -> (cmd: ChromeCommand)
    ensures
        cmd matches ChromeCommand::ExecuteCdpCommand(method, params) && method@
            == "Network.setUserAgentOverride"@ && params@ == json_object(
            seq![
                ("acceptLanguage"@, json_string("en-US,en"@)),
                ("userAgent"@, json_string(disguised(user_agent@))),
            ],
        ),
{
    let ua = disguised_user_agent(user_agent);
    let mut members: Vec<(&str, String)> = Vec::new();
    members.push(("acceptLanguage", quote("en-US,en")));
    members.push(("userAgent", quote(ua.as_str())));
    proof {
        let ms = seq![("acceptLanguage"@, json_string("en-US,en"@)), ("userAgent"@, json_string(ua@))];
        assert(members@.map_values(|m: (&str, String)| (m.0@, m.1@)) =~= ms);
        reveal_strlit("acceptLanguage");
        reveal_strlit("userAgent");
        assert(text_lt(ms[0].0, ms[1].0));
        lemma_keys_ascending_from_neighbours(ms);
    }
    ChromeCommand::ExecuteCdpCommand("Network.setUserAgentOverride".to_owned(), object(&members))
}

/// The JSON text of an array of strings, as passed to some evasion scripts.
pub fn string_array(items: &Vec<&str>) -> (text: String)
    ensures
        text@ == json_array(items@.map_values(|s: &str| json_string(s@))),
{
    let mut quoted: Vec<String> = Vec::new();
    let mut i: usize = 0;
    while i < items.len()
        invariant
            i <= items@.len(),
            quoted@.len() == i,
            forall|k: int| 0 <= k < i ==> (#[trigger] quoted@[k])@ == json_string(items@[k]@),
        decreases items@.len() - i,
    {
        quoted.push(quote(items[i]));
        i = i + 1;
    }
    proof {
        assert(quoted@.map_values(|p: String| p@) =~= items@.map_values(|s: &str| json_string(s@)));
    }
    array(&quoted)
}

/// The scripts that hide the headless browser, by file name, each with the
/// JSON arguments it is called with, in the order they are installed.
pub open spec fn evasion_plan() -> Seq<(Seq<char>, Seq<Seq<char>>)> {
    seq![
        ("utils.js"@, seq![]),
        ("chrome.app.js"@, seq![]),
        ("chrome.csi.js"@, seq![]),
        ("chrome.loadTimes.js"@, seq![]),
        ("chrome.runtime.js"@, seq![json_bool(false)]),
        ("iframe.contentWindow.js"@, seq![]),
        ("media.codecs.js"@, seq![]),
        ("navigator.hardwareConcurrency.js"@, seq![decimal_text(4)]),
        ("navigator.languages.js"@, seq![json_array(seq![json_string("en-US"@), json_string("en"@)])]),
        ("navigator.permissions.js"@, seq![]),
        ("navigator.plugins.js"@, seq![]),
        ("navigator.vendor.js"@, seq![json_string("Google Inc."@)]),
        ("navigator.webdriver.js"@, seq![]),
        ("webgl.vendor.js"@, seq![json_string("Intel Inc."@), json_string("Intel Iris OpenGL Engine"@)]),
        ("window.outerdimensions.js"@, seq![]),
    ]
}

/// The view of one planned evasion.
pub open spec fn evasion_view(e: (&'static str, Vec<String>)) -> (Seq<char>, Seq<Seq<char>>) {
    (e.0@, e.1@.map_values(|a: String| a@))
}

/// The scripts that hide the headless browser, with their arguments.
pub fn evasions() -> (plan: Vec<(&'static str, Vec<String>)>)
    ensures
        plan@.map_values(|e: (&'static str, Vec<String>)| evasion_view(e)) == evasion_plan(),
{
    let mut plan: Vec<(&'static str, Vec<String>)> = Vec::new();
    plan.push(("utils.js", Vec::new()));
    plan.push(("chrome.app.js", Vec::new()));
    plan.push(("chrome.csi.js", Vec::new()));
    plan.push(("chrome.loadTimes.js", Vec::new()));
    let mut runtime: Vec<String> = Vec::new();
    runtime.push(boolean(false));
    plan.push(("chrome.runtime.js", runtime));
    plan.push(("iframe.contentWindow.js", Vec::new()));
    plan.push(("media.codecs.js", Vec::new()));
    let mut concurrency: Vec<String> = Vec::new();
    concurrency.push(integer(4));
    plan.push(("navigator.hardwareConcurrency.js", concurrency));
    let mut languages: Vec<&str> = Vec::new();
    languages.push("en-US");
    languages.push("en");
    let mut languages_args: Vec<String> = Vec::new();
    languages_args.push(string_array(&languages));
    plan.push(("navigator.languages.js", languages_args));
    plan.push(("navigator.permissions.js", Vec::new()));
    plan.push(("navigator.plugins.js", Vec::new()));
    let mut vendor: Vec<String> = Vec::new();
    vendor.push(quote("Google Inc."));
    plan.push(("navigator.vendor.js", vendor));
    plan.push(("navigator.webdriver.js", Vec::new()));
    let mut webgl: Vec<String> = Vec::new();
    webgl.push(quote("Intel Inc."));
    webgl.push(quote("Intel Iris OpenGL Engine"));
    plan.push(("webgl.vendor.js", webgl));
    plan.push(("window.outerdimensions.js", Vec::new()));
    proof {
        assert(languages@.map_values(|s: &str| json_string(s@)) =~= seq![json_string("en-US"@), json_string("en"@)]);
        let views = plan@.map_values(|e: (&'static str, Vec<String>)| evasion_view(e));
        let expected = evasion_plan();
        assert forall|k: int| 0 <= k < expected.len() implies #[trigger] views[k] == expected[k] by {
            assert(plan@[k].1@.map_values(|a: String| a@) =~= expected[k].1);
        }
        assert(views =~= expected);
    }
    plan
}

} // verus!
