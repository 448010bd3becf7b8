use vstd::prelude::*;
use crate::json::{
    boolean, decimal_text, integer, json_bool, json_object, json_string, keys_ascending,
    lemma_keys_ascending_from_neighbours, object, quote, text_lt,
};

verus! {

/// The kinds of network connection Chrome can emulate.
#[derive(Debug, Clone, Copy, PartialEq, Eq, Structural)]
pub enum ConnectionType {
    NoConnection,
    Cellular2G,
    Cellular3G,
    Cellular4G,
    Bluetooth,
    Ethernet,
    Wifi,
    Wimax,
    Other,
}

/// The name under which a connection type is written in JSON.
pub open spec fn connection_type_name(c: ConnectionType) -> Seq<char> {
    match c {
        ConnectionType::NoConnection => "None"@,
        ConnectionType::Cellular2G => "Cellular2G"@,
        ConnectionType::Cellular3G => "Cellular3G"@,
        ConnectionType::Cellular4G => "Cellular4G"@,
        ConnectionType::Bluetooth => "Bluetooth"@,
        ConnectionType::Ethernet => "Ethernet"@,
        ConnectionType::Wifi => "Wifi"@,
        ConnectionType::Wimax => "Wimax"@,
        ConnectionType::Other => "Other"@,
    }
}

impl ConnectionType {
    /// The name under which this connection type is written in JSON.
    pub fn name(&self) -> (n: &'static str)
        ensures
            n@ == connection_type_name(*self),
    {
        match self {
            ConnectionType::NoConnection => "None",
            ConnectionType::Cellular2G => "Cellular2G",
            ConnectionType::Cellular3G => "Cellular3G",
            ConnectionType::Cellular4G => "Cellular4G",
            ConnectionType::Bluetooth => "Bluetooth",
            ConnectionType::Ethernet => "Ethernet",
            ConnectionType::Wifi => "Wifi",
            ConnectionType::Wimax => "Wimax",
            ConnectionType::Other => "Other",
        }
    }
}

/// Network conditions for Chrome to emulate.
#[derive(Debug, Clone, Copy, PartialEq, Eq, Structural)]
pub struct NetworkConditions {
    pub offline: bool,
    pub latency: u32,
    pub download_throughput: i32,
    pub upload_throughput: i32,
    pub connection_type: Option<ConnectionType>,
}

/// The members of the JSON object of network conditions, in key order; the
/// connection type is left out when it is not set.
pub open spec fn network_conditions_members(nc: NetworkConditions) -> Seq<(Seq<char>, Seq<char>)> {
    let head = match nc.connection_type {
        Some(c) => seq![("connection_type"@, json_string(connection_type_name(c)))],
        None => seq![],
    };
    head + seq![
        ("download_throughput"@, decimal_text(nc.download_throughput as int)),
        ("latency"@, decimal_text(nc.latency as int)),
        ("offline"@, json_bool(nc.offline)),
        ("upload_throughput"@, decimal_text(nc.upload_throughput as int)),
    ]
}

/// The members of network conditions come in ascending key order.
proof fn lemma_network_conditions_keys(nc: NetworkConditions)
    ensures
        keys_ascending(network_conditions_members(nc)),
{
    reveal_strlit("connection_type");
    reveal_strlit("download_throughput");
    reveal_strlit("latency");
    reveal_strlit("offline");
    reveal_strlit("upload_throughput");
    let ms = network_conditions_members(nc);
    assert(text_lt("connection_type"@, "download_throughput"@));
    assert(text_lt("download_throughput"@, "latency"@));
    assert(text_lt("latency"@, "offline"@));
    assert(text_lt("offline"@, "upload_throughput"@));
    assert forall|i: int| 0 <= i < ms.len() - 1 implies text_lt(#[trigger] ms[i].0, ms[i + 1].0) by {
        if nc.connection_type is Some {
            if i == 0 {
                assert(ms[0].0 == "connection_type"@ && ms[1].0 == "download_throughput"@);
            } else if i == 1 {
                assert(ms[1].0 == "download_throughput"@ && ms[2].0 == "latency"@);
            } else if i == 2 {
                assert(ms[2].0 == "latency"@ && ms[3].0 == "offline"@);
            } else {
                assert(ms[3].0 == "offline"@ && ms[4].0 == "upload_throughput"@);
            }
        } else {
            if i == 0 {
                assert(ms[0].0 == "download_throughput"@ && ms[1].0 == "latency"@);
            } else if i == 1 {
                assert(ms[1].0 == "latency"@ && ms[2].0 == "offline"@);
            } else {
                assert(ms[2].0 == "offline"@ && ms[3].0 == "upload_throughput"@);
            }
        }
    }
    lemma_keys_ascending_from_neighbours(ms);
}

impl NetworkConditions {
    /// The JSON text of these conditions.
    pub fn to_json(&self) -> (text: String)
        ensures
            text@ == json_object(network_conditions_members(*self)),
    {
        let mut members: Vec<(&str, String)> = Vec::new();
        match self.connection_type {
            Some(c) => {
                members.push(("connection_type", quote(c.name())));
            },
            None => {},
        }
        members.push(("download_throughput", integer(self.download_throughput as i64)));
        members.push(("latency", integer(self.latency as i64)));
        members.push(("offline", boolean(self.offline)));
        members.push(("upload_throughput", integer(self.upload_throughput as i64)));
        proof {
            assert(members@.map_values(|m: (&str, String)| (m.0@, m.1@)) =~= network_conditions_members(*self));
            lemma_network_conditions_keys(*self);
        }
        object(&members)
    }
}

/// The Chromium-specific WebDriver commands. The parameters of a CDP command
/// are carried as JSON text.
#[derive(Debug)]
pub enum ChromeCommand {
    LaunchApp(String),
    GetNetworkConditions,
    SetNetworkConditions(NetworkConditions),
    ExecuteCdpCommand(String, String),
    GetSinks,
    GetIssueMessage,
    SetSinkToUse(String),
    StartTabMirroring(String),
    StopCasting(String),
}

/// The HTTP methods the commands use.
#[derive(Debug, Clone, Copy, PartialEq, Eq, Structural)]
pub enum HttpMethod {
    Get,
    Post,
}

/// The endpoint of a command, relative to its session's URL.
pub open spec fn command_path(c: ChromeCommand) -> Seq<char> {
    match c {
        ChromeCommand::LaunchApp(_) => "chromium/launch_app"@,
        ChromeCommand::GetNetworkConditions | ChromeCommand::SetNetworkConditions(_) =>
            "chromium/network_conditions"@,
        ChromeCommand::ExecuteCdpCommand(..) => "goog/cdp/execute"@,
        ChromeCommand::GetSinks => "goog/cast/get_sinks"@,
        ChromeCommand::GetIssueMessage => "goog/cast/get_issue_message"@,
        ChromeCommand::SetSinkToUse(_) => "goog/cast/set_sink_to_use"@,
        ChromeCommand::StartTabMirroring(_) => "goog/cast/start_tab_mirroring"@,
        ChromeCommand::StopCasting(_) => "goog/cast/stop_casting"@,
    }
}

/// The HTTP method of a command.
pub open spec fn command_method(c: ChromeCommand) -> HttpMethod {
    match c {
        ChromeCommand::GetNetworkConditions | ChromeCommand::GetSinks
        | ChromeCommand::GetIssueMessage => HttpMethod::Get,
        _ => HttpMethod::Post,
    }
}

/// The JSON body of a command, if it has one.
pub open spec fn command_body(c: ChromeCommand) -> Option<Seq<char>> {
    match c {
        ChromeCommand::LaunchApp(app_id) => Some(json_object(seq![("id"@, json_string(app_id@))])),
        ChromeCommand::SetNetworkConditions(nc) => Some(
            json_object(seq![("network_conditions"@, json_object(network_conditions_members(nc)))]),
        ),
        ChromeCommand::ExecuteCdpCommand(cmd, params) => Some(
            json_object(seq![("cmd"@, json_string(cmd@)), ("params"@, params@)]),
        ),
        ChromeCommand::SetSinkToUse(sink) | ChromeCommand::StartTabMirroring(sink)
        | ChromeCommand::StopCasting(sink) => Some(json_object(seq![("sinkName"@, json_string(sink@))])),
        _ => None,
    }
}

#[verifier::external_type_specification]
#[verifier::external_body]
pub struct ExParseError(url::ParseError);

/// The URL that `input` names when read relative to `base`, as the `url`
/// crate resolves it, or none when either cannot be parsed.
pub uninterp spec fn joined_url(base: Seq<char>, input: Seq<char>) -> Option<Seq<char>>;

/// Calls `url::Url::parse(base)` and then `Url::join(input)` on the result,
/// serializing the joined URL. Trusted: the text is the named `joined_url` of
/// the two arguments, and an error comes exactly when that name is none.
#[verifier::external_body]
fn url_join(base: &str, input: &str) -> (res: Result<String, url::ParseError>)
    ensures
        match res {
            Ok(u) => joined_url(base@, input@) == Some(u@),
            Err(_) => joined_url(base@, input@) is None,
        },
{
    url::Url::parse(base).and_then(|b| b.join(input)).map(|u| u.to_string())
}

/// A URL that could not be built.
#[derive(Debug)]
pub struct EndpointError(pub url::ParseError);

/// The URL of a session: `session/{id}/` below the WebDriver base.
pub open spec fn session_segment(session_id: Seq<char>) -> Seq<char> {
    "session/"@ + session_id + "/"@
}

/// The endpoint of a command for a session, resolved against the WebDriver base.
pub open spec fn command_endpoint(c: ChromeCommand, base: Seq<char>, session_id: Seq<char>) -> Option<Seq<char>> {
    match joined_url(base, session_segment(session_id)) {
        Some(b) => joined_url(b, command_path(c)),
        None => None,
    }
}

impl ChromeCommand {
    /// The endpoint of this command, relative to its session's URL.
    pub fn path(&self) -> (p: &'static str)
        ensures
            p@ == command_path(*self),
    {
        match self {
            ChromeCommand::LaunchApp(_) => "chromium/launch_app",
            ChromeCommand::GetNetworkConditions | ChromeCommand::SetNetworkConditions(_) =>
                "chromium/network_conditions",
            ChromeCommand::ExecuteCdpCommand(..) => "goog/cdp/execute",
            ChromeCommand::GetSinks => "goog/cast/get_sinks",
            ChromeCommand::GetIssueMessage => "goog/cast/get_issue_message",
            ChromeCommand::SetSinkToUse(_) => "goog/cast/set_sink_to_use",
            ChromeCommand::StartTabMirroring(_) => "goog/cast/start_tab_mirroring",
            ChromeCommand::StopCasting(_) => "goog/cast/stop_casting",
        }
    }

    /// The URL of this command in the session `session_id` of the WebDriver
    /// server at `base_url`.
    pub fn endpoint(&self, base_url: &str, session_id: &str) -> (res: Result<String, EndpointError>)
        ensures
            match res {
                Ok(u) => command_endpoint(*self, base_url@, session_id@) == Some(u@),
                Err(_) => command_endpoint(*self, base_url@, session_id@) is None,
            },
    {
        let mut segment = "session/".to_owned();
        segment.append(session_id);
        segment.append("/");
        match url_join(base_url, segment.as_str()) {
            Ok(base) => match url_join(base.as_str(), self.path()) {
                Ok(u) => Ok(u),
                Err(e) => Err(EndpointError(e)),
            },
            Err(e) => Err(EndpointError(e)),
        }
    }

    /// The HTTP method and JSON body of this command.
    pub fn method_and_body(&self) -> (res: (HttpMethod, Option<String>))
        ensures
            res.0 == command_method(*self),
            match res.1 {
                Some(b) => command_body(*self) == Some(b@),
                None => command_body(*self) is None,
            },
    {
        match self {
            ChromeCommand::LaunchApp(app_id) => {
                let mut members: Vec<(&str, String)> = Vec::new();
                members.push(("id", quote(app_id.as_str())));
                proof {
                    assert(members@.map_values(|m: (&str, String)| (m.0@, m.1@)) =~= seq![("id"@, json_string(app_id@))]);
                }
                (HttpMethod::Post, Some(object(&members)))
            },
            ChromeCommand::SetNetworkConditions(conditions) => {
                let mut members: Vec<(&str, String)> = Vec::new();
                members.push(("network_conditions", conditions.to_json()));
                proof {
                    assert(members@.map_values(|m: (&str, String)| (m.0@, m.1@)) =~= seq![
                        ("network_conditions"@, json_object(network_conditions_members(*conditions))),
                    ]);
                }
                (HttpMethod::Post, Some(object(&members)))
            },
            ChromeCommand::ExecuteCdpCommand(command, params) => {
                let mut members: Vec<(&str, String)> = Vec::new();
                members.push(("cmd", quote(command.as_str())));
                members.push(("params", params.clone()));
                proof {
                    let ms = seq![("cmd"@, json_string(command@)), ("params"@, params@)];
                    assert(members@.map_values(|m: (&str, String)| (m.0@, m.1@)) =~= ms);
                    reveal_strlit("cmd");
                    reveal_strlit("params");
                    assert(text_lt(ms[0].0, ms[1].0));
                    lemma_keys_ascending_from_neighbours(ms);
                }
                (HttpMethod::Post, Some(object(&members)))
            },
            ChromeCommand::SetSinkToUse(sink_name) | ChromeCommand::StartTabMirroring(sink_name)
            | ChromeCommand::StopCasting(sink_name) => {
                let mut members: Vec<(&str, String)> = Vec::new();
                members.push(("sinkName", quote(sink_name.as_str())));
                proof {
                    assert(members@.map_values(|m: (&str, String)| (m.0@, m.1@)) =~= seq![("sinkName"@, json_string(sink_name@))]);
                }
                (HttpMethod::Post, Some(object(&members)))
            },
            _ => (HttpMethod::Get, None),
        }
    }
}

/// How each command travels: the three queries (`GetNetworkConditions`,
/// `GetSinks`, `GetIssueMessage`) are sent with GET and no body; every other
/// command is sent with POST and a JSON body. A command that names a sink
/// (`SetSinkToUse`, `StartTabMirroring`, `StopCasting`) sends
/// `{"sinkName": <name>}`, launching an app sends `{"id": <id>}`, a CDP
/// command sends `{"cmd": <method>, "params": <params>}`, and setting network
/// conditions sends them under `network_conditions`.
pub proof fn lemma_command_encoding(c: ChromeCommand)
    ensures
        (command_method(c) == HttpMethod::Get) <==> (c is GetNetworkConditions || c is GetSinks
            || c is GetIssueMessage),
        (command_method(c) == HttpMethod::Post) <==> command_body(c) is Some,
        c matches ChromeCommand::SetSinkToUse(n) ==> command_body(c) == Some(
            json_object(seq![("sinkName"@, json_string(n@))]),
        ),
        c matches ChromeCommand::StartTabMirroring(n) ==> command_body(c) == Some(
            json_object(seq![("sinkName"@, json_string(n@))]),
        ),
        c matches ChromeCommand::StopCasting(n) ==> command_body(c) == Some(
            json_object(seq![("sinkName"@, json_string(n@))]),
        ),
        c matches ChromeCommand::LaunchApp(id) ==> command_body(c) == Some(
            json_object(seq![("id"@, json_string(id@))]),
        ),
        c matches ChromeCommand::ExecuteCdpCommand(m, p) ==> command_body(c) == Some(
            json_object(seq![("cmd"@, json_string(m@)), ("params"@, p@)]),
        ),
        c matches ChromeCommand::SetNetworkConditions(nc) ==> command_body(c) == Some(
            json_object(seq![("network_conditions"@, json_object(network_conditions_members(nc)))]),
        ),
{
}

} // verus!
