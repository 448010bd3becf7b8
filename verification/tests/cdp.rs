use serde_json::Value;
use website_screenshot::cdp::{ChromeCommand, ConnectionType, HttpMethod, NetworkConditions};

fn object(pairs: Vec<(&str, Value)>) -> Value {
    let mut map = serde_json::Map::new();
    for (k, v) in pairs {
        map.insert(k.to_owned(), v);
    }
    Value::Object(map)
}

#[test]
fn connection_type_names() {
    assert_eq!(ConnectionType::NoConnection.name(), "None");
    assert_eq!(ConnectionType::Cellular2G.name(), "Cellular2G");
    assert_eq!(ConnectionType::Cellular3G.name(), "Cellular3G");
    assert_eq!(ConnectionType::Cellular4G.name(), "Cellular4G");
    assert_eq!(ConnectionType::Bluetooth.name(), "Bluetooth");
    assert_eq!(ConnectionType::Ethernet.name(), "Ethernet");
    assert_eq!(ConnectionType::Wifi.name(), "Wifi");
    assert_eq!(ConnectionType::Wimax.name(), "Wimax");
    assert_eq!(ConnectionType::Other.name(), "Other");
}

#[test]
fn network_conditions_json() {
    let nc = NetworkConditions {
        offline: false,
        latency: 20,
        download_throughput: -1,
        upload_throughput: 1024,
        connection_type: Some(ConnectionType::Wifi),
    };
    let expected = object(vec![
        ("offline", Value::Bool(false)),
        ("latency", Value::from(20u32)),
        ("download_throughput", Value::from(-1i32)),
        ("upload_throughput", Value::from(1024i32)),
        ("connection_type", Value::String("Wifi".to_owned())),
    ]);
    assert_eq!(nc.to_json(), expected.to_string());
    assert_eq!(
        nc.to_json(),
        "{\"connection_type\":\"Wifi\",\"download_throughput\":-1,\"latency\":20,\"offline\":false,\"upload_throughput\":1024}"
    );
}

#[test]
fn network_conditions_json_without_connection_type() {
    let nc = NetworkConditions {
        offline: true,
        latency: 0,
        download_throughput: i32::MIN,
        upload_throughput: i32::MAX,
        connection_type: None,
    };
    assert_eq!(
        nc.to_json(),
        "{\"download_throughput\":-2147483648,\"latency\":0,\"offline\":true,\"upload_throughput\":2147483647}"
    );
}

#[test]
fn chrome_command_paths() {
    assert_eq!(ChromeCommand::LaunchApp("a".to_owned()).path(), "chromium/launch_app");
    assert_eq!(ChromeCommand::GetNetworkConditions.path(), "chromium/network_conditions");
    assert_eq!(ChromeCommand::ExecuteCdpCommand("m".to_owned(), "{}".to_owned()).path(), "goog/cdp/execute");
    assert_eq!(ChromeCommand::GetSinks.path(), "goog/cast/get_sinks");
    assert_eq!(ChromeCommand::GetIssueMessage.path(), "goog/cast/get_issue_message");
    assert_eq!(ChromeCommand::SetSinkToUse("s".to_owned()).path(), "goog/cast/set_sink_to_use");
    assert_eq!(ChromeCommand::StartTabMirroring("s".to_owned()).path(), "goog/cast/start_tab_mirroring");
    assert_eq!(ChromeCommand::StopCasting("s".to_owned()).path(), "goog/cast/stop_casting");
}

#[test]
fn chrome_command_methods_and_bodies() {
    let (m, b) = ChromeCommand::LaunchApp("app\"1".to_owned()).method_and_body();
    assert_eq!(m, HttpMethod::Post);
    assert_eq!(b, Some(object(vec![("id", Value::String("app\"1".to_owned()))]).to_string()));

    let (m, b) = ChromeCommand::GetSinks.method_and_body();
    assert_eq!(m, HttpMethod::Get);
    assert_eq!(b, None);
    assert_eq!(ChromeCommand::GetNetworkConditions.method_and_body(), (HttpMethod::Get, None));
    assert_eq!(ChromeCommand::GetIssueMessage.method_and_body(), (HttpMethod::Get, None));

    let (m, b) = ChromeCommand::ExecuteCdpCommand("Browser.getVersion".to_owned(), "{}".to_owned())
        .method_and_body();
    assert_eq!(m, HttpMethod::Post);
    assert_eq!(b.unwrap(), "{\"cmd\":\"Browser.getVersion\",\"params\":{}}");

    let (m, b) = ChromeCommand::StopCasting("tv".to_owned()).method_and_body();
    assert_eq!(m, HttpMethod::Post);
    assert_eq!(b.unwrap(), "{\"sinkName\":\"tv\"}");

    let nc = NetworkConditions {
        offline: false,
        latency: 5,
        download_throughput: 10,
        upload_throughput: 20,
        connection_type: None,
    };
    let (m, b) = ChromeCommand::SetNetworkConditions(nc).method_and_body();
    assert_eq!(m, HttpMethod::Post);
    assert_eq!(
        b.unwrap(),
        "{\"network_conditions\":{\"download_throughput\":10,\"latency\":5,\"offline\":false,\"upload_throughput\":20}}"
    );
}

#[test]
fn chrome_command_endpoint() {
    let cmd = ChromeCommand::ExecuteCdpCommand("m".to_owned(), "{}".to_owned());
    let url = cmd.endpoint("http://localhost:9515/", "abc123").unwrap();
    assert_eq!(url, "http://localhost:9515/session/abc123/goog/cdp/execute");
    let url = ChromeCommand::GetSinks.endpoint("http://localhost:9515", "s1").unwrap();
    assert_eq!(url, "http://localhost:9515/session/s1/goog/cast/get_sinks");
}

#[test]
fn chrome_command_endpoint_bad_base() {
    assert!(ChromeCommand::GetSinks.endpoint("not a url", "s1").is_err());
}
