use rusty_controller::config::{ChannelConfig, ControllerConfig, StripConfig};
use rusty_controller::json::{encode_config_packet, parse_startup_message};
use rusty_controller::packets::{ConfigPacket, StripConfigPacket};
use rusty_controller::setup::{handshake_response, HandshakeError};

fn channel(count: i32) -> ChannelConfig {
    ChannelConfig { num: 0, pin: 21, count, invert: false, brightness: 255, strip_type: 0 }
}

fn demo_config() -> ControllerConfig {
    ControllerConfig {
        name: "Test Controller".to_string(),
        port: 8080,
        setup_port: 37322,
        subnet: [192, 168, 1, 0],
        netmask: [255, 255, 255, 0],
        dma: 10,
        freq: 800000,
        channels: vec![channel(3)],
        strips: vec![StripConfig {
            name: "main".to_string(),
            startAddr: 0,
            endAddr: 2,
            channel: 0,
        }],
    }
}

#[test]
fn parse_accepts_canonical_request() {
    let m = parse_startup_message(
        "{\"ip\":\"10.0.0.9\",\"mac\":\"aa:bb:cc\",\"msg_type\":\"startup\"}",
    )
    .unwrap();
    assert_eq!(m.ip, "10.0.0.9");
    assert_eq!(m.mac, "aa:bb:cc");
    assert_eq!(m.msg_type, "startup");
}

#[test]
fn parse_accepts_any_member_order_and_whitespace() {
    let m = parse_startup_message(
        " { \"msg_type\" : \"hello\" ,\n\t\"mac\":\"m\", \"ip\" : \"1.2.3.4\" } ",
    )
    .unwrap();
    assert_eq!(m.ip, "1.2.3.4");
    assert_eq!(m.mac, "m");
    assert_eq!(m.msg_type, "hello");
}

#[test]
fn parse_decodes_escapes() {
    let m = parse_startup_message(
        "{\"ip\":\"a\\\"b\\\\c\\/d\",\"mac\":\"x\\ny\\tz\\r\",\"msg_type\":\"s\"}",
    )
    .unwrap();
    assert_eq!(m.ip, "a\"b\\c/d");
    assert_eq!(m.mac, "x\ny\tz\r");
    assert_eq!(m.msg_type, "s");
}

#[test]
fn parse_rejects_missing_member() {
    assert!(parse_startup_message("{\"ip\":\"1\",\"mac\":\"2\"}").is_none());
}

#[test]
fn parse_rejects_duplicate_member() {
    assert!(
        parse_startup_message("{\"ip\":\"1\",\"ip\":\"2\",\"msg_type\":\"3\"}").is_none()
    );
}

#[test]
fn parse_rejects_unknown_member() {
    assert!(
        parse_startup_message("{\"ip\":\"1\",\"mac\":\"2\",\"extra\":\"3\"}").is_none()
    );
}

#[test]
fn parse_rejects_wrong_field_casing() {
    // The canonical casing of this revision is `msg_type`; `msgType`
    // is another revision's and does not decode here.
    assert!(
        parse_startup_message("{\"ip\":\"1\",\"mac\":\"2\",\"msgType\":\"3\"}").is_none()
    );
}

#[test]
fn parse_rejects_non_string_value() {
    assert!(
        parse_startup_message("{\"ip\":5,\"mac\":\"2\",\"msg_type\":\"3\"}").is_none()
    );
}

#[test]
fn parse_rejects_trailing_text() {
    assert!(parse_startup_message(
        "{\"ip\":\"1\",\"mac\":\"2\",\"msg_type\":\"3\"}x"
    )
    .is_none());
}

#[test]
fn parse_rejects_unterminated_string() {
    assert!(parse_startup_message("{\"ip\":\"1\",\"mac\":\"2\",\"msg_type\":\"3").is_none());
}

#[test]
fn parse_rejects_unknown_escape() {
    assert!(parse_startup_message(
        "{\"ip\":\"\\q\",\"mac\":\"2\",\"msg_type\":\"3\"}"
    )
    .is_none());
}

#[test]
fn parse_rejects_empty_and_garbage() {
    assert!(parse_startup_message("").is_none());
    assert!(parse_startup_message("not json at all").is_none());
    assert!(parse_startup_message("{}").is_none());
}

#[test]
fn encode_emits_exact_announcement_text() {
    let p = ConfigPacket {
        name: "Test Controller".to_string(),
        ip: "192.168.1.42".to_string(),
        port: 8080,
        mac: "none".to_string(),
        numStrips: 1,
        numAddrs: 3,
        strips: vec![StripConfigPacket {
            name: "main".to_string(),
            startAddr: 0,
            endAddr: 2,
            channel: 0,
        }],
    };
    let text = encode_config_packet(&p);
    assert_eq!(
        text,
        "{\"name\":\"Test Controller\",\"ip\":\"192.168.1.42\",\"port\":8080,\
         \"mac\":\"none\",\"numStrips\":1,\"numAddrs\":3,\
         \"strips\":[{\"name\":\"main\",\"startAddr\":0,\"endAddr\":2,\"channel\":0}]}"
    );
}

#[test]
fn encode_is_readable_by_a_json_consumer() {
    // The emitted announcement must be what a stock JSON consumer on
    // the controlling side reads back, escapes included.
    let p = ConfigPacket {
        name: "quote \" and slash \\".to_string(),
        ip: "10.0.0.1".to_string(),
        port: 65535,
        mac: "none".to_string(),
        numStrips: 2,
        numAddrs: 60,
        strips: vec![
            StripConfigPacket {
                name: "left".to_string(),
                startAddr: 0,
                endAddr: 29,
                channel: 0,
            },
            StripConfigPacket {
                name: "right".to_string(),
                startAddr: 30,
                endAddr: 59,
                channel: 1,
            },
        ],
    };
    let text = encode_config_packet(&p);
    let v: serde_json::Value = serde_json::from_str(&text).unwrap();
    assert_eq!(v["name"], "quote \" and slash \\");
    assert_eq!(v["ip"], "10.0.0.1");
    assert_eq!(v["port"], 65535);
    assert_eq!(v["mac"], "none");
    assert_eq!(v["numStrips"], 2);
    assert_eq!(v["numAddrs"], 60);
    assert_eq!(v["strips"].as_array().unwrap().len(), 2);
    assert_eq!(v["strips"][0]["name"], "left");
    assert_eq!(v["strips"][1]["startAddr"], 30);
    assert_eq!(v["strips"][1]["channel"], 1);
}

#[test]
fn encode_empty_strip_table() {
    let p = ConfigPacket {
        name: "c".to_string(),
        ip: "0.0.0.0".to_string(),
        port: 0,
        mac: "none".to_string(),
        numStrips: 0,
        numAddrs: 0,
        strips: vec![],
    };
    let text = encode_config_packet(&p);
    assert_eq!(
        text,
        "{\"name\":\"c\",\"ip\":\"0.0.0.0\",\"port\":0,\"mac\":\"none\",\
         \"numStrips\":0,\"numAddrs\":0,\"strips\":[]}"
    );
}

#[test]
fn handshake_replies_on_setup_port_with_topology() {
    let config = demo_config();
    let addrs = vec![[10, 0, 0, 5], [192, 168, 1, 42]];
    let request = "{\"ip\":\"10.0.0.9\",\"mac\":\"m\",\"msg_type\":\"startup\"}";
    let (msg, port) = handshake_response(&config, &addrs, request).unwrap();
    assert_eq!(port, 37322);
    let v: serde_json::Value = serde_json::from_str(&msg).unwrap();
    assert_eq!(v["name"], "Test Controller");
    assert_eq!(v["ip"], "192.168.1.42");
    assert_eq!(v["port"], 8080);
    assert_eq!(v["mac"], "none");
    assert_eq!(v["numStrips"], 1);
    assert_eq!(v["numAddrs"], 3);
    assert_eq!(v["strips"][0]["name"], "main");
}

#[test]
fn handshake_num_addrs_sums_channels() {
    let mut config = demo_config();
    config.channels = vec![channel(30), channel(12)];
    let addrs = vec![[192, 168, 1, 7]];
    let request = "{\"ip\":\"x\",\"mac\":\"y\",\"msg_type\":\"z\"}";
    let (msg, _) = handshake_response(&config, &addrs, request).unwrap();
    let v: serde_json::Value = serde_json::from_str(&msg).unwrap();
    assert_eq!(v["numAddrs"], 42);
}

#[test]
fn handshake_fails_without_matching_address() {
    let config = demo_config();
    let addrs = vec![[10, 0, 0, 5], [172, 16, 0, 2]];
    let request = "{\"ip\":\"x\",\"mac\":\"y\",\"msg_type\":\"z\"}";
    assert_eq!(
        handshake_response(&config, &addrs, request),
        Err(HandshakeError::ResolutionFailure)
    );
}

#[test]
fn handshake_drops_malformed_request() {
    let config = demo_config();
    let addrs = vec![[192, 168, 1, 42]];
    assert_eq!(
        handshake_response(&config, &addrs, "garbage"),
        Err(HandshakeError::DecodeFailure)
    );
    assert_eq!(
        handshake_response(&config, &addrs, ""),
        Err(HandshakeError::DecodeFailure)
    );
}

#[test]
fn resolution_failure_wins_over_decode_failure() {
    // The resolver runs first, as the original cycle does.
    let config = demo_config();
    let addrs = vec![[10, 0, 0, 5]];
    assert_eq!(
        handshake_response(&config, &addrs, "garbage"),
        Err(HandshakeError::ResolutionFailure)
    );
}

#[test]
fn num_addrs_totals_channel_counts() {
    let mut config = demo_config();
    config.channels = vec![channel(30), channel(0), channel(12)];
    assert_eq!(config.num_addrs(), 42);
}
