use zenoh_examples::c_text::{payload_text, sample_text, to_c_string};
use zenoh_examples::config::{default_config_accepted, get_default, try_get_default, DEFAULT_CONFIG_JSON5};
use zenoh_examples::decimal::decimal_string;
use zenoh_examples::hello::{get_config, HelloSequence, HELLO_COUNT, KEY};
use zenoh_examples::pico::{z_result, ZenohConfigKey, Z_OK};
use zenoh_examples::ping::PingTask;

#[test]
fn decimal_string_writes_numbers_like_to_string() {
    assert_eq!(decimal_string(0), "0");
    assert_eq!(decimal_string(7), "7");
    assert_eq!(decimal_string(10), "10");
    assert_eq!(decimal_string(42), "42");
    assert_eq!(decimal_string(2147483647), "2147483647");
    assert_eq!(decimal_string(u32::MAX), u32::MAX.to_string());
    for n in [1u32, 9, 99, 100, 101, 65535, 1000000] {
        assert_eq!(decimal_string(n), n.to_string());
    }
}

#[test]
fn c_string_is_nul_terminated() {
    assert_eq!(to_c_string("hello/world"), b"hello/world\0".to_vec());
    assert_eq!(to_c_string(""), vec![0u8]);
    assert_eq!(to_c_string("\u{e9}"), vec![0xC3u8, 0xA9, 0]);
}

#[test]
fn c_string_stops_at_first_nul() {
    assert_eq!(to_c_string("ab\0cd"), b"ab\0".to_vec());
    assert_eq!(to_c_string("\0tail"), vec![0u8]);
}

#[test]
fn payload_text_decodes_bytes_before_nul() {
    assert_eq!(payload_text(b"hello"), Some("hello".to_string()));
    assert_eq!(payload_text(b"he\0llo"), Some("he".to_string()));
    assert_eq!(payload_text(b""), Some(String::new()));
    assert_eq!(payload_text(&[0xC3, 0xA9]), Some("\u{e9}".to_string()));
    assert_eq!(payload_text(&[0x41, 0x00, 0xFF]), Some("A".to_string()));
}

#[test]
fn payload_text_refuses_invalid_utf8() {
    assert_eq!(payload_text(&[0xFF]), None);
    assert_eq!(payload_text(&[0x41, 0xC3]), None);
    assert_eq!(payload_text(&[0xED, 0xA0, 0x80]), None);
}

#[test]
fn c_string_round_trip() {
    for text in ["0", "41", "HELLO#3", "hello/world", "\u{e9}t\u{e9}", "a\0b"] {
        let framed = to_c_string(text);
        let expected = text.split('\0').next().unwrap().to_string();
        assert_eq!(payload_text(&framed), Some(expected));
    }
}

#[test]
fn z_result_maps_codes() {
    assert_eq!(z_result(Z_OK), Ok(()));
    assert_eq!(z_result(0), Ok(()));
    assert_eq!(z_result(-1), Err(-1));
    assert_eq!(z_result(-128), Err(-128));
    assert_eq!(z_result(5), Err(5));
    let keys = [ZenohConfigKey::Mode, ZenohConfigKey::ScoutingTimeout, ZenohConfigKey::Listen];
    assert!(matches!(keys[0], ZenohConfigKey::Mode));
    assert!(matches!(keys[1], ZenohConfigKey::ScoutingTimeout));
    assert!(matches!(keys[2], ZenohConfigKey::Listen));
}

#[test]
fn hello_sequence_numbers_messages() {
    let mut seq = HelloSequence::new();
    for i in 0..HELLO_COUNT {
        assert_eq!(seq.next_message(), Some(format!("HELLO#{}", i)));
    }
    assert_eq!(seq.next_message(), None);
    assert_eq!(seq.next_message(), None);
    assert_eq!(KEY, "hello/world");
}

#[test]
fn ping_task_accepts_echo_of_current_round() {
    let mut task = PingTask::new();
    assert_eq!(task.count(), 0);
    assert_eq!(task.ping(), "0");
    assert!(task.on_pong(&"0".to_string()));
    assert_eq!(task.count(), 1);
    assert_eq!(task.ping(), "1");
}

#[test]
fn ping_task_refuses_other_pongs() {
    let mut task = PingTask::new();
    assert!(task.on_pong(&"0".to_string()));
    assert!(!task.on_pong(&"0".to_string()));
    assert!(!task.on_pong(&"1 ".to_string()));
    assert!(!task.on_pong(&"2".to_string()));
    assert_eq!(task.count(), 1);
    assert!(task.on_pong(&"1".to_string()));
    assert_eq!(task.ping(), "2");
}

#[test]
fn ping_task_counts_many_rounds() {
    let mut task = PingTask::new();
    for round in 0..25 {
        let ping = task.ping();
        assert_eq!(ping, round.to_string());
        assert!(task.on_pong(&ping));
    }
    assert_eq!(task.count(), 25);
}

#[test]
fn default_configuration_is_accepted() {
    assert!(default_config_accepted());
    let config = try_get_default().expect("the configuration parses");
    let listen = config.get_json("listen/endpoints").unwrap();
    assert!(listen.contains("udp/224.0.0.224:7447"));
    let batch = config.get_json("transport/link/tx/batch_size").unwrap();
    assert_eq!(batch, "8192");
    let mode = get_default().get_json("mode").unwrap();
    assert_eq!(mode, "\"peer\"");
    assert!(DEFAULT_CONFIG_JSON5.contains("peer"));
}

#[test]
fn hello_configuration_is_zenoh_default() {
    let config = get_config();
    let listen = config.get_json("listen/endpoints").unwrap();
    assert!(!listen.contains("udp/224.0.0.224:7447"));
    assert!(config.get_json("mode").is_ok());
}

#[test]
fn sample_text_decodes_whole_payload() {
    assert_eq!(sample_text(b"HELLO#3"), Some("HELLO#3".to_string()));
    assert_eq!(sample_text(b"a\0b"), Some("a\0b".to_string()));
    assert_eq!(sample_text(b""), Some(String::new()));
    assert_eq!(sample_text(&[0xE2, 0x82, 0xAC]), Some("\u{20ac}".to_string()));
}

#[test]
fn sample_text_refuses_invalid_utf8() {
    assert_eq!(sample_text(&[0xFF, 0x41]), None);
    assert_eq!(sample_text(&[0xC0, 0x80]), None);
    assert_eq!(sample_text(&[0x41, 0xE2, 0x82]), None);
}

#[test]
fn ping_run_publishes_counter_in_order() {
    let mut task = PingTask::new();
    let mut published: Vec<String> = Vec::new();
    for _ in 0..12 {
        let ping = task.ping();
        published.push(ping.clone());
        assert!(task.on_pong(&ping));
    }
    let expected: Vec<String> = (0..12).map(|i: i32| i.to_string()).collect();
    assert_eq!(published, expected);
}
