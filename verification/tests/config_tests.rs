use ldr_plc::codec::ByteOrder;
use ldr_plc::config::{auto_connect, config_backoff, config_num, parse_u64_range, PlcConfig};

fn entries(pairs: &[(&str, &str)]) -> Vec<(String, String)> {
    pairs.iter().map(|(k, v)| (k.to_string(), v.to_string())).collect()
}

fn parse(s: &str) -> Option<u64> {
    let cs: Vec<char> = s.chars().collect();
    parse_u64_range(&cs, 0, cs.len())
}

#[test]
fn parse_u64_like_from_str() {
    for s in ["0", "42", "+42", "007", "18446744073709551615", "", "+", "-1", " 1", "1 ", "1a", "18446744073709551616", "99999999999999999999", "١"] {
        assert_eq!(parse(s), s.parse::<u64>().ok(), "input {s:?}");
    }
}

#[test]
fn empty_table_gives_defaults() {
    let c = PlcConfig::from_map(&Vec::new());
    assert_eq!(c.ip, "192.168.1.88");
    assert_eq!(c.port, 502);
    assert_eq!(c.unit_id, 1);
    assert_eq!(c.heartbeat_reg, 210);
    assert_eq!(c.heartbeat_ms, 100);
    assert_eq!(c.watchdog_read_ms, 1000);
    assert_eq!(c.watchdog_fails, 3);
    assert_eq!(c.conn_timeout_ms, 3000);
    assert_eq!(c.io_timeout_ms, 1000);
    assert_eq!(c.read_interval_ms, 500);
    assert_eq!(c.alarm_interval_ms, 500);
    assert_eq!(c.backoff_ms, vec![1000, 2000, 5000, 10000]);
    assert_eq!(c.byte_order, ByteOrder::Cdab);
    assert_eq!(c.cmd_pulse_ms, 200);
    assert_eq!(c.map.d_base, 0);
    assert_eq!(c.map.m_base, 0);
}

#[test]
fn seeded_defaults_read_back() {
    let m = entries(&[
        ("plc_ip", "192.168.1.88"),
        ("plc_port", "502"),
        ("modbus_unit_id", "1"),
        ("real_byte_order", "ABCD"),
        ("read_interval_ms", "500"),
        ("heartbeat_reg", "210"),
        ("heartbeat_ms", "100"),
        ("watchdog_read_ms", "1000"),
        ("watchdog_fails", "3"),
        ("auto_connect", "true"),
        ("reconnect_backoff_ms", "1000,2000,5000,10000"),
        ("conn_timeout_ms", "3000"),
        ("io_timeout_ms", "1000"),
    ]);
    let c = PlcConfig::from_map(&m);
    assert_eq!(c.byte_order, ByteOrder::Abcd);
    assert_eq!(c.backoff_ms, vec![1000, 2000, 5000, 10000]);
    assert_eq!(c.port, 502);
    assert!(auto_connect(&m));
}

#[test]
fn values_are_read_and_clamped() {
    let m = entries(&[
        ("plc_ip", "10.0.0.5"),
        ("plc_port", "70000"),
        ("modbus_unit_id", "258"),
        ("heartbeat_ms", "5"),
        ("watchdog_read_ms", "50"),
        ("conn_timeout_ms", "20"),
        ("io_timeout_ms", "10"),
        ("read_interval_ms", "99"),
        ("cmd_pulse_ms", "1"),
        ("d_base", "+100"),
        ("m_base", "bad"),
        ("watchdog_fails", " 7"),
    ]);
    let c = PlcConfig::from_map(&m);
    assert_eq!(c.ip, "10.0.0.5");
    assert_eq!(c.port, 502);
    assert_eq!(c.unit_id, 1);
    assert_eq!(c.heartbeat_ms, 10);
    assert_eq!(c.watchdog_read_ms, 100);
    assert_eq!(c.conn_timeout_ms, 100);
    assert_eq!(c.io_timeout_ms, 50);
    assert_eq!(c.read_interval_ms, 100);
    assert_eq!(c.alarm_interval_ms, 100);
    assert_eq!(c.cmd_pulse_ms, 20);
    assert_eq!(c.map.d_base, 100);
    assert_eq!(c.map.m_base, 0);
    assert_eq!(c.watchdog_fails, 3);
}

#[test]
fn out_of_range_numbers_fall_back() {
    let m = entries(&[
        ("plc_port", "65536"),
        ("modbus_unit_id", "300"),
        ("heartbeat_reg", "99999"),
        ("watchdog_fails", "4294967296"),
        ("d_base", "70000"),
        ("m_base", "65535"),
    ]);
    let c = PlcConfig::from_map(&m);
    assert_eq!(c.port, 502);
    assert_eq!(c.unit_id, 1);
    assert_eq!(c.heartbeat_reg, 210);
    assert_eq!(c.watchdog_fails, 3);
    assert_eq!(c.map.d_base, 0);
    assert_eq!(c.map.m_base, 65535);
    let edge = entries(&[("plc_port", "65535"), ("modbus_unit_id", "255")]);
    let c = PlcConfig::from_map(&edge);
    assert_eq!((c.port, c.unit_id), (65535, 255));
}

#[test]
fn alarm_interval_own_key_or_read_interval() {
    let own = entries(&[("alarm_interval_ms", "250"), ("read_interval_ms", "800")]);
    assert_eq!(PlcConfig::from_map(&own).alarm_interval_ms, 250);
    let small = entries(&[("alarm_interval_ms", "50"), ("read_interval_ms", "800")]);
    assert_eq!(PlcConfig::from_map(&small).alarm_interval_ms, 800);
    let bad = entries(&[("alarm_interval_ms", "x")]);
    assert_eq!(PlcConfig::from_map(&bad).alarm_interval_ms, 500);
}

#[test]
fn backoff_list_parsing() {
    let m = entries(&[("reconnect_backoff_ms", " 500, 1000 ,x,,2000 ")]);
    assert_eq!(config_backoff(&m), vec![500, 1000, 2000]);
    let none = entries(&[("reconnect_backoff_ms", "x,,")]);
    assert_eq!(config_backoff(&none), vec![1000, 2000, 5000, 10000]);
    let one = entries(&[("reconnect_backoff_ms", "750")]);
    assert_eq!(config_backoff(&one), vec![750]);
}

#[test]
fn number_lookup_and_auto_connect() {
    let m = entries(&[("a", "12"), ("auto_connect", "false")]);
    assert_eq!(config_num(&m, "a", 5), 12);
    assert_eq!(config_num(&m, "b", 5), 5);
    assert!(!auto_connect(&m));
    assert!(auto_connect(&Vec::new()));
    assert!(!auto_connect(&entries(&[("auto_connect", "TRUE")])));
}

#[test]
fn byte_order_key_is_parsed() {
    let m = entries(&[("real_byte_order", " dcba ")]);
    assert_eq!(PlcConfig::from_map(&m).byte_order, ByteOrder::Dcba);
}
