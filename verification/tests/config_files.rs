use rsu::config::defaults::{generate_rsu_cfg, generate_traffic_cfg, generate_vehicle_cfg};
use rsu::config::traffic::{read_config, traffic_cfg_from_document};
use rsu::config::{
    read_document, read_rsu_cfg, read_vehicle_cfg, rsu_cfg_from_document, with_host, ConfigError,
    ConfigKey, RsuConfig, VehicleConfig,
};
use rsu::light::{LightColor, LightDuration, LightStatus};
use rsu::yaml::{hash_node, text_node, YamlNode};

const TRAFFIC: &str = "---
port: '8081'
road_id: \"1111111\"
light_id_group: {
                group1: [\"A\", \"B\"],
                group2: [\"C\"],
                }
master: \"group1\"
color: 1
duration:
    green: 7
    yellow: 3
    red: 10
    unknown: -1
center_db_url: 'http://127.0.0.1:8000/rsu/rsu_id/traffic_light/status/'
";

fn status(color: LightColor, counter: i64) -> LightStatus {
    LightStatus { color, counter }
}

#[test]
fn with_host_puts_the_address_in() {
    assert_eq!(with_host("http://127.0.0.1:80/", "10.0.0.7"), "http://10.0.0.7:80/");
    assert_eq!(with_host("http://example.org/", "10.0.0.7"), "http://example.org/");
    assert_eq!(with_host("127.0.0.1", "127.0.0.1"), "127.0.0.1");
    assert_eq!(with_host("", "h"), "");
}

#[test]
fn supervisor_settings() {
    let text = "---\nport: \"61111\"\ncenter_db_url: 'http://127.0.0.1:9000/rsu'\nreport_duration: 5\n";
    assert_eq!(
        read_rsu_cfg(text, "192.168.1.2"),
        Ok(RsuConfig {
            port: "61111".to_string(),
            center_db_url: "http://192.168.1.2:9000/rsu".to_string(),
            report_duration: 5
        })
    );
}

#[test]
fn supervisor_settings_that_are_missing_or_wrong() {
    let cases: Vec<(&str, ConfigError, &str)> = vec![
        ("", ConfigError::NoDocument, "read config failed: no document"),
        ("center_db_url: a\nreport_duration: 1\n", ConfigError::Missing(ConfigKey::Port), "get port from config failed"),
        ("port: 61111\ncenter_db_url: a\nreport_duration: 1\n", ConfigError::Missing(ConfigKey::Port), "get port from config failed"),
        ("port: 'p'\nreport_duration: 1\n", ConfigError::Missing(ConfigKey::CenterDbUrl), "get center_db_url from config failed"),
        ("port: 'p'\ncenter_db_url: a\n", ConfigError::Missing(ConfigKey::ReportDuration), "get report_duration from config failed"),
        ("port: 'p'\ncenter_db_url: a\nreport_duration: soon\n", ConfigError::Missing(ConfigKey::ReportDuration), "get report_duration from config failed"),
        ("port: 'p'\ncenter_db_url: a\nreport_duration: -1\n", ConfigError::Negative(ConfigKey::ReportDuration), "get report_duration from config failed: below zero"),
    ];
    for (text, error, message) in cases {
        let got = read_rsu_cfg(text, "h").unwrap_err();
        assert_eq!(got, error);
        assert_eq!(got.message(), message);
    }
    let got = read_rsu_cfg("port: [1", "h").unwrap_err();
    assert!(matches!(got, ConfigError::Malformed { .. }));
    assert!(got.message().starts_with("read config failed: "));
}

#[test]
fn default_supervisor_settings() {
    let text = generate_rsu_cfg().unwrap();
    assert_eq!(
        read_rsu_cfg(&text, "h"),
        Ok(RsuConfig { port: "61111".to_string(), center_db_url: "".to_string(), report_duration: 1 })
    );
}

#[test]
fn vehicle_settings() {
    let text = "vehicle_status_zenoh_path: '/demo/dds/rt/current_pose'\ncenter_db_url: 'http://127.0.0.1/v'\ninterval: 1000\n";
    assert_eq!(
        read_vehicle_cfg(text, "10.0.0.1"),
        Ok(VehicleConfig {
            vehicle_status_zenoh_path: "/demo/dds/rt/current_pose".to_string(),
            center_db_url: "http://10.0.0.1/v".to_string(),
            interval: 1000
        })
    );
    assert_eq!(
        read_vehicle_cfg("center_db_url: a\ninterval: 1\n", "h"),
        Err(ConfigError::Missing(ConfigKey::VehicleStatusZenohPath))
    );
    assert_eq!(
        read_vehicle_cfg("vehicle_status_zenoh_path: a\ninterval: 1\n", "h"),
        Err(ConfigError::Missing(ConfigKey::CenterDbUrl))
    );
    assert_eq!(
        read_vehicle_cfg("vehicle_status_zenoh_path: a\ncenter_db_url: b\n", "h"),
        Err(ConfigError::Missing(ConfigKey::Interval))
    );
    assert_eq!(
        read_vehicle_cfg("vehicle_status_zenoh_path: a\ncenter_db_url: b\ninterval: -5\n", "h"),
        Err(ConfigError::Negative(ConfigKey::Interval))
    );
    assert_eq!(read_vehicle_cfg("", "h"), Err(ConfigError::NoDocument));
}

#[test]
fn default_vehicle_settings() {
    let text = generate_vehicle_cfg().unwrap();
    assert_eq!(
        read_vehicle_cfg(&text, "h"),
        Ok(VehicleConfig {
            vehicle_status_zenoh_path: "/demo/dds/rt/current_pose".to_string(),
            center_db_url: "http://ip:port/rsu/rsu_id/vehicle/status/".to_string(),
            interval: 1000
        })
    );
}

#[test]
fn scenario_traffic_light_settings_at_the_start() {
    let config = read_config(TRAFFIC, "10.9.8.7").unwrap();
    assert_eq!(config.road_id, "1111111");
    assert_eq!(config.port, "8081");
    assert_eq!(config.center_db_url, "http://10.9.8.7:8000/rsu/rsu_id/traffic_light/status/");
    assert_eq!(
        config.state.durations,
        LightDuration { green: 7, red: 10, yellow: 3, unknown: -1 }
    );
    assert_eq!(config.state.groups.len(), 2);
    assert_eq!(config.state.groups[0].name, "group1");
    assert_eq!(config.state.groups[0].lights, vec!["A".to_string(), "B".to_string()]);
    assert_eq!(config.state.groups[0].status, status(LightColor::RED, 10));
    assert_eq!(config.state.groups[1].name, "group2");
    assert_eq!(config.state.groups[1].lights, vec!["C".to_string()]);
    assert_eq!(config.state.groups[1].status, status(LightColor::GREEN, 7));
}

#[test]
fn traffic_light_settings_with_another_master_and_colour() {
    let text = TRAFFIC.replace("master: \"group1\"", "master: \"group2\"").replace("color: 1", "color: 2");
    let config = read_config(&text, "h").unwrap();
    assert_eq!(config.state.groups[0].status, status(LightColor::RED, 10));
    assert_eq!(config.state.groups[1].status, status(LightColor::GREEN, 7));
    let text = TRAFFIC.replace("color: 1", "color: 9");
    let config = read_config(&text, "h").unwrap();
    assert_eq!(config.state.groups[0].status, status(LightColor::UNKNOWN, -1));
    assert_eq!(config.state.groups[1].status, status(LightColor::UNKNOWN, -1));
    let text = TRAFFIC.replace("master: \"group1\"", "master: \"nobody\"");
    let config = read_config(&text, "h").unwrap();
    assert_eq!(config.state.groups[0].status, status(LightColor::GREEN, 7));
    assert_eq!(config.state.groups[1].status, status(LightColor::GREEN, 7));
}

#[test]
fn traffic_light_settings_that_are_missing_or_wrong() {
    let cases: Vec<(&str, &str, ConfigKey)> = vec![
        ("road_id: \"1111111\"", "road_id: 1111111", ConfigKey::RoadId),
        ("center_db_url: ", "center_db: ", ConfigKey::CenterDbUrl),
        ("port: '8081'", "port: 8081", ConfigKey::Port),
        ("    green: 7\n", "", ConfigKey::DurationGreen),
        ("    red: 10", "    red: ten", ConfigKey::DurationRed),
        ("    yellow: 3", "    yellow: 3.5", ConfigKey::DurationYellow),
        ("    unknown: -1", "    unknown: ~", ConfigKey::DurationUnknown),
        ("color: 1", "color: red", ConfigKey::Color),
        ("master: \"group1\"", "master: 1", ConfigKey::Master),
        ("group1: [\"A\", \"B\"]", "1: [\"A\", \"B\"]", ConfigKey::GroupName),
        ("group2: [\"C\"]", "group2: \"C\"", ConfigKey::LightIdList),
        ("[\"A\", \"B\"]", "[\"A\", 2]", ConfigKey::LightId),
    ];
    for (from, to, key) in cases {
        assert!(TRAFFIC.contains(from));
        let text = TRAFFIC.replace(from, to);
        assert_eq!(read_config(&text, "h").unwrap_err(), ConfigError::Missing(key));
    }
    let text = TRAFFIC.replace("light_id_group: {", "groups: {");
    assert_eq!(
        read_config(&text, "h").unwrap_err(),
        ConfigError::Missing(ConfigKey::LightIdGroup)
    );
    assert_eq!(read_config("", "h").unwrap_err(), ConfigError::NoDocument);
    assert!(matches!(read_config("{", "h").unwrap_err(), ConfigError::Malformed { .. }));
}

#[test]
fn the_first_missing_setting_decides() {
    assert_eq!(
        read_config("port: '1'\n", "h").unwrap_err(),
        ConfigError::Missing(ConfigKey::RoadId)
    );
    assert_eq!(
        read_config("road_id: 'r'\ncenter_db_url: 'u'\nport: 'p'\ncolor: 1\n", "h").unwrap_err(),
        ConfigError::Missing(ConfigKey::DurationGreen)
    );
}

#[test]
fn default_traffic_light_settings() {
    let text = generate_traffic_cfg().unwrap();
    let config = read_config(&text, "h").unwrap();
    assert_eq!(config.port, "8081");
    assert_eq!(config.road_id, "1111111");
    assert_eq!(config.center_db_url, "http://IP:PORT/rsu/rsu_id/traffic_light/status/");
    assert_eq!(
        config.state.durations,
        LightDuration { green: 7, red: 10, yellow: 3, unknown: -1 }
    );
    assert_eq!(config.state.groups.len(), 2);
    assert_eq!(config.state.groups[0].name, "group1");
    assert_eq!(config.state.groups[0].lights, vec!["light_1".to_string(), "light_2".to_string()]);
    assert_eq!(config.state.groups[0].status, status(LightColor::RED, 10));
    assert_eq!(config.state.groups[1].name, "group2");
    assert_eq!(config.state.groups[1].lights, vec!["light_3".to_string(), "light_4".to_string()]);
    assert_eq!(config.state.groups[1].status, status(LightColor::GREEN, 7));
}

#[test]
fn settings_from_a_document_written_by_hand() {
    let doc = hash_node(vec![
        (text_node("port"), text_node("1")),
        (text_node("center_db_url"), text_node("127.0.0.1")),
        (text_node("report_duration"), YamlNode::Integer(0)),
    ]);
    assert_eq!(
        rsu_cfg_from_document(&doc, "::1"),
        Ok(RsuConfig { port: "1".to_string(), center_db_url: "::1".to_string(), report_duration: 0 })
    );
    assert_eq!(
        traffic_cfg_from_document(&doc, "::1").unwrap_err(),
        ConfigError::Missing(ConfigKey::RoadId)
    );
}

#[test]
fn read_document_hands_out_the_first_document() {
    assert_eq!(read_document("---\na\n---\nb\n").unwrap(), YamlNode::Str("a".to_string()));
    assert_eq!(read_document("").unwrap_err(), ConfigError::NoDocument);
}

#[test]
fn labels_of_the_settings() {
    assert_eq!(ConfigKey::DurationGreen.label(), "duration-green");
    assert_eq!(ConfigKey::VehicleStatusZenohPath.label(), "vehicle_status_zenoh_path");
    assert_eq!(ConfigKey::LightIdList.label(), "lgt_id_list");
}
