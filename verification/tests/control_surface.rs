use rsu::control::{
    begin, decode_body, decode_command, decode_rule_change, read_command, refuse, respond,
    serve_rule_change, Command, Endpoint, Field, RequestError, ResponseData, RuleChange,
};
use rsu::json::{parse_json, JsonNode, JsonNumber};
use rsu::light::{Intersection, LightColor, LightDuration, LightStatus};
use rsu::plugin::{PluginError, PluginMgr, Step};

fn text(s: &str) -> JsonNode {
    JsonNode::Str(s.to_string())
}

fn number(n: u64) -> JsonNode {
    JsonNode::Number(JsonNumber {
        unsigned: Some(n),
        signed: if n <= i64::MAX as u64 { Some(n as i64) } else { None },
    })
}

fn object(members: Vec<(&str, JsonNode)>) -> JsonNode {
    JsonNode::Object(members.into_iter().map(|(k, v)| (k.to_string(), v)).collect())
}

#[test]
fn parse_json_reads_a_document() {
    let doc = parse_json("{\"b\": [1, -2, 1.5, null], \"a\": {\"t\": true, \"s\": \"x\"}}").unwrap();
    assert_eq!(
        doc,
        object(vec![
            ("a", object(vec![("s", text("x")), ("t", JsonNode::Bool(true))])),
            (
                "b",
                JsonNode::Array(vec![
                    number(1),
                    JsonNode::Number(JsonNumber { unsigned: None, signed: Some(-2) }),
                    JsonNode::Number(JsonNumber { unsigned: None, signed: None }),
                    JsonNode::Null,
                ])
            ),
        ])
    );
}

#[test]
fn parse_json_reads_large_numbers() {
    assert_eq!(parse_json("18446744073709551615").unwrap(), number(u64::MAX));
    assert_eq!(
        parse_json("-9223372036854775808").unwrap(),
        JsonNode::Number(JsonNumber { unsigned: None, signed: Some(i64::MIN) })
    );
}

#[test]
fn parse_json_rejects_what_is_no_json() {
    assert!(!parse_json("{name: tl}").unwrap_err().is_empty());
    assert!(parse_json("").is_err());
    assert!(parse_json("{\"a\": 1,}").is_err());
}

#[test]
fn readings_of_a_json_node() {
    let doc = object(vec![("name", text("tl")), ("active", JsonNode::Bool(false)), ("n", number(3))]);
    assert!(doc.is_object());
    assert!(!text("x").is_object());
    assert_eq!(doc.get("name"), Some(&text("tl")));
    assert_eq!(doc.get("missing"), None);
    assert_eq!(text("x").get("name"), None);
    assert_eq!(doc.get("name").unwrap().as_str(), Some(&"tl".to_string()));
    assert_eq!(doc.get("active").unwrap().as_bool(), Some(false));
    assert_eq!(doc.get("n").unwrap().as_u64(), Some(3));
    assert_eq!(doc.get("n").unwrap().as_str(), None);
    assert_eq!(doc.get("name").unwrap().as_bool(), None);
    assert_eq!(doc.get("name").unwrap().as_u64(), None);
    assert_eq!(JsonNode::Null.as_u64(), None);
}

#[test]
fn body_is_percent_decoded_before_it_is_read() {
    let body = "%7B%22name%22%3A%20%22traffic_light%22%2C%20%22active%22%3A%20true%7D";
    assert_eq!(
        decode_body(body).unwrap(),
        object(vec![("active", JsonNode::Bool(true)), ("name", text("traffic_light"))])
    );
    assert_eq!(decode_body("%5b1%5D").unwrap(), JsonNode::Array(vec![number(1)]));
    assert_eq!(decode_body("\"50%\"").unwrap(), text("50%"));
    assert_eq!(decode_body("\"%zz%4\"").unwrap(), text("%zz%4"));
    assert_eq!(decode_body("\"%C3%A9\"").unwrap(), text("é"));
}

#[test]
fn body_that_is_no_utf8_or_no_json_is_turned_down() {
    let error = decode_body("%ff").unwrap_err();
    assert!(matches!(error, RequestError::NotUtf8 { .. }));
    assert!(error.message().starts_with("param decode error: "));
    let error = decode_body("%7Bname").unwrap_err();
    assert!(matches!(error, RequestError::NotJson { .. }));
    assert!(error.message().starts_with("param parse into json wrong: "));
}

#[test]
fn switch_command() {
    let body = object(vec![("name", text("tl")), ("active", JsonNode::Bool(true))]);
    assert_eq!(
        decode_command(Endpoint::Plugin, &body),
        Ok(Command::Switch { name: "tl".to_string(), active: true })
    );
    assert_eq!(
        read_command(Endpoint::Plugin, "{\"name\":\"vs\",\"active\":false}"),
        Ok(Command::Switch { name: "vs".to_string(), active: false })
    );
}

#[test]
fn add_command() {
    assert_eq!(
        read_command(
            Endpoint::PluginAdd,
            "{\"name\":\"tl\",\"path\":\"/home/traffic_light\",\"active\":true}"
        ),
        Ok(Command::Add {
            name: "tl".to_string(),
            path: "/home/traffic_light".to_string(),
            active: true
        })
    );
}

#[test]
fn remove_command() {
    assert_eq!(
        read_command(Endpoint::PluginRemove, "{\"name\":\"tl\",\"extra\":1}"),
        Ok(Command::Remove { name: "tl".to_string() })
    );
}

#[test]
fn command_errors_in_order() {
    let cases: Vec<(Endpoint, &str, RequestError, &str)> = vec![
        (
            Endpoint::Plugin,
            "[1]",
            RequestError::NotObject(Endpoint::Plugin),
            "params are wrong, ex: {\"name\": \"traffic_light\", \"active\": true}",
        ),
        (
            Endpoint::PluginAdd,
            "3",
            RequestError::NotObject(Endpoint::PluginAdd),
            "params are wrong, ex: {\"name\": \"traffic_light\", \"path\": \"/home/traffic_light\", \"active\": true}",
        ),
        (
            Endpoint::PluginRemove,
            "\"tl\"",
            RequestError::NotObject(Endpoint::PluginRemove),
            "params are wrong, ex: {\"name\": \"traffic_light\"}",
        ),
        (Endpoint::Plugin, "{}", RequestError::Missing(Field::Name), "need param: name"),
        (
            Endpoint::Plugin,
            "{\"name\":\"tl\"}",
            RequestError::Missing(Field::Active),
            "need param: active",
        ),
        (
            Endpoint::PluginAdd,
            "{\"name\":\"tl\",\"active\":true}",
            RequestError::Missing(Field::Path),
            "need param: path",
        ),
        (
            Endpoint::PluginAdd,
            "{\"name\":\"tl\",\"path\":\"p\"}",
            RequestError::Missing(Field::Active),
            "need param: active",
        ),
        (
            Endpoint::PluginRemove,
            "{\"name\":7}",
            RequestError::WrongKind(Field::Name),
            "param name is of the wrong kind",
        ),
        (
            Endpoint::Plugin,
            "{\"name\":\"tl\",\"active\":\"yes\"}",
            RequestError::WrongKind(Field::Active),
            "param active is of the wrong kind",
        ),
        (
            Endpoint::PluginAdd,
            "{\"name\":\"tl\",\"path\":null,\"active\":1}",
            RequestError::WrongKind(Field::Path),
            "param path is of the wrong kind",
        ),
    ];
    for (endpoint, body, error, message) in cases {
        let got = read_command(endpoint, body).unwrap_err();
        assert_eq!(got, error);
        assert_eq!(got.message(), message);
        assert_eq!(refuse(&got), ResponseData { status: -1, message: message.to_string() });
    }
}

#[test]
fn responses_to_commands() {
    let switch = Command::Switch { name: "tl".to_string(), active: true };
    let add = Command::Add { name: "tl".to_string(), path: "p".to_string(), active: true };
    let remove = Command::Remove { name: "tl".to_string() };
    let ok: Result<String, PluginError> = Ok("plugin[tl] is running".to_string());
    let failed: Result<String, PluginError> = Err(PluginError::Unknown { name: "tl".to_string() });
    assert_eq!(
        respond(&switch, &ok),
        ResponseData { status: 1, message: "plugin[tl] is running".to_string() }
    );
    assert_eq!(
        respond(&add, &ok),
        ResponseData { status: 1, message: "add plugin tl successful".to_string() }
    );
    assert_eq!(
        respond(&remove, &ok),
        ResponseData { status: 1, message: "remove plugin tl successful".to_string() }
    );
    assert_eq!(
        respond(&switch, &failed),
        ResponseData {
            status: -1,
            message: "get plugin[tl] info failed, plugin does not exist".to_string()
        }
    );
    assert_eq!(
        respond(&add, &failed),
        ResponseData {
            status: -1,
            message: "add plugin tl failed, error: get plugin[tl] info failed, plugin does not exist"
                .to_string()
        }
    );
    assert_eq!(
        respond(&remove, &failed),
        ResponseData {
            status: -1,
            message:
                "remove plugin tl failed, error: get plugin[tl] info failed, plugin does not exist"
                    .to_string()
        }
    );
}

#[test]
fn rule_change_request() {
    let body = parse_json("{\"lgt_id\":\"A\",\"color\":2,\"remain\":4}").unwrap();
    assert_eq!(
        decode_rule_change(&body),
        Ok(RuleChange { lgt_id: "A".to_string(), color: 2, remain: 4 })
    );
}

#[test]
fn rule_change_errors_in_order() {
    let cases: Vec<(&str, RequestError, &str)> = vec![
        ("{}", RequestError::Missing(Field::Remain), "get param error, remain is None"),
        ("[]", RequestError::Missing(Field::Remain), "get param error, remain is None"),
        (
            "{\"remain\":-1,\"color\":1,\"lgt_id\":\"A\"}",
            RequestError::WrongKind(Field::Remain),
            "get param error, remain is None",
        ),
        (
            "{\"remain\":9223372036854775808,\"color\":1,\"lgt_id\":\"A\"}",
            RequestError::WrongKind(Field::Remain),
            "get param error, remain is None",
        ),
        (
            "{\"remain\":1,\"lgt_id\":\"A\"}",
            RequestError::Missing(Field::Color),
            "get param error, color is None",
        ),
        (
            "{\"remain\":1,\"color\":1.5,\"lgt_id\":\"A\"}",
            RequestError::WrongKind(Field::Color),
            "get param error, color is None",
        ),
        (
            "{\"remain\":1,\"color\":1}",
            RequestError::Missing(Field::LgtId),
            "get param error, lgt_id is None",
        ),
        (
            "{\"remain\":1,\"color\":1,\"lgt_id\":5}",
            RequestError::WrongKind(Field::LgtId),
            "get param error, lgt_id is None",
        ),
    ];
    for (body, error, message) in cases {
        let got = decode_rule_change(&parse_json(body).unwrap()).unwrap_err();
        assert_eq!(got, error);
        assert_eq!(got.message(), message);
    }
    assert_eq!(
        decode_rule_change(&parse_json("{\"remain\":9223372036854775807,\"color\":1,\"lgt_id\":\"A\"}").unwrap()),
        Ok(RuleChange { lgt_id: "A".to_string(), color: 1, remain: i64::MAX })
    );
}

fn crossing() -> Intersection {
    let mut state =
        Intersection::new(LightDuration { green: 7, red: 10, yellow: 3, unknown: -1 });
    state.add_group(
        "group1".to_string(),
        vec!["A".to_string(), "B".to_string()],
        true,
        LightColor::RED,
    );
    state.add_group("group2".to_string(), vec!["C".to_string()], false, LightColor::RED);
    state
}

#[test]
fn scenario_rule_change_request_after_five_seconds() {
    let mut state = crossing();
    for _ in 0..5 {
        state.tick();
    }
    let response = serve_rule_change(&mut state, "%7B%22lgt_id%22:%22A%22,%22color%22:2,%22remain%22:4%7D");
    assert_eq!(
        response,
        ResponseData { status: 1, message: "change traffic light successful".to_string() }
    );
    assert_eq!(state.durations, LightDuration { green: 4, red: 10, yellow: 3, unknown: -1 });
    assert_eq!(state.groups[0].status, LightStatus { color: LightColor::GREEN, counter: 4 });
    assert_eq!(state.groups[1].status, LightStatus { color: LightColor::GREEN, counter: 2 });
}

#[test]
fn rule_change_request_that_cannot_be_read_changes_nothing() {
    let mut state = crossing();
    let before = state.clone();
    let response = serve_rule_change(&mut state, "{\"lgt_id\":\"A\",\"color\":2}");
    assert_eq!(
        response,
        ResponseData { status: -1, message: "get param error, remain is None".to_string() }
    );
    assert_eq!(state, before);
    let response = serve_rule_change(&mut state, "not json");
    assert_eq!(response.status, -1);
    assert!(response.message.starts_with("param parse into json wrong: "));
    assert_eq!(state, before);
}

#[test]
fn keys_of_the_parameters() {
    assert_eq!(Field::Name.key(), "name");
    assert_eq!(Field::Path.key(), "path");
    assert_eq!(Field::Active.key(), "active");
    assert_eq!(Field::Remain.key(), "remain");
    assert_eq!(Field::Color.key(), "color");
    assert_eq!(Field::LgtId.key(), "lgt_id");
}

#[test]
fn commands_reach_the_plugin_manager() {
    let mut mgr = PluginMgr::new("p", "plugins: {}\n").unwrap();
    let add = Command::Add { name: "tl".to_string(), path: "libtl.so".to_string(), active: false };
    assert!(matches!(begin(&mut mgr, &add), Step::Done { reply: Ok(_), .. }));
    assert!(mgr.contains("tl"));
    let start = Command::Switch { name: "tl".to_string(), active: true };
    assert_eq!(
        begin(&mut mgr, &start),
        Step::Launch { name: "tl".to_string(), path: "libtl.so".to_string() }
    );
    mgr.launched(Ok(()));
    assert!(mgr.is_running("tl"));
    let stop = Command::Switch { name: "tl".to_string(), active: false };
    assert_eq!(begin(&mut mgr, &stop), Step::Halt { name: "tl".to_string() });
    mgr.halted(Ok(0));
    assert!(!mgr.is_running("tl"));
    let remove = Command::Remove { name: "tl".to_string() };
    assert!(matches!(begin(&mut mgr, &remove), Step::Done { reply: Ok(_), .. }));
    assert!(!mgr.contains("tl"));
}
