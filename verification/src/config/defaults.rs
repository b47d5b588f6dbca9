//! The configurations that are written where a file is missing.

use crate::yaml::{
    array_node, emit_tree, entry_trees_of, hash_node, text_node, trees_of, yaml_text, YamlNode,
    YamlTree,
};
use vstd::prelude::*;

verus! {

/// The document that a fresh configuration of the supervisor starts with.
pub open spec fn default_rsu_tree() -> YamlTree {
    YamlTree::Hash(
        seq![
            (YamlTree::Str("port"@), YamlTree::Str("61111"@)),
            (YamlTree::Str("center_db_url"@), YamlTree::Str(""@)),
            (YamlTree::Str("report_duration"@), YamlTree::Integer(1)),
        ],
    )
}

/// The text that a fresh configuration of the supervisor starts with.
pub fn generate_rsu_cfg() -> (emitted: Result<String, String>)
    ensures
        match emitted {
            Ok(text) => text@ == yaml_text(default_rsu_tree()),
            Err(_) => false,
        },
{
    let mut entries: Vec<(YamlNode, YamlNode)> = Vec::new();
    entries.push((text_node("port"), text_node("61111")));
    entries.push((text_node("center_db_url"), text_node("")));
    entries.push((text_node("report_duration"), YamlNode::Integer(1)));
    let doc = hash_node(entries);
    proof {
        assert(entry_trees_of(entries@) =~= default_rsu_tree()->Hash_0);
        reveal_with_fuel(YamlTree::keys_are_unique, 2);
        reveal_strlit("port");
        reveal_strlit("center_db_url");
        reveal_strlit("report_duration");
        let keys = default_rsu_tree()->Hash_0;
        assert(keys[0].0->Str_0.len() == 4);
        assert(keys[1].0->Str_0.len() == 13);
        assert(keys[2].0->Str_0.len() == 15);
    }
    emit_tree(&doc)
}

/// The document that a fresh configuration of the vehicle-status plugin
/// starts with.
pub open spec fn default_vehicle_tree() -> YamlTree {
    YamlTree::Hash(
        seq![
            (
                YamlTree::Str("vehicle_status_zenoh_path"@),
                YamlTree::Str("/demo/dds/rt/current_pose"@),
            ),
            (
                YamlTree::Str("center_db_url"@),
                YamlTree::Str("http://ip:port/rsu/rsu_id/vehicle/status/"@),
            ),
            (YamlTree::Str("interval"@), YamlTree::Integer(1000)),
        ],
    )
}

/// The text that a fresh configuration of the vehicle-status plugin starts
/// with.
pub fn generate_vehicle_cfg() -> (emitted: Result<String, String>)
    ensures
        match emitted {
            Ok(text) => text@ == yaml_text(default_vehicle_tree()),
            Err(_) => false,
        },
{
    let mut entries: Vec<(YamlNode, YamlNode)> = Vec::new();
    entries.push(
        (text_node("vehicle_status_zenoh_path"), text_node("/demo/dds/rt/current_pose")),
    );
    entries.push(
        (text_node("center_db_url"), text_node("http://ip:port/rsu/rsu_id/vehicle/status/")),
    );
    entries.push((text_node("interval"), YamlNode::Integer(1000)));
    let doc = hash_node(entries);
    proof {
        assert(entry_trees_of(entries@) =~= default_vehicle_tree()->Hash_0);
        reveal_with_fuel(YamlTree::keys_are_unique, 2);
        reveal_strlit("vehicle_status_zenoh_path");
        reveal_strlit("center_db_url");
        reveal_strlit("interval");
        let keys = default_vehicle_tree()->Hash_0;
        assert(keys[0].0->Str_0.len() == 25);
        assert(keys[1].0->Str_0.len() == 13);
        assert(keys[2].0->Str_0.len() == 8);
    }
    emit_tree(&doc)
}

/// The two groups that a fresh configuration of the traffic-light plugin
/// starts with.
pub open spec fn default_groups_tree() -> YamlTree {
    YamlTree::Hash(
        seq![
            (
                YamlTree::Str("group1"@),
                YamlTree::Array(seq![YamlTree::Str("light_1"@), YamlTree::Str("light_2"@)]),
            ),
            (
                YamlTree::Str("group2"@),
                YamlTree::Array(seq![YamlTree::Str("light_3"@), YamlTree::Str("light_4"@)]),
            ),
        ],
    )
}

/// The duration table that a fresh configuration of the traffic-light
/// plugin starts with.
pub open spec fn default_durations_tree() -> YamlTree {
    YamlTree::Hash(
        seq![
            (YamlTree::Str("green"@), YamlTree::Integer(7)),
            (YamlTree::Str("yellow"@), YamlTree::Integer(3)),
            (YamlTree::Str("red"@), YamlTree::Integer(10)),
            (YamlTree::Str("unknown"@), YamlTree::Integer(-1i64)),
        ],
    )
}

/// The document that a fresh configuration of the traffic-light plugin
/// starts with.
pub open spec fn default_traffic_tree() -> YamlTree {
    YamlTree::Hash(
        seq![
            (YamlTree::Str("port"@), YamlTree::Str("8081"@)),
            (YamlTree::Str("road_id"@), YamlTree::Str("1111111"@)),
            (YamlTree::Str("light_id_group"@), default_groups_tree()),
            (YamlTree::Str("master"@), YamlTree::Str("group1"@)),
            (YamlTree::Str("color"@), YamlTree::Integer(1)),
            (YamlTree::Str("duration"@), default_durations_tree()),
            (
                YamlTree::Str("center_db_url"@),
                YamlTree::Str("http://IP:PORT/rsu/rsu_id/traffic_light/status/"@),
            ),
        ],
    )
}

/// The two groups of a fresh configuration.
fn default_groups() -> (node: YamlNode)
    ensures
        node@ == default_groups_tree(),
        node@.keys_are_unique(),
{
    let mut first: Vec<YamlNode> = Vec::new();
    first.push(text_node("light_1"));
    first.push(text_node("light_2"));
    let mut second: Vec<YamlNode> = Vec::new();
    second.push(text_node("light_3"));
    second.push(text_node("light_4"));
    let mut groups: Vec<(YamlNode, YamlNode)> = Vec::new();
    assert(trees_of(first@) =~= seq![YamlTree::Str("light_1"@), YamlTree::Str("light_2"@)]);
    assert(trees_of(second@) =~= seq![YamlTree::Str("light_3"@), YamlTree::Str("light_4"@)]);
    groups.push((text_node("group1"), array_node(first)));
    groups.push((text_node("group2"), array_node(second)));
    let node = hash_node(groups);
    proof {
        assert(entry_trees_of(groups@) =~= default_groups_tree()->Hash_0);
        reveal_with_fuel(YamlTree::keys_are_unique, 3);
        reveal_strlit("group1");
        reveal_strlit("group2");
        assert("group1"@[5] != "group2"@[5]);
    }
    node
}

/// The duration table of a fresh configuration.
fn default_durations() -> (node: YamlNode)
    ensures
        node@ == default_durations_tree(),
        node@.keys_are_unique(),
{
    let mut table: Vec<(YamlNode, YamlNode)> = Vec::new();
    table.push((text_node("green"), YamlNode::Integer(7)));
    table.push((text_node("yellow"), YamlNode::Integer(3)));
    table.push((text_node("red"), YamlNode::Integer(10)));
    table.push((text_node("unknown"), YamlNode::Integer(-1)));
    let node = hash_node(table);
    proof {
        assert(entry_trees_of(table@) =~= default_durations_tree()->Hash_0);
        reveal_with_fuel(YamlTree::keys_are_unique, 2);
        reveal_strlit("green");
        reveal_strlit("yellow");
        reveal_strlit("red");
        reveal_strlit("unknown");
        let keys = default_durations_tree()->Hash_0;
        assert(keys[0].0->Str_0.len() == 5);
        assert(keys[1].0->Str_0.len() == 6);
        assert(keys[2].0->Str_0.len() == 3);
        assert(keys[3].0->Str_0.len() == 7);
    }
    node
}

/// The text that a fresh configuration of the traffic-light plugin starts
/// with.
pub fn generate_traffic_cfg() -> (emitted: Result<String, String>)
    ensures
        match emitted {
            Ok(text) => text@ == yaml_text(default_traffic_tree()),
            Err(_) => false,
        },
{
    let mut entries: Vec<(YamlNode, YamlNode)> = Vec::new();
    entries.push((text_node("port"), text_node("8081")));
    entries.push((text_node("road_id"), text_node("1111111")));
    entries.push((text_node("light_id_group"), default_groups()));
    entries.push((text_node("master"), text_node("group1")));
    entries.push((text_node("color"), YamlNode::Integer(1)));
    entries.push((text_node("duration"), default_durations()));
    entries.push(
        (
            text_node("center_db_url"),
            text_node("http://IP:PORT/rsu/rsu_id/traffic_light/status/"),
        ),
    );
    let doc = hash_node(entries);
    proof {
        assert(entry_trees_of(entries@) =~= default_traffic_tree()->Hash_0);
        reveal_with_fuel(YamlTree::keys_are_unique, 2);
        reveal_strlit("port");
        reveal_strlit("road_id");
        reveal_strlit("light_id_group");
        reveal_strlit("master");
        reveal_strlit("color");
        reveal_strlit("duration");
        reveal_strlit("center_db_url");
        let keys = default_traffic_tree()->Hash_0;
        assert(keys[0].0->Str_0.len() == 4);
        assert(keys[1].0->Str_0.len() == 7);
        assert(keys[2].0->Str_0.len() == 14);
        assert(keys[3].0->Str_0.len() == 6);
        assert(keys[4].0->Str_0.len() == 5);
        assert(keys[5].0->Str_0.len() == 8);
        assert(keys[6].0->Str_0.len() == 13);
        assert(keys[2].1.keys_are_unique());
        assert(keys[5].1.keys_are_unique());
    }
    emit_tree(&doc)
}

} // verus!
