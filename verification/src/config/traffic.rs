//! The settings of the traffic-light plugin, and the engine's state at the
//! start.

use crate::config::{
    first_document, local_host, number_setting, read_document, read_number, read_text,
    text_setting, with_host, ConfigError, ConfigErrorView, ConfigKey,
};
use crate::light::{
    ids_of, initial_status, GroupView, Intersection, IntersectionView, LightColor, LightDuration,
};
use crate::text::replaced;
use crate::yaml::{entry_trees_of, trees_of, YamlNode, YamlTree};
use vstd::prelude::*;

verus! {

/// The ids that the first `n` items of a YAML sequence stand for. The
/// first item that is no string decides the error.
pub open spec fn light_ids_upto(items: Seq<YamlTree>, n: int) -> Result<
    Seq<Seq<char>>,
    ConfigErrorView,
>
    decreases n,
{
    if n <= 0 {
        Ok(Seq::empty())
    } else {
        match light_ids_upto(items, n - 1) {
            Err(error) => Err(error),
            Ok(ids) => match items[n - 1].as_str() {
                None => Err(ConfigErrorView::Missing(ConfigKey::LightId)),
                Some(id) => Ok(ids.push(id)),
            },
        }
    }
}

/// The group that a pair of the `light_id_group` mapping stands for: the
/// key is the group's name and the value the sequence of its lights. The
/// group named `master` starts on `color`, any other on the inverse phase.
pub open spec fn group_of(
    key: YamlTree,
    value: YamlTree,
    durations: LightDuration,
    color: LightColor,
    master: Seq<char>,
) -> Result<GroupView, ConfigErrorView> {
    match key.as_str() {
        None => Err(ConfigErrorView::Missing(ConfigKey::GroupName)),
        Some(name) => match value.as_vec() {
            None => Err(ConfigErrorView::Missing(ConfigKey::LightIdList)),
            Some(items) => match light_ids_upto(items, items.len() as int) {
                Err(error) => Err(error),
                Ok(lights) => Ok(
                    GroupView {
                        name,
                        lights,
                        status: initial_status(durations, color, name == master),
                    },
                ),
            },
        },
    }
}

/// The groups that the first `n` pairs of the `light_id_group` mapping
/// stand for, in order. The first pair that stands for no group decides the
/// error.
pub open spec fn groups_upto(
    pairs: Seq<(YamlTree, YamlTree)>,
    n: int,
    durations: LightDuration,
    color: LightColor,
    master: Seq<char>,
) -> Result<Seq<GroupView>, ConfigErrorView>
    decreases n,
{
    if n <= 0 {
        Ok(Seq::empty())
    } else {
        match groups_upto(pairs, n - 1, durations, color, master) {
            Err(error) => Err(error),
            Ok(groups) => match group_of(pairs[n - 1].0, pairs[n - 1].1, durations, color, master) {
                Err(error) => Err(error),
                Ok(group) => Ok(groups.push(group)),
            },
        }
    }
}

/// The duration table under `duration`. The durations are looked for in
/// the order green, red, yellow, unknown.
pub open spec fn durations_of(doc: YamlTree) -> Result<LightDuration, ConfigErrorView> {
    let table = doc.at("duration"@);
    match number_setting(table, "green"@, ConfigKey::DurationGreen) {
        Err(error) => Err(error),
        Ok(green) => match number_setting(table, "red"@, ConfigKey::DurationRed) {
            Err(error) => Err(error),
            Ok(red) => match number_setting(table, "yellow"@, ConfigKey::DurationYellow) {
                Err(error) => Err(error),
                Ok(yellow) => match number_setting(table, "unknown"@, ConfigKey::DurationUnknown) {
                    Err(error) => Err(error),
                    Ok(unknown) => Ok(LightDuration { green, red, yellow, unknown }),
                },
            },
        },
    }
}

/// The settings of the traffic-light plugin, with the engine in its
/// initial state.
#[derive(Debug)]
pub struct TrafficConfig {
    pub road_id: String,
    pub center_db_url: String,
    pub port: String,
    pub state: Intersection,
}

/// The plugin's settings with their texts as sequences of characters.
pub struct TrafficConfigView {
    pub road_id: Seq<char>,
    pub center_db_url: Seq<char>,
    pub port: Seq<char>,
    pub state: IntersectionView,
}

impl View for TrafficConfig {
    type V = TrafficConfigView;

    open spec fn view(&self) -> TrafficConfigView {
        TrafficConfigView {
            road_id: self.road_id@,
            center_db_url: self.center_db_url@,
            port: self.port@,
            state: self.state@,
        }
    }
}

/// The settings of the traffic-light plugin that a YAML document holds.
/// The settings are looked for in the order road_id, center_db_url, port,
/// the four durations, color, master, light_id_group and then group by
/// group; the first that is missing or of the wrong kind decides the error.
/// The URL names the host by `host_ip`. The group named by `master` starts
/// on the colour that `color` stands for with that colour's full duration;
/// every other group starts on the inverse phase.
pub open spec fn traffic_config_of(doc: YamlTree, host_ip: Seq<char>) -> Result<
    TrafficConfigView,
    ConfigErrorView,
> {
    match text_setting(doc, "road_id"@, ConfigKey::RoadId) {
        Err(error) => Err(error),
        Ok(road_id) => match text_setting(doc, "center_db_url"@, ConfigKey::CenterDbUrl) {
            Err(error) => Err(error),
            Ok(url) => match text_setting(doc, "port"@, ConfigKey::Port) {
                Err(error) => Err(error),
                Ok(port) => match durations_of(doc) {
                    Err(error) => Err(error),
                    Ok(durations) => match number_setting(doc, "color"@, ConfigKey::Color) {
                        Err(error) => Err(error),
                        Ok(code) => match text_setting(doc, "master"@, ConfigKey::Master) {
                            Err(error) => Err(error),
                            Ok(master) => match doc.at("light_id_group"@).as_hash() {
                                None => Err(ConfigErrorView::Missing(ConfigKey::LightIdGroup)),
                                Some(pairs) => match groups_upto(
                                    pairs,
                                    pairs.len() as int,
                                    durations,
                                    LightColor::spec_from_code(code as int),
                                    master,
                                ) {
                                    Err(error) => Err(error),
                                    Ok(groups) => Ok(
                                        TrafficConfigView {
                                            road_id,
                                            center_db_url: replaced(url, local_host(), host_ip),
                                            port,
                                            state: IntersectionView { durations, groups },
                                        },
                                    ),
                                },
                            },
                        },
                    },
                },
            },
        },
    }
}

/// Once an item has decided the error, later items change nothing.
proof fn lemma_ids_error_stays(items: Seq<YamlTree>, n: int, m: int)
    requires
        0 <= n <= m,
        light_ids_upto(items, n) is Err,
    ensures
        light_ids_upto(items, m) == light_ids_upto(items, n),
    decreases m - n,
{
    if n < m {
        lemma_ids_error_stays(items, n, m - 1);
    }
}

/// Once a pair has decided the error, later pairs change nothing.
proof fn lemma_groups_error_stays(
    pairs: Seq<(YamlTree, YamlTree)>,
    n: int,
    m: int,
    durations: LightDuration,
    color: LightColor,
    master: Seq<char>,
)
    requires
        0 <= n <= m,
        groups_upto(pairs, n, durations, color, master) is Err,
    ensures
        groups_upto(pairs, m, durations, color, master) == groups_upto(
            pairs,
            n,
            durations,
            color,
            master,
        ),
    decreases m - n,
{
    if n < m {
        lemma_groups_error_stays(pairs, n, m - 1, durations, color, master);
    }
}

/// Reads the ids of a group's lights.
fn read_light_ids(items: &Vec<YamlNode>) -> (read: Result<Vec<String>, ConfigError>)
    ensures
        match read {
            Ok(ids) => light_ids_upto(trees_of(items@), items@.len() as int) == Ok::<
                Seq<Seq<char>>,
                ConfigErrorView,
            >(ids_of(ids@)),
            Err(error) => light_ids_upto(trees_of(items@), items@.len() as int) == Err::<
                Seq<Seq<char>>,
                ConfigErrorView,
            >(error@),
        },
{
    let mut ids: Vec<String> = Vec::new();
    let mut i: usize = 0;
    assert(ids_of(ids@) =~= Seq::empty());
    while i < items.len()
        invariant
            i <= items.len(),
            light_ids_upto(trees_of(items@), i as int) == Ok::<Seq<Seq<char>>, ConfigErrorView>(
                ids_of(ids@),
            ),
        decreases items.len() - i,
    {
        assert(trees_of(items@)[i as int] == items[i as int]@);
        match items[i].as_str() {
            None => {
                proof {
                    lemma_ids_error_stays(trees_of(items@), i + 1, items@.len() as int);
                }
                return Err(ConfigError::Missing(ConfigKey::LightId));
            },
            Some(id) => {
                let ghost before = ids_of(ids@);
                ids.push(id.clone());
                assert(ids_of(ids@) =~= before.push(id@));
            },
        }
        i += 1;
    }
    Ok(ids)
}

/// Reads the duration table.
fn read_durations(doc: &YamlNode) -> (read: Result<LightDuration, ConfigError>)
    ensures
        match read {
            Ok(durations) => durations_of(doc@) == Ok::<LightDuration, ConfigErrorView>(durations),
            Err(error) => durations_of(doc@) == Err::<LightDuration, ConfigErrorView>(error@),
        },
{
    let nothing = YamlNode::BadValue;
    let table = match doc.lookup("duration") {
        Some(table) => table,
        None => &nothing,
    };
    let green = match read_number(table, "green", ConfigKey::DurationGreen) {
        Ok(seconds) => seconds,
        Err(error) => return Err(error),
    };
    let red = match read_number(table, "red", ConfigKey::DurationRed) {
        Ok(seconds) => seconds,
        Err(error) => return Err(error),
    };
    let yellow = match read_number(table, "yellow", ConfigKey::DurationYellow) {
        Ok(seconds) => seconds,
        Err(error) => return Err(error),
    };
    let unknown = match read_number(table, "unknown", ConfigKey::DurationUnknown) {
        Ok(seconds) => seconds,
        Err(error) => return Err(error),
    };
    Ok(LightDuration { green, red, yellow, unknown })
}

/// Reads the settings of the traffic-light plugin out of a YAML document
/// and sets the engine up in its initial state.
pub fn traffic_cfg_from_document(doc: &YamlNode, host_ip: &str) -> (read: Result<
    TrafficConfig,
    ConfigError,
>)
    ensures
        match read {
            Ok(config) => traffic_config_of(doc@, host_ip@) == Ok::<
                TrafficConfigView,
                ConfigErrorView,
            >(config@),
            Err(error) => traffic_config_of(doc@, host_ip@) == Err::<
                TrafficConfigView,
                ConfigErrorView,
            >(error@),
        },
{
    let road_id = match read_text(doc, "road_id", ConfigKey::RoadId) {
        Ok(road_id) => road_id,
        Err(error) => return Err(error),
    };
    let url = match read_text(doc, "center_db_url", ConfigKey::CenterDbUrl) {
        Ok(url) => url,
        Err(error) => return Err(error),
    };
    let port = match read_text(doc, "port", ConfigKey::Port) {
        Ok(port) => port,
        Err(error) => return Err(error),
    };
    let durations = match read_durations(doc) {
        Ok(durations) => durations,
        Err(error) => return Err(error),
    };
    let code = match read_number(doc, "color", ConfigKey::Color) {
        Ok(code) => code,
        Err(error) => return Err(error),
    };
    let color = LightColor::from_code(code);
    let master = match read_text(doc, "master", ConfigKey::Master) {
        Ok(master) => master,
        Err(error) => return Err(error),
    };
    let pairs = match doc.lookup("light_id_group") {
        Some(node) => match node.as_hash() {
            Some(pairs) => pairs,
            None => return Err(ConfigError::Missing(ConfigKey::LightIdGroup)),
        },
        None => return Err(ConfigError::Missing(ConfigKey::LightIdGroup)),
    };
    let mut state = Intersection::new(durations);
    let mut i: usize = 0;
    while i < pairs.len()
        invariant
            i <= pairs.len(),
            state@.durations == durations,
            color == LightColor::spec_from_code(code as int),
            text_setting(doc@, "road_id"@, ConfigKey::RoadId) == Ok::<Seq<char>, ConfigErrorView>(
                road_id@,
            ),
            text_setting(doc@, "center_db_url"@, ConfigKey::CenterDbUrl) == Ok::<
                Seq<char>,
                ConfigErrorView,
            >(url@),
            text_setting(doc@, "port"@, ConfigKey::Port) == Ok::<Seq<char>, ConfigErrorView>(
                port@,
            ),
            durations_of(doc@) == Ok::<LightDuration, ConfigErrorView>(durations),
            number_setting(doc@, "color"@, ConfigKey::Color) == Ok::<i64, ConfigErrorView>(code),
            text_setting(doc@, "master"@, ConfigKey::Master) == Ok::<Seq<char>, ConfigErrorView>(
                master@,
            ),
            doc@.at("light_id_group"@).as_hash() == Some(entry_trees_of(pairs@)),
            groups_upto(entry_trees_of(pairs@), i as int, durations, color, master@) == Ok::<
                Seq<GroupView>,
                ConfigErrorView,
            >(state@.groups),
        decreases pairs.len() - i,
    {
        let key = &pairs[i].0;
        let value = &pairs[i].1;
        assert(entry_trees_of(pairs@)[i as int] == (key@, value@));
        proof {
            if group_of(key@, value@, durations, color, master@) is Err {
                lemma_groups_error_stays(
                    entry_trees_of(pairs@),
                    i + 1,
                    pairs@.len() as int,
                    durations,
                    color,
                    master@,
                );
            }
        }
        let name = match key.as_str() {
            Some(name) => name,
            None => return Err(ConfigError::Missing(ConfigKey::GroupName)),
        };
        let items = match value.as_vec() {
            Some(items) => items,
            None => return Err(ConfigError::Missing(ConfigKey::LightIdList)),
        };
        let lights = match read_light_ids(items) {
            Ok(lights) => lights,
            Err(error) => return Err(error),
        };
        let is_master = *name == master;
        state.add_group(name.clone(), lights, is_master, color);
        i += 1;
    }
    Ok(TrafficConfig { road_id, center_db_url: with_host(url.as_str(), host_ip), port, state })
}

/// The settings of the traffic-light plugin that a YAML text holds in its
/// first document.
pub open spec fn traffic_config_of_text(text: Seq<char>, host_ip: Seq<char>) -> Result<
    TrafficConfigView,
    ConfigErrorView,
> {
    match first_document(text) {
        Err(error) => Err(error),
        Ok(doc) => traffic_config_of(doc, host_ip),
    }
}

/// Reads the settings of the traffic-light plugin out of the text of its
/// configuration file and sets the engine up in its initial state;
/// `host_ip` is the address under which the host is reached.
pub fn read_config(text: &str, host_ip: &str) -> (read: Result<TrafficConfig, ConfigError>)
    ensures
        match read {
            Ok(config) => traffic_config_of_text(text@, host_ip@) == Ok::<
                TrafficConfigView,
                ConfigErrorView,
            >(config@),
            Err(error) => traffic_config_of_text(text@, host_ip@) == Err::<
                TrafficConfigView,
                ConfigErrorView,
            >(error@),
        },
{
    match read_document(text) {
        Err(error) => Err(error),
        Ok(doc) => traffic_cfg_from_document(&doc, host_ip),
    }
}

/// At the start the master group shows the configured colour with that
/// colour's full duration, and every other group shows the inverse colour
/// with the full duration of the inverse: against RED that is GREEN where
/// red lasts longer than yellow and YELLOW otherwise, against GREEN or
/// YELLOW it is RED, and against UNKNOWN it is UNKNOWN.
pub proof fn lemma_initial_phases(doc: YamlTree, host_ip: Seq<char>)
    requires
        traffic_config_of(doc, host_ip) is Ok,
    ensures
        ({
            let config = traffic_config_of(doc, host_ip)->Ok_0;
            let durations = config.state.durations;
            let color = LightColor::spec_from_code(doc.at("color"@).as_i64()->Some_0 as int);
            let master = doc.at("master"@).as_str()->Some_0;
            forall|i: int|
                0 <= i < config.state.groups.len() ==> (#[trigger] config.state.groups[i]).status
                    == initial_status(durations, color, config.state.groups[i].name == master)
        }),
{
    let pairs = doc.at("light_id_group"@).as_hash()->Some_0;
    let config = traffic_config_of(doc, host_ip)->Ok_0;
    let durations = config.state.durations;
    let color = LightColor::spec_from_code(doc.at("color"@).as_i64()->Some_0 as int);
    let master = doc.at("master"@).as_str()->Some_0;
    lemma_groups_start(pairs, pairs.len() as int, durations, color, master);
}

/// Every group read from the configuration starts on its initial phase.
proof fn lemma_groups_start(
    pairs: Seq<(YamlTree, YamlTree)>,
    n: int,
    durations: LightDuration,
    color: LightColor,
    master: Seq<char>,
)
    requires
        groups_upto(pairs, n, durations, color, master) is Ok,
    ensures
        forall|i: int|
            0 <= i < groups_upto(pairs, n, durations, color, master)->Ok_0.len() ==> (
            #[trigger] groups_upto(pairs, n, durations, color, master)->Ok_0[i]).status
                == initial_status(
                durations,
                color,
                groups_upto(pairs, n, durations, color, master)->Ok_0[i].name == master,
            ),
    decreases n,
{
    if n > 0 {
        lemma_groups_start(pairs, n - 1, durations, color, master);
    }
}

} // verus!
