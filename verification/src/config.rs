//! The configuration files: what the YAML document of each one holds.
//!
//! Reading the files, and the environment, is left to the host; it hands
//! the text of a file and the address of the host to the functions here.

pub mod defaults;
pub mod traffic;

use crate::text::{replace, replaced};
use crate::yaml::{parse_yaml, trees_of, yaml_documents, YamlNode, YamlTree};
use vstd::prelude::*;

verus! {

/// The settings that the configuration files hold.
#[derive(Clone, Copy, Debug, PartialEq, Eq, Structural)]
pub enum ConfigKey {
    Port,
    CenterDbUrl,
    ReportDuration,
    RoadId,
    DurationGreen,
    DurationRed,
    DurationYellow,
    DurationUnknown,
    Color,
    Master,
    LightIdGroup,
    GroupName,
    LightIdList,
    LightId,
    VehicleStatusZenohPath,
    Interval,
}

impl ConfigKey {
    /// The setting as it is called in a diagnosis.
    pub open spec fn spec_label(self) -> Seq<char> {
        match self {
            ConfigKey::Port => "port"@,
            ConfigKey::CenterDbUrl => "center_db_url"@,
            ConfigKey::ReportDuration => "report_duration"@,
            ConfigKey::RoadId => "road_id"@,
            ConfigKey::DurationGreen => "duration-green"@,
            ConfigKey::DurationRed => "duration-red"@,
            ConfigKey::DurationYellow => "duration-yellow"@,
            ConfigKey::DurationUnknown => "duration-unknown"@,
            ConfigKey::Color => "color"@,
            ConfigKey::Master => "master"@,
            ConfigKey::LightIdGroup => "light_id_group"@,
            ConfigKey::GroupName => "group_name"@,
            ConfigKey::LightIdList => "lgt_id_list"@,
            ConfigKey::LightId => "lgt_id"@,
            ConfigKey::VehicleStatusZenohPath => "vehicle_status_zenoh_path"@,
            ConfigKey::Interval => "interval"@,
        }
    }

    /// The setting as it is called in a diagnosis.
    pub fn label(self) -> (label: &'static str)
        ensures
            label@ == self.spec_label(),
    {
        match self {
            ConfigKey::Port => "port",
            ConfigKey::CenterDbUrl => "center_db_url",
            ConfigKey::ReportDuration => "report_duration",
            ConfigKey::RoadId => "road_id",
            ConfigKey::DurationGreen => "duration-green",
            ConfigKey::DurationRed => "duration-red",
            ConfigKey::DurationYellow => "duration-yellow",
            ConfigKey::DurationUnknown => "duration-unknown",
            ConfigKey::Color => "color",
            ConfigKey::Master => "master",
            ConfigKey::LightIdGroup => "light_id_group",
            ConfigKey::GroupName => "group_name",
            ConfigKey::LightIdList => "lgt_id_list",
            ConfigKey::LightId => "lgt_id",
            ConfigKey::VehicleStatusZenohPath => "vehicle_status_zenoh_path",
            ConfigKey::Interval => "interval",
        }
    }
}

/// Why a configuration was turned down.
#[derive(Debug, PartialEq, Eq)]
pub enum ConfigError {
    /// The text is no YAML; `detail` is the scanner's report.
    Malformed { detail: String },
    /// The text holds no document.
    NoDocument,
    /// The setting is missing or of the wrong kind.
    Missing(ConfigKey),
    /// The setting is a number below zero where none is allowed.
    Negative(ConfigKey),
}

/// A configuration error without the reports of outside code.
pub enum ConfigErrorView {
    Malformed,
    NoDocument,
    Missing(ConfigKey),
    Negative(ConfigKey),
}

impl View for ConfigError {
    type V = ConfigErrorView;

    open spec fn view(&self) -> ConfigErrorView {
        match self {
            ConfigError::Malformed { .. } => ConfigErrorView::Malformed,
            ConfigError::NoDocument => ConfigErrorView::NoDocument,
            ConfigError::Missing(key) => ConfigErrorView::Missing(*key),
            ConfigError::Negative(key) => ConfigErrorView::Negative(*key),
        }
    }
}

impl ConfigError {
    /// The error as a line for a person to read.
    pub open spec fn spec_message(&self) -> Seq<char> {
        match self {
            ConfigError::Malformed { detail } => "read config failed: "@ + detail@,
            ConfigError::NoDocument => "read config failed: no document"@,
            ConfigError::Missing(key) => "get "@ + key.spec_label() + " from config failed"@,
            ConfigError::Negative(key) => "get "@ + key.spec_label()
                + " from config failed: below zero"@,
        }
    }

    /// The error as a line for a person to read.
    pub fn message(&self) -> (text: String)
        ensures
            text@ == self.spec_message(),
    {
        match self {
            ConfigError::Malformed { detail } => String::from_str("read config failed: ").concat(
                detail.as_str(),
            ),
            ConfigError::NoDocument => String::from_str("read config failed: no document"),
            ConfigError::Missing(key) => {
                let mut text = String::from_str("get ");
                text.append(key.label());
                text.append(" from config failed");
                text
            },
            ConfigError::Negative(key) => {
                let mut text = String::from_str("get ");
                text.append(key.label());
                text.append(" from config failed: below zero");
                text
            },
        }
    }
}

/// The address that a configured URL names where it means the host
/// itself.
pub open spec fn local_host() -> Seq<char> {
    "127.0.0.1"@
}

/// `url` with the address of the host, `host_ip`, in every place where it
/// names the host as 127.0.0.1.
pub fn with_host(url: &str, host_ip: &str) -> (out: String)
    ensures
        out@ == replaced(url@, local_host(), host_ip@),
{
    replace(url, "127.0.0.1", host_ip)
}

/// The first document of a YAML text.
pub open spec fn first_document(text: Seq<char>) -> Result<YamlTree, ConfigErrorView> {
    match yaml_documents(text) {
        None => Err(ConfigErrorView::Malformed),
        Some(docs) => if docs.len() == 0 {
            Err(ConfigErrorView::NoDocument)
        } else {
            Ok(docs[0])
        },
    }
}

/// Reads the first document of a YAML text. Fails where the text is no
/// YAML and where it holds no document.
pub fn read_document(text: &str) -> (read: Result<YamlNode, ConfigError>)
    ensures
        match read {
            Ok(doc) => first_document(text@) == Ok::<YamlTree, ConfigErrorView>(doc@),
            Err(error) => first_document(text@) == Err::<YamlTree, ConfigErrorView>(error@),
        },
{
    match parse_yaml(text) {
        Err(detail) => Err(ConfigError::Malformed { detail }),
        Ok(mut docs) => {
            if docs.len() == 0 {
                Err(ConfigError::NoDocument)
            } else {
                assert(trees_of(docs@)[0] == docs[0]@);
                Ok(docs.swap_remove(0))
            }
        },
    }
}

/// The text setting under `key`.
pub open spec fn text_setting(doc: YamlTree, key: Seq<char>, which: ConfigKey) -> Result<
    Seq<char>,
    ConfigErrorView,
> {
    match doc.at(key).as_str() {
        None => Err(ConfigErrorView::Missing(which)),
        Some(text) => Ok(text),
    }
}

/// The whole-number setting under `key`.
pub open spec fn number_setting(doc: YamlTree, key: Seq<char>, which: ConfigKey) -> Result<
    i64,
    ConfigErrorView,
> {
    match doc.at(key).as_i64() {
        None => Err(ConfigErrorView::Missing(which)),
        Some(number) => Ok(number),
    }
}

/// The whole-number setting under `key`, which must not be below zero.
pub open spec fn count_setting(doc: YamlTree, key: Seq<char>, which: ConfigKey) -> Result<
    u64,
    ConfigErrorView,
> {
    match doc.at(key).as_i64() {
        None => Err(ConfigErrorView::Missing(which)),
        Some(number) => if number < 0 {
            Err(ConfigErrorView::Negative(which))
        } else {
            Ok(number as u64)
        },
    }
}

/// Reads the text setting under `key`.
pub(crate) fn read_text(doc: &YamlNode, key: &str, which: ConfigKey) -> (read: Result<String, ConfigError>)
    ensures
        match read {
            Ok(text) => text_setting(doc@, key@, which) == Ok::<Seq<char>, ConfigErrorView>(text@),
            Err(error) => text_setting(doc@, key@, which) == Err::<Seq<char>, ConfigErrorView>(
                error@,
            ),
        },
{
    match doc.lookup(key) {
        None => Err(ConfigError::Missing(which)),
        Some(node) => match node.as_str() {
            None => Err(ConfigError::Missing(which)),
            Some(text) => Ok(text.clone()),
        },
    }
}

/// Reads the whole-number setting under `key`.
pub(crate) fn read_number(doc: &YamlNode, key: &str, which: ConfigKey) -> (read: Result<i64, ConfigError>)
    ensures
        match read {
            Ok(number) => number_setting(doc@, key@, which) == Ok::<i64, ConfigErrorView>(number),
            Err(error) => number_setting(doc@, key@, which) == Err::<i64, ConfigErrorView>(error@),
        },
{
    match doc.lookup(key) {
        None => Err(ConfigError::Missing(which)),
        Some(node) => match node.as_i64() {
            None => Err(ConfigError::Missing(which)),
            Some(number) => Ok(number),
        },
    }
}

/// Reads the whole-number setting under `key`, which must not be below
/// zero.
pub(crate) fn read_count(doc: &YamlNode, key: &str, which: ConfigKey) -> (read: Result<u64, ConfigError>)
    ensures
        match read {
            Ok(number) => count_setting(doc@, key@, which) == Ok::<u64, ConfigErrorView>(number),
            Err(error) => count_setting(doc@, key@, which) == Err::<u64, ConfigErrorView>(error@),
        },
{
    match read_number(doc, key, which) {
        Err(error) => Err(error),
        Ok(number) => if number < 0 {
            Err(ConfigError::Negative(which))
        } else {
            Ok(number as u64)
        },
    }
}

/// The settings of the supervisor: the port of the control surface, the
/// URL of the collector, and the seconds between two reports.
#[derive(Debug, PartialEq, Eq)]
pub struct RsuConfig {
    pub port: String,
    pub center_db_url: String,
    pub report_duration: u64,
}

/// The supervisor's settings with their texts as sequences of characters.
pub struct RsuConfigView {
    pub port: Seq<char>,
    pub center_db_url: Seq<char>,
    pub report_duration: u64,
}

impl View for RsuConfig {
    type V = RsuConfigView;

    open spec fn view(&self) -> RsuConfigView {
        RsuConfigView {
            port: self.port@,
            center_db_url: self.center_db_url@,
            report_duration: self.report_duration,
        }
    }
}

/// The supervisor's settings that a YAML document holds. The settings are
/// looked for in the order port, center_db_url, report_duration, and the
/// first that is missing or of the wrong kind decides the error. The URL
/// names the host by `host_ip`.
pub open spec fn rsu_config_of(doc: YamlTree, host_ip: Seq<char>) -> Result<
    RsuConfigView,
    ConfigErrorView,
> {
    match text_setting(doc, "port"@, ConfigKey::Port) {
        Err(error) => Err(error),
        Ok(port) => match text_setting(doc, "center_db_url"@, ConfigKey::CenterDbUrl) {
            Err(error) => Err(error),
            Ok(url) => match count_setting(doc, "report_duration"@, ConfigKey::ReportDuration) {
                Err(error) => Err(error),
                Ok(report_duration) => Ok(
                    RsuConfigView {
                        port,
                        center_db_url: replaced(url, local_host(), host_ip),
                        report_duration,
                    },
                ),
            },
        },
    }
}

/// The supervisor's settings that a YAML text holds in its first document.
pub open spec fn rsu_config_of_text(text: Seq<char>, host_ip: Seq<char>) -> Result<
    RsuConfigView,
    ConfigErrorView,
> {
    match first_document(text) {
        Err(error) => Err(error),
        Ok(doc) => rsu_config_of(doc, host_ip),
    }
}

/// Reads the supervisor's settings out of a YAML document.
pub fn rsu_cfg_from_document(doc: &YamlNode, host_ip: &str) -> (read: Result<
    RsuConfig,
    ConfigError,
>)
    ensures
        match read {
            Ok(config) => rsu_config_of(doc@, host_ip@) == Ok::<RsuConfigView, ConfigErrorView>(
                config@,
            ),
            Err(error) => rsu_config_of(doc@, host_ip@) == Err::<RsuConfigView, ConfigErrorView>(
                error@,
            ),
        },
{
    let port = match read_text(doc, "port", ConfigKey::Port) {
        Ok(port) => port,
        Err(error) => return Err(error),
    };
    let url = match read_text(doc, "center_db_url", ConfigKey::CenterDbUrl) {
        Ok(url) => url,
        Err(error) => return Err(error),
    };
    let report_duration = match read_count(doc, "report_duration", ConfigKey::ReportDuration) {
        Ok(seconds) => seconds,
        Err(error) => return Err(error),
    };
    Ok(RsuConfig { port, center_db_url: with_host(url.as_str(), host_ip), report_duration })
}

/// Reads the supervisor's settings out of the text of its configuration
/// file; `host_ip` is the address under which the host is reached.
pub fn read_rsu_cfg(text: &str, host_ip: &str) -> (read: Result<RsuConfig, ConfigError>)
    ensures
        match read {
            Ok(config) => rsu_config_of_text(text@, host_ip@) == Ok::<
                RsuConfigView,
                ConfigErrorView,
            >(config@),
            Err(error) => rsu_config_of_text(text@, host_ip@) == Err::<
                RsuConfigView,
                ConfigErrorView,
            >(error@),
        },
{
    match read_document(text) {
        Err(error) => Err(error),
        Ok(doc) => rsu_cfg_from_document(&doc, host_ip),
    }
}

/// The settings of the vehicle-status plugin: the path it subscribes to,
/// the URL of the collector, and the milliseconds between two reports.
#[derive(Debug, PartialEq, Eq)]
pub struct VehicleConfig {
    pub vehicle_status_zenoh_path: String,
    pub center_db_url: String,
    pub interval: u64,
}

/// The plugin's settings with their texts as sequences of characters.
pub struct VehicleConfigView {
    pub vehicle_status_zenoh_path: Seq<char>,
    pub center_db_url: Seq<char>,
    pub interval: u64,
}

impl View for VehicleConfig {
    type V = VehicleConfigView;

    open spec fn view(&self) -> VehicleConfigView {
        VehicleConfigView {
            vehicle_status_zenoh_path: self.vehicle_status_zenoh_path@,
            center_db_url: self.center_db_url@,
            interval: self.interval,
        }
    }
}

/// The settings of the vehicle-status plugin that a YAML document holds.
/// The settings are looked for in the order vehicle_status_zenoh_path,
/// center_db_url, interval, and the first that is missing or of the wrong
/// kind decides the error. The URL names the host by `host_ip`.
pub open spec fn vehicle_config_of(doc: YamlTree, host_ip: Seq<char>) -> Result<
    VehicleConfigView,
    ConfigErrorView,
> {
    match text_setting(doc, "vehicle_status_zenoh_path"@, ConfigKey::VehicleStatusZenohPath) {
        Err(error) => Err(error),
        Ok(path) => match text_setting(doc, "center_db_url"@, ConfigKey::CenterDbUrl) {
            Err(error) => Err(error),
            Ok(url) => match count_setting(doc, "interval"@, ConfigKey::Interval) {
                Err(error) => Err(error),
                Ok(interval) => Ok(
                    VehicleConfigView {
                        vehicle_status_zenoh_path: path,
                        center_db_url: replaced(url, local_host(), host_ip),
                        interval,
                    },
                ),
            },
        },
    }
}

/// Reads the settings of the vehicle-status plugin out of a YAML document.
pub fn vehicle_cfg_from_document(doc: &YamlNode, host_ip: &str) -> (read: Result<
    VehicleConfig,
    ConfigError,
>)
    ensures
        match read {
            Ok(config) => vehicle_config_of(doc@, host_ip@) == Ok::<
                VehicleConfigView,
                ConfigErrorView,
            >(config@),
            Err(error) => vehicle_config_of(doc@, host_ip@) == Err::<
                VehicleConfigView,
                ConfigErrorView,
            >(error@),
        },
{
    let path = match read_text(
        doc,
        "vehicle_status_zenoh_path",
        ConfigKey::VehicleStatusZenohPath,
    ) {
        Ok(path) => path,
        Err(error) => return Err(error),
    };
    let url = match read_text(doc, "center_db_url", ConfigKey::CenterDbUrl) {
        Ok(url) => url,
        Err(error) => return Err(error),
    };
    let interval = match read_count(doc, "interval", ConfigKey::Interval) {
        Ok(interval) => interval,
        Err(error) => return Err(error),
    };
    Ok(
        VehicleConfig {
            vehicle_status_zenoh_path: path,
            center_db_url: with_host(url.as_str(), host_ip),
            interval,
        },
    )
}

/// The settings of the vehicle-status plugin that a YAML text holds in its
/// first document.
pub open spec fn vehicle_config_of_text(text: Seq<char>, host_ip: Seq<char>) -> Result<
    VehicleConfigView,
    ConfigErrorView,
> {
    match first_document(text) {
        Err(error) => Err(error),
        Ok(doc) => vehicle_config_of(doc, host_ip),
    }
}

/// Reads the settings of the vehicle-status plugin out of the text of its
/// configuration file; `host_ip` is the address under which the host is
/// reached.
pub fn read_vehicle_cfg(text: &str, host_ip: &str) -> (read: Result<VehicleConfig, ConfigError>)
    ensures
        match read {
            Ok(config) => vehicle_config_of_text(text@, host_ip@) == Ok::<
                VehicleConfigView,
                ConfigErrorView,
            >(config@),
            Err(error) => vehicle_config_of_text(text@, host_ip@) == Err::<
                VehicleConfigView,
                ConfigErrorView,
            >(error@),
        },
{
    match read_document(text) {
        Err(error) => Err(error),
        Ok(doc) => vehicle_cfg_from_document(&doc, host_ip),
    }
}

} // verus!
