//! The control surface: what a request body asks for, and what is
//! answered.
//!
//! A body arrives percent-encoded and holds one JSON object. This module
//! turns it into a command for the plugin manager or into a rule change for
//! the traffic lights, and turns the outcome into the response. Listening
//! and sending are left to the host.

use crate::json::{json_document, parse_json, JsonNode, JsonTree};
use crate::light::{rule_change, Intersection};
use crate::plugin::model::{MgrView, Turn};
use crate::plugin::{PluginError, PluginMgr, Step};
use crate::text::enclose;
use core::str::Utf8Error;
use percent_encoding::percent_decode;
use vstd::prelude::*;
use vstd::utf8::{decode_utf8, encode_utf8, valid_utf8};

verus! {

/// The value of a hexadecimal digit given as an ASCII byte.
pub open spec fn hex_digit(byte: u8) -> Option<u8> {
    if 0x30 <= byte <= 0x39 {
        Some((byte - 0x30) as u8)
    } else if 0x61 <= byte <= 0x66 {
        Some((byte - 0x61 + 10) as u8)
    } else if 0x41 <= byte <= 0x46 {
        Some((byte - 0x41 + 10) as u8)
    } else {
        None
    }
}

/// The bytes that percent-decoding makes of `bytes`: every `%` that is
/// followed by two hexadecimal digits becomes, together with them, the one
/// byte that the digits spell; every other byte stays.
pub open spec fn percent_decoded(bytes: Seq<u8>) -> Seq<u8>
    decreases bytes.len(),
{
    if bytes.len() == 0 {
        Seq::empty()
    } else if bytes[0] == 0x25 && bytes.len() >= 3 && hex_digit(bytes[1]) is Some && hex_digit(
        bytes[2],
    ) is Some {
        seq![(hex_digit(bytes[1])->Some_0 * 16 + hex_digit(bytes[2])->Some_0) as u8]
            + percent_decoded(bytes.skip(3))
    } else {
        seq![bytes[0]] + percent_decoded(bytes.skip(1))
    }
}

/// `core::str::Utf8Error`, carried through as it is.
#[verifier::external_type_specification]
#[verifier::external_body]
pub struct ExUtf8Error(Utf8Error);

/// `percent_encoding::percent_decode` on the bytes of `body`, then
/// `decode_utf8`. The contract says which bytes come out of the decoding,
/// that the result is their text where they are well-formed UTF-8, and that
/// the call fails exactly where they are not.
#[verifier::external_body]
fn percent_decode_utf8(body: &str) -> (decoded: Result<String, Utf8Error>)
    ensures
        match decoded {
            Ok(text) => valid_utf8(percent_decoded(encode_utf8(body@))) && text@ == decode_utf8(
                percent_decoded(encode_utf8(body@)),
            ),
            Err(_) => !valid_utf8(percent_decoded(encode_utf8(body@))),
        },
{
    percent_decode(body.as_bytes()).decode_utf8().map(|text| text.into_owned())
}

/// The decoder's report of where the bytes stop being UTF-8.
#[verifier::external_body]
fn utf8_error_text(error: &Utf8Error) -> (text: String) {
    format!("{:?}", error)
}

/// The parameters that requests carry.
#[derive(Clone, Copy, Debug, PartialEq, Eq, Structural)]
pub enum Field {
    Name,
    Path,
    Active,
    Remain,
    Color,
    LgtId,
}

impl Field {
    /// The key of the parameter in the request's object.
    pub open spec fn spec_key(self) -> Seq<char> {
        match self {
            Field::Name => "name"@,
            Field::Path => "path"@,
            Field::Active => "active"@,
            Field::Remain => "remain"@,
            Field::Color => "color"@,
            Field::LgtId => "lgt_id"@,
        }
    }

    /// The key of the parameter in the request's object.
    pub fn key(self) -> (key: &'static str)
        ensures
            key@ == self.spec_key(),
    {
        match self {
            Field::Name => "name",
            Field::Path => "path",
            Field::Active => "active",
            Field::Remain => "remain",
            Field::Color => "color",
            Field::LgtId => "lgt_id",
        }
    }

    /// Whether the parameter belongs to a rule change, as opposed to a
    /// command for the plugin manager.
    pub open spec fn of_rule_change(self) -> bool {
        self == Field::Remain || self == Field::Color || self == Field::LgtId
    }
}

/// The endpoints that take a command for the plugin manager.
#[derive(Clone, Copy, Debug, PartialEq, Eq, Structural)]
pub enum Endpoint {
    /// `POST /plugin`: start or stop a plugin.
    Plugin,
    /// `POST /plugin/add`: register a plugin.
    PluginAdd,
    /// `POST /plugin/remove`: deregister a plugin.
    PluginRemove,
}

/// Why a request was turned down before it reached anything.
#[derive(Debug, PartialEq, Eq)]
pub enum RequestError {
    /// The percent-decoded body is no UTF-8.
    NotUtf8 { detail: String },
    /// The body is no JSON.
    NotJson { detail: String },
    /// The body is JSON but no object.
    NotObject(Endpoint),
    /// The object lacks the parameter.
    Missing(Field),
    /// The parameter is of the wrong kind, or a number out of range.
    WrongKind(Field),
}

/// A request error without the reports of outside code.
pub enum RequestErrorView {
    NotUtf8,
    NotJson,
    NotObject(Endpoint),
    Missing(Field),
    WrongKind(Field),
}

impl View for RequestError {
    type V = RequestErrorView;

    open spec fn view(&self) -> RequestErrorView {
        match self {
            RequestError::NotUtf8 { .. } => RequestErrorView::NotUtf8,
            RequestError::NotJson { .. } => RequestErrorView::NotJson,
            RequestError::NotObject(endpoint) => RequestErrorView::NotObject(*endpoint),
            RequestError::Missing(field) => RequestErrorView::Missing(*field),
            RequestError::WrongKind(field) => RequestErrorView::WrongKind(*field),
        }
    }
}

impl RequestError {
    /// The error as the diagnostic message of a response.
    pub open spec fn spec_message(&self) -> Seq<char> {
        match self {
            RequestError::NotUtf8 { detail } => "param decode error: "@ + detail@,
            RequestError::NotJson { detail } => "param parse into json wrong: "@ + detail@,
            RequestError::NotObject(Endpoint::Plugin) =>
                "params are wrong, ex: {\"name\": \"traffic_light\", \"active\": true}"@,
            RequestError::NotObject(Endpoint::PluginAdd) =>
                "params are wrong, ex: {\"name\": \"traffic_light\", \"path\": \"/home/traffic_light\", \"active\": true}"@,
            RequestError::NotObject(Endpoint::PluginRemove) =>
                "params are wrong, ex: {\"name\": \"traffic_light\"}"@,
            RequestError::Missing(field) => if field.of_rule_change() {
                "get param error, "@ + field.spec_key() + " is None"@
            } else {
                "need param: "@ + field.spec_key()
            },
            RequestError::WrongKind(field) => if field.of_rule_change() {
                "get param error, "@ + field.spec_key() + " is None"@
            } else {
                "param "@ + field.spec_key() + " is of the wrong kind"@
            },
        }
    }

    /// The error as the diagnostic message of a response.
    pub fn message(&self) -> (text: String)
        ensures
            text@ == self.spec_message(),
    {
        match self {
            RequestError::NotUtf8 { detail } => String::from_str("param decode error: ").concat(
                detail.as_str(),
            ),
            RequestError::NotJson { detail } => String::from_str(
                "param parse into json wrong: ",
            ).concat(detail.as_str()),
            RequestError::NotObject(Endpoint::Plugin) => String::from_str(
                "params are wrong, ex: {\"name\": \"traffic_light\", \"active\": true}",
            ),
            RequestError::NotObject(Endpoint::PluginAdd) => String::from_str(
                "params are wrong, ex: {\"name\": \"traffic_light\", \"path\": \"/home/traffic_light\", \"active\": true}",
            ),
            RequestError::NotObject(Endpoint::PluginRemove) => String::from_str(
                "params are wrong, ex: {\"name\": \"traffic_light\"}",
            ),
            RequestError::Missing(field) => match field {
                Field::Remain | Field::Color | Field::LgtId => enclose(
                    "get param error, ",
                    field.key(),
                    " is None",
                ),
                _ => String::from_str("need param: ").concat(field.key()),
            },
            RequestError::WrongKind(field) => match field {
                Field::Remain | Field::Color | Field::LgtId => enclose(
                    "get param error, ",
                    field.key(),
                    " is None",
                ),
                _ => enclose("param ", field.key(), " is of the wrong kind"),
            },
        }
    }
}

/// The JSON document of a request body: the body is percent-decoded, read
/// as UTF-8 and then as JSON.
pub open spec fn body_of(raw: Seq<char>) -> Result<JsonTree, RequestErrorView> {
    let bytes = percent_decoded(encode_utf8(raw));
    if !valid_utf8(bytes) {
        Err(RequestErrorView::NotUtf8)
    } else {
        match json_document(decode_utf8(bytes)) {
            None => Err(RequestErrorView::NotJson),
            Some(tree) => Ok(tree),
        }
    }
}

/// Reads the JSON document of a request body. Fails where the
/// percent-decoded body is no UTF-8 and where its text is no JSON.
pub fn decode_body(raw: &str) -> (decoded: Result<JsonNode, RequestError>)
    ensures
        match decoded {
            Ok(node) => body_of(raw@) == Ok::<JsonTree, RequestErrorView>(node@),
            Err(error) => body_of(raw@) == Err::<JsonTree, RequestErrorView>(error@),
        },
{
    match percent_decode_utf8(raw) {
        Err(error) => Err(RequestError::NotUtf8 { detail: utf8_error_text(&error) }),
        Ok(text) => match parse_json(text.as_str()) {
            Err(detail) => Err(RequestError::NotJson { detail }),
            Ok(node) => Ok(node),
        },
    }
}

/// The text parameter `field` of a request.
pub open spec fn text_param(body: JsonTree, field: Field) -> Result<Seq<char>, RequestErrorView> {
    match body.get(field.spec_key()) {
        None => Err(RequestErrorView::Missing(field)),
        Some(value) => match value.as_str() {
            None => Err(RequestErrorView::WrongKind(field)),
            Some(text) => Ok(text),
        },
    }
}

/// The yes-or-no parameter `field` of a request.
pub open spec fn flag_param(body: JsonTree, field: Field) -> Result<bool, RequestErrorView> {
    match body.get(field.spec_key()) {
        None => Err(RequestErrorView::Missing(field)),
        Some(value) => match value.as_bool() {
            None => Err(RequestErrorView::WrongKind(field)),
            Some(flag) => Ok(flag),
        },
    }
}

/// The parameter `field` of a request, a whole number from 0 on.
pub open spec fn number_param(body: JsonTree, field: Field) -> Result<u64, RequestErrorView> {
    match body.get(field.spec_key()) {
        None => Err(RequestErrorView::Missing(field)),
        Some(value) => match value.as_u64() {
            None => Err(RequestErrorView::WrongKind(field)),
            Some(number) => Ok(number),
        },
    }
}

/// Reads the text parameter `field`.
fn read_text(body: &JsonNode, field: Field) -> (read: Result<String, RequestError>)
    ensures
        match read {
            Ok(text) => text_param(body@, field) == Ok::<Seq<char>, RequestErrorView>(text@),
            Err(error) => text_param(body@, field) == Err::<Seq<char>, RequestErrorView>(error@),
        },
{
    match body.get(field.key()) {
        None => Err(RequestError::Missing(field)),
        Some(value) => match value.as_str() {
            None => Err(RequestError::WrongKind(field)),
            Some(text) => Ok(text.clone()),
        },
    }
}

/// Reads the yes-or-no parameter `field`.
fn read_flag(body: &JsonNode, field: Field) -> (read: Result<bool, RequestError>)
    ensures
        match read {
            Ok(flag) => flag_param(body@, field) == Ok::<bool, RequestErrorView>(flag),
            Err(error) => flag_param(body@, field) == Err::<bool, RequestErrorView>(error@),
        },
{
    match body.get(field.key()) {
        None => Err(RequestError::Missing(field)),
        Some(value) => match value.as_bool() {
            None => Err(RequestError::WrongKind(field)),
            Some(flag) => Ok(flag),
        },
    }
}

/// Reads the parameter `field`, a whole number from 0 on.
fn read_number(body: &JsonNode, field: Field) -> (read: Result<u64, RequestError>)
    ensures
        match read {
            Ok(number) => number_param(body@, field) == Ok::<u64, RequestErrorView>(number),
            Err(error) => number_param(body@, field) == Err::<u64, RequestErrorView>(error@),
        },
{
    match body.get(field.key()) {
        None => Err(RequestError::Missing(field)),
        Some(value) => match value.as_u64() {
            None => Err(RequestError::WrongKind(field)),
            Some(number) => Ok(number),
        },
    }
}

/// What a request asks of the plugin manager.
#[derive(Debug, PartialEq, Eq)]
pub enum Command {
    /// Start the plugin where `active` holds, stop it where not.
    Switch { name: String, active: bool },
    /// Register the plugin.
    Add { name: String, path: String, active: bool },
    /// Deregister the plugin.
    Remove { name: String },
}

/// A command with its texts as sequences of characters.
pub enum CommandView {
    Switch { name: Seq<char>, active: bool },
    Add { name: Seq<char>, path: Seq<char>, active: bool },
    Remove { name: Seq<char> },
}

impl View for Command {
    type V = CommandView;

    open spec fn view(&self) -> CommandView {
        match self {
            Command::Switch { name, active } => CommandView::Switch { name: name@, active: *active },
            Command::Add { name, path, active } => CommandView::Add {
                name: name@,
                path: path@,
                active: *active,
            },
            Command::Remove { name } => CommandView::Remove { name: name@ },
        }
    }
}

impl CommandView {
    /// The name of the plugin that the command is about.
    pub open spec fn name(self) -> Seq<char> {
        match self {
            CommandView::Switch { name, .. } => name,
            CommandView::Add { name, .. } => name,
            CommandView::Remove { name } => name,
        }
    }
}

/// The command that the JSON document of a request to `endpoint` stands
/// for. The document has to be an object; the parameters are looked for in
/// the order name, path, active, and the first that is missing or of the
/// wrong kind decides the error.
pub open spec fn command_of(endpoint: Endpoint, body: JsonTree) -> Result<
    CommandView,
    RequestErrorView,
> {
    if !(body is Object) {
        Err(RequestErrorView::NotObject(endpoint))
    } else {
        match text_param(body, Field::Name) {
            Err(error) => Err(error),
            Ok(name) => match endpoint {
                Endpoint::PluginRemove => Ok(CommandView::Remove { name }),
                Endpoint::Plugin => match flag_param(body, Field::Active) {
                    Err(error) => Err(error),
                    Ok(active) => Ok(CommandView::Switch { name, active }),
                },
                Endpoint::PluginAdd => match text_param(body, Field::Path) {
                    Err(error) => Err(error),
                    Ok(path) => match flag_param(body, Field::Active) {
                        Err(error) => Err(error),
                        Ok(active) => Ok(CommandView::Add { name, path, active }),
                    },
                },
            },
        }
    }
}

/// Reads the command out of the JSON document of a request to `endpoint`.
pub fn decode_command(endpoint: Endpoint, body: &JsonNode) -> (decoded: Result<
    Command,
    RequestError,
>)
    ensures
        match decoded {
            Ok(command) => command_of(endpoint, body@) == Ok::<CommandView, RequestErrorView>(
                command@,
            ),
            Err(error) => command_of(endpoint, body@) == Err::<CommandView, RequestErrorView>(
                error@,
            ),
        },
{
    if !body.is_object() {
        return Err(RequestError::NotObject(endpoint));
    }
    let name = match read_text(body, Field::Name) {
        Ok(name) => name,
        Err(error) => return Err(error),
    };
    match endpoint {
        Endpoint::PluginRemove => Ok(Command::Remove { name }),
        Endpoint::Plugin => match read_flag(body, Field::Active) {
            Err(error) => Err(error),
            Ok(active) => Ok(Command::Switch { name, active }),
        },
        Endpoint::PluginAdd => {
            let path = match read_text(body, Field::Path) {
                Ok(path) => path,
                Err(error) => return Err(error),
            };
            match read_flag(body, Field::Active) {
                Err(error) => Err(error),
                Ok(active) => Ok(Command::Add { name, path, active }),
            }
        },
    }
}

/// The command that the body of a request to `endpoint` stands for.
pub open spec fn request_of(endpoint: Endpoint, raw: Seq<char>) -> Result<
    CommandView,
    RequestErrorView,
> {
    match body_of(raw) {
        Err(error) => Err(error),
        Ok(body) => command_of(endpoint, body),
    }
}

/// Reads the command out of the body of a request to `endpoint`.
pub fn read_command(endpoint: Endpoint, raw: &str) -> (decoded: Result<Command, RequestError>)
    ensures
        match decoded {
            Ok(command) => request_of(endpoint, raw@) == Ok::<CommandView, RequestErrorView>(
                command@,
            ),
            Err(error) => request_of(endpoint, raw@) == Err::<CommandView, RequestErrorView>(
                error@,
            ),
        },
{
    match decode_body(raw) {
        Err(error) => Err(error),
        Ok(body) => decode_command(endpoint, &body),
    }
}

/// What a command makes of the state of the plugin manager: a switch
/// starts the plugin where `active` holds and stops it where not.
pub open spec fn turn_of(state: MgrView, command: CommandView) -> Turn {
    match command {
        CommandView::Switch { name, active } => if active {
            state.on_start(name)
        } else {
            state.on_stop(name)
        },
        CommandView::Add { name, path, active } => state.on_add(name, path, active),
        CommandView::Remove { name } => state.on_remove(name),
    }
}

/// Hands a command to the plugin manager and returns the manager's first
/// step.
pub fn begin(manager: &mut PluginMgr, command: &Command) -> (step: Step)
    requires
        old(manager).wf(),
    ensures
        final(manager).wf(),
        (Turn { state: final(manager)@, step: step@ }) == turn_of(old(manager)@, command@),
{
    match command {
        Command::Switch { name, active } => {
            if *active {
                manager.start_plugin(name.as_str())
            } else {
                manager.stop_plugin(name.as_str())
            }
        },
        Command::Add { name, path, active } => manager.add_plugin(
            name.as_str(),
            path.as_str(),
            *active,
        ),
        Command::Remove { name } => manager.remove_plugin(name.as_str()),
    }
}

/// What is answered to a request: 1 and a message where it went well, -1
/// and the diagnosis where not.
#[derive(Debug, PartialEq, Eq)]
pub struct ResponseData {
    pub status: i32,
    pub message: String,
}

/// A response with its message as a sequence of characters.
pub struct ResponseView {
    pub status: i32,
    pub message: Seq<char>,
}

impl View for ResponseData {
    type V = ResponseView;

    open spec fn view(&self) -> ResponseView {
        ResponseView { status: self.status, message: self.message@ }
    }
}

/// The response to a request that was turned down.
pub fn refuse(error: &RequestError) -> (response: ResponseData)
    ensures
        response@ == (ResponseView { status: -1i32, message: error.spec_message() }),
{
    ResponseData { status: -1, message: error.message() }
}

/// The response to a command, given what the plugin manager replied: a
/// switch passes the manager's message on; adding and removing report the
/// plugin by name; a failure carries the manager's diagnosis.
pub open spec fn response_to(command: CommandView, reply: Result<String, PluginError>) -> ResponseView {
    match reply {
        Ok(message) => ResponseView {
            status: 1,
            message: match command {
                CommandView::Switch { .. } => message@,
                CommandView::Add { name, .. } => "add plugin "@ + name + " successful"@,
                CommandView::Remove { name } => "remove plugin "@ + name + " successful"@,
            },
        },
        Err(error) => ResponseView {
            status: -1i32,
            message: match command {
                CommandView::Switch { .. } => error.spec_message(),
                CommandView::Add { name, .. } => "add plugin "@ + name + " failed, error: "@
                    + error.spec_message(),
                CommandView::Remove { name } => "remove plugin "@ + name + " failed, error: "@
                    + error.spec_message(),
            },
        },
    }
}

/// The response to `command`, given what the plugin manager replied.
pub fn respond(command: &Command, reply: &Result<String, PluginError>) -> (response: ResponseData)
    ensures
        response@ == response_to(command@, *reply),
{
    match reply {
        Ok(message) => ResponseData {
            status: 1,
            message: match command {
                Command::Switch { .. } => message.clone(),
                Command::Add { name, .. } => enclose("add plugin ", name.as_str(), " successful"),
                Command::Remove { name } => enclose(
                    "remove plugin ",
                    name.as_str(),
                    " successful",
                ),
            },
        },
        Err(error) => {
            let diagnosis = error.message();
            ResponseData {
                status: -1,
                message: match command {
                    Command::Switch { .. } => diagnosis,
                    Command::Add { name, .. } => enclose(
                        "add plugin ",
                        name.as_str(),
                        " failed, error: ",
                    ).concat(diagnosis.as_str()),
                    Command::Remove { name } => enclose(
                        "remove plugin ",
                        name.as_str(),
                        " failed, error: ",
                    ).concat(diagnosis.as_str()),
                },
            }
        },
    }
}

/// A rule change as a request carries it.
#[derive(Debug, PartialEq, Eq)]
pub struct RuleChange {
    pub lgt_id: String,
    pub color: u64,
    pub remain: i64,
}

/// A rule change with the light's id as a sequence of characters.
pub struct RuleChangeView {
    pub lgt_id: Seq<char>,
    pub color: u64,
    pub remain: i64,
}

impl View for RuleChange {
    type V = RuleChangeView;

    open spec fn view(&self) -> RuleChangeView {
        RuleChangeView { lgt_id: self.lgt_id@, color: self.color, remain: self.remain }
    }
}

/// The rule change that the JSON document of a request stands for. The
/// parameters are looked for in the order remain, color, lgt_id, and the
/// first that is missing or of the wrong kind decides the error. The
/// seconds that remain must fit the counter of a group.
pub open spec fn rule_change_of(body: JsonTree) -> Result<RuleChangeView, RequestErrorView> {
    match number_param(body, Field::Remain) {
        Err(error) => Err(error),
        Ok(remain) => if remain > i64::MAX {
            Err(RequestErrorView::WrongKind(Field::Remain))
        } else {
            match number_param(body, Field::Color) {
                Err(error) => Err(error),
                Ok(color) => match text_param(body, Field::LgtId) {
                    Err(error) => Err(error),
                    Ok(lgt_id) => Ok(RuleChangeView { lgt_id, color, remain: remain as i64 }),
                },
            }
        },
    }
}

/// Reads the rule change out of the JSON document of a request.
pub fn decode_rule_change(body: &JsonNode) -> (decoded: Result<RuleChange, RequestError>)
    ensures
        match decoded {
            Ok(change) => rule_change_of(body@) == Ok::<RuleChangeView, RequestErrorView>(change@),
            Err(error) => rule_change_of(body@) == Err::<RuleChangeView, RequestErrorView>(error@),
        },
{
    let remain = match read_number(body, Field::Remain) {
        Ok(remain) => remain,
        Err(error) => return Err(error),
    };
    if remain > 0x7fff_ffff_ffff_ffff {
        return Err(RequestError::WrongKind(Field::Remain));
    }
    let color = match read_number(body, Field::Color) {
        Ok(color) => color,
        Err(error) => return Err(error),
    };
    let lgt_id = match read_text(body, Field::LgtId) {
        Ok(lgt_id) => lgt_id,
        Err(error) => return Err(error),
    };
    Ok(RuleChange { lgt_id, color, remain: remain as i64 })
}

/// The rule change that the body of a request stands for.
pub open spec fn rule_request_of(raw: Seq<char>) -> Result<RuleChangeView, RequestErrorView> {
    match body_of(raw) {
        Err(error) => Err(error),
        Ok(body) => rule_change_of(body),
    }
}

/// Serves a rule-change request: reads the rule change out of the body
/// and applies it to the lights. A request that cannot be read changes
/// nothing and is answered with the diagnosis.
pub fn serve_rule_change(state: &mut Intersection, raw: &str) -> (response: ResponseData)
    ensures
        match rule_request_of(raw@) {
            Ok(change) => final(state)@ == old(state)@.rule_changed(
                change.lgt_id,
                change.color,
                change.remain,
            ) && response@ == (ResponseView {
                status: 1,
                message: "change traffic light successful"@,
            }),
            Err(refused) => final(state)@ == old(state)@ && response@.status == -1
                && exists|error: RequestError|
                error@ == refused && response@.message == #[trigger] error.spec_message(),
        },
{
    let decoded = match decode_body(raw) {
        Err(error) => Err(error),
        Ok(body) => decode_rule_change(&body),
    };
    match decoded {
        Err(error) => refuse(&error),
        Ok(change) => {
            rule_change(state, change.lgt_id.as_str(), change.color, change.remain);
            ResponseData {
                status: 1,
                message: String::from_str("change traffic light successful"),
            }
        },
    }
}

} // verus!
