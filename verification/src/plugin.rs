//! The plugin manager: the roster of plugins and the decisions of their
//! lifecycle.
//!
//! The manager opens no library and runs no thread. A command returns a
//! [`Step`]: either the reply to the command, or one piece of work for the
//! host (launch a plugin, halt one, read an error flag). The host does the
//! work and reports its outcome with [`PluginMgr::launched`],
//! [`PluginMgr::halted`] or [`PluginMgr::probed`], which returns the next
//! step, until a reply comes. A new command is accepted once the last one
//! has been answered. A reply may come with the text for the roster file;
//! the host writes it and asks [`written`] what to tell the caller.

pub mod laws;
pub mod model;
pub mod roster;

use crate::plugin::laws::{
    lemma_boot_from_wf, lemma_check_from_wf, lemma_on_add_wf, lemma_on_add_wf_present,
    lemma_on_halted_wf, lemma_on_launched_wf, lemma_on_probed_wf, lemma_on_remove_wf,
    lemma_on_start_wf, lemma_on_stop_wf, lemma_push_keeps_names, lemma_update_keeps_names,
};
use crate::plugin::model::{index_of, next_active, next_unloaded, MgrView, Turn};
use crate::plugin::roster::{
    default_roster, descriptors_of, entry_of, info_tree, lemma_roster_error_stays,
    lemma_roster_tree_keys, roster_of, roster_of_text, roster_tree, roster_upto, text_reads_back,
};
use crate::text::{decimal, decimal_i64, enclose};
use crate::yaml::{
    emit_tree, entry_trees_of, lemma_view_hash, parse_yaml, trees_of, yaml_text, YamlNode,
    YamlTree,
};
use vstd::prelude::*;

verus! {

/// Where a plugin's library lies and whether the plugin is meant to run.
#[derive(Debug, PartialEq, Eq)]
pub struct PluginInfo {
    pub path: String,
    pub active: bool,
}

/// What the host knows of a plugin it has loaded: the two flags it shares
/// with the plugin's worker.
#[derive(Clone, Copy, Debug, PartialEq, Eq, Structural)]
pub struct Plugin {
    /// True from the start; lowered once, to ask the worker to return.
    pub running_flag: bool,
    /// False from the start; raised by the plugin when it has failed.
    pub error_flag: bool,
}

impl Plugin {
    /// The flags of a plugin that has just been started.
    pub open spec fn fresh() -> Plugin {
        Plugin { running_flag: true, error_flag: false }
    }

    /// The record of a plugin that has just been started.
    pub fn new() -> (plugin: Plugin)
        ensures
            plugin == Plugin::fresh(),
    {
        Plugin { running_flag: true, error_flag: false }
    }
}

/// What the code that a plugin's `run` returned means for its worker: a
/// code from zero on is handed on, a code below zero is a failure.
pub open spec fn run_outcome_of(code: i32) -> Result<i32, Seq<char>> {
    if code < 0 {
        Err("start plugin failed: "@ + decimal(code as int))
    } else {
        Ok(code)
    }
}

/// What the code that a plugin's `run` returned means for its worker.
pub fn run_outcome(code: i32) -> (outcome: Result<i32, String>)
    ensures
        halt_view(outcome) == run_outcome_of(code),
{
    if code < 0 {
        Err(String::from_str("start plugin failed: ").concat(decimal_i64(code as i64).as_str()))
    } else {
        Ok(code)
    }
}

/// What the manager is waiting for.
#[derive(Clone, Copy, Debug, PartialEq, Eq, Structural)]
pub enum Pending {
    /// Nothing: the next command is welcome.
    Idle,
    /// The launch of the entry at this position, asked for by `start_plugin`.
    Starting(usize),
    /// The launch of the entry at this position, asked for by `add_plugin`.
    Adding(usize),
    /// The launch of the entry at this position, asked for by `start_active`.
    Booting(usize),
    /// The halt of the entry at this position, asked for by `stop_plugin`.
    Stopping(usize),
    /// The halt of the entry at this position, asked for by `remove_plugin`.
    Removing(usize),
    /// The error flag of the entry at this position, asked for by
    /// `check_plugin`.
    Probing(usize),
    /// The halt of the entry at this position, whose error flag was raised.
    Clearing(usize),
}

/// Why a command of the manager failed.
#[derive(Debug, PartialEq, Eq)]
pub enum PluginError {
    /// `start_plugin` was given a name that the roster does not hold.
    Unknown { name: String },
    /// `stop_plugin` was given a name that the roster does not hold.
    UnknownToStop { name: String },
    /// The plugin is meant to run but none is loaded under its name.
    NotLoaded { name: String },
    /// The host could not launch the plugin; `detail` is its report.
    Launch { detail: String },
    /// The host could not halt the plugin; `detail` is its report.
    Halt { detail: String },
    /// The roster did not reach its file: its text does not read as the
    /// roster, or the host could not write it; `detail` says which.
    Flush { detail: String },
    /// A command came while another was under way, or an outcome came that
    /// the manager had not asked for.
    OutOfTurn,
    /// The roster text is no YAML.
    Malformed { detail: String },
    /// The roster text holds no document, or its document no `plugins`
    /// mapping.
    NoRoster,
    /// The name of a plugin in the roster text is no string.
    BadName,
    /// The `path` of a plugin in the roster text is missing or no string.
    BadPath,
    /// The `active` of a plugin in the roster text is missing or no
    /// boolean.
    BadActive,
}

/// An error of the manager without the reports of outside code.
pub enum ErrorView {
    Unknown(Seq<char>),
    UnknownToStop(Seq<char>),
    NotLoaded(Seq<char>),
    Launch(Seq<char>),
    Halt(Seq<char>),
    Flush,
    OutOfTurn,
    Malformed,
    NoRoster,
    BadName,
    BadPath,
    BadActive,
}

impl View for PluginError {
    type V = ErrorView;

    open spec fn view(&self) -> ErrorView {
        match self {
            PluginError::Unknown { name } => ErrorView::Unknown(name@),
            PluginError::UnknownToStop { name } => ErrorView::UnknownToStop(name@),
            PluginError::NotLoaded { name } => ErrorView::NotLoaded(name@),
            PluginError::Launch { detail } => ErrorView::Launch(detail@),
            PluginError::Halt { detail } => ErrorView::Halt(detail@),
            PluginError::Flush { .. } => ErrorView::Flush,
            PluginError::OutOfTurn => ErrorView::OutOfTurn,
            PluginError::Malformed { .. } => ErrorView::Malformed,
            PluginError::NoRoster => ErrorView::NoRoster,
            PluginError::BadName => ErrorView::BadName,
            PluginError::BadPath => ErrorView::BadPath,
            PluginError::BadActive => ErrorView::BadActive,
        }
    }
}

impl PluginError {
    /// The error as a line for a person to read.
    pub open spec fn spec_message(&self) -> Seq<char> {
        match self {
            PluginError::Unknown { name } => "get plugin["@ + name@
                + "] info failed, plugin does not exist"@,
            PluginError::UnknownToStop { name } => "stop plugin["@ + name@
                + "], get plugin info failed from plugin cfg"@,
            PluginError::NotLoaded { name } => "get plugin["@ + name@ + "] failed from plugins"@,
            PluginError::Launch { detail } => detail@,
            PluginError::Halt { detail } => "stop plugin failed: "@ + detail@,
            PluginError::Flush { detail } => "flush config into plugin config failed: "@ + detail@,
            PluginError::OutOfTurn => "plugin manager is busy"@,
            PluginError::Malformed { detail } => "read plugin config failed: "@ + detail@,
            PluginError::NoRoster => "read plugin config failed"@,
            PluginError::BadName => "read plugin name failed"@,
            PluginError::BadPath => "read plugin path failed"@,
            PluginError::BadActive => "read plugin active failed"@,
        }
    }

    /// The error as a line for a person to read.
    pub fn message(&self) -> (text: String)
        ensures
            text@ == self.spec_message(),
    {
        match self {
            PluginError::Unknown { name } => enclose(
                "get plugin[",
                name.as_str(),
                "] info failed, plugin does not exist",
            ),
            PluginError::UnknownToStop { name } => enclose(
                "stop plugin[",
                name.as_str(),
                "], get plugin info failed from plugin cfg",
            ),
            PluginError::NotLoaded { name } => enclose(
                "get plugin[",
                name.as_str(),
                "] failed from plugins",
            ),
            PluginError::Launch { detail } => detail.clone(),
            PluginError::Halt { detail } => String::from_str("stop plugin failed: ").concat(
                detail.as_str(),
            ),
            PluginError::Flush { detail } => String::from_str(
                "flush config into plugin config failed: ",
            ).concat(detail.as_str()),
            PluginError::OutOfTurn => String::from_str("plugin manager is busy"),
            PluginError::Malformed { detail } => String::from_str(
                "read plugin config failed: ",
            ).concat(detail.as_str()),
            PluginError::NoRoster => String::from_str("read plugin config failed"),
            PluginError::BadName => String::from_str("read plugin name failed"),
            PluginError::BadPath => String::from_str("read plugin path failed"),
            PluginError::BadActive => String::from_str("read plugin active failed"),
        }
    }
}

/// What the manager hands back: work for the host, or the reply.
#[derive(Debug, PartialEq, Eq)]
pub enum Step {
    /// Open the library at `path`, start its worker with fresh flags, and
    /// report with `launched`.
    Launch { name: String, path: String },
    /// Lower the running flag of `name`, join its worker, drop the library,
    /// and report with `halted`.
    Halt { name: String },
    /// Read the error flag of `name` and report with `probed`.
    Probe { name: String },
    /// The command is answered. Where `roster` holds a text, it is the
    /// roster as it now stands, to be written to the roster file; `written`
    /// then tells what the caller gets.
    Done { reply: Result<String, PluginError>, roster: Option<String> },
}

/// A step with its texts as sequences of characters.
pub enum StepView {
    Launch { name: Seq<char>, path: Seq<char> },
    Halt { name: Seq<char> },
    Probe { name: Seq<char> },
    Done { reply: Result<Seq<char>, ErrorView>, roster: Option<Seq<char>> },
}

impl View for Step {
    type V = StepView;

    open spec fn view(&self) -> StepView {
        match self {
            Step::Launch { name, path } => StepView::Launch { name: name@, path: path@ },
            Step::Halt { name } => StepView::Halt { name: name@ },
            Step::Probe { name } => StepView::Probe { name: name@ },
            Step::Done { reply, roster } => StepView::Done {
                reply: match reply {
                    Ok(text) => Ok(text@),
                    Err(error) => Err(error@),
                },
                roster: match roster {
                    Some(text) => Some(text@),
                    None => None,
                },
            },
        }
    }
}

/// One plugin of the roster: its name, its descriptor, and the record of
/// its worker while one is loaded.
#[derive(Debug)]
pub struct PluginEntry {
    pub name: String,
    pub info: PluginInfo,
    pub plugin: Option<Plugin>,
}

/// An entry of the roster with its texts as sequences of characters.
pub struct EntryView {
    pub name: Seq<char>,
    pub path: Seq<char>,
    pub active: bool,
    pub plugin: Option<Plugin>,
}

impl View for PluginEntry {
    type V = EntryView;

    open spec fn view(&self) -> EntryView {
        EntryView {
            name: self.name@,
            path: self.info.path@,
            active: self.info.active,
            plugin: self.plugin,
        }
    }
}

impl EntryView {
    /// The entry with no worker and not meant to run.
    pub open spec fn cleared(self) -> EntryView {
        EntryView { active: false, plugin: None, ..self }
    }

    /// The entry with the running flag of its worker lowered.
    pub open spec fn lowered(self) -> EntryView {
        match self.plugin {
            Some(plugin) => EntryView {
                plugin: Some(Plugin { running_flag: false, ..plugin }),
                ..self
            },
            None => self,
        }
    }
}

/// The views of `entries`, in order.
pub open spec fn entries_of(entries: Seq<PluginEntry>) -> Seq<EntryView> {
    Seq::new(entries.len(), |i: int| entries[i]@)
}

/// The manager of the plugins of one supervisor.
#[derive(Debug)]
pub struct PluginMgr {
    config_path: String,
    entries: Vec<PluginEntry>,
    pending: Pending,
}

impl View for PluginMgr {
    type V = MgrView;

    closed spec fn view(&self) -> MgrView {
        MgrView {
            config_path: self.config_path@,
            entries: entries_of(self.entries@),
            pending: self.pending,
        }
    }
}

/// The outcome of a launch as the host reports it, with the report as a
/// sequence of characters.
pub open spec fn launch_view(outcome: Result<(), String>) -> Result<(), Seq<char>> {
    match outcome {
        Ok(_) => Ok(()),
        Err(detail) => Err(detail@),
    }
}

/// The outcome of a halt as the host reports it: the worker's return code,
/// or the report of the failure as a sequence of characters.
pub open spec fn halt_view(outcome: Result<i32, String>) -> Result<i32, Seq<char>> {
    match outcome {
        Ok(code) => Ok(code),
        Err(detail) => Err(detail@),
    }
}

/// The reply to what came out of turn.
fn refusal() -> (step: Step)
    ensures
        step@ == (StepView::Done { reply: Err(ErrorView::OutOfTurn), roster: None }),
{
    Step::Done { reply: Err(PluginError::OutOfTurn), roster: None }
}

/// The reply that fails with `error`.
fn failure(error: PluginError) -> (step: Step)
    ensures
        step@ == (StepView::Done { reply: Err(error@), roster: None }),
{
    Step::Done { reply: Err(error), roster: None }
}

/// The reply `message`, with nothing to write.
fn answer(message: String) -> (step: Step)
    ensures
        step@ == (StepView::Done { reply: Ok(message@), roster: None }),
{
    Step::Done { reply: Ok(message), roster: None }
}

/// The reply to a command whose roster text came out as `emitted`: the
/// message and the text to write where there is one, the flush error where
/// there is none.
pub fn flush_reply(message: String, emitted: Result<String, String>) -> (step: Step)
    ensures
        step@ == match emitted {
            Ok(text) => StepView::Done { reply: Ok(message@), roster: Some(text@) },
            Err(_) => StepView::Done { reply: Err(ErrorView::Flush), roster: None },
        },
{
    match emitted {
        Ok(text) => Step::Done { reply: Ok(message), roster: Some(text) },
        Err(detail) => Step::Done { reply: Err(PluginError::Flush { detail }), roster: None },
    }
}

/// What the caller of a command gets once the host has tried to write the
/// roster text that came with the reply: a write that failed turns a reply
/// that was a success into the flush error, with the host's report; any
/// other reply stands.
pub open spec fn reply_after_write(
    reply: Result<String, PluginError>,
    write: Result<(), String>,
) -> Result<String, PluginError> {
    match (reply, write) {
        (Ok(_), Err(detail)) => Err(PluginError::Flush { detail }),
        _ => reply,
    }
}

/// What the caller of a command gets once the host has tried to write the
/// roster text that came with the reply.
pub fn written(reply: Result<String, PluginError>, write: Result<(), String>) -> (outcome: Result<
    String,
    PluginError,
>)
    ensures
        outcome == reply_after_write(reply, write),
{
    match reply {
        Ok(message) => match write {
            Ok(_) => Ok(message),
            Err(detail) => Err(PluginError::Flush { detail }),
        },
        Err(error) => Err(error),
    }
}

impl PluginMgr {
    /// What always holds of the manager.
    pub open spec fn wf(&self) -> bool {
        self@.wf()
    }

    /// The path of the roster file.
    pub fn config_path(&self) -> (path: &String)
        ensures
            path@ == self@.config_path,
    {
        &self.config_path
    }

    /// Whether the manager waits for nothing.
    pub fn is_idle(&self) -> (idle: bool)
        ensures
            idle == (self@.pending == Pending::Idle),
    {
        self.pending == Pending::Idle
    }

    /// The number of plugins in the roster.
    pub fn len(&self) -> (n: usize)
        ensures
            n == self@.entries.len(),
    {
        self.entries.len()
    }

    /// The position of the entry named `name`, or the number of entries.
    fn find(&self, name: &str) -> (i: usize)
        ensures
            i == self@.find(name@),
            i <= self.entries.len(),
    {
        let wanted: String = name.to_owned();
        let mut i: usize = 0;
        while i < self.entries.len()
            invariant
                i <= self.entries.len(),
                wanted@ == name@,
                index_of(self@.entries, name@, 0) == index_of(self@.entries, name@, i as int),
            decreases self.entries.len() - i,
        {
            assert(self@.entries[i as int].name == self.entries[i as int].name@);
            if self.entries[i].name == wanted {
                return i;
            }
            i += 1;
        }
        i
    }

    /// Whether the roster holds a plugin named `name`.
    pub fn contains(&self, name: &str) -> (found: bool)
        ensures
            found == self@.contains(name@),
    {
        self.find(name) < self.entries.len()
    }

    /// Whether a worker is loaded for the plugin named `name`.
    pub fn is_running(&self, name: &str) -> (running: bool)
        ensures
            running == (self@.contains(name@) && self@.entries[self@.find(name@)].plugin is Some),
    {
        let i = self.find(name);
        if i < self.entries.len() {
            assert(self@.entries[i as int].plugin == self.entries[i as int].plugin);
            self.entries[i].plugin.is_some()
        } else {
            false
        }
    }

    /// The roster as a YAML document.
    fn roster_node(&self) -> (node: YamlNode)
        ensures
            node@ == roster_tree(self@.entries),
    {
        let mut plugins: Vec<(YamlNode, YamlNode)> = Vec::new();
        let mut i: usize = 0;
        while i < self.entries.len()
            invariant
                i <= self.entries.len(),
                plugins.len() == i,
                forall|k: int|
                    0 <= k < i ==> (#[trigger] plugins[k]).0@ == YamlTree::Str(self@.entries[k].name)
                        && plugins[k].1@ == info_tree(self@.entries[k]),
            decreases self.entries.len() - i,
        {
            let entry = &self.entries[i];
            let mut info: Vec<(YamlNode, YamlNode)> = Vec::new();
            info.push((YamlNode::Str(String::from_str("path")), YamlNode::Str(entry.info.path.clone())));
            info.push((YamlNode::Str(String::from_str("active")), YamlNode::Boolean(entry.info.active)));
            proof {
                lemma_view_hash(info);
                assert(self@.entries[i as int] == entry@);
                assert(entry_trees_of(info@) =~= info_tree(entry@)->Hash_0);
            }
            plugins.push((YamlNode::Str(entry.name.clone()), YamlNode::Hash(info)));
            i += 1;
        }
        let mut root: Vec<(YamlNode, YamlNode)> = Vec::new();
        proof {
            lemma_view_hash(plugins);
            assert(entry_trees_of(plugins@) =~= Seq::new(
                self@.entries.len(),
                |i: int| (YamlTree::Str(self@.entries[i].name), info_tree(self@.entries[i])),
            ));
        }
        root.push((YamlNode::Str(String::from_str("plugins")), YamlNode::Hash(plugins)));
        proof {
            lemma_view_hash(root);
            assert(entry_trees_of(root@) =~= roster_tree(self@.entries)->Hash_0);
        }
        YamlNode::Hash(root)
    }

    /// Whether `text` reads as the roster: the same plugins in the same
    /// order, each with its path and with whether it is meant to run.
    pub fn reads_back(&self, text: &str) -> (same: bool)
        ensures
            same == text_reads_back(text@, self@.entries),
    {
        let read = match PluginMgr::new("", text) {
            Ok(read) => read,
            Err(_) => {
                return false;
            },
        };
        if read.entries.len() != self.entries.len() {
            assert(read@.entries.len() != descriptors_of(self@.entries).len());
            return false;
        }
        let mut i: usize = 0;
        while i < self.entries.len()
            invariant
                i <= self.entries.len(),
                read.entries.len() == self.entries.len(),
                roster_of_text(text@) == Ok::<Seq<EntryView>, ErrorView>(read@.entries),
                forall|k: int|
                    0 <= k < i ==> (#[trigger] read@.entries[k]) == descriptors_of(
                        self@.entries,
                    )[k],
            decreases self.entries.len() - i,
        {
            let here = &self.entries[i];
            let there = &read.entries[i];
            assert(self@.entries[i as int] == here@);
            assert(read@.entries[i as int] == there@);
            let same = there.plugin.is_none() && there.name == here.name && there.info.path
                == here.info.path && there.info.active == here.info.active;
            if !same {
                assert(read@.entries[i as int] != descriptors_of(self@.entries)[i as int]);
                return false;
            }
            i += 1;
        }
        assert(read@.entries =~= descriptors_of(self@.entries));
        true
    }

    /// The roster as the YAML text that belongs in the roster file. Fails
    /// exactly where that text does not read as the roster, as it happens
    /// with a name or a path that the text shows as a number.
    pub fn flush_cfg(&self) -> (emitted: Result<String, String>)
        requires
            self.wf(),
        ensures
            match emitted {
                Ok(text) => text@ == yaml_text(roster_tree(self@.entries)) && text_reads_back(
                    text@,
                    self@.entries,
                ),
                Err(_) => !text_reads_back(yaml_text(roster_tree(self@.entries)), self@.entries),
            },
    {
        let node = self.roster_node();
        proof {
            lemma_roster_tree_keys(self@.entries);
        }
        match emit_tree(&node) {
            Err(report) => Err(report),
            Ok(text) => {
                if self.reads_back(text.as_str()) {
                    Ok(text)
                } else {
                    Err(String::from_str("the text of the roster does not read as the roster"))
                }
            },
        }
    }

    /// The reply `message` with the roster flushed.
    fn done(&self, message: String) -> (step: Step)
        requires
            self.wf(),
        ensures
            step@ == self@.flushed(message@),
    {
        flush_reply(message, self.flush_cfg())
    }

    /// The request to launch the entry at position `i`.
    fn launch(&self, i: usize) -> (step: Step)
        requires
            i < self.entries.len(),
        ensures
            step@ == (StepView::Launch {
                name: self@.entries[i as int].name,
                path: self@.entries[i as int].path,
            }),
    {
        assert(self@.entries[i as int] == self.entries[i as int]@);
        Step::Launch {
            name: self.entries[i].name.clone(),
            path: self.entries[i].info.path.clone(),
        }
    }

    /// The name of the entry at position `i`.
    fn name_at(&self, i: usize) -> (name: String)
        requires
            i < self.entries.len(),
        ensures
            name@ == self@.entries[i as int].name,
    {
        assert(self@.entries[i as int] == self.entries[i as int]@);
        self.entries[i].name.clone()
    }

    /// Gives the entry at position `i` the worker record `plugin` and says
    /// whether it is meant to run.
    fn set(&mut self, i: usize, active: bool, plugin: Option<Plugin>, pending: Pending)
        requires
            i < old(self).entries.len(),
        ensures
            final(self)@ == old(self)@.put(
                i as int,
                EntryView { active, plugin, ..old(self)@.entries[i as int] },
                pending,
            ),
    {
        self.entries[i].info.active = active;
        self.entries[i].plugin = plugin;
        self.pending = pending;
        assert(self@.entries =~= old(self)@.entries.update(
            i as int,
            EntryView { active, plugin, ..old(self)@.entries[i as int] },
        ));
    }

    /// Asks for the launch of the next plugin at or after `from` that is
    /// meant to run and has no worker.
    fn boot_from(&mut self, from: usize) -> (step: Step)
        requires
            from <= old(self).entries.len(),
        ensures
            (Turn { state: final(self)@, step: step@ }) == old(self)@.boot_from(from as int),
    {
        let mut i: usize = from;
        while i < self.entries.len()
            invariant
                from <= i <= self.entries.len(),
                *self == *old(self),
                next_unloaded(self@.entries, from as int) == next_unloaded(
                    self@.entries,
                    i as int,
                ),
            decreases self.entries.len() - i,
        {
            assert(self@.entries[i as int] == self.entries[i as int]@);
            if self.entries[i].info.active && self.entries[i].plugin.is_none() {
                let step = self.launch(i);
                self.pending = Pending::Booting(i);
                return step;
            }
            i += 1;
        }
        self.pending = Pending::Idle;
        answer(String::from_str("plugins started"))
    }

    /// Goes on with the check at the next plugin at or after `from` that
    /// is meant to run.
    fn check_from(&mut self, from: usize) -> (step: Step)
        requires
            from <= old(self).entries.len(),
        ensures
            (Turn { state: final(self)@, step: step@ }) == old(self)@.check_from(from as int),
    {
        let mut i: usize = from;
        while i < self.entries.len()
            invariant
                from <= i <= self.entries.len(),
                *self == *old(self),
                next_active(self@.entries, from as int) == next_active(self@.entries, i as int),
            decreases self.entries.len() - i,
        {
            assert(self@.entries[i as int] == self.entries[i as int]@);
            if self.entries[i].info.active {
                let name = self.name_at(i);
                if self.entries[i].plugin.is_none() {
                    self.pending = Pending::Idle;
                    return failure(PluginError::NotLoaded { name });
                }
                self.pending = Pending::Probing(i);
                return Step::Probe { name };
            }
            i += 1;
        }
        self.pending = Pending::Idle;
        answer(String::from_str("plugins checked"))
    }

    /// Starts the plugin named `name`. Fails where the roster holds no such
    /// name. A plugin that has a worker is reported as running. Of any
    /// other the launch is asked for; once it has succeeded, `launched`
    /// records the worker, marks the plugin as meant to run and flushes the
    /// roster. A launch that fails leaves the plugin as it was.
    pub fn start_plugin(&mut self, name: &str) -> (step: Step)
        requires
            old(self).wf(),
        ensures
            final(self).wf(),
            (Turn { state: final(self)@, step: step@ }) == old(self)@.on_start(name@),
    {
        proof {
            lemma_on_start_wf(self@, name@);
        }
        if !self.is_idle() {
            return refusal();
        }
        let i = self.find(name);
        if i >= self.entries.len() {
            return failure(PluginError::Unknown { name: name.to_owned() });
        }
        assert(self@.entries[i as int] == self.entries[i as int]@);
        if self.entries[i].plugin.is_some() {
            return self.done(enclose("plugin[", name, "] is already running"));
        }
        let step = self.launch(i);
        self.pending = Pending::Starting(i);
        step
    }

    /// Starts, one after the other in the roster's order, every plugin
    /// that is meant to run and has no worker. A launch that fails leaves
    /// its plugin meant to run and without a worker, and the next one is
    /// tried.
    pub fn start_active(&mut self) -> (step: Step)
        requires
            old(self).wf(),
        ensures
            final(self).wf(),
            (Turn { state: final(self)@, step: step@ }) == old(self)@.on_boot(),
    {
        if !self.is_idle() {
            return refusal();
        }
        proof {
            lemma_boot_from_wf(self@, 0);
        }
        self.boot_from(0)
    }

    /// Takes the outcome of the launch that the manager asked for. For
    /// `start_plugin` and `add_plugin`, success records a fresh worker and
    /// flushes the roster, and failure is the reply, with the plugin left
    /// meant to run and without a worker. For `start_active` the next
    /// launch follows either way.
    pub fn launched(&mut self, outcome: Result<(), String>) -> (step: Step)
        requires
            old(self).wf(),
        ensures
            final(self).wf(),
            (Turn { state: final(self)@, step: step@ }) == old(self)@.on_launched(
                launch_view(outcome),
            ),
    {
        proof {
            lemma_on_launched_wf(
                self@,
                launch_view(outcome),
            );
        }
        match self.pending {
            Pending::Starting(i) => {
                let name = self.name_at(i);
                self.launch_settled(i, outcome, enclose("plugin[", name.as_str(), "] is running"))
            },
            Pending::Adding(i) => {
                let name = self.name_at(i);
                self.launch_settled(i, outcome, enclose("plugin[", name.as_str(), "] added"))
            },
            Pending::Booting(i) => {
                match outcome {
                    Ok(_) => {
                        self.set(i, true, Some(Plugin::new()), Pending::Idle);
                    },
                    Err(_) => {},
                }
                self.boot_from(i + 1)
            },
            _ => refusal(),
        }
    }

    /// Ends a launch that a command asked for.
    fn launch_settled(&mut self, i: usize, outcome: Result<(), String>, message: String) -> (step:
        Step)
        requires
            old(self).wf(),
            old(self)@.pending == Pending::Starting(i) || old(self)@.pending == Pending::Adding(i),
        ensures
            (Turn { state: final(self)@, step: step@ }) == old(self)@.launch_settled(
                i as int,
                launch_view(outcome),
                message@,
            ),
    {
        match outcome {
            Ok(_) => {
                self.set(i, true, Some(Plugin::new()), Pending::Idle);
                proof {
                    lemma_update_keeps_names(
                        old(self)@.entries,
                        i as int,
                        EntryView {
                            active: true,
                            plugin: Some(Plugin::fresh()),
                            ..old(self)@.entries[i as int]
                        },
                    );
                }
                self.done(message)
            },
            Err(detail) => {
                self.pending = Pending::Idle;
                failure(PluginError::Launch { detail })
            },
        }
    }

    /// Stops the plugin named `name`. Fails where the roster holds no such
    /// name. A plugin without a worker is reported as not running. For any
    /// other the running flag is lowered and the halt is asked for;
    /// `halted` then drops the worker, marks the plugin as not meant to
    /// run, and flushes the roster.
    pub fn stop_plugin(&mut self, name: &str) -> (step: Step)
        requires
            old(self).wf(),
        ensures
            final(self).wf(),
            (Turn { state: final(self)@, step: step@ }) == old(self)@.on_stop(name@),
    {
        proof {
            lemma_on_stop_wf(self@, name@);
        }
        if !self.is_idle() {
            return refusal();
        }
        let i = self.find(name);
        if i >= self.entries.len() {
            return failure(PluginError::UnknownToStop { name: name.to_owned() });
        }
        assert(self@.entries[i as int] == self.entries[i as int]@);
        match self.entries[i].plugin {
            None => answer(enclose("plugin[", name, "] is not running")),
            Some(plugin) => {
                let step = Step::Halt { name: self.name_at(i) };
                let active = self.entries[i].info.active;
                self.set(
                    i,
                    active,
                    Some(Plugin { running_flag: false, error_flag: plugin.error_flag }),
                    Pending::Stopping(i),
                );
                step
            },
        }
    }

    /// Takes the outcome of the halt that the manager asked for. Whatever
    /// the outcome, the worker is dropped and the plugin marked as not
    /// meant to run. A failed halt is the reply and ends the command.
    /// Otherwise: after `stop_plugin` the roster is flushed; after
    /// `remove_plugin` the plugin is deleted and the roster flushed; after
    /// a raised error flag the check goes on with the next plugin.
    pub fn halted(&mut self, outcome: Result<i32, String>) -> (step: Step)
        requires
            old(self).wf(),
        ensures
            final(self).wf(),
            (Turn { state: final(self)@, step: step@ }) == old(self)@.on_halted(
                halt_view(outcome),
            ),
    {
        proof {
            lemma_on_halted_wf(
                self@,
                halt_view(outcome),
            );
        }
        match self.pending {
            Pending::Stopping(i) => {
                let name = self.name_at(i);
                self.set(i, false, None, Pending::Idle);
                match outcome {
                    Ok(_) => self.done(enclose("plugin[", name.as_str(), "] stopped")),
                    Err(detail) => failure(PluginError::Halt { detail }),
                }
            },
            Pending::Removing(i) => {
                let name = self.name_at(i);
                match outcome {
                    Ok(_) => {
                        self.delete(i);
                        self.done(enclose("plugin[", name.as_str(), "] has been removed"))
                    },
                    Err(detail) => {
                        self.set(i, false, None, Pending::Idle);
                        failure(PluginError::Halt { detail })
                    },
                }
            },
            Pending::Clearing(i) => {
                self.set(i, false, None, Pending::Idle);
                match outcome {
                    Ok(_) => self.check_from(i + 1),
                    Err(detail) => failure(PluginError::Halt { detail }),
                }
            },
            _ => refusal(),
        }
    }

    /// Deletes the entry at position `i`; nothing is waited for any more.
    fn delete(&mut self, i: usize)
        requires
            i < old(self).entries.len(),
        ensures
            final(self)@ == (MgrView {
                entries: old(self)@.entries.remove(i as int),
                pending: Pending::Idle,
                ..old(self)@
            }),
    {
        self.entries.remove(i);
        self.pending = Pending::Idle;
        assert(self@.entries =~= old(self)@.entries.remove(i as int));
    }

    /// Enters the plugin `name` with the library at `path`. A name that the
    /// roster holds changes nothing and is reported as added. A new one is
    /// entered behind the others; where it is meant to run its launch is
    /// asked for, and else the roster is flushed.
    pub fn add_plugin(&mut self, name: &str, path: &str, active: bool) -> (step: Step)
        requires
            old(self).wf(),
        ensures
            final(self).wf(),
            (Turn { state: final(self)@, step: step@ }) == old(self)@.on_add(name@, path@, active),
    {
        if !self.is_idle() {
            return refusal();
        }
        if self.contains(name) {
            proof {
                lemma_on_add_wf_present(self@, name@, path@, active);
            }
            return self.done(enclose("plugin[", name, "] has been added"));
        }
        let position = self.entries.len();
        self.entries.push(
            PluginEntry {
                name: name.to_owned(),
                info: PluginInfo { path: path.to_owned(), active },
                plugin: None,
            },
        );
        assert(self@.entries =~= old(self)@.entries.push(
            EntryView { name: name@, path: path@, active, plugin: None },
        ));
        // The length of the vector is a machine number, so the roster had
        // room for the new plugin.
        let entered = self.entries.len();
        proof {
            assert(old(self)@.entries.len() + 1 == entered);
            lemma_on_add_wf(old(self)@, name@, path@, active);
        }
        if active {
            self.pending = Pending::Adding(position);
            Step::Launch { name: name.to_owned(), path: path.to_owned() }
        } else {
            self.done(enclose("plugin[", name, "] added"))
        }
    }

    /// Takes the plugin named `name` out of the roster. A name that the
    /// roster does not hold changes nothing and is reported as removed. A
    /// plugin without a worker is deleted and the roster flushed. For one
    /// with a worker the running flag is lowered and the halt asked for;
    /// `halted` then deletes the plugin and flushes the roster.
    pub fn remove_plugin(&mut self, name: &str) -> (step: Step)
        requires
            old(self).wf(),
        ensures
            final(self).wf(),
            (Turn { state: final(self)@, step: step@ }) == old(self)@.on_remove(name@),
    {
        proof {
            lemma_on_remove_wf(self@, name@);
        }
        if !self.is_idle() {
            return refusal();
        }
        let i = self.find(name);
        if i >= self.entries.len() {
            return self.done(enclose("plugin[", name, "] has been removed"));
        }
        assert(self@.entries[i as int] == self.entries[i as int]@);
        match self.entries[i].plugin {
            None => {
                self.delete(i);
                self.done(enclose("plugin[", name, "] has been removed"))
            },
            Some(plugin) => {
                let step = Step::Halt { name: self.name_at(i) };
                let active = self.entries[i].info.active;
                self.set(
                    i,
                    active,
                    Some(Plugin { running_flag: false, error_flag: plugin.error_flag }),
                    Pending::Removing(i),
                );
                step
            },
        }
    }

    /// Looks at every plugin that is meant to run, in the roster's order. A
    /// plugin without a worker fails the check. Of any other the error flag
    /// is asked for; `probed` then goes on. The roster is not flushed.
    pub fn check_plugin(&mut self) -> (step: Step)
        requires
            old(self).wf(),
        ensures
            final(self).wf(),
            (Turn { state: final(self)@, step: step@ }) == old(self)@.on_check(),
    {
        if !self.is_idle() {
            return refusal();
        }
        proof {
            lemma_check_from_wf(self@, 0);
        }
        self.check_from(0)
    }

    /// Takes the error flag that the manager asked for. A raised flag is
    /// recorded, the running flag lowered and the halt asked for; `halted`
    /// then drops the worker and marks the plugin as not meant to run.
    /// Otherwise the check goes on with the next plugin.
    pub fn probed(&mut self, raised: bool) -> (step: Step)
        requires
            old(self).wf(),
        ensures
            final(self).wf(),
            (Turn { state: final(self)@, step: step@ }) == old(self)@.on_probed(raised),
    {
        proof {
            lemma_on_probed_wf(self@, raised);
        }
        match self.pending {
            Pending::Probing(i) => {
                if raised {
                    let step = Step::Halt { name: self.name_at(i) };
                    assert(self@.entries[i as int] == self.entries[i as int]@);
                    let active = self.entries[i].info.active;
                    self.set(
                        i,
                        active,
                        Some(Plugin { running_flag: false, error_flag: true }),
                        Pending::Clearing(i),
                    );
                    step
                } else {
                    self.check_from(i + 1)
                }
            },
            _ => refusal(),
        }
    }
}

impl PluginMgr {
    /// The manager of the roster that the YAML document `doc` holds, with
    /// `path` as the path of the roster file. No plugin has a worker yet.
    /// Fails where the document has no `plugins` mapping, and at the first
    /// plugin whose name is no string or whose `path` or `active` is
    /// missing or of the wrong kind.
    pub fn from_document(path: &str, doc: &YamlNode) -> (made: Result<PluginMgr, PluginError>)
        ensures
            match made {
                Ok(mgr) => mgr.wf() && mgr@.pending == Pending::Idle && mgr@.config_path == path@
                    && roster_of(doc@) == Ok::<Seq<EntryView>, ErrorView>(mgr@.entries),
                Err(error) => roster_of(doc@) == Err::<Seq<EntryView>, ErrorView>(error@),
            },
    {
        let pairs = match doc.lookup("plugins") {
            Some(node) => match node.as_hash() {
                Some(pairs) => pairs,
                None => return Err(PluginError::NoRoster),
            },
            None => return Err(PluginError::NoRoster),
        };
        let mut mgr = PluginMgr {
            config_path: path.to_owned(),
            entries: Vec::new(),
            pending: Pending::Idle,
        };
        assert(mgr@.entries =~= Seq::empty());
        let mut i: usize = 0;
        while i < pairs.len()
            invariant
                i <= pairs.len(),
                mgr.wf(),
                mgr@.pending == Pending::Idle,
                mgr@.config_path == path@,
                doc@.at("plugins"@).as_hash() == Some(entry_trees_of(pairs@)),
                roster_upto(entry_trees_of(pairs@), i as int) == Ok::<Seq<EntryView>, ErrorView>(
                    mgr@.entries,
                ),
            decreases pairs.len() - i,
        {
            let key = &pairs[i].0;
            let value = &pairs[i].1;
            assert(entry_trees_of(pairs@)[i as int] == (key@, value@));
            proof {
                if entry_of(key@, value@) is Err {
                    lemma_roster_error_stays(
                        entry_trees_of(pairs@),
                        i + 1,
                        pairs@.len() as int,
                    );
                }
            }
            let name = match key.as_str() {
                Some(name) => name,
                None => return Err(PluginError::BadName),
            };
            let library = match value.lookup("path") {
                Some(node) => match node.as_str() {
                    Some(library) => library,
                    None => return Err(PluginError::BadPath),
                },
                None => return Err(PluginError::BadPath),
            };
            let active = match value.lookup("active") {
                Some(node) => match node.as_bool() {
                    Some(active) => active,
                    None => return Err(PluginError::BadActive),
                },
                None => return Err(PluginError::BadActive),
            };
            if !mgr.contains(name.as_str()) {
                let ghost before = mgr@;
                mgr.entries.push(
                    PluginEntry {
                        name: name.clone(),
                        info: PluginInfo { path: library.clone(), active },
                        plugin: None,
                    },
                );
                // The length of the vector is a machine number, so the
                // roster had room for the plugin.
                let entered = mgr.entries.len();
                proof {
                    let entry = EntryView { name: name@, path: library@, active, plugin: None };
                    assert(mgr@.entries =~= before.entries.push(entry));
                    assert(before.entries.len() + 1 == entered);
                    lemma_push_keeps_names(before.entries, entry);
                }
            }
            i += 1;
        }
        Ok(mgr)
    }

    /// The manager of the roster that the YAML text `text` holds in its
    /// first document, with `path` as the path of the roster file. No
    /// plugin has a worker yet: `start_active` starts those that are meant
    /// to run. Fails where the text is no YAML or holds no document, and
    /// where `from_document` fails on the first document.
    pub fn new(path: &str, text: &str) -> (made: Result<PluginMgr, PluginError>)
        ensures
            match made {
                Ok(mgr) => mgr.wf() && mgr@.pending == Pending::Idle && mgr@.config_path == path@
                    && roster_of_text(text@) == Ok::<Seq<EntryView>, ErrorView>(mgr@.entries),
                Err(error) => roster_of_text(text@) == Err::<Seq<EntryView>, ErrorView>(error@),
            },
    {
        match parse_yaml(text) {
            Err(detail) => Err(PluginError::Malformed { detail }),
            Ok(docs) => {
                if docs.len() == 0 {
                    Err(PluginError::NoRoster)
                } else {
                    assert(trees_of(docs@)[0] == docs[0]@);
                    PluginMgr::from_document(path, &docs[0])
                }
            },
        }
    }

    /// The descriptors of the roster, in its order: each plugin's name with
    /// its path and whether it is meant to run.
    pub fn plugin_cfg(&self) -> (cfg: Vec<(String, PluginInfo)>)
        ensures
            cfg.len() == self@.entries.len(),
            forall|i: int|
                0 <= i < cfg.len() ==> (#[trigger] cfg[i]).0@ == self@.entries[i].name
                    && cfg[i].1.path@ == self@.entries[i].path && cfg[i].1.active
                    == self@.entries[i].active,
    {
        let mut cfg: Vec<(String, PluginInfo)> = Vec::new();
        let mut i: usize = 0;
        while i < self.entries.len()
            invariant
                i <= self.entries.len(),
                cfg.len() == i,
                forall|k: int|
                    0 <= k < i ==> (#[trigger] cfg[k]).0@ == self@.entries[k].name
                        && cfg[k].1.path@ == self@.entries[k].path && cfg[k].1.active
                        == self@.entries[k].active,
            decreases self.entries.len() - i,
        {
            let entry = &self.entries[i];
            assert(self@.entries[i as int] == entry@);
            cfg.push(
                (
                    entry.name.clone(),
                    PluginInfo { path: entry.info.path.clone(), active: entry.info.active },
                ),
            );
            i += 1;
        }
        cfg
    }
}

/// The text of the roster that a fresh configuration starts with: the two
/// plugins that come with the supervisor, neither meant to run.
pub fn generate_cfg() -> (emitted: Result<String, String>)
    ensures
        match emitted {
            Ok(text) => text@ == yaml_text(roster_tree(default_roster())),
            Err(_) => false,
        },
{
    let mut entries: Vec<PluginEntry> = Vec::new();
    entries.push(
        PluginEntry {
            name: String::from_str("vehicle_status"),
            info: PluginInfo { path: String::from_str("libvehicle_status.so"), active: false },
            plugin: None,
        },
    );
    entries.push(
        PluginEntry {
            name: String::from_str("traffic_light"),
            info: PluginInfo { path: String::from_str("libtraffic_light.so"), active: false },
            plugin: None,
        },
    );
    let mgr = PluginMgr { config_path: String::new(), entries, pending: Pending::Idle };
    proof {
        reveal_strlit("vehicle_status");
        reveal_strlit("traffic_light");
        assert("vehicle_status"@.len() != "traffic_light"@.len());
        assert(mgr@.entries =~= default_roster());
        lemma_roster_tree_keys(mgr@.entries);
    }
    emit_tree(&mgr.roster_node())
}

} // verus!
