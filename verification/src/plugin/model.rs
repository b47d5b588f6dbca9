//! The manager as a state machine: its states, and what each command and
//! each outcome makes of a state.

use crate::plugin::roster::{roster_tree, text_reads_back};
use crate::plugin::{EntryView, ErrorView, Pending, Plugin, StepView};
use crate::yaml::yaml_text;
use vstd::prelude::*;

verus! {

/// The position of the first entry at or after `from` with the name
/// `name`, or the number of entries where there is none.
pub open spec fn index_of(entries: Seq<EntryView>, name: Seq<char>, from: int) -> int
    decreases entries.len() - from,
{
    if from < 0 || from >= entries.len() {
        entries.len() as int
    } else if entries[from].name == name {
        from
    } else {
        index_of(entries, name, from + 1)
    }
}

/// The position of the first entry at or after `from` that is meant to
/// run, or the number of entries where there is none.
pub open spec fn next_active(entries: Seq<EntryView>, from: int) -> int
    decreases entries.len() - from,
{
    if from < 0 || from >= entries.len() {
        entries.len() as int
    } else if entries[from].active {
        from
    } else {
        next_active(entries, from + 1)
    }
}

/// The position of the first entry at or after `from` that is meant to
/// run and has no worker, or the number of entries where there is none.
pub open spec fn next_unloaded(entries: Seq<EntryView>, from: int) -> int
    decreases entries.len() - from,
{
    if from < 0 || from >= entries.len() {
        entries.len() as int
    } else if entries[from].active && entries[from].plugin is None {
        from
    } else {
        next_unloaded(entries, from + 1)
    }
}

/// No two entries have the same name.
pub open spec fn names_are_unique(entries: Seq<EntryView>) -> bool {
    forall|i: int, j: int|
        0 <= i < j < entries.len() ==> (#[trigger] entries[i]).name != (#[trigger] entries[j]).name
}

/// The state of the manager.
pub struct MgrView {
    pub config_path: Seq<char>,
    pub entries: Seq<EntryView>,
    pub pending: Pending,
}

/// The state after a command or an outcome, and the step handed back.
pub struct Turn {
    pub state: MgrView,
    pub step: StepView,
}

/// What `start_plugin` replies for a plugin that has a worker.
pub open spec fn msg_already_running(name: Seq<char>) -> Seq<char> {
    "plugin["@ + name + "] is already running"@
}

/// What `start_plugin` replies once the plugin has been launched.
pub open spec fn msg_running(name: Seq<char>) -> Seq<char> {
    "plugin["@ + name + "] is running"@
}

/// What `stop_plugin` replies for a plugin that has no worker.
pub open spec fn msg_not_running(name: Seq<char>) -> Seq<char> {
    "plugin["@ + name + "] is not running"@
}

/// What `stop_plugin` replies once the plugin has been halted.
pub open spec fn msg_stopped(name: Seq<char>) -> Seq<char> {
    "plugin["@ + name + "] stopped"@
}

/// What `add_plugin` replies for a name that the roster holds.
pub open spec fn msg_has_been_added(name: Seq<char>) -> Seq<char> {
    "plugin["@ + name + "] has been added"@
}

/// What `add_plugin` replies once the plugin has been entered.
pub open spec fn msg_added(name: Seq<char>) -> Seq<char> {
    "plugin["@ + name + "] added"@
}

/// What `remove_plugin` replies.
pub open spec fn msg_removed(name: Seq<char>) -> Seq<char> {
    "plugin["@ + name + "] has been removed"@
}

/// What `check_plugin` replies once every plugin has been looked at.
pub open spec fn msg_checked() -> Seq<char> {
    "plugins checked"@
}

/// What `start_active` replies once every launch has been tried.
pub open spec fn msg_booted() -> Seq<char> {
    "plugins started"@
}

impl MgrView {
    /// The position of the entry named `name`, or the number of entries
    /// where the roster holds no such name.
    pub open spec fn find(self, name: Seq<char>) -> int {
        index_of(self.entries, name, 0)
    }

    /// Whether the roster holds an entry named `name`.
    pub open spec fn contains(self, name: Seq<char>) -> bool {
        self.find(name) < self.entries.len()
    }

    /// Whether the manager waits for the halt of the entry at position `i`.
    pub open spec fn halts(self, i: int) -> bool {
        match self.pending {
            Pending::Stopping(at) | Pending::Removing(at) | Pending::Clearing(at) => at == i,
            _ => false,
        }
    }

    /// What always holds of the manager: names are unique; a worker is
    /// loaded only for a plugin that is meant to run; the flags of a worker
    /// are as they were at its start, until its halt is asked for, and from
    /// then on the running flag is down; and what the manager waits for
    /// concerns an entry that is there and in the fitting state. The roster
    /// is no longer than a machine can count.
    pub open spec fn wf(self) -> bool {
        &&& self.entries.len() <= usize::MAX
        &&& names_are_unique(self.entries)
        &&& forall|i: int|
            0 <= i < self.entries.len() && (#[trigger] self.entries[i]).plugin is Some ==> {
                &&& self.entries[i].active
                &&& if self.halts(i) {
                    !self.entries[i].plugin->Some_0.running_flag
                } else {
                    self.entries[i].plugin == Some(Plugin::fresh())
                }
            }
        &&& match self.pending {
            Pending::Idle => true,
            Pending::Starting(i) => i < self.entries.len() && self.entries[i as int].plugin is None,
            Pending::Adding(i) | Pending::Booting(i) => i < self.entries.len()
                && self.entries[i as int].active && self.entries[i as int].plugin is None,
            Pending::Stopping(i) | Pending::Removing(i) | Pending::Probing(i) | Pending::Clearing(
                i,
            ) => i < self.entries.len() && self.entries[i as int].plugin is Some,
        }
    }

    /// The manager waits for nothing, and a worker is loaded for exactly
    /// the plugins that are meant to run.
    pub open spec fn settled(self) -> bool {
        &&& self.pending == Pending::Idle
        &&& forall|i: int|
            0 <= i < self.entries.len() ==> ((#[trigger] self.entries[i]).plugin is Some
                <==> self.entries[i].active)
    }

    /// The state with `entry` at position `i` and `pending` awaited.
    pub open spec fn put(self, i: int, entry: EntryView, pending: Pending) -> MgrView {
        MgrView { entries: self.entries.update(i, entry), pending, ..self }
    }

    /// The state with `pending` awaited.
    pub open spec fn await_for(self, pending: Pending) -> MgrView {
        MgrView { pending, ..self }
    }

    /// The reply that refuses what came out of turn; nothing changes.
    pub open spec fn refused(self) -> Turn {
        Turn {
            state: self,
            step: StepView::Done { reply: Err(ErrorView::OutOfTurn), roster: None },
        }
    }

    /// The reply that fails with `error`; nothing is waited for any more.
    pub open spec fn failed(self, error: ErrorView) -> Turn {
        Turn {
            state: self.await_for(Pending::Idle),
            step: StepView::Done { reply: Err(error), roster: None },
        }
    }

    /// The reply `message` together with the roster's text, or the flush
    /// error where that text does not read as the roster.
    pub open spec fn flushed(self, message: Seq<char>) -> StepView {
        let text = yaml_text(roster_tree(self.entries));
        if text_reads_back(text, self.entries) {
            StepView::Done { reply: Ok(message), roster: Some(text) }
        } else {
            StepView::Done { reply: Err(ErrorView::Flush), roster: None }
        }
    }

    /// The reply `message` with the roster flushed; nothing is waited for
    /// any more.
    pub open spec fn finished(self, message: Seq<char>) -> Turn {
        Turn { state: self.await_for(Pending::Idle), step: self.flushed(message) }
    }

    /// `start_plugin`: an unknown name fails; a plugin that has a worker
    /// is reported as running; of any other the launch is asked for, and
    /// its entry stays as it is until the launch has succeeded.
    pub open spec fn on_start(self, name: Seq<char>) -> Turn {
        let i = self.find(name);
        if self.pending != Pending::Idle {
            self.refused()
        } else if i >= self.entries.len() {
            self.failed(ErrorView::Unknown(name))
        } else if self.entries[i].plugin is Some {
            self.finished(msg_already_running(name))
        } else {
            Turn {
                state: self.await_for(Pending::Starting(i as usize)),
                step: StepView::Launch { name: self.entries[i].name, path: self.entries[i].path },
            }
        }
    }

    /// The end of a launch that a command asked for: on success the entry
    /// gets a fresh worker record and is marked as meant to run, and the
    /// roster is flushed; on failure the host's report is the reply and the
    /// entry stays as it is.
    pub open spec fn launch_settled(
        self,
        i: int,
        outcome: Result<(), Seq<char>>,
        message: Seq<char>,
    ) -> Turn {
        match outcome {
            Ok(_) => self.put(
                i,
                EntryView { active: true, plugin: Some(Plugin::fresh()), ..self.entries[i] },
                Pending::Idle,
            ).finished(message),
            Err(detail) => self.failed(ErrorView::Launch(detail)),
        }
    }

    /// The launch of the next plugin at or after `from` that is meant to
    /// run and has no worker, or the reply when there is none.
    pub open spec fn boot_from(self, from: int) -> Turn {
        let i = next_unloaded(self.entries, from);
        if i < self.entries.len() {
            Turn {
                state: self.await_for(Pending::Booting(i as usize)),
                step: StepView::Launch { name: self.entries[i].name, path: self.entries[i].path },
            }
        } else {
            Turn {
                state: self.await_for(Pending::Idle),
                step: StepView::Done { reply: Ok(msg_booted()), roster: None },
            }
        }
    }

    /// `start_active`: the launch of every plugin that is meant to run and
    /// has no worker, one after the other in the roster's order.
    pub open spec fn on_boot(self) -> Turn {
        if self.pending != Pending::Idle {
            self.refused()
        } else {
            self.boot_from(0)
        }
    }

    /// `launched`: the outcome of the launch that the manager waits for.
    pub open spec fn on_launched(self, outcome: Result<(), Seq<char>>) -> Turn {
        match self.pending {
            Pending::Starting(i) => self.launch_settled(
                i as int,
                outcome,
                msg_running(self.entries[i as int].name),
            ),
            Pending::Adding(i) => self.launch_settled(
                i as int,
                outcome,
                msg_added(self.entries[i as int].name),
            ),
            Pending::Booting(i) => match outcome {
                Ok(_) => self.put(
                    i as int,
                    EntryView { plugin: Some(Plugin::fresh()), ..self.entries[i as int] },
                    Pending::Idle,
                ).boot_from(i + 1),
                Err(_) => self.boot_from(i + 1),
            },
            _ => self.refused(),
        }
    }

    /// `stop_plugin`: an unknown name fails; a plugin without a worker is
    /// reported as not running; for any other the running flag is lowered
    /// and the halt is asked for.
    pub open spec fn on_stop(self, name: Seq<char>) -> Turn {
        let i = self.find(name);
        if self.pending != Pending::Idle {
            self.refused()
        } else if i >= self.entries.len() {
            self.failed(ErrorView::UnknownToStop(name))
        } else if self.entries[i].plugin is None {
            Turn {
                state: self,
                step: StepView::Done { reply: Ok(msg_not_running(name)), roster: None },
            }
        } else {
            Turn {
                state: self.put(i, self.entries[i].lowered(), Pending::Stopping(i as usize)),
                step: StepView::Halt { name: self.entries[i].name },
            }
        }
    }

    /// The check of the next plugin at or after `from` that is meant to
    /// run: without a worker it fails the check, with one its error flag is
    /// asked for. When there is none the check is done.
    pub open spec fn check_from(self, from: int) -> Turn {
        let i = next_active(self.entries, from);
        if i >= self.entries.len() {
            Turn {
                state: self.await_for(Pending::Idle),
                step: StepView::Done { reply: Ok(msg_checked()), roster: None },
            }
        } else if self.entries[i].plugin is None {
            self.failed(ErrorView::NotLoaded(self.entries[i].name))
        } else {
            Turn {
                state: self.await_for(Pending::Probing(i as usize)),
                step: StepView::Probe { name: self.entries[i].name },
            }
        }
    }

    /// `check_plugin`: every plugin that is meant to run is looked at, in
    /// the roster's order.
    pub open spec fn on_check(self) -> Turn {
        if self.pending != Pending::Idle {
            self.refused()
        } else {
            self.check_from(0)
        }
    }

    /// `probed`: a raised error flag is recorded, the running flag lowered
    /// and the halt asked for; otherwise the check goes on.
    pub open spec fn on_probed(self, raised: bool) -> Turn {
        match self.pending {
            Pending::Probing(i) => if raised {
                Turn {
                    state: self.put(
                        i as int,
                        EntryView {
                            plugin: Some(Plugin { running_flag: false, error_flag: true }),
                            ..self.entries[i as int]
                        },
                        Pending::Clearing(i),
                    ),
                    step: StepView::Halt { name: self.entries[i as int].name },
                }
            } else {
                self.check_from(i + 1)
            },
            _ => self.refused(),
        }
    }

    /// `halted`: the worker is gone and its plugin no longer meant to run,
    /// whatever the outcome. After `stop_plugin` the roster is flushed;
    /// after `remove_plugin` the entry is deleted and the roster flushed;
    /// after a raised error flag the check goes on. A failed halt is the
    /// reply in each case, and ends the command.
    pub open spec fn on_halted(self, outcome: Result<i32, Seq<char>>) -> Turn {
        match self.pending {
            Pending::Stopping(i) => {
                let state = self.put(i as int, self.entries[i as int].cleared(), Pending::Idle);
                match outcome {
                    Ok(_) => state.finished(msg_stopped(self.entries[i as int].name)),
                    Err(detail) => state.failed(ErrorView::Halt(detail)),
                }
            },
            Pending::Removing(i) => match outcome {
                Ok(_) => MgrView {
                    entries: self.entries.remove(i as int),
                    pending: Pending::Idle,
                    ..self
                }.finished(msg_removed(self.entries[i as int].name)),
                Err(detail) => self.put(
                    i as int,
                    self.entries[i as int].cleared(),
                    Pending::Idle,
                ).failed(ErrorView::Halt(detail)),
            },
            Pending::Clearing(i) => {
                let state = self.put(i as int, self.entries[i as int].cleared(), Pending::Idle);
                match outcome {
                    Ok(_) => state.check_from(i + 1),
                    Err(detail) => state.failed(ErrorView::Halt(detail)),
                }
            },
            _ => self.refused(),
        }
    }

    /// `add_plugin`: a name that is there changes nothing; a new one is
    /// entered behind the others and, where it is meant to run, its launch
    /// is asked for.
    pub open spec fn on_add(self, name: Seq<char>, path: Seq<char>, active: bool) -> Turn {
        let entered = MgrView {
            entries: self.entries.push(EntryView { name, path, active, plugin: None }),
            ..self
        };
        if self.pending != Pending::Idle {
            self.refused()
        } else if self.contains(name) {
            self.finished(msg_has_been_added(name))
        } else if active {
            Turn {
                state: entered.await_for(Pending::Adding(self.entries.len() as usize)),
                step: StepView::Launch { name, path },
            }
        } else {
            entered.finished(msg_added(name))
        }
    }

    /// `remove_plugin`: an unknown name changes nothing; a plugin without a
    /// worker is deleted; for one with a worker the running flag is lowered
    /// and the halt asked for.
    pub open spec fn on_remove(self, name: Seq<char>) -> Turn {
        let i = self.find(name);
        if self.pending != Pending::Idle {
            self.refused()
        } else if i >= self.entries.len() {
            self.finished(msg_removed(name))
        } else if self.entries[i].plugin is None {
            MgrView { entries: self.entries.remove(i), ..self }.finished(msg_removed(name))
        } else {
            Turn {
                state: self.put(i, self.entries[i].lowered(), Pending::Removing(i as usize)),
                step: StepView::Halt { name: self.entries[i].name },
            }
        }
    }

    /// Every plugin that is meant to run has a worker, but for the one
    /// that was just entered and whose launch is awaited and, while the
    /// plugins are started one after the other, those that are still to
    /// come.
    pub open spec fn in_balance(self) -> bool {
        forall|k: int|
            0 <= k < self.entries.len() && (#[trigger] self.entries[k]).active
                && self.entries[k].plugin is None ==> match self.pending {
                Pending::Adding(i) => k == i,
                Pending::Booting(i) => k >= i,
                _ => false,
            }
    }
}

} // verus!
