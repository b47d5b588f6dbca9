//! What holds of the manager whatever commands and outcomes come.

use crate::plugin::model::{
    index_of, msg_has_been_added, msg_not_running, msg_removed, names_are_unique, next_active,
    next_unloaded, MgrView, Turn,
};
use crate::plugin::roster::{
    descriptors_of, lemma_roster_round_trip, roster_of, roster_tree, text_reads_back,
};
use crate::plugin::{EntryView, ErrorView, Pending, Plugin, StepView};
use crate::yaml::yaml_text;
use vstd::prelude::*;

verus! {

/// Where `index_of` points: at the first entry from `from` on with the
/// name, and past the end where there is none.
pub proof fn lemma_index_of(entries: Seq<EntryView>, name: Seq<char>, from: int)
    requires
        0 <= from <= entries.len(),
    ensures
        from <= index_of(entries, name, from) <= entries.len(),
        index_of(entries, name, from) < entries.len() ==> entries[index_of(
            entries,
            name,
            from,
        )].name == name,
        forall|k: int| from <= k < index_of(entries, name, from) ==> entries[k].name != name,
    decreases entries.len() - from,
{
    if from < entries.len() && entries[from].name != name {
        lemma_index_of(entries, name, from + 1);
    }
}

/// Where `next_active` points: at the first entry from `from` on that is
/// meant to run, and past the end where there is none.
pub proof fn lemma_next_active(entries: Seq<EntryView>, from: int)
    requires
        0 <= from <= entries.len(),
    ensures
        from <= next_active(entries, from) <= entries.len(),
        next_active(entries, from) < entries.len() ==> entries[next_active(entries, from)].active,
        forall|k: int| from <= k < next_active(entries, from) ==> !entries[k].active,
    decreases entries.len() - from,
{
    if from < entries.len() && !entries[from].active {
        lemma_next_active(entries, from + 1);
    }
}

/// Where `next_unloaded` points: at the first entry from `from` on that is
/// meant to run and has no worker, and past the end where there is none.
pub proof fn lemma_next_unloaded(entries: Seq<EntryView>, from: int)
    requires
        0 <= from <= entries.len(),
    ensures
        from <= next_unloaded(entries, from) <= entries.len(),
        next_unloaded(entries, from) < entries.len() ==> entries[next_unloaded(
            entries,
            from,
        )].active && entries[next_unloaded(entries, from)].plugin is None,
        forall|k: int|
            from <= k < next_unloaded(entries, from) ==> !(entries[k].active
                && entries[k].plugin is None),
    decreases entries.len() - from,
{
    if from < entries.len() && !(entries[from].active && entries[from].plugin is None) {
        lemma_next_unloaded(entries, from + 1);
    }
}

/// Replacing an entry by one of the same name keeps the names unique and
/// every name where it was.
pub proof fn lemma_update_keeps_names(entries: Seq<EntryView>, i: int, entry: EntryView)
    requires
        0 <= i < entries.len(),
        entry.name == entries[i].name,
    ensures
        names_are_unique(entries) ==> names_are_unique(entries.update(i, entry)),
        forall|name: Seq<char>, from: int|
            0 <= from <= entries.len() ==> #[trigger] index_of(entries.update(i, entry), name, from)
                == index_of(entries, name, from),
{
    let updated = entries.update(i, entry);
    if names_are_unique(entries) {
        assert forall|a: int, b: int| 0 <= a < b < updated.len() implies (#[trigger] updated[a]).name
            != (#[trigger] updated[b]).name by {
            assert(entries[a].name != entries[b].name);
        }
    }
    assert forall|name: Seq<char>, from: int| 0 <= from <= entries.len() implies #[trigger] index_of(
        updated,
        name,
        from,
    ) == index_of(entries, name, from) by {
        lemma_update_keeps_index(entries, i, entry, name, from);
    }
}

/// Replacing an entry by one of the same name keeps `index_of`.
pub proof fn lemma_update_keeps_index(
    entries: Seq<EntryView>,
    i: int,
    entry: EntryView,
    name: Seq<char>,
    from: int,
)
    requires
        0 <= i < entries.len(),
        entry.name == entries[i].name,
        0 <= from <= entries.len(),
    ensures
        index_of(entries.update(i, entry), name, from) == index_of(entries, name, from),
    decreases entries.len() - from,
{
    if from < entries.len() {
        lemma_update_keeps_index(entries, i, entry, name, from + 1);
    }
}

/// Deleting an entry keeps the names unique.
pub proof fn lemma_remove_keeps_names(entries: Seq<EntryView>, i: int)
    requires
        0 <= i < entries.len(),
        names_are_unique(entries),
    ensures
        names_are_unique(entries.remove(i)),
{
    let removed = entries.remove(i);
    assert forall|a: int, b: int| 0 <= a < b < removed.len() implies (#[trigger] removed[a]).name != (
    #[trigger] removed[b]).name by {
        let a0 = if a < i { a } else { a + 1 };
        let b0 = if b < i { b } else { b + 1 };
        assert(entries[a0].name != entries[b0].name);
    }
}

/// Entering a name that the roster does not hold keeps the names unique.
pub proof fn lemma_push_keeps_names(entries: Seq<EntryView>, entry: EntryView)
    requires
        names_are_unique(entries),
        index_of(entries, entry.name, 0) >= entries.len(),
    ensures
        names_are_unique(entries.push(entry)),
{
    lemma_index_of(entries, entry.name, 0);
    let pushed = entries.push(entry);
    assert forall|a: int, b: int| 0 <= a < b < pushed.len() implies (#[trigger] pushed[a]).name != (
    #[trigger] pushed[b]).name by {
        if b < entries.len() {
            assert(entries[a].name != entries[b].name);
        } else {
            assert(entries[a].name != entry.name);
        }
    }
}

/// Every command and every outcome leaves the manager in a state in which
/// names are unique, a worker is loaded only for a plugin that is meant to
/// run, and what is waited for concerns an entry in the fitting state.
pub proof fn lemma_turns_keep_wf(state: MgrView)
    requires
        state.wf(),
    ensures
        forall|name: Seq<char>| (#[trigger] state.on_start(name)).state.wf(),
        forall|name: Seq<char>| (#[trigger] state.on_stop(name)).state.wf(),
        forall|name: Seq<char>, path: Seq<char>, active: bool|
            state.entries.len() < usize::MAX ==> (#[trigger] state.on_add(
                name,
                path,
                active,
            )).state.wf(),
        forall|name: Seq<char>| (#[trigger] state.on_remove(name)).state.wf(),
        state.on_check().state.wf(),
        state.on_boot().state.wf(),
        forall|outcome: Result<(), Seq<char>>| (#[trigger] state.on_launched(outcome)).state.wf(),
        forall|outcome: Result<i32, Seq<char>>| (#[trigger] state.on_halted(outcome)).state.wf(),
        forall|raised: bool| (#[trigger] state.on_probed(raised)).state.wf(),
{
    assert forall|name: Seq<char>| (#[trigger] state.on_start(name)).state.wf() by {
        lemma_on_start_wf(state, name);
    }
    assert forall|name: Seq<char>| (#[trigger] state.on_stop(name)).state.wf() by {
        lemma_on_stop_wf(state, name);
    }
    assert forall|name: Seq<char>, path: Seq<char>, active: bool|
        state.entries.len() < usize::MAX implies (#[trigger] state.on_add(
        name,
        path,
        active,
    )).state.wf() by {
        lemma_on_add_wf(state, name, path, active);
    }
    assert forall|name: Seq<char>| (#[trigger] state.on_remove(name)).state.wf() by {
        lemma_on_remove_wf(state, name);
    }
    if state.pending == Pending::Idle {
        lemma_check_from_wf(state, 0);
        lemma_boot_from_wf(state, 0);
    }
    assert forall|outcome: Result<(), Seq<char>>| (#[trigger] state.on_launched(outcome)).state.wf() by {
        lemma_on_launched_wf(state, outcome);
    }
    assert forall|outcome: Result<i32, Seq<char>>| (#[trigger] state.on_halted(outcome)).state.wf() by {
        lemma_on_halted_wf(state, outcome);
    }
    assert forall|raised: bool| (#[trigger] state.on_probed(raised)).state.wf() by {
        lemma_on_probed_wf(state, raised);
    }
}

/// `start_plugin` keeps what always holds of the manager.
pub proof fn lemma_on_start_wf(state: MgrView, name: Seq<char>)
    requires
        state.wf(),
    ensures
        state.on_start(name).state.wf(),
{
    lemma_index_of(state.entries, name, 0);
}

/// Going on with the launches keeps what always holds of the manager.
pub proof fn lemma_boot_from_wf(state: MgrView, from: int)
    requires
        state.await_for(Pending::Idle).wf(),
        0 <= from <= state.entries.len(),
    ensures
        state.boot_from(from).state.wf(),
{
    lemma_next_unloaded(state.entries, from);
}

/// Going on with the check keeps what always holds of the manager.
pub proof fn lemma_check_from_wf(state: MgrView, from: int)
    requires
        state.await_for(Pending::Idle).wf(),
        0 <= from <= state.entries.len(),
    ensures
        state.check_from(from).state.wf(),
{
    lemma_next_active(state.entries, from);
}

/// `launched` keeps what always holds of the manager.
pub proof fn lemma_on_launched_wf(state: MgrView, outcome: Result<(), Seq<char>>)
    requires
        state.wf(),
    ensures
        state.on_launched(outcome).state.wf(),
{
    match state.pending {
        Pending::Starting(i) | Pending::Adding(i) | Pending::Booting(i) => {
            let entry = EntryView {
                active: true,
                plugin: Some(Plugin::fresh()),
                ..state.entries[i as int]
            };
            lemma_update_keeps_names(state.entries, i as int, entry);
            assert(state.pending is Starting || entry == (EntryView {
                plugin: Some(Plugin::fresh()),
                ..state.entries[i as int]
            }));
            if state.pending is Booting {
                lemma_boot_from_wf(state.put(i as int, entry, Pending::Idle), i + 1);
                lemma_boot_from_wf(state, i + 1);
            }
        },
        _ => {},
    }
}

/// `stop_plugin` keeps what always holds of the manager.
pub proof fn lemma_on_stop_wf(state: MgrView, name: Seq<char>)
    requires
        state.wf(),
    ensures
        state.on_stop(name).state.wf(),
{
    lemma_index_of(state.entries, name, 0);
    let i = state.find(name);
    if state.pending == Pending::Idle && i < state.entries.len() {
        lemma_update_keeps_names(state.entries, i, state.entries[i].lowered());
    }
}

/// `probed` keeps what always holds of the manager.
pub proof fn lemma_on_probed_wf(state: MgrView, raised: bool)
    requires
        state.wf(),
    ensures
        state.on_probed(raised).state.wf(),
{
    match state.pending {
        Pending::Probing(i) => {
            let entry = EntryView {
                plugin: Some(Plugin { running_flag: false, error_flag: true }),
                ..state.entries[i as int]
            };
            lemma_update_keeps_names(state.entries, i as int, entry);
            lemma_check_from_wf(state, i + 1);
        },
        _ => {},
    }
}

/// `halted` keeps what always holds of the manager.
pub proof fn lemma_on_halted_wf(state: MgrView, outcome: Result<i32, Seq<char>>)
    requires
        state.wf(),
    ensures
        state.on_halted(outcome).state.wf(),
{
    match state.pending {
        Pending::Stopping(i) | Pending::Removing(i) | Pending::Clearing(i) => {
            let cleared = state.entries[i as int].cleared();
            lemma_update_keeps_names(state.entries, i as int, cleared);
            lemma_remove_keeps_names(state.entries, i as int);
            if state.pending is Clearing {
                lemma_check_from_wf(state.put(i as int, cleared, Pending::Idle), i + 1);
            }
        },
        _ => {},
    }
}

/// `add_plugin` keeps what always holds of the manager, as long as the
/// roster has room for one more plugin.
pub proof fn lemma_on_add_wf(state: MgrView, name: Seq<char>, path: Seq<char>, active: bool)
    requires
        state.wf(),
        state.entries.len() < usize::MAX,
    ensures
        state.on_add(name, path, active).state.wf(),
{
    lemma_index_of(state.entries, name, 0);
    if state.pending == Pending::Idle && !state.contains(name) {
        lemma_push_keeps_names(state.entries, EntryView { name, path, active, plugin: None });
    }
}

/// `remove_plugin` keeps what always holds of the manager.
pub proof fn lemma_on_remove_wf(state: MgrView, name: Seq<char>)
    requires
        state.wf(),
    ensures
        state.on_remove(name).state.wf(),
{
    lemma_index_of(state.entries, name, 0);
    let i = state.find(name);
    if state.pending == Pending::Idle && i < state.entries.len() {
        lemma_update_keeps_names(state.entries, i, state.entries[i].lowered());
        lemma_remove_keeps_names(state.entries, i);
    }
}

/// Entering a name that is there leaves the manager as it was.
pub proof fn lemma_on_add_wf_present(state: MgrView, name: Seq<char>, path: Seq<char>, active: bool)
    requires
        state.wf(),
        state.pending == Pending::Idle,
        state.contains(name),
    ensures
        state.on_add(name, path, active).state == state,
{
}

/// A manager that waits for nothing is settled exactly if it is in
/// balance.
pub proof fn lemma_settled_is_idle_balance(state: MgrView)
    requires
        state.wf(),
    ensures
        state.settled() <==> state.pending == Pending::Idle && state.in_balance(),
{
    if state.pending == Pending::Idle && state.in_balance() {
        assert forall|i: int| 0 <= i < state.entries.len() implies ((
        #[trigger] state.entries[i]).plugin is Some <==> state.entries[i].active) by {}
    }
}

/// Every plugin that is meant to run has a worker whenever the manager
/// waits for nothing, as long as no launch fails that `add_plugin` or
/// `start_active` asked for: no command and no other outcome takes the
/// manager out of balance, a failed `start_plugin` among them, and starting
/// the active plugins brings it into balance from any state.
pub proof fn lemma_turns_keep_balance(state: MgrView)
    requires
        state.wf(),
    ensures
        state.pending == Pending::Idle ==> state.on_boot().state.in_balance(),
        state.in_balance() ==> {
            &&& forall|name: Seq<char>| (#[trigger] state.on_start(name)).state.in_balance()
            &&& forall|name: Seq<char>| (#[trigger] state.on_stop(name)).state.in_balance()
            &&& forall|name: Seq<char>, path: Seq<char>, active: bool|
                (#[trigger] state.on_add(name, path, active)).state.in_balance()
            &&& forall|name: Seq<char>| (#[trigger] state.on_remove(name)).state.in_balance()
            &&& state.on_check().state.in_balance()
            &&& forall|outcome: Result<(), Seq<char>>|
                outcome is Ok || state.pending is Starting ==> (#[trigger] state.on_launched(
                    outcome,
                )).state.in_balance()
            &&& forall|outcome: Result<i32, Seq<char>>|
                (#[trigger] state.on_halted(outcome)).state.in_balance()
            &&& forall|raised: bool| (#[trigger] state.on_probed(raised)).state.in_balance()
        },
{
    lemma_next_unloaded(state.entries, 0);
    lemma_next_active(state.entries, 0);
    if state.in_balance() {
        assert forall|name: Seq<char>| (#[trigger] state.on_start(name)).state.in_balance() by {
            lemma_index_of(state.entries, name, 0);
        }
        assert forall|name: Seq<char>| (#[trigger] state.on_stop(name)).state.in_balance() by {
            lemma_index_of(state.entries, name, 0);
        }
        assert forall|name: Seq<char>, path: Seq<char>, active: bool|
            (#[trigger] state.on_add(name, path, active)).state.in_balance() by {
            lemma_index_of(state.entries, name, 0);
        }
        assert forall|name: Seq<char>| (#[trigger] state.on_remove(name)).state.in_balance() by {
            lemma_index_of(state.entries, name, 0);
        }
        match state.pending {
            Pending::Booting(i) => {
                let loaded = state.put(
                    i as int,
                    EntryView { plugin: Some(Plugin::fresh()), ..state.entries[i as int] },
                    Pending::Idle,
                );
                lemma_next_unloaded(loaded.entries, i + 1);
            },
            Pending::Probing(i) => {
                lemma_next_active(state.entries, i + 1);
            },
            Pending::Clearing(i) => {
                let cleared = state.put(i as int, state.entries[i as int].cleared(), Pending::Idle);
                lemma_next_active(cleared.entries, i + 1);
            },
            _ => {},
        }
    }
}

/// Where the turn hands a text for the roster file back, it is the text of
/// the roster as it stands after the turn, that text reads as the roster,
/// and so does the roster's document.
pub open spec fn hands_back_the_roster(turn: Turn) -> bool {
    turn.step matches StepView::Done { roster: Some(text), .. } ==> {
        &&& text == yaml_text(roster_tree(turn.state.entries))
        &&& text_reads_back(text, turn.state.entries)
        &&& reads_back(turn.state.entries)
    }
}

/// The document of the roster reads back as the roster.
pub open spec fn reads_back(entries: Seq<EntryView>) -> bool {
    roster_of(roster_tree(entries)) == Ok::<Seq<EntryView>, ErrorView>(descriptors_of(entries))
}

/// Where the turn succeeds without handing a text for the roster file
/// back, the roster is as it was before the turn.
pub open spec fn keeps_the_roster_unless_flushed(state: MgrView, turn: Turn) -> bool {
    turn.step matches StepView::Done { reply: Ok(_), roster: None } ==> turn.state.entries
        == state.entries
}

/// The roster file follows the roster: whatever text a command or an
/// outcome hands back for the roster file is the text of the roster as it
/// then stands, and reading that text gives the roster again;
/// and where `start_plugin`, `stop_plugin`, `add_plugin` or `remove_plugin`
/// succeeds, at once or after the launch or the halt it asked for, without
/// handing a text back, the roster has not changed.
pub proof fn lemma_roster_file_follows(state: MgrView)
    requires
        state.wf(),
        state.entries.len() < usize::MAX,
    ensures
        forall|name: Seq<char>| hands_back_the_roster(#[trigger] state.on_start(name)),
        forall|name: Seq<char>| hands_back_the_roster(#[trigger] state.on_stop(name)),
        forall|name: Seq<char>, path: Seq<char>, active: bool|
            hands_back_the_roster(#[trigger] state.on_add(name, path, active)),
        forall|name: Seq<char>| hands_back_the_roster(#[trigger] state.on_remove(name)),
        forall|outcome: Result<(), Seq<char>>|
            hands_back_the_roster(#[trigger] state.on_launched(outcome)),
        forall|outcome: Result<i32, Seq<char>>|
            hands_back_the_roster(#[trigger] state.on_halted(outcome)),
        forall|raised: bool| hands_back_the_roster(#[trigger] state.on_probed(raised)),
        hands_back_the_roster(state.on_check()),
        hands_back_the_roster(state.on_boot()),
        forall|name: Seq<char>|
            keeps_the_roster_unless_flushed(state, #[trigger] state.on_start(name)),
        forall|name: Seq<char>|
            keeps_the_roster_unless_flushed(state, #[trigger] state.on_stop(name)),
        forall|name: Seq<char>, path: Seq<char>, active: bool|
            keeps_the_roster_unless_flushed(state, #[trigger] state.on_add(name, path, active)),
        forall|name: Seq<char>|
            keeps_the_roster_unless_flushed(state, #[trigger] state.on_remove(name)),
        forall|outcome: Result<(), Seq<char>>|
            !(state.pending is Booting) ==> keeps_the_roster_unless_flushed(
                state,
                #[trigger] state.on_launched(outcome),
            ),
        forall|outcome: Result<i32, Seq<char>>|
            !(state.pending is Clearing) ==> keeps_the_roster_unless_flushed(
                state,
                #[trigger] state.on_halted(outcome),
            ),
{
    lemma_turns_keep_wf(state);
    assert forall|entries: Seq<EntryView>| names_are_unique(entries) implies #[trigger] reads_back(
        entries,
    ) by {
        lemma_roster_round_trip(entries);
    }
    lemma_next_unloaded(state.entries, 0);
    lemma_next_active(state.entries, 0);
    match state.pending {
        Pending::Booting(i) => {
            lemma_next_unloaded(state.entries, i + 1);
            let loaded = state.put(
                i as int,
                EntryView { plugin: Some(Plugin::fresh()), ..state.entries[i as int] },
                Pending::Idle,
            );
            lemma_next_unloaded(loaded.entries, i + 1);
        },
        Pending::Probing(i) => {
            lemma_next_active(state.entries, i + 1);
        },
        Pending::Clearing(i) => {
            let cleared = state.put(i as int, state.entries[i as int].cleared(), Pending::Idle);
            lemma_next_active(cleared.entries, i + 1);
        },
        _ => {},
    }
}

/// A start that fails changes nothing: where the launch that
/// `start_plugin` asked for fails, the manager is in the state in which it
/// was before the command, the plugin marked as it was and without a
/// worker, the reply is the host's report, and no text for the roster file
/// is handed back.
pub proof fn lemma_failed_start_changes_nothing(state: MgrView, name: Seq<char>, detail: Seq<char>)
    requires
        state.wf(),
        state.pending == Pending::Idle,
        state.on_start(name).step is Launch,
    ensures
        state.on_start(name).state.on_launched(Err(detail)) == (Turn {
            state,
            step: StepView::Done { reply: Err(ErrorView::Launch(detail)), roster: None },
        }),
{
    lemma_index_of(state.entries, name, 0);
}

/// Stopping a plugin and starting it again is starting it afresh: once
/// the halt is reported, the manager is in the state in which the plugin
/// has no worker and is not meant to run, whatever the flags of the old
/// worker were and however the halt ended; the launch that follows is asked
/// for as for a plugin that never ran, and gives the plugin fresh flags.
pub proof fn lemma_restart_is_fresh_start(
    state: MgrView,
    name: Seq<char>,
    halt: Result<i32, Seq<char>>,
)
    requires
        state.wf(),
        state.pending == Pending::Idle,
        state.contains(name),
        state.entries[state.find(name)].plugin is Some,
    ensures
        ({
            let i = state.find(name);
            let never_ran = state.put(i, state.entries[i].cleared(), Pending::Idle);
            let stopped = state.on_stop(name).state.on_halted(halt).state;
            let started = stopped.on_start(name);
            let running = started.state.on_launched(Ok(())).state;
            &&& state.on_stop(name).step == (StepView::Halt { name })
            &&& stopped == never_ran
            &&& started.step == (StepView::Launch { name, path: state.entries[i].path })
            &&& running == never_ran.on_start(name).state.on_launched(Ok(())).state
            &&& running.entries[i] == (EntryView {
                active: true,
                plugin: Some(Plugin::fresh()),
                ..state.entries[i]
            })
            &&& running.pending == Pending::Idle
        }),
{
    let i = state.find(name);
    lemma_index_of(state.entries, name, 0);
    let lowered = state.put(i, state.entries[i].lowered(), Pending::Stopping(i as usize));
    assert(state.on_stop(name).state == lowered);
    let never_ran = state.put(i, state.entries[i].cleared(), Pending::Idle);
    assert(lowered.entries.update(i, lowered.entries[i].cleared()) =~= never_ran.entries);
    lemma_update_keeps_index(state.entries, i, state.entries[i].cleared(), name, 0);
}

/// Adding a plugin twice is adding it once: whatever the first
/// `add_plugin` led to, a second one for the same name changes nothing and
/// reports the plugin as added.
pub proof fn lemma_add_twice(
    state: MgrView,
    name: Seq<char>,
    path: Seq<char>,
    active: bool,
    launch: Result<(), Seq<char>>,
    path_again: Seq<char>,
    active_again: bool,
)
    requires
        state.wf(),
        state.pending == Pending::Idle,
        state.entries.len() < usize::MAX,
    ensures
        ({
            let first = state.on_add(name, path, active);
            let after = if first.step is Launch {
                first.state.on_launched(launch).state
            } else {
                first.state
            };
            let second = after.on_add(name, path_again, active_again);
            &&& after.pending == Pending::Idle
            &&& after.contains(name)
            &&& second.state == after
            &&& second.step == after.flushed(msg_has_been_added(name))
        }),
{
    lemma_index_of(state.entries, name, 0);
    let first = state.on_add(name, path, active);
    if state.contains(name) {
    } else {
        let entry = EntryView { name, path, active, plugin: None };
        let entered = state.entries.push(entry);
        lemma_found_at(entered, name, state.entries.len() as int);
        if active {
            let loaded = EntryView { plugin: Some(Plugin::fresh()), ..entry };
            lemma_update_keeps_index(entered, state.entries.len() as int, loaded, name, 0);
        }
    }
}

/// An entry with the name `name` at position `i` means that the roster
/// holds the name.
pub proof fn lemma_found_at(entries: Seq<EntryView>, name: Seq<char>, i: int)
    requires
        0 <= i < entries.len(),
        entries[i].name == name,
    ensures
        index_of(entries, name, 0) <= i,
{
    lemma_found_from(entries, name, i, 0);
}

/// An entry with the name `name` at position `i` is found from any
/// position up to `i`.
pub proof fn lemma_found_from(entries: Seq<EntryView>, name: Seq<char>, i: int, from: int)
    requires
        0 <= from <= i < entries.len(),
        entries[i].name == name,
    ensures
        index_of(entries, name, from) <= i,
    decreases i - from,
{
    if from < i && entries[from].name != name {
        lemma_found_from(entries, name, i, from + 1);
    }
}

/// Removing a plugin that the roster does not hold changes nothing and is
/// answered as a removal is, with the roster flushed: it succeeds wherever
/// the text of the roster reads as the roster. And once a plugin has been
/// removed, the roster does not hold it, so that removing it again changes
/// nothing either.
pub proof fn lemma_remove_is_idempotent(state: MgrView, name: Seq<char>, halt: Result<i32, Seq<char>>)
    requires
        state.wf(),
        state.pending == Pending::Idle,
    ensures
        !state.contains(name) ==> state.on_remove(name) == (Turn {
            state,
            step: state.flushed(msg_removed(name)),
        }),
        !state.contains(name) && text_reads_back(
            yaml_text(roster_tree(state.entries)),
            state.entries,
        ) ==> state.on_remove(name).step == (StepView::Done {
            reply: Ok(msg_removed(name)),
            roster: Some(yaml_text(roster_tree(state.entries))),
        }),
        ({
            let first = state.on_remove(name);
            let after = if first.step is Halt {
                first.state.on_halted(halt).state
            } else {
                first.state
            };
            (first.step is Halt ==> halt is Ok) ==> !after.contains(name) && after.pending
                == Pending::Idle
        }),
{
    lemma_index_of(state.entries, name, 0);
    let i = state.find(name);
    if i < state.entries.len() {
        let rest = state.entries.remove(i);
        lemma_index_of(rest, name, 0);
        let j = index_of(rest, name, 0);
        if j < rest.len() {
            let j0 = if j < i { j } else { j + 1 };
            assert(state.entries[j0].name == name);
            if j0 < i {
                assert(state.entries[j0].name != state.entries[i].name);
            } else {
                assert(state.entries[i].name != state.entries[j0].name);
            }
        }
        if state.entries[i].plugin is Some {
            let lowered = state.entries.update(i, state.entries[i].lowered());
            assert(lowered.remove(i) =~= rest);
        }
    }
}

/// Stopping a plugin twice in a row succeeds twice: once the first stop is
/// over, the plugin has no worker, and the second stop changes nothing and
/// reports the plugin as not running.
pub proof fn lemma_stop_twice(state: MgrView, name: Seq<char>, halt: Result<i32, Seq<char>>)
    requires
        state.wf(),
        state.pending == Pending::Idle,
        state.contains(name),
    ensures
        ({
            let first = state.on_stop(name);
            let after = if first.step is Halt {
                first.state.on_halted(halt).state
            } else {
                first.state
            };
            after.on_stop(name) == (Turn {
                state: after,
                step: StepView::Done { reply: Ok(msg_not_running(name)), roster: None },
            })
        }),
{
    lemma_index_of(state.entries, name, 0);
    let i = state.find(name);
    if state.entries[i].plugin is Some {
        lemma_update_keeps_index(state.entries, i, state.entries[i].lowered(), name, 0);
        let lowered = state.entries.update(i, state.entries[i].lowered());
        lemma_update_keeps_index(lowered, i, lowered[i].cleared(), name, 0);
    }
}

} // verus!
