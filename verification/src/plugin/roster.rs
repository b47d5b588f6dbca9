//! The roster as a YAML document: how it is written, and how it is read.

use crate::plugin::laws::lemma_index_of;
use crate::plugin::model::{index_of, names_are_unique};
use crate::plugin::{EntryView, ErrorView};
use crate::yaml::{position_of, yaml_documents, YamlTree};
use vstd::prelude::*;

verus! {

/// The descriptor of an entry as a YAML mapping.
pub open spec fn info_tree(entry: EntryView) -> YamlTree {
    YamlTree::Hash(
        seq![
            (YamlTree::Str("path"@), YamlTree::Str(entry.path)),
            (YamlTree::Str("active"@), YamlTree::Boolean(entry.active)),
        ],
    )
}

/// The roster as a YAML document: under `plugins`, one mapping per plugin,
/// keyed by its name, in the roster's order.
pub open spec fn roster_tree(entries: Seq<EntryView>) -> YamlTree {
    YamlTree::Hash(
        seq![
            (
                YamlTree::Str("plugins"@),
                YamlTree::Hash(
                    Seq::new(
                        entries.len(),
                        |i: int| (YamlTree::Str(entries[i].name), info_tree(entries[i])),
                    ),
                ),
            ),
        ],
    )
}

/// A roster with unique names makes a YAML document in which no mapping
/// repeats a key.
pub proof fn lemma_roster_tree_keys(entries: Seq<EntryView>)
    requires
        names_are_unique(entries),
    ensures
        roster_tree(entries).keys_are_unique(),
{
    reveal_with_fuel(YamlTree::keys_are_unique, 4);
    reveal_strlit("path");
    reveal_strlit("active");
    let plugins = Seq::new(
        entries.len(),
        |i: int| (YamlTree::Str(entries[i].name), info_tree(entries[i])),
    );
    assert forall|i: int| 0 <= i < plugins.len() implies (#[trigger] plugins[i]).0.keys_are_unique()
        && plugins[i].1.keys_are_unique() by {
        let info = plugins[i].1->Hash_0;
        assert("path"@.len() != "active"@.len());
        assert(info[0].0 != info[1].0);
    }
    assert forall|i: int, j: int| 0 <= i < j < plugins.len() implies (#[trigger] plugins[i]).0 != (
    #[trigger] plugins[j]).0 by {
        assert(entries[i].name != entries[j].name);
    }
    assert(YamlTree::Hash(plugins).keys_are_unique());
}

/// The roster entry that a pair of a YAML mapping stands for: the key is
/// the name, and the value holds the path under `path` and the desired
/// state under `active`.
pub open spec fn entry_of(key: YamlTree, value: YamlTree) -> Result<EntryView, ErrorView> {
    match key.as_str() {
        None => Err(ErrorView::BadName),
        Some(name) => match value.at("path"@).as_str() {
            None => Err(ErrorView::BadPath),
            Some(path) => match value.at("active"@).as_bool() {
                None => Err(ErrorView::BadActive),
                Some(active) => Ok(EntryView { name, path, active, plugin: None }),
            },
        },
    }
}

/// The roster that the first `n` pairs of a YAML mapping stand for. The
/// first pair that stands for no entry decides the error; of two pairs with
/// the same name the first counts.
pub open spec fn roster_upto(pairs: Seq<(YamlTree, YamlTree)>, n: int) -> Result<
    Seq<EntryView>,
    ErrorView,
>
    decreases n,
{
    if n <= 0 {
        Ok(Seq::empty())
    } else {
        match roster_upto(pairs, n - 1) {
            Err(error) => Err(error),
            Ok(entries) => match entry_of(pairs[n - 1].0, pairs[n - 1].1) {
                Err(error) => Err(error),
                Ok(entry) => if index_of(entries, entry.name, 0) < entries.len() {
                    Ok(entries)
                } else {
                    Ok(entries.push(entry))
                },
            },
        }
    }
}

/// Once a pair has decided the error, later pairs change nothing.
pub proof fn lemma_roster_error_stays(pairs: Seq<(YamlTree, YamlTree)>, n: int, m: int)
    requires
        0 <= n <= m,
        roster_upto(pairs, n) is Err,
    ensures
        roster_upto(pairs, m) == roster_upto(pairs, n),
    decreases m - n,
{
    if n < m {
        lemma_roster_error_stays(pairs, n, m - 1);
    }
}

/// The roster that a YAML document holds under `plugins`.
pub open spec fn roster_of(doc: YamlTree) -> Result<Seq<EntryView>, ErrorView> {
    match doc.at("plugins"@).as_hash() {
        None => Err(ErrorView::NoRoster),
        Some(pairs) => roster_upto(pairs, pairs.len() as int),
    }
}

/// The roster that a YAML text holds in its first document.
pub open spec fn roster_of_text(text: Seq<char>) -> Result<Seq<EntryView>, ErrorView> {
    match yaml_documents(text) {
        None => Err(ErrorView::Malformed),
        Some(docs) => if docs.len() == 0 {
            Err(ErrorView::NoRoster)
        } else {
            roster_of(docs[0])
        },
    }
}

/// Whether `text` reads as the roster `entries`: the same plugins in the
/// same order, each with its path and with whether it is meant to run.
pub open spec fn text_reads_back(text: Seq<char>, entries: Seq<EntryView>) -> bool {
    roster_of_text(text) == Ok::<Seq<EntryView>, ErrorView>(descriptors_of(entries))
}

/// The entries of the roster that a fresh configuration starts with.
pub open spec fn default_roster() -> Seq<EntryView> {
    seq![
        EntryView {
            name: "vehicle_status"@,
            path: "libvehicle_status.so"@,
            active: false,
            plugin: None,
        },
        EntryView {
            name: "traffic_light"@,
            path: "libtraffic_light.so"@,
            active: false,
            plugin: None,
        },
    ]
}

/// The entries without their workers.
pub open spec fn descriptors_of(entries: Seq<EntryView>) -> Seq<EntryView> {
    Seq::new(entries.len(), |i: int| EntryView { plugin: None, ..entries[i] })
}

/// What is read back from the YAML document of a roster is the roster:
/// the same plugins in the same order, each with its path and with whether
/// it is meant to run, and none with a worker.
pub proof fn lemma_roster_round_trip(entries: Seq<EntryView>)
    requires
        names_are_unique(entries),
    ensures
        roster_of(roster_tree(entries)) == Ok::<Seq<EntryView>, ErrorView>(descriptors_of(entries)),
{
    let pairs = Seq::new(
        entries.len(),
        |i: int| (YamlTree::Str(entries[i].name), info_tree(entries[i])),
    );
    let root = seq![(YamlTree::Str("plugins"@), YamlTree::Hash(pairs))];
    assert(position_of(root, "plugins"@, 0) == 0);
    assert(roster_tree(entries).at("plugins"@) == YamlTree::Hash(pairs));
    lemma_roster_read_back(entries, entries.len() as int);
    assert(descriptors_of(entries).take(entries.len() as int) =~= descriptors_of(entries));
}

/// The first `n` pairs of a roster's YAML mapping read back as the first
/// `n` entries of the roster.
pub proof fn lemma_roster_read_back(entries: Seq<EntryView>, n: int)
    requires
        names_are_unique(entries),
        0 <= n <= entries.len(),
    ensures
        roster_upto(
            Seq::new(
                entries.len(),
                |i: int| (YamlTree::Str(entries[i].name), info_tree(entries[i])),
            ),
            n,
        ) == Ok::<Seq<EntryView>, ErrorView>(descriptors_of(entries).take(n)),
    decreases n,
{
    let pairs = Seq::new(
        entries.len(),
        |i: int| (YamlTree::Str(entries[i].name), info_tree(entries[i])),
    );
    let read = descriptors_of(entries);
    if n == 0 {
        assert(read.take(0) =~= Seq::empty());
    } else {
        lemma_roster_read_back(entries, n - 1);
        let entry = entries[n - 1];
        let info = seq![
            (YamlTree::Str("path"@), YamlTree::Str(entry.path)),
            (YamlTree::Str("active"@), YamlTree::Boolean(entry.active)),
        ];
        reveal_strlit("path");
        reveal_strlit("active");
        assert("path"@.len() != "active"@.len());
        assert(position_of(info, "path"@, 0) == 0);
        assert(position_of(info, "active"@, 1) == 1);
        assert(position_of(info, "active"@, 0) == 1);
        assert(entry_of(pairs[n - 1].0, pairs[n - 1].1) == Ok::<EntryView, ErrorView>(read[n - 1]));
        let sofar = read.take(n - 1);
        lemma_index_of(sofar, entry.name, 0);
        let found = index_of(sofar, entry.name, 0);
        if found < sofar.len() {
            assert(entries[found].name != entries[n - 1].name);
        }
        assert(sofar.push(read[n - 1]) =~= read.take(n));
    }
}

} // verus!
