//! YAML documents as trees of plain values.
//!
//! Reading and writing YAML text is left to `yaml_rust`; this module holds
//! the tree that the rest of the library works on, the lookups on it, and
//! the few items through which the outside crate is reached.

use vstd::prelude::*;
use yaml_rust::{EmitError, ScanError, Yaml, YamlEmitter, YamlLoader};

verus! {

/// A node of a YAML document.
#[derive(Debug, PartialEq, Eq)]
pub enum YamlNode {
    /// A floating-point scalar, kept as it was written.
    Real(String),
    Integer(i64),
    Str(String),
    Boolean(bool),
    Array(Vec<YamlNode>),
    /// A mapping, as its entries in the order of the document.
    Hash(Vec<(YamlNode, YamlNode)>),
    Alias(usize),
    Null,
    /// What a lookup that finds nothing yields.
    BadValue,
}

/// A YAML node with its texts as sequences of characters.
pub enum YamlTree {
    Real(Seq<char>),
    Integer(i64),
    Str(Seq<char>),
    Boolean(bool),
    Array(Seq<YamlTree>),
    Hash(Seq<(YamlTree, YamlTree)>),
    Alias(usize),
    Null,
    BadValue,
}

/// The tree that `node` holds.
pub open spec fn tree_of(node: YamlNode) -> YamlTree
    decreases node,
{
    match node {
        YamlNode::Real(s) => YamlTree::Real(s@),
        YamlNode::Integer(i) => YamlTree::Integer(i),
        YamlNode::Str(s) => YamlTree::Str(s@),
        YamlNode::Boolean(b) => YamlTree::Boolean(b),
        YamlNode::Array(items) => YamlTree::Array(
            Seq::new(
                items@.len(),
                |i: int|
                    if 0 <= i < items@.len() {
                        tree_of(items@[i])
                    } else {
                        YamlTree::BadValue
                    },
            ),
        ),
        YamlNode::Hash(entries) => YamlTree::Hash(
            Seq::new(
                entries@.len(),
                |i: int|
                    if 0 <= i < entries@.len() {
                        (tree_of(entries@[i].0), tree_of(entries@[i].1))
                    } else {
                        (YamlTree::BadValue, YamlTree::BadValue)
                    },
            ),
        ),
        YamlNode::Alias(n) => YamlTree::Alias(n),
        YamlNode::Null => YamlTree::Null,
        YamlNode::BadValue => YamlTree::BadValue,
    }
}

impl View for YamlNode {
    type V = YamlTree;

    open spec fn view(&self) -> YamlTree {
        tree_of(*self)
    }
}

/// The trees of `nodes`, in order.
pub open spec fn trees_of(nodes: Seq<YamlNode>) -> Seq<YamlTree> {
    Seq::new(nodes.len(), |i: int| nodes[i]@)
}

/// The entries of a mapping as pairs of trees, in order.
pub open spec fn entry_trees_of(entries: Seq<(YamlNode, YamlNode)>) -> Seq<(YamlTree, YamlTree)> {
    Seq::new(entries.len(), |i: int| (entries[i].0@, entries[i].1@))
}

/// The position of the first entry at or after `from` whose key is the
/// text `key`, or the number of entries where there is none.
pub open spec fn position_of(entries: Seq<(YamlTree, YamlTree)>, key: Seq<char>, from: int) -> int
    decreases entries.len() - from,
{
    if from < 0 || from >= entries.len() {
        entries.len() as int
    } else if entries[from].0 == YamlTree::Str(key) {
        from
    } else {
        position_of(entries, key, from + 1)
    }
}

impl YamlTree {
    /// The value under the text key `key` of a mapping: that of the first
    /// entry with this key. A node that is no mapping, or has no such key,
    /// yields `BadValue`.
    pub open spec fn at(self, key: Seq<char>) -> YamlTree {
        match self {
            YamlTree::Hash(entries) => {
                let found = position_of(entries, key, 0);
                if found < entries.len() {
                    entries[found].1
                } else {
                    YamlTree::BadValue
                }
            },
            _ => YamlTree::BadValue,
        }
    }

    /// The text of a string scalar.
    pub open spec fn as_str(self) -> Option<Seq<char>> {
        match self {
            YamlTree::Str(s) => Some(s),
            _ => None,
        }
    }

    /// The value of a boolean scalar.
    pub open spec fn as_bool(self) -> Option<bool> {
        match self {
            YamlTree::Boolean(b) => Some(b),
            _ => None,
        }
    }

    /// The value of an integer scalar.
    pub open spec fn as_i64(self) -> Option<i64> {
        match self {
            YamlTree::Integer(i) => Some(i),
            _ => None,
        }
    }

    /// The entries of a mapping.
    pub open spec fn as_hash(self) -> Option<Seq<(YamlTree, YamlTree)>> {
        match self {
            YamlTree::Hash(entries) => Some(entries),
            _ => None,
        }
    }

    /// The items of a sequence.
    pub open spec fn as_vec(self) -> Option<Seq<YamlTree>> {
        match self {
            YamlTree::Array(items) => Some(items),
            _ => None,
        }
    }

    /// No mapping anywhere in the tree has two entries with the same key.
    pub open spec fn keys_are_unique(self) -> bool
        decreases self,
    {
        match self {
            YamlTree::Array(items) => forall|i: int|
                0 <= i < items.len() ==> (#[trigger] items[i]).keys_are_unique(),
            YamlTree::Hash(entries) => {
                &&& forall|i: int|
                    0 <= i < entries.len() ==> (#[trigger] entries[i]).0.keys_are_unique()
                        && entries[i].1.keys_are_unique()
                &&& forall|i: int, j: int|
                    0 <= i < j < entries.len() ==> (#[trigger] entries[i]).0 != (
                    #[trigger] entries[j]).0
            },
            _ => true,
        }
    }
}

/// What an array node holds is the trees of its items.
pub proof fn lemma_view_array(items: Vec<YamlNode>)
    ensures
        YamlNode::Array(items)@ == YamlTree::Array(trees_of(items@)),
{
    assert(YamlNode::Array(items)@->Array_0 =~= trees_of(items@));
}

/// What a mapping node holds is the trees of its entries.
pub proof fn lemma_view_hash(entries: Vec<(YamlNode, YamlNode)>)
    ensures
        YamlNode::Hash(entries)@ == YamlTree::Hash(entry_trees_of(entries@)),
{
    assert(YamlNode::Hash(entries)@->Hash_0 =~= entry_trees_of(entries@));
}

impl YamlNode {
    /// The node under the text key `key` of a mapping, if there is one.
    pub fn lookup(&self, key: &str) -> (found: Option<&YamlNode>)
        ensures
            match found {
                Some(node) => node@ == self@.at(key@),
                None => self@.at(key@) == YamlTree::BadValue,
            },
    {
        match self {
            YamlNode::Hash(entries) => {
                proof {
                    lemma_view_hash(*entries);
                }
                let wanted: String = key.to_owned();
                let mut i: usize = 0;
                while i < entries.len()
                    invariant
                        i <= entries.len(),
                        wanted@ == key@,
                        self@ == YamlTree::Hash(entry_trees_of(entries@)),
                        position_of(entry_trees_of(entries@), key@, 0) == position_of(
                            entry_trees_of(entries@),
                            key@,
                            i as int,
                        ),
                    decreases entries.len() - i,
                {
                    let hit = match &entries[i].0 {
                        YamlNode::Str(s) => *s == wanted,
                        _ => false,
                    };
                    assert(hit == (entry_trees_of(entries@)[i as int].0 == YamlTree::Str(key@)));
                    if hit {
                        assert(position_of(entry_trees_of(entries@), key@, i as int) == i);
                        assert(entry_trees_of(entries@)[i as int].1 == entries[i as int].1@);
                        return Some(&entries[i].1);
                    }
                    i += 1;
                }
                None
            },
            _ => None,
        }
    }

    /// The text of a string scalar.
    pub fn as_str(&self) -> (text: Option<&String>)
        ensures
            match text {
                Some(s) => self@.as_str() == Some(s@),
                None => self@.as_str() is None,
            },
    {
        match self {
            YamlNode::Str(s) => Some(s),
            _ => None,
        }
    }

    /// The value of a boolean scalar.
    pub fn as_bool(&self) -> (value: Option<bool>)
        ensures
            value == self@.as_bool(),
    {
        match self {
            YamlNode::Boolean(b) => Some(*b),
            _ => None,
        }
    }

    /// The value of an integer scalar.
    pub fn as_i64(&self) -> (value: Option<i64>)
        ensures
            value == self@.as_i64(),
    {
        match self {
            YamlNode::Integer(i) => Some(*i),
            _ => None,
        }
    }

    /// The entries of a mapping.
    pub fn as_hash(&self) -> (entries: Option<&Vec<(YamlNode, YamlNode)>>)
        ensures
            match entries {
                Some(e) => self@.as_hash() == Some(entry_trees_of(e@)),
                None => self@.as_hash() is None,
            },
    {
        match self {
            YamlNode::Hash(entries) => {
                proof {
                    lemma_view_hash(*entries);
                }
                Some(entries)
            },
            _ => None,
        }
    }

    /// The items of a sequence.
    pub fn as_vec(&self) -> (items: Option<&Vec<YamlNode>>)
        ensures
            match items {
                Some(v) => self@.as_vec() == Some(trees_of(v@)),
                None => self@.as_vec() is None,
            },
    {
        match self {
            YamlNode::Array(items) => {
                proof {
                    lemma_view_array(*items);
                }
                Some(items)
            },
            _ => None,
        }
    }
}

impl YamlNode {
    /// Whether the two nodes hold the same tree.
    pub fn same(&self, other: &YamlNode) -> (same: bool)
        ensures
            same == (self@ == other@),
        decreases self,
    {
        match (self, other) {
            (YamlNode::Real(a), YamlNode::Real(b)) => *a == *b,
            (YamlNode::Integer(a), YamlNode::Integer(b)) => *a == *b,
            (YamlNode::Str(a), YamlNode::Str(b)) => *a == *b,
            (YamlNode::Boolean(a), YamlNode::Boolean(b)) => *a == *b,
            (YamlNode::Alias(a), YamlNode::Alias(b)) => *a == *b,
            (YamlNode::Null, YamlNode::Null) => true,
            (YamlNode::BadValue, YamlNode::BadValue) => true,
            (YamlNode::Array(a), YamlNode::Array(b)) => {
                proof {
                    lemma_view_array(*a);
                    lemma_view_array(*b);
                }
                if a.len() != b.len() {
                    assert(trees_of(a@).len() != trees_of(b@).len());
                    return false;
                }
                let mut i: usize = 0;
                while i < a.len()
                    invariant
                        i <= a.len(),
                        a.len() == b.len(),
                        *self == YamlNode::Array(*a),
                        self@ == YamlTree::Array(trees_of(a@)),
                        other@ == YamlTree::Array(trees_of(b@)),
                        forall|k: int| 0 <= k < i ==> trees_of(a@)[k] == trees_of(b@)[k],
                    decreases a.len() - i,
                {
                    if !a[i].same(&b[i]) {
                        assert(trees_of(a@)[i as int] != trees_of(b@)[i as int]);
                        return false;
                    }
                    i += 1;
                }
                assert(trees_of(a@) =~= trees_of(b@));
                true
            },
            (YamlNode::Hash(a), YamlNode::Hash(b)) => {
                proof {
                    lemma_view_hash(*a);
                    lemma_view_hash(*b);
                }
                if a.len() != b.len() {
                    assert(entry_trees_of(a@).len() != entry_trees_of(b@).len());
                    return false;
                }
                let mut i: usize = 0;
                while i < a.len()
                    invariant
                        i <= a.len(),
                        a.len() == b.len(),
                        *self == YamlNode::Hash(*a),
                        self@ == YamlTree::Hash(entry_trees_of(a@)),
                        other@ == YamlTree::Hash(entry_trees_of(b@)),
                        forall|k: int|
                            0 <= k < i ==> entry_trees_of(a@)[k] == entry_trees_of(b@)[k],
                    decreases a.len() - i,
                {
                    if !a[i].0.same(&b[i].0) || !a[i].1.same(&b[i].1) {
                        assert(entry_trees_of(a@)[i as int] != entry_trees_of(b@)[i as int]);
                        return false;
                    }
                    i += 1;
                }
                assert(entry_trees_of(a@) =~= entry_trees_of(b@));
                true
            },
            _ => false,
        }
    }
}

/// In a sequence without repeated keys, no item has repeated keys.
pub proof fn lemma_array_keys(items: Seq<YamlTree>, i: int)
    requires
        YamlTree::Array(items).keys_are_unique(),
        0 <= i < items.len(),
    ensures
        items[i].keys_are_unique(),
{
    assert(YamlTree::Array(items)->Array_0 == items);
}

/// In a mapping without repeated keys, no key and no value has repeated
/// keys, and no two entries have the same key.
pub proof fn lemma_hash_keys(entries: Seq<(YamlTree, YamlTree)>, i: int, j: int)
    requires
        YamlTree::Hash(entries).keys_are_unique(),
        0 <= i < entries.len(),
        0 <= j < entries.len(),
    ensures
        entries[i].0.keys_are_unique(),
        entries[i].1.keys_are_unique(),
        i != j ==> entries[i].0 != entries[j].0,
{
    assert(YamlTree::Hash(entries)->Hash_0 == entries);
    if i < j {
        assert(entries[i].0 != entries[j].0);
    } else if j < i {
        assert(entries[j].0 != entries[i].0);
    }
}

/// Whether none of the first `n` keys of a mapping is the key at
/// position `at`.
fn key_is_new(entries: &Vec<(YamlNode, YamlNode)>, at: usize) -> (new: bool)
    requires
        at < entries.len(),
    ensures
        new == (forall|k: int| 0 <= k < at ==> entry_trees_of(entries@)[k].0 != entry_trees_of(
            entries@,
        )[at as int].0),
{
    let mut k: usize = 0;
    while k < at
        invariant
            k <= at,
            at < entries.len(),
            forall|j: int|
                0 <= j < k ==> entry_trees_of(entries@)[j].0 != entry_trees_of(entries@)[at as int].0,
        decreases at - k,
    {
        if entries[k].0.same(&entries[at].0) {
            assert(entry_trees_of(entries@)[k as int].0 == entry_trees_of(entries@)[at as int].0);
            return false;
        }
        k += 1;
    }
    true
}

impl YamlNode {
    /// Whether no mapping anywhere in the tree has two entries with the
    /// same key.
    pub fn has_unique_keys(&self) -> (unique: bool)
        ensures
            unique == self@.keys_are_unique(),
        decreases self,
    {
        match self {
            YamlNode::Array(items) => {
                proof {
                    lemma_view_array(*items);
                }
                let mut i: usize = 0;
                while i < items.len()
                    invariant
                        i <= items.len(),
                        *self == YamlNode::Array(*items),
                        self@ == YamlTree::Array(trees_of(items@)),
                        forall|k: int| 0 <= k < i ==> (#[trigger] trees_of(items@)[k]).keys_are_unique(),
                    decreases items.len() - i,
                {
                    if !items[i].has_unique_keys() {
                        assert(trees_of(items@)[i as int] == items[i as int]@);
                        proof {
                            if self@.keys_are_unique() {
                                lemma_array_keys(trees_of(items@), i as int);
                            }
                        }
                        return false;
                    }
                    assert(trees_of(items@)[i as int] == items[i as int]@);
                    i += 1;
                }
                true
            },
            YamlNode::Hash(entries) => {
                proof {
                    lemma_view_hash(*entries);
                }
                let mut i: usize = 0;
                while i < entries.len()
                    invariant
                        i <= entries.len(),
                        *self == YamlNode::Hash(*entries),
                        self@ == YamlTree::Hash(entry_trees_of(entries@)),
                        forall|k: int|
                            0 <= k < i ==> (#[trigger] entry_trees_of(entries@)[k]).0.keys_are_unique()
                                && entry_trees_of(entries@)[k].1.keys_are_unique(),
                        forall|j: int, k: int|
                            0 <= j < k < i ==> (#[trigger] entry_trees_of(entries@)[j]).0 != (
                            #[trigger] entry_trees_of(entries@)[k]).0,
                    decreases entries.len() - i,
                {
                    let sound = entries[i].0.has_unique_keys() && entries[i].1.has_unique_keys();
                    assert(entry_trees_of(entries@)[i as int] == (
                        entries[i as int].0@,
                        entries[i as int].1@,
                    ));
                    if !sound {
                        proof {
                            if self@.keys_are_unique() {
                                lemma_hash_keys(entry_trees_of(entries@), i as int, i as int);
                            }
                        }
                        return false;
                    }
                    if !key_is_new(entries, i) {
                        proof {
                            let clash = choose|k: int|
                                0 <= k < i && entry_trees_of(entries@)[k].0 == entry_trees_of(
                                    entries@,
                                )[i as int].0;
                            if self@.keys_are_unique() {
                                lemma_hash_keys(entry_trees_of(entries@), clash, i as int);
                            }
                        }
                        return false;
                    }
                    i += 1;
                }
                true
            },
            _ => true,
        }
    }
}

/// The string scalar `text`.
pub fn text_node(text: &str) -> (node: YamlNode)
    ensures
        node@ == YamlTree::Str(text@),
{
    YamlNode::Str(String::from_str(text))
}

/// The mapping with the entries `entries`.
pub fn hash_node(entries: Vec<(YamlNode, YamlNode)>) -> (node: YamlNode)
    ensures
        node@ == YamlTree::Hash(entry_trees_of(entries@)),
{
    proof {
        lemma_view_hash(entries);
    }
    YamlNode::Hash(entries)
}

/// The sequence with the items `items`.
pub fn array_node(items: Vec<YamlNode>) -> (node: YamlNode)
    ensures
        node@ == YamlTree::Array(trees_of(items@)),
{
    proof {
        lemma_view_array(items);
    }
    YamlNode::Array(items)
}

/// `yaml_rust::Yaml`, carried through as it is.
#[verifier::external_type_specification]
#[verifier::external_body]
pub struct ExYaml(Yaml);

/// `yaml_rust::ScanError`, carried through as it is.
#[verifier::external_type_specification]
#[verifier::external_body]
pub struct ExScanError(ScanError);

/// `yaml_rust::EmitError`, carried through as it is.
#[verifier::external_type_specification]
#[verifier::external_body]
pub struct ExEmitError(EmitError);

/// The tree that a `yaml_rust::Yaml` value holds.
pub uninterp spec fn yaml_tree(yaml: Yaml) -> YamlTree;

/// The documents that `yaml_rust` reads out of a text, or `None` where it
/// rejects the text.
pub uninterp spec fn yaml_documents(text: Seq<char>) -> Option<Seq<YamlTree>>;

/// The text that `yaml_rust` writes for a tree.
pub uninterp spec fn yaml_text(tree: YamlTree) -> Seq<char>;

/// `YamlLoader::load_from_str`: the documents of a text. The contract
/// gives the outcome its name, `yaml_documents`, and says nothing of what
/// the documents are.
#[verifier::external_body]
fn load_documents(text: &str) -> (loaded: Result<Vec<Yaml>, ScanError>)
    ensures
        match loaded {
            Ok(docs) => yaml_documents(text@) == Some(
                Seq::new(docs@.len(), |i: int| yaml_tree(docs@[i])),
            ),
            Err(_) => yaml_documents(text@) is None,
        },
{
    YamlLoader::load_from_str(text)
}

/// One level of a `yaml_rust::Yaml` value: its variant, with the values
/// below it as they are.
enum YamlShape<'a> {
    Real(&'a String),
    Integer(i64),
    Str(&'a String),
    Boolean(bool),
    Array(&'a Vec<Yaml>),
    Hash(Vec<(&'a Yaml, &'a Yaml)>),
    Alias(usize),
    Null,
    BadValue,
}

/// The tree that a value of the given shape holds.
spec fn shape_tree(shape: YamlShape<'_>) -> YamlTree {
    match shape {
        YamlShape::Real(s) => YamlTree::Real(s@),
        YamlShape::Integer(i) => YamlTree::Integer(i),
        YamlShape::Str(s) => YamlTree::Str(s@),
        YamlShape::Boolean(b) => YamlTree::Boolean(b),
        YamlShape::Array(items) => YamlTree::Array(
            Seq::new(items@.len(), |i: int| yaml_tree(items@[i])),
        ),
        YamlShape::Hash(pairs) => YamlTree::Hash(
            Seq::new(pairs@.len(), |i: int| (yaml_tree(*pairs@[i].0), yaml_tree(*pairs@[i].1))),
        ),
        YamlShape::Alias(n) => YamlTree::Alias(n),
        YamlShape::Null => YamlTree::Null,
        YamlShape::BadValue => YamlTree::BadValue,
    }
}

/// Tells the variants of `yaml_rust::Yaml` apart and hands out what the
/// value holds: a scalar as it is, the items of a sequence, and the entries
/// of a mapping in the order in which the mapping hands them out. The
/// contract says that the tree of the value, `yaml_tree`, is made of the
/// trees of what was handed out.
#[verifier::external_body]
fn shape_of_yaml(yaml: &Yaml) -> (shape: YamlShape<'_>)
    ensures
        shape_tree(shape) == yaml_tree(*yaml),
{
    match yaml {
        Yaml::Real(s) => YamlShape::Real(s),
        Yaml::Integer(i) => YamlShape::Integer(*i),
        Yaml::String(s) => YamlShape::Str(s),
        Yaml::Boolean(b) => YamlShape::Boolean(*b),
        Yaml::Array(a) => YamlShape::Array(a),
        Yaml::Hash(h) => YamlShape::Hash(h.iter().collect()),
        Yaml::Alias(n) => YamlShape::Alias(*n),
        Yaml::Null => YamlShape::Null,
        Yaml::BadValue => YamlShape::BadValue,
    }
}

/// One level of a `yaml_rust::Yaml` value to be made: its variant, with
/// the values below it already made.
enum YamlParts {
    Real(String),
    Integer(i64),
    Str(String),
    Boolean(bool),
    Array(Vec<Yaml>),
    Hash(Vec<(Yaml, Yaml)>),
    Alias(usize),
    Null,
    BadValue,
}

/// The tree that a value made of the given parts holds.
spec fn parts_tree(parts: YamlParts) -> YamlTree {
    match parts {
        YamlParts::Real(s) => YamlTree::Real(s@),
        YamlParts::Integer(i) => YamlTree::Integer(i),
        YamlParts::Str(s) => YamlTree::Str(s@),
        YamlParts::Boolean(b) => YamlTree::Boolean(b),
        YamlParts::Array(items) => YamlTree::Array(
            Seq::new(items@.len(), |i: int| yaml_tree(items@[i])),
        ),
        YamlParts::Hash(pairs) => YamlTree::Hash(
            Seq::new(pairs@.len(), |i: int| (yaml_tree(pairs@[i].0), yaml_tree(pairs@[i].1))),
        ),
        YamlParts::Alias(n) => YamlTree::Alias(n),
        YamlParts::Null => YamlTree::Null,
        YamlParts::BadValue => YamlTree::BadValue,
    }
}

/// No two of the entries have keys with the same tree.
spec fn keys_differ(pairs: Seq<(Yaml, Yaml)>) -> bool {
    forall|i: int, j: int|
        0 <= i < j < pairs.len() ==> yaml_tree((#[trigger] pairs[i]).0) != yaml_tree(
            (#[trigger] pairs[j]).0,
        )
}

/// Makes the `yaml_rust::Yaml` value of the given variant out of its
/// parts. A mapping of `yaml_rust` is filled entry by entry; it keeps the
/// entries in the order of insertion as long as no key comes twice, which
/// the contract asks for.
#[verifier::external_body]
fn yaml_of_parts(parts: YamlParts) -> (yaml: Yaml)
    requires
        parts matches YamlParts::Hash(pairs) ==> keys_differ(pairs@),
    ensures
        yaml_tree(yaml) == parts_tree(parts),
{
    match parts {
        YamlParts::Real(s) => Yaml::Real(s),
        YamlParts::Integer(i) => Yaml::Integer(i),
        YamlParts::Str(s) => Yaml::String(s),
        YamlParts::Boolean(b) => Yaml::Boolean(b),
        YamlParts::Array(a) => Yaml::Array(a),
        YamlParts::Hash(pairs) => Yaml::Hash(pairs.into_iter().collect()),
        YamlParts::Alias(n) => Yaml::Alias(n),
        YamlParts::Null => Yaml::Null,
        YamlParts::BadValue => Yaml::BadValue,
    }
}

/// Copies a `yaml_rust::Yaml` value into a tree of the library.
fn node_of_yaml(yaml: &Yaml) -> (node: YamlNode)
    ensures
        node@ == yaml_tree(*yaml),
    decreases yaml_tree(*yaml),
{
    match shape_of_yaml(yaml) {
        YamlShape::Real(s) => YamlNode::Real(s.clone()),
        YamlShape::Integer(i) => YamlNode::Integer(i),
        YamlShape::Str(s) => YamlNode::Str(s.clone()),
        YamlShape::Boolean(b) => YamlNode::Boolean(b),
        YamlShape::Array(items) => {
            let ghost trees = Seq::new(items@.len(), |i: int| yaml_tree(items@[i]));
            let mut nodes: Vec<YamlNode> = Vec::new();
            let mut i: usize = 0;
            while i < items.len()
                invariant
                    i <= items.len(),
                    nodes.len() == i,
                    trees == Seq::new(items@.len(), |i: int| yaml_tree(items@[i])),
                    yaml_tree(*yaml) == YamlTree::Array(trees),
                    forall|k: int| 0 <= k < i ==> (#[trigger] nodes[k])@ == trees[k],
                decreases items.len() - i,
            {
                proof {
                    let whole = yaml_tree(*yaml);
                    assert(whole->Array_0[i as int] == yaml_tree(items@[i as int]));
                    assert(decreases_to!(whole => whole->Array_0));
                    assert(decreases_to!(whole->Array_0 => whole->Array_0[i as int]));
                }
                nodes.push(node_of_yaml(&items[i]));
                i += 1;
            }
            assert(trees_of(nodes@) =~= trees);
            array_node(nodes)
        },
        YamlShape::Hash(pairs) => {
            let ghost trees = Seq::new(
                pairs@.len(),
                |i: int| (yaml_tree(*pairs@[i].0), yaml_tree(*pairs@[i].1)),
            );
            let mut entries: Vec<(YamlNode, YamlNode)> = Vec::new();
            let mut i: usize = 0;
            while i < pairs.len()
                invariant
                    i <= pairs.len(),
                    entries.len() == i,
                    trees == Seq::new(
                        pairs@.len(),
                        |i: int| (yaml_tree(*pairs@[i].0), yaml_tree(*pairs@[i].1)),
                    ),
                    yaml_tree(*yaml) == YamlTree::Hash(trees),
                    forall|k: int|
                        0 <= k < i ==> (#[trigger] entries[k]).0@ == trees[k].0 && entries[k].1@
                            == trees[k].1,
                decreases pairs.len() - i,
            {
                proof {
                    let whole = yaml_tree(*yaml);
                    assert(whole->Hash_0[i as int] == (
                        yaml_tree(*pairs@[i as int].0),
                        yaml_tree(*pairs@[i as int].1),
                    ));
                    assert(decreases_to!(whole => whole->Hash_0));
                    assert(decreases_to!(whole->Hash_0 => whole->Hash_0[i as int]));
                    assert(decreases_to!(whole->Hash_0[i as int] => whole->Hash_0[i as int].0));
                    assert(decreases_to!(whole->Hash_0[i as int] => whole->Hash_0[i as int].1));
                }
                let key = node_of_yaml(pairs[i].0);
                let value = node_of_yaml(pairs[i].1);
                entries.push((key, value));
                i += 1;
            }
            assert(entry_trees_of(entries@) =~= trees);
            hash_node(entries)
        },
        YamlShape::Alias(n) => YamlNode::Alias(n),
        YamlShape::Null => YamlNode::Null,
        YamlShape::BadValue => YamlNode::BadValue,
    }
}

/// Builds the `yaml_rust::Yaml` value for a tree of the library in which
/// no mapping repeats a key.
fn yaml_of_node(node: &YamlNode) -> (yaml: Yaml)
    requires
        node@.keys_are_unique(),
    ensures
        yaml_tree(yaml) == node@,
    decreases node,
{
    match node {
        YamlNode::Real(s) => yaml_of_parts(YamlParts::Real(s.clone())),
        YamlNode::Integer(i) => yaml_of_parts(YamlParts::Integer(*i)),
        YamlNode::Str(s) => yaml_of_parts(YamlParts::Str(s.clone())),
        YamlNode::Boolean(b) => yaml_of_parts(YamlParts::Boolean(*b)),
        YamlNode::Array(items) => {
            proof {
                lemma_view_array(*items);
            }
            let mut made: Vec<Yaml> = Vec::new();
            let mut i: usize = 0;
            while i < items.len()
                invariant
                    i <= items.len(),
                    made.len() == i,
                    *node == YamlNode::Array(*items),
                    node@ == YamlTree::Array(trees_of(items@)),
                    node@.keys_are_unique(),
                    forall|k: int| 0 <= k < i ==> yaml_tree(#[trigger] made[k]) == trees_of(items@)[k],
                decreases items.len() - i,
            {
                proof {
                    lemma_array_keys(trees_of(items@), i as int);
                }
                made.push(yaml_of_node(&items[i]));
                i += 1;
            }
            assert(Seq::new(made@.len(), |i: int| yaml_tree(made@[i])) =~= trees_of(items@));
            yaml_of_parts(YamlParts::Array(made))
        },
        YamlNode::Hash(entries) => {
            proof {
                lemma_view_hash(*entries);
            }
            let mut made: Vec<(Yaml, Yaml)> = Vec::new();
            let mut i: usize = 0;
            while i < entries.len()
                invariant
                    i <= entries.len(),
                    made.len() == i,
                    *node == YamlNode::Hash(*entries),
                    node@ == YamlTree::Hash(entry_trees_of(entries@)),
                    node@.keys_are_unique(),
                    forall|k: int|
                        0 <= k < i ==> yaml_tree((#[trigger] made[k]).0) == entry_trees_of(
                            entries@,
                        )[k].0 && yaml_tree(made[k].1) == entry_trees_of(entries@)[k].1,
                decreases entries.len() - i,
            {
                proof {
                    lemma_hash_keys(entry_trees_of(entries@), i as int, i as int);
                }
                let key = yaml_of_node(&entries[i].0);
                let value = yaml_of_node(&entries[i].1);
                made.push((key, value));
                i += 1;
            }
            proof {
                assert forall|i: int, j: int| 0 <= i < j < made@.len() implies yaml_tree(
                    (#[trigger] made@[i]).0,
                ) != yaml_tree((#[trigger] made@[j]).0) by {
                    lemma_hash_keys(entry_trees_of(entries@), i, j);
                }
                assert(Seq::new(
                    made@.len(),
                    |i: int| (yaml_tree(made@[i].0), yaml_tree(made@[i].1)),
                ) =~= entry_trees_of(entries@));
            }
            yaml_of_parts(YamlParts::Hash(made))
        },
        YamlNode::Alias(n) => yaml_of_parts(YamlParts::Alias(*n)),
        YamlNode::Null => yaml_of_parts(YamlParts::Null),
        YamlNode::BadValue => yaml_of_parts(YamlParts::BadValue),
    }
}

/// `YamlEmitter::dump` into a fresh string. The contract gives the text
/// its name, `yaml_text`, and says nothing of what the text is. It says
/// that the call succeeds: the emitter fails only where its writer does, it
/// never makes its other error, and writing into a `String` never fails, as
/// std says of `format!`.
#[verifier::external_body]
fn dump_yaml(yaml: &Yaml) -> (dumped: Result<String, EmitError>)
    ensures
        match dumped {
            Ok(text) => text@ == yaml_text(yaml_tree(*yaml)),
            Err(_) => false,
        },
{
    let mut out = String::new();
    let done = YamlEmitter::new(&mut out).dump(yaml);
    done.map(|_| out)
}

/// The scanner's report of where and why it rejected a text.
#[verifier::external_body]
fn scan_error_text(error: &ScanError) -> (text: String) {
    format!("{:?}", error)
}

/// The emitter's report of why it failed.
#[verifier::external_body]
fn emit_error_text(error: &EmitError) -> (text: String) {
    format!("{:?}", error)
}

/// Reads the documents of a YAML text. Fails, with the scanner's report,
/// exactly where `yaml_rust` rejects the text.
pub fn parse_yaml(text: &str) -> (parsed: Result<Vec<YamlNode>, String>)
    ensures
        match parsed {
            Ok(docs) => yaml_documents(text@) == Some(trees_of(docs@)),
            Err(_) => yaml_documents(text@) is None,
        },
{
    match load_documents(text) {
        Ok(loaded) => {
            let mut docs: Vec<YamlNode> = Vec::new();
            let mut i: usize = 0;
            while i < loaded.len()
                invariant
                    i <= loaded.len(),
                    docs.len() == i,
                    forall|k: int| 0 <= k < i ==> (#[trigger] docs[k])@ == yaml_tree(loaded[k]),
                decreases loaded.len() - i,
            {
                docs.push(node_of_yaml(&loaded[i]));
                i += 1;
            }
            assert(trees_of(docs@) =~= Seq::new(loaded@.len(), |i: int| yaml_tree(loaded@[i])));
            Ok(docs)
        },
        Err(error) => Err(scan_error_text(&error)),
    }
}

/// Writes a tree in which no mapping repeats a key as YAML text.
pub(crate) fn emit_tree(node: &YamlNode) -> (emitted: Result<String, String>)
    requires
        node@.keys_are_unique(),
    ensures
        match emitted {
            Ok(text) => text@ == yaml_text(node@),
            Err(_) => false,
        },
{
    let yaml = yaml_of_node(node);
    match dump_yaml(&yaml) {
        Ok(text) => Ok(text),
        Err(error) => Err(emit_error_text(&error)),
    }
}

/// Why a tree was not written as YAML text.
#[derive(Debug, PartialEq, Eq)]
pub enum EmitFailure {
    /// A mapping in the tree has two entries with the same key.
    RepeatedKey,
    /// The emitter failed; `detail` is its report. Writing into a string,
    /// as `emit_yaml` does, it does not fail.
    Emitter { detail: String },
}

/// Writes a tree as YAML text. Fails exactly where a mapping in the tree
/// repeats a key.
pub fn emit_yaml(node: &YamlNode) -> (emitted: Result<String, EmitFailure>)
    ensures
        match emitted {
            Ok(text) => node@.keys_are_unique() && text@ == yaml_text(node@),
            Err(EmitFailure::RepeatedKey) => !node@.keys_are_unique(),
            Err(EmitFailure::Emitter { .. }) => false,
        },
{
    if !node.has_unique_keys() {
        return Err(EmitFailure::RepeatedKey);
    }
    match emit_tree(node) {
        Ok(text) => Ok(text),
        Err(detail) => Err(EmitFailure::Emitter { detail }),
    }
}

} // verus!
