//! JSON documents as trees of plain values.
//!
//! Reading JSON text is left to `serde_json`; this module holds the tree
//! that the request decoding works on and the items through which the
//! outside crate is reached.

use serde_json::Value;
use vstd::prelude::*;

verus! {

/// A JSON number, as the two integer readings that `serde_json` offers: an
/// integer from 0 on has an unsigned reading, an integer that fits into 64
/// bits with a sign has a signed one, and a number with a fraction has
/// neither.
#[derive(Clone, Copy, Debug, PartialEq, Eq, Structural)]
pub struct JsonNumber {
    pub unsigned: Option<u64>,
    pub signed: Option<i64>,
}

/// A node of a JSON document.
#[derive(Debug, PartialEq, Eq)]
pub enum JsonNode {
    Null,
    Bool(bool),
    Number(JsonNumber),
    Str(String),
    Array(Vec<JsonNode>),
    /// An object, as its members in the order in which the object hands
    /// them out.
    Object(Vec<(String, JsonNode)>),
}

/// A JSON node with its texts as sequences of characters.
pub enum JsonTree {
    Null,
    Bool(bool),
    Number(JsonNumber),
    Str(Seq<char>),
    Array(Seq<JsonTree>),
    Object(Seq<(Seq<char>, JsonTree)>),
}

/// The tree that `node` holds.
pub open spec fn tree_of_json(node: JsonNode) -> JsonTree
    decreases node,
{
    match node {
        JsonNode::Null => JsonTree::Null,
        JsonNode::Bool(b) => JsonTree::Bool(b),
        JsonNode::Number(n) => JsonTree::Number(n),
        JsonNode::Str(s) => JsonTree::Str(s@),
        JsonNode::Array(items) => JsonTree::Array(
            Seq::new(
                items@.len(),
                |i: int|
                    if 0 <= i < items@.len() {
                        tree_of_json(items@[i])
                    } else {
                        JsonTree::Null
                    },
            ),
        ),
        JsonNode::Object(members) => JsonTree::Object(
            Seq::new(
                members@.len(),
                |i: int|
                    if 0 <= i < members@.len() {
                        (members@[i].0@, tree_of_json(members@[i].1))
                    } else {
                        (Seq::empty(), JsonTree::Null)
                    },
            ),
        ),
    }
}

impl View for JsonNode {
    type V = JsonTree;

    open spec fn view(&self) -> JsonTree {
        tree_of_json(*self)
    }
}

/// The members of an object as pairs of a key and a tree, in order.
pub open spec fn member_trees_of(members: Seq<(String, JsonNode)>) -> Seq<(Seq<char>, JsonTree)> {
    Seq::new(members.len(), |i: int| (members[i].0@, members[i].1@))
}

/// The position of the first member at or after `from` with the key
/// `key`, or the number of members where there is none.
pub open spec fn member_position(members: Seq<(Seq<char>, JsonTree)>, key: Seq<char>, from: int) -> int
    decreases members.len() - from,
{
    if from < 0 || from >= members.len() {
        members.len() as int
    } else if members[from].0 == key {
        from
    } else {
        member_position(members, key, from + 1)
    }
}

impl JsonTree {
    /// The member `key` of an object: the first with this key. A node that
    /// is no object, or has no such member, has none.
    pub open spec fn get(self, key: Seq<char>) -> Option<JsonTree> {
        match self {
            JsonTree::Object(members) => {
                let found = member_position(members, key, 0);
                if found < members.len() {
                    Some(members[found].1)
                } else {
                    None
                }
            },
            _ => None,
        }
    }

    /// The text of a string.
    pub open spec fn as_str(self) -> Option<Seq<char>> {
        match self {
            JsonTree::Str(s) => Some(s),
            _ => None,
        }
    }

    /// The value of a boolean.
    pub open spec fn as_bool(self) -> Option<bool> {
        match self {
            JsonTree::Bool(b) => Some(b),
            _ => None,
        }
    }

    /// The unsigned reading of a number.
    pub open spec fn as_u64(self) -> Option<u64> {
        match self {
            JsonTree::Number(n) => n.unsigned,
            _ => None,
        }
    }
}

/// The trees of `nodes`, in order.
pub open spec fn item_trees_of(nodes: Seq<JsonNode>) -> Seq<JsonTree> {
    Seq::new(nodes.len(), |i: int| nodes[i]@)
}

/// What an array node holds is the trees of its items.
pub proof fn lemma_view_array(items: Vec<JsonNode>)
    ensures
        JsonNode::Array(items)@ == JsonTree::Array(item_trees_of(items@)),
{
    assert(JsonNode::Array(items)@->Array_0 =~= item_trees_of(items@));
}

/// What an object node holds is the trees of its members.
pub proof fn lemma_view_object(members: Vec<(String, JsonNode)>)
    ensures
        JsonNode::Object(members)@ == JsonTree::Object(member_trees_of(members@)),
{
    assert(JsonNode::Object(members)@->Object_0 =~= member_trees_of(members@));
}

impl JsonNode {
    /// Whether the node is an object.
    pub fn is_object(&self) -> (yes: bool)
        ensures
            yes == (self@ is Object),
    {
        match self {
            JsonNode::Object(_) => true,
            _ => false,
        }
    }

    /// The member `key` of an object, if there is one.
    pub fn get(&self, key: &str) -> (found: Option<&JsonNode>)
        ensures
            match found {
                Some(node) => self@.get(key@) == Some(node@),
                None => self@.get(key@) is None,
            },
    {
        match self {
            JsonNode::Object(members) => {
                proof {
                    lemma_view_object(*members);
                }
                let wanted: String = key.to_owned();
                let mut i: usize = 0;
                while i < members.len()
                    invariant
                        i <= members.len(),
                        wanted@ == key@,
                        self@ == JsonTree::Object(member_trees_of(members@)),
                        member_position(member_trees_of(members@), key@, 0) == member_position(
                            member_trees_of(members@),
                            key@,
                            i as int,
                        ),
                    decreases members.len() - i,
                {
                    assert(member_trees_of(members@)[i as int] == (
                        members[i as int].0@,
                        members[i as int].1@,
                    ));
                    if members[i].0 == wanted {
                        assert(member_position(member_trees_of(members@), key@, i as int) == i);
                        return Some(&members[i].1);
                    }
                    i += 1;
                }
                None
            },
            _ => None,
        }
    }

    /// The text of a string.
    pub fn as_str(&self) -> (text: Option<&String>)
        ensures
            match text {
                Some(s) => self@.as_str() == Some(s@),
                None => self@.as_str() is None,
            },
    {
        match self {
            JsonNode::Str(s) => Some(s),
            _ => None,
        }
    }

    /// The value of a boolean.
    pub fn as_bool(&self) -> (value: Option<bool>)
        ensures
            value == self@.as_bool(),
    {
        match self {
            JsonNode::Bool(b) => Some(*b),
            _ => None,
        }
    }

    /// The unsigned reading of a number.
    pub fn as_u64(&self) -> (value: Option<u64>)
        ensures
            value == self@.as_u64(),
    {
        match self {
            JsonNode::Number(n) => n.unsigned,
            _ => None,
        }
    }
}

/// `serde_json::Value`, carried through as it is.
#[verifier::external_type_specification]
#[verifier::external_body]
pub struct ExValue(Value);

/// `serde_json::Error`, carried through as it is.
#[verifier::external_type_specification]
#[verifier::external_body]
pub struct ExJsonError(serde_json::Error);

/// The tree that a `serde_json::Value` holds.
pub uninterp spec fn json_tree(value: Value) -> JsonTree;

/// The document that `serde_json` reads out of a text, or `None` where it
/// rejects the text.
pub uninterp spec fn json_document(text: Seq<char>) -> Option<JsonTree>;

/// `serde_json::from_str` for a `Value`: the document of a text. The
/// contract gives the outcome its name, `json_document`, and says nothing
/// of what the document is.
#[verifier::external_body]
fn load_json(text: &str) -> (loaded: Result<Value, serde_json::Error>)
    ensures
        match loaded {
            Ok(value) => json_document(text@) == Some(json_tree(value)),
            Err(_) => json_document(text@) is None,
        },
{
    serde_json::from_str::<Value>(text)
}

/// One level of a `serde_json::Value`: its variant, with the values below
/// it as they are.
enum JsonShape<'a> {
    Null,
    Bool(bool),
    Number(JsonNumber),
    Str(&'a String),
    Array(&'a Vec<Value>),
    Object(Vec<(&'a String, &'a Value)>),
}

/// The tree that a value of the given shape holds.
spec fn shape_tree(shape: JsonShape<'_>) -> JsonTree {
    match shape {
        JsonShape::Null => JsonTree::Null,
        JsonShape::Bool(b) => JsonTree::Bool(b),
        JsonShape::Number(n) => JsonTree::Number(n),
        JsonShape::Str(s) => JsonTree::Str(s@),
        JsonShape::Array(items) => JsonTree::Array(
            Seq::new(items@.len(), |i: int| json_tree(items@[i])),
        ),
        JsonShape::Object(members) => JsonTree::Object(
            Seq::new(members@.len(), |i: int| (members@[i].0@, json_tree(*members@[i].1))),
        ),
    }
}

/// Tells the variants of `serde_json::Value` apart and hands out what the
/// value holds: a number as its readings `as_u64` and `as_i64`, a string as
/// it is, the items of an array, and the members of an object in the order
/// in which the object hands them out. The contract says that the tree of
/// the value, `json_tree`, is made of the trees of what was handed out.
#[verifier::external_body]
fn shape_of_json(value: &Value) -> (shape: JsonShape<'_>)
    ensures
        shape_tree(shape) == json_tree(*value),
{
    match value {
        Value::Null => JsonShape::Null,
        Value::Bool(b) => JsonShape::Bool(*b),
        Value::Number(n) => JsonShape::Number(
            JsonNumber { unsigned: n.as_u64(), signed: n.as_i64() }),
        Value::String(s) => JsonShape::Str(s),
        Value::Array(a) => JsonShape::Array(a),
        Value::Object(m) => JsonShape::Object(m.iter().collect()),
    }
}

/// Copies a `serde_json::Value` into a tree of the library.
fn node_of_json(value: &Value) -> (node: JsonNode)
    ensures
        node@ == json_tree(*value),
    decreases json_tree(*value),
{
    match shape_of_json(value) {
        JsonShape::Null => JsonNode::Null,
        JsonShape::Bool(b) => JsonNode::Bool(b),
        JsonShape::Number(n) => JsonNode::Number(n),
        JsonShape::Str(s) => JsonNode::Str(s.clone()),
        JsonShape::Array(items) => {
            let ghost trees = Seq::new(items@.len(), |i: int| json_tree(items@[i]));
            let mut nodes: Vec<JsonNode> = Vec::new();
            let mut i: usize = 0;
            while i < items.len()
                invariant
                    i <= items.len(),
                    nodes.len() == i,
                    trees == Seq::new(items@.len(), |i: int| json_tree(items@[i])),
                    json_tree(*value) == JsonTree::Array(trees),
                    forall|k: int| 0 <= k < i ==> (#[trigger] nodes[k])@ == trees[k],
                decreases items.len() - i,
            {
                proof {
                    let whole = json_tree(*value);
                    assert(whole->Array_0[i as int] == json_tree(items@[i as int]));
                    assert(decreases_to!(whole => whole->Array_0));
                    assert(decreases_to!(whole->Array_0 => whole->Array_0[i as int]));
                }
                nodes.push(node_of_json(&items[i]));
                i += 1;
            }
            proof {
                lemma_view_array(nodes);
                assert(item_trees_of(nodes@) =~= trees);
            }
            JsonNode::Array(nodes)
        },
        JsonShape::Object(members) => {
            let ghost trees = Seq::new(
                members@.len(),
                |i: int| (members@[i].0@, json_tree(*members@[i].1)),
            );
            let mut made: Vec<(String, JsonNode)> = Vec::new();
            let mut i: usize = 0;
            while i < members.len()
                invariant
                    i <= members.len(),
                    made.len() == i,
                    trees == Seq::new(
                        members@.len(),
                        |i: int| (members@[i].0@, json_tree(*members@[i].1)),
                    ),
                    json_tree(*value) == JsonTree::Object(trees),
                    forall|k: int|
                        0 <= k < i ==> (#[trigger] made[k]).0@ == trees[k].0 && made[k].1@
                            == trees[k].1,
                decreases members.len() - i,
            {
                proof {
                    let whole = json_tree(*value);
                    assert(whole->Object_0[i as int] == (
                        members@[i as int].0@,
                        json_tree(*members@[i as int].1),
                    ));
                    assert(decreases_to!(whole => whole->Object_0));
                    assert(decreases_to!(whole->Object_0 => whole->Object_0[i as int]));
                    assert(decreases_to!(whole->Object_0[i as int] => whole->Object_0[i as int].1));
                }
                let member = node_of_json(members[i].1);
                made.push((members[i].0.clone(), member));
                i += 1;
            }
            proof {
                lemma_view_object(made);
                assert(member_trees_of(made@) =~= trees);
            }
            JsonNode::Object(made)
        },
    }
}

/// The parser's report of where and why it rejected a text.
#[verifier::external_body]
fn json_error_text(error: &serde_json::Error) -> (text: String) {
    format!("{:?}", error)
}

/// Reads the document of a JSON text. Fails, with the parser's report,
/// exactly where `serde_json` rejects the text.
pub fn parse_json(text: &str) -> (parsed: Result<JsonNode, String>)
    ensures
        match parsed {
            Ok(node) => json_document(text@) == Some(node@),
            Err(_) => json_document(text@) is None,
        },
{
    match load_json(text) {
        Ok(value) => Ok(node_of_json(&value)),
        Err(error) => Err(json_error_text(&error)),
    }
}

} // verus!
