use rsu::yaml::{
    array_node, emit_yaml, hash_node, parse_yaml, text_node, EmitFailure, YamlNode,
};

fn text(s: &str) -> YamlNode {
    YamlNode::Str(s.to_string())
}

#[test]
fn parse_reads_scalars_sequences_and_mappings() {
    let docs = parse_yaml("a: 1\nb: [x, 'y']\nc:\n  d: true\n  e: 2.5\nf: ~\n").unwrap();
    assert_eq!(docs.len(), 1);
    assert_eq!(
        docs[0],
        YamlNode::Hash(vec![
            (text("a"), YamlNode::Integer(1)),
            (text("b"), YamlNode::Array(vec![text("x"), text("y")])),
            (
                text("c"),
                YamlNode::Hash(vec![
                    (text("d"), YamlNode::Boolean(true)),
                    (text("e"), YamlNode::Real("2.5".to_string())),
                ])
            ),
            (text("f"), YamlNode::Null),
        ])
    );
}

#[test]
fn parse_reads_every_document() {
    let docs = parse_yaml("---\na\n---\n- 1\n- -2\n").unwrap();
    assert_eq!(
        docs,
        vec![text("a"), YamlNode::Array(vec![YamlNode::Integer(1), YamlNode::Integer(-2)])]
    );
    assert_eq!(parse_yaml("").unwrap(), Vec::<YamlNode>::new());
}

#[test]
fn parse_rejects_what_is_no_yaml() {
    let report = parse_yaml("a: [1, 2").unwrap_err();
    assert!(!report.is_empty());
    assert!(parse_yaml("a: b: c: [").is_err());
}

#[test]
fn emit_writes_a_document() {
    let doc = hash_node(vec![
        (text_node("port"), text_node("61111")),
        (text_node("n"), YamlNode::Integer(-3)),
        (text_node("on"), YamlNode::Boolean(false)),
        (text_node("list"), array_node(vec![text_node("a"), YamlNode::Null])),
    ]);
    assert_eq!(
        emit_yaml(&doc).unwrap(),
        "---\nport: \"61111\"\nn: -3\n\"on\": false\nlist:\n  - a\n  - ~"
    );
}

#[test]
fn emitted_text_reads_back_as_the_tree() {
    let doc = hash_node(vec![
        (text_node("a"), text_node("true")),
        (text_node("b"), text_node("12")),
        (
            text_node("c"),
            hash_node(vec![
                (text_node("x"), array_node(vec![YamlNode::Integer(1), text_node("two")])),
                (text_node("y"), YamlNode::Boolean(true)),
            ]),
        ),
        (YamlNode::Integer(4), text_node("four")),
    ]);
    let written = emit_yaml(&doc).unwrap();
    assert_eq!(parse_yaml(&written).unwrap(), vec![doc]);
}

#[test]
fn lookup_finds_the_value_under_a_text_key() {
    let doc = hash_node(vec![
        (YamlNode::Integer(1), text_node("number key")),
        (text_node("a"), text_node("first")),
        (text_node("b"), YamlNode::Integer(2)),
        (text_node("a"), text_node("second")),
    ]);
    assert_eq!(doc.lookup("a"), Some(&text("first")));
    assert_eq!(doc.lookup("b"), Some(&YamlNode::Integer(2)));
    assert_eq!(doc.lookup("1"), None);
    assert_eq!(doc.lookup("c"), None);
    assert_eq!(text("a").lookup("a"), None);
    assert_eq!(array_node(vec![text_node("a")]).lookup("a"), None);
}

#[test]
fn readings_of_a_node() {
    assert_eq!(text("x").as_str(), Some(&"x".to_string()));
    assert_eq!(YamlNode::Integer(1).as_str(), None);
    assert_eq!(YamlNode::Real("1.5".to_string()).as_str(), None);
    assert_eq!(YamlNode::Boolean(true).as_bool(), Some(true));
    assert_eq!(text("true").as_bool(), None);
    assert_eq!(YamlNode::Integer(-7).as_i64(), Some(-7));
    assert_eq!(text("7").as_i64(), None);
    assert_eq!(YamlNode::Null.as_hash(), None);
    assert_eq!(YamlNode::BadValue.as_vec(), None);
    let list = array_node(vec![text_node("a")]);
    assert_eq!(list.as_vec(), Some(&vec![text("a")]));
    let map = hash_node(vec![(text_node("k"), YamlNode::Null)]);
    assert_eq!(map.as_hash(), Some(&vec![(text("k"), YamlNode::Null)]));
    assert_eq!(YamlNode::Alias(3).as_i64(), None);
}

#[test]
fn same_compares_the_trees() {
    let a = hash_node(vec![
        (text_node("k"), array_node(vec![YamlNode::Integer(1), text_node("x")])),
        (YamlNode::Boolean(true), YamlNode::Null),
    ]);
    let b = hash_node(vec![
        (text_node("k"), array_node(vec![YamlNode::Integer(1), text_node("x")])),
        (YamlNode::Boolean(true), YamlNode::Null),
    ]);
    assert!(a.same(&b));
    assert!(a.same(&a));
    let other_value = hash_node(vec![
        (text_node("k"), array_node(vec![YamlNode::Integer(1), text_node("y")])),
        (YamlNode::Boolean(true), YamlNode::Null),
    ]);
    assert!(!a.same(&other_value));
    let other_key = hash_node(vec![
        (text_node("j"), array_node(vec![YamlNode::Integer(1), text_node("x")])),
        (YamlNode::Boolean(true), YamlNode::Null),
    ]);
    assert!(!a.same(&other_key));
    let shorter = hash_node(vec![(
        text_node("k"),
        array_node(vec![YamlNode::Integer(1), text_node("x")]),
    )]);
    assert!(!a.same(&shorter));
    let other_order = hash_node(vec![
        (YamlNode::Boolean(true), YamlNode::Null),
        (text_node("k"), array_node(vec![YamlNode::Integer(1), text_node("x")])),
    ]);
    assert!(!a.same(&other_order));
    assert!(!text("1").same(&YamlNode::Integer(1)));
    assert!(!text("1.5").same(&YamlNode::Real("1.5".to_string())));
    assert!(YamlNode::Real("1.5".to_string()).same(&YamlNode::Real("1.5".to_string())));
    assert!(!YamlNode::Null.same(&YamlNode::BadValue));
    assert!(YamlNode::BadValue.same(&YamlNode::BadValue));
    assert!(YamlNode::Alias(2).same(&YamlNode::Alias(2)));
    assert!(!YamlNode::Alias(2).same(&YamlNode::Alias(3)));
    assert!(!array_node(vec![]).same(&hash_node(vec![])));
}

#[test]
fn repeated_keys_are_found_anywhere_in_the_tree() {
    assert!(text("a").has_unique_keys());
    assert!(hash_node(vec![]).has_unique_keys());
    let fine = hash_node(vec![
        (text_node("a"), YamlNode::Integer(1)),
        (text_node("b"), hash_node(vec![(text_node("a"), YamlNode::Null)])),
        (YamlNode::Integer(1), array_node(vec![hash_node(vec![(text_node("b"), YamlNode::Null)])])),
    ]);
    assert!(fine.has_unique_keys());
    let top = hash_node(vec![
        (text_node("a"), YamlNode::Integer(1)),
        (text_node("b"), YamlNode::Integer(2)),
        (text_node("a"), YamlNode::Integer(3)),
    ]);
    assert!(!top.has_unique_keys());
    let nested = array_node(vec![
        text_node("x"),
        hash_node(vec![(
            text_node("k"),
            hash_node(vec![(YamlNode::Null, text_node("1")), (YamlNode::Null, text_node("2"))]),
        )]),
    ]);
    assert!(!nested.has_unique_keys());
    let in_key = hash_node(vec![(
        hash_node(vec![(text_node("d"), YamlNode::Null), (text_node("d"), YamlNode::Null)]),
        YamlNode::Null,
    )]);
    assert!(!in_key.has_unique_keys());
}

#[test]
fn emit_turns_a_tree_with_a_repeated_key_down() {
    let doc = hash_node(vec![
        (text_node("a"), YamlNode::Integer(1)),
        (text_node("a"), YamlNode::Integer(2)),
    ]);
    assert_eq!(emit_yaml(&doc), Err(EmitFailure::RepeatedKey));
}
