use confdiff::conf::{Conf, ConfError};
use confdiff::node::{clone_node, index_str, is_bad, node_eq, Node};

const CONF_ONE: &str = "programs:\n  nginx:\n    port: 80\n  vogsphere:\n    enabled: true\n";

const CONF_TWO: &str = "programs:\n  nginx:\n    port: 8080\n  vogsphere:\n    enabled: true\n";

#[test]
fn test_program_list() {
    let c = Conf::from_text(CONF_ONE).unwrap();
    let list = c.program_list().unwrap();

    for e in &list {
        println!("{e}");
    }

    let mut sorted = list.clone();
    sorted.sort();
    assert_eq!(sorted, vec!["nginx".to_string(), "vogsphere".to_string()]);
}

#[test]
fn test_diff_program() {
    let c1 = Conf::from_text(CONF_ONE).unwrap();
    let c2 = Conf::from_text(CONF_TWO).unwrap();

    assert_eq!(c1.diff_program(&c2, "nginx"), true);
    assert_eq!(c1.diff_program(&c2, "vogsphere"), false);
}

#[test]
fn test() {
    let c1 = Conf::from_text(CONF_ONE).unwrap();

    let cached = index_str(c1.document(), "programs").unwrap();
    assert!(node_eq(cached, c1.programs()));
}

#[test]
fn diff_is_reflexive() {
    let c = Conf::from_text(CONF_ONE).unwrap();
    assert!(!c.diff_program(&c, "nginx"));
    assert!(!c.diff_program(&c, "vogsphere"));
    assert!(!c.diff_program(&c, "no-such-program"));
}

#[test]
fn diff_present_against_absent() {
    let a = Conf::from_text(CONF_ONE).unwrap();
    let b = Conf::from_text("programs:\n  vogsphere:\n    enabled: true\n").unwrap();

    assert!(a.diff_program(&b, "nginx"));
    assert!(b.diff_program(&a, "nginx"));
}

#[test]
fn diff_absent_from_both() {
    let a = Conf::from_text(CONF_ONE).unwrap();
    let b = Conf::from_text(CONF_TWO).unwrap();

    assert!(!a.diff_program(&b, "apache"));
    assert!(!b.diff_program(&a, "apache"));
}

#[test]
fn non_string_keys_are_skipped() {
    let c = Conf::from_text("programs:\n  1: one\n  nginx:\n    port: 80\n").unwrap();
    let list = c.program_list().unwrap();
    assert_eq!(list, vec!["nginx".to_string()]);
}

#[test]
fn last_document_wins() {
    let text = "---\nprograms:\n  apache:\n    port: 80\n---\nprograms:\n  nginx:\n    port: 80\n";
    let c = Conf::from_text(text).unwrap();
    let list = c.program_list().unwrap();
    assert_eq!(list, vec!["nginx".to_string()]);

    let second = Conf::from_text("programs:\n  nginx:\n    port: 80\n").unwrap();
    assert!(!c.diff_program(&second, "nginx"));
    assert!(!c.diff_program(&second, "apache"));
}

#[test]
fn malformed_text_is_a_parse_error() {
    let r = Conf::from_text("programs: [unclosed");
    assert!(matches!(r, Err(ConfError::Parse)));
}

#[test]
fn empty_text_has_no_document() {
    let r = Conf::from_text("");
    assert!(matches!(r, Err(ConfError::NoDocument)));

    let comment_only = Conf::from_text("# nothing here\n");
    assert!(matches!(comment_only, Err(ConfError::NoDocument)));
}

#[test]
fn scalar_programs_value_is_not_a_mapping() {
    let c = Conf::from_text("programs: 42\n").unwrap();
    assert!(matches!(c.program_list(), Err(ConfError::NotAMapping)));
}

#[test]
fn missing_programs_key_is_not_a_mapping() {
    let c = Conf::from_text("other: 1\n").unwrap();
    assert!(matches!(c.program_list(), Err(ConfError::NotAMapping)));
}

#[test]
fn parsing_reads_the_text_not_back() {
    // A parser that handed its input back unchanged could not produce a
    // mapping whose key listing is exactly the one program name.
    let c = Conf::from_text("programs:\n  nginx: {port: 80, host: web}\n").unwrap();
    assert_eq!(c.program_list().unwrap(), vec!["nginx".to_string()]);
}

#[test]
fn scalar_kinds_compare_structurally() {
    let text = "programs:\n  svc:\n    a: null\n    b: true\n    c: 3\n    d: 3.5\n    e: text\n    f: [1, 2]\n";
    let a = Conf::from_text(text).unwrap();
    let b = Conf::from_text(text).unwrap();
    assert!(!a.diff_program(&b, "svc"));

    let changed = Conf::from_text(text.replace("3.5", "3.75").as_str()).unwrap();
    assert!(a.diff_program(&changed, "svc"));
}

#[test]
fn node_helpers_on_built_trees() {
    let entry = (Node::Str("a".to_owned()), Node::Int(1));
    let n = Node::Mapping(vec![entry]);

    let hit = index_str(&n, "a").unwrap();
    assert!(node_eq(hit, &Node::Int(1)));
    assert!(index_str(&n, "b").is_none());
    assert!(index_str(&Node::Int(7), "a").is_none());

    let copy = clone_node(&n);
    assert!(node_eq(&copy, &n));

    assert!(is_bad(&Node::Bad));
    assert!(!is_bad(&Node::Null));

    let s1 = Node::Sequence(vec![Node::Int(1), Node::Int(2)]);
    let s2 = Node::Sequence(vec![Node::Int(1), Node::Int(3)]);
    assert!(!node_eq(&s1, &s2));
    assert!(!node_eq(&s1, &Node::Int(1)));
}
