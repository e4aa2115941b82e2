use vault_planner::mdast::{parse_markdown, MdNode};
use vault_planner::util::md_parse_paragraph;

fn text(value: &str) -> MdNode {
    MdNode::Text(value.to_string())
}

#[test]
fn markdown_list_becomes_tree() {
    let tree = parse_markdown("- Omelette\n  - Eggs\n  - Milk\n- Toast\n").unwrap();
    let item = |name: &str, rest: Vec<MdNode>| {
        let mut children = vec![MdNode::Parent(vec![text(name)])];
        children.extend(rest);
        MdNode::ListItem { checked: None, children }
    };
    let expected = MdNode::Parent(vec![MdNode::List {
        ordered: false,
        children: vec![
            item(
                "Omelette",
                vec![MdNode::List {
                    ordered: false,
                    children: vec![item("Eggs", vec![]), item("Milk", vec![])],
                }],
            ),
            item("Toast", vec![]),
        ],
    }]);
    assert_eq!(tree, expected);
}

#[test]
fn markdown_of_nothing_is_an_empty_root() {
    assert_eq!(parse_markdown("").unwrap(), MdNode::Parent(vec![]));
}

#[test]
fn markdown_leaves_keep_their_text() {
    let tree = parse_markdown("# Title\n\nsome *text* `code`\n\n---\n").unwrap();
    assert_eq!(
        tree,
        MdNode::Parent(vec![
            MdNode::Parent(vec![text("Title")]),
            MdNode::Parent(vec![
                text("some "),
                MdNode::Parent(vec![text("text")]),
                text(" "),
                MdNode::Leaf("code".to_string()),
            ]),
            MdNode::Leaf(String::new()),
        ])
    );
    assert_eq!(tree.to_string(), "Titlesome text code");
}

#[test]
fn ordered_list_is_marked_ordered() {
    let tree = parse_markdown("1. one\n2. two\n").unwrap();
    match tree {
        MdNode::Parent(children) => match &children[0] {
            MdNode::List { ordered, children } => {
                assert!(*ordered);
                assert_eq!(children.len(), 2);
            }
            other => panic!("not a list: {:?}", other),
        },
        other => panic!("not a root: {:?}", other),
    }
}

#[test]
fn to_string_joins_leaves_in_order() {
    let tree = MdNode::List {
        ordered: true,
        children: vec![
            MdNode::ListItem { checked: Some(false), children: vec![text("Eggs: 2")] },
            MdNode::ListItem { checked: Some(true), children: vec![text("Milk: "), MdNode::Leaf("1".to_string())] },
            MdNode::Parent(vec![]),
        ],
    };
    assert_eq!(tree.to_string(), "Eggs: 2Milk: 1");
    assert_eq!(text("alone").to_string(), "alone");
    assert_eq!(MdNode::Parent(vec![]).to_string(), "");
}

#[test]
fn children_of_nodes() {
    assert_eq!(text("a").children(), None);
    assert_eq!(MdNode::Leaf("a".to_string()).children(), None);
    let kids = vec![text("a"), text("b")];
    assert_eq!(MdNode::Parent(vec![text("a"), text("b")]).children(), Some(&kids));
    assert_eq!(
        MdNode::List { ordered: false, children: vec![text("a"), text("b")] }.children(),
        Some(&kids)
    );
    assert_eq!(
        MdNode::ListItem { checked: None, children: vec![text("a"), text("b")] }.children(),
        Some(&kids)
    );
}

#[test]
fn paragraph_text_is_the_first_child_if_text() {
    assert_eq!(
        md_parse_paragraph(&MdNode::Parent(vec![text("Eggs"), text("more")])),
        Some("Eggs".to_string())
    );
    assert_eq!(md_parse_paragraph(&MdNode::Parent(vec![])), None);
    assert_eq!(md_parse_paragraph(&text("Eggs")), None);
    assert_eq!(md_parse_paragraph(&MdNode::Leaf("Eggs".to_string())), None);
    assert_eq!(
        md_parse_paragraph(&MdNode::Parent(vec![MdNode::Parent(vec![text("Eggs")])])),
        None
    );
    assert_eq!(
        md_parse_paragraph(&MdNode::Parent(vec![MdNode::Leaf("code".to_string()), text("Eggs")])),
        None
    );
}

#[test]
fn paragraph_text_of_emphasis_first_is_none() {
    let tree = parse_markdown("*Eggs* and more\n").unwrap();
    match tree {
        MdNode::Parent(children) => assert_eq!(md_parse_paragraph(&children[0]), None),
        other => panic!("not a root: {:?}", other),
    }
}

#[test]
fn clone_copies_the_tree() {
    let tree = parse_markdown("# Title\n\n- a\n  - b `c`\n\n1. one\n").unwrap();
    assert_eq!(tree.clone(), tree);
    assert_eq!(text("x").clone(), text("x"));
}
