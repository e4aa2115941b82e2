use vstd::prelude::*;
use vstd::string::StringExecFns;

verus! {

/// A markdown syntax tree as a mathematical value.
pub enum MdTree {
    /// Plain text.
    Text(Seq<char>),
    /// Any other node without children, with the text that it stands for
    /// (the code of a code span, nothing for a thematic break).
    Leaf(Seq<char>),
    /// A list and its items.
    List { ordered: bool, children: Seq<MdTree> },
    /// A list item, with the state of its checkbox if it has one.
    ListItem { checked: Option<bool>, children: Seq<MdTree> },
    /// Any other node with children: the root, a paragraph, a heading.
    Parent(Seq<MdTree>),
}

impl MdTree {
    /// The children of a node that can have children.
    pub open spec fn children(self) -> Option<Seq<MdTree>> {
        match self {
            MdTree::Text(_) => None,
            MdTree::Leaf(_) => None,
            MdTree::List { children, .. } => Some(children),
            MdTree::ListItem { children, .. } => Some(children),
            MdTree::Parent(children) => Some(children),
        }
    }

    /// The text of the tree: the texts of its leaves, from left to right.
    pub open spec fn text(self) -> Seq<char>
        decreases self,
    {
        match self {
            MdTree::Text(value) => value,
            MdTree::Leaf(value) => value,
            MdTree::List { children, .. } => texts(children),
            MdTree::ListItem { children, .. } => texts(children),
            MdTree::Parent(children) => texts(children),
        }
    }
}

/// The texts of `trees`, one after the other.
pub open spec fn texts(trees: Seq<MdTree>) -> Seq<char>
    decreases trees,
{
    if trees.len() == 0 {
        Seq::empty()
    } else {
        texts(trees.drop_last()) + trees.last().text()
    }
}

/// A node of a markdown syntax tree.
#[derive(Debug, PartialEq, Eq)]
pub enum MdNode {
    Text(String),
    Leaf(String),
    List { ordered: bool, children: Vec<MdNode> },
    ListItem { checked: Option<bool>, children: Vec<MdNode> },
    Parent(Vec<MdNode>),
}

/// The trees of `nodes`, in order.
pub open spec fn forest(nodes: Vec<MdNode>) -> Seq<MdTree>
    decreases nodes, 1int,
{
    Seq::new(
        nodes.len() as nat,
        |i: int|
            if 0 <= i < nodes.len() {
                nodes[i].view()
            } else {
                MdTree::Leaf(Seq::empty())
            },
    )
}

impl View for MdNode {
    type V = MdTree;

    open spec fn view(&self) -> MdTree
        decreases self, 0int,
    {
        match self {
            MdNode::Text(value) => MdTree::Text(value@),
            MdNode::Leaf(value) => MdTree::Leaf(value@),
            MdNode::List { ordered, children } => MdTree::List {
                ordered: *ordered,
                children: forest(*children),
            },
            MdNode::ListItem { checked, children } => MdTree::ListItem {
                checked: *checked,
                children: forest(*children),
            },
            MdNode::Parent(children) => MdTree::Parent(forest(*children)),
        }
    }
}

impl Clone for MdNode {
    fn clone(&self) -> (copy: MdNode)
        ensures
            copy@ == self@,
        decreases self,
    {
        match self {
            MdNode::Text(value) => MdNode::Text(value.clone()),
            MdNode::Leaf(value) => MdNode::Leaf(value.clone()),
            MdNode::List { ordered, children } => MdNode::List {
                ordered: *ordered,
                children: clone_children(children),
            },
            MdNode::ListItem { checked, children } => MdNode::ListItem {
                checked: *checked,
                children: clone_children(children),
            },
            MdNode::Parent(children) => MdNode::Parent(clone_children(children)),
        }
    }
}

/// Copies of `children`, in order.
fn clone_children(children: &Vec<MdNode>) -> (copy: Vec<MdNode>)
    ensures
        forest(copy) == forest(*children),
    decreases children,
{
    let mut copy: Vec<MdNode> = Vec::new();
    let mut i: usize = 0;
    while i < children.len()
        invariant
            i <= children.len(),
            copy@.len() == i,
            forall|j: int| 0 <= j < i ==> (#[trigger] copy@[j])@ == children@[j]@,
        decreases children.len() - i,
    {
        copy.push(children[i].clone());
        i += 1;
    }
    assert(forest(copy) =~= forest(*children));
    copy
}

impl MdNode {
    /// The children of a node that can have children.
    pub fn children(&self) -> (children: Option<&Vec<MdNode>>)
        ensures
            match children {
                Some(nodes) => self@.children() == Some(forest(*nodes)),
                None => self@.children() is None,
            },
    {
        match self {
            MdNode::Text(_) => None,
            MdNode::Leaf(_) => None,
            MdNode::List { children, .. } => Some(children),
            MdNode::ListItem { children, .. } => Some(children),
            MdNode::Parent(children) => Some(children),
        }
    }

    /// The text of the tree: the texts of its leaves, from left to right.
    pub fn to_string(&self) -> (text: String)
        ensures
            text@ == self@.text(),
        decreases self,
    {
        match self {
            MdNode::Text(value) => value.clone(),
            MdNode::Leaf(value) => value.clone(),
            MdNode::List { children, .. } => children_to_string(children),
            MdNode::ListItem { children, .. } => children_to_string(children),
            MdNode::Parent(children) => children_to_string(children),
        }
    }
}

/// The texts of `children`, one after the other.
fn children_to_string(children: &Vec<MdNode>) -> (text: String)
    ensures
        text@ == texts(forest(*children)),
    decreases children,
{
    let mut text = String::new();
    let mut i: usize = 0;
    while i < children.len()
        invariant
            i <= children.len(),
            text@ == texts(forest(*children).take(i as int)),
        decreases children.len() - i,
    {
        let part = children[i].to_string();
        proof {
            let done = forest(*children).take(i as int);
            let next = forest(*children).take(i + 1);
            assert(next.drop_last() =~= done);
            assert(next.last() == children[i as int]@);
        }
        text.append(part.as_str());
        i += 1;
    }
    proof {
        assert(forest(*children).take(i as int) =~= forest(*children));
    }
    text
}

/// The tree, or the parser's complaint, that `text` stands for as markdown
/// with the default options.
pub uninterp spec fn mdast_of(text: Seq<char>) -> Result<MdTree, Seq<char>>;

/// What a parse gave, as a mathematical value.
pub open spec fn parsed(result: Result<MdNode, String>) -> Result<MdTree, Seq<char>> {
    match result {
        Ok(node) => Ok(node@),
        Err(message) => Err(message@),
    }
}

/// A node as the `markdown` crate hands it out.
#[verifier::external_type_specification]
#[verifier::external_body]
pub struct ExNode(::markdown::mdast::Node);

/// Turns a node of `markdown::mdast` into a node of this library, child by
/// child. `Text`, `List` and `ListItem` keep their kind and what they hold;
/// another node with children becomes `Parent`; another node without
/// children becomes `Leaf` with its `to_string()`.
#[verifier::external_body]
fn from_mdast(node: &::markdown::mdast::Node) -> MdNode {
    match node {
        ::markdown::mdast::Node::Text(text) => MdNode::Text(text.value.clone()),
        ::markdown::mdast::Node::List(list) => MdNode::List {
            ordered: list.ordered,
            children: list.children.iter().map(from_mdast).collect(),
        },
        ::markdown::mdast::Node::ListItem(item) => MdNode::ListItem {
            checked: item.checked,
            children: item.children.iter().map(from_mdast).collect(),
        },
        other => match other.children() {
            Some(children) => MdNode::Parent(children.iter().map(from_mdast).collect()),
            None => MdNode::Leaf(other.to_string()),
        },
    }
}

/// Calls `markdown::to_mdast` with `ParseOptions::default()`. The result is
/// a function of the text alone; `mdast_of` is its name. An error comes back
/// as the text of the parser's message.
#[verifier::external_body]
pub(crate) fn to_mdast(text: &str) -> (result: Result<MdNode, String>)
    ensures
        parsed(result) == mdast_of(text@),
{
    match ::markdown::to_mdast(text, &::markdown::ParseOptions::default()) {
        Ok(node) => Ok(from_mdast(&node)),
        Err(message) => Err(message.to_string()),
    }
}

/// Reads `text` as markdown.
pub fn parse_markdown(text: &str) -> (result: Result<MdNode, String>)
    ensures
        parsed(result) == mdast_of(text@),
{
    to_mdast(text)
}

} // verus!
