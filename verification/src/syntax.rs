//! The parsed content that the engine lays out.

use vstd::prelude::*;
use vstd::string::*;

verus! {

/// A function call found in the source text.
#[derive(Debug, Clone, PartialEq, Eq)]
pub struct FuncCall<'s> {
    /// Name the function was called by.
    pub name: &'s str,
    /// Raw source of the function's body, if it has one.
    pub body: Option<&'s str>,
}

/// One token of parsed content.
#[derive(Debug, Clone, PartialEq, Eq)]
pub enum Node<'s> {
    /// A run of characters without white space.
    Word(&'s str),
    /// White space between two words.
    Space,
    /// A line feed in the source text.
    Newline,
    /// Switches italics on or off.
    ToggleItalics,
    /// Switches bold face on or off.
    ToggleBold,
    /// Switches math mode on or off.
    ToggleMath,
    /// A function call.
    Func(FuncCall<'s>),
}

/// The mathematical content of a [`FuncCall`].
pub struct FuncCallView {
    pub name: Seq<char>,
    pub body: Option<Seq<char>>,
}

impl<'s> View for FuncCall<'s> {
    type V = FuncCallView;

    open spec fn view(&self) -> FuncCallView {
        FuncCallView {
            name: self.name@,
            body: match self.body {
                Some(body) => Some(body@),
                None => None,
            },
        }
    }
}

/// The mathematical content of a [`Node`].
pub enum NodeView {
    Word(Seq<char>),
    Space,
    Newline,
    ToggleItalics,
    ToggleBold,
    ToggleMath,
    Func(FuncCallView),
}

impl<'s> View for Node<'s> {
    type V = NodeView;

    open spec fn view(&self) -> NodeView {
        match self {
            Node::Word(word) => NodeView::Word(word@),
            Node::Space => NodeView::Space,
            Node::Newline => NodeView::Newline,
            Node::ToggleItalics => NodeView::ToggleItalics,
            Node::ToggleBold => NodeView::ToggleBold,
            Node::ToggleMath => NodeView::ToggleMath,
            Node::Func(call) => NodeView::Func(call@),
        }
    }
}

impl NodeView {
    /// `None` for a node the engine lays out, else what stands in its way.
    pub open spec fn unsupported(self) -> Option<UnsupportedNode> {
        match self {
            NodeView::Word(_) | NodeView::Space | NodeView::Newline => None,
            NodeView::ToggleItalics => Some(UnsupportedNode::ToggleItalics),
            NodeView::ToggleBold => Some(UnsupportedNode::ToggleBold),
            NodeView::ToggleMath => Some(UnsupportedNode::ToggleMath),
            NodeView::Func(_) => Some(UnsupportedNode::Func),
        }
    }
}

/// Nodes that the engine does not lay out.
#[derive(Debug, Clone, Copy, PartialEq, Eq, Structural)]
pub enum UnsupportedNode {
    ToggleItalics,
    ToggleBold,
    ToggleMath,
    Func,
}

impl UnsupportedNode {
    /// Why the node stops the pass, in words.
    pub open spec fn message_of(self) -> Seq<char> {
        match self {
            UnsupportedNode::ToggleItalics => "italics are not supported"@,
            UnsupportedNode::ToggleBold => "bold face is not supported"@,
            UnsupportedNode::ToggleMath => "math mode is not supported"@,
            UnsupportedNode::Func => "function calls are not supported"@,
        }
    }

    /// Why the node stops the pass, in words.
    pub fn message(&self) -> (message: String)
        ensures
            message@ == self.message_of(),
    {
        match self {
            UnsupportedNode::ToggleItalics => "italics are not supported".to_owned(),
            UnsupportedNode::ToggleBold => "bold face is not supported".to_owned(),
            UnsupportedNode::ToggleMath => "math mode is not supported".to_owned(),
            UnsupportedNode::Func => "function calls are not supported".to_owned(),
        }
    }
}

impl<'s> Node<'s> {
    /// `None` for a node the engine lays out, else what stands in its way.
    pub fn check(&self) -> (res: Option<UnsupportedNode>)
        ensures
            res == self@.unsupported(),
    {
        match self {
            Node::Word(_) | Node::Space | Node::Newline => None,
            Node::ToggleItalics => Some(UnsupportedNode::ToggleItalics),
            Node::ToggleBold => Some(UnsupportedNode::ToggleBold),
            Node::ToggleMath => Some(UnsupportedNode::ToggleMath),
            Node::Func(_) => Some(UnsupportedNode::Func),
        }
    }

}

/// A node that stopped a pass, and where it stands.
#[derive(Debug, Clone, Copy, PartialEq, Eq, Structural)]
pub struct UnsupportedNodeError {
    /// Position of the node in the sequence.
    pub index: usize,
    /// What kind of node it is.
    pub node: UnsupportedNode,
}

/// An ordered sequence of nodes.
#[derive(Debug, Clone, PartialEq, Eq)]
pub struct SyntaxTree<'s> {
    pub nodes: Vec<Node<'s>>,
}

impl<'s> View for SyntaxTree<'s> {
    type V = Seq<NodeView>;

    open spec fn view(&self) -> Seq<NodeView> {
        self.nodes@.map_values(|node: Node<'s>| node@)
    }
}

} // verus!
