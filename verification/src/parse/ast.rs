//! The syntax tree of a BrainMassage program, and its model.
use vstd::prelude::*;

verus! {

broadcast use vstd::std_specs::vec::axiom_vec_decreases_to_view;

/// A whole program.
#[derive(Debug, PartialEq, Eq)]
pub struct AST {
    pub root: Vec<TopLevelNode>,
}

/// A loop or a statement.
#[derive(Debug, PartialEq, Eq)]
pub enum TopLevelNode {
    While(WhileNode),
    Statement(StatementNode),
}

/// `while (condition) { content }`
#[derive(Debug, PartialEq, Eq)]
pub struct WhileNode {
    pub condition: VariableNode,
    pub content: Vec<TopLevelNode>,
}

/// An assignment or an output.
#[derive(Debug, Clone, Copy, PartialEq, Eq, Structural)]
pub enum StatementNode {
    Assign(AssignNode),
    Put(PutNode),
}

/// `lvalue = rvalue`, `lvalue += rvalue` or `lvalue -= rvalue`.
#[derive(Debug, Clone, Copy, PartialEq, Eq, Structural)]
pub enum AssignNode {
    Simple(AssignNodeOperand),
    Add(AssignNodeOperand),
    Sub(AssignNodeOperand),
}

/// The two sides of an assignment.
#[derive(Debug, Clone, Copy, PartialEq, Eq, Structural)]
pub struct AssignNodeOperand {
    pub lvalue: LValueNode,
    pub rvalue: RValueNode,
}

/// What an assignment writes: a tape cell or the head position.
#[derive(Debug, Clone, Copy, PartialEq, Eq, Structural)]
pub enum LValueNode {
    Variable(VariableNode),
    Head(HeadNode),
}

/// What an assignment reads: a literal or one input character.
#[derive(Debug, Clone, Copy, PartialEq, Eq, Structural)]
pub enum RValueNode {
    Number(NumberNode),
    Get(GetNode),
}

/// `put(character)`
#[derive(Debug, Clone, Copy, PartialEq, Eq, Structural)]
pub struct PutNode {
    pub character: VariableNode,
}

/// `get()`
#[derive(Debug, Clone, Copy, PartialEq, Eq, Structural)]
pub struct GetNode;

/// A tape cell at a fixed index or under the head.
#[derive(Debug, Clone, Copy, PartialEq, Eq, Structural)]
pub enum VariableNode {
    Static(StaticVariableNode),
    Dynamic(DynamicVariableNode),
}

/// The tape cell at `index`.
#[derive(Debug, Clone, Copy, PartialEq, Eq, Structural)]
pub struct StaticVariableNode {
    pub index: usize,
}

/// The tape cell under the head.
#[derive(Debug, Clone, Copy, PartialEq, Eq, Structural)]
pub struct DynamicVariableNode;

/// A number literal.
#[derive(Debug, Clone, Copy, PartialEq, Eq, Structural)]
pub struct NumberNode {
    pub value: usize,
}

/// The head position, as the target of an assignment.
#[derive(Debug, Clone, Copy, PartialEq, Eq, Structural)]
pub struct HeadNode;

/// A node of a program with its loop bodies as sequences.
pub enum NodeModel {
    While(VariableNode, Seq<NodeModel>),
    Statement(StatementNode),
}

/// The model of one node.
pub open spec fn node_view(n: TopLevelNode) -> NodeModel
    decreases n,
{
    match n {
        TopLevelNode::While(w) => NodeModel::While(w.condition, nodes_view(w.content@)),
        TopLevelNode::Statement(s) => NodeModel::Statement(s),
    }
}

/// The model of a sequence of nodes, node by node.
pub open spec fn nodes_view(s: Seq<TopLevelNode>) -> Seq<NodeModel>
    decreases s,
{
    if s.len() == 0 {
        seq![]
    } else {
        nodes_view(s.drop_last()).push(node_view(s.last()))
    }
}

/// The model of a sequence has one node model per node, in order.
pub broadcast proof fn lemma_nodes_view(s: Seq<TopLevelNode>)
    ensures
        #[trigger] nodes_view(s).len() == s.len(),
        forall|i: int| 0 <= i < s.len() ==> #[trigger] nodes_view(s)[i] == node_view(s[i]),
    decreases s.len(),
{
    if s.len() > 0 {
        lemma_nodes_view(s.drop_last());
    }
}

impl View for AST {
    type V = Seq<NodeModel>;

    open spec fn view(&self) -> Seq<NodeModel> {
        nodes_view(self.root@)
    }
}

} // verus!
