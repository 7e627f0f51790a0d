//! What analysis always keeps.
use vstd::prelude::*;

use crate::parse::ast::{
    AssignNode, AssignNodeOperand, DynamicVariableNode, HeadNode, LValueNode, NodeModel, NumberNode,
    RValueNode, StatementNode, StaticVariableNode, VariableNode,
};
use crate::sem::semer::{
    SemOptimizationOptions, SemState, allow_static, fresh_state, spec_sem, spec_visit_static, spec_visit_node, spec_visit_nodes,
    spec_count_node, spec_visit_assignment, spec_visit_statement, spec_visit_variable,
};

verus! {

/// `b` moved on from `a` only in what a visit may change: the options, the
/// tape length and the renumbering stay, and the boundary of the known head
/// region only moves down.
pub open spec fn same_frame(a: SemState, b: SemState) -> bool {
    &&& b.compress_var_map == a.compress_var_map
    &&& b.round_var_index == a.round_var_index
    &&& b.round_num_literal == a.round_num_literal
    &&& b.tape_len == a.tape_len
    &&& b.var_map == a.var_map
    &&& b.var_map_compressed == a.var_map_compressed
    &&& b.first <= a.first
}

/// Besides the frame, the place (top-level count and loop flag) is kept.
pub open spec fn same_place(a: SemState, b: SemState) -> bool {
    &&& same_frame(a, b)
    &&& b.cur == a.cur
    &&& b.in_while == a.in_while
}

proof fn lemma_variable_frame(st: SemState, v: VariableNode)
    ensures
        same_place(st, spec_visit_variable(st, v).0),
{
}

proof fn lemma_assignment_frame(st: SemState, a: AssignNode)
    ensures
        same_place(st, spec_visit_assignment(st, a).0),
{
    match a {
        AssignNode::Simple(op) | AssignNode::Add(op) | AssignNode::Sub(op) => match op.lvalue {
            LValueNode::Variable(v) => lemma_variable_frame(st, v),
            LValueNode::Head(_) => {},
        },
    }
}

proof fn lemma_statement_frame(st: SemState, s: StatementNode)
    ensures
        same_place(st, spec_visit_statement(st, s).0),
{
    match s {
        StatementNode::Assign(a) => lemma_assignment_frame(st, a),
        StatementNode::Put(p) => lemma_variable_frame(st, p.character),
    }
}

/// A visit keeps the frame; a successful one comes back to the loop flag
/// it started with and counts the node where it is outside any loop.
proof fn lemma_node_frame(st: SemState, n: NodeModel)
    ensures
        same_frame(st, spec_visit_node(st, n).0),
        spec_visit_node(st, n).2 is Ok ==> {
            let st2 = spec_visit_node(st, n).0;
            &&& st2.in_while == st.in_while
            &&& st2.cur == if st.in_while {
                st.cur as int
            } else {
                st.cur + 1
            }
        },
    decreases n, 0nat,
{
    match n {
        NodeModel::Statement(s) => {
            lemma_statement_frame(st, s);
        },
        NodeModel::While(c, content) => {
            lemma_variable_frame(st, c);
            let (st1, c1, r1) = spec_visit_variable(st, c);
            lemma_nodes_frame(SemState { in_while: true, ..st1 }, content);
        },
    }
}

proof fn lemma_nodes_frame(st: SemState, nodes: Seq<NodeModel>)
    ensures
        same_frame(st, spec_visit_nodes(st, nodes).0),
        spec_visit_nodes(st, nodes).2 is Ok ==> {
            let st2 = spec_visit_nodes(st, nodes).0;
            &&& st2.in_while == st.in_while
            &&& st2.cur == if st.in_while {
                st.cur as int
            } else {
                st.cur + nodes.len()
            }
        },
    decreases nodes, 0nat,
{
    if nodes.len() > 0 {
        lemma_node_frame(st, nodes[0]);
        let (st1, n1, r1) = spec_visit_node(st, nodes[0]);
        if r1 is Ok {
            lemma_nodes_frame(st1, nodes.drop_first());
        }
    }
}

/// Law: an analysis that starts from a fresh analyzer never renumbers the
/// static variables. At its end the count of top-level nodes done has
/// reached the number of top-level nodes, so the head position no longer
/// counts as known, and the renumbering is skipped: the variable map
/// stays empty and unused.
pub proof fn law_fresh_analysis_never_renumbers(
    ast: Seq<NodeModel>,
    tape_len: usize,
    opts: SemOptimizationOptions,
)
    requires
        ast.len() <= usize::MAX,
    ensures
        !spec_sem(fresh_state(tape_len, opts), ast).0.var_map_compressed,
        spec_sem(fresh_state(tape_len, opts), ast).0.var_map == Map::<usize, usize>::empty(),
{
    let st = fresh_state(tape_len, opts);
    let st0 = SemState { first: ast.len() as usize, ..st };
    lemma_nodes_frame(st0, ast);
}

/// The variable is no static one at or beyond `bound`.
pub open spec fn variable_below(v: VariableNode, bound: usize) -> bool {
    v matches VariableNode::Static(s) ==> s.index < bound
}

/// Every variable of the statement is below `bound`.
pub open spec fn statement_below(s: StatementNode, bound: usize) -> bool {
    match s {
        StatementNode::Assign(a) => {
            let op = match a {
                AssignNode::Simple(op) => op,
                AssignNode::Add(op) => op,
                AssignNode::Sub(op) => op,
            };
            op.lvalue matches LValueNode::Variable(v) ==> variable_below(v, bound)
        },
        StatementNode::Put(p) => variable_below(p.character, bound),
    }
}

/// Every static variable of the node is below `bound`.
pub open spec fn node_below(n: NodeModel, bound: usize) -> bool
    decreases n, 0nat,
{
    match n {
        NodeModel::Statement(s) => statement_below(s, bound),
        NodeModel::While(c, content) => variable_below(c, bound) && nodes_below(content, bound),
    }
}

/// Every static variable of the nodes is below `bound`.
pub open spec fn nodes_below(nodes: Seq<NodeModel>, bound: usize) -> bool
    decreases nodes, 1nat,
{
    forall|i: int| 0 <= i < nodes.len() ==> node_below(#[trigger] nodes[i], bound)
}

proof fn lemma_variable_below(st: SemState, v: VariableNode)
    requires
        st.round_var_index,
    ensures
        spec_visit_variable(st, v).2 is Ok ==> variable_below(spec_visit_variable(st, v).1, st.tape_len),
{
}

proof fn lemma_statement_below(st: SemState, s: StatementNode)
    requires
        st.round_var_index,
    ensures
        spec_visit_statement(st, s).2 is Ok ==> statement_below(spec_visit_statement(st, s).1, st.tape_len),
{
    match s {
        StatementNode::Assign(a) => match a {
            AssignNode::Simple(op) | AssignNode::Add(op) | AssignNode::Sub(op) => match op.lvalue {
                LValueNode::Variable(v) => {
                    lemma_variable_below(st, v);
                },
                LValueNode::Head(_) => {},
            },
        },
        StatementNode::Put(p) => {
            lemma_variable_below(st, p.character);
        },
    }
}

proof fn lemma_node_below(st: SemState, n: NodeModel)
    requires
        st.round_var_index,
    ensures
        spec_visit_node(st, n).2 is Ok ==> node_below(spec_visit_node(st, n).1, st.tape_len),
    decreases n, 0nat,
{
    match n {
        NodeModel::Statement(s) => {
            lemma_statement_below(st, s);
        },
        NodeModel::While(c, content) => {
            lemma_variable_below(st, c);
            lemma_variable_frame(st, c);
            let (st1, c1, r1) = spec_visit_variable(st, c);
            lemma_nodes_below(SemState { in_while: true, ..st1 }, content);
        },
    }
}

proof fn lemma_nodes_below(st: SemState, nodes: Seq<NodeModel>)
    requires
        st.round_var_index,
    ensures
        spec_visit_nodes(st, nodes).2 is Ok ==> nodes_below(spec_visit_nodes(st, nodes).1, st.tape_len),
    decreases nodes, 0nat,
{
    if nodes.len() > 0 {
        lemma_node_below(st, nodes[0]);
        lemma_node_frame(st, nodes[0]);
        let (st1, n1, r1) = spec_visit_node(st, nodes[0]);
        if r1 is Ok {
            lemma_nodes_below(st1, nodes.drop_first());
            let rest = spec_visit_nodes(st1, nodes.drop_first()).1;
            if spec_visit_nodes(st1, nodes.drop_first()).2 is Ok {
            assert forall|i: int| 0 <= i < (seq![n1] + rest).len() implies node_below(
                #[trigger] (seq![n1] + rest)[i],
                st.tape_len,
            ) by {
                if i > 0 {
                    assert((seq![n1] + rest)[i] == rest[i - 1]);
                    assert(node_below(rest[i - 1], st1.tape_len));
                } else {
                    assert((seq![n1] + rest)[i] == n1);
                }
            }
            }
        }
    }
}

/// Law: where reduction of indexes is asked for, a successful analysis
/// leaves no static variable at or beyond the end of the tape.
pub proof fn law_rounded_indexes_fit_tape(st: SemState, ast: Seq<NodeModel>)
    requires
        st.round_var_index,
    ensures
        spec_sem(st, ast).2 is Ok ==> nodes_below(spec_sem(st, ast).1, st.tape_len),
{
    let st0 = SemState { first: ast.len() as usize, ..st };
    lemma_nodes_below(st0, ast);
}

/// Law: analysing with the default options is analysing with renumbering
/// on, index reduction off and literal reduction on: `sem` and
/// `sem_with_opt_struct` with those options give the same tree, state and
/// outcome.
pub proof fn law_default_analysis_options(ast: Seq<NodeModel>, tape_len: usize)
    ensures
        crate::sem::spec_sem_program(ast, tape_len, crate::sem::default_sem_options())
            == crate::sem::spec_sem_program(
            ast,
            tape_len,
            SemOptimizationOptions {
                compress_var_map: true,
                round_var_index: false,
                round_num_literal: true,
            },
        ),
{
}

/// `b` is `a` but for the two warning flags.
pub open spec fn same_but_warnings(a: SemState, b: SemState) -> bool {
    SemState { warn_big_index: a.warn_big_index, warn_big_literal: a.warn_big_literal, ..b } == a
}

proof fn lemma_static_again(a: SemState, b: SemState, idx: usize)
    requires
        same_but_warnings(a, b),
        spec_visit_static(a, idx).2 is Ok,
    ensures
        ({
            let (a1, i, _) = spec_visit_static(a, idx);
            let (b1, i2, r2) = spec_visit_static(b, i);
            &&& r2 is Ok
            &&& i2 == i
            &&& same_but_warnings(a1, b1)
        }),
{
    if a.round_var_index {
        let i = (idx % a.tape_len) as usize;
        vstd::arithmetic::div_mod::lemma_small_mod(i as nat, a.tape_len as nat);
    }
}

proof fn lemma_variable_again(a: SemState, b: SemState, v: VariableNode)
    requires
        same_but_warnings(a, b),
        spec_visit_variable(a, v).2 is Ok,
    ensures
        ({
            let (a1, v1, _) = spec_visit_variable(a, v);
            let (b1, v2, r2) = spec_visit_variable(b, v1);
            &&& r2 is Ok
            &&& v2 == v1
            &&& same_but_warnings(a1, b1)
        }),
{
    match v {
        VariableNode::Static(sv) => lemma_static_again(a, b, sv.index),
        VariableNode::Dynamic(_) => {
            if allow_static(a) && !a.in_while {
                lemma_static_again(a, b, a.head);
            }
        },
    }
}

proof fn lemma_assignment_again(a: SemState, b: SemState, asg: AssignNode)
    requires
        same_but_warnings(a, b),
        spec_visit_assignment(a, asg).2 is Ok,
    ensures
        ({
            let (a1, asg1, _) = spec_visit_assignment(a, asg);
            let (b1, asg2, r2) = spec_visit_assignment(b, asg1);
            &&& r2 is Ok
            &&& asg2 == asg1
            &&& same_but_warnings(a1, b1)
        }),
{
    match asg {
        AssignNode::Simple(op) => match op.lvalue {
            LValueNode::Variable(v) => lemma_variable_again(a, b, v),
            LValueNode::Head(_) => {},
        },
        AssignNode::Add(op) | AssignNode::Sub(op) => match op.lvalue {
            LValueNode::Variable(v) => lemma_variable_again(a, b, v),
            LValueNode::Head(_) => {},
        },
    }
}

proof fn lemma_statement_again(a: SemState, b: SemState, s: StatementNode)
    requires
        same_but_warnings(a, b),
        spec_visit_statement(a, s).2 is Ok,
    ensures
        ({
            let (a1, s1, _) = spec_visit_statement(a, s);
            let (b1, s2, r2) = spec_visit_statement(b, s1);
            &&& r2 is Ok
            &&& s2 == s1
            &&& same_but_warnings(a1, b1)
        }),
{
    match s {
        StatementNode::Assign(asg) => lemma_assignment_again(a, b, asg),
        StatementNode::Put(p) => lemma_variable_again(a, b, p.character),
    }
}

proof fn lemma_node_again(a: SemState, b: SemState, n: NodeModel)
    requires
        same_but_warnings(a, b),
        spec_visit_node(a, n).2 is Ok,
    ensures
        ({
            let (a1, n1, _) = spec_visit_node(a, n);
            let (b1, n2, r2) = spec_visit_node(b, n1);
            &&& r2 is Ok
            &&& n2 == n1
            &&& same_but_warnings(a1, b1)
        }),
    decreases n,
{
    match n {
        NodeModel::Statement(s) => {
            lemma_statement_again(a, b, s);
            let (a1, s1, _) = spec_visit_statement(a, s);
            let (b1, _, _) = spec_visit_statement(b, s1);
            lemma_count_again(a1, b1);
        },
        NodeModel::While(c, content) => {
            lemma_variable_again(a, b, c);
            let (a1, c1, _) = spec_visit_variable(a, c);
            let (b1, _, _) = spec_visit_variable(b, c1);
            let wa = SemState { in_while: true, ..a1 };
            let wb = SemState { in_while: true, ..b1 };
            assert(same_but_warnings(wa, wb));
            lemma_nodes_again(wa, wb, content);
            let (a2, content2, _) = spec_visit_nodes(wa, content);
            let (b2, _, _) = spec_visit_nodes(wb, content2);
            let a3 = SemState { in_while: a1.in_while, ..a2 };
            let b3 = SemState { in_while: b1.in_while, ..b2 };
            assert(same_but_warnings(a3, b3));
            lemma_count_again(a3, b3);
        },
    }
}

proof fn lemma_count_again(a: SemState, b: SemState)
    requires
        same_but_warnings(a, b),
    ensures
        spec_count_node(a).1 == spec_count_node(b).1,
        same_but_warnings(spec_count_node(a).0, spec_count_node(b).0),
{
}

proof fn lemma_nodes_again(a: SemState, b: SemState, nodes: Seq<NodeModel>)
    requires
        same_but_warnings(a, b),
        spec_visit_nodes(a, nodes).2 is Ok,
    ensures
        ({
            let (a1, nodes1, _) = spec_visit_nodes(a, nodes);
            let (b1, nodes2, r2) = spec_visit_nodes(b, nodes1);
            &&& r2 is Ok
            &&& nodes2 == nodes1
            &&& nodes1.len() == nodes.len()
            &&& same_but_warnings(a1, b1)
        }),
    decreases nodes,
{
    if nodes.len() > 0 {
        lemma_node_again(a, b, nodes[0]);
        let (a1, n1, _) = spec_visit_node(a, nodes[0]);
        let (b1, _, _) = spec_visit_node(b, n1);
        lemma_nodes_again(a1, b1, nodes.drop_first());
        let (_, rest, _) = spec_visit_nodes(a1, nodes.drop_first());
        let out = seq![n1] + rest;
        assert(out[0] == n1);
        assert(out.drop_first() =~= rest);
        let (_, rest2, _) = spec_visit_nodes(b1, rest);
        assert(seq![n1] + rest2 =~= out);
    }
}

/// Law: analysing an analysed program again, with a fresh analyzer, the
/// same tape length and the same options, succeeds and changes nothing:
/// head-relative variables already made fixed, and indexes and literals
/// already reduced, stay as they are.
pub proof fn law_analysis_is_idempotent(
    ast: Seq<NodeModel>,
    tape_len: usize,
    opts: SemOptimizationOptions,
)
    requires
        spec_sem(fresh_state(tape_len, opts), ast).2 is Ok,
    ensures
        ({
            let out = spec_sem(fresh_state(tape_len, opts), ast).1;
            &&& spec_sem(fresh_state(tape_len, opts), out).2 is Ok
            &&& spec_sem(fresh_state(tape_len, opts), out).1 == out
        }),
{
    let st = fresh_state(tape_len, opts);
    let a = SemState { first: ast.len() as usize, ..st };
    lemma_nodes_again(a, a, ast);
}

/// `head op= n` as a node: `op` is `=` for 0, `+=` for 1, `-=` for 2.
pub open spec fn head_assignment(op: nat, n: usize) -> AssignNode {
    let operand = AssignNodeOperand {
        lvalue: LValueNode::Head(HeadNode),
        rvalue: RValueNode::Number(NumberNode { value: n }),
    };
    if op == 0 {
        AssignNode::Simple(operand)
    } else if op == 1 {
        AssignNode::Add(operand)
    } else {
        AssignNode::Sub(operand)
    }
}

/// `h` reduced modulo the tape length where indexes are reduced.
pub open spec fn reduced_head(st: SemState, h: int) -> int {
    if st.round_var_index {
        h % (st.tape_len as int)
    } else {
        h
    }
}

/// Law: outside loops, while the head position is known, `head = n` puts
/// the analyzed head on the literal (after any literal reduction),
/// `head += n` moves it `n` cells right and `head -= n` (with `n` at most
/// the head) `n` cells left, each reduced modulo the tape length where
/// indexes are reduced; a head-relative variable right after becomes the
/// fixed cell where the head now is.
pub proof fn law_head_assignments_move_known_head(st: SemState, op: nat, n: usize)
    requires
        !st.in_while,
        allow_static(st),
        op <= 2,
        st.round_var_index ==> st.tape_len > 0,
        op == 1 ==> st.head + n <= usize::MAX,
        op == 2 ==> n <= st.head,
    ensures
        ({
            let v = if st.round_num_literal {
                n as int % 256
            } else {
                n as int
            };
            let target = if op == 0 {
                reduced_head(st, v)
            } else if op == 1 {
                reduced_head(st, st.head + n)
            } else {
                reduced_head(st, st.head - n)
            };
            let (st1, _, r) = spec_visit_assignment(st, head_assignment(op, n));
            &&& r is Ok
            &&& st1.head == target
            &&& spec_visit_variable(st1, VariableNode::Dynamic(DynamicVariableNode)).1
                == VariableNode::Static(StaticVariableNode { index: target as usize })
        }),
{
    let (st1, _, r) = spec_visit_assignment(st, head_assignment(op, n));
    if st.round_var_index {
        vstd::arithmetic::div_mod::lemma_small_mod(st1.head as nat, st.tape_len as nat);
    }
}

/// Law: a variable that analysis accepts comes out as follows. A static
/// one keeps its index, reduced modulo the tape length where indexes are
/// reduced, and is recorded as used. A head-relative one outside loops,
/// while the head is known, becomes the static variable at the head
/// (reduced likewise) and is recorded; anywhere else it stays head-relative
/// and nothing changes.
pub proof fn law_variable_resolution(st: SemState, v: VariableNode)
    ensures
        ({
            let (st1, v1, r) = spec_visit_variable(st, v);
            r is Ok ==> match v {
                VariableNode::Static(s) => {
                    &&& v1 == VariableNode::Static(
                        StaticVariableNode { index: reduced_head(st, s.index as int) as usize },
                    )
                    &&& st1.vars.contains(reduced_head(st, s.index as int) as usize)
                    &&& st1.head == st.head
                },
                VariableNode::Dynamic(_) => if allow_static(st) && !st.in_while {
                    &&& v1 == VariableNode::Static(
                        StaticVariableNode { index: reduced_head(st, st.head as int) as usize },
                    )
                    &&& st1.vars.contains(reduced_head(st, st.head as int) as usize)
                } else {
                    v1 == v && st1 == st
                },
            }
        }),
{
}

} // verus!
