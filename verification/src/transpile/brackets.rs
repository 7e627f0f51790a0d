//! Translations are well-bracketed Brainf*ck programs.
use vstd::prelude::*;

use crate::parse::ast::{AssignNode, LValueNode, NodeModel, RValueNode, StatementNode, VariableNode};
use crate::transpile::bf_definitions::BFToken;
use crate::transpile::transpiler::{
    TransState, repeat, spec_move_head, spec_transpile_node, spec_transpile_nodes, spec_transpile_number,
    spec_transpile_statement, spec_transpile_variable, spec_transpile_while, spec_variable_then_number,
};

verus! {

/// How an instruction changes the bracket depth.
pub open spec fn bracket_delta(t: BFToken) -> int {
    match t {
        BFToken::OPN => 1,
        BFToken::CLS => -1,
        _ => 0,
    }
}

/// The number of `[` minus the number of `]`.
pub open spec fn depth(ts: Seq<BFToken>) -> int
    decreases ts.len(),
{
    if ts.len() == 0 {
        0
    } else {
        depth(ts.drop_last()) + bracket_delta(ts.last())
    }
}

/// Every `]` closes an earlier `[`, and every `[` is closed.
pub open spec fn well_bracketed(ts: Seq<BFToken>) -> bool {
    &&& depth(ts) == 0
    &&& forall|i: int| 0 <= i <= ts.len() ==> depth(#[trigger] ts.take(i)) >= 0
}

/// No bracket at all.
pub open spec fn bracket_free(ts: Seq<BFToken>) -> bool {
    forall|i: int| 0 <= i < ts.len() ==> bracket_delta(#[trigger] ts[i]) == 0
}

proof fn lemma_depth_push(s: Seq<BFToken>, t: BFToken)
    ensures
        depth(s.push(t)) == depth(s) + bracket_delta(t),
{
    assert(s.push(t).drop_last() =~= s);
}

proof fn lemma_depth_concat(a: Seq<BFToken>, b: Seq<BFToken>)
    ensures
        depth(a + b) == depth(a) + depth(b),
    decreases b.len(),
{
    if b.len() == 0 {
        assert(a + b =~= a);
    } else {
        assert((a + b).drop_last() =~= a + b.drop_last());
        lemma_depth_concat(a, b.drop_last());
    }
}

proof fn lemma_bracket_free_depth(a: Seq<BFToken>)
    requires
        bracket_free(a),
    ensures
        forall|i: int| 0 <= i <= a.len() ==> depth(#[trigger] a.take(i)) == 0,
        depth(a) == 0,
    decreases a.len(),
{
    if a.len() > 0 {
        lemma_bracket_free_depth(a.drop_last());
        assert forall|i: int| 0 <= i <= a.len() implies depth(#[trigger] a.take(i)) == 0 by {
            if i < a.len() {
                assert(a.take(i) =~= a.drop_last().take(i));
            } else {
                assert(a.take(i) =~= a);
                assert(a.drop_last().take(a.len() - 1) =~= a.drop_last());
            }
        }
    } else {
        assert forall|i: int| 0 <= i <= a.len() implies depth(#[trigger] a.take(i)) == 0 by {
            assert(a.take(i) =~= Seq::<BFToken>::empty());
        }
    }
}

proof fn lemma_bracket_free_well_bracketed(a: Seq<BFToken>)
    requires
        bracket_free(a),
    ensures
        well_bracketed(a),
{
    lemma_bracket_free_depth(a);
}

/// Prefix depths of `a + b`: those of `a`, then those of `b` raised by
/// the depth of `a`.
proof fn lemma_concat_prefix(a: Seq<BFToken>, b: Seq<BFToken>, i: int)
    requires
        0 <= i <= a.len() + b.len(),
    ensures
        i <= a.len() ==> (a + b).take(i) == a.take(i),
        i > a.len() ==> depth((a + b).take(i)) == depth(a) + depth(b.take(i - a.len())),
{
    if i <= a.len() {
        assert((a + b).take(i) =~= a.take(i));
    } else {
        assert((a + b).take(i) =~= a + b.take(i - a.len()));
        lemma_depth_concat(a, b.take(i - a.len()));
    }
}

/// Lowest-depth reasoning for a concatenation: where all prefixes of `a`
/// and of `b` stay at or above 0 and `a` ends at `d >= 0`, so does `a + b`.
proof fn lemma_concat_nonneg(a: Seq<BFToken>, b: Seq<BFToken>)
    requires
        forall|i: int| 0 <= i <= a.len() ==> depth(#[trigger] a.take(i)) >= 0,
        forall|i: int| 0 <= i <= b.len() ==> depth(#[trigger] b.take(i)) >= 0,
        depth(a) >= 0,
    ensures
        forall|i: int| 0 <= i <= (a + b).len() ==> depth(#[trigger] (a + b).take(i)) >= 0,
        depth(a + b) == depth(a) + depth(b),
{
    lemma_depth_concat(a, b);
    assert forall|i: int| 0 <= i <= (a + b).len() implies depth(#[trigger] (a + b).take(i)) >= 0 by {
        lemma_concat_prefix(a, b, i);
    }
}

/// Joining well-bracketed sequences gives a well-bracketed one.
pub proof fn lemma_concat_well_bracketed(a: Seq<BFToken>, b: Seq<BFToken>)
    requires
        well_bracketed(a),
        well_bracketed(b),
    ensures
        well_bracketed(a + b),
{
    lemma_concat_nonneg(a, b);
}

/// A loop: bracket-free code, `[`, a well-bracketed body, bracket-free
/// code, `]`.
proof fn lemma_loop_well_bracketed(
    v1: Seq<BFToken>,
    body: Seq<BFToken>,
    v2: Seq<BFToken>,
)
    requires
        bracket_free(v1),
        well_bracketed(body),
        bracket_free(v2),
    ensures
        well_bracketed(v1 + seq![BFToken::OPN] + body + v2 + seq![BFToken::CLS]),
{
    lemma_bracket_free_depth(v1);
    lemma_bracket_free_depth(v2);
    let o = seq![BFToken::OPN];
    let c = seq![BFToken::CLS];
    let e = Seq::<BFToken>::empty();
    assert(o =~= e.push(BFToken::OPN));
    assert(c =~= e.push(BFToken::CLS));
    lemma_depth_push(e, BFToken::OPN);
    lemma_depth_push(e, BFToken::CLS);
    assert forall|i: int| 0 <= i <= o.len() implies depth(#[trigger] o.take(i)) >= 0 by {
        if i == 0 {
            assert(o.take(i) =~= Seq::<BFToken>::empty());
        } else {
            assert(o.take(i) =~= o);
        }
    }
    lemma_concat_nonneg(v1, o);
    let x1 = v1 + o;
    lemma_concat_nonneg(x1, body);
    let x2 = x1 + body;
    lemma_concat_nonneg(x2, v2);
    let x3 = x2 + v2;
    assert(depth(x3) == 1);
    lemma_depth_concat(x3, c);
    assert forall|i: int| 0 <= i <= (x3 + c).len() implies depth(#[trigger] (x3 + c).take(i)) >= 0 by {
        if i <= x3.len() {
            assert((x3 + c).take(i) =~= x3.take(i));
        } else {
            assert((x3 + c).take(i) =~= x3 + c);
        }
    }
}

proof fn lemma_repeat_bracket_free(t: BFToken, n: nat)
    requires
        bracket_delta(t) == 0,
    ensures
        bracket_free(repeat(t, n)),
{
}

proof fn lemma_move_head_free(st: TransState, diff: usize, positive: bool)
    ensures
        spec_move_head(st, diff, positive).1 matches Ok(ts) ==> bracket_free(ts),
{
    lemma_repeat_bracket_free(BFToken::NXT, diff as nat);
    lemma_repeat_bracket_free(BFToken::PRV, diff as nat);
    assert forall|n: nat| true implies bracket_free(repeat(BFToken::NXT, n)) && bracket_free(
        repeat(BFToken::PRV, n),
    ) by {
        lemma_repeat_bracket_free(BFToken::NXT, n);
        lemma_repeat_bracket_free(BFToken::PRV, n);
    }
}

proof fn lemma_variable_free(st: TransState, v: VariableNode)
    ensures
        spec_transpile_variable(st, v).1 matches Ok(ts) ==> bracket_free(ts),
{
    match v {
        VariableNode::Static(s) => {
            let index = if st.info.var_map_compressed {
                st.info.var_map[s.index]
            } else {
                s.index
            };
            if index >= st.head {
                lemma_move_head_free(st, (index - st.head) as usize, true);
            } else {
                lemma_move_head_free(st, (st.head - index) as usize, false);
            }
        },
        VariableNode::Dynamic(_) => {},
    }
}

proof fn lemma_number_free(st: TransState, value: usize, positive: bool)
    ensures
        spec_transpile_number(st, value, positive) matches Ok(ts) ==> bracket_free(ts),
{
    lemma_repeat_bracket_free(BFToken::INC, value as nat);
    lemma_repeat_bracket_free(BFToken::DEC, value as nat);
}

proof fn lemma_variable_then_number(
    st: TransState,
    v: VariableNode,
    prefix: Seq<BFToken>,
    value: usize,
    positive: bool,
)
    requires
        well_bracketed(prefix),
    ensures
        spec_variable_then_number(st, v, prefix, value, positive).1 matches Ok(ts) ==> well_bracketed(ts),
{
    lemma_variable_free(st, v);
    let (st1, r1) = spec_transpile_variable(st, v);
    if let Ok(t1) = r1 {
        lemma_number_free(st1, value, positive);
        if let Ok(n) = spec_transpile_number(st1, value, positive) {
            lemma_bracket_free_well_bracketed(t1);
            lemma_bracket_free_well_bracketed(n);
            lemma_concat_well_bracketed(t1, prefix);
            lemma_concat_well_bracketed(t1 + prefix, n);
        }
    }
}

proof fn lemma_statement_well_bracketed(st: TransState, s: StatementNode)
    ensures
        spec_transpile_statement(st, s).1 matches Ok(ts) ==> well_bracketed(ts),
{
    let clear = seq![BFToken::OPN, BFToken::DEC, BFToken::CLS];
    assert(well_bracketed(clear)) by {
        let e = Seq::<BFToken>::empty();
        assert(seq![BFToken::OPN] =~= e.push(BFToken::OPN));
        assert(seq![BFToken::OPN, BFToken::DEC] =~= e.push(BFToken::OPN).push(BFToken::DEC));
        assert(clear =~= e.push(BFToken::OPN).push(BFToken::DEC).push(BFToken::CLS));
        lemma_depth_push(e, BFToken::OPN);
        lemma_depth_push(e.push(BFToken::OPN), BFToken::DEC);
        lemma_depth_push(e.push(BFToken::OPN).push(BFToken::DEC), BFToken::CLS);
        assert forall|i: int| 0 <= i <= clear.len() implies depth(#[trigger] clear.take(i)) >= 0 by {
            if i == 0 {
                assert(clear.take(i) =~= Seq::<BFToken>::empty());
            } else if i == 1 {
                assert(clear.take(i) =~= seq![BFToken::OPN]);
            } else if i == 2 {
                assert(clear.take(i) =~= seq![BFToken::OPN, BFToken::DEC]);
            } else {
                assert(clear.take(i) =~= clear);
            }
        }
    }
    assert(well_bracketed(Seq::<BFToken>::empty())) by {
        assert forall|i: int| 0 <= i <= 0 implies depth(#[trigger] Seq::<BFToken>::empty().take(i)) >= 0 by {
            assert(Seq::<BFToken>::empty().take(i) =~= Seq::<BFToken>::empty());
        }
    }
    match s {
        StatementNode::Assign(a) => match a {
            AssignNode::Simple(op) => match op.lvalue {
                LValueNode::Variable(v) => match op.rvalue {
                    RValueNode::Number(n) => {
                        lemma_variable_then_number(st, v, clear, n.value, true);
                    },
                    RValueNode::Get(_) => {
                        lemma_variable_free(st, v);
                        if let Ok(t1) = spec_transpile_variable(st, v).1 {
                            assert(bracket_free(Seq::<BFToken>::empty() + (t1 + seq![BFToken::GET])));
                            lemma_bracket_free_well_bracketed(
                                Seq::<BFToken>::empty() + (t1 + seq![BFToken::GET]),
                            );
                        }
                    },
                },
                LValueNode::Head(_) => match op.rvalue {
                    RValueNode::Number(n) => {
                        if n.value >= st.head {
                            lemma_move_head_free(st, (n.value - st.head) as usize, true);
                        } else {
                            lemma_move_head_free(st, (st.head - n.value) as usize, false);
                        }
                        if let Ok(ts) = spec_transpile_statement(st, s).1 {
                            lemma_bracket_free_well_bracketed(ts);
                        }
                    },
                    RValueNode::Get(_) => {},
                },
            },
            AssignNode::Add(op) | AssignNode::Sub(op) => match op.rvalue {
                RValueNode::Get(_) => {},
                RValueNode::Number(n) => match op.lvalue {
                    LValueNode::Variable(v) => {
                        lemma_variable_then_number(st, v, Seq::<BFToken>::empty(), n.value, true);
                        lemma_variable_then_number(st, v, Seq::<BFToken>::empty(), n.value, false);
                    },
                    LValueNode::Head(_) => {
                        lemma_move_head_free(st, n.value, true);
                        lemma_move_head_free(st, n.value, false);
                        if let Ok(ts) = spec_transpile_statement(st, s).1 {
                            lemma_bracket_free_well_bracketed(ts);
                        }
                    },
                },
            },
        },
        StatementNode::Put(p) => {
            lemma_variable_free(st, p.character);
            if let Ok(t1) = spec_transpile_variable(st, p.character).1 {
                assert(bracket_free(Seq::<BFToken>::empty() + (t1 + seq![BFToken::PUT])));
                lemma_bracket_free_well_bracketed(
                    Seq::<BFToken>::empty() + (t1 + seq![BFToken::PUT]),
                );
            }
        },
    }
}

proof fn lemma_node_well_bracketed(st: TransState, n: NodeModel)
    ensures
        spec_transpile_node(st, n).1 matches Ok(ts) ==> well_bracketed(ts),
    decreases n, 0nat,
{
    match n {
        NodeModel::Statement(s) => {
            lemma_statement_well_bracketed(st, s);
        },
        NodeModel::While(c, content) => {
            lemma_while_well_bracketed(TransState { in_while: true, ..st }, c, content);
        },
    }
}

proof fn lemma_while_well_bracketed(st: TransState, c: VariableNode, content: Seq<NodeModel>)
    ensures
        spec_transpile_while(st, c, content).1 matches Ok(ts) ==> well_bracketed(ts),
    decreases content, 1nat,
{
    lemma_variable_free(st, c);
    let (st1, r1) = spec_transpile_variable(st, c);
    if r1 is Ok {
        lemma_nodes_well_bracketed(st1, content);
        let (st2, r2) = spec_transpile_nodes(st1, content);
        if r2 is Ok {
            lemma_variable_free(st2, c);
            let (st3, r3) = spec_transpile_variable(st2, c);
            if r3 is Ok {
                lemma_loop_well_bracketed(r1->Ok_0, r2->Ok_0, r3->Ok_0);
            }
        }
    }
}

proof fn lemma_nodes_well_bracketed(st: TransState, nodes: Seq<NodeModel>)
    ensures
        spec_transpile_nodes(st, nodes).1 matches Ok(ts) ==> well_bracketed(ts),
    decreases nodes, 0nat,
{
    if nodes.len() == 0 {
        assert forall|i: int| 0 <= i <= 0 implies depth(#[trigger] Seq::<BFToken>::empty().take(i)) >= 0 by {
            assert(Seq::<BFToken>::empty().take(i) =~= Seq::<BFToken>::empty());
        }
    } else {
        lemma_node_well_bracketed(st, nodes[0]);
        let (st1, r1) = spec_transpile_node(st, nodes[0]);
        if r1 is Ok {
            lemma_nodes_well_bracketed(st1, nodes.drop_first());
            let (st2, r2) = spec_transpile_nodes(st1, nodes.drop_first());
            if r2 is Ok {
                lemma_concat_well_bracketed(r1->Ok_0, r2->Ok_0);
            }
        }
    }
}

/// Law: whatever a translation produces is a well-bracketed Brainf*ck
/// program — every `]` closes an earlier `[` and every `[` is closed.
pub proof fn law_translation_well_bracketed(st: TransState, nodes: Seq<NodeModel>)
    ensures
        spec_transpile_nodes(st, nodes).1 matches Ok(ts) ==> well_bracketed(ts),
{
    lemma_nodes_well_bracketed(st, nodes);
}

} // verus!
