//! Where translated text moves the Brainf*ck head.
use vstd::prelude::*;

use crate::parse::ast::{
    AssignNode, AssignNodeOperand, GetNode, LValueNode, NodeModel, NumberNode, PutNode, RValueNode,
    StatementNode, StaticVariableNode, VariableNode,
};
use crate::transpile::bf_definitions::BFToken;
use crate::transpile::transpiler::{
    TransState, raise_head, repeat, spec_move_head, spec_set_head, spec_trans_count,
    spec_transpile_assign, spec_transpile_node, spec_transpile_nodes, spec_transpile_number,
    spec_transpile_statement, spec_transpile_variable, spec_transpile_while,
    spec_variable_then_number, trans_allow_static,
};

verus! {

/// How far one instruction moves the head: `>` one cell right, `<` one
/// cell left, the others not at all.
pub open spec fn step(t: BFToken) -> int {
    match t {
        BFToken::NXT => 1,
        BFToken::PRV => -1,
        _ => 0,
    }
}

/// How far the instructions `ts`, run straight through, move the head: the
/// number of `>` minus the number of `<`.
pub open spec fn displacement(ts: Seq<BFToken>) -> int
    decreases ts.len(),
{
    if ts.len() == 0 {
        0
    } else {
        displacement(ts.drop_last()) + step(ts.last())
    }
}

/// The cell that static variable `index` stands for, as a translator in
/// state `st` reaches it: renumbered where the analysis renumbered, and
/// taken modulo the tape length where moves go the short way round.
pub open spec fn cell_of(st: TransState, index: usize) -> int {
    let i = if st.info.var_map_compressed {
        st.info.var_map[index]
    } else {
        index
    };
    if st.head_move_around_compaction {
        i as int % st.info.tape_len as int
    } else {
        i as int
    }
}

/// `b` translates under the same analysis and options as `a`.
pub open spec fn same_setting(a: TransState, b: TransState) -> bool {
    &&& b.info == a.info
    &&& b.number_compaction == a.number_compaction
    &&& b.head_move_around_compaction == a.head_move_around_compaction
}

/// A translation step from `a` to `b` gave `r`: where it succeeded, its
/// text moves the head exactly as far as the tracked head moved.
pub open spec fn moves_with_head(
    a: TransState,
    b: TransState,
    r: Result<Seq<BFToken>, crate::transpile::transpiler::TranspileFailure>,
) -> bool {
    &&& same_setting(a, b)
    &&& (r matches Ok(ts) ==> displacement(ts) == b.head - a.head)
}

pub proof fn lemma_displacement_concat(a: Seq<BFToken>, b: Seq<BFToken>)
    ensures
        displacement(a + b) == displacement(a) + displacement(b),
    decreases b.len(),
{
    if b.len() == 0 {
        assert(a + b =~= a);
    } else {
        assert((a + b).drop_last() =~= a + b.drop_last());
        lemma_displacement_concat(a, b.drop_last());
    }
}

proof fn lemma_displacement_repeat(t: BFToken, n: nat)
    ensures
        displacement(repeat(t, n)) == n * step(t),
    decreases n,
{
    if n > 0 {
        assert(repeat(t, n).drop_last() =~= repeat(t, (n - 1) as nat));
        lemma_displacement_repeat(t, (n - 1) as nat);
        assert(n * step(t) == (n - 1) * step(t) + step(t)) by (nonlinear_arith);
    }
}

proof fn lemma_displacement_single(t: BFToken)
    ensures
        displacement(seq![t]) == step(t),
{
    reveal_with_fuel(displacement, 2);
    assert(seq![t].drop_last() =~= Seq::<BFToken>::empty());
}

proof fn lemma_raise_head(h: int, diff: int, t: int)
    requires
        t > 0,
    ensures
        raise_head(h, diff, t) matches Some(r) ==> r >= diff && (r - diff) % t == (h - diff) % t,
    decreases (if h < diff {
        diff - h
    } else {
        0
    }),
{
    if h < diff && h + t <= usize::MAX {
        lemma_raise_head(h + t, diff, t);
        vstd::arithmetic::div_mod::lemma_mod_add_multiples_vanish(h - diff, t);
        assert(t + (h - diff) == h + t - diff);
    }
}

proof fn lemma_move_head_motion(st: TransState, diff: usize, positive: bool)
    ensures
        moves_with_head(st, spec_move_head(st, diff, positive).0, spec_move_head(st, diff, positive).1),
        spec_move_head(st, diff, positive).0.cur == st.cur,
        spec_move_head(st, diff, positive).0.in_while == st.in_while,
        spec_move_head(st, diff, positive).1 is Ok && trans_allow_static(st)
            && st.head_move_around_compaction ==> {
            &&& st.info.tape_len > 0
            &&& spec_move_head(st, diff, positive).0.head == (if positive {
                st.head + diff
            } else {
                st.head - diff
            }) % (st.info.tape_len as int)
        },
        spec_move_head(st, diff, positive).1 is Ok && !(trans_allow_static(st)
            && st.head_move_around_compaction) ==> spec_move_head(st, diff, positive).0.head == (
        if positive {
            st.head + diff
        } else {
            st.head - diff
        }),
{
    lemma_displacement_repeat(BFToken::NXT, diff as nat);
    lemma_displacement_repeat(BFToken::PRV, diff as nat);
    let t = st.info.tape_len as int;
    if trans_allow_static(st) && st.head_move_around_compaction && t > 0 {
        if !positive {
            lemma_raise_head(st.head as int, diff as int, t);
        }
        let (st2, r) = spec_move_head(st, diff, positive);
        if r is Ok {
            let h2 = st2.head as int;
            if h2 >= st.head {
                lemma_displacement_repeat(BFToken::NXT, (h2 - st.head) as nat);
            } else {
                lemma_displacement_repeat(BFToken::PRV, (st.head - h2) as nat);
            }
        }
    }
}

proof fn lemma_set_head_motion(st: TransState, target: usize)
    ensures
        moves_with_head(st, spec_set_head(st, target).0, spec_set_head(st, target).1),
        spec_set_head(st, target).0.cur == st.cur,
        spec_set_head(st, target).0.in_while == st.in_while,
        spec_set_head(st, target).1 is Ok ==> spec_set_head(st, target).0.head == if trans_allow_static(
            st,
        ) && st.head_move_around_compaction {
            target as int % st.info.tape_len as int
        } else {
            target as int
        },
{
    if target >= st.head {
        lemma_move_head_motion(st, (target - st.head) as usize, true);
    } else {
        lemma_move_head_motion(st, (st.head - target) as usize, false);
    }
}

proof fn lemma_variable_motion(st: TransState, v: VariableNode)
    ensures
        moves_with_head(st, spec_transpile_variable(st, v).0, spec_transpile_variable(st, v).1),
        spec_transpile_variable(st, v).0.cur == st.cur,
        spec_transpile_variable(st, v).0.in_while == st.in_while,
        v matches VariableNode::Static(s) ==> (spec_transpile_variable(st, v).1 is Ok
            ==> spec_transpile_variable(st, v).0.head == cell_of(st, s.index)),
{
    match v {
        VariableNode::Static(s) => {
            let index = if st.info.var_map_compressed {
                st.info.var_map[s.index]
            } else {
                s.index
            };
            lemma_set_head_motion(st, index);
        },
        VariableNode::Dynamic(_) => {
            assert(displacement(seq![]) == 0);
        },
    }
}

proof fn lemma_variable_then_number_motion(
    st: TransState,
    v: VariableNode,
    prefix: Seq<BFToken>,
    value: usize,
    positive: bool,
)
    requires
        displacement(prefix) == 0,
    ensures
        moves_with_head(
            st,
            spec_variable_then_number(st, v, prefix, value, positive).0,
            spec_variable_then_number(st, v, prefix, value, positive).1,
        ),
        spec_variable_then_number(st, v, prefix, value, positive).0.cur == st.cur,
        spec_variable_then_number(st, v, prefix, value, positive).0.in_while == st.in_while,
{
    lemma_variable_motion(st, v);
    let (st1, r1) = spec_transpile_variable(st, v);
    if let Ok(t1) = r1 {
        if let Ok(tn) = spec_transpile_number(st1, value, positive) {
            lemma_displacement_repeat(BFToken::INC, value as nat);
            lemma_displacement_repeat(BFToken::DEC, value as nat);
            lemma_displacement_concat(t1, prefix);
            lemma_displacement_concat(t1 + prefix, tn);
        }
    }
}

proof fn lemma_assign_motion(st: TransState, a: AssignNode)
    ensures
        moves_with_head(st, spec_transpile_assign(st, a).0, spec_transpile_assign(st, a).1),
        spec_transpile_assign(st, a).0.cur == st.cur,
        spec_transpile_assign(st, a).0.in_while == st.in_while,
{
    let clear = seq![BFToken::OPN, BFToken::DEC, BFToken::CLS];
    assert(displacement(clear) == 0) by {
        reveal_with_fuel(displacement, 4);
        assert(clear.drop_last() =~= seq![BFToken::OPN, BFToken::DEC]);
        assert(clear.drop_last().drop_last() =~= seq![BFToken::OPN]);
        assert(clear.drop_last().drop_last().drop_last() =~= Seq::<BFToken>::empty());
    }
    assert(displacement(Seq::<BFToken>::empty()) == 0);
    match a {
        AssignNode::Simple(op) => match op.lvalue {
            LValueNode::Variable(v) => match op.rvalue {
                RValueNode::Number(n) => lemma_variable_then_number_motion(st, v, clear, n.value, true),
                RValueNode::Get(_) => {
                    lemma_variable_motion(st, v);
                    if let Ok(t1) = spec_transpile_variable(st, v).1 {
                        lemma_displacement_single(BFToken::GET);
                        lemma_displacement_concat(t1, seq![BFToken::GET]);
                        assert(Seq::<BFToken>::empty() + (t1 + seq![BFToken::GET]) =~= t1 + seq![BFToken::GET]);
                    }
                },
            },
            LValueNode::Head(_) => match op.rvalue {
                RValueNode::Number(n) => lemma_set_head_motion(st, n.value),
                RValueNode::Get(_) => {},
            },
        },
        AssignNode::Add(op) | AssignNode::Sub(op) => match op.rvalue {
            RValueNode::Get(_) => {},
            RValueNode::Number(n) => match op.lvalue {
                LValueNode::Variable(v) => {
                    lemma_variable_then_number_motion(st, v, seq![], n.value, true);
                    lemma_variable_then_number_motion(st, v, seq![], n.value, false);
                },
                LValueNode::Head(_) => {
                    lemma_move_head_motion(st, n.value, true);
                    lemma_move_head_motion(st, n.value, false);
                },
            },
        },
    }
}

proof fn lemma_statement_motion(st: TransState, s: StatementNode)
    ensures
        moves_with_head(st, spec_transpile_statement(st, s).0, spec_transpile_statement(st, s).1),
        spec_transpile_statement(st, s).0.cur == st.cur,
        spec_transpile_statement(st, s).0.in_while == st.in_while,
{
    match s {
        StatementNode::Assign(a) => lemma_assign_motion(st, a),
        StatementNode::Put(p) => {
            lemma_variable_motion(st, p.character);
            if let Ok(t1) = spec_transpile_variable(st, p.character).1 {
                lemma_displacement_single(BFToken::PUT);
                lemma_displacement_concat(t1, seq![BFToken::PUT]);
                assert(Seq::<BFToken>::empty() + (t1 + seq![BFToken::PUT]) =~= t1 + seq![BFToken::PUT]);
            }
        },
    }
}

proof fn lemma_node_motion(st: TransState, n: NodeModel)
    ensures
        moves_with_head(st, spec_transpile_node(st, n).0, spec_transpile_node(st, n).1),
    decreases n, 0nat,
{
    match n {
        NodeModel::Statement(s) => {
            lemma_statement_motion(st, s);
        },
        NodeModel::While(c, content) => {
            let st0 = TransState { in_while: true, ..st };
            lemma_while_motion(st0, c, content);
        },
    }
}

proof fn lemma_while_motion(st: TransState, c: VariableNode, content: Seq<NodeModel>)
    ensures
        moves_with_head(st, spec_transpile_while(st, c, content).0, spec_transpile_while(st, c, content).1),
    decreases content, 1nat,
{
    lemma_variable_motion(st, c);
    let (st1, r1) = spec_transpile_variable(st, c);
    if let Ok(t1) = r1 {
        lemma_nodes_motion(st1, content);
        let (st2, r2) = spec_transpile_nodes(st1, content);
        if let Ok(t2) = r2 {
            lemma_variable_motion(st2, c);
            let (st3, r3) = spec_transpile_variable(st2, c);
            if let Ok(t3) = r3 {
                lemma_displacement_single(BFToken::OPN);
                lemma_displacement_single(BFToken::CLS);
                lemma_displacement_concat(t1, seq![BFToken::OPN]);
                lemma_displacement_concat(t1 + seq![BFToken::OPN], t2);
                lemma_displacement_concat(t1 + seq![BFToken::OPN] + t2, t3);
                lemma_displacement_concat(t1 + seq![BFToken::OPN] + t2 + t3, seq![BFToken::CLS]);
            }
        }
    }
}

proof fn lemma_nodes_motion(st: TransState, nodes: Seq<NodeModel>)
    ensures
        moves_with_head(st, spec_transpile_nodes(st, nodes).0, spec_transpile_nodes(st, nodes).1),
    decreases nodes, 0nat,
{
    if nodes.len() == 0 {
        assert(displacement(Seq::<BFToken>::empty()) == 0);
    } else {
        lemma_node_motion(st, nodes[0]);
        let (st1, r1) = spec_transpile_node(st, nodes[0]);
        if let Ok(t1) = r1 {
            lemma_nodes_motion(st1, nodes.drop_first());
            if let Ok(t2) = spec_transpile_nodes(st1, nodes.drop_first()).1 {
                lemma_displacement_concat(t1, t2);
            }
        }
    }
}

/// Law: whatever a translation gives moves the head, run straight through
/// (loops taken once), exactly as far as the translator's tracked head
/// moved; the analysis and options it works under stay the same.
pub proof fn law_text_moves_with_tracked_head(st: TransState, nodes: Seq<NodeModel>)
    ensures
        moves_with_head(st, spec_transpile_nodes(st, nodes).0, spec_transpile_nodes(st, nodes).1),
{
    lemma_nodes_motion(st, nodes);
}

/// Law: translating a static variable moves the head onto its cell: the
/// tracked head ends on `cell_of` the variable's index, and the text moves
/// the head from where it was to there.
pub proof fn law_static_variable_reaches_its_cell(st: TransState, index: usize)
    ensures
        ({
            let (st2, r) = spec_transpile_variable(
                st,
                VariableNode::Static(StaticVariableNode { index }),
            );
            r matches Ok(ts) ==> {
                &&& st2.head == cell_of(st, index)
                &&& displacement(ts) == cell_of(st, index) - st.head
            }
        }),
{
    lemma_variable_motion(st, VariableNode::Static(StaticVariableNode { index }));
}

/// Law: a loop on a static condition is the move to the condition's cell,
/// `[`, a body that ends back on that cell (its text, body and return
/// together, moves the head by nothing), and `]`; the translator ends on
/// the condition's cell.
pub proof fn law_loop_returns_to_condition_cell(
    st: TransState,
    index: usize,
    content: Seq<NodeModel>,
)
    ensures
        ({
            let c = VariableNode::Static(StaticVariableNode { index });
            let (st2, r) = spec_transpile_while(st, c, content);
            r matches Ok(ts) ==> {
                &&& st2.head == cell_of(st, index)
                &&& displacement(ts) == cell_of(st, index) - st.head
                &&& ts.len() >= 2
                &&& ts.last() == BFToken::CLS
                &&& exists|k: int|
                    0 <= k < ts.len() - 1 && ts[k] == BFToken::OPN && displacement(ts.take(k))
                        == cell_of(st, index) - st.head && displacement(
                        #[trigger] ts.subrange(k + 1, ts.len() - 1),
                    ) == 0
            }
        }),
{
    let c = VariableNode::Static(StaticVariableNode { index });
    lemma_variable_motion(st, c);
    let (st1, r1) = spec_transpile_variable(st, c);
    if let Ok(t1) = r1 {
        lemma_nodes_motion(st1, content);
        let (st2, r2) = spec_transpile_nodes(st1, content);
        if let Ok(t2) = r2 {
            lemma_variable_motion(st2, c);
            let (st3, r3) = spec_transpile_variable(st2, c);
            if let Ok(t3) = r3 {
                let ts = t1 + seq![BFToken::OPN] + t2 + t3 + seq![BFToken::CLS];
                let k = t1.len() as int;
                assert(ts.take(k) =~= t1);
                assert(ts.subrange(k + 1, ts.len() - 1) =~= t2 + t3);
                assert(ts[k] == BFToken::OPN);
                lemma_displacement_concat(t2, t3);
                lemma_while_motion(st, c, content);
            }
        }
    }
}

/// The statement `v<index> op n` on a static cell: `op` is `=` for 0, `+=`
/// for 1, `-=` for 2, and `= get()` for 3 (where `n` is not used).
pub open spec fn cell_statement(index: usize, op: nat, n: usize) -> StatementNode {
    let lvalue = LValueNode::Variable(VariableNode::Static(StaticVariableNode { index }));
    let number = AssignNodeOperand { lvalue, rvalue: RValueNode::Number(NumberNode { value: n }) };
    if op == 0 {
        StatementNode::Assign(AssignNode::Simple(number))
    } else if op == 1 {
        StatementNode::Assign(AssignNode::Add(number))
    } else if op == 2 {
        StatementNode::Assign(AssignNode::Sub(number))
    } else {
        StatementNode::Assign(
            AssignNode::Simple(AssignNodeOperand { lvalue, rvalue: RValueNode::Get(GetNode) }),
        )
    }
}

/// What a statement on a cell does once the head is on the cell: `=`
/// clears it with `[-]` and counts up to `n`, `+=` counts up `n`, `-=`
/// counts down `n`, `= get()` reads a character.
pub open spec fn cell_action(op: nat, n: usize) -> Seq<BFToken> {
    if op == 0 {
        seq![BFToken::OPN, BFToken::DEC, BFToken::CLS] + repeat(BFToken::INC, n as nat)
    } else if op == 1 {
        repeat(BFToken::INC, n as nat)
    } else if op == 2 {
        repeat(BFToken::DEC, n as nat)
    } else {
        seq![BFToken::GET]
    }
}

/// Law: a statement on a static cell is a move of the head onto the cell,
/// followed by the cell's action (`[-]` then `n` times `+` for `=`, `n`
/// times `+` for `+=`, `n` times `-` for `-=`, `,` for `= get()`); a
/// `put` of a static cell is the move onto the cell followed by `.`.
pub proof fn law_cell_statement_text(st: TransState, index: usize, op: nat, n: usize)
    requires
        op <= 3,
    ensures
        ({
            let (st2, r) = spec_transpile_statement(st, cell_statement(index, op, n));
            r matches Ok(ts) ==> {
                let act = cell_action(op, n);
                &&& ts.len() >= act.len()
                &&& ts.skip(ts.len() - act.len()) == act
                &&& displacement(ts.take(ts.len() - act.len())) == cell_of(st, index) - st.head
                &&& st2.head == cell_of(st, index)
            }
        }),
        ({
            let v = VariableNode::Static(StaticVariableNode { index });
            let (st2, r) = spec_transpile_statement(st, StatementNode::Put(PutNode { character: v }));
            r matches Ok(ts) ==> {
                &&& ts.len() >= 1
                &&& ts.last() == BFToken::PUT
                &&& displacement(ts.drop_last()) == cell_of(st, index) - st.head
                &&& st2.head == cell_of(st, index)
            }
        }),
{
    let v = VariableNode::Static(StaticVariableNode { index });
    lemma_variable_motion(st, v);
    let (st1, r1) = spec_transpile_variable(st, v);
    if let Ok(t1) = r1 {
        let act = cell_action(op, n);
        let ts = t1 + act;
        assert(ts.skip(ts.len() - act.len()) =~= act);
        assert(ts.take(ts.len() - act.len()) =~= t1);
        if op == 0 {
            let pre = seq![BFToken::OPN, BFToken::DEC, BFToken::CLS];
            assert(t1 + pre + repeat(BFToken::INC, n as nat) =~= ts);
        }
        if op == 3 {
            assert(Seq::<BFToken>::empty() + (t1 + seq![BFToken::GET]) =~= ts);
        }
        let tp = t1 + seq![BFToken::PUT];
        assert(Seq::<BFToken>::empty() + tp =~= tp);
        assert(tp.drop_last() =~= t1);
    }
}

} // verus!
