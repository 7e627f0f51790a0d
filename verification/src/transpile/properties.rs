//! What translation always keeps, and how it fits analysis.
use vstd::prelude::*;

use crate::parse::ast::{AssignNode, LValueNode, NodeModel, StatementNode, VariableNode};
use crate::sem::properties::law_fresh_analysis_never_renumbers;
use crate::sem::semer::{SemOptimizationOptions, fresh_state, info_of, spec_sem};
use crate::transpile::transpiler::{
    TransState, TranspileError, TranspileFailure, TranspileOptimizationOptions,
    fresh_trans_state, spec_set_head, spec_transpile_node,
    spec_transpile_nodes, spec_transpile_statement, spec_transpile_variable, spec_transpile_while,
    trans_allow_static,
};

verus! {

/// The failure that a renumbering without an entry gives.
pub open spec fn broken_map() -> TranspileFailure {
    TranspileFailure::Error(TranspileError::BrokenVarMap)
}

/// Without renumbering, a variable never hits a missing entry.
proof fn lemma_variable_map(st: TransState, v: VariableNode)
    ensures
        spec_transpile_variable(st, v).0.info == st.info,
        !st.info.var_map_compressed ==> spec_transpile_variable(st, v).1 != Err::<
            Seq<crate::transpile::BFToken>,
            TranspileFailure,
        >(broken_map()),
{
}

proof fn lemma_statement_map(st: TransState, s: StatementNode)
    ensures
        spec_transpile_statement(st, s).0.info == st.info,
        !st.info.var_map_compressed ==> spec_transpile_statement(st, s).1 != Err::<
            Seq<crate::transpile::BFToken>,
            TranspileFailure,
        >(broken_map()),
{
    match s {
        StatementNode::Assign(a) => match a {
            AssignNode::Simple(op) | AssignNode::Add(op) | AssignNode::Sub(op) => match op.lvalue {
                LValueNode::Variable(v) => {
                    lemma_variable_map(st, v);
                },
                LValueNode::Head(_) => {},
            },
        },
        StatementNode::Put(p) => {
            lemma_variable_map(st, p.character);
        },
    }
}

proof fn lemma_node_map(st: TransState, n: NodeModel)
    ensures
        spec_transpile_node(st, n).0.info == st.info,
        !st.info.var_map_compressed ==> spec_transpile_node(st, n).1 != Err::<
            Seq<crate::transpile::BFToken>,
            TranspileFailure,
        >(broken_map()),
    decreases n, 0nat,
{
    match n {
        NodeModel::Statement(s) => {
            lemma_statement_map(st, s);
        },
        NodeModel::While(c, content) => {
            lemma_while_map(TransState { in_while: true, ..st }, c, content);
        },
    }
}

proof fn lemma_while_map(st: TransState, c: VariableNode, content: Seq<NodeModel>)
    ensures
        spec_transpile_while(st, c, content).0.info == st.info,
        !st.info.var_map_compressed ==> spec_transpile_while(st, c, content).1 != Err::<
            Seq<crate::transpile::BFToken>,
            TranspileFailure,
        >(broken_map()),
    decreases content, 1nat,
{
    lemma_variable_map(st, c);
    let (st1, r1) = spec_transpile_variable(st, c);
    lemma_nodes_map(st1, content);
    let (st2, r2) = spec_transpile_nodes(st1, content);
    lemma_variable_map(st2, c);
}

proof fn lemma_nodes_map(st: TransState, nodes: Seq<NodeModel>)
    ensures
        spec_transpile_nodes(st, nodes).0.info == st.info,
        !st.info.var_map_compressed ==> spec_transpile_nodes(st, nodes).1 != Err::<
            Seq<crate::transpile::BFToken>,
            TranspileFailure,
        >(broken_map()),
    decreases nodes, 0nat,
{
    if nodes.len() > 0 {
        lemma_node_map(st, nodes[0]);
        let (st1, r1) = spec_transpile_node(st, nodes[0]);
        lemma_nodes_map(st1, nodes.drop_first());
    }
}

/// Law: a program that analysis (from a fresh analyzer) accepted never
/// fails translation for a missing renumbering entry, whatever the
/// options of either step.
pub proof fn law_analyzed_program_has_no_broken_map(
    ast: Seq<NodeModel>,
    tape_len: usize,
    sem_opts: SemOptimizationOptions,
    opts: TranspileOptimizationOptions,
)
    requires
        ast.len() <= usize::MAX,
        spec_sem(fresh_state(tape_len, sem_opts), ast).2 is Ok,
    ensures
        ({
            let (st, ast2, _) = spec_sem(fresh_state(tape_len, sem_opts), ast);
            spec_transpile_nodes(fresh_trans_state(info_of(st), opts), ast2).1 != Err::<
                Seq<crate::transpile::BFToken>,
                TranspileFailure,
            >(broken_map())
        }),
{
    law_fresh_analysis_never_renumbers(ast, tape_len, sem_opts);
    let (st, ast2, _) = spec_sem(fresh_state(tape_len, sem_opts), ast);
    lemma_nodes_map(fresh_trans_state(info_of(st), opts), ast2);
}

/// Law: a move the short way round the tape (asked for, and where static
/// variables are allowed) leaves the head on the tape, and takes as many
/// steps as the head moved, in its direction.
pub proof fn law_short_moves_stay_on_tape(st: TransState, target: usize)
    requires
        st.head_move_around_compaction,
        trans_allow_static(st),
    ensures
        spec_set_head(st, target).1 matches Ok(ts) ==> {
            let h = spec_set_head(st, target).0.head;
            &&& h < st.info.tape_len
            &&& ts.len() == if h >= st.head {
                h - st.head
            } else {
                st.head - h
            }
        },
{
}

/// Law: the text that translation gives is, character for character, the
/// instructions that a fresh translator gives, one character each; a
/// failure of the translator is the failure of the text.
pub proof fn law_text_is_translator_tokens(
    ast: Seq<NodeModel>,
    info: crate::sem::semer::InfoModel,
    opts: TranspileOptimizationOptions,
)
    ensures
        match spec_transpile_nodes(fresh_trans_state(info, opts), ast).1 {
            Ok(ts) => {
                &&& crate::transpile::spec_transpile_text(ast, info, opts) matches Ok(text)
                &&& text.len() == ts.len()
                &&& forall|k: int|
                    0 <= k < ts.len() ==> #[trigger] text[k] == crate::transpile::spec_bf_char(ts[k])
            },
            Err(f) => crate::transpile::spec_transpile_text(ast, info, opts) == Err::<
                Seq<char>,
                TranspileFailure,
            >(f),
        },
{
}

} // verus!
