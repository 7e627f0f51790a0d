//! Translation of an analyzed syntax tree into Brainf*ck instructions.
use vstd::prelude::*;
use vstd::string::*;
use vstd::std_specs::hash::*;

use crate::parse::ast::{
    AST, AssignNode, LValueNode, NodeModel, RValueNode, StatementNode, TopLevelNode,
    VariableNode, WhileNode, lemma_nodes_view, node_view, nodes_view,
};
use crate::sem::semer::{InfoModel, SemanticInfo};
use crate::transpile::bf_definitions::BFToken;

verus! {

broadcast use {group_hash_axioms, lemma_nodes_view, vstd::std_specs::vec::axiom_vec_decreases_to_view};

/// Which shortcuts translation takes.
pub struct TranspileOptimizationOptions {
    /// Build number literals by multiplication loops (not available: asking
    /// for it where a literal is translated stops the translation).
    pub number_compaction: bool,
    /// Move the head the short way round a tape of `tape_len` cells.
    pub head_move_around_compaction: bool,
}

impl Default for TranspileOptimizationOptions {
    fn default() -> (r: Self)
        ensures
            r.number_compaction,
            r.head_move_around_compaction,
    {
        Self { number_compaction: true, head_move_around_compaction: true }
    }
}

/// Why a program cannot be translated.
#[derive(Debug, Clone, Copy, PartialEq, Eq, Structural)]
pub enum TranspileError {
    /// A static variable where the head position is no longer known.
    StaticVariableAfterHeadMove,
    /// `head = get()`.
    InputToHead,
    /// `x += get()`.
    AddInput,
    /// `x -= get()`.
    SubInput,
    /// The variables are renumbered, but a static variable has no new number.
    BrokenVarMap,
}

/// Why translation stopped.
#[derive(Debug, Clone, Copy, PartialEq, Eq, Structural)]
pub enum TranspileFailure {
    Error(TranspileError),
    /// The head position left the range of `usize`, a move modulo a tape
    /// length of 0 was asked for, or a literal was to be built by the
    /// unavailable multiplication loops.
    Abort,
}

/// The translator.
pub struct Transpiler<'input> {
    ast: &'input AST,
    info: &'input SemanticInfo,
    opts: &'input TranspileOptimizationOptions,
    cur: usize,
    head: usize,
    in_while: bool,
}

/// The model of a translator: what it is told and where it is.
pub struct TransState {
    pub info: InfoModel,
    pub number_compaction: bool,
    pub head_move_around_compaction: bool,
    /// Top-level nodes done so far.
    pub cur: usize,
    /// The head position, as far as it is known.
    pub head: usize,
    pub in_while: bool,
}

/// `n` copies of `t`.
pub open spec fn repeat(t: BFToken, n: nat) -> Seq<BFToken> {
    Seq::new(n, |_i: int| t)
}

/// Static variables are allowed: the head position is still known.
pub open spec fn trans_allow_static(st: TransState) -> bool {
    st.cur < st.info.first_cur_dyn_var_only
}

/// Where the loop that adds the tape length to the head until it reaches
/// `diff` ends, or `None` where the head would leave the range of `usize`.
pub open spec fn raise_head(h: int, diff: int, tape_len: int) -> Option<int>
    decreases (if h < diff { diff - h } else { 0 }),
    when tape_len > 0
{
    if h >= diff {
        Some(h)
    } else if h + tape_len > usize::MAX {
        None
    } else {
        raise_head(h + tape_len, diff, tape_len)
    }
}

/// Moves the head by `diff` cells, right (`positive`) or left: cell by cell
/// where static variables are not allowed or no short way is asked for,
/// and else the short way round the tape.
pub open spec fn spec_move_head(st: TransState, diff: usize, positive: bool) -> (
    TransState,
    Result<Seq<BFToken>, TranspileFailure>,
) {
    let t = st.info.tape_len as int;
    if !trans_allow_static(st) || !st.head_move_around_compaction {
        if positive {
            if st.head + diff > usize::MAX {
                (st, Err(TranspileFailure::Abort))
            } else {
                (TransState { head: (st.head + diff) as usize, ..st }, Ok(repeat(BFToken::NXT, diff as nat)))
            }
        } else {
            if st.head < diff {
                (st, Err(TranspileFailure::Abort))
            } else {
                (TransState { head: (st.head - diff) as usize, ..st }, Ok(repeat(BFToken::PRV, diff as nat)))
            }
        }
    } else if t == 0 {
        (st, Err(TranspileFailure::Abort))
    } else {
        let moved = if positive {
            if st.head + diff > usize::MAX {
                None
            } else {
                Some(st.head + diff)
            }
        } else {
            match raise_head(st.head as int, diff as int, t) {
                Some(h) => Some(h - diff),
                None => None,
            }
        };
        match moved {
            None => (st, Err(TranspileFailure::Abort)),
            Some(h) => {
                let h2 = h % t;
                let tok = if h2 >= st.head {
                    BFToken::NXT
                } else {
                    BFToken::PRV
                };
                let n = if h2 >= st.head {
                    h2 - st.head
                } else {
                    st.head - h2
                };
                (TransState { head: h2 as usize, ..st }, Ok(repeat(tok, n as nat)))
            },
        }
    }
}

/// Moves the head to cell `target`.
pub open spec fn spec_set_head(st: TransState, target: usize) -> (
    TransState,
    Result<Seq<BFToken>, TranspileFailure>,
) {
    if target >= st.head {
        spec_move_head(st, (target - st.head) as usize, true)
    } else {
        spec_move_head(st, (st.head - target) as usize, false)
    }
}

/// Adds (`positive`) or subtracts `value` at the current cell.
pub open spec fn spec_transpile_number(st: TransState, value: usize, positive: bool) -> Result<
    Seq<BFToken>,
    TranspileFailure,
> {
    if !trans_allow_static(st) || !st.number_compaction {
        Ok(repeat(if positive { BFToken::INC } else { BFToken::DEC }, value as nat))
    } else {
        Err(TranspileFailure::Abort)
    }
}

/// Moves the head to a variable: to its cell (after any renumbering) for a
/// static one; nowhere for a head-relative one.
pub open spec fn spec_transpile_variable(st: TransState, v: VariableNode) -> (
    TransState,
    Result<Seq<BFToken>, TranspileFailure>,
) {
    match v {
        VariableNode::Static(s) => if !trans_allow_static(st) {
            (st, Err(TranspileFailure::Error(TranspileError::StaticVariableAfterHeadMove)))
        } else if st.info.var_map_compressed && !st.info.var_map.contains_key(s.index) {
            (st, Err(TranspileFailure::Error(TranspileError::BrokenVarMap)))
        } else {
            let index = if st.info.var_map_compressed {
                st.info.var_map[s.index]
            } else {
                s.index
            };
            spec_set_head(st, index)
        },
        VariableNode::Dynamic(_) => (st, Ok(seq![])),
    }
}

/// `a` followed by what `r` gives; failures pass through.
pub open spec fn then_tokens(a: Seq<BFToken>, r: Result<Seq<BFToken>, TranspileFailure>) -> Result<
    Seq<BFToken>,
    TranspileFailure,
> {
    match r {
        Ok(b) => Ok(a + b),
        Err(f) => Err(f),
    }
}

/// Goes to a variable, then changes it by `value`.
pub open spec fn spec_variable_then_number(
    st: TransState,
    v: VariableNode,
    prefix: Seq<BFToken>,
    value: usize,
    positive: bool,
) -> (TransState, Result<Seq<BFToken>, TranspileFailure>) {
    let (st1, r1) = spec_transpile_variable(st, v);
    match r1 {
        Err(f) => (st1, Err(f)),
        Ok(t1) => (st1, then_tokens(t1 + prefix, spec_transpile_number(st1, value, positive))),
    }
}

/// Translates an assignment.
pub open spec fn spec_transpile_assign(st: TransState, a: AssignNode) -> (
    TransState,
    Result<Seq<BFToken>, TranspileFailure>,
) {
    match a {
        AssignNode::Simple(op) => match op.lvalue {
            LValueNode::Variable(v) => match op.rvalue {
                RValueNode::Number(n) => spec_variable_then_number(
                    st,
                    v,
                    seq![BFToken::OPN, BFToken::DEC, BFToken::CLS],
                    n.value,
                    true,
                ),
                RValueNode::Get(_) => {
                    let (st1, r1) = spec_transpile_variable(st, v);
                    (st1, then_tokens(seq![], match r1 {
                        Ok(t1) => Ok(t1 + seq![BFToken::GET]),
                        Err(f) => Err(f),
                    }))
                },
            },
            LValueNode::Head(_) => match op.rvalue {
                RValueNode::Number(n) => spec_set_head(st, n.value),
                RValueNode::Get(_) => (st, Err(TranspileFailure::Error(TranspileError::InputToHead))),
            },
        },
        AssignNode::Add(op) => match op.rvalue {
            RValueNode::Get(_) => (st, Err(TranspileFailure::Error(TranspileError::AddInput))),
            RValueNode::Number(n) => match op.lvalue {
                LValueNode::Variable(v) => spec_variable_then_number(st, v, seq![], n.value, true),
                LValueNode::Head(_) => spec_move_head(st, n.value, true),
            },
        },
        AssignNode::Sub(op) => match op.rvalue {
            RValueNode::Get(_) => (st, Err(TranspileFailure::Error(TranspileError::SubInput))),
            RValueNode::Number(n) => match op.lvalue {
                LValueNode::Variable(v) => spec_variable_then_number(st, v, seq![], n.value, false),
                LValueNode::Head(_) => spec_move_head(st, n.value, false),
            },
        },
    }
}

/// Translates a statement.
pub open spec fn spec_transpile_statement(st: TransState, s: StatementNode) -> (
    TransState,
    Result<Seq<BFToken>, TranspileFailure>,
) {
    match s {
        StatementNode::Assign(a) => spec_transpile_assign(st, a),
        StatementNode::Put(p) => {
            let (st1, r1) = spec_transpile_variable(st, p.character);
            (st1, then_tokens(seq![], match r1 {
                Ok(t1) => Ok(t1 + seq![BFToken::PUT]),
                Err(f) => Err(f),
            }))
        },
    }
}

/// One more top-level node done, where the translator is outside any loop.
pub open spec fn spec_trans_count(st: TransState) -> (TransState, Result<(), TranspileFailure>) {
    if !st.in_while {
        if st.cur == usize::MAX {
            (st, Err(TranspileFailure::Abort))
        } else {
            (TransState { cur: (st.cur + 1) as usize, ..st }, Ok(()))
        }
    } else {
        (st, Ok(()))
    }
}

/// Translates one node.
pub open spec fn spec_transpile_node(st: TransState, n: NodeModel) -> (
    TransState,
    Result<Seq<BFToken>, TranspileFailure>,
)
    decreases n, 0nat,
{
    match n {
        NodeModel::Statement(s) => {
            let (st1, r1) = spec_transpile_statement(st, s);
            if r1 is Err {
                (st1, r1)
            } else {
                let (st2, r2) = spec_trans_count(st1);
                match r2 {
                    Err(f) => (st2, Err(f)),
                    Ok(_) => (st2, r1),
                }
            }
        },
        NodeModel::While(c, content) => {
            let st0 = TransState { in_while: true, ..st };
            let (st1, r1) = spec_transpile_while(st0, c, content);
            if r1 is Err {
                (st1, r1)
            } else {
                let (st2, r2) = spec_trans_count(TransState { in_while: st.in_while, ..st1 });
                match r2 {
                    Err(f) => (st2, Err(f)),
                    Ok(_) => (st2, r1),
                }
            }
        },
    }
}

/// `while (c) { content }`: to `c`, `[`, the body, back to `c`, `]`.
pub open spec fn spec_transpile_while(st: TransState, c: VariableNode, content: Seq<NodeModel>) -> (
    TransState,
    Result<Seq<BFToken>, TranspileFailure>,
)
    decreases content, 1nat,
{
    let (st1, r1) = spec_transpile_variable(st, c);
    if r1 is Err {
        (st1, r1)
    } else {
        let (st2, r2) = spec_transpile_nodes(st1, content);
        if r2 is Err {
            (st2, r2)
        } else {
            let (st3, r3) = spec_transpile_variable(st2, c);
            if r3 is Err {
                (st3, r3)
            } else {
                (
                    st3,
                    Ok(r1->Ok_0 + seq![BFToken::OPN] + r2->Ok_0 + r3->Ok_0 + seq![BFToken::CLS]),
                )
            }
        }
    }
}

/// Translates nodes in order, up to the first failure.
pub open spec fn spec_transpile_nodes(st: TransState, nodes: Seq<NodeModel>) -> (
    TransState,
    Result<Seq<BFToken>, TranspileFailure>,
)
    decreases nodes, 0nat,
{
    if nodes.len() == 0 {
        (st, Ok(seq![]))
    } else {
        let (st1, r1) = spec_transpile_node(st, nodes[0]);
        if r1 is Err {
            (st1, r1)
        } else {
            let (st2, r2) = spec_transpile_nodes(st1, nodes.drop_first());
            (st2, then_tokens(r1->Ok_0, r2))
        }
    }
}

/// The translator that `Transpiler::new(ast, info, opts)` makes.
pub open spec fn fresh_trans_state(info: InfoModel, opts: TranspileOptimizationOptions) -> TransState {
    TransState {
        info,
        number_compaction: opts.number_compaction,
        head_move_around_compaction: opts.head_move_around_compaction,
        cur: 0,
        head: 0,
        in_while: false,
    }
}

/// `n` copies of `t`, built.
fn repeat_token(t: BFToken, n: usize) -> (r: Vec<BFToken>)
    ensures
        r@ == repeat(t, n as nat),
{
    let mut r: Vec<BFToken> = Vec::new();
    let mut i: usize = 0;
    while i < n
        invariant
            i <= n,
            r@ == repeat(t, i as nat),
        decreases n - i,
    {
        r.push(t);
        i = i + 1;
        proof {
            assert(r@ =~= repeat(t, i as nat));
        }
    }
    r
}

/// `a` followed by `b`.
fn concat(a: Vec<BFToken>, b: Vec<BFToken>) -> (r: Vec<BFToken>)
    ensures
        r@ == a@ + b@,
{
    let mut a = a;
    let mut b = b;
    a.append(&mut b);
    a
}

impl<'input> Transpiler<'input> {
    /// The translator's model.
    pub closed spec fn state(&self) -> TransState {
        TransState {
            info: self.info@,
            number_compaction: self.opts.number_compaction,
            head_move_around_compaction: self.opts.head_move_around_compaction,
            cur: self.cur,
            head: self.head,
            in_while: self.in_while,
        }
    }

    /// The program being translated.
    pub closed spec fn program(&self) -> Seq<NodeModel> {
        self.ast@
    }

    /// Translates the whole program.
    pub fn transpile(&mut self) -> (r: Result<Vec<BFToken>, TranspileError>)
        requires
            spec_transpile_nodes(old(self).state(), old(self).program()).1
                != Err::<Seq<BFToken>, TranspileFailure>(TranspileFailure::Abort),
        ensures
            final(self).state() == spec_transpile_nodes(old(self).state(), old(self).program()).0,
            final(self).program() == old(self).program(),
            match spec_transpile_nodes(old(self).state(), old(self).program()).1 {
                Ok(ts) => r matches Ok(v) && v@ == ts,
                Err(TranspileFailure::Error(e)) => r matches Err(e2) && e2 == e,
                Err(TranspileFailure::Abort) => false,
            },
    {
        match self.transpile_checked() {
            Ok(v) => Ok(v),
            Err(TranspileFailure::Error(e)) => Err(e),
            Err(TranspileFailure::Abort) => {
                proof {
                    assert(false);
                }
                Err(TranspileError::InputToHead)
            },
        }
    }

    /// As `transpile`, and says so where `transpile` would not return.
    pub fn transpile_checked(&mut self) -> (r: Result<Vec<BFToken>, TranspileFailure>)
        ensures
            final(self).state() == spec_transpile_nodes(old(self).state(), old(self).program()).0,
            final(self).program() == old(self).program(),
            match spec_transpile_nodes(old(self).state(), old(self).program()).1 {
                Ok(ts) => r matches Ok(v) && v@ == ts,
                Err(f) => r matches Err(f2) && f2 == f,
            },
    {
        let ast = self.ast;
        self.transpile_toplevel_nodes(&ast.root)
    }

    #[verifier::loop_isolation(false)]
    fn transpile_toplevel_nodes(&mut self, nodes: &Vec<TopLevelNode>) -> (r: Result<
        Vec<BFToken>,
        TranspileFailure,
    >)
        ensures
            final(self).state() == spec_transpile_nodes(old(self).state(), nodes_view(nodes@)).0,
            final(self).program() == old(self).program(),
            match spec_transpile_nodes(old(self).state(), nodes_view(nodes@)).1 {
                Ok(ts) => r matches Ok(v) && v@ == ts,
                Err(f) => r matches Err(f2) && f2 == f,
            },
        decreases nodes@, 0nat,
    {
        let ghost view0 = nodes_view(nodes@);
        let ghost st0 = self.state();
        let mut result: Vec<BFToken> = Vec::new();
        let mut i: usize = 0;
        proof {
            assert(view0.skip(0) =~= view0);
            assert(forall|x: Seq<BFToken>| Seq::<BFToken>::empty() + x =~= x);
        }
        while i < nodes.len()
            invariant
                i <= nodes@.len(),
                self.program() == old(self).program(),
                spec_transpile_nodes(st0, view0) == ({
                    let s = spec_transpile_nodes(self.state(), view0.skip(i as int));
                    (s.0, then_tokens(result@, s.1))
                }),
            decreases nodes@.len() - i,
        {
            let node = &nodes[i];
            proof {
                assert(view0.skip(i as int)[0] == node_view(*node));
                assert(view0.skip(i as int).drop_first() =~= view0.skip(i + 1));
                assert(decreases_to!(nodes@ => nodes@[i as int]));
            }
            let r = self.transpile_node(node);
            match r {
                Ok(tokens) => {
                    proof {
                        let s = spec_transpile_nodes(self.state(), view0.skip(i + 1));
                        match s.1 {
                            Ok(b) => {
                                assert(result@ + (tokens@ + b) =~= (result@ + tokens@) + b);
                            },
                            Err(_) => {},
                        }
                    }
                    result = concat(result, tokens);
                },
                Err(f) => {
                    return Err(f);
                },
            }
            i = i + 1;
        }
        proof {
            assert(view0.skip(i as int) =~= Seq::<NodeModel>::empty());
            assert(result@ + Seq::<BFToken>::empty() =~= result@);
        }
        Ok(result)
    }

    fn transpile_node(&mut self, node: &TopLevelNode) -> (r: Result<Vec<BFToken>, TranspileFailure>)
        ensures
            final(self).state() == spec_transpile_node(old(self).state(), node_view(*node)).0,
            final(self).program() == old(self).program(),
            match spec_transpile_node(old(self).state(), node_view(*node)).1 {
                Ok(ts) => r matches Ok(v) && v@ == ts,
                Err(f) => r matches Err(f2) && f2 == f,
            },
        decreases *node, 1nat,
    {
        let result = match node {
            TopLevelNode::Statement(staement_node) => self.transpile_statement(staement_node)?,
            TopLevelNode::While(while_node) => {
                let in_while = self.in_while;
                self.in_while = true;
                let result_while = self.transpile_while(while_node)?;
                self.in_while = in_while;
                result_while
            },
        };
        if !self.in_while {
            if self.cur == usize::MAX {
                return Err(TranspileFailure::Abort);
            }
            self.cur += 1;
        }
        Ok(result)
    }

    fn transpile_statement(&mut self, node: &StatementNode) -> (r: Result<Vec<BFToken>, TranspileFailure>)
        ensures
            final(self).state() == spec_transpile_statement(old(self).state(), *node).0,
            final(self).program() == old(self).program(),
            match spec_transpile_statement(old(self).state(), *node).1 {
                Ok(ts) => r matches Ok(v) && v@ == ts,
                Err(f) => r matches Err(f2) && f2 == f,
            },
    {
        match node {
            StatementNode::Assign(assign_node) => self.transpile_assign(assign_node),
            StatementNode::Put(put_node) => {
                let v = self.transpile_variable(&put_node.character)?;
                let mut p: Vec<BFToken> = Vec::new();
                p.push(BFToken::PUT);
                proof {
                    assert(seq![BFToken::PUT] =~= p@);
                    assert(Seq::<BFToken>::empty() + (v@ + p@) =~= v@ + p@);
                }
                Ok(concat(v, p))
            },
        }
    }

    fn transpile_while(&mut self, node: &WhileNode) -> (r: Result<Vec<BFToken>, TranspileFailure>)
        ensures
            final(self).state() == spec_transpile_while(
                old(self).state(),
                node.condition,
                nodes_view(node.content@),
            ).0,
            final(self).program() == old(self).program(),
            match spec_transpile_while(old(self).state(), node.condition, nodes_view(node.content@)).1 {
                Ok(ts) => r matches Ok(v) && v@ == ts,
                Err(f) => r matches Err(f2) && f2 == f,
            },
        decreases node.content@, 1nat,
    {
        let t1 = self.transpile_variable(&node.condition)?;
        let t2 = self.transpile_toplevel_nodes(&node.content)?;
        let t3 = self.transpile_variable(&node.condition)?;
        let mut opn: Vec<BFToken> = Vec::new();
        opn.push(BFToken::OPN);
        let mut cls: Vec<BFToken> = Vec::new();
        cls.push(BFToken::CLS);
        proof {
            assert(seq![BFToken::OPN] =~= opn@);
            assert(seq![BFToken::CLS] =~= cls@);
        }
        Ok(concat(concat(concat(concat(t1, opn), t2), t3), cls))
    }

    fn transpile_assign(&mut self, node: &AssignNode) -> (r: Result<Vec<BFToken>, TranspileFailure>)
        ensures
            final(self).state() == spec_transpile_assign(old(self).state(), *node).0,
            final(self).program() == old(self).program(),
            match spec_transpile_assign(old(self).state(), *node).1 {
                Ok(ts) => r matches Ok(v) && v@ == ts,
                Err(f) => r matches Err(f2) && f2 == f,
            },
    {
        match node {
            AssignNode::Simple(operand) => match &operand.lvalue {
                LValueNode::Variable(var_node) => {
                    let v = self.transpile_variable(var_node)?;
                    match &operand.rvalue {
                        RValueNode::Number(num_node) => {
                            let mut clear: Vec<BFToken> = Vec::new();
                            clear.push(BFToken::OPN);
                            clear.push(BFToken::DEC);
                            clear.push(BFToken::CLS);
                            proof {
                                assert(seq![BFToken::OPN, BFToken::DEC, BFToken::CLS] =~= clear@);
                            }
                            let n = self.transpile_number(num_node.value, true)?;
                            proof {
                                assert(v@ + clear@ + n@ =~= v@ + (clear@ + n@));
                            }
                            Ok(concat(v, concat(clear, n)))
                        },
                        RValueNode::Get(_) => {
                            let mut g: Vec<BFToken> = Vec::new();
                            g.push(BFToken::GET);
                            proof {
                                assert(seq![BFToken::GET] =~= g@);
                                assert(Seq::<BFToken>::empty() + (v@ + g@) =~= v@ + g@);
                            }
                            Ok(concat(v, g))
                        },
                    }
                },
                LValueNode::Head(_) => match &operand.rvalue {
                    RValueNode::Number(number_node) => self.set_head(number_node.value),
                    RValueNode::Get(_) => Err(TranspileFailure::Error(TranspileError::InputToHead)),
                },
            },
            AssignNode::Add(operand) => {
                let RValueNode::Number(num_node) = &operand.rvalue else {
                    return Err(TranspileFailure::Error(TranspileError::AddInput));
                };
                match &operand.lvalue {
                    LValueNode::Variable(var_node) => {
                        let v = self.transpile_variable(var_node)?;
                        let n = self.transpile_number(num_node.value, true)?;
                        proof {
                            assert(v@ + Seq::<BFToken>::empty() =~= v@);
                        }
                        Ok(concat(v, n))
                    },
                    LValueNode::Head(_) => self.move_head(num_node.value, true),
                }
            },
            AssignNode::Sub(operand) => {
                let RValueNode::Number(num_node) = &operand.rvalue else {
                    return Err(TranspileFailure::Error(TranspileError::SubInput));
                };
                match &operand.lvalue {
                    LValueNode::Variable(var_node) => {
                        let v = self.transpile_variable(var_node)?;
                        let n = self.transpile_number(num_node.value, false)?;
                        proof {
                            assert(v@ + Seq::<BFToken>::empty() =~= v@);
                        }
                        Ok(concat(v, n))
                    },
                    LValueNode::Head(_) => self.move_head(num_node.value, false),
                }
            },
        }
    }

    fn transpile_variable(&mut self, node: &VariableNode) -> (r: Result<Vec<BFToken>, TranspileFailure>)
        ensures
            final(self).state() == spec_transpile_variable(old(self).state(), *node).0,
            final(self).program() == old(self).program(),
            match spec_transpile_variable(old(self).state(), *node).1 {
                Ok(ts) => r matches Ok(v) && v@ == ts,
                Err(f) => r matches Err(f2) && f2 == f,
            },
    {
        match node {
            VariableNode::Static(static_var_node) => {
                if !self.allow_static_variable() {
                    return Err(
                        TranspileFailure::Error(TranspileError::StaticVariableAfterHeadMove),
                    );
                }
                let index = if self.info.var_map_compressed {
                    match self.info.var_map.get(&static_var_node.index) {
                        Some(i) => *i,
                        None => {
                            return Err(TranspileFailure::Error(TranspileError::BrokenVarMap));
                        },
                    }
                } else {
                    static_var_node.index
                };
                self.set_head(index)
            },
            VariableNode::Dynamic(_) => Ok(Vec::new()),
        }
    }

    fn transpile_number(&mut self, value: usize, positive: bool) -> (r: Result<
        Vec<BFToken>,
        TranspileFailure,
    >)
        ensures
            final(self).state() == old(self).state(),
            final(self).program() == old(self).program(),
            match spec_transpile_number(old(self).state(), value, positive) {
                Ok(ts) => r matches Ok(v) && v@ == ts,
                Err(f) => r matches Err(f2) && f2 == f,
            },
    {
        let inst = if positive {
            BFToken::INC
        } else {
            BFToken::DEC
        };
        if !self.allow_static_variable() || !self.opts.number_compaction {
            return Ok(repeat_token(inst, value));
        }
        Err(TranspileFailure::Abort)
    }

    #[verifier::loop_isolation(false)]
    fn move_head(&mut self, diff: usize, positive: bool) -> (r: Result<Vec<BFToken>, TranspileFailure>)
        ensures
            final(self).state() == spec_move_head(old(self).state(), diff, positive).0,
            final(self).program() == old(self).program(),
            match spec_move_head(old(self).state(), diff, positive).1 {
                Ok(ts) => r matches Ok(v) && v@ == ts,
                Err(f) => r matches Err(f2) && f2 == f,
            },
    {
        if !self.allow_static_variable() || !self.opts.head_move_around_compaction {
            if positive {
                if self.head > usize::MAX - diff {
                    return Err(TranspileFailure::Abort);
                }
                self.head += diff;
                return Ok(repeat_token(BFToken::NXT, diff));
            } else {
                if self.head < diff {
                    return Err(TranspileFailure::Abort);
                }
                self.head -= diff;
                return Ok(repeat_token(BFToken::PRV, diff));
            }
        }
        let old_head = self.head;
        let tape_len = self.info.tape_len;
        if tape_len == 0 {
            return Err(TranspileFailure::Abort);
        }
        let mut head = self.head;
        if positive {
            if head > usize::MAX - diff {
                return Err(TranspileFailure::Abort);
            }
            head += diff;
        } else {
            while head < diff
                invariant
                    tape_len > 0,
                    raise_head(old_head as int, diff as int, tape_len as int) == raise_head(
                        head as int,
                        diff as int,
                        tape_len as int,
                    ),
                decreases (if head < diff { diff - head } else { 0 }),
            {
                if head > usize::MAX - tape_len {
                    return Err(TranspileFailure::Abort);
                }
                head += tape_len;
            }
            head -= diff;
        }
        head %= tape_len;
        self.head = head;
        let tok = if head >= old_head {
            BFToken::NXT
        } else {
            BFToken::PRV
        };
        let n = if head >= old_head {
            head - old_head
        } else {
            old_head - head
        };
        Ok(repeat_token(tok, n))
    }

    fn set_head(&mut self, head: usize) -> (r: Result<Vec<BFToken>, TranspileFailure>)
        ensures
            final(self).state() == spec_set_head(old(self).state(), head).0,
            final(self).program() == old(self).program(),
            match spec_set_head(old(self).state(), head).1 {
                Ok(ts) => r matches Ok(v) && v@ == ts,
                Err(f) => r matches Err(f2) && f2 == f,
            },
    {
        if head >= self.head {
            let d = head - self.head;
            self.move_head(d, true)
        } else {
            let d = self.head - head;
            self.move_head(d, false)
        }
    }

    fn allow_static_variable(&self) -> (r: bool)
        ensures
            r == trans_allow_static(self.state()),
    {
        self.cur < self.info.first_cur_dyn_var_only
    }

    /// A translator for `ast`, analyzed into `info`, with the given options.
    pub fn new(
        ast: &'input AST,
        info: &'input SemanticInfo,
        opts: &'input TranspileOptimizationOptions,
    ) -> (r: Self)
        ensures
            r.state() == fresh_trans_state(info@, *opts),
            r.program() == ast@,
    {
        Self { ast, info, opts, cur: 0, head: 0, in_while: false }
    }
}

/// The message for a translation error. `head = get()` shares the message of `x += get()`.
pub open spec fn transpile_error_message(e: TranspileError) -> Seq<char> {
    match e {
        TranspileError::StaticVariableAfterHeadMove => "Cannot use static variable after moving head in while"@,
        TranspileError::InputToHead => "Cannot add user's input"@,
        TranspileError::AddInput => "Cannot add user's input"@,
        TranspileError::SubInput => "Cannot subtract user's input"@,
        TranspileError::BrokenVarMap => "Illegal semantic info: Variable mapping is broken"@,
    }
}

impl TranspileError {
    /// The message shown for this error.
    pub fn message(&self) -> (r: String)
        ensures
            r@ == transpile_error_message(*self),
    {
        match self {
            TranspileError::StaticVariableAfterHeadMove => String::from_str("Cannot use static variable after moving head in while"),
            TranspileError::InputToHead => String::from_str("Cannot add user's input"),
            TranspileError::AddInput => String::from_str("Cannot add user's input"),
            TranspileError::SubInput => String::from_str("Cannot subtract user's input"),
            TranspileError::BrokenVarMap => String::from_str("Illegal semantic info: Variable mapping is broken"),
        }
    }
}

} // verus!
