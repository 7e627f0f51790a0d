//! Semantic analysis: which tape cells a program names, where the head is
//! known, and the rewriting of head-relative variables into fixed ones.
use vstd::prelude::*;
use vstd::string::*;
use vstd::relations::sorted_by;
use vstd::std_specs::hash::*;
use vstd::std_specs::iter::IteratorSpec;

use std::collections::{HashMap, HashSet};

use crate::CELL_SIZE;
use crate::parse::ast::{
    AST, AssignNode, AssignNodeOperand, LValueNode, NodeModel, NumberNode, RValueNode,
    StatementNode, StaticVariableNode, TopLevelNode, VariableNode, WhileNode, lemma_nodes_view,
    node_view, nodes_view,
};

verus! {

broadcast use {group_hash_axioms, lemma_nodes_view, vstd::std_specs::vec::axiom_vec_decreases_to_view};

/// Which rewritings semantic analysis applies.
pub struct SemOptimizationOptions {
    /// Renumber the static variables densely where their indexes leave gaps.
    pub compress_var_map: bool,
    /// Reduce variable indexes and head positions modulo the tape length.
    pub round_var_index: bool,
    /// Reduce number literals assigned to the head modulo the cell size.
    pub round_num_literal: bool,
}

impl Default for SemOptimizationOptions {
    fn default() -> (r: Self)
        ensures
            r.compress_var_map,
            !r.round_var_index,
            r.round_num_literal,
    {
        Self { compress_var_map: true, round_var_index: false, round_num_literal: true }
    }
}

/// What semantic analysis learns of a program.
#[derive(Clone)]
pub struct SemanticInfo {
    pub tape_len: usize,
    /// Where `var_map_compressed` holds: the cell that each static variable
    /// index is moved to.
    pub var_map: HashMap<usize, usize>,
    pub var_map_compressed: bool,
    /// The number of top-level nodes before the first one from which on the
    /// head position is no longer known; from there on only head-relative
    /// variables may be used.
    pub first_cur_dyn_var_only: usize,
    /// Some static variable index is at least the tape length.
    pub warn_big_index: bool,
    /// Some number literal assigned to the head is at least the cell size.
    pub warn_big_literal: bool,
}

/// Why a program is refused.
#[derive(Debug, Clone, Copy, PartialEq, Eq, Structural)]
pub enum SemError {
    /// A static variable where the head position is no longer known.
    StaticVariableAfterHeadMove,
    /// `head = get()`.
    InputToHead,
    /// `x += get()`.
    AddInput,
    /// `x -= get()`.
    SubInput,
    /// More distinct static variables than the tape has cells.
    TooManyStaticVariables,
}

/// Why analysis stopped.
#[derive(Debug, Clone, Copy, PartialEq, Eq, Structural)]
pub enum SemFailure {
    Error(SemError),
    /// Head arithmetic left the range of `usize`, or a reduction modulo a
    /// tape length of 0 was asked for.
    Abort,
}

/// The analyzer.
pub struct Semer<'opts> {
    opts: &'opts SemOptimizationOptions,
    info: SemanticInfo,
    cur: usize,
    in_while: bool,
    var_indexes: HashSet<usize>,
    head: usize,
}

/// The model of an analyzer: its options, what it has learned, and where it is.
pub struct SemState {
    pub compress_var_map: bool,
    pub round_var_index: bool,
    pub round_num_literal: bool,
    pub tape_len: usize,
    pub var_map: Map<usize, usize>,
    pub var_map_compressed: bool,
    pub first: usize,
    pub warn_big_index: bool,
    pub warn_big_literal: bool,
    /// Top-level nodes done so far.
    pub cur: usize,
    pub in_while: bool,
    /// The static variable indexes seen.
    pub vars: Set<usize>,
    /// The head position, where it is known.
    pub head: usize,
}

/// The model of a `SemanticInfo`.
pub struct InfoModel {
    pub tape_len: usize,
    pub var_map: Map<usize, usize>,
    pub var_map_compressed: bool,
    pub first_cur_dyn_var_only: usize,
    pub warn_big_index: bool,
    pub warn_big_literal: bool,
}

impl View for SemanticInfo {
    type V = InfoModel;

    open spec fn view(&self) -> InfoModel {
        InfoModel {
            tape_len: self.tape_len,
            var_map: self.var_map@,
            var_map_compressed: self.var_map_compressed,
            first_cur_dyn_var_only: self.first_cur_dyn_var_only,
            warn_big_index: self.warn_big_index,
            warn_big_literal: self.warn_big_literal,
        }
    }
}

/// The information an analyzer in state `st` reports.
pub open spec fn info_of(st: SemState) -> InfoModel {
    InfoModel {
        tape_len: st.tape_len,
        var_map: st.var_map,
        var_map_compressed: st.var_map_compressed,
        first_cur_dyn_var_only: st.first,
        warn_big_index: st.warn_big_index,
        warn_big_literal: st.warn_big_literal,
    }
}

/// Static variables are allowed: the head position is still known.
pub open spec fn allow_static(st: SemState) -> bool {
    st.cur < st.first
}

/// Records a static variable with index `idx`; gives its index after any
/// reduction modulo the tape length.
pub open spec fn spec_visit_static(st: SemState, idx: usize) -> (SemState, usize, Result<(), SemFailure>) {
    if !allow_static(st) {
        (st, idx, Err(SemFailure::Error(SemError::StaticVariableAfterHeadMove)))
    } else {
        let st1 = SemState { warn_big_index: st.warn_big_index || idx >= st.tape_len, ..st };
        if st.round_var_index && st.tape_len == 0 {
            (st1, idx, Err(SemFailure::Abort))
        } else {
            let idx2 = if st.round_var_index {
                (idx % st.tape_len) as usize
            } else {
                idx
            };
            let st2 = SemState { vars: st1.vars.insert(idx2), ..st1 };
            if st2.vars.len() > st.tape_len {
                (st2, idx2, Err(SemFailure::Error(SemError::TooManyStaticVariables)))
            } else {
                (st2, idx2, Ok(()))
            }
        }
    }
}

/// Visits a variable: a head-relative one becomes the static variable at
/// the head while the head position is known outside any loop.
pub open spec fn spec_visit_variable(st: SemState, v: VariableNode) -> (
    SemState,
    VariableNode,
    Result<(), SemFailure>,
) {
    match v {
        VariableNode::Static(s) => {
            let (st1, i, r) = spec_visit_static(st, s.index);
            (st1, VariableNode::Static(StaticVariableNode { index: i }), r)
        },
        VariableNode::Dynamic(_) => if allow_static(st) && !st.in_while {
            let (st1, i, r) = spec_visit_static(st, st.head);
            (st1, VariableNode::Static(StaticVariableNode { index: i }), r)
        } else {
            (st, v, Ok(()))
        },
    }
}

/// Visits a number literal assigned to the head.
pub open spec fn spec_visit_number(st: SemState, n: NumberNode) -> (SemState, NumberNode) {
    let st1 = SemState { warn_big_literal: st.warn_big_literal || n.value >= CELL_SIZE, ..st };
    let v = if st.round_num_literal {
        (n.value % CELL_SIZE) as usize
    } else {
        n.value
    };
    (st1, NumberNode { value: v })
}

/// Inside a loop the head moves: from the current top-level node on, the
/// head position is no longer known.
pub open spec fn spec_mark_last_cur(st: SemState) -> SemState {
    if allow_static(st) {
        SemState { first: st.cur, ..st }
    } else {
        st
    }
}

/// The head set to `h`, reduced modulo the tape length where asked.
pub open spec fn spec_set_head(st: SemState, h: int) -> (SemState, Result<(), SemFailure>) {
    if h < 0 || h > usize::MAX {
        (st, Err(SemFailure::Abort))
    } else if st.round_var_index && st.tape_len == 0 {
        (SemState { head: h as usize, ..st }, Err(SemFailure::Abort))
    } else if st.round_var_index {
        (SemState { head: (h % st.tape_len as int) as usize, ..st }, Ok(()))
    } else {
        (SemState { head: h as usize, ..st }, Ok(()))
    }
}

/// A head move by `+= value` (`add`) or `-= value`.
pub open spec fn spec_move_head(st: SemState, value: usize, add: bool) -> (SemState, Result<(), SemFailure>) {
    if st.in_while {
        (spec_mark_last_cur(st), Ok(()))
    } else if allow_static(st) {
        spec_set_head(st, if add { st.head + value } else { st.head - value })
    } else {
        (st, Ok(()))
    }
}

/// Visits an assignment.
pub open spec fn spec_visit_assignment(st: SemState, a: AssignNode) -> (
    SemState,
    AssignNode,
    Result<(), SemFailure>,
) {
    match a {
        AssignNode::Simple(op) => match op.lvalue {
            LValueNode::Variable(v) => {
                let (st1, v1, r) = spec_visit_variable(st, v);
                (st1, AssignNode::Simple(AssignNodeOperand { lvalue: LValueNode::Variable(v1), ..op }), r)
            },
            LValueNode::Head(_) => {
                let st1 = if st.in_while {
                    spec_mark_last_cur(st)
                } else {
                    st
                };
                match op.rvalue {
                    RValueNode::Number(n) => {
                        let (st2, n2) = spec_visit_number(st1, n);
                        let a2 = AssignNode::Simple(
                            AssignNodeOperand { rvalue: RValueNode::Number(n2), ..op },
                        );
                        if allow_static(st2) {
                            let (st3, r) = spec_set_head(st2, n2.value as int);
                            (st3, a2, r)
                        } else {
                            (st2, a2, Ok(()))
                        }
                    },
                    RValueNode::Get(_) => (st1, a, Err(SemFailure::Error(SemError::InputToHead))),
                }
            },
        },
        AssignNode::Add(op) => match op.rvalue {
            RValueNode::Get(_) => (st, a, Err(SemFailure::Error(SemError::AddInput))),
            RValueNode::Number(n) => match op.lvalue {
                LValueNode::Variable(v) => {
                    let (st1, v1, r) = spec_visit_variable(st, v);
                    (st1, AssignNode::Add(AssignNodeOperand { lvalue: LValueNode::Variable(v1), ..op }), r)
                },
                LValueNode::Head(_) => {
                    let (st1, r) = spec_move_head(st, n.value, true);
                    (st1, a, r)
                },
            },
        },
        AssignNode::Sub(op) => match op.rvalue {
            RValueNode::Get(_) => (st, a, Err(SemFailure::Error(SemError::SubInput))),
            RValueNode::Number(n) => match op.lvalue {
                LValueNode::Variable(v) => {
                    let (st1, v1, r) = spec_visit_variable(st, v);
                    (st1, AssignNode::Sub(AssignNodeOperand { lvalue: LValueNode::Variable(v1), ..op }), r)
                },
                LValueNode::Head(_) => {
                    let (st1, r) = spec_move_head(st, n.value, false);
                    (st1, a, r)
                },
            },
        },
    }
}

/// Visits a statement.
pub open spec fn spec_visit_statement(st: SemState, s: StatementNode) -> (
    SemState,
    StatementNode,
    Result<(), SemFailure>,
) {
    match s {
        StatementNode::Assign(a) => {
            let (st1, a1, r) = spec_visit_assignment(st, a);
            (st1, StatementNode::Assign(a1), r)
        },
        StatementNode::Put(p) => {
            let (st1, v1, r) = spec_visit_variable(st, p.character);
            (st1, StatementNode::Put(crate::parse::ast::PutNode { character: v1 }), r)
        },
    }
}

/// One more top-level node done, where the analyzer is outside any loop.
pub open spec fn spec_count_node(st: SemState) -> (SemState, Result<(), SemFailure>) {
    if !st.in_while {
        if st.cur == usize::MAX {
            (st, Err(SemFailure::Abort))
        } else {
            (SemState { cur: (st.cur + 1) as usize, ..st }, Ok(()))
        }
    } else {
        (st, Ok(()))
    }
}

/// Visits one node.
pub open spec fn spec_visit_node(st: SemState, n: NodeModel) -> (
    SemState,
    NodeModel,
    Result<(), SemFailure>,
)
    decreases n,
{
    match n {
        NodeModel::Statement(s) => {
            let (st1, s1, r) = spec_visit_statement(st, s);
            if r is Err {
                (st1, NodeModel::Statement(s1), r)
            } else {
                let (st2, r2) = spec_count_node(st1);
                (st2, NodeModel::Statement(s1), r2)
            }
        },
        NodeModel::While(c, content) => {
            let (st1, c1, r1) = spec_visit_variable(st, c);
            if r1 is Err {
                (st1, NodeModel::While(c1, content), r1)
            } else {
                let (st2, content2, r2) = spec_visit_nodes(SemState { in_while: true, ..st1 }, content);
                if r2 is Err {
                    (st2, NodeModel::While(c1, content2), r2)
                } else {
                    let st3 = SemState { in_while: st1.in_while, ..st2 };
                    let (st4, r4) = spec_count_node(st3);
                    (st4, NodeModel::While(c1, content2), r4)
                }
            }
        },
    }
}

/// Visits nodes in order, up to the first failure; the nodes after it are
/// left as they are.
pub open spec fn spec_visit_nodes(st: SemState, nodes: Seq<NodeModel>) -> (
    SemState,
    Seq<NodeModel>,
    Result<(), SemFailure>,
)
    decreases nodes,
{
    if nodes.len() == 0 {
        (st, nodes, Ok(()))
    } else {
        let (st1, n1, r1) = spec_visit_node(st, nodes[0]);
        if r1 is Err {
            (st1, seq![n1] + nodes.drop_first(), r1)
        } else {
            let (st2, rest, r2) = spec_visit_nodes(st1, nodes.drop_first());
            (st2, seq![n1] + rest, r2)
        }
    }
}

/// The number of indexes in `vars` below `v`: where `v` goes when the
/// indexes are renumbered densely in their order.
pub open spec fn rank(vars: Set<usize>, v: usize) -> nat {
    vars.filter(|u: usize| u < v).len()
}

/// Each index of `vars` mapped to its rank.
pub open spec fn rank_map(vars: Set<usize>) -> Map<usize, usize> {
    Map::new(|v: usize| vars.contains(v), |v: usize| rank(vars, v) as usize)
}

/// The indexes leave gaps: some index is above the number of indexes.
pub open spec fn has_gaps(vars: Set<usize>) -> bool {
    exists|v: usize| vars.contains(v) && v > vars.len()
}

/// The renumbering at the end of the analysis, where asked and where the
/// head position is still known.
pub open spec fn spec_compress(st: SemState) -> SemState {
    if st.compress_var_map && allow_static(st) && has_gaps(st.vars) {
        SemState {
            var_map: st.var_map.union_prefer_right(rank_map(st.vars)),
            var_map_compressed: true,
            ..st
        }
    } else {
        st
    }
}

/// Analysis of a whole program: the analyzer's final state, the rewritten
/// nodes, and whether it succeeded.
pub open spec fn spec_sem(st: SemState, nodes: Seq<NodeModel>) -> (
    SemState,
    Seq<NodeModel>,
    Result<(), SemFailure>,
) {
    let st0 = SemState { first: nodes.len() as usize, ..st };
    let (st1, nodes1, r) = spec_visit_nodes(st0, nodes);
    if r is Err {
        (st1, nodes1, r)
    } else {
        (spec_compress(st1), nodes1, r)
    }
}

/// The analyzer that `Semer::new(tape_len, opts)` makes.
pub open spec fn fresh_state(tape_len: usize, opts: SemOptimizationOptions) -> SemState {
    SemState {
        compress_var_map: opts.compress_var_map,
        round_var_index: opts.round_var_index,
        round_num_literal: opts.round_num_literal,
        tape_len,
        var_map: Map::empty(),
        var_map_compressed: false,
        first: 0,
        warn_big_index: false,
        warn_big_literal: false,
        cur: 0,
        in_while: false,
        vars: Set::empty(),
        head: 0,
    }
}

/// Ascending order of indexes.
pub open spec fn ascending() -> spec_fn(usize, usize) -> bool {
    |a: usize, b: usize| a <= b
}

/// The indexes in `keys` mapped to their ranks among `vars`.
pub open spec fn ranks_of(vars: Set<usize>, keys: Set<usize>) -> Map<usize, usize> {
    Map::new(|v: usize| keys.contains(v), |v: usize| rank(vars, v) as usize)
}

/// Two sequences with the same elements, each as often: the same set, and
/// neither has duplicates if one has none.
proof fn lemma_same_multiset(a: Seq<usize>, b: Seq<usize>)
    requires
        a.to_multiset() == b.to_multiset(),
        a.no_duplicates(),
    ensures
        a.to_set() == b.to_set(),
        b.no_duplicates(),
        a.len() == b.len(),
{
    broadcast use vstd::seq_lib::group_to_multiset_ensures;
    broadcast use vstd::multiset::group_multiset_axioms;

    assert forall|x: usize| a.to_set().contains(x) == b.to_set().contains(x) by {
        assert(a.contains(x) <==> a.to_multiset().count(x) > 0);
        assert(b.contains(x) <==> b.to_multiset().count(x) > 0);
    }
    assert(a.to_set() =~= b.to_set());
    a.lemma_multiset_has_no_duplicates();
    b.lemma_multiset_has_no_duplicates_conv();
    vstd::seq_lib::to_multiset_len(a);
    vstd::seq_lib::to_multiset_len(b);
}

/// A sorted listing without duplicates of a set: each element's rank is its
/// position, and the set has gaps exactly where the last element exceeds
/// the length.
proof fn lemma_sorted_listing(s: Seq<usize>, vars: Set<usize>)
    requires
        s.to_set() == vars,
        s.no_duplicates(),
        sorted_by(s, ascending()),
    ensures
        vars.len() == s.len(),
        forall|j: int| 0 <= j < s.len() ==> #[trigger] rank(vars, s[j]) == j,
        has_gaps(vars) <==> (s.len() > 0 && s[s.len() - 1] > s.len()),
{
    broadcast use vstd::set::group_set_axioms;
    broadcast use vstd::seq_lib::seq_to_set_is_finite;

    s.unique_seq_to_set();
    assert forall|i: int, j: int| 0 <= i < j < s.len() implies s[i] < s[j] by {
        let leq = ascending();
        assert(leq(s[i], s[j]));
        assert(s[i] != s[j]);
    }
    assert forall|j: int| 0 <= j < s.len() implies #[trigger] rank(vars, s[j]) == j by {
        let t = s.take(j);
        assert(t.no_duplicates());
        t.unique_seq_to_set();
        assert forall|u: usize| vars.filter(|u: usize| u < s[j]).contains(u) == t.to_set().contains(u) by {
            if vars.contains(u) && u < s[j] {
                assert(s.contains(u));
                let k = choose|k: int| 0 <= k < s.len() && s[k] == u;
                if k >= j {
                    if k > j {
                        assert(s[j] < s[k]);
                    }
                }
                assert(t[k] == u);
            }
            if t.to_set().contains(u) {
                assert(t.contains(u));
                let k = choose|k: int| 0 <= k < t.len() && t[k] == u;
                assert(s[k] == u);
                assert(s[k] < s[j]);
                assert(s.contains(u));
            }
        }
        assert(vars.filter(|u: usize| u < s[j]) =~= t.to_set());
    }
    if has_gaps(vars) {
        let v = choose|v: usize| vars.contains(v) && v > vars.len();
        assert(s.contains(v));
        let k = choose|k: int| 0 <= k < s.len() && s[k] == v;
        if k < s.len() - 1 {
            assert(s[k] < s[s.len() - 1]);
        }
    }
    if s.len() > 0 && s[s.len() - 1] > s.len() {
        assert(s.contains(s[s.len() - 1]));
        assert(vars.contains(s[s.len() - 1]));
    }
}

/// Sorts with `<[usize]>::sort`.
///
/// Claimed of std: afterwards the elements are in ascending order and are
/// the same elements, each as often as before.
#[verifier::external_body]
fn sort_indexes(v: &mut Vec<usize>)
    ensures
        final(v)@.to_multiset() == old(v)@.to_multiset(),
        sorted_by(final(v)@, ascending()),
{
    v.sort();
}

/// `v` in reverse order.
fn reversed<T>(v: Vec<T>) -> (r: Vec<T>)
    ensures
        r@ == v@.reverse(),
{
    let mut v = v;
    let mut r: Vec<T> = Vec::new();
    let ghost orig = v@;
    while v.len() > 0
        invariant
            orig.len() == v@.len() + r@.len(),
            v@ == orig.subrange(0, v@.len() as int),
            r@ == orig.subrange(v@.len() as int, orig.len() as int).reverse(),
        decreases v@.len(),
    {
        let x = v.pop().unwrap();
        proof {
            assert(orig.subrange(v@.len() as int, orig.len() as int).reverse() =~= orig.subrange(
                v@.len() + 1int,
                orig.len() as int,
            ).reverse().push(x));
        }
        r.push(x);
    }
    proof {
        assert(orig.subrange(0, orig.len() as int) =~= orig);
    }
    r
}

impl<'opts> View for Semer<'opts> {
    type V = SemState;

    closed spec fn view(&self) -> SemState {
        SemState {
            compress_var_map: self.opts.compress_var_map,
            round_var_index: self.opts.round_var_index,
            round_num_literal: self.opts.round_num_literal,
            tape_len: self.info.tape_len,
            var_map: self.info.var_map@,
            var_map_compressed: self.info.var_map_compressed,
            first: self.info.first_cur_dyn_var_only,
            warn_big_index: self.info.warn_big_index,
            warn_big_literal: self.info.warn_big_literal,
            cur: self.cur,
            in_while: self.in_while,
            vars: self.var_indexes@,
            head: self.head,
        }
    }
}

impl<'opts> Semer<'opts> {
    /// Analyzes `ast`, rewriting head-relative variables where the head
    /// position is known into static ones and reducing indexes and literals
    /// as the options ask.
    pub fn sem(&mut self, ast: &mut AST) -> (r: Result<SemanticInfo, SemError>)
        requires
            spec_sem(old(self)@, old(ast)@).2 != Err::<(), SemFailure>(SemFailure::Abort),
        ensures
            final(self)@ == spec_sem(old(self)@, old(ast)@).0,
            final(ast)@ == spec_sem(old(self)@, old(ast)@).1,
            match spec_sem(old(self)@, old(ast)@).2 {
                Ok(_) => r matches Ok(info) && info@ == info_of(final(self)@),
                Err(SemFailure::Error(e)) => r matches Err(e2) && e2 == e,
                Err(SemFailure::Abort) => false,
            },
    {
        match self.sem_checked(ast) {
            Ok(info) => Ok(info),
            Err(SemFailure::Error(e)) => Err(e),
            Err(SemFailure::Abort) => {
                proof {
                    assert(false);
                }
                Err(SemError::InputToHead)
            },
        }
    }

    /// As `sem`, and says so where `sem` would not return.
    pub fn sem_checked(&mut self, ast: &mut AST) -> (r: Result<SemanticInfo, SemFailure>)
        ensures
            final(self)@ == spec_sem(old(self)@, old(ast)@).0,
            final(ast)@ == spec_sem(old(self)@, old(ast)@).1,
            match spec_sem(old(self)@, old(ast)@).2 {
                Ok(_) => r matches Ok(info) && info@ == info_of(final(self)@),
                Err(f) => r matches Err(f2) && f2 == f,
            },
    {
        self.info.first_cur_dyn_var_only = ast.root.len();
        let mut root: Vec<TopLevelNode> = Vec::new();
        std::mem::swap(&mut root, &mut ast.root);
        let (root, res) = self.visit_toplevel_nodes(root);
        ast.root = root;
        if let Err(f) = res {
            return Err(f);
        }
        if self.opts.compress_var_map && self.allow_static_variable() {
            self.compress();
        }
        Ok(SemanticInfo {
            tape_len: self.info.tape_len,
            var_map: self.info.var_map.clone(),
            var_map_compressed: self.info.var_map_compressed,
            first_cur_dyn_var_only: self.info.first_cur_dyn_var_only,
            warn_big_index: self.info.warn_big_index,
            warn_big_literal: self.info.warn_big_literal,
        })
    }

    /// Renumbers the static variables densely in their order, where their
    /// indexes leave gaps.
    #[verifier::loop_isolation(false)]
    fn compress(&mut self)
        requires
            old(self)@.compress_var_map,
            allow_static(old(self)@),
        ensures
            final(self)@ == spec_compress(old(self)@),
    {
        let ghost vars = self.var_indexes@;
        let ghost old_map = self.info.var_map@;
        let ghost keys = spec_hash_keys_iter(&self.var_indexes).remaining();
        let mut var_indexes: Vec<usize> = Vec::new();
        for v in it: self.var_indexes.iter()
            invariant
                it.seq() == keys,
                var_indexes@ == it.seq().take(it.index() as int).unref(),
        {
            proof {
                assert(it.seq().take(it.index() + 1).unref() =~= it.seq().take(it.index() as int).unref().push(*v));
            }
            var_indexes.push(*v);
        }
        proof {
            assert(keys.take(keys.len() as int) =~= keys);
            assert(var_indexes@.to_set() == vars);
            assert(var_indexes@.no_duplicates());
        }
        let ghost listed = var_indexes@;
        sort_indexes(&mut var_indexes);
        proof {
            lemma_same_multiset(listed, var_indexes@);
            lemma_sorted_listing(var_indexes@, vars);
        }
        let n = var_indexes.len();
        if n > 0 && var_indexes[n - 1] > n {
            let mut i: usize = 0;
            let ghost st_before = self@;
            while i < n
                invariant
                    self@ == (SemState { var_map: self.info.var_map@, ..st_before }),
                    n == var_indexes@.len(),
                    i <= n,
                    self.var_indexes@ == vars,
                    vars.len() == n,
                    forall|j: int| 0 <= j < n ==> #[trigger] rank(vars, var_indexes@[j]) == j,
                    self.info.var_map@ == old_map.union_prefer_right(
                        ranks_of(vars, var_indexes@.take(i as int).to_set()),
                    ),
                decreases n - i,
            {
                proof {
                    assert(var_indexes@.take(i + 1) =~= var_indexes@.take(i as int).push(var_indexes@[i as int]));
                    var_indexes@.take(i as int).lemma_push_to_set_commute(var_indexes@[i as int]);
                    assert(rank(vars, var_indexes@[i as int]) == i);
                    assert(old_map.union_prefer_right(ranks_of(vars, var_indexes@.take(i + 1).to_set()))
                        =~= old_map.union_prefer_right(ranks_of(vars, var_indexes@.take(i as int).to_set())).insert(var_indexes@[i as int], i));
                }
                self.info.var_map.insert(var_indexes[i], i);
                i = i + 1;
            }
            proof {
                assert(var_indexes@.take(n as int) =~= var_indexes@);
                assert(ranks_of(vars, var_indexes@.to_set()) =~= rank_map(vars));
            }
            self.info.var_map_compressed = true;
            proof {
                assert(has_gaps(vars));
            }
        } else {
            proof {
                assert(!has_gaps(vars));
            }
        }
    }

    /// Visits nodes in order up to the first failure.
    #[verifier::loop_isolation(false)]
    fn visit_toplevel_nodes(&mut self, nodes: Vec<TopLevelNode>) -> (r: (
        Vec<TopLevelNode>,
        Result<(), SemFailure>,
    ))
        ensures
            final(self)@ == spec_visit_nodes(old(self)@, nodes_view(nodes@)).0,
            nodes_view(r.0@) == spec_visit_nodes(old(self)@, nodes_view(nodes@)).1,
            r.1 == spec_visit_nodes(old(self)@, nodes_view(nodes@)).2,
        decreases nodes@, 0nat,
    {
        let ghost orig = nodes@;
        let ghost view0 = nodes_view(orig);
        let ghost st0 = self@;
        let mut rest = reversed(nodes);
        let mut result: Vec<TopLevelNode> = Vec::new();
        let mut failure: Result<(), SemFailure> = Ok(());
        proof {
            assert(view0.skip(0) =~= view0);
            assert(nodes_view(result@) =~= Seq::<NodeModel>::empty());
            assert(forall|x: Seq<NodeModel>| Seq::<NodeModel>::empty() + x =~= x);
        }
        while rest.len() > 0
            invariant
                orig.len() == result@.len() + rest@.len(),
                rest@ == orig.subrange(result@.len() as int, orig.len() as int).reverse(),
                view0 == nodes_view(orig),
                failure is Ok ==> spec_visit_nodes(st0, view0) == ({
                    let s = spec_visit_nodes(self@, view0.skip(result@.len() as int));
                    (s.0, nodes_view(result@) + s.1, s.2)
                }),
                failure is Err ==> spec_visit_nodes(st0, view0) == (
                    self@,
                    nodes_view(result@) + view0.skip(result@.len() as int),
                    failure,
                ),
            decreases rest@.len(),
        {
            let ghost k = result@.len() as int;
            let node = rest.pop().unwrap();
            proof {
                assert(node == orig[k]);
                assert(view0.skip(k)[0] == node_view(node));
                assert(view0.skip(k).drop_first() =~= view0.skip(k + 1));
                assert(result@.push(node).drop_last() =~= result@);
                assert(decreases_to!(orig => orig[k]));
            }
            if failure.is_ok() {
                let (n2, r) = self.visit_node(node);
                proof {
                    assert(nodes_view(result@.push(n2)) =~= nodes_view(result@).push(node_view(n2)));
                    if r is Err {
                        assert(nodes_view(result@) + (seq![node_view(n2)] + view0.skip(k).drop_first())
                            =~= nodes_view(result@.push(n2)) + view0.skip(k + 1));
                    } else {
                        let s = spec_visit_nodes(self@, view0.skip(k + 1));
                        assert(nodes_view(result@) + (seq![node_view(n2)] + s.1) =~= nodes_view(
                            result@.push(n2),
                        ) + s.1);
                    }
                }
                result.push(n2);
                failure = r;
            } else {
                proof {
                    assert(nodes_view(result@.push(node)) =~= nodes_view(result@).push(node_view(node)));
                    assert(nodes_view(result@) + view0.skip(k) =~= nodes_view(result@.push(node))
                        + view0.skip(k + 1));
                }
                result.push(node);
            }
        }
        proof {
            assert(view0.skip(orig.len() as int) =~= Seq::<NodeModel>::empty());
            assert(nodes_view(result@) + Seq::<NodeModel>::empty() =~= nodes_view(result@));
            if failure is Ok {
                assert(failure->Ok_0 == ());
            }
        }
        (result, failure)
    }

    /// Visits one node.
    fn visit_node(&mut self, node: TopLevelNode) -> (r: (TopLevelNode, Result<(), SemFailure>))
        ensures
            final(self)@ == spec_visit_node(old(self)@, node_view(node)).0,
            node_view(r.0) == spec_visit_node(old(self)@, node_view(node)).1,
            r.1 == spec_visit_node(old(self)@, node_view(node)).2,
        decreases node, 1nat,
    {
        match node {
            TopLevelNode::Statement(statement_node) => {
                let (s, r) = self.visit_statement(statement_node);
                if r.is_err() {
                    return (TopLevelNode::Statement(s), r);
                }
                let r = self.count_node();
                (TopLevelNode::Statement(s), r)
            },
            TopLevelNode::While(while_node) => {
                let WhileNode { condition, content } = while_node;
                let (condition, r) = self.visit_variable(condition);
                if r.is_err() {
                    return (TopLevelNode::While(WhileNode { condition, content }), r);
                }
                let in_while = self.in_while;
                self.in_while = true;
                let (content, r) = self.visit_toplevel_nodes(content);
                if r.is_err() {
                    return (TopLevelNode::While(WhileNode { condition, content }), r);
                }
                self.in_while = in_while;
                let r = self.count_node();
                (TopLevelNode::While(WhileNode { condition, content }), r)
            },
        }
    }

    /// Counts one more top-level node where the analyzer is outside any loop.
    fn count_node(&mut self) -> (r: Result<(), SemFailure>)
        ensures
            (final(self)@, r) == spec_count_node(old(self)@),
    {
        if !self.in_while {
            if self.cur == usize::MAX {
                return Err(SemFailure::Abort);
            }
            self.cur += 1;
        }
        Ok(())
    }

    fn visit_statement(&mut self, node: StatementNode) -> (r: (StatementNode, Result<(), SemFailure>))
        ensures
            (final(self)@, r.0, r.1) == spec_visit_statement(old(self)@, node),
    {
        match node {
            StatementNode::Assign(assign_node) => {
                let (a, r) = self.visit_assignment(assign_node);
                (StatementNode::Assign(a), r)
            },
            StatementNode::Put(put_node) => {
                let (v, r) = self.visit_variable(put_node.character);
                (StatementNode::Put(crate::parse::ast::PutNode { character: v }), r)
            },
        }
    }

    fn visit_assignment(&mut self, node: AssignNode) -> (r: (AssignNode, Result<(), SemFailure>))
        ensures
            (final(self)@, r.0, r.1) == spec_visit_assignment(old(self)@, node),
    {
        match node {
            AssignNode::Simple(operand) => match operand.lvalue {
                LValueNode::Variable(variable_node) => {
                    let (v, r) = self.visit_variable(variable_node);
                    (
                        AssignNode::Simple(
                            AssignNodeOperand { lvalue: LValueNode::Variable(v), rvalue: operand.rvalue },
                        ),
                        r,
                    )
                },
                LValueNode::Head(_) => {
                    if self.in_while {
                        self.mark_last_cur();
                    }
                    match operand.rvalue {
                        RValueNode::Number(number_node) => {
                            let number_node = self.visit_number(number_node);
                            let a = AssignNode::Simple(
                                AssignNodeOperand {
                                    lvalue: operand.lvalue,
                                    rvalue: RValueNode::Number(number_node),
                                },
                            );
                            if self.allow_static_variable() {
                                let r = self.set_head(number_node.value, 0, true);
                                return (a, r);
                            }
                            (a, Ok(()))
                        },
                        RValueNode::Get(_) => (node, Err(SemFailure::Error(SemError::InputToHead))),
                    }
                },
            },
            AssignNode::Add(operand) => {
                let RValueNode::Number(number_node) = operand.rvalue else {
                    return (node, Err(SemFailure::Error(SemError::AddInput)));
                };
                match operand.lvalue {
                    LValueNode::Variable(variable_node) => {
                        let (v, r) = self.visit_variable(variable_node);
                        (
                            AssignNode::Add(
                                AssignNodeOperand { lvalue: LValueNode::Variable(v), rvalue: operand.rvalue },
                            ),
                            r,
                        )
                    },
                    LValueNode::Head(_) => {
                        let r = self.move_head(number_node.value, true);
                        (node, r)
                    },
                }
            },
            AssignNode::Sub(operand) => {
                let RValueNode::Number(number_node) = operand.rvalue else {
                    return (node, Err(SemFailure::Error(SemError::SubInput)));
                };
                match operand.lvalue {
                    LValueNode::Variable(variable_node) => {
                        let (v, r) = self.visit_variable(variable_node);
                        (
                            AssignNode::Sub(
                                AssignNodeOperand { lvalue: LValueNode::Variable(v), rvalue: operand.rvalue },
                            ),
                            r,
                        )
                    },
                    LValueNode::Head(_) => {
                        let r = self.move_head(number_node.value, false);
                        (node, r)
                    },
                }
            },
        }
    }

    /// A head move by `+= value` (`add`) or `-= value`.
    fn move_head(&mut self, value: usize, add: bool) -> (r: Result<(), SemFailure>)
        ensures
            (final(self)@, r) == spec_move_head(old(self)@, value, add),
    {
        if self.in_while {
            self.mark_last_cur();
            Ok(())
        } else if self.allow_static_variable() {
            let head = self.head;
            if add {
                self.set_head(head, value, true)
            } else {
                self.set_head(head, value, false)
            }
        } else {
            Ok(())
        }
    }

    /// Sets the head to `base + diff` (`add`) or `base - diff`, reduced
    /// modulo the tape length where asked.
    fn set_head(&mut self, base: usize, diff: usize, add: bool) -> (r: Result<(), SemFailure>)
        ensures
            (final(self)@, r) == spec_set_head(
                old(self)@,
                if add {
                    base + diff
                } else {
                    base - diff
                },
            ),
    {
        let h = if add {
            match base.checked_add(diff) {
                Some(h) => h,
                None => {
                    return Err(SemFailure::Abort);
                },
            }
        } else {
            match base.checked_sub(diff) {
                Some(h) => h,
                None => {
                    return Err(SemFailure::Abort);
                },
            }
        };
        self.head = h;
        if self.opts.round_var_index {
            if self.info.tape_len == 0 {
                return Err(SemFailure::Abort);
            }
            self.head %= self.info.tape_len;
        }
        Ok(())
    }

    fn visit_variable(&mut self, variable: VariableNode) -> (r: (VariableNode, Result<(), SemFailure>))
        ensures
            (final(self)@, r.0, r.1) == spec_visit_variable(old(self)@, variable),
    {
        match variable {
            VariableNode::Static(stat_var_node) => {
                let (i, r) = self.visit_static(stat_var_node.index);
                (VariableNode::Static(StaticVariableNode { index: i }), r)
            },
            VariableNode::Dynamic(_) => {
                if self.allow_static_variable() && !self.in_while {
                    let head = self.head;
                    let (i, r) = self.visit_static(head);
                    (VariableNode::Static(StaticVariableNode { index: i }), r)
                } else {
                    (variable, Ok(()))
                }
            },
        }
    }

    /// Records a static variable.
    fn visit_static(&mut self, index: usize) -> (r: (usize, Result<(), SemFailure>))
        ensures
            (final(self)@, r.0, r.1) == spec_visit_static(old(self)@, index),
    {
        if !self.allow_static_variable() {
            return (index, Err(SemFailure::Error(SemError::StaticVariableAfterHeadMove)));
        }
        if index >= self.info.tape_len {
            self.info.warn_big_index = true;
        }
        let mut index = index;
        if self.opts.round_var_index {
            if self.info.tape_len == 0 {
                return (index, Err(SemFailure::Abort));
            }
            index %= self.info.tape_len;
        }
        self.var_indexes.insert(index);
        if self.var_indexes.len() > self.info.tape_len {
            return (index, Err(SemFailure::Error(SemError::TooManyStaticVariables)));
        }
        (index, Ok(()))
    }

    fn visit_number(&mut self, node: NumberNode) -> (r: NumberNode)
        ensures
            (final(self)@, r) == spec_visit_number(old(self)@, node),
    {
        if node.value >= CELL_SIZE {
            self.info.warn_big_literal = true;
        }
        if self.opts.round_num_literal {
            NumberNode { value: node.value % CELL_SIZE }
        } else {
            node
        }
    }

    fn mark_last_cur(&mut self)
        ensures
            final(self)@ == spec_mark_last_cur(old(self)@),
    {
        if self.allow_static_variable() {
            self.info.first_cur_dyn_var_only = self.cur;
        }
    }

    fn allow_static_variable(&self) -> (r: bool)
        ensures
            r == allow_static(self@),
    {
        self.cur < self.info.first_cur_dyn_var_only
    }

    /// An analyzer for a tape of `tape_len` cells with the given options.
    pub fn new(tape_len: usize, opts: &'opts SemOptimizationOptions) -> (r: Self)
        ensures
            r@ == fresh_state(tape_len, *opts),
    {
        Self {
            opts,
            info: SemanticInfo {
                tape_len,
                var_map: HashMap::new(),
                var_map_compressed: false,
                first_cur_dyn_var_only: 0,
                warn_big_index: false,
                warn_big_literal: false,
            },
            cur: 0,
            in_while: false,
            var_indexes: HashSet::new(),
            head: 0,
        }
    }
}

/// The message for an analysis error.
pub open spec fn sem_error_message(e: SemError) -> Seq<char> {
    match e {
        SemError::StaticVariableAfterHeadMove => "Cannot use static variable after moving head in while"@,
        SemError::InputToHead => "Cannot assign user's input to head"@,
        SemError::AddInput => "Cannot add user's input"@,
        SemError::SubInput => "Cannot subtract user's input"@,
        SemError::TooManyStaticVariables => "Too many static variables"@,
    }
}

impl SemError {
    /// The message shown for this error.
    pub fn message(&self) -> (r: String)
        ensures
            r@ == sem_error_message(*self),
    {
        match self {
            SemError::StaticVariableAfterHeadMove => String::from_str("Cannot use static variable after moving head in while"),
            SemError::InputToHead => String::from_str("Cannot assign user's input to head"),
            SemError::AddInput => String::from_str("Cannot add user's input"),
            SemError::SubInput => String::from_str("Cannot subtract user's input"),
            SemError::TooManyStaticVariables => String::from_str("Too many static variables"),
        }
    }
}

} // verus!
