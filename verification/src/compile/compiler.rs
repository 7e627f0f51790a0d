//! The instructions that compiling a program into LLVM IR emits, in order.
//! A driver replays them through an IR builder.
use vstd::prelude::*;
use vstd::string::*;
use vstd::std_specs::hash::*;

use crate::parse::ast::{
    AST, AssignNode, AssignNodeOperand, LValueNode, NodeModel, RValueNode, StatementNode,
    TopLevelNode, VariableNode, WhileNode, lemma_nodes_view, node_view, nodes_view,
};
use crate::sem::semer::{InfoModel, SemanticInfo};

verus! {

broadcast use {group_hash_axioms, lemma_nodes_view, vstd::std_specs::vec::axiom_vec_decreases_to_view};

/// The name of the function that holds the program.
pub const MAIN_FN_NAME: &'static str = "main";

/// An integer type of the IR: a tape cell or the head.
#[derive(Debug, Clone, Copy, PartialEq, Eq, Structural)]
pub enum IntTy {
    /// `i8`, one tape cell.
    Cell,
    /// `i32`, the head position.
    Head,
}

/// What a load or store reaches: the head variable, or the cell that a
/// pointer value points to.
#[derive(Debug, Clone, Copy, PartialEq, Eq, Structural)]
pub enum IrPlace {
    Head,
    Cell(usize),
}

/// One step of building the IR. Values and blocks are numbered in the
/// order they are made, from 0.
#[derive(Debug, Clone, Copy, PartialEq, Eq, Structural)]
pub enum IrInst {
    /// Appends block `block` to `main`.
    AppendBlock { block: usize },
    /// Continues building at the end of block `block`.
    PositionAt { block: usize },
    /// Allocates the tape of `len` cells on the heap.
    MallocTape { len: u64 },
    /// Allocates the head variable on the stack.
    AllocHead,
    /// `dst = value` as a constant of type `ty`.
    Const { dst: usize, ty: IntTy, value: u64 },
    /// `dst = load ty place`
    Load { dst: usize, ty: IntTy, place: IrPlace },
    /// `store value, place`
    Store { place: IrPlace, value: usize },
    /// `dst = getelementptr inbounds ptr, tape, index`: the address `index`
    /// steps past the start of the tape, a step being the width of a pointer.
    CellPtr { dst: usize, index: usize },
    /// `dst = value != 0`
    IsNonZero { dst: usize, value: usize },
    /// `dst = zext value to i32`
    ZeroExtend { dst: usize, value: usize },
    /// `dst = trunc value to i8`
    Truncate { dst: usize, value: usize },
    /// `dst = getchar()`
    CallGetchar { dst: usize },
    /// `putchar(value)`
    CallPutchar { value: usize },
    /// `dst = lhs + rhs`
    Add { dst: usize, lhs: usize, rhs: usize },
    /// `dst = lhs - rhs`
    Sub { dst: usize, lhs: usize, rhs: usize },
    /// `br target`
    Branch { target: usize },
    /// `br cond, then_block, else_block`
    CondBranch { cond: usize, then_block: usize, else_block: usize },
    /// Frees the tape.
    FreeTape,
    /// `ret i32 0`
    Return0,
}

/// Why a program cannot be compiled.
#[derive(Debug, Clone, Copy, PartialEq, Eq, Structural)]
pub enum CompileError {
    /// The variables are renumbered, but a static variable has no new number.
    InvalidCompression,
}

/// The builder's place: the next value and block numbers, the block being
/// filled, and what has been emitted.
pub struct Compiler {
    next_value: usize,
    next_block: usize,
    current_block: usize,
    insts: Vec<IrInst>,
}

/// The model of a compiler.
pub struct CompilerModel {
    pub next_value: nat,
    pub next_block: nat,
    pub current_block: nat,
    pub insts: Seq<IrInst>,
}

/// A new value is made.
pub open spec fn with_value(c: CompilerModel, inst: IrInst) -> CompilerModel {
    CompilerModel { next_value: c.next_value + 1, insts: c.insts.push(inst), ..c }
}

/// An instruction that makes no value.
pub open spec fn with_inst(c: CompilerModel, inst: IrInst) -> CompilerModel {
    CompilerModel { insts: c.insts.push(inst), ..c }
}

/// The cell index that a static variable's index stands for.
pub open spec fn actual_index(info: InfoModel, index: usize) -> Option<usize> {
    if info.var_map_compressed {
        if info.var_map.contains_key(index) {
            Some(info.var_map[index])
        } else {
            None
        }
    } else {
        Some(index)
    }
}

/// Sets or reads the head for a variable; gives the value holding it.
pub open spec fn spec_variable_to_head(c: CompilerModel, info: InfoModel, v: VariableNode) -> (
    CompilerModel,
    Result<nat, CompileError>,
) {
    match v {
        VariableNode::Static(s) => match actual_index(info, s.index) {
            None => (c, Err(CompileError::InvalidCompression)),
            Some(i) => {
                let h = c.next_value;
                let c1 = with_value(c, IrInst::Const { dst: h as usize, ty: IntTy::Head, value: i as u64 });
                (with_inst(c1, IrInst::Store { place: IrPlace::Head, value: h as usize }), Ok(h))
            },
        },
        VariableNode::Dynamic(_) => {
            let h = c.next_value;
            (with_value(c, IrInst::Load { dst: h as usize, ty: IntTy::Head, place: IrPlace::Head }), Ok(h))
        },
    }
}

/// Loads the cell of a variable; gives the value holding it.
pub open spec fn spec_load_variable(c: CompilerModel, info: InfoModel, v: VariableNode) -> (
    CompilerModel,
    Result<nat, CompileError>,
) {
    let (c1, r) = spec_variable_to_head(c, info, v);
    match r {
        Err(e) => (c1, Err(e)),
        Ok(h) => {
            let p = c1.next_value;
            let c2 = with_value(c1, IrInst::CellPtr { dst: p as usize, index: h as usize });
            let x = c2.next_value;
            (with_value(c2, IrInst::Load { dst: x as usize, ty: IntTy::Cell, place: IrPlace::Cell(p as usize) }), Ok(x))
        },
    }
}

/// Reads one character; gives the value holding it.
pub open spec fn spec_compile_get(c: CompilerModel) -> (CompilerModel, nat) {
    let g = c.next_value;
    let c1 = with_value(c, IrInst::CallGetchar { dst: g as usize });
    let t = c1.next_value;
    (with_value(c1, IrInst::Truncate { dst: t as usize, value: g as usize }), t)
}

/// Writes the character in a variable.
pub open spec fn spec_compile_put(c: CompilerModel, info: InfoModel, v: VariableNode) -> (
    CompilerModel,
    Result<(), CompileError>,
) {
    let (c1, r) = spec_load_variable(c, info, v);
    match r {
        Err(e) => (c1, Err(e)),
        Ok(x) => {
            let z = c1.next_value;
            let c2 = with_value(c1, IrInst::ZeroExtend { dst: z as usize, value: x as usize });
            (with_inst(c2, IrInst::CallPutchar { value: z as usize }), Ok(()))
        },
    }
}

/// The operands of an assignment, and which one it is: 0 for `=`, 1 for
/// `+=`, 2 for `-=`.
pub open spec fn assign_parts(a: AssignNode) -> (AssignNodeOperand, nat) {
    match a {
        AssignNode::Simple(op) => (op, 0),
        AssignNode::Add(op) => (op, 1),
        AssignNode::Sub(op) => (op, 2),
    }
}

/// Where an assignment writes: the head, or the cell of a variable.
pub open spec fn spec_assign_target(c: CompilerModel, info: InfoModel, lvalue: LValueNode) -> (
    CompilerModel,
    Result<(IntTy, IrPlace), CompileError>,
) {
    match lvalue {
        LValueNode::Variable(v) => {
            let (c1, r) = spec_variable_to_head(c, info, v);
            match r {
                Err(e) => (c1, Err(e)),
                Ok(h) => {
                    let p = c1.next_value;
                    (
                        with_value(c1, IrInst::CellPtr { dst: p as usize, index: h as usize }),
                        Ok((IntTy::Cell, IrPlace::Cell(p as usize))),
                    )
                },
            }
        },
        LValueNode::Head(_) => (c, Ok((IntTy::Head, IrPlace::Head))),
    }
}

/// What an assignment reads: a constant of the target's type, or a
/// character of input.
pub open spec fn spec_assign_value(c: CompilerModel, ty: IntTy, rvalue: RValueNode) -> (CompilerModel, nat) {
    match rvalue {
        RValueNode::Number(n) => {
            let x = c.next_value;
            (with_value(c, IrInst::Const { dst: x as usize, ty, value: n.value as u64 }), x)
        },
        RValueNode::Get(_) => spec_compile_get(c),
    }
}

/// An assignment: store the new value, or load, add or subtract, store.
pub open spec fn spec_compile_assignment(c: CompilerModel, info: InfoModel, a: AssignNode) -> (
    CompilerModel,
    Result<(), CompileError>,
) {
    let (op, kind) = assign_parts(a);
    let (c2, target) = spec_assign_target(c, info, op.lvalue);
    match target {
        Err(e) => (c2, Err(e)),
        Ok((ty, place)) => {
            let (c3, x) = spec_assign_value(c2, ty, op.rvalue);
            if kind == 0 {
                (with_inst(c3, IrInst::Store { place, value: x as usize }), Ok(()))
            } else {
                let o = c3.next_value;
                let c4 = with_value(c3, IrInst::Load { dst: o as usize, ty, place });
                let r = c4.next_value;
                let c5 = with_value(c4, if kind == 1 {
                    IrInst::Add { dst: r as usize, lhs: o as usize, rhs: x as usize }
                } else {
                    IrInst::Sub { dst: r as usize, lhs: o as usize, rhs: x as usize }
                });
                (with_inst(c5, IrInst::Store { place, value: r as usize }), Ok(()))
            }
        },
    }
}

/// A statement.
pub open spec fn spec_compile_statement(c: CompilerModel, info: InfoModel, s: StatementNode) -> (
    CompilerModel,
    Result<(), CompileError>,
) {
    match s {
        StatementNode::Assign(a) => spec_compile_assignment(c, info, a),
        StatementNode::Put(p) => spec_compile_put(c, info, p.character),
    }
}

/// A new block is appended.
pub open spec fn with_block(c: CompilerModel) -> CompilerModel {
    CompilerModel {
        next_block: c.next_block + 1,
        insts: c.insts.push(IrInst::AppendBlock { block: c.next_block as usize }),
        ..c
    }
}

/// Building continues in block `b`.
pub open spec fn at_block(c: CompilerModel, b: nat) -> CompilerModel {
    CompilerModel { current_block: b, insts: c.insts.push(IrInst::PositionAt { block: b as usize }), ..c }
}

/// The head of a loop: the test at the end of the current block branches
/// into a new loop block or on to a new next block; building goes on in
/// the loop block. Gives the block of the test and the next block.
pub open spec fn spec_while_start(c: CompilerModel, info: InfoModel, cond: VariableNode) -> (
    CompilerModel,
    Result<(nat, nat), CompileError>,
) {
    let start = c.current_block;
    let (c1, r) = spec_load_variable(c, info, cond);
    match r {
        Err(e) => (c1, Err(e)),
        Ok(v) => {
            let t = c1.next_value;
            let c2 = with_value(c1, IrInst::IsNonZero { dst: t as usize, value: v as usize });
            let loop_block = c2.next_block;
            let c3 = with_block(c2);
            let next = c3.next_block;
            let c4 = with_block(c3);
            let c5 = with_inst(
                c4,
                IrInst::CondBranch { cond: t as usize, then_block: loop_block as usize, else_block: next as usize },
            );
            (at_block(c5, loop_block), Ok((start, next)))
        },
    }
}

/// The end of a loop: branch back to the block of the test, and go on in
/// the next block.
pub open spec fn spec_while_end(c: CompilerModel, start: nat, next: nat) -> CompilerModel {
    at_block(with_inst(c, IrInst::Branch { target: start as usize }), next)
}

/// `while (cond) { content }`.
pub open spec fn spec_compile_while(
    c: CompilerModel,
    info: InfoModel,
    cond: VariableNode,
    content: Seq<NodeModel>,
) -> (CompilerModel, Result<(), CompileError>)
    decreases content, 1nat,
{
    let (c1, r) = spec_while_start(c, info, cond);
    match r {
        Err(e) => (c1, Err(e)),
        Ok((start, next)) => {
            let (c2, r2) = spec_compile_nodes(c1, info, content);
            match r2 {
                Err(e) => (c2, Err(e)),
                Ok(_) => (spec_while_end(c2, start, next), Ok(())),
            }
        },
    }
}

/// One node.
pub open spec fn spec_compile_node(c: CompilerModel, info: InfoModel, n: NodeModel) -> (
    CompilerModel,
    Result<(), CompileError>,
)
    decreases n, 0nat,
{
    match n {
        NodeModel::Statement(s) => spec_compile_statement(c, info, s),
        NodeModel::While(cond, content) => spec_compile_while(c, info, cond, content),
    }
}

/// Nodes in order, up to the first failure.
pub open spec fn spec_compile_nodes(c: CompilerModel, info: InfoModel, nodes: Seq<NodeModel>) -> (
    CompilerModel,
    Result<(), CompileError>,
)
    decreases nodes, 0nat,
{
    if nodes.len() == 0 {
        (c, Ok(()))
    } else {
        let (c1, r) = spec_compile_node(c, info, nodes[0]);
        match r {
            Err(e) => (c1, Err(e)),
            Ok(_) => spec_compile_nodes(c1, info, nodes.drop_first()),
        }
    }
}

/// The start of `main`: an entry block that allocates the tape and the
/// head, sets the head to 0, and branches to the block where the program
/// begins.
pub open spec fn spec_compiling_init(c: CompilerModel, info: InfoModel) -> CompilerModel {
    let entry = c.next_block;
    let c1 = at_block(with_block(c), entry);
    let c2 = with_inst(c1, IrInst::MallocTape { len: info.tape_len as u64 });
    let c3 = with_inst(c2, IrInst::AllocHead);
    let z = c3.next_value;
    let c4 = with_value(c3, IrInst::Const { dst: z as usize, ty: IntTy::Head, value: 0 });
    let c5 = with_inst(c4, IrInst::Store { place: IrPlace::Head, value: z as usize });
    let next = c5.next_block;
    let c6 = with_block(c5);
    let c7 = with_inst(c6, IrInst::Branch { target: next as usize });
    at_block(c7, next)
}

/// The end of `main`: free the tape and return 0.
pub open spec fn spec_compiling_finish(c: CompilerModel) -> CompilerModel {
    with_inst(with_inst(c, IrInst::FreeTape), IrInst::Return0)
}

/// Everything a compiler in state `c` emits for the program.
pub open spec fn spec_compile(c: CompilerModel, info: InfoModel, nodes: Seq<NodeModel>) -> (
    CompilerModel,
    Result<(), CompileError>,
) {
    let (c1, r) = spec_compile_nodes(spec_compiling_init(c, info), info, nodes);
    match r {
        Err(e) => (c1, Err(e)),
        Ok(_) => (spec_compiling_finish(c1), Ok(())),
    }
}

/// A fresh compiler: nothing emitted, no value or block made.
pub open spec fn fresh_compiler() -> CompilerModel {
    CompilerModel { next_value: 0, next_block: 0, current_block: 0, insts: seq![] }
}

/// The instructions for `ast`, analyzed into `info`, from a fresh compiler.
pub open spec fn spec_compile_program(ast: Seq<NodeModel>, info: InfoModel) -> Result<
    Seq<IrInst>,
    CompileError,
> {
    let (c, r) = spec_compile(fresh_compiler(), info, ast);
    match r {
        Err(e) => Err(e),
        Ok(_) => Ok(c.insts),
    }
}

/// Every number the compiler has made is at most the number of
/// instructions emitted, so it fits in `usize`.
pub open spec fn counts_fit(c: CompilerModel) -> bool {
    c.next_value <= c.insts.len() && c.next_block <= c.insts.len() && c.current_block <= c.insts.len()
}

impl View for Compiler {
    type V = CompilerModel;

    closed spec fn view(&self) -> CompilerModel {
        CompilerModel {
            next_value: self.next_value as nat,
            next_block: self.next_block as nat,
            current_block: self.current_block as nat,
            insts: self.insts@,
        }
    }
}

impl Compiler {
    /// Emits the instructions for `ast`, analyzed into `sem_info`, and
    /// hands them over; the compiler keeps its counts.
    pub fn compile(&mut self, ast: &AST, sem_info: &SemanticInfo) -> (r: Result<Vec<IrInst>, CompileError>)
        requires
            counts_fit(old(self)@),
        ensures
            ({
                let (c, res) = spec_compile(old(self)@, sem_info@, ast@);
                &&& final(self)@ == (CompilerModel { insts: seq![], ..c })
                &&& match res {
                    Ok(_) => r matches Ok(v) && v@ == c.insts,
                    Err(e) => r == Err::<Vec<IrInst>, CompileError>(e),
                }
            }),
    {
        self.compiling_init(sem_info);
        let res = self.compile_toplevel_nodes(&ast.root, sem_info);
        if res.is_ok() {
            self.compiling_finish();
        }
        let mut insts: Vec<IrInst> = Vec::new();
        std::mem::swap(&mut insts, &mut self.insts);
        match res {
            Ok(_) => Ok(insts),
            Err(e) => Err(e),
        }
    }

    /// Emits an instruction that makes no value.
    fn emit(&mut self, inst: IrInst)
        requires
            counts_fit(old(self)@),
        ensures
            final(self)@ == with_inst(old(self)@, inst),
            counts_fit(final(self)@),
            old(self)@.insts.len() <= final(self)@.insts.len(),
    {
        self.insts.push(inst);
    }

    /// Emits an instruction that makes the next value.
    fn emit_value(&mut self, inst: IrInst)
        requires
            counts_fit(old(self)@),
        ensures
            final(self)@ == with_value(old(self)@, inst),
            counts_fit(final(self)@),
            old(self)@.insts.len() <= final(self)@.insts.len(),
    {
        self.insts.push(inst);
        let n = self.insts.len();
        self.next_value = self.next_value + 1;
        assert(self.next_value <= n);
    }

    /// Appends a block; gives its number.
    fn append_basic_block(&mut self) -> (r: usize)
        requires
            counts_fit(old(self)@),
        ensures
            final(self)@ == with_block(old(self)@),
            r == old(self)@.next_block,
            counts_fit(final(self)@),
            old(self)@.insts.len() <= final(self)@.insts.len(),
    {
        let b = self.next_block;
        self.insts.push(IrInst::AppendBlock { block: b });
        let n = self.insts.len();
        self.next_block = b + 1;
        assert(self.next_block <= n);
        b
    }

    /// Continues building in block `b`.
    fn position_at_end(&mut self, b: usize)
        requires
            counts_fit(old(self)@),
            b <= old(self)@.insts.len(),
        ensures
            final(self)@ == at_block(old(self)@, b as nat),
            counts_fit(final(self)@),
            old(self)@.insts.len() <= final(self)@.insts.len(),
    {
        self.insts.push(IrInst::PositionAt { block: b });
        self.current_block = b;
    }

    fn compiling_init(&mut self, sem_info: &SemanticInfo)
        requires
            counts_fit(old(self)@),
        ensures
            final(self)@ == spec_compiling_init(old(self)@, sem_info@),
            counts_fit(final(self)@),
            old(self)@.insts.len() <= final(self)@.insts.len(),
    {
        let entry = self.append_basic_block();
        self.position_at_end(entry);
        self.emit(IrInst::MallocTape { len: sem_info.tape_len as u64 });
        self.emit(IrInst::AllocHead);
        let z = self.next_value;
        self.emit_value(IrInst::Const { dst: z, ty: IntTy::Head, value: 0 });
        self.emit(IrInst::Store { place: IrPlace::Head, value: z });
        let next = self.append_basic_block();
        self.emit(IrInst::Branch { target: next });
        self.position_at_end(next);
    }

    fn compiling_finish(&mut self)
        requires
            counts_fit(old(self)@),
        ensures
            final(self)@ == spec_compiling_finish(old(self)@),
            counts_fit(final(self)@),
            old(self)@.insts.len() <= final(self)@.insts.len(),
    {
        self.emit(IrInst::FreeTape);
        self.emit(IrInst::Return0);
    }

    #[verifier::loop_isolation(false)]
    fn compile_toplevel_nodes(&mut self, nodes: &Vec<TopLevelNode>, sem_info: &SemanticInfo) -> (r: Result<
        (),
        CompileError,
    >)
        requires
            counts_fit(old(self)@),
        ensures
            (final(self)@, r) == spec_compile_nodes(old(self)@, sem_info@, nodes_view(nodes@)),
            counts_fit(final(self)@),
            old(self)@.insts.len() <= final(self)@.insts.len(),
        decreases nodes@, 0nat,
    {
        let ghost view0 = nodes_view(nodes@);
        let ghost c0 = self@;
        let mut i: usize = 0;
        proof {
            assert(view0.skip(0) =~= view0);
        }
        while i < nodes.len()
            invariant
                i <= nodes@.len(),
                counts_fit(self@),
                c0.insts.len() <= self@.insts.len(),
                spec_compile_nodes(c0, sem_info@, view0) == spec_compile_nodes(
                    self@,
                    sem_info@,
                    view0.skip(i as int),
                ),
            decreases nodes@.len() - i,
        {
            let node = &nodes[i];
            proof {
                assert(view0.skip(i as int)[0] == node_view(*node));
                assert(view0.skip(i as int).drop_first() =~= view0.skip(i + 1));
                assert(decreases_to!(nodes@ => nodes@[i as int]));
            }
            let r = self.compile_node(node, sem_info);
            if let Err(e) = r {
                return Err(e);
            }
            i = i + 1;
        }
        proof {
            assert(view0.skip(i as int) =~= Seq::<NodeModel>::empty());
        }
        Ok(())
    }

    fn compile_node(&mut self, node: &TopLevelNode, sem_info: &SemanticInfo) -> (r: Result<(), CompileError>)
        requires
            counts_fit(old(self)@),
        ensures
            (final(self)@, r) == spec_compile_node(old(self)@, sem_info@, node_view(*node)),
            counts_fit(final(self)@),
            old(self)@.insts.len() <= final(self)@.insts.len(),
        decreases *node, 1nat,
    {
        match node {
            TopLevelNode::Statement(statement_node) => self.compile_statement(statement_node, sem_info),
            TopLevelNode::While(while_node) => {
                let (start, next) = self.while_start(while_node, sem_info)?;
                self.compile_toplevel_nodes(&while_node.content, sem_info)?;
                self.while_end(start, next);
                Ok(())
            },
        }
    }

    fn compile_statement(&mut self, node: &StatementNode, sem_info: &SemanticInfo) -> (r: Result<
        (),
        CompileError,
    >)
        requires
            counts_fit(old(self)@),
        ensures
            (final(self)@, r) == spec_compile_statement(old(self)@, sem_info@, *node),
            counts_fit(final(self)@),
            old(self)@.insts.len() <= final(self)@.insts.len(),
    {
        match node {
            StatementNode::Assign(assign_node) => self.compile_assignment(assign_node, sem_info),
            StatementNode::Put(put_node) => self.compile_put(put_node.character, sem_info),
        }
    }

    fn while_start(&mut self, node: &WhileNode, sem_info: &SemanticInfo) -> (r: Result<
        (usize, usize),
        CompileError,
    >)
        requires
            counts_fit(old(self)@),
        ensures
            counts_fit(final(self)@),
            old(self)@.insts.len() <= final(self)@.insts.len(),
            ({
                let (c, res) = spec_while_start(old(self)@, sem_info@, node.condition);
                &&& final(self)@ == c
                &&& match res {
                    Ok((s, n)) => r matches Ok((s2, n2)) && s2 == s && n2 == n && s <= c.insts.len()
                        && n <= c.insts.len(),
                    Err(e) => r == Err::<(usize, usize), CompileError>(e),
                }
            }),
    {
        let start = self.current_block;
        let v = self.load_variable(node.condition, sem_info)?;
        let t = self.next_value;
        self.emit_value(IrInst::IsNonZero { dst: t, value: v });
        let loop_block = self.append_basic_block();
        let next = self.append_basic_block();
        self.emit(IrInst::CondBranch { cond: t, then_block: loop_block, else_block: next });
        self.position_at_end(loop_block);
        Ok((start, next))
    }

    fn while_end(&mut self, start: usize, next: usize)
        requires
            counts_fit(old(self)@),
            next <= old(self)@.insts.len(),
        ensures
            final(self)@ == spec_while_end(old(self)@, start as nat, next as nat),
            counts_fit(final(self)@),
            old(self)@.insts.len() <= final(self)@.insts.len(),
    {
        self.emit(IrInst::Branch { target: start });
        self.position_at_end(next);
    }

    fn compile_put(&mut self, character: VariableNode, sem_info: &SemanticInfo) -> (r: Result<
        (),
        CompileError,
    >)
        requires
            counts_fit(old(self)@),
        ensures
            (final(self)@, r) == spec_compile_put(old(self)@, sem_info@, character),
            counts_fit(final(self)@),
            old(self)@.insts.len() <= final(self)@.insts.len(),
    {
        let x = self.load_variable(character, sem_info)?;
        let z = self.next_value;
        self.emit_value(IrInst::ZeroExtend { dst: z, value: x });
        self.emit(IrInst::CallPutchar { value: z });
        Ok(())
    }

    fn compile_get(&mut self) -> (r: usize)
        requires
            counts_fit(old(self)@),
        ensures
            (final(self)@, r as nat) == spec_compile_get(old(self)@),
            counts_fit(final(self)@),
            old(self)@.insts.len() <= final(self)@.insts.len(),
    {
        let g = self.next_value;
        self.emit_value(IrInst::CallGetchar { dst: g });
        let t = self.next_value;
        self.emit_value(IrInst::Truncate { dst: t, value: g });
        t
    }

    fn compile_assignment(&mut self, node: &AssignNode, sem_info: &SemanticInfo) -> (r: Result<
        (),
        CompileError,
    >)
        requires
            counts_fit(old(self)@),
        ensures
            (final(self)@, r) == spec_compile_assignment(old(self)@, sem_info@, *node),
            counts_fit(final(self)@),
            old(self)@.insts.len() <= final(self)@.insts.len(),
    {
        let (operand, kind) = match node {
            AssignNode::Simple(op) => (op, 0usize),
            AssignNode::Add(op) => (op, 1usize),
            AssignNode::Sub(op) => (op, 2usize),
        };
        let (int_type, place) = match &operand.lvalue {
            LValueNode::Variable(variable_node) => {
                let head = self.variable_to_head(*variable_node, sem_info)?;
                let p = self.next_value;
                self.emit_value(IrInst::CellPtr { dst: p, index: head });
                (IntTy::Cell, IrPlace::Cell(p))
            },
            LValueNode::Head(_) => (IntTy::Head, IrPlace::Head),
        };
        let value = match &operand.rvalue {
            RValueNode::Number(number_node) => {
                let x = self.next_value;
                self.emit_value(IrInst::Const { dst: x, ty: int_type, value: number_node.value as u64 });
                x
            },
            RValueNode::Get(_) => self.compile_get(),
        };
        if kind == 0 {
            self.emit(IrInst::Store { place, value });
            return Ok(());
        }
        let old_value = self.next_value;
        self.emit_value(IrInst::Load { dst: old_value, ty: int_type, place });
        let new_value = self.next_value;
        if kind == 1 {
            self.emit_value(IrInst::Add { dst: new_value, lhs: old_value, rhs: value });
        } else {
            self.emit_value(IrInst::Sub { dst: new_value, lhs: old_value, rhs: value });
        }
        self.emit(IrInst::Store { place, value: new_value });
        Ok(())
    }

    /// The cell index that a static variable's index stands for.
    fn actual_index(sem_info: &SemanticInfo, index: usize) -> (r: Option<usize>)
        ensures
            r == actual_index(sem_info@, index),
    {
        if sem_info.var_map_compressed {
            match sem_info.var_map.get(&index) {
                Some(i) => Some(*i),
                None => None,
            }
        } else {
            Some(index)
        }
    }

    fn variable_to_head(&mut self, node: VariableNode, sem_info: &SemanticInfo) -> (r: Result<
        usize,
        CompileError,
    >)
        requires
            counts_fit(old(self)@),
        ensures
            counts_fit(final(self)@),
            old(self)@.insts.len() <= final(self)@.insts.len(),
            ({
                let (c, res) = spec_variable_to_head(old(self)@, sem_info@, node);
                &&& final(self)@ == c
                &&& match res {
                    Ok(h) => r == Ok::<usize, CompileError>(h as usize) && h < c.next_value,
                    Err(e) => r == Err::<usize, CompileError>(e),
                }
            }),
    {
        match node {
            VariableNode::Static(stat_var_node) => {
                let Some(actual) = Self::actual_index(sem_info, stat_var_node.index) else {
                    return Err(CompileError::InvalidCompression);
                };
                let h = self.next_value;
                self.emit_value(IrInst::Const { dst: h, ty: IntTy::Head, value: actual as u64 });
                self.emit(IrInst::Store { place: IrPlace::Head, value: h });
                Ok(h)
            },
            VariableNode::Dynamic(_) => {
                let h = self.next_value;
                self.emit_value(IrInst::Load { dst: h, ty: IntTy::Head, place: IrPlace::Head });
                Ok(h)
            },
        }
    }

    fn load_variable(&mut self, node: VariableNode, sem_info: &SemanticInfo) -> (r: Result<
        usize,
        CompileError,
    >)
        requires
            counts_fit(old(self)@),
        ensures
            counts_fit(final(self)@),
            old(self)@.insts.len() <= final(self)@.insts.len(),
            ({
                let (c, res) = spec_load_variable(old(self)@, sem_info@, node);
                &&& final(self)@ == c
                &&& match res {
                    Ok(x) => r == Ok::<usize, CompileError>(x as usize) && x < c.next_value,
                    Err(e) => r == Err::<usize, CompileError>(e),
                }
            }),
    {
        let head = self.variable_to_head(node, sem_info)?;
        let p = self.next_value;
        self.emit_value(IrInst::CellPtr { dst: p, index: head });
        let x = self.next_value;
        self.emit_value(IrInst::Load { dst: x, ty: IntTy::Cell, place: IrPlace::Cell(p) });
        Ok(x)
    }

    /// A fresh compiler.
    pub fn new() -> (r: Self)
        ensures
            r@ == fresh_compiler(),
            counts_fit(r@),
    {
        Compiler { next_value: 0, next_block: 0, current_block: 0, insts: Vec::new() }
    }
}

/// The message for a compile error.
pub open spec fn compile_error_message(e: CompileError) -> Seq<char> {
    match e {
        CompileError::InvalidCompression => "variable compression is applied invalidly"@,
    }
}

impl CompileError {
    /// The message shown for this error.
    pub fn message(&self) -> (r: String)
        ensures
            r@ == compile_error_message(*self),
    {
        match self {
            CompileError::InvalidCompression => String::from_str("variable compression is applied invalidly"),
        }
    }
}

} // verus!
