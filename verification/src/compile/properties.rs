//! What holds of every instruction sequence that compiling a program gives.
use vstd::prelude::*;

use crate::compile::compiler::{
    CompilerModel, IntTy, IrInst, IrPlace, actual_index, assign_parts, at_block, fresh_compiler, spec_compile_assignment,
    spec_compile_node, spec_compile_nodes, spec_compile_program, spec_compile_statement,
    spec_compile_while, spec_compiling_finish, spec_compiling_init, spec_load_variable,
    spec_compile_put, spec_variable_to_head, spec_while_start, with_block, with_inst, with_value,
};
use crate::parse::ast::{
    AssignNode, AssignNodeOperand, LValueNode, NodeModel, RValueNode, StatementNode, VariableNode,
};
use crate::sem::semer::InfoModel;

verus! {

/// The value that an instruction makes, if it makes one.
pub open spec fn made_value(inst: IrInst) -> Option<nat> {
    match inst {
        IrInst::Const { dst, .. } => Some(dst as nat),
        IrInst::Load { dst, .. } => Some(dst as nat),
        IrInst::CellPtr { dst, .. } => Some(dst as nat),
        IrInst::IsNonZero { dst, .. } => Some(dst as nat),
        IrInst::ZeroExtend { dst, .. } => Some(dst as nat),
        IrInst::Truncate { dst, .. } => Some(dst as nat),
        IrInst::CallGetchar { dst } => Some(dst as nat),
        IrInst::Add { dst, .. } => Some(dst as nat),
        IrInst::Sub { dst, .. } => Some(dst as nat),
        _ => None,
    }
}

/// A place that reads only values numbered below `n`.
pub open spec fn place_below(p: IrPlace, n: nat) -> bool {
    match p {
        IrPlace::Head => true,
        IrPlace::Cell(v) => v < n,
    }
}

/// Every value that `inst` reads is numbered below `n`.
pub open spec fn reads_below(inst: IrInst, n: nat) -> bool {
    match inst {
        IrInst::Load { place, .. } => place_below(place, n),
        IrInst::Store { place, value } => place_below(place, n) && value < n,
        IrInst::CellPtr { index, .. } => index < n,
        IrInst::IsNonZero { value, .. } => value < n,
        IrInst::ZeroExtend { value, .. } => value < n,
        IrInst::Truncate { value, .. } => value < n,
        IrInst::CallPutchar { value } => value < n,
        IrInst::Add { lhs, rhs, .. } => lhs < n && rhs < n,
        IrInst::Sub { lhs, rhs, .. } => lhs < n && rhs < n,
        IrInst::CondBranch { cond, .. } => cond < n,
        _ => true,
    }
}

/// Every block that `inst` names has been appended, where `nb` blocks have
/// been; a block appended gets the next number.
pub open spec fn names_blocks_below(inst: IrInst, nb: nat) -> bool {
    match inst {
        IrInst::AppendBlock { block } => block == nb,
        IrInst::PositionAt { block } => block < nb,
        IrInst::Branch { target } => target < nb,
        IrInst::CondBranch { then_block, else_block, .. } => then_block < nb && else_block < nb,
        _ => true,
    }
}

/// `inst` is in order after `n` values and `nb` blocks were made: it reads
/// and names only what exists, and a value it makes is numbered `n`.
pub open spec fn in_order(inst: IrInst, n: nat, nb: nat) -> bool {
    &&& reads_below(inst, n)
    &&& names_blocks_below(inst, nb)
    &&& match made_value(inst) {
        Some(d) => d == n,
        None => true,
    }
}

/// The number of values that the instructions `s` make.
pub open spec fn values_made(s: Seq<IrInst>) -> nat
    decreases s.len(),
{
    if s.len() == 0 {
        0
    } else {
        values_made(s.drop_last()) + if made_value(s.last()) is Some {
            1nat
        } else {
            0nat
        }
    }
}

/// The number of blocks that the instructions `s` append.
pub open spec fn blocks_made(s: Seq<IrInst>) -> nat
    decreases s.len(),
{
    if s.len() == 0 {
        0
    } else {
        blocks_made(s.drop_last()) + if s.last() is AppendBlock {
            1nat
        } else {
            0nat
        }
    }
}

/// Every instruction of `s` is in order after those before it.
pub open spec fn plan_in_order(s: Seq<IrInst>) -> bool {
    forall|i: int|
        0 <= i < s.len() ==> #[trigger] in_order(s[i], values_made(s.take(i)), blocks_made(s.take(i)))
}

/// A compiler whose counts agree with what it has emitted, all of it in
/// order.
pub open spec fn plan_ok(c: CompilerModel) -> bool {
    &&& c.next_value == values_made(c.insts)
    &&& c.next_block == blocks_made(c.insts)
    &&& c.next_value <= c.insts.len()
    &&& c.next_block <= c.insts.len()
    &&& plan_in_order(c.insts)
}

/// A compiler in order that builds in an appended block.
pub open spec fn building(c: CompilerModel) -> bool {
    plan_ok(c) && c.current_block < c.next_block
}

proof fn lemma_push_in_order(s: Seq<IrInst>, inst: IrInst)
    requires
        plan_in_order(s),
        in_order(inst, values_made(s), blocks_made(s)),
    ensures
        plan_in_order(s.push(inst)),
        values_made(s.push(inst)) == values_made(s) + if made_value(inst) is Some {
            1nat
        } else {
            0nat
        },
        blocks_made(s.push(inst)) == blocks_made(s) + if inst is AppendBlock {
            1nat
        } else {
            0nat
        },
{
    let t = s.push(inst);
    assert(t.drop_last() =~= s);
    assert forall|i: int| 0 <= i < t.len() implies #[trigger] in_order(
        t[i],
        values_made(t.take(i)),
        blocks_made(t.take(i)),
    ) by {
        if i < s.len() {
            assert(t.take(i) =~= s.take(i));
            assert(in_order(s[i], values_made(s.take(i)), blocks_made(s.take(i))));
        } else {
            assert(t.take(i) =~= s);
        }
    }
}

/// Making the next value in order keeps a compiler in order.
pub broadcast proof fn lemma_with_value_in_order(c: CompilerModel, inst: IrInst)
    requires
        plan_ok(c),
        c.insts.len() < usize::MAX,
        made_value(inst) == Some(c.next_value),
        reads_below(inst, c.next_value),
    ensures
        #[trigger] plan_ok(with_value(c, inst)),
{
    lemma_push_in_order(c.insts, inst);
}

/// An instruction in order that makes no value keeps a compiler in order.
pub broadcast proof fn lemma_with_inst_in_order(c: CompilerModel, inst: IrInst)
    requires
        plan_ok(c),
        c.insts.len() < usize::MAX,
        made_value(inst) is None,
        !(inst is AppendBlock),
        reads_below(inst, c.next_value),
        names_blocks_below(inst, c.next_block),
    ensures
        #[trigger] plan_ok(with_inst(c, inst)),
{
    lemma_push_in_order(c.insts, inst);
}

/// Appending a block keeps a compiler in order.
pub broadcast proof fn lemma_with_block_in_order(c: CompilerModel)
    requires
        plan_ok(c),
        c.insts.len() < usize::MAX,
    ensures
        #[trigger] plan_ok(with_block(c)),
{
    lemma_push_in_order(c.insts, IrInst::AppendBlock { block: c.next_block as usize });
}

/// Moving to an appended block keeps a compiler in order.
pub broadcast proof fn lemma_at_block_in_order(c: CompilerModel, b: nat)
    requires
        plan_ok(c),
        c.insts.len() < usize::MAX,
        b < c.next_block,
    ensures
        #[trigger] plan_ok(at_block(c, b)),
{
    lemma_push_in_order(c.insts, IrInst::PositionAt { block: b as usize });
}

pub broadcast group group_plan_steps {
    lemma_with_value_in_order,
    lemma_with_inst_in_order,
    lemma_with_block_in_order,
    lemma_at_block_in_order,
}

/// What every step of compiling keeps: the instructions only grow, the
/// block numbers too, and a compiler in order that builds in an appended
/// block stays so, as long as the instructions fit in `usize`.
pub open spec fn step_keeps_order(c: CompilerModel, c2: CompilerModel) -> bool {
    &&& c.insts.len() <= c2.insts.len()
    &&& c.next_value <= c2.next_value
    &&& c.next_block <= c2.next_block
    &&& building(c) && c2.insts.len() <= usize::MAX ==> building(c2)
}

proof fn lemma_variable_to_head_in_order(c: CompilerModel, info: InfoModel, v: VariableNode)
    ensures
        ({
            let (c2, r) = spec_variable_to_head(c, info, v);
            &&& step_keeps_order(c, c2)
            &&& c2.next_block == c.next_block
            &&& c2.current_block == c.current_block
            &&& (r matches Ok(h) ==> h < c2.next_value)
        }),
{
    broadcast use group_plan_steps;

}

proof fn lemma_load_variable_in_order(c: CompilerModel, info: InfoModel, v: VariableNode)
    ensures
        ({
            let (c2, r) = spec_load_variable(c, info, v);
            &&& step_keeps_order(c, c2)
            &&& c2.next_block == c.next_block
            &&& c2.current_block == c.current_block
            &&& (r matches Ok(x) ==> x < c2.next_value)
        }),
{
    broadcast use group_plan_steps;

    lemma_variable_to_head_in_order(c, info, v);
}

proof fn lemma_assignment_in_order(c: CompilerModel, info: InfoModel, a: AssignNode)
    ensures
        ({
            let (c2, r) = spec_compile_assignment(c, info, a);
            &&& step_keeps_order(c, c2)
            &&& c2.next_block == c.next_block
            &&& c2.current_block == c.current_block
        }),
{
    broadcast use group_plan_steps;

    let (op, kind) = assign_parts(a);
    match op.lvalue {
        LValueNode::Variable(v) => lemma_variable_to_head_in_order(c, info, v),
        LValueNode::Head(_) => {},
    }
}

proof fn lemma_statement_in_order(c: CompilerModel, info: InfoModel, s: StatementNode)
    ensures
        ({
            let (c2, r) = spec_compile_statement(c, info, s);
            &&& step_keeps_order(c, c2)
            &&& c2.next_block == c.next_block
            &&& c2.current_block == c.current_block
        }),
{
    broadcast use group_plan_steps;

    match s {
        StatementNode::Assign(a) => lemma_assignment_in_order(c, info, a),
        StatementNode::Put(p) => lemma_load_variable_in_order(c, info, p.character),
    }
}

proof fn lemma_while_start_in_order(c: CompilerModel, info: InfoModel, cond: VariableNode)
    ensures
        ({
            let (c2, r) = spec_while_start(c, info, cond);
            &&& step_keeps_order(c, c2)
            &&& (r matches Ok((start, next)) ==> start == c.current_block && next < c2.next_block)
        }),
{
    broadcast use group_plan_steps;

    lemma_load_variable_in_order(c, info, cond);
}

proof fn lemma_while_in_order(
    c: CompilerModel,
    info: InfoModel,
    cond: VariableNode,
    content: Seq<NodeModel>,
)
    ensures
        ({
            let (c2, r) = spec_compile_while(c, info, cond, content);
            step_keeps_order(c, c2)
        }),
    decreases content, 1nat,
{
    broadcast use group_plan_steps;

    lemma_while_start_in_order(c, info, cond);
    let (c1, r) = spec_while_start(c, info, cond);
    if let Ok((start, next)) = r {
        lemma_nodes_in_order(c1, info, content);
    }
}

proof fn lemma_node_in_order(c: CompilerModel, info: InfoModel, n: NodeModel)
    ensures
        ({
            let (c2, r) = spec_compile_node(c, info, n);
            step_keeps_order(c, c2)
        }),
    decreases n, 0nat,
{
    match n {
        NodeModel::Statement(s) => lemma_statement_in_order(c, info, s),
        NodeModel::While(cond, content) => lemma_while_in_order(c, info, cond, content),
    }
}

proof fn lemma_nodes_in_order(c: CompilerModel, info: InfoModel, nodes: Seq<NodeModel>)
    ensures
        ({
            let (c2, r) = spec_compile_nodes(c, info, nodes);
            step_keeps_order(c, c2)
        }),
    decreases nodes, 0nat,
{
    if nodes.len() > 0 {
        lemma_node_in_order(c, info, nodes[0]);
        let (c1, r) = spec_compile_node(c, info, nodes[0]);
        if r is Ok {
            lemma_nodes_in_order(c1, info, nodes.drop_first());
        }
    }
}

/// Compiling a program that succeeds gives instructions in which every
/// value an instruction reads was made by an instruction before it, values
/// and blocks are numbered in the order they are made, every block that an
/// instruction names was appended before it, and the last two instructions
/// free the tape and return 0.
pub proof fn law_compiled_plan_in_order(ast: Seq<NodeModel>, info: InfoModel)
    requires
        spec_compile_program(ast, info) is Ok,
        spec_compile_program(ast, info)->Ok_0.len() <= usize::MAX,
    ensures
        ({
            let insts = spec_compile_program(ast, info)->Ok_0;
            &&& plan_in_order(insts)
            &&& insts.len() >= 2
            &&& insts[insts.len() - 2] == IrInst::FreeTape
            &&& insts[insts.len() - 1] == IrInst::Return0
        }),
{
    broadcast use group_plan_steps;

    let c0 = fresh_compiler();
    assert(plan_ok(c0)) by {
        reveal_with_fuel(values_made, 1);
        reveal_with_fuel(blocks_made, 1);
    }
    let c1 = spec_compiling_init(c0, info);
    lemma_nodes_in_order(c1, info, ast);
    let (c2, r) = spec_compile_nodes(c1, info, ast);
    let c3 = spec_compiling_finish(c2);
    assert(plan_ok(c3));
}

/// Law: setting the head for a variable reads or writes the head as the
/// variable asks. A head-relative variable loads the head (and writes
/// nothing); a static one writes its cell index, as a constant, to the
/// head. Either way the value handed back is the head position made by that
/// instruction; a static variable without a cell after renumbering is
/// refused with nothing emitted.
pub proof fn law_variable_sets_or_reads_head(c: CompilerModel, info: InfoModel, v: VariableNode)
    ensures
        ({
            let (c2, r) = spec_variable_to_head(c, info, v);
            let h = c.next_value;
            match v {
                VariableNode::Dynamic(_) => {
                    &&& r == Ok::<nat, crate::compile::compiler::CompileError>(h)
                    &&& c2.insts == c.insts.push(
                        IrInst::Load { dst: h as usize, ty: IntTy::Head, place: IrPlace::Head },
                    )
                },
                VariableNode::Static(s) => match actual_index(info, s.index) {
                    Some(i) => {
                        &&& r == Ok::<nat, crate::compile::compiler::CompileError>(h)
                        &&& c2.insts == c.insts.push(
                            IrInst::Const { dst: h as usize, ty: IntTy::Head, value: i as u64 },
                        ).push(IrInst::Store { place: IrPlace::Head, value: h as usize })
                    },
                    None => r is Err && c2.insts == c.insts,
                },
            }
        }),
{
}

/// Law: a variable is read through a pointer taken at the head position
/// that the variable set or read: the last two instructions are the
/// pointer into the tape at that position and a cell load through it, and
/// the value read is that load's.
pub proof fn law_variable_read_at_head(c: CompilerModel, info: InfoModel, v: VariableNode)
    ensures
        ({
            let (c1, r1) = spec_variable_to_head(c, info, v);
            let (c2, r) = spec_load_variable(c, info, v);
            r1 matches Ok(h) ==> {
                let m = c2.insts.len();
                &&& m == c1.insts.len() + 2
                &&& c2.insts.take(c1.insts.len() as int) == c1.insts
                &&& c2.insts[m - 2] == IrInst::CellPtr { dst: c1.next_value as usize, index: h as usize }
                &&& c2.insts[m - 1] == IrInst::Load {
                    dst: (c1.next_value + 1) as usize,
                    ty: IntTy::Cell,
                    place: IrPlace::Cell(c1.next_value as usize),
                }
                &&& r == Ok::<nat, crate::compile::compiler::CompileError>(c1.next_value + 1)
            }
        }),
{
    let (c1, r1) = spec_variable_to_head(c, info, v);
    let (c2, r) = spec_load_variable(c, info, v);
    if r1 is Ok {
        assert(c2.insts.take(c1.insts.len() as int) =~= c1.insts);
    }
}

/// The type and place that an assignment to `lvalue` writes: the head
/// (type `Head`), or a tape cell through a pointer (type `Cell`).
pub open spec fn writes_to(lvalue: LValueNode, ty: IntTy, place: IrPlace) -> bool {
    match lvalue {
        LValueNode::Head(_) => ty == IntTy::Head && place == IrPlace::Head,
        LValueNode::Variable(_) => ty == IntTy::Cell && place is Cell,
    }
}

/// `inst` makes value `x` from the right side `rvalue` at type `ty`: the
/// literal as a constant, or the character read, cut to a cell.
pub open spec fn makes_right_side(inst: IrInst, x: usize, rvalue: RValueNode, ty: IntTy) -> bool {
    match rvalue {
        RValueNode::Number(n) => inst == IrInst::Const { dst: x, ty, value: n.value as u64 },
        RValueNode::Get(_) => inst matches IrInst::Truncate { dst, .. } && dst == x,
    }
}

/// Law: an assignment ends by storing into what its left side names. `=`
/// stores the right side itself; `+=` loads the old value from the same
/// place, adds the right side to it and stores the sum; `-=` subtracts it
/// instead. This holds for the head and for cells alike.
pub proof fn law_assignment_updates_its_target(
    c: CompilerModel,
    info: InfoModel,
    a: AssignNode,
)
    ensures
        ({
            let (c2, r) = spec_compile_assignment(c, info, a);
            let (op, kind) = assign_parts(a);
            let m = c2.insts.len();
            r is Ok ==> {
                &&& m >= c.insts.len() + 2
                &&& c2.insts[m - 1] matches IrInst::Store { place, value: res }
                &&& if kind == 0 {
                    &&& exists|ty: IntTy| writes_to(op.lvalue, ty, place) && makes_right_side(
                        c2.insts[m - 2],
                        res,
                        op.rvalue,
                        ty,
                    )
                } else {
                    &&& m >= c.insts.len() + 4
                    &&& c2.insts[m - 3] matches IrInst::Load { dst: old, ty, place: from }
                    &&& from == place
                    &&& writes_to(op.lvalue, ty, place)
                    &&& if kind == 1 {
                        c2.insts[m - 2] matches IrInst::Add { dst, lhs, rhs } && dst == res && lhs
                            == old && makes_right_side(c2.insts[m - 4], rhs, op.rvalue, ty)
                    } else {
                        c2.insts[m - 2] matches IrInst::Sub { dst, lhs, rhs } && dst == res && lhs
                            == old && makes_right_side(c2.insts[m - 4], rhs, op.rvalue, ty)
                    }
                }
            }
        }),
{
    let (c2, r) = spec_compile_assignment(c, info, a);
    let (op, kind) = assign_parts(a);
    if r is Ok && kind == 0 {
        let m = c2.insts.len();
        let ty = match op.lvalue {
            LValueNode::Head(_) => IntTy::Head,
            LValueNode::Variable(_) => IntTy::Cell,
        };
        if let IrInst::Store { place, value: res } = c2.insts[m - 1] {
            assert(writes_to(op.lvalue, ty, place) && makes_right_side(
                c2.insts[m - 2],
                res,
                op.rvalue,
                ty,
            ));
        }
    }
}

/// Law: `put(v)` writes the character that the read of `v` gave: after
/// the read it widens that value to the type of `putchar`'s argument and
/// passes it to `putchar`, and does nothing else.
pub proof fn law_put_writes_read_value(c: CompilerModel, info: InfoModel, v: VariableNode)
    ensures
        ({
            let (c1, r1) = spec_load_variable(c, info, v);
            let (c2, r) = spec_compile_put(c, info, v);
            match r1 {
                Ok(x) => {
                    &&& r is Ok
                    &&& c2.insts == c1.insts.push(
                        IrInst::ZeroExtend { dst: c1.next_value as usize, value: x as usize },
                    ).push(IrInst::CallPutchar { value: c1.next_value as usize })
                },
                Err(e) => r == Err::<(), crate::compile::compiler::CompileError>(e),
            }
        }),
{
}

} // verus!
