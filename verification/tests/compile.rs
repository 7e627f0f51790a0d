use std::collections::HashMap;

use brain_massage::compile::{CompileError, Compiler, IntTy, IrInst, IrPlace};
use brain_massage::lex::lex;
use brain_massage::parse::{AST, parse};
use brain_massage::sem::{SemanticInfo, sem};

fn analyzed(code: &str) -> (AST, SemanticInfo) {
    let mut ast = parse(&lex(code).unwrap()).unwrap();
    let info = sem(&mut ast, 256).unwrap();
    (ast, info)
}

fn prologue() -> Vec<IrInst> {
    vec![
        IrInst::AppendBlock { block: 0 },
        IrInst::PositionAt { block: 0 },
        IrInst::MallocTape { len: 256 },
        IrInst::AllocHead,
        IrInst::Const { dst: 0, ty: IntTy::Head, value: 0 },
        IrInst::Store { place: IrPlace::Head, value: 0 },
        IrInst::AppendBlock { block: 1 },
        IrInst::Branch { target: 1 },
        IrInst::PositionAt { block: 1 },
    ]
}

#[test]
fn compile_empty_program() {
    let (ast, info) = analyzed("");
    let insts = Compiler::new().compile(&ast, &info).unwrap();
    let mut expected = prologue();
    expected.push(IrInst::FreeTape);
    expected.push(IrInst::Return0);
    assert_eq!(insts, expected);
}

#[test]
fn compile_assignment_and_output() {
    let (ast, info) = analyzed("v1 = 2\nput(v1)");
    let insts = Compiler::new().compile(&ast, &info).unwrap();
    let mut expected = prologue();
    expected.extend([
        IrInst::Const { dst: 1, ty: IntTy::Head, value: 1 },
        IrInst::Store { place: IrPlace::Head, value: 1 },
        IrInst::CellPtr { dst: 2, index: 1 },
        IrInst::Const { dst: 3, ty: IntTy::Cell, value: 2 },
        IrInst::Store { place: IrPlace::Cell(2), value: 3 },
        IrInst::Const { dst: 4, ty: IntTy::Head, value: 1 },
        IrInst::Store { place: IrPlace::Head, value: 4 },
        IrInst::CellPtr { dst: 5, index: 4 },
        IrInst::Load { dst: 6, ty: IntTy::Cell, place: IrPlace::Cell(5) },
        IrInst::ZeroExtend { dst: 7, value: 6 },
        IrInst::CallPutchar { value: 7 },
        IrInst::FreeTape,
        IrInst::Return0,
    ]);
    assert_eq!(insts, expected);
}

#[test]
fn compile_loop() {
    let (ast, info) = analyzed("while (v0) { v0 -= 1 }");
    let insts = Compiler::new().compile(&ast, &info).unwrap();
    let mut expected = prologue();
    expected.extend([
        IrInst::Const { dst: 1, ty: IntTy::Head, value: 0 },
        IrInst::Store { place: IrPlace::Head, value: 1 },
        IrInst::CellPtr { dst: 2, index: 1 },
        IrInst::Load { dst: 3, ty: IntTy::Cell, place: IrPlace::Cell(2) },
        IrInst::IsNonZero { dst: 4, value: 3 },
        IrInst::AppendBlock { block: 2 },
        IrInst::AppendBlock { block: 3 },
        IrInst::CondBranch { cond: 4, then_block: 2, else_block: 3 },
        IrInst::PositionAt { block: 2 },
        IrInst::Const { dst: 5, ty: IntTy::Head, value: 0 },
        IrInst::Store { place: IrPlace::Head, value: 5 },
        IrInst::CellPtr { dst: 6, index: 5 },
        IrInst::Const { dst: 7, ty: IntTy::Cell, value: 1 },
        IrInst::Load { dst: 8, ty: IntTy::Cell, place: IrPlace::Cell(6) },
        IrInst::Sub { dst: 9, lhs: 8, rhs: 7 },
        IrInst::Store { place: IrPlace::Cell(6), value: 9 },
        IrInst::Branch { target: 1 },
        IrInst::PositionAt { block: 3 },
        IrInst::FreeTape,
        IrInst::Return0,
    ]);
    assert_eq!(insts, expected);
}

#[test]
fn compile_head_and_input() {
    let (ast, info) = analyzed("head += 3\nvhead = get()");
    let insts = Compiler::new().compile(&ast, &info).unwrap();
    let mut expected = prologue();
    expected.extend([
        IrInst::Const { dst: 1, ty: IntTy::Head, value: 3 },
        IrInst::Load { dst: 2, ty: IntTy::Head, place: IrPlace::Head },
        IrInst::Add { dst: 3, lhs: 2, rhs: 1 },
        IrInst::Store { place: IrPlace::Head, value: 3 },
        IrInst::Const { dst: 4, ty: IntTy::Head, value: 3 },
        IrInst::Store { place: IrPlace::Head, value: 4 },
        IrInst::CellPtr { dst: 5, index: 4 },
        IrInst::CallGetchar { dst: 6 },
        IrInst::Truncate { dst: 7, value: 6 },
        IrInst::Store { place: IrPlace::Cell(5), value: 7 },
        IrInst::FreeTape,
        IrInst::Return0,
    ]);
    assert_eq!(insts, expected);
}

#[test]
fn compile_refuses_broken_var_map() {
    let ast = parse(&lex("put(v0)").unwrap()).unwrap();
    let info = SemanticInfo {
        tape_len: 8,
        var_map: HashMap::new(),
        var_map_compressed: true,
        first_cur_dyn_var_only: 1,
        warn_big_index: false,
        warn_big_literal: false,
    };
    assert_eq!(Compiler::new().compile(&ast, &info), Err(CompileError::InvalidCompression));
}

#[test]
fn compile_plan_values_are_defined_before_use() {
    let (ast, info) = analyzed("v0 = 5\nwhile (v0) { v0 -= 1\nput(v0) }\nhead = 2\nvhead += 1");
    let insts = Compiler::new().compile(&ast, &info).unwrap();
    let mut values = 0usize;
    let mut blocks = 0usize;
    for inst in &insts {
        let reads: Vec<usize> = match *inst {
            IrInst::Load { place: IrPlace::Cell(p), .. } => vec![p],
            IrInst::Store { place: IrPlace::Cell(p), value } => vec![p, value],
            IrInst::Store { value, .. } => vec![value],
            IrInst::CellPtr { index, .. } => vec![index],
            IrInst::IsNonZero { value, .. }
            | IrInst::ZeroExtend { value, .. }
            | IrInst::Truncate { value, .. }
            | IrInst::CallPutchar { value } => vec![value],
            IrInst::Add { lhs, rhs, .. } | IrInst::Sub { lhs, rhs, .. } => vec![lhs, rhs],
            IrInst::CondBranch { cond, .. } => vec![cond],
            _ => vec![],
        };
        for r in reads {
            assert!(r < values);
        }
        match *inst {
            IrInst::AppendBlock { block } => {
                assert_eq!(block, blocks);
                blocks += 1;
            }
            IrInst::PositionAt { block } | IrInst::Branch { target: block } => assert!(block < blocks),
            IrInst::CondBranch { then_block, else_block, .. } => {
                assert!(then_block < blocks && else_block < blocks)
            }
            IrInst::Const { dst, .. }
            | IrInst::Load { dst, .. }
            | IrInst::CellPtr { dst, .. }
            | IrInst::IsNonZero { dst, .. }
            | IrInst::ZeroExtend { dst, .. }
            | IrInst::Truncate { dst, .. }
            | IrInst::CallGetchar { dst }
            | IrInst::Add { dst, .. }
            | IrInst::Sub { dst, .. } => {
                assert_eq!(dst, values);
                values += 1;
            }
            _ => {}
        }
    }
    assert_eq!(insts[insts.len() - 2], IrInst::FreeTape);
    assert_eq!(insts[insts.len() - 1], IrInst::Return0);
}
