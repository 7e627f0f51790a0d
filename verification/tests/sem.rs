use brain_massage::lex::lex;
use brain_massage::parse::{
    AST, AssignNode, AssignNodeOperand, DynamicVariableNode, LValueNode, NumberNode, RValueNode,
    StatementNode, StaticVariableNode, TopLevelNode, VariableNode, WhileNode, parse,
};
use brain_massage::sem::{
    SemError, SemFailure, SemOptimizationOptions, Semer, sem, sem_checked, sem_with_opt_struct,
    sem_with_opts,
};

fn program(code: &str) -> AST {
    parse(&lex(code).unwrap()).unwrap()
}

fn assign(lvalue: LValueNode, value: usize) -> AssignNodeOperand {
    AssignNodeOperand { lvalue, rvalue: RValueNode::Number(NumberNode { value }) }
}

fn stat_var(index: usize) -> LValueNode {
    LValueNode::Variable(VariableNode::Static(StaticVariableNode { index }))
}

#[test]
fn sem_rewrites_head_relative_variable_where_head_is_known() {
    let mut ast = program("head = 3\nvhead = 1");
    let info = sem(&mut ast, 256).unwrap();
    assert_eq!(
        ast.root[1],
        TopLevelNode::Statement(StatementNode::Assign(AssignNode::Simple(assign(stat_var(3), 1))))
    );
    assert_eq!(info.tape_len, 256);
    assert_eq!(info.first_cur_dyn_var_only, 2);
    assert!(!info.var_map_compressed);
    assert!(info.var_map.is_empty());
    assert!(!info.warn_big_index);
    assert!(!info.warn_big_literal);
}

#[test]
fn sem_loop_condition_is_rewritten_but_not_its_body() {
    let mut ast = program("while (vhead) { vhead -= 1 }");
    let info = sem(&mut ast, 256).unwrap();
    let expected = TopLevelNode::While(WhileNode {
        condition: VariableNode::Static(StaticVariableNode { index: 0 }),
        content: vec![TopLevelNode::Statement(StatementNode::Assign(AssignNode::Sub(assign(
            LValueNode::Variable(VariableNode::Dynamic(DynamicVariableNode)),
            1,
        ))))],
    });
    assert_eq!(ast.root, vec![expected]);
    assert_eq!(info.first_cur_dyn_var_only, 1);
}

#[test]
fn sem_static_variable_after_head_move_in_loop() {
    let mut ast = program("while (v0) { head += 1 }\nput(v1)");
    assert_eq!(sem(&mut ast, 256).err(), Some(SemError::StaticVariableAfterHeadMove));
}

#[test]
fn sem_too_many_static_variables() {
    let mut ast = program("v0 = 1\nv1 = 1");
    assert_eq!(sem(&mut ast, 1).err(), Some(SemError::TooManyStaticVariables));
}

#[test]
fn sem_input_errors() {
    let mut ast = program("head = get()");
    assert_eq!(sem(&mut ast, 256).err(), Some(SemError::InputToHead));
    let mut ast = program("v0 += get()");
    assert_eq!(sem(&mut ast, 256).err(), Some(SemError::AddInput));
    let mut ast = program("v0 -= get()");
    assert_eq!(sem(&mut ast, 256).err(), Some(SemError::SubInput));
}

#[test]
fn sem_big_head_literal_is_rounded_and_warned() {
    let mut ast = program("head = 300\nvhead = 1");
    let info = sem(&mut ast, 256).unwrap();
    assert!(info.warn_big_literal);
    assert!(!info.warn_big_index);
    assert_eq!(
        ast.root,
        vec![
            TopLevelNode::Statement(StatementNode::Assign(AssignNode::Simple(assign(
                LValueNode::Head(brain_massage::parse::HeadNode),
                44,
            )))),
            TopLevelNode::Statement(StatementNode::Assign(AssignNode::Simple(assign(
                stat_var(44),
                1,
            )))),
        ]
    );
}

#[test]
fn sem_big_literal_kept_without_rounding() {
    let mut ast = program("head = 300");
    let info = sem_with_opts(&mut ast, 4096, true, false, false).unwrap();
    assert!(info.warn_big_literal);
    assert_eq!(
        ast.root,
        vec![TopLevelNode::Statement(StatementNode::Assign(AssignNode::Simple(assign(
            LValueNode::Head(brain_massage::parse::HeadNode),
            300,
        ))))]
    );
}

#[test]
fn sem_round_var_index_wraps_around_tape() {
    let mut ast = program("v300 = 1");
    let info = sem_with_opts(&mut ast, 256, false, true, false).unwrap();
    assert!(info.warn_big_index);
    assert_eq!(
        ast.root,
        vec![TopLevelNode::Statement(StatementNode::Assign(AssignNode::Simple(assign(
            stat_var(44),
            1,
        ))))]
    );
}

#[test]
fn sem_fresh_analysis_never_renumbers() {
    let mut ast = program("v0 = 1\nv100 = 2\nv7 = 3");
    let opts = SemOptimizationOptions {
        compress_var_map: true,
        round_var_index: false,
        round_num_literal: true,
    };
    let info = sem_with_opt_struct(&mut ast, 256, &opts).unwrap();
    assert!(!info.var_map_compressed);
    assert!(info.var_map.is_empty());
}

#[test]
fn sem_checked_reports_head_below_zero() {
    let mut ast = program("head -= 1");
    let r = sem_checked(&mut ast, 256, &SemOptimizationOptions::default());
    assert_eq!(r.err(), Some(SemFailure::Abort));
}

#[test]
fn sem_checked_reports_rounding_on_empty_tape() {
    let mut ast = program("v0 = 1");
    let opts = SemOptimizationOptions {
        compress_var_map: false,
        round_var_index: true,
        round_num_literal: false,
    };
    assert_eq!(sem_checked(&mut ast, 0, &opts).err(), Some(SemFailure::Abort));
}

#[test]
fn sem_checked_passes_errors_through() {
    let mut ast = program("head = get()");
    let r = sem_checked(&mut ast, 256, &SemOptimizationOptions::default());
    assert_eq!(r.err(), Some(SemFailure::Error(SemError::InputToHead)));
}

#[test]
fn semer_analyzes_like_the_free_function() {
    let opts = SemOptimizationOptions::default();
    let mut ast = program("head += 2\nput(vhead)");
    let info = Semer::new(64, &opts).sem(&mut ast).unwrap();
    assert_eq!(info.tape_len, 64);
    assert_eq!(
        ast.root[1],
        TopLevelNode::Statement(StatementNode::Put(brain_massage::parse::PutNode {
            character: VariableNode::Static(StaticVariableNode { index: 2 }),
        }))
    );
}

#[test]
fn semer_reused_after_failure_in_loop_renumbers() {
    let opts = SemOptimizationOptions::default();
    let mut semer = Semer::new(256, &opts);
    let mut first = program("while (v0) { v1 += get() }");
    assert_eq!(semer.sem(&mut first).err(), Some(SemError::AddInput));
    let mut second = program("v5 = 1\nv9 = 2");
    let info = semer.sem(&mut second).unwrap();
    assert!(info.var_map_compressed);
    let mut pairs: Vec<(usize, usize)> = info.var_map.iter().map(|(k, v)| (*k, *v)).collect();
    pairs.sort();
    assert_eq!(pairs, vec![(0, 0), (5, 1), (9, 2)]);
}

#[test]
fn sem_analysing_again_changes_nothing() {
    let opts = SemOptimizationOptions::default();
    let mut ast = program("head = 3\nvhead = 1\nhead += 2\nput(vhead)\nwhile (vhead) { vhead -= 1 }");
    Semer::new(256, &opts).sem(&mut ast).unwrap();
    let once = program("head = 3\nvhead = 1\nhead += 2\nput(vhead)\nwhile (vhead) { vhead -= 1 }");
    let mut once = once;
    Semer::new(256, &opts).sem(&mut once).unwrap();
    Semer::new(256, &opts).sem(&mut ast).unwrap();
    assert_eq!(ast, once);

    let rounding = SemOptimizationOptions {
        compress_var_map: false,
        round_var_index: true,
        round_num_literal: true,
    };
    let mut ast = program("v300 = 1\nhead = 300\nvhead += 1");
    Semer::new(256, &rounding).sem(&mut ast).unwrap();
    let first = format!("{:?}", ast);
    Semer::new(256, &rounding).sem(&mut ast).unwrap();
    assert_eq!(format!("{:?}", ast), first);
}

#[test]
fn sem_is_analysis_with_default_options() {
    let code = "head = 300\nvhead = 1\nv7 += 2";
    let mut a = program(code);
    let mut b = program(code);
    let ia = sem(&mut a, 256).unwrap();
    let opts = SemOptimizationOptions {
        compress_var_map: true,
        round_var_index: false,
        round_num_literal: true,
    };
    let ib = sem_with_opt_struct(&mut b, 256, &opts).unwrap();
    assert_eq!(a, b);
    assert_eq!(ia.first_cur_dyn_var_only, ib.first_cur_dyn_var_only);
    assert_eq!(ia.warn_big_literal, ib.warn_big_literal);
    assert_eq!(ia.warn_big_index, ib.warn_big_index);
    assert_eq!(ia.var_map_compressed, ib.var_map_compressed);
}
