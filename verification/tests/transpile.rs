use std::collections::HashMap;

use brain_massage::lex::lex;
use brain_massage::parse::{AST, parse};
use brain_massage::sem::{SemanticInfo, sem};
use brain_massage::transpile::{
    BFToken, TranspileError, TranspileFailure, TranspileOptimizationOptions, Transpiler,
    bf_token_char, compaction_map, transpile, transpile_checked, transpile_with_opt_struct,
    transpile_with_opts,
};

fn program(code: &str) -> AST {
    parse(&lex(code).unwrap()).unwrap()
}

fn info(tape_len: usize, first_cur_dyn_var_only: usize) -> SemanticInfo {
    SemanticInfo {
        tape_len,
        var_map: HashMap::new(),
        var_map_compressed: false,
        first_cur_dyn_var_only,
        warn_big_index: false,
        warn_big_literal: false,
    }
}

fn analyzed(code: &str) -> (AST, SemanticInfo) {
    let mut ast = program(code);
    let info = sem(&mut ast, 256).unwrap();
    (ast, info)
}

#[test]
fn transpile_literal_without_number_compaction() {
    let (ast, info) = analyzed("v0 = 3\nput(v0)");
    assert_eq!(transpile_with_opts(&ast, &info, false, true).unwrap(), "[-]+++.");
}

#[test]
fn transpile_moves_head_to_static_variable() {
    let (ast, info) = analyzed("v2 += 1");
    assert_eq!(transpile_with_opts(&ast, &info, false, true).unwrap(), ">>+");
}

#[test]
fn transpile_loop() {
    let (ast, info) = analyzed("v0 = 1\nwhile (v0) { v0 -= 1 }");
    assert_eq!(transpile_with_opts(&ast, &info, false, true).unwrap(), "[-]+[-]");
}

#[test]
fn transpile_input_and_output() {
    let (ast, info) = analyzed("v1 = get()\nput(v1)");
    assert_eq!(transpile_with_opts(&ast, &info, false, false).unwrap(), ">,.");
}

#[test]
fn transpile_head_moves_round_the_tape() {
    let ast = program("head -= 1");
    assert_eq!(transpile(&ast, &info(4, 1)).unwrap(), ">>>");
}

#[test]
fn transpile_head_moves_straight_without_compaction() {
    let ast = program("head += 2\nhead -= 1");
    assert_eq!(transpile_with_opts(&ast, &info(4, 2), false, false).unwrap(), ">><");
}

#[test]
fn transpile_default_options_stop_at_a_literal() {
    let ast = program("v0 = 1");
    let opts = TranspileOptimizationOptions::default();
    assert_eq!(transpile_checked(&ast, &info(256, 1), &opts).err(), Some(TranspileFailure::Abort));
}

#[test]
fn transpile_checked_agrees_on_success() {
    let (ast, info) = analyzed("v1 -= 2");
    let opts = TranspileOptimizationOptions { number_compaction: false, head_move_around_compaction: true };
    assert_eq!(transpile_checked(&ast, &info, &opts).unwrap(), ">--");
    assert_eq!(transpile_with_opt_struct(&ast, &info, &opts).unwrap(), ">--");
}

#[test]
fn transpile_input_errors() {
    let opts = TranspileOptimizationOptions { number_compaction: false, head_move_around_compaction: true };
    let ast = program("head = get()");
    assert_eq!(
        transpile_with_opt_struct(&ast, &info(256, 1), &opts).err(),
        Some(TranspileError::InputToHead)
    );
    let ast = program("v0 += get()");
    assert_eq!(
        transpile_with_opt_struct(&ast, &info(256, 1), &opts).err(),
        Some(TranspileError::AddInput)
    );
    let ast = program("v0 -= get()");
    assert_eq!(
        transpile_with_opt_struct(&ast, &info(256, 1), &opts).err(),
        Some(TranspileError::SubInput)
    );
}

#[test]
fn transpile_static_variable_where_head_is_unknown() {
    let ast = program("put(v0)");
    assert_eq!(
        transpile_with_opts(&ast, &info(256, 0), false, true).err(),
        Some(TranspileError::StaticVariableAfterHeadMove)
    );
}

#[test]
fn transpile_loop_that_moves_head_after_rewritten_condition() {
    let (ast, info) = analyzed("while (vhead) { head += 1 }");
    assert_eq!(
        transpile_with_opts(&ast, &info, false, true).err(),
        Some(TranspileError::StaticVariableAfterHeadMove)
    );
}

#[test]
fn transpile_broken_and_working_var_map() {
    let ast = program("put(v5)");
    let mut broken = info(256, 1);
    broken.var_map_compressed = true;
    assert_eq!(
        transpile_with_opts(&ast, &broken, false, true).err(),
        Some(TranspileError::BrokenVarMap)
    );
    let mut mapped = info(256, 1);
    mapped.var_map_compressed = true;
    mapped.var_map.insert(5, 1);
    assert_eq!(transpile_with_opts(&ast, &mapped, false, true).unwrap(), ">.");
}

#[test]
fn transpiler_gives_tokens() {
    let (ast, info) = analyzed("v1 = get()");
    let opts = TranspileOptimizationOptions { number_compaction: false, head_move_around_compaction: false };
    let tokens = Transpiler::new(&ast, &info, &opts).transpile().unwrap();
    assert_eq!(tokens, vec![BFToken::NXT, BFToken::GET]);
}

#[test]
fn transpile_output_is_well_bracketed() {
    let (ast, info) = analyzed("v0 = 2\nwhile (v0) { v0 -= 1\nwhile (v1) { v1 -= 1 } }");
    let text = transpile_with_opts(&ast, &info, false, true).unwrap();
    let mut depth: i64 = 0;
    for c in text.chars() {
        if c == '[' {
            depth += 1;
        } else if c == ']' {
            depth -= 1;
        }
        assert!(depth >= 0);
    }
    assert_eq!(depth, 0);
}

#[test]
fn bf_token_chars() {
    let all = [
        (BFToken::INC, '+'),
        (BFToken::DEC, '-'),
        (BFToken::NXT, '>'),
        (BFToken::PRV, '<'),
        (BFToken::GET, ','),
        (BFToken::PUT, '.'),
        (BFToken::OPN, '['),
        (BFToken::CLS, ']'),
    ];
    for (t, c) in all {
        assert_eq!(bf_token_char(&t), c);
    }
}

#[test]
fn compaction_map_values() {
    assert_eq!(compaction_map(0), (vec![0], 0));
    assert_eq!(compaction_map(1), (vec![1], 0));
    assert_eq!(compaction_map(12), (vec![12], 0));
    assert_eq!(compaction_map(16), (vec![4, 4], 0));
    assert_eq!(compaction_map(50), (vec![5, 10], 0));
    assert_eq!(compaction_map(64), (vec![8, 8], 0));
    assert_eq!(compaction_map(100), (vec![10, 10], 0));
    assert_eq!(compaction_map(127), (vec![5, 5, 5], 2));
    assert_eq!(compaction_map(200), (vec![5, 5, 8], 0));
    assert_eq!(compaction_map(255), (vec![6, 6, 7], 3));
    assert_eq!(compaction_map(256), (vec![256], 0));
    assert_eq!(compaction_map(1000), (vec![1000], 0));
}

#[test]
fn compaction_map_rebuilds_every_value() {
    for v in 0..300usize {
        let (factors, offset) = compaction_map(v);
        let product: usize = factors.iter().product();
        assert_eq!(product as isize + offset, v as isize);
    }
}

#[test]
fn transpile_text_is_translator_tokens() {
    let (ast, info) = analyzed("v1 = get()\nwhile (v1) { v1 -= 1\nv0 += 2 }\nput(v0)");
    let opts = TranspileOptimizationOptions { number_compaction: false, head_move_around_compaction: true };
    let text = transpile_with_opt_struct(&ast, &info, &opts).unwrap();
    let tokens = Transpiler::new(&ast, &info, &opts).transpile().unwrap();
    let chars: String = tokens.iter().map(bf_token_char).collect();
    assert_eq!(text, chars);
    let ast = program("head = get()");
    let plain = info.clone();
    assert_eq!(
        transpile_with_opt_struct(&ast, &plain, &opts).err(),
        Transpiler::new(&ast, &plain, &opts).transpile().err()
    );
}
