//! The shader IR arena: arity accounting and table formatting.
use dtensor::ir::{ShaderIR, ShaderIREvaluation, ShaderIRGraph, ShaderIROp, ShaderIRType};

#[test]
fn arity_of_evaluation_tags() {
    assert_eq!(ShaderIREvaluation::F32Bits(0).n_dependencies(), 0);
    assert_eq!(ShaderIREvaluation::I32(-3).n_dependencies(), 0);
    assert_eq!(ShaderIREvaluation::SQRT.n_dependencies(), 1);
    assert_eq!(ShaderIREvaluation::IDENTITY.n_dependencies(), 1);
    assert_eq!(ShaderIREvaluation::ADD.n_dependencies(), 2);
    assert_eq!(ShaderIREvaluation::LESSTHAN.n_dependencies(), 2);
}

#[test]
fn build_nodes_and_read_back() {
    let mut g = ShaderIRGraph::new();
    let c = ShaderIR::new(
        &mut g,
        ShaderIROp::Const,
        ShaderIRType::F32,
        &vec![],
        Some(ShaderIREvaluation::F32Bits(1.0f32.to_bits())),
    );
    let load = ShaderIR::new(&mut g, ShaderIROp::Load, ShaderIRType::F32, &vec![], None);
    let sum = ShaderIR::new(
        &mut g,
        ShaderIROp::Evaluate,
        ShaderIRType::F32,
        &vec![c, load],
        Some(ShaderIREvaluation::ADD),
    );
    assert_eq!(c.id(), 0);
    assert_eq!(load.id(), 1);
    assert_eq!(sum.id(), 2);
    assert_eq!(g.len(), 3);
    assert!(matches!(sum.op(&g), ShaderIROp::Evaluate));
    assert!(matches!(sum.datatype(&g), ShaderIRType::F32));
    assert_eq!(sum.evaltype(&g), Some(ShaderIREvaluation::ADD));
    let deps = sum.dependencies(&g);
    assert_eq!(deps.len(), 2);
    assert_eq!(deps[0].id(), 0);
    assert_eq!(deps[1].id(), 1);
    assert_eq!(c.inputs(&g).len(), 0);
}

#[test]
fn line_format_matches_columns() {
    let mut g = ShaderIRGraph::new();
    let c = ShaderIR::new(
        &mut g,
        ShaderIROp::Const,
        ShaderIRType::F32,
        &vec![],
        Some(ShaderIREvaluation::F32Bits(1.0f32.to_bits())),
    );
    let expected = format!(
        "{:<8} {:<16} {:<4} {:<16} {}",
        "0",
        "Const",
        "F32",
        "[]",
        format!("F32Bits({})", 1.0f32.to_bits())
    );
    assert_eq!(c.line_text(&g), expected);
}

#[test]
fn literal_joins_lines_in_topological_order() {
    let mut g = ShaderIRGraph::new();
    let a = ShaderIR::new(&mut g, ShaderIROp::Load, ShaderIRType::I32, &vec![], None);
    let b = ShaderIR::new(
        &mut g,
        ShaderIROp::Evaluate,
        ShaderIRType::I32,
        &vec![a],
        Some(ShaderIREvaluation::ABS),
    );
    let text = b.literal(&g);
    let lines: Vec<&str> = text.split('\n').collect();
    assert_eq!(lines.len(), 2);
    assert_eq!(
        lines[0],
        format!("{:<8} {:<16} {:<4} {:<16} ", "0", "Load", "I32", "[]")
    );
    assert_eq!(
        lines[1],
        format!("{:<8} {:<16} {:<4} {:<16} {}", "1", "Evaluate", "I32", "[0]", "ABS")
    );
}

#[test]
fn negative_literal_text() {
    let mut g = ShaderIRGraph::new();
    let c = ShaderIR::new(
        &mut g,
        ShaderIROp::Const,
        ShaderIRType::I32,
        &vec![],
        Some(ShaderIREvaluation::I32(-17)),
    );
    let line = c.line_text(&g);
    assert!(line.ends_with("I32(-17)"));
}

#[test]
fn literal_lists_only_reachable_nodes() {
    let mut g = ShaderIRGraph::new();
    let a = ShaderIR::new(&mut g, ShaderIROp::Load, ShaderIRType::F32, &vec![], None);
    // An unrelated node: never an input of the root, so not listed.
    let _stray = ShaderIR::new(&mut g, ShaderIROp::Load, ShaderIRType::I32, &vec![], None);
    let b = ShaderIR::new(
        &mut g,
        ShaderIROp::Evaluate,
        ShaderIRType::F32,
        &vec![a],
        Some(ShaderIREvaluation::SQRT),
    );
    let text = b.literal(&g);
    let lines: Vec<&str> = text.split('\n').collect();
    assert_eq!(lines.len(), 2);
    assert!(lines[0].starts_with("0 "));
    assert!(lines[1].starts_with("2 "));
    assert!(!text.contains("\n1 "));

    let order = b.linearize(&g);
    let ids: Vec<u64> = order.iter().map(|n| n.id()).collect();
    assert_eq!(ids, vec![0, 2]);
}
