//! End-to-end evaluation through the pipeline's planning and accounting,
//! with a host-side executor standing in for the GPU: it follows each
//! dispatch plan, using the library's strided index remapping, and applies
//! the arithmetic in 32-bit floats.
use dtensor::graph::{OpSpec, Tensor, TensorGraph, TensorInput};
use dtensor::ops::{BinaryType, ReduceType, UnaryType};
use dtensor::pipeline::{apply_node, input_views, plan_node, EvalState, WebGPUPipeline};
use dtensor::view::mapped_index;

fn bits(data: &[f32]) -> Vec<u32> {
    data.iter().map(|x| x.to_bits()).collect()
}

fn floats_of_bytes(bytes: &[u8]) -> Vec<f32> {
    bytes
        .chunks(4)
        .map(|c| f32::from_bits(u32::from_le_bytes([c[0], c[1], c[2], c[3]])))
        .collect()
}

fn tensor(g: &mut TensorGraph, data: &[f32], shape: &[u32]) -> Tensor {
    Tensor::from_contiguous(g, &bits(data), &shape.to_vec()).unwrap()
}

fn unary_f(op: UnaryType, x: f32) -> f32 {
    match op {
        UnaryType::EXP2 => x.exp2(),
        UnaryType::LOG2 => x.log2(),
        UnaryType::SIN => x.sin(),
        UnaryType::SQRT => x.sqrt(),
        UnaryType::RECIP => 1.0 / x,
        UnaryType::IDENTITY => x,
    }
}

fn binary_f(op: BinaryType, a: f32, b: f32) -> f32 {
    match op {
        BinaryType::ADD => a + b,
        BinaryType::SUB => a - b,
        BinaryType::MUL => a * b,
        BinaryType::DIV => a / b,
        BinaryType::MAX => a.max(b),
        BinaryType::MOD => a % b,
        BinaryType::EQ => {
            if a == b {
                1.0
            } else {
                0.0
            }
        }
        BinaryType::LT => {
            if a < b {
                1.0
            } else {
                0.0
            }
        }
    }
}

/// Execute one dispatch plan on the host, element by element, exactly as the
/// generated kernel would: linear index, strided remapping, operation.
fn execute_plan(g: &TensorGraph, plan: &WebGPUPipeline, st: &EvalState) -> Vec<u8> {
    let node = Tensor { id: plan.output };
    let out_view = g.view_of(node);
    let out_cs = out_view.contiguous_stride.clone();
    let out_len = out_view.len() as usize;
    let ivs = input_views(g, node);
    let input_values: Vec<Vec<f32>> = plan
        .inputs
        .iter()
        .map(|&id| floats_of_bytes(st.require_bytes(id).unwrap()))
        .collect();
    let mut out: Vec<f32> = Vec::with_capacity(out_len);
    match g.data_of(node) {
        TensorInput::OperationResult(op) => match op {
            OpSpec::Unary { op, .. } => {
                for i in 0..out_len {
                    let m = mapped_index(&out_cs, &ivs[0].stride, i as u32) as usize;
                    out.push(unary_f(*op, input_values[0][m]));
                }
            }
            OpSpec::Binary { op, .. } => {
                for i in 0..out_len {
                    let ml = mapped_index(&out_cs, &ivs[0].stride, i as u32) as usize;
                    let mr = mapped_index(&out_cs, &ivs[1].stride, i as u32) as usize;
                    out.push(binary_f(*op, input_values[0][ml], input_values[1][mr]));
                }
            }
            OpSpec::Reshape { .. } => {
                // The reshape kernel addresses the input through the output's
                // own dense view, so the remapping is the identity copy.
                for i in 0..out_len {
                    let m = mapped_index(&ivs[0].contiguous_stride, &ivs[0].stride, i as u32)
                        as usize;
                    out.push(input_values[0][m]);
                }
            }
            OpSpec::Reduce { op, axes, .. } => {
                let in_view = &ivs[0];
                let extents: Vec<u32> = axes.iter().map(|&a| in_view.shape[a as usize]).collect();
                let total: u32 = extents.iter().product();
                for i in 0..out_len {
                    let base = mapped_index(&out_cs, &in_view.stride, i as u32);
                    let mut acc: f32 = match op {
                        ReduceType::SUM => 0.0,
                        ReduceType::MAX => f32::MIN,
                        ReduceType::MUL => 1.0,
                    };
                    for t in 0..total {
                        let mut rem = t;
                        let mut pos = base;
                        for (k, &a) in axes.iter().enumerate().rev() {
                            let coord = rem % extents[k];
                            rem /= extents[k];
                            pos += coord * in_view.stride[a as usize];
                        }
                        let x = input_values[0][pos as usize];
                        acc = match op {
                            ReduceType::SUM => acc + x,
                            ReduceType::MAX => acc.max(x),
                            ReduceType::MUL => acc * x,
                        };
                    }
                    out.push(acc);
                }
            }
        },
        _ => panic!("only operation nodes are dispatched"),
    }
    out.iter().flat_map(|x| x.to_bits().to_le_bytes()).collect()
}

/// Drive the pipeline exactly as the runtime does: wrap the root so the
/// result is a materialized contiguous copy, schedule, plan each node,
/// execute, record, free.
fn evaluate(g: &mut TensorGraph, root: Tensor) -> Vec<f32> {
    let wrapped = Tensor::identity(g, root);
    let order = g.linearize(wrapped);
    let lu = g.last_use(&order);
    let mut st = EvalState::new(g.len());
    for &id in order.iter() {
        let node = Tensor { id };
        let gpu = plan_node(g, node).map(|plan| execute_plan(g, &plan, &st));
        apply_node(g, &mut st, &lu, node, gpu).unwrap();
    }
    floats_of_bytes(&st.take_result(wrapped.id()).unwrap())
}

#[test]
fn add_scalars() {
    let mut g = TensorGraph::new();
    let a = Tensor::scalar(&mut g, 2.0f32.to_bits());
    let b = Tensor::scalar(&mut g, 3.0f32.to_bits());
    let sum = Tensor::binary(&mut g, BinaryType::ADD, a, b).unwrap();
    assert_eq!(g.view_of(sum).shape, vec![1]);
    assert_eq!(evaluate(&mut g, sum), vec![5.0]);
}

#[test]
fn add_vectors() {
    let mut g = TensorGraph::new();
    let a = tensor(&mut g, &[1.0, 2.0, 3.0], &[3]);
    let b = tensor(&mut g, &[10.0, 20.0, 30.0], &[3]);
    let sum = Tensor::binary(&mut g, BinaryType::ADD, a, b).unwrap();
    assert_eq!(evaluate(&mut g, sum), vec![11.0, 22.0, 33.0]);
}

#[test]
fn add_broadcast() {
    let mut g = TensorGraph::new();
    let a = tensor(&mut g, &[1.0, 2.0, 3.0], &[1, 3]);
    let b = tensor(&mut g, &[10.0, 20.0, 30.0], &[3, 1]);
    let sum = Tensor::binary(&mut g, BinaryType::ADD, a, b).unwrap();
    assert_eq!(g.view_of(sum).shape, vec![3, 3]);
    assert_eq!(
        evaluate(&mut g, sum),
        vec![11.0, 12.0, 13.0, 21.0, 22.0, 23.0, 31.0, 32.0, 33.0]
    );
}

#[test]
fn reshape_two_by_three() {
    let mut g = TensorGraph::new();
    let t = tensor(&mut g, &[0.0, 1.0, 2.0, 3.0, 4.0, 5.0], &[2, 3]);
    let r = Tensor::reshape(&mut g, &vec![3, 2], t).unwrap();
    assert_eq!(g.view_of(r).shape, vec![3, 2]);
    assert_eq!(evaluate(&mut g, r), vec![0.0, 1.0, 2.0, 3.0, 4.0, 5.0]);
}

#[test]
fn sum_along_axis() {
    let mut g = TensorGraph::new();
    let t = tensor(&mut g, &[1.0, 2.0, 3.0, 4.0], &[2, 2]);
    let s = Tensor::reduce(&mut g, ReduceType::SUM, &vec![1], t).unwrap();
    assert_eq!(g.view_of(s).shape, vec![2, 1]);
    assert_eq!(evaluate(&mut g, s), vec![3.0, 7.0]);
}

#[test]
fn identity_preserves_evaluation() {
    let mut g = TensorGraph::new();
    let a = tensor(&mut g, &[1.5, -2.0, 0.25], &[3]);
    let b = tensor(&mut g, &[4.0, 0.5, -1.0], &[3]);
    let sum = Tensor::binary(&mut g, BinaryType::MUL, a, b).unwrap();
    let wrapped = Tensor::identity(&mut g, sum);
    let direct = evaluate(&mut g, sum);
    let via_identity = evaluate(&mut g, wrapped);
    assert_eq!(direct, via_identity);
}

#[test]
fn reshape_of_reshape_equals_reshape() {
    let mut g = TensorGraph::new();
    let t = tensor(&mut g, &[0.0, 1.0, 2.0, 3.0, 4.0, 5.0], &[2, 3]);
    let r1 = Tensor::reshape(&mut g, &vec![3, 2], t).unwrap();
    let r12 = Tensor::reshape(&mut g, &vec![6], r1).unwrap();
    let r2 = Tensor::reshape(&mut g, &vec![6], t).unwrap();
    assert_eq!(evaluate(&mut g, r12), evaluate(&mut g, r2));
}

#[test]
fn addition_commutes_elementwise() {
    let mut g = TensorGraph::new();
    let a = tensor(&mut g, &[1.0, 2.5, -3.0], &[1, 3]);
    let b = tensor(&mut g, &[10.0, -0.5, 7.0], &[3, 1]);
    let ab = Tensor::binary(&mut g, BinaryType::ADD, a, b).unwrap();
    let ba = Tensor::binary(&mut g, BinaryType::ADD, b, a).unwrap();
    assert_eq!(evaluate(&mut g, ab), evaluate(&mut g, ba));
}

#[test]
fn reduce_no_axes_is_identity() {
    let mut g = TensorGraph::new();
    let t = tensor(&mut g, &[1.0, 2.0, 3.0, 4.0], &[2, 2]);
    let before = g.len();
    let r = Tensor::reduce(&mut g, ReduceType::SUM, &vec![], t).unwrap();
    assert_eq!(r.id(), t.id());
    assert_eq!(g.len(), before);
    assert_eq!(evaluate(&mut g, r), vec![1.0, 2.0, 3.0, 4.0]);
}

#[test]
fn unary_exp2_strided_copy() {
    let mut g = TensorGraph::new();
    let t = tensor(&mut g, &[0.0, 1.0, 2.0, 3.0], &[4]);
    let e = Tensor::unary(&mut g, UnaryType::EXP2, t);
    assert_eq!(evaluate(&mut g, e), vec![1.0, 2.0, 4.0, 8.0]);
}

#[test]
fn max_reduce_all_axes() {
    let mut g = TensorGraph::new();
    let t = tensor(&mut g, &[3.0, -1.0, 7.0, 2.0], &[2, 2]);
    let m = Tensor::reduce(&mut g, ReduceType::MAX, &vec![0, 1], t).unwrap();
    assert_eq!(g.view_of(m).shape, vec![1, 1]);
    assert_eq!(evaluate(&mut g, m), vec![7.0]);
}

#[test]
fn invalid_reshape_is_rejected() {
    let mut g = TensorGraph::new();
    let t = tensor(&mut g, &[1.0, 2.0], &[2]);
    assert!(Tensor::reshape(&mut g, &vec![3], t).is_err());
    assert!(Tensor::reshape(&mut g, &vec![0], t).is_err());
}

#[test]
fn non_broadcastable_is_rejected() {
    let mut g = TensorGraph::new();
    let a = tensor(&mut g, &[1.0, 2.0], &[2]);
    let b = tensor(&mut g, &[1.0, 2.0, 3.0], &[3]);
    assert!(Tensor::binary(&mut g, BinaryType::ADD, a, b).is_err());
}

#[test]
fn wrong_data_length_is_rejected() {
    let mut g = TensorGraph::new();
    assert!(Tensor::from_contiguous(&mut g, &bits(&[1.0, 2.0]), &vec![3]).is_err());
}

#[test]
fn linearize_orders_dependencies_first() {
    let mut g = TensorGraph::new();
    let a = tensor(&mut g, &[1.0], &[1]);
    let b = tensor(&mut g, &[2.0], &[1]);
    let s = Tensor::binary(&mut g, BinaryType::ADD, a, b).unwrap();
    let t = Tensor::unary(&mut g, UnaryType::SQRT, s);
    let order = g.linearize(t);
    assert_eq!(order, vec![a.id(), b.id(), s.id(), t.id()]);
}

#[test]
fn last_use_frees_dependencies() {
    let mut g = TensorGraph::new();
    let a = tensor(&mut g, &[1.0], &[1]);
    let b = tensor(&mut g, &[2.0], &[1]);
    let s = Tensor::binary(&mut g, BinaryType::ADD, a, b).unwrap();
    let order = g.linearize(s);
    let lu = g.last_use(&order);
    assert_eq!(lu[a.id() as usize], Some(s.id()));
    assert_eq!(lu[b.id() as usize], Some(s.id()));
    let mut st = EvalState::new(g.len());
    for &id in order.iter() {
        let node = Tensor { id };
        let gpu = plan_node(&g, node).map(|plan| execute_plan(&g, &plan, &st));
        apply_node(&g, &mut st, &lu, node, gpu).unwrap();
    }
    // After their last use both inputs were evicted; the result remains.
    assert!(st.require_bytes(a.id()).is_err());
    assert!(st.require_bytes(b.id()).is_err());
    assert!(st.require_bytes(s.id()).is_ok());
}

#[test]
fn missing_dependency_is_invariant_violation() {
    let mut g = TensorGraph::new();
    let a = tensor(&mut g, &[1.0], &[1]);
    let n = Tensor::identity(&mut g, a);
    let order = g.linearize(n);
    let lu = g.last_use(&order);
    let mut st = EvalState::new(g.len());
    // Skipping the parent: the no-op copy finds nothing materialized.
    let r = apply_node(&g, &mut st, &lu, n, None);
    assert!(matches!(r, Err(dtensor::TensorError::InvariantViolation)));
}

#[test]
fn wrong_result_size_is_backend_error() {
    let mut g = TensorGraph::new();
    let a = tensor(&mut g, &[1.0], &[1]);
    let s = Tensor::unary(&mut g, UnaryType::SQRT, a);
    let order = g.linearize(s);
    let lu = g.last_use(&order);
    let mut st = EvalState::new(g.len());
    apply_node(&g, &mut st, &lu, a, None).unwrap();
    // The device returned too few bytes for the one-element output.
    let r = apply_node(&g, &mut st, &lu, s, Some(vec![0, 0]));
    assert!(matches!(r, Err(dtensor::TensorError::BackendError)));
    // And an operation without any device result at all is refused too.
    let r2 = apply_node(&g, &mut st, &lu, s, None);
    assert!(matches!(r2, Err(dtensor::TensorError::BackendError)));
}
