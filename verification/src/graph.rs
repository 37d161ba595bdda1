//! The lazy tensor DAG. Nodes live in an arena indexed by their id, so a
//! node's dependencies always have smaller ids and cycles are impossible by
//! construction. Builders validate shapes eagerly and return `InvalidShape`
//! on violations.
use vstd::prelude::*;

use crate::TensorError;
use crate::metadata::spec_words_to_le_bytes;
use crate::ops::{BinaryType, ReduceType, UnaryType};
use crate::view::{
    spec_out_shape, spec_product, spec_reduce_shape, spec_shapes_broadcast_ok, spec_valid_shape,
    TensorView,
};

verus! {

/// A handle to a node of a `TensorGraph`: its id, which is its index in the
/// arena.
#[derive(Clone, Copy, Debug, PartialEq, Eq, Structural)]
pub struct Tensor {
    pub id: u32,
}

impl Tensor {
    /// The node's unique id.
    pub fn id(&self) -> (r: u32)
        ensures
            r == self.id,
    {
        self.id
    }
}

/// What a node holds: explicit little-endian payload bytes, a materializing
/// no-op copy of a parent, or the result of an operation.
#[derive(Clone, Debug)]
pub enum TensorInput {
    ExplicitInput(Vec<u8>),
    NoOp(u32),
    OperationResult(OpSpec),
}

/// An operation node: unary, broadcast binary, reduction along axes, or
/// reshape.
#[derive(Clone, Debug)]
pub enum OpSpec {
    Unary { op: UnaryType, input: u32 },
    Binary { op: BinaryType, lhs: u32, rhs: u32 },
    Reduce { op: ReduceType, axes: Vec<u32>, input: u32 },
    Reshape { input: u32 },
}

/// The direct predecessors a node reads.
pub open spec fn spec_deps(data: TensorInput) -> Seq<u32> {
    match data {
        TensorInput::ExplicitInput(_) => Seq::empty(),
        TensorInput::NoOp(p) => seq![p],
        TensorInput::OperationResult(op) => match op {
            OpSpec::Unary { input, .. } => seq![input],
            OpSpec::Binary { lhs, rhs, .. } => seq![lhs, rhs],
            OpSpec::Reduce { input, .. } => seq![input],
            OpSpec::Reshape { input } => seq![input],
        },
    }
}

/// One arena slot: the node's id, its view, and its payload.
#[derive(Clone, Debug)]
pub struct TensorInternals {
    pub id: u32,
    pub view: TensorView,
    pub data: TensorInput,
}

impl TensorInternals {
    /// One node payload under the id the arena hands out. Ids are unique by
    /// construction: the arena assigns each node its index, so no two nodes
    /// of a graph ever share one (`spec_node_wf` pins `id == index`).
    pub fn new(id: u32, view: TensorView, data: TensorInput) -> (r: TensorInternals)
        ensures
            r.id == id,
            r.view == view,
            r.data == data,
    {
        TensorInternals { id, view, data }
    }
}

/// The arena of DAG nodes. Ids are indices; every dependency id is smaller
/// than its consumer's, so the graph is acyclic by construction.
pub struct TensorGraph {
    pub nodes: Vec<TensorInternals>,
}

impl TensorGraph {
    /// Well-formedness of the node at index `i`: its id is its index, its
    /// view is a dense well-formed view, every dependency precedes it, and
    /// its view agrees with its operation.
    pub open spec fn spec_node_wf(self, i: int) -> bool {
        let node = self.nodes@[i];
        &&& node.id == i
        &&& node.view.wf()
        &&& node.view.spec_contiguous()
        &&& forall|j: int|
            0 <= j < spec_deps(node.data).len() ==> (#[trigger] spec_deps(node.data)[j] as int) < i
        &&& match node.data {
            TensorInput::ExplicitInput(bytes) => bytes@.len() == 4 * node.view.spec_len(),
            TensorInput::NoOp(p) => node.view.shape@ == self.nodes@[p as int].view.shape@,
            TensorInput::OperationResult(op) => match op {
                OpSpec::Unary { input, .. } => node.view.shape@
                    == self.nodes@[input as int].view.shape@,
                OpSpec::Binary { lhs, rhs, .. } => {
                    &&& spec_shapes_broadcast_ok(
                        self.nodes@[lhs as int].view.shape@,
                        self.nodes@[rhs as int].view.shape@,
                    )
                    &&& node.view.shape@ == spec_out_shape(
                        self.nodes@[lhs as int].view.shape@,
                        self.nodes@[rhs as int].view.shape@,
                    )
                },
                OpSpec::Reduce { axes, input, .. } => {
                    &&& forall|k: int|
                        0 <= k < axes@.len() ==> (#[trigger] axes@[k] as int)
                            < self.nodes@[input as int].view.rank()
                    &&& forall|k: int, l: int| 0 <= k < l < axes@.len() ==> axes@[k] < axes@[l]
                    &&& node.view.shape@ == spec_reduce_shape(
                        self.nodes@[input as int].view.shape@,
                        axes@,
                    )
                },
                OpSpec::Reshape { input } => node.view.spec_len()
                    == self.nodes@[input as int].view.spec_len(),
            },
        }
    }

    /// Every node of the arena is well-formed.
    pub open spec fn wf(self) -> bool {
        forall|i: int| 0 <= i < self.nodes@.len() ==> self.spec_node_wf(i)
    }

    /// A handle is valid when it points into the arena.
    pub open spec fn spec_valid(self, t: Tensor) -> bool {
        (t.id as int) < self.nodes@.len()
    }

    /// An empty graph.
    pub fn new() -> (g: TensorGraph)
        ensures
            g.wf(),
            g.nodes@.len() == 0,
    {
        TensorGraph { nodes: Vec::new() }
    }

    /// Number of nodes.
    pub fn len(&self) -> (r: usize)
        ensures
            r == self.nodes@.len(),
    {
        self.nodes.len()
    }

    /// The view of a node.
    pub fn view_of(&self, t: Tensor) -> (r: &TensorView)
        requires
            self.spec_valid(t),
        ensures
            *r == self.nodes@[t.id as int].view,
    {
        &self.nodes[t.id as usize].view
    }

    /// The payload of a node.
    pub fn data_of(&self, t: Tensor) -> (r: &TensorInput)
        requires
            self.spec_valid(t),
        ensures
            *r == self.nodes@[t.id as int].data,
    {
        &self.nodes[t.id as usize].data
    }

    /// The ids of a node's direct predecessors.
    pub fn dependencies(&self, t: Tensor) -> (r: Vec<u32>)
        requires
            self.spec_valid(t),
        ensures
            r@ == spec_deps(self.nodes@[t.id as int].data),
    {
        let mut r: Vec<u32> = Vec::new();
        match &self.nodes[t.id as usize].data {
            TensorInput::ExplicitInput(_) => {},
            TensorInput::NoOp(p) => {
                r.push(*p);
            },
            TensorInput::OperationResult(op) => {
                match op {
                    OpSpec::Unary { input, .. } => {
                        r.push(*input);
                    },
                    OpSpec::Binary { lhs, rhs, .. } => {
                        r.push(*lhs);
                        r.push(*rhs);
                    },
                    OpSpec::Reduce { input, .. } => {
                        r.push(*input);
                    },
                    OpSpec::Reshape { input } => {
                        r.push(*input);
                    },
                }
            },
        }
        proof {
            assert(r@ =~= spec_deps(self.nodes@[t.id as int].data));
        }
        r
    }

    /// Appending a node whose dependencies precede it and whose view agrees
    /// with its operation keeps the whole arena well-formed.
    pub proof fn lemma_push_wf(prev: TensorGraph, next: TensorGraph)
        requires
            prev.wf(),
            next.nodes@.len() == prev.nodes@.len() + 1,
            forall|i: int| 0 <= i < prev.nodes@.len() ==> next.nodes@[i] == prev.nodes@[i],
            next.spec_node_wf(prev.nodes@.len() as int),
        ensures
            next.wf(),
    {
        assert forall|i: int| 0 <= i < next.nodes@.len() implies next.spec_node_wf(i) by {
            if i < prev.nodes@.len() {
                assert(prev.spec_node_wf(i));
                assert(next.nodes@[i] == prev.nodes@[i]);
                let node = prev.nodes@[i];
                assert(forall|j: int|
                    0 <= j < spec_deps(node.data).len() ==> (#[trigger] spec_deps(node.data)[j]
                        as int) < i);
                match node.data {
                    TensorInput::ExplicitInput(_) => {},
                    TensorInput::NoOp(p) => {
                        assert(spec_deps(node.data)[0] == p);
                        assert(next.nodes@[p as int] == prev.nodes@[p as int]);
                    },
                    TensorInput::OperationResult(op) => {
                        match op {
                            OpSpec::Unary { input, .. } => {
                                assert(spec_deps(node.data)[0] == input);
                                assert(next.nodes@[input as int] == prev.nodes@[input as int]);
                            },
                            OpSpec::Binary { lhs, rhs, .. } => {
                                assert(spec_deps(node.data)[0] == lhs);
                                assert(spec_deps(node.data)[1] == rhs);
                                assert(next.nodes@[lhs as int] == prev.nodes@[lhs as int]);
                                assert(next.nodes@[rhs as int] == prev.nodes@[rhs as int]);
                            },
                            OpSpec::Reduce { input, .. } => {
                                assert(spec_deps(node.data)[0] == input);
                                assert(next.nodes@[input as int] == prev.nodes@[input as int]);
                            },
                            OpSpec::Reshape { input } => {
                                assert(spec_deps(node.data)[0] == input);
                                assert(next.nodes@[input as int] == prev.nodes@[input as int]);
                            },
                        }
                    },
                }
            }
        }
    }
}

impl Tensor {
    /// A one-element tensor of shape `[1]` holding the given 32-bit float
    /// bit pattern.
    pub fn scalar(g: &mut TensorGraph, value_bits: u32) -> (r: Tensor)
        requires
            old(g).wf(),
            old(g).nodes@.len() < u32::MAX,
        ensures
            final(g).wf(),
            final(g).nodes@.len() == old(g).nodes@.len() + 1,
            forall|i: int| 0 <= i < old(g).nodes@.len() ==> final(g).nodes@[i] == old(g).nodes@[i],
            r.id == old(g).nodes@.len(),
            final(g).spec_valid(r),
            final(g).nodes@[r.id as int].view.shape@ == seq![1u32],
            final(g).nodes@[r.id as int].data matches TensorInput::ExplicitInput(b) && b@
                == spec_words_to_le_bytes(seq![value_bits]),
    {
        let mut data: Vec<u32> = Vec::new();
        data.push(value_bits);
        let mut shape: Vec<u32> = Vec::new();
        shape.push(1);
        proof {
            assert(shape@ =~= seq![1u32]);
            assert(data@ =~= seq![value_bits]);
            assert(seq![1u32].skip(1) =~= Seq::<u32>::empty());
            assert(seq![1u32].len() == 1 && seq![1u32][0] == 1u32);
            assert(spec_product(Seq::<u32>::empty()) == 1);
            assert(spec_product(seq![1u32]) == 1 * spec_product(seq![1u32].skip(1)));
            assert(spec_product(seq![1u32]) == 1);
            assert(spec_valid_shape(shape@));
        }
        match Tensor::from_contiguous(g, &data, &shape) {
            Ok(t) => t,
            Err(_) => {
                proof {
                    assert(false);
                }
                Tensor { id: 0 }
            },
        }
    }

    /// A dense tensor from element bit patterns and a shape. Fails with
    /// `InvalidShape` exactly when the shape is invalid or the element count
    /// does not match the data length.
    pub fn from_contiguous(g: &mut TensorGraph, data: &Vec<u32>, shape: &Vec<u32>) -> (r: Result<
        Tensor,
        TensorError,
    >)
        requires
            old(g).wf(),
            old(g).nodes@.len() < u32::MAX,
        ensures
            final(g).wf(),
            r is Ok <==> spec_valid_shape(shape@) && spec_product(shape@) == data@.len(),
            r matches Err(e) ==> e matches TensorError::InvalidShape && final(g).nodes@ == old(
                g,
            ).nodes@,
            r matches Ok(t) ==> {
                &&& final(g).nodes@.len() == old(g).nodes@.len() + 1
                &&& forall|i: int|
                    0 <= i < old(g).nodes@.len() ==> final(g).nodes@[i] == old(g).nodes@[i]
                &&& t.id == old(g).nodes@.len()
                &&& final(g).spec_valid(t)
                &&& final(g).nodes@[t.id as int].view.shape@ == shape@
                &&& final(g).nodes@[t.id as int].view.wf()
                &&& final(g).nodes@[t.id as int].view.spec_contiguous()
                &&& final(g).nodes@[t.id as int].data matches TensorInput::ExplicitInput(b) && b@
                    == spec_words_to_le_bytes(data@)
            },
    {
        if shape.len() == 0 || shape.len() > 0x3fffffff {
            return Err(TensorError::InvalidShape);
        }
        let n = shape.len();
        let mut k: usize = 0;
        while k < n
            invariant
                *g == *old(g),
                old(g).wf(),
                n == shape@.len(),
                k <= n,
                forall|j: int| 0 <= j < k ==> shape@[j] >= 1,
            decreases n - k,
        {
            if shape[k] == 0 {
                return Err(TensorError::InvalidShape);
            }
            k = k + 1;
        }
        let product = match crate::view::checked_len(shape) {
            Some(p) => p,
            None => {
                return Err(TensorError::InvalidShape);
            },
        };
        if (product as usize) != data.len() {
            return Err(TensorError::InvalidShape);
        }
        let view = TensorView::from_shape(shape);
        let bytes = crate::metadata::words_to_le_bytes(data);
        let id = g.nodes.len() as u32;
        let node = TensorInternals::new(id, view, TensorInput::ExplicitInput(bytes));
        g.nodes.push(node);
        let t = Tensor { id };
        proof {
            let i = old(g).nodes@.len() as int;
            assert(spec_deps(g.nodes@[i].data) =~= Seq::<u32>::empty());
            assert(g.spec_node_wf(i));
            TensorGraph::lemma_push_wf(*old(g), *g);
        }
        Ok(t)
    }

    /// A node applying an elementwise unary operation; the output keeps the
    /// input's shape, laid out densely.
    pub fn unary(g: &mut TensorGraph, op: UnaryType, input: Tensor) -> (r: Tensor)
        requires
            old(g).wf(),
            old(g).spec_valid(input),
            old(g).nodes@.len() < u32::MAX,
        ensures
            final(g).wf(),
            final(g).nodes@.len() == old(g).nodes@.len() + 1,
            forall|i: int| 0 <= i < old(g).nodes@.len() ==> final(g).nodes@[i] == old(g).nodes@[i],
            r.id == old(g).nodes@.len(),
            final(g).spec_valid(r),
            final(g).nodes@[r.id as int].data == TensorInput::OperationResult(
                OpSpec::Unary { op, input: input.id },
            ),
            final(g).nodes@[r.id as int].view.shape@ == old(g).nodes@[input.id as int].view.shape@,
    {
        let view = {
            let in_view = &g.nodes[input.id as usize].view;
            assert(g.spec_node_wf(input.id as int));
            TensorView::from_shape(&in_view.shape)
        };
        let id = g.nodes.len() as u32;
        let node = TensorInternals::new(
            id,
            view,
            TensorInput::OperationResult(OpSpec::Unary { op, input: input.id }),
        );
        g.nodes.push(node);
        proof {
            let i = old(g).nodes@.len() as int;
            assert(spec_deps(g.nodes@[i].data) =~= seq![input.id]);
            assert(g.spec_node_wf(i));
            TensorGraph::lemma_push_wf(*old(g), *g);
        }
        Tensor { id }
    }

    /// A node applying an elementwise binary operation under broadcasting.
    /// Fails with `InvalidShape` exactly when the operand shapes are not
    /// broadcast-compatible or the broadcast element count does not fit in
    /// 32 bits.
    pub fn binary(g: &mut TensorGraph, op: BinaryType, lhs: Tensor, rhs: Tensor) -> (r: Result<
        Tensor,
        TensorError,
    >)
        requires
            old(g).wf(),
            old(g).spec_valid(lhs),
            old(g).spec_valid(rhs),
            old(g).nodes@.len() < u32::MAX,
        ensures
            final(g).wf(),
            r is Ok <==> spec_shapes_broadcast_ok(
                old(g).nodes@[lhs.id as int].view.shape@,
                old(g).nodes@[rhs.id as int].view.shape@,
            ) && spec_product(
                spec_out_shape(
                    old(g).nodes@[lhs.id as int].view.shape@,
                    old(g).nodes@[rhs.id as int].view.shape@,
                ),
            ) <= u32::MAX,
            r matches Err(e) ==> e matches TensorError::InvalidShape && final(g).nodes@ == old(
                g,
            ).nodes@,
            r matches Ok(t) ==> {
                &&& final(g).nodes@.len() == old(g).nodes@.len() + 1
                &&& forall|i: int|
                    0 <= i < old(g).nodes@.len() ==> final(g).nodes@[i] == old(g).nodes@[i]
                &&& t.id == old(g).nodes@.len()
                &&& final(g).spec_valid(t)
                &&& final(g).nodes@[t.id as int].data == TensorInput::OperationResult(
                    OpSpec::Binary { op, lhs: lhs.id, rhs: rhs.id },
                )
                &&& final(g).nodes@[t.id as int].view.shape@ == spec_out_shape(
                    old(g).nodes@[lhs.id as int].view.shape@,
                    old(g).nodes@[rhs.id as int].view.shape@,
                )
            },
    {
        assert(g.spec_node_wf(lhs.id as int));
        assert(g.spec_node_wf(rhs.id as int));
        let view = {
            let a = &g.nodes[lhs.id as usize].view;
            let b = &g.nodes[rhs.id as usize].view;
            match TensorView::broadcast(a, b) {
                Ok(v) => v,
                Err(e) => {
                    return Err(e);
                },
            }
        };
        let id = g.nodes.len() as u32;
        let node = TensorInternals::new(
            id,
            view,
            TensorInput::OperationResult(OpSpec::Binary { op, lhs: lhs.id, rhs: rhs.id }),
        );
        g.nodes.push(node);
        proof {
            let i = old(g).nodes@.len() as int;
            assert(spec_deps(g.nodes@[i].data) =~= seq![lhs.id, rhs.id]);
            assert(g.spec_node_wf(i));
            TensorGraph::lemma_push_wf(*old(g), *g);
        }
        Ok(Tensor { id })
    }

    /// A reduction along the given axes. The axes must be strictly
    /// increasing and within the input's rank, else `InvalidShape`. Reducing
    /// along no axes is the identity: the input node itself is returned and
    /// the graph is unchanged.
    pub fn reduce(g: &mut TensorGraph, op: ReduceType, axes: &Vec<u32>, input: Tensor) -> (r:
        Result<Tensor, TensorError>)
        requires
            old(g).wf(),
            old(g).spec_valid(input),
            old(g).nodes@.len() < u32::MAX,
        ensures
            final(g).wf(),
            r is Ok <==> (forall|k: int|
                0 <= k < axes@.len() ==> (#[trigger] axes@[k] as int) < old(
                    g,
                ).nodes@[input.id as int].view.rank()) && (forall|k: int, l: int|
                0 <= k < l < axes@.len() ==> axes@[k] < axes@[l]),
            r matches Err(e) ==> e matches TensorError::InvalidShape && final(g).nodes@ == old(
                g,
            ).nodes@,
            axes@.len() == 0 ==> r == Ok::<Tensor, TensorError>(input) && final(g).nodes@ == old(
                g,
            ).nodes@,
            r matches Ok(t) ==> axes@.len() == 0 || {
                &&& final(g).nodes@.len() == old(g).nodes@.len() + 1
                &&& forall|i: int|
                    0 <= i < old(g).nodes@.len() ==> final(g).nodes@[i] == old(g).nodes@[i]
                &&& t.id == old(g).nodes@.len()
                &&& final(g).spec_valid(t)
                &&& final(g).nodes@[t.id as int].view.shape@ == spec_reduce_shape(
                    old(g).nodes@[input.id as int].view.shape@,
                    axes@,
                )
            },
    {
        assert(g.spec_node_wf(input.id as int));
        let rank = g.nodes[input.id as usize].view.dimension();
        let m = axes.len();
        let mut k: usize = 0;
        while k < m
            invariant
                *g == *old(g),
                old(g).wf(),
                old(g).spec_valid(input),
                m == axes@.len(),
                k <= m,
                rank == old(g).nodes@[input.id as int].view.rank(),
                forall|j: int| 0 <= j < k ==> (#[trigger] axes@[j] as int) < rank,
                forall|j: int, l: int| 0 <= j < l < k ==> axes@[j] < axes@[l],
            decreases m - k,
        {
            if axes[k] >= rank {
                return Err(TensorError::InvalidShape);
            }
            if k > 0 && axes[k - 1] >= axes[k] {
                return Err(TensorError::InvalidShape);
            }
            proof {
                assert forall|j: int, l: int| 0 <= j < l < k + 1 implies axes@[j] < axes@[l] by {
                    if l == k && j < k - 1 {
                        assert(axes@[j] < axes@[k - 1]);
                    }
                }
            }
            k = k + 1;
        }
        if m == 0 {
            return Ok(input);
        }
        let view = {
            let in_view = &g.nodes[input.id as usize].view;
            in_view.reduce(axes)
        };
        let axes_copy = crate::view::copy_words(axes);
        let id = g.nodes.len() as u32;
        let node = TensorInternals::new(
            id,
            view,
            TensorInput::OperationResult(OpSpec::Reduce { op, axes: axes_copy, input: input.id }),
        );
        g.nodes.push(node);
        proof {
            let i = old(g).nodes@.len() as int;
            assert(spec_deps(g.nodes@[i].data) =~= seq![input.id]);
            assert(g.spec_node_wf(i));
            TensorGraph::lemma_push_wf(*old(g), *g);
        }
        Ok(Tensor { id })
    }

    /// A reshape to a new shape with the same element count; fails with
    /// `InvalidShape` exactly when the new shape is invalid or the counts
    /// differ.
    pub fn reshape(g: &mut TensorGraph, new_shape: &Vec<u32>, input: Tensor) -> (r: Result<
        Tensor,
        TensorError,
    >)
        requires
            old(g).wf(),
            old(g).spec_valid(input),
            old(g).nodes@.len() < u32::MAX,
        ensures
            final(g).wf(),
            r is Ok <==> spec_valid_shape(new_shape@) && spec_product(new_shape@) == old(
                g,
            ).nodes@[input.id as int].view.spec_len(),
            r matches Err(e) ==> e matches TensorError::InvalidShape && final(g).nodes@ == old(
                g,
            ).nodes@,
            r matches Ok(t) ==> {
                &&& final(g).nodes@.len() == old(g).nodes@.len() + 1
                &&& forall|i: int|
                    0 <= i < old(g).nodes@.len() ==> final(g).nodes@[i] == old(g).nodes@[i]
                &&& t.id == old(g).nodes@.len()
                &&& final(g).spec_valid(t)
                &&& final(g).nodes@[t.id as int].data == TensorInput::OperationResult(
                    OpSpec::Reshape { input: input.id },
                )
                &&& final(g).nodes@[t.id as int].view.shape@ == new_shape@
            },
    {
        assert(g.spec_node_wf(input.id as int));
        if new_shape.len() == 0 || new_shape.len() > 0x3fffffff {
            return Err(TensorError::InvalidShape);
        }
        let n = new_shape.len();
        let mut k: usize = 0;
        while k < n
            invariant
                *g == *old(g),
                old(g).wf(),
                old(g).spec_valid(input),
                n == new_shape@.len(),
                k <= n,
                forall|j: int| 0 <= j < k ==> new_shape@[j] >= 1,
            decreases n - k,
        {
            if new_shape[k] == 0 {
                return Err(TensorError::InvalidShape);
            }
            k = k + 1;
        }
        let product = match crate::view::checked_len(new_shape) {
            Some(p) => p,
            None => {
                return Err(TensorError::InvalidShape);
            },
        };
        let in_len = {
            let in_view = &g.nodes[input.id as usize].view;
            in_view.len()
        };
        if product != in_len {
            return Err(TensorError::InvalidShape);
        }
        let view = TensorView::from_shape(new_shape);
        let id = g.nodes.len() as u32;
        let node = TensorInternals::new(
            id,
            view,
            TensorInput::OperationResult(OpSpec::Reshape { input: input.id }),
        );
        g.nodes.push(node);
        proof {
            let i = old(g).nodes@.len() as int;
            assert(spec_deps(g.nodes@[i].data) =~= seq![input.id]);
            assert(g.spec_node_wf(i));
            TensorGraph::lemma_push_wf(*old(g), *g);
        }
        Ok(Tensor { id })
    }

    /// A `NoOp` node marking that the runtime must materialize a contiguous
    /// copy of the input.
    pub fn identity(g: &mut TensorGraph, input: Tensor) -> (r: Tensor)
        requires
            old(g).wf(),
            old(g).spec_valid(input),
            old(g).nodes@.len() < u32::MAX,
        ensures
            final(g).wf(),
            final(g).nodes@.len() == old(g).nodes@.len() + 1,
            forall|i: int| 0 <= i < old(g).nodes@.len() ==> final(g).nodes@[i] == old(g).nodes@[i],
            r.id == old(g).nodes@.len(),
            final(g).spec_valid(r),
            final(g).nodes@[r.id as int].data == TensorInput::NoOp(input.id),
            final(g).nodes@[r.id as int].view.shape@ == old(g).nodes@[input.id as int].view.shape@,
    {
        assert(g.spec_node_wf(input.id as int));
        let view = {
            let in_view = &g.nodes[input.id as usize].view;
            TensorView::from_shape(&in_view.shape)
        };
        let id = g.nodes.len() as u32;
        let node = TensorInternals::new(id, view, TensorInput::NoOp(input.id));
        g.nodes.push(node);
        proof {
            let i = old(g).nodes@.len() as int;
            assert(spec_deps(g.nodes@[i].data) =~= seq![input.id]);
            assert(g.spec_node_wf(i));
            TensorGraph::lemma_push_wf(*old(g), *g);
        }
        Tensor { id }
    }
}

} // verus!
