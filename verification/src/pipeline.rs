//! The evaluation pipeline's decision logic: deterministic linearization of
//! the DAG, last-use lifetime accounting, per-node dispatch planning, and the
//! state transition that records a materialized node and frees dead
//! dependencies. The GPU itself is driven outside the library; every byte it
//! returns flows back in through `apply_node`, which is verified for every
//! possible value.
use vstd::prelude::*;

use crate::TensorError;
use crate::graph::{spec_deps, OpSpec, Tensor, TensorGraph, TensorInput};
use crate::wgsl::WebGPUWorkGroup;

verus! {

/// The last consumer of node `d` in a schedule: the latest node of the order
/// that lists `d` among its dependencies.
pub open spec fn spec_last_use(g: TensorGraph, order: Seq<u32>, d: u32) -> Option<u32>
    decreases order.len(),
{
    if order.len() == 0 {
        None
    } else {
        let n = order[order.len() - 1];
        if spec_deps(g.nodes@[n as int].data).contains(d) {
            Some(n)
        } else {
            spec_last_use(g, order.drop_last(), d)
        }
    }
}

/// The `j`-th dependency of the node at position `p` of the schedule appears
/// at an earlier position.
pub open spec fn spec_dep_before(g: TensorGraph, order: Seq<u32>, p: int, j: int) -> bool {
    exists|q: int| 0 <= q < p && order[q] == spec_deps(g.nodes@[order[p] as int].data)[j]
}

impl TensorGraph {
    /// Topologically order the sub-DAG reachable from `root`: mark the
    /// reachable nodes walking ids downward, then emit the marked ids in
    /// ascending order. The result is a total order in which every
    /// dependency precedes its consumers, ending at the root.
    pub fn linearize(&self, root: Tensor) -> (order: Vec<u32>)
        requires
            self.wf(),
            self.spec_valid(root),
            self.nodes@.len() <= u32::MAX,
        ensures
            order@.len() >= 1,
            order@[order@.len() - 1] == root.id,
            forall|p: int, q: int| 0 <= p < q < order@.len() ==> order@[p] < order@[q],
            forall|p: int| 0 <= p < order@.len() ==> (#[trigger] order@[p] as int) <= root.id,
            forall|p: int, j: int|
                0 <= p < order@.len() && 0 <= j < spec_deps(
                    self.nodes@[order@[p] as int].data,
                ).len() ==> #[trigger] spec_dep_before(*self, order@, p, j),
    {
        let n: usize = root.id as usize + 1;
        let mut marked: Vec<bool> = Vec::new();
        let mut k: usize = 0;
        while k < n
            invariant
                marked@.len() == k,
                k <= n,
                forall|j: int| 0 <= j < k ==> !marked@[j],
            decreases n - k,
        {
            marked.push(false);
            k = k + 1;
        }
        marked.set(root.id as usize, true);
        let mut i: usize = n;
        while i > 0
            invariant
                self.wf(),
                self.spec_valid(root),
                n == root.id as int + 1,
                marked@.len() == n,
                i <= n,
                marked@[root.id as int],
                forall|m: int, j: int|
                    i <= m < n && marked@[m] && 0 <= j < spec_deps(self.nodes@[m].data).len()
                        ==> marked@[#[trigger] spec_deps(self.nodes@[m].data)[j] as int],
            decreases i,
        {
            i = i - 1;
            if marked[i] {
                let ds = self.dependencies(Tensor { id: i as u32 });
                proof {
                    assert(self.spec_node_wf(i as int));
                }
                let dn = ds.len();
                let mut j: usize = 0;
                while j < dn
                    invariant
                        self.wf(),
                        self.spec_valid(root),
                        n == root.id as int + 1,
                        marked@.len() == n,
                        i < n,
                        marked@[root.id as int],
                        marked@[i as int],
                        dn == ds@.len(),
                        j <= dn,
                        ds@ == spec_deps(self.nodes@[i as int].data),
                        forall|l: int| 0 <= l < ds@.len() ==> (#[trigger] ds@[l] as int) < i,
                        forall|l: int| 0 <= l < j ==> marked@[#[trigger] ds@[l] as int],
                        forall|m: int, l: int|
                            i < m < n && marked@[m] && 0 <= l < spec_deps(
                                self.nodes@[m].data,
                            ).len() ==> marked@[#[trigger] spec_deps(self.nodes@[m].data)[l]
                            as int],
                    decreases dn - j,
                {
                    let ghost mpre = marked@;
                    marked.set(ds[j] as usize, true);
                    proof {
                        assert forall|m: int, l: int|
                            i < m < n && marked@[m] && 0 <= l < spec_deps(
                                self.nodes@[m].data,
                            ).len() implies marked@[#[trigger] spec_deps(self.nodes@[m].data)[l]
                            as int] by {
                            assert(self.spec_node_wf(m));
                            assert((spec_deps(self.nodes@[m].data)[l] as int) < m);
                            assert(m != ds@[j as int] as int);
                            assert(mpre[m]);
                            assert(mpre[spec_deps(self.nodes@[m].data)[l] as int]);
                        }
                    }
                    j = j + 1;
                }
                proof {
                    assert forall|m: int, j2: int|
                        i <= m < n && marked@[m] && 0 <= j2 < spec_deps(
                            self.nodes@[m].data,
                        ).len() implies marked@[#[trigger] spec_deps(self.nodes@[m].data)[j2]
                        as int] by {
                        if m == i {
                            assert(marked@[ds@[j2] as int]);
                        }
                    }
                }
            } else {
            }
        }
        let mut order: Vec<u32> = Vec::new();
        let mut c: usize = 0;
        while c < n
            invariant
                self.wf(),
                n == root.id as int + 1,
                marked@.len() == n,
                c <= n,
                marked@[root.id as int],
                forall|m: int, j: int|
                    0 <= m < n && marked@[m] && 0 <= j < spec_deps(self.nodes@[m].data).len()
                        ==> marked@[#[trigger] spec_deps(self.nodes@[m].data)[j] as int],
                forall|p: int, q: int| 0 <= p < q < order@.len() ==> order@[p] < order@[q],
                forall|p: int| 0 <= p < order@.len() ==> (#[trigger] order@[p] as int) < c,
                forall|p: int| 0 <= p < order@.len() ==> marked@[#[trigger] order@[p] as int],
                forall|m: int| 0 <= m < c && marked@[m] ==> order@.contains(m as u32),
            decreases n - c,
        {
            let ghost pre = order@;
            if marked[c] {
                order.push(c as u32);
            }
            proof {
                assert forall|m: int| 0 <= m < c + 1 && marked@[m] implies order@.contains(
                    m as u32,
                ) by {
                    if m < c {
                        assert(pre.contains(m as u32));
                        let w = choose|w: int| 0 <= w < pre.len() && pre[w] == m as u32;
                        assert(order@[w] == m as u32);
                        assert(order@.contains(m as u32));
                    } else {
                        assert(order@[order@.len() - 1] == c as u32);
                        assert(order@.contains(c as u32));
                    }
                }
            }
            c = c + 1;
        }
        proof {
            assert(order@.contains(root.id));
            let rp = choose|q: int| 0 <= q < order@.len() && order@[q] == root.id;
            assert(order@.len() >= 1);
            assert forall|p: int| 0 <= p < order@.len() implies (#[trigger] order@[p] as int)
                <= root.id by {}
            assert(order@[order@.len() - 1] == root.id) by {
                if order@[order@.len() - 1] != root.id {
                    assert(order@[order@.len() - 1] as int <= root.id);
                    assert(rp < order@.len() - 1);
                    assert(order@[rp] < order@[order@.len() - 1]);
                }
            }
            assert forall|p: int, j: int|
                0 <= p < order@.len() && 0 <= j < spec_deps(
                    self.nodes@[order@[p] as int].data,
                ).len() implies #[trigger] spec_dep_before(*self, order@, p, j) by {
                let m = order@[p] as int;
                assert(marked@[m]);
                assert(self.spec_node_wf(m));
                let d = spec_deps(self.nodes@[m].data)[j];
                assert(marked@[d as int]);
                assert((d as int) < m);
                assert(order@.contains(d));
                let q = choose|q: int| 0 <= q < order@.len() && #[trigger] order@[q] == d;
                assert(q != p);
                if q > p {
                    assert(order@[p] < order@[q]);
                    assert(false);
                }
                assert(0 <= q < p && order@[q] == spec_deps(self.nodes@[order@[p] as int].data)[j]);
            }
        }
        order
    }

    /// For every node of the arena, the last node of the schedule that
    /// consumes it, if any: the point after which its buffer may be freed.
    pub fn last_use(&self, order: &Vec<u32>) -> (lu: Vec<Option<u32>>)
        requires
            self.wf(),
            self.nodes@.len() <= u32::MAX,
            forall|p: int| 0 <= p < order@.len() ==> (#[trigger] order@[p] as int)
                < self.nodes@.len(),
        ensures
            lu@.len() == self.nodes@.len(),
            forall|d: int|
                0 <= d < lu@.len() ==> #[trigger] lu@[d] == spec_last_use(*self, order@, d as u32),
    {
        let n = self.nodes.len();
        let mut lu: Vec<Option<u32>> = Vec::new();
        let mut k: usize = 0;
        while k < n
            invariant
                lu@.len() == k,
                k <= n,
                forall|j: int| 0 <= j < k ==> lu@[j] is None,
            decreases n - k,
        {
            lu.push(None);
            k = k + 1;
        }
        proof {
            assert(order@.take(0) =~= Seq::<u32>::empty());
        }
        let m = order.len();
        let mut p: usize = 0;
        while p < m
            invariant
                self.wf(),
                n <= u32::MAX,
                m == order@.len(),
                p <= m,
                lu@.len() == n,
                n == self.nodes@.len(),
                forall|q: int| 0 <= q < m ==> (#[trigger] order@[q] as int) < n,
                forall|d: int|
                    0 <= d < n ==> #[trigger] lu@[d] == spec_last_use(
                        *self,
                        order@.take(p as int),
                        d as u32,
                    ),
            decreases m - p,
        {
            let node = order[p];
            let ds = self.dependencies(Tensor { id: node });
            proof {
                assert(self.spec_node_wf(node as int));
            }
            let dn = ds.len();
            let mut j: usize = 0;
            while j < dn
                invariant
                    self.wf(),
                    n <= u32::MAX,
                    m == order@.len(),
                    p < m,
                    lu@.len() == n,
                    n == self.nodes@.len(),
                    node == order@[p as int],
                    (node as int) < n,
                    forall|q: int| 0 <= q < m ==> (#[trigger] order@[q] as int) < n,
                    dn == ds@.len(),
                    j <= dn,
                    ds@ == spec_deps(self.nodes@[node as int].data),
                    forall|l: int| 0 <= l < ds@.len() ==> (#[trigger] ds@[l] as int) < node,
                    forall|d: int|
                        0 <= d < n ==> #[trigger] lu@[d] == (if ds@.take(j as int).contains(
                            d as u32,
                        ) {
                            Some(node)
                        } else {
                            spec_last_use(*self, order@.take(p as int), d as u32)
                        }),
                decreases dn - j,
            {
                lu.set(ds[j] as usize, Some(node));
                proof {
                    assert forall|d: int| 0 <= d < n implies #[trigger] lu@[d] == (if ds@.take(
                        j as int + 1,
                    ).contains(d as u32) {
                        Some(node)
                    } else {
                        spec_last_use(*self, order@.take(p as int), d as u32)
                    }) by {
                        assert(ds@.take(j as int + 1) =~= ds@.take(j as int).push(ds@[j as int]));
                        assert(ds@.take(j as int + 1)[j as int] == ds@[j as int]);
                        if d == ds@[j as int] as int {
                            assert(ds@.take(j as int + 1).contains(d as u32));
                        } else {
                            assert(ds@.take(j as int + 1).contains(d as u32) == ds@.take(
                                j as int,
                            ).contains(d as u32)) by {
                                if ds@.take(j as int + 1).contains(d as u32) {
                                    let w = choose|w: int|
                                        0 <= w < ds@.take(j as int + 1).len() && #[trigger] ds@.take(
                                            j as int + 1,
                                        )[w] == d as u32;
                                    assert(w < j as int + 1);
                                    assert(w != j as int);
                                    assert(ds@.take(j as int)[w] == d as u32);
                                    assert(ds@.take(j as int).contains(d as u32));
                                }
                                if ds@.take(j as int).contains(d as u32) {
                                    let w = choose|w: int|
                                        0 <= w < ds@.take(j as int).len() && #[trigger] ds@.take(
                                            j as int,
                                        )[w] == d as u32;
                                    assert(ds@.take(j as int + 1)[w] == d as u32);
                                    assert(ds@.take(j as int + 1).contains(d as u32));
                                }
                            }
                        }
                    }
                }
                j = j + 1;
            }
            proof {
                assert(ds@.take(dn as int) =~= ds@);
                assert(order@.take(p as int + 1).drop_last() =~= order@.take(p as int));
                assert(order@.take(p as int + 1).len() == p + 1);
                assert(order@.take(p as int + 1)[p as int] == node);
                assert forall|d: int| 0 <= d < n implies #[trigger] lu@[d] == spec_last_use(
                    *self,
                    order@.take(p as int + 1),
                    d as u32,
                ) by {
                    let sub = order@.take(p as int + 1);
                    assert(sub[sub.len() - 1] == node);
                    if ds@.contains(d as u32) {
                        assert(lu@[d] == Some(node));
                    } else {
                        assert(lu@[d] == spec_last_use(*self, order@.take(p as int), d as u32));
                    }
                }
            }
            p = p + 1;
        }
        proof {
            assert(order@.take(m as int) =~= order@);
        }
        lu
    }
}

/// Two views describing the same shape, strides and offsets.
pub open spec fn spec_view_equiv(a: crate::view::TensorView, b: crate::view::TensorView) -> bool {
    &&& a.shape@ == b.shape@
    &&& a.stride@ == b.stride@
    &&& a.contiguous_stride@ == b.contiguous_stride@
    &&& a.offset@ == b.offset@
}

impl WebGPUWorkGroup {
    /// The dispatch extents of an output of `len` elements: the whole length
    /// on the first axis.
    pub fn from_len(len: u32) -> (r: WebGPUWorkGroup)
        ensures
            r.x == len,
            r.y == 1,
            r.z == 1,
    {
        WebGPUWorkGroup { x: len, y: 1, z: 1 }
    }

    /// How many workgroups of `4 × 4 × 4` to dispatch on each axis. One
    /// extra workgroup per axis guarantees the invocation grid covers the
    /// extents, so the invocation count is at least the output length; the
    /// in-kernel guard discards the excess.
    pub fn dispatch_counts(&self) -> (c: WebGPUWorkGroup)
        ensures
            c.x == self.x / 4 + 1,
            c.y == self.y / 4 + 1,
            c.z == self.z / 4 + 1,
            (4 * (c.x as int)) * (4 * (c.y as int)) * (4 * (c.z as int)) >= (self.x as int) * (
            self.y as int) * (self.z as int),
    {
        let c = WebGPUWorkGroup { x: self.x / 4 + 1, y: self.y / 4 + 1, z: self.z / 4 + 1 };
        proof {
            vstd::arithmetic::div_mod::lemma_fundamental_div_mod(self.x as int, 4);
            vstd::arithmetic::div_mod::lemma_fundamental_div_mod(self.y as int, 4);
            vstd::arithmetic::div_mod::lemma_fundamental_div_mod(self.z as int, 4);
            vstd::arithmetic::div_mod::lemma_mod_division_less_than_divisor(self.x as int, 4);
            vstd::arithmetic::div_mod::lemma_mod_division_less_than_divisor(self.y as int, 4);
            vstd::arithmetic::div_mod::lemma_mod_division_less_than_divisor(self.z as int, 4);
            assert(4 * (c.x as int) > self.x as int);
            assert(4 * (c.y as int) > self.y as int);
            assert(4 * (c.z as int) > self.z as int);
            assert((4 * (c.x as int)) * (4 * (c.y as int)) * (4 * (c.z as int)) >= (self.x as int)
                * (self.y as int) * (self.z as int)) by (nonlinear_arith)
                requires
                    4 * (c.x as int) >= self.x as int,
                    4 * (c.y as int) >= self.y as int,
                    4 * (c.z as int) >= self.z as int,
                    self.x as int >= 0,
                    self.y as int >= 0,
                    self.z as int >= 0,
            ;
        }
        c
    }
}

/// Everything the GPU needs for one operation node: the kernel source, the
/// input node ids in binding order, the output node id, and the dispatch
/// extents.
#[derive(Debug)]
pub struct WebGPUPipeline {
    pub shader: String,
    pub inputs: Vec<u32>,
    pub output: u32,
    pub dispatch_workgroups: WebGPUWorkGroup,
}

/// Plan one node of the schedule: operation nodes get a kernel and dispatch
/// extents, explicit inputs and no-op copies need no GPU work.
pub fn plan_node(g: &TensorGraph, node: Tensor) -> (r: Option<WebGPUPipeline>)
    requires
        g.wf(),
        g.spec_valid(node),
    ensures
        r is Some <==> g.nodes@[node.id as int].data is OperationResult,
        r matches Some(p) ==> {
            &&& p.output == node.id
            &&& p.inputs@ == spec_deps(g.nodes@[node.id as int].data)
            &&& p.dispatch_workgroups.x == g.nodes@[node.id as int].view.spec_len()
            &&& p.dispatch_workgroups.y == 1
            &&& p.dispatch_workgroups.z == 1
            &&& match g.nodes@[node.id as int].data {
                TensorInput::OperationResult(op) => match op {
                    OpSpec::Unary { op, .. } => p.shader@
                        == crate::generators::unary::spec_build_shader(op),
                    OpSpec::Binary { op, .. } => p.shader@
                        == crate::generators::binary::spec_build_shader(op),
                    OpSpec::Reduce { op, axes, .. } => p.shader@
                        == crate::generators::reduce::spec_build_shader(op, axes@),
                    OpSpec::Reshape { .. } => p.shader@
                        == crate::generators::reshape::spec_build_shader(),
                },
                _ => false,
            }
        },
{
    proof {
        assert(g.spec_node_wf(node.id as int));
    }
    let inputs = g.dependencies(node);
    let len = g.nodes[node.id as usize].view.len();
    let shader = match &g.nodes[node.id as usize].data {
        TensorInput::ExplicitInput(_) => {
            return None;
        },
        TensorInput::NoOp(_) => {
            return None;
        },
        TensorInput::OperationResult(op) => {
            match op {
                OpSpec::Unary { op, .. } => crate::generators::unary::build_shader(*op),
                OpSpec::Binary { op, .. } => crate::generators::binary::build_shader(*op),
                OpSpec::Reduce { op, axes, .. } => crate::generators::reduce::build_shader(
                    *op,
                    axes,
                ),
                OpSpec::Reshape { .. } => crate::generators::reshape::build_shader(),
            }
        },
    };
    Some(
        WebGPUPipeline {
            shader,
            inputs,
            output: node.id,
            dispatch_workgroups: WebGPUWorkGroup::from_len(len),
        },
    )
}

impl crate::view::TensorView {
    /// A structural copy of this view.
    pub fn copy(&self) -> (r: crate::view::TensorView)
        ensures
            spec_view_equiv(r, *self),
    {
        crate::view::TensorView {
            shape: crate::view::copy_words(&self.shape),
            stride: crate::view::copy_words(&self.stride),
            contiguous_stride: crate::view::copy_words(&self.contiguous_stride),
            offset: crate::view::copy_words(&self.offset),
        }
    }
}

/// The projection stride rule: where the right-aligned source extent equals
/// the output extent the source stride is kept, and everywhere else — on
/// broadcast or missing leading dimensions — the stride is zero, so the
/// kernel re-reads the same source element across the replicated extent.
pub open spec fn spec_projected_strides(
    p: crate::view::TensorView,
    src: crate::view::TensorView,
    out: crate::view::TensorView,
) -> bool {
    forall|k: int|
        0 <= k < out.shape@.len() ==> #[trigger] p.stride@[k] == (if k >= out.shape@.len()
            - src.shape@.len() && src.shape@[k - (out.shape@.len() - src.shape@.len())]
            == out.shape@[k] {
            src.stride@[k - (out.shape@.len() - src.shape@.len())]
        } else {
            0
        })
}

/// The views to pack as per-input metadata for one operation node, in the
/// order of its dependencies. Binary operands are projected into the
/// output's index space, with stride zero on broadcast dimensions; a
/// reshape's single input is addressed through the output's own dense view,
/// which makes the kernel's remapping the identity.
pub fn input_views(g: &TensorGraph, node: Tensor) -> (r: Vec<crate::view::TensorView>)
    requires
        g.wf(),
        g.spec_valid(node),
        g.nodes@[node.id as int].data is OperationResult,
    ensures
        r@.len() == spec_deps(g.nodes@[node.id as int].data).len(),
        forall|k: int| 0 <= k < r@.len() ==> (#[trigger] r@[k]).shape@.len() > 0,
        forall|k: int| 0 <= k < r@.len() ==> (#[trigger] r@[k]).wf(),
        match g.nodes@[node.id as int].data {
            TensorInput::OperationResult(op) => match op {
                OpSpec::Unary { input, .. } => spec_view_equiv(
                    r@[0],
                    g.nodes@[input as int].view,
                ),
                OpSpec::Reduce { input, .. } => spec_view_equiv(
                    r@[0],
                    g.nodes@[input as int].view,
                ),
                OpSpec::Reshape { .. } => spec_view_equiv(r@[0], g.nodes@[node.id as int].view),
                OpSpec::Binary { lhs, rhs, .. } => {
                    &&& r@[0].shape@ == g.nodes@[node.id as int].view.shape@
                    &&& r@[1].shape@ == g.nodes@[node.id as int].view.shape@
                    &&& r@[0].contiguous_stride@
                        == g.nodes@[node.id as int].view.contiguous_stride@
                    &&& r@[1].contiguous_stride@
                        == g.nodes@[node.id as int].view.contiguous_stride@
                    &&& spec_projected_strides(
                        r@[0],
                        g.nodes@[lhs as int].view,
                        g.nodes@[node.id as int].view,
                    )
                    &&& spec_projected_strides(
                        r@[1],
                        g.nodes@[rhs as int].view,
                        g.nodes@[node.id as int].view,
                    )
                },
            },
            _ => false,
        },
{
    proof {
        assert(g.spec_node_wf(node.id as int));
    }
    let mut r: Vec<crate::view::TensorView> = Vec::new();
    match &g.nodes[node.id as usize].data {
        TensorInput::ExplicitInput(_) => {
            proof {
                assert(false);
            }
        },
        TensorInput::NoOp(_) => {
            proof {
                assert(false);
            }
        },
        TensorInput::OperationResult(op) => {
            match op {
                OpSpec::Unary { input, .. } => {
                    proof {
                        assert(spec_deps(g.nodes@[node.id as int].data)[0] == *input);
                        assert((*input as int) < node.id as int);
                        assert(g.spec_node_wf(*input as int));
                    }
                    r.push(g.nodes[*input as usize].view.copy());
                },
                OpSpec::Reduce { input, .. } => {
                    proof {
                        assert(spec_deps(g.nodes@[node.id as int].data)[0] == *input);
                        assert((*input as int) < node.id as int);
                        assert(g.spec_node_wf(*input as int));
                    }
                    r.push(g.nodes[*input as usize].view.copy());
                },
                OpSpec::Reshape { .. } => {
                    r.push(g.nodes[node.id as usize].view.copy());
                },
                OpSpec::Binary { lhs, rhs, .. } => {
                    proof {
                        assert(spec_deps(g.nodes@[node.id as int].data)[0] == *lhs);
                        assert(spec_deps(g.nodes@[node.id as int].data)[1] == *rhs);
                        assert((*lhs as int) < node.id as int);
                        assert((*rhs as int) < node.id as int);
                        assert(g.spec_node_wf(*lhs as int));
                        assert(g.spec_node_wf(*rhs as int));
                        assert(g.nodes@[node.id as int].view.shape@.len() == crate::view::spec_out_rank(
                            g.nodes@[*lhs as int].view.shape@,
                            g.nodes@[*rhs as int].view.shape@,
                        ));
                    }
                    let out_view = &g.nodes[node.id as usize].view;
                    let pl = crate::view::TensorView::project_for_broadcast(
                        &g.nodes[*lhs as usize].view,
                        out_view,
                    );
                    let pr = crate::view::TensorView::project_for_broadcast(
                        &g.nodes[*rhs as usize].view,
                        out_view,
                    );
                    r.push(pl);
                    r.push(pr);
                },
            }
        },
    }
    r
}

/// The byte length of an operation's output buffer: four bytes per element.
pub fn output_byte_len(g: &TensorGraph, node: Tensor) -> (r: u64)
    requires
        g.wf(),
        g.spec_valid(node),
    ensures
        r == 4 * g.nodes@[node.id as int].view.spec_len(),
{
    proof {
        assert(g.spec_node_wf(node.id as int));
    }
    (g.nodes[node.id as usize].view.len() as u64) * 4
}

/// Copy a byte vector.
pub fn copy_bytes(v: &Vec<u8>) -> (r: Vec<u8>)
    ensures
        r@ == v@,
{
    let n = v.len();
    let mut r: Vec<u8> = Vec::new();
    let mut i: usize = 0;
    while i < n
        invariant
            n == v@.len(),
            i <= n,
            r@.len() == i,
            forall|j: int| 0 <= j < i ==> r@[j] == v@[j],
        decreases n - i,
    {
        r.push(v[i]);
        i = i + 1;
    }
    proof {
        assert(r@ =~= v@);
    }
    r
}

/// The materialized bytes of each node, indexed by id; `None` when the node
/// is not (or no longer) resident.
pub struct EvalState {
    pub materialized: Vec<Option<Vec<u8>>>,
}

impl EvalState {
    /// A state with no node materialized, sized for a graph of `n` nodes.
    pub fn new(n: usize) -> (st: EvalState)
        ensures
            st.materialized@.len() == n,
            forall|i: int| 0 <= i < n ==> st.materialized@[i] is None,
    {
        let mut m: Vec<Option<Vec<u8>>> = Vec::new();
        let mut k: usize = 0;
        while k < n
            invariant
                m@.len() == k,
                k <= n,
                forall|j: int| 0 <= j < k ==> m@[j] is None,
            decreases n - k,
        {
            m.push(None);
            k = k + 1;
        }
        EvalState { materialized: m }
    }

    /// The resident bytes of a node, or `InvariantViolation` when a
    /// dependency that should have been materialized is not: a scheduling or
    /// lifetime accounting bug.
    pub fn require_bytes(&self, id: u32) -> (r: Result<&Vec<u8>, TensorError>)
        requires
            (id as int) < self.materialized@.len(),
        ensures
            r is Ok <==> self.materialized@[id as int] is Some,
            r matches Ok(b) ==> self.materialized@[id as int] matches Some(bb) && bb@ == b@,
            r matches Err(e) ==> e matches TensorError::InvariantViolation,
    {
        match &self.materialized[id as usize] {
            Some(b) => Ok(b),
            None => Err(TensorError::InvariantViolation),
        }
    }

    /// Remove and return a node's bytes: how the pipeline hands the root's
    /// materialization to the caller.
    pub fn take_result(&mut self, id: u32) -> (r: Result<Vec<u8>, TensorError>)
        requires
            (id as int) < old(self).materialized@.len(),
        ensures
            final(self).materialized@.len() == old(self).materialized@.len(),
            r is Ok <==> old(self).materialized@[id as int] is Some,
            r matches Ok(b) ==> old(self).materialized@[id as int] matches Some(bb) && bb@ == b@,
            r is Ok ==> final(self).materialized@[id as int] is None,
            r matches Err(e) ==> e matches TensorError::InvariantViolation && final(self).materialized@ == old(self).materialized@,
            forall|k: int|
                0 <= k < old(self).materialized@.len() && k != id as int ==> final(self).materialized@[k] == old(self).materialized@[k],
    {
        let b = {
            match &self.materialized[id as usize] {
                Some(b) => copy_bytes(b),
                None => {
                    return Err(TensorError::InvariantViolation);
                },
            }
        };
        self.materialized.set(id as usize, None);
        Ok(b)
    }
}

/// Record the materialization of one scheduled node and free every
/// dependency whose last use this node is. An explicit input materializes
/// its own payload; a no-op copies its parent's resident bytes; an operation
/// stores what the GPU returned, refused as `BackendError` unless it is
/// exactly four bytes per output element. On success the node is resident,
/// and every dependency `d` with `last_use[d] == node` is no longer
/// resident.
pub fn apply_node(
    g: &TensorGraph,
    st: &mut EvalState,
    lu: &Vec<Option<u32>>,
    node: Tensor,
    gpu: Option<Vec<u8>>,
) -> (r: Result<(), TensorError>)
    requires
        g.wf(),
        g.spec_valid(node),
        g.nodes@.len() <= u32::MAX,
        old(st).materialized@.len() == g.nodes@.len(),
        lu@.len() == g.nodes@.len(),
    ensures
        final(st).materialized@.len() == g.nodes@.len(),
        r is Ok <==> match g.nodes@[node.id as int].data {
            TensorInput::ExplicitInput(_) => true,
            TensorInput::NoOp(p) => old(st).materialized@[p as int] is Some,
            TensorInput::OperationResult(_) => gpu matches Some(b) && b@.len() == 4 * g.nodes@[node.id as int].view.spec_len(),
        },
        r matches Err(e) ==> final(st).materialized@ == old(st).materialized@ && match g.nodes@[node.id as int].data {
            TensorInput::ExplicitInput(_) => false,
            TensorInput::NoOp(_) => e matches TensorError::InvariantViolation,
            TensorInput::OperationResult(_) => e matches TensorError::BackendError,
        },
        r is Ok ==> match g.nodes@[node.id as int].data {
            TensorInput::ExplicitInput(bytes) => final(st).materialized@[node.id as int] matches
                Some(b) && b@ == bytes@,
            TensorInput::NoOp(p) => old(st).materialized@[p as int] matches Some(pb) && (final(st).materialized@[node.id as int] matches Some(b) && b@ == pb@),
            TensorInput::OperationResult(_) => gpu matches Some(gb) && (final(st).materialized@[node.id as int] matches Some(b) && b@ == gb@),
        },
        r is Ok ==> forall|d: int|
            0 <= d < g.nodes@.len() && spec_deps(g.nodes@[node.id as int].data).contains(d as u32)
                && lu@[d] == Some(node.id) ==> final(st).materialized@[d] is None,
        r is Ok ==> forall|k: int|
            0 <= k < g.nodes@.len() && k != node.id as int && !(spec_deps(
                g.nodes@[node.id as int].data,
            ).contains(k as u32) && lu@[k] == Some(node.id)) ==> final(st).materialized@[k] == old(
                st,
            ).materialized@[k],
{
    proof {
        assert(g.spec_node_wf(node.id as int));
    }
    match &g.nodes[node.id as usize].data {
        TensorInput::ExplicitInput(bytes) => {
            let copy = copy_bytes(bytes);
            st.materialized.set(node.id as usize, Some(copy));
        },
        TensorInput::NoOp(p) => {
            proof {
                assert(spec_deps(g.nodes@[node.id as int].data)[0] == *p);
                assert((*p as int) < node.id as int);
            }
            let copy = {
                match &st.materialized[*p as usize] {
                    Some(b) => copy_bytes(b),
                    None => {
                        return Err(TensorError::InvariantViolation);
                    },
                }
            };
            st.materialized.set(node.id as usize, Some(copy));
        },
        TensorInput::OperationResult(_) => {
            let expected = (g.nodes[node.id as usize].view.len() as u64) * 4;
            let b = match gpu {
                Some(b) => b,
                None => {
                    return Err(TensorError::BackendError);
                },
            };
            if (b.len() as u64) != expected {
                return Err(TensorError::BackendError);
            }
            st.materialized.set(node.id as usize, Some(b));
        },
    }
    let ghost mid = st.materialized@;
    let ds = g.dependencies(node);
    let dn = ds.len();
    let mut j: usize = 0;
    while j < dn
        invariant
            g.wf(),
            g.spec_valid(node),
            g.nodes@.len() <= u32::MAX,
            st.materialized@.len() == g.nodes@.len(),
            mid == old(st).materialized@.update(node.id as int, mid[node.id as int]),
            lu@.len() == g.nodes@.len(),
            dn == ds@.len(),
            j <= dn,
            ds@ == spec_deps(g.nodes@[node.id as int].data),
            forall|l: int| 0 <= l < ds@.len() ==> (#[trigger] ds@[l] as int) < node.id as int,
            mid.len() == g.nodes@.len(),
            st.materialized@[node.id as int] == mid[node.id as int],
            forall|k: int|
                0 <= k < g.nodes@.len() && ds@.take(j as int).contains(k as u32) && lu@[k] == Some(
                    node.id,
                ) ==> st.materialized@[k] is None,
            forall|k: int|
                0 <= k < g.nodes@.len() && !(ds@.take(j as int).contains(k as u32) && lu@[k]
                    == Some(node.id)) ==> st.materialized@[k] == mid[k],
        decreases dn - j,
    {
        let d = ds[j];
        let ghost pre = st.materialized@;
        match lu[d as usize] {
            Some(l) => {
                if l == node.id {
                    st.materialized.set(d as usize, None);
                }
            },
            None => {},
        }
        proof {
            assert(ds@.take(j as int + 1) =~= ds@.take(j as int).push(ds@[j as int]));
            assert(ds@.take(j as int + 1)[j as int] == ds@[j as int]);
            assert forall|k: int|
                0 <= k < g.nodes@.len() && ds@.take(j as int + 1).contains(k as u32) && lu@[k]
                    == Some(node.id) implies st.materialized@[k] is None by {
                if k == ds@[j as int] as int {
                } else {
                    assert(ds@.take(j as int).contains(k as u32)) by {
                        let w = choose|w: int|
                            0 <= w < ds@.take(j as int + 1).len() && #[trigger] ds@.take(
                                j as int + 1,
                            )[w] == k as u32;
                        assert(w != j as int);
                        assert(ds@.take(j as int)[w] == k as u32);
                    }
                    assert(pre[k] is None);
                }
            }
            assert forall|k: int|
                0 <= k < g.nodes@.len() && !(ds@.take(j as int + 1).contains(k as u32) && lu@[k]
                    == Some(node.id)) implies st.materialized@[k] == mid[k] by {
                if k == ds@[j as int] as int {
                    assert(ds@.take(j as int + 1).contains(k as u32));
                    assert(st.materialized@[k] == pre[k]);
                    assert(!(ds@.take(j as int).contains(k as u32) && lu@[k] == Some(node.id)));
                } else {
                    if ds@.take(j as int).contains(k as u32) {
                        let w = choose|w: int|
                            0 <= w < ds@.take(j as int).len() && #[trigger] ds@.take(
                                j as int,
                            )[w] == k as u32;
                        assert(ds@.take(j as int + 1)[w] == k as u32);
                        assert(ds@.take(j as int + 1).contains(k as u32));
                    }
                    assert(st.materialized@[k] == pre[k]);
                }
            }
        }
        j = j + 1;
    }
    proof {
        assert(ds@.take(dn as int) =~= ds@);
        assert forall|k: int|
            0 <= k < g.nodes@.len() && k != node.id as int && !(spec_deps(
                g.nodes@[node.id as int].data,
            ).contains(k as u32) && lu@[k] == Some(node.id)) implies st.materialized@[k] == old(
            st,
        ).materialized@[k] by {
            assert(st.materialized@[k] == mid[k]);
            assert(mid[k] == old(st).materialized@[k]);
        }
    }
    Ok(())
}

} // verus!

