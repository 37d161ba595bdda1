//! View algebra: the shape / stride / offset metadata that maps a logical
//! tensor index space onto a flat storage buffer, together with broadcasting,
//! contiguity checks and the strided-offset index mapping that the compute
//! kernels perform.
use vstd::prelude::*;
use vstd::arithmetic::div_mod::{lemma_fundamental_div_mod, lemma_mod_division_less_than_divisor};
use vstd::arithmetic::mul::lemma_mul_inequality;
use itertools::Itertools;
use itertools::EitherOrBoth;

use crate::TensorError;

verus! {

/// Every metadata word (extent, stride, offset) is a 32-bit unsigned integer.
pub type ViewType = u32;

/// Product of a sequence of dimension extents.
pub open spec fn spec_product(s: Seq<u32>) -> int
    decreases s.len(),
{
    if s.len() == 0 {
        1
    } else {
        s[0] * spec_product(s.skip(1))
    }
}

/// A shape the engine accepts: non-empty, every extent at least one, the
/// element count representable as a 32-bit word, and a rank low enough that
/// the four metadata sections can be addressed with 32-bit words.
pub open spec fn spec_valid_shape(s: Seq<u32>) -> bool {
    &&& 1 <= s.len() <= 0x3fffffff
    &&& forall|i: int| 0 <= i < s.len() ==> s[i] >= 1
    &&& spec_product(s) <= u32::MAX
}

pub proof fn lemma_product_pos(s: Seq<u32>)
    requires
        forall|i: int| 0 <= i < s.len() ==> s[i] >= 1,
    ensures
        spec_product(s) >= 1,
    decreases s.len(),
{
    if s.len() > 0 {
        assert(forall|i: int| 0 <= i < s.skip(1).len() ==> s.skip(1)[i] >= 1);
        lemma_product_pos(s.skip(1));
        lemma_mul_inequality(1, s[0] as int, spec_product(s.skip(1)));
    }
}

pub proof fn lemma_product_skip_step(s: Seq<u32>, i: int)
    requires
        0 <= i < s.len(),
    ensures
        spec_product(s.skip(i)) == s[i] * spec_product(s.skip(i + 1)),
{
    assert(s.skip(i).len() > 0);
    assert(s.skip(i)[0] == s[i]);
    assert(s.skip(i).skip(1) =~= s.skip(i + 1));
}

/// Dropping leading extents can only shrink the product, since every extent
/// is at least one.
pub proof fn lemma_product_skip_le(s: Seq<u32>, i: int)
    requires
        forall|k: int| 0 <= k < s.len() ==> s[k] >= 1,
        0 <= i <= s.len(),
    ensures
        1 <= spec_product(s.skip(i)) <= spec_product(s),
    decreases i,
{
    assert(forall|k: int| 0 <= k < s.skip(i).len() ==> s.skip(i)[k] >= 1);
    lemma_product_pos(s.skip(i));
    if i == 0 {
        assert(s.skip(0) =~= s);
    } else {
        lemma_product_skip_le(s, i - 1);
        lemma_product_skip_step(s, i - 1);
        lemma_mul_inequality(1, s[i - 1] as int, spec_product(s.skip(i)));
    }
}

/// A product only shrinks when every extent shrinks or stays.
pub proof fn lemma_product_pointwise_le(a: Seq<u32>, b: Seq<u32>)
    requires
        a.len() == b.len(),
        forall|i: int| 0 <= i < a.len() ==> 1 <= #[trigger] a[i] <= b[i],
    ensures
        1 <= spec_product(a) <= spec_product(b),
    decreases a.len(),
{
    assert forall|i: int| 0 <= i < b.len() implies #[trigger] b[i] >= 1 by {
        assert(1 <= a[i] <= b[i]);
    }
    lemma_product_pos(a);
    lemma_product_pos(b);
    if a.len() > 0 {
        assert(forall|i: int|
            0 <= i < a.skip(1).len() ==> 1 <= #[trigger] a.skip(1)[i] <= b.skip(1)[i]);
        lemma_product_pointwise_le(a.skip(1), b.skip(1));
        assert(a[0] * spec_product(a.skip(1)) <= b[0] * spec_product(b.skip(1))) by {
            lemma_mul_inequality(spec_product(a.skip(1)), spec_product(b.skip(1)), a[0] as int);
            lemma_mul_inequality(a[0] as int, b[0] as int, spec_product(b.skip(1)));
            assert(spec_product(a.skip(1)) * a[0] == a[0] * spec_product(a.skip(1)))
                by (nonlinear_arith);
            assert(spec_product(b.skip(1)) * a[0] == a[0] * spec_product(b.skip(1)))
                by (nonlinear_arith);
        }
    }
}

/// How a logical tensor of a given shape indexes a flat buffer. All four
/// sequences have the same length, the rank. A stride of zero marks a
/// broadcast dimension.
#[derive(Clone, Debug, PartialEq)]
pub struct TensorView {
    pub shape: Vec<ViewType>,
    pub stride: Vec<ViewType>,
    pub contiguous_stride: Vec<ViewType>,
    pub offset: Vec<ViewType>,
}

impl TensorView {
    pub open spec fn rank(self) -> int {
        self.shape@.len() as int
    }

    /// Well-formedness: equal lengths, extents at least one, and the
    /// `contiguous_stride` field really is the right-cumulative product of
    /// the shape (so `contiguous_stride[rank-1] == 1`).
    pub open spec fn wf(self) -> bool {
        &&& self.stride@.len() == self.shape@.len()
        &&& self.contiguous_stride@.len() == self.shape@.len()
        &&& self.offset@.len() == self.shape@.len()
        &&& spec_valid_shape(self.shape@)
        &&& forall|i: int|
            0 <= i < self.shape@.len() ==> self.contiguous_stride@[i] == spec_product(
                self.shape@.skip(i + 1),
            )
    }

    /// The number of logical elements.
    pub open spec fn spec_len(self) -> int {
        spec_product(self.shape@)
    }

    /// A view is contiguous when it walks its buffer densely in row-major
    /// order from offset zero.
    pub open spec fn spec_contiguous(self) -> bool {
        &&& self.stride@ == self.contiguous_stride@
        &&& forall|i: int| 0 <= i < self.offset@.len() ==> self.offset@[i] == 0
    }

    /// Right-to-left cumulative product of a shape, starting from one: the
    /// strides of a dense row-major layout.
    pub fn contiguous_stride(shape: &Vec<ViewType>) -> (cs: Vec<ViewType>)
        requires
            spec_valid_shape(shape@),
        ensures
            cs@.len() == shape@.len(),
            forall|i: int| 0 <= i < cs@.len() ==> cs@[i] == spec_product(shape@.skip(i + 1)),
    {
        let n = shape.len();
        let mut cs: Vec<u32> = Vec::new();
        let mut k: usize = 0;
        while k < n
            invariant
                cs@.len() == k,
                k <= n,
            decreases n - k,
        {
            cs.push(0);
            k = k + 1;
        }
        let mut acc: u32 = 1;
        let mut i: usize = n;
        while i > 0
            invariant
                spec_valid_shape(shape@),
                n == shape@.len(),
                cs@.len() == n,
                i <= n,
                acc == spec_product(shape@.skip(i as int)),
                forall|j: int| i <= j < n ==> cs@[j] == spec_product(shape@.skip(j + 1)),
            decreases i,
        {
            i = i - 1;
            cs.set(i, acc);
            proof {
                lemma_product_skip_step(shape@, i as int);
                lemma_product_skip_le(shape@, i as int);
            }
            acc = shape[i] * acc;
        }
        proof {
            assert(shape@.skip(0) =~= shape@);
        }
        cs
    }

    /// Dense row-major view of the given shape: stride equals the contiguous
    /// stride and all offsets are zero.
    pub fn from_shape(shape: &Vec<ViewType>) -> (v: TensorView)
        requires
            spec_valid_shape(shape@),
        ensures
            v.wf(),
            v.shape@ == shape@,
            v.spec_contiguous(),
    {
        let cs = Self::contiguous_stride(shape);
        let stride = Self::contiguous_stride(shape);
        let n = shape.len();
        let mut offset: Vec<u32> = Vec::new();
        let mut k: usize = 0;
        while k < n
            invariant
                offset@.len() == k,
                k <= n,
                forall|i: int| 0 <= i < k ==> offset@[i] == 0,
            decreases n - k,
        {
            offset.push(0);
            k = k + 1;
        }
        let mut sh: Vec<u32> = Vec::new();
        let mut j: usize = 0;
        while j < n
            invariant
                sh@.len() == j,
                j <= n,
                n == shape@.len(),
                forall|i: int| 0 <= i < j ==> sh@[i] == shape@[i],
            decreases n - j,
        {
            sh.push(shape[j]);
            j = j + 1;
        }
        proof {
            assert(sh@ =~= shape@);
            assert(stride@ =~= cs@);
        }
        TensorView { shape: sh, stride, contiguous_stride: cs, offset }
    }

    /// The element count; by well-formedness it equals the product of the
    /// shape, computed as `shape[0] * contiguous_stride[0]`.
    pub fn len(&self) -> (r: ViewType)
        requires
            self.wf(),
        ensures
            r == self.spec_len(),
    {
        proof {
            lemma_product_skip_step(self.shape@, 0);
            lemma_product_skip_le(self.shape@, 0);
            assert(self.shape@.skip(0) =~= self.shape@);
        }
        self.shape[0] * self.contiguous_stride[0]
    }

    /// The rank.
    pub fn dimension(&self) -> (r: ViewType)
        requires
            self.wf(),
        ensures
            r == self.rank(),
    {
        self.shape.len() as u32
    }

    /// True iff the view is already dense row-major from offset zero.
    pub fn is_contiguous(&self) -> (r: bool)
        requires
            self.wf(),
        ensures
            r == self.spec_contiguous(),
    {
        let n = self.shape.len();
        let mut i: usize = 0;
        while i < n
            invariant
                self.wf(),
                n == self.shape@.len(),
                i <= n,
                forall|j: int| 0 <= j < i ==> self.stride@[j] == self.contiguous_stride@[j],
                forall|j: int| 0 <= j < i ==> self.offset@[j] == 0,
            decreases n - i,
        {
            if self.stride[i] != self.contiguous_stride[i] || self.offset[i] != 0 {
                return false;
            }
            i = i + 1;
        }
        proof {
            assert(self.stride@ =~= self.contiguous_stride@);
        }
        true
    }

    /// True iff the runtime must first materialize a contiguous copy before
    /// treating this view as dense.
    pub fn as_contiguous_required(&self) -> (r: bool)
        requires
            self.wf(),
        ensures
            r == !self.spec_contiguous(),
    {
        !self.is_contiguous()
    }
}

/// Broadcasting from a source shape to a target shape of the same rank:
/// dimension by dimension the extents agree, or the source extent is one.
pub open spec fn spec_broadcastable_to(s: Seq<u32>, t: Seq<u32>) -> bool {
    &&& s.len() == t.len()
    &&& forall|i: int| 0 <= i < s.len() ==> s[i] == t[i] || s[i] == 1
}

impl TensorView {
    /// Same-rank broadcast test of this view's shape against the target's.
    pub fn broadcastable_to(&self, target: &TensorView) -> (r: bool)
        requires
            self.wf(),
            target.wf(),
        ensures
            r == spec_broadcastable_to(self.shape@, target.shape@),
    {
        if self.shape.len() != target.shape.len() {
            return false;
        }
        let n = self.shape.len();
        let mut i: usize = 0;
        while i < n
            invariant
                self.wf(),
                target.wf(),
                n == self.shape@.len(),
                n == target.shape@.len(),
                i <= n,
                forall|j: int| 0 <= j < i ==> self.shape@[j] == target.shape@[j]
                    || self.shape@[j] == 1,
            decreases n - i,
        {
            if self.shape[i] != target.shape[i] && self.shape[i] != 1 {
                return false;
            }
            i = i + 1;
        }
        true
    }
}

/// Extent of shape `s` at position `i` of a right-aligned frame of rank `n`;
/// missing leading dimensions count as one.
pub open spec fn spec_aligned_extent(s: Seq<u32>, n: int, i: int) -> u32 {
    if i >= n - s.len() {
        s[i - (n - s.len())]
    } else {
        1
    }
}

/// The rank of the broadcast result of two shapes.
pub open spec fn spec_out_rank(a: Seq<u32>, b: Seq<u32>) -> int {
    if a.len() >= b.len() {
        a.len() as int
    } else {
        b.len() as int
    }
}

/// Right-aligned elementwise maximum of two shapes.
pub open spec fn spec_out_shape(a: Seq<u32>, b: Seq<u32>) -> Seq<u32> {
    Seq::new(
        spec_out_rank(a, b) as nat,
        |i: int|
            {
                let x = spec_aligned_extent(a, spec_out_rank(a, b), i);
                let y = spec_aligned_extent(b, spec_out_rank(a, b), i);
                if x >= y {
                    x
                } else {
                    y
                }
            },
    )
}

/// Two shapes broadcast together when, right-aligned, each pair of extents
/// agrees or one of them is one.
pub open spec fn spec_shapes_broadcast_ok(a: Seq<u32>, b: Seq<u32>) -> bool {
    forall|i: int|
        0 <= i < spec_out_rank(a, b) ==> {
            let x = #[trigger] spec_aligned_extent(a, spec_out_rank(a, b), i);
            let y = spec_aligned_extent(b, spec_out_rank(a, b), i);
            x == y || x == 1 || y == 1
        }
}

/// Relies on itertools' `zip_longest` over the two reversed slices: entry `k`
/// of the result pairs the `k`-th element from the end of each input, with
/// `None` once the shorter input is exhausted.
#[verifier::external_body]
fn zip_longest_rev(a: &Vec<u32>, b: &Vec<u32>) -> (r: Vec<(Option<u32>, Option<u32>)>)
    ensures
        r@.len() == spec_out_rank(a@, b@),
        forall|k: int|
            0 <= k < r@.len() ==> #[trigger] r@[k].0 == (if k < a@.len() {
                Some(a@[a@.len() - 1 - k])
            } else {
                Option::<u32>::None
            }),
        forall|k: int|
            0 <= k < r@.len() ==> #[trigger] r@[k].1 == (if k < b@.len() {
                Some(b@[b@.len() - 1 - k])
            } else {
                Option::<u32>::None
            }),
{
    a.iter()
        .rev()
        .zip_longest(b.iter().rev())
        .map(|e| match e {
            EitherOrBoth::Both(&x, &y) => (Some(x), Some(y)),
            EitherOrBoth::Left(&x) => (Some(x), None),
            EitherOrBoth::Right(&y) => (None, Some(y)),
        })
        .collect()
}

/// Right-aligned elementwise maximum of two shapes: the shape of the result
/// of a broadcast binary operation.
pub fn compute_output_shape(a: &Vec<ViewType>, b: &Vec<ViewType>) -> (r: Vec<ViewType>)
    ensures
        r@ == spec_out_shape(a@, b@),
{
    let zl = zip_longest_rev(a, b);
    let n = zl.len();
    let mut out: Vec<u32> = Vec::new();
    let mut idx: usize = 0;
    while idx < n
        invariant
            n == zl@.len(),
            n == spec_out_rank(a@, b@),
            forall|k: int|
                0 <= k < n ==> #[trigger] zl@[k].0 == (if k < a@.len() {
                    Some(a@[a@.len() - 1 - k])
                } else {
                    Option::<u32>::None
                }),
            forall|k: int|
                0 <= k < n ==> #[trigger] zl@[k].1 == (if k < b@.len() {
                    Some(b@[b@.len() - 1 - k])
                } else {
                    Option::<u32>::None
                }),
            idx <= n,
            out@.len() == idx,
            forall|i: int| 0 <= i < idx ==> out@[i] == spec_out_shape(a@, b@)[i],
        decreases n - idx,
    {
        let k = n - 1 - idx;
        let x = match zl[k].0 {
            Some(v) => v,
            None => 1,
        };
        let y = match zl[k].1 {
            Some(v) => v,
            None => 1,
        };
        let m = if x >= y {
            x
        } else {
            y
        };
        proof {
            assert(x == spec_aligned_extent(a@, n as int, idx as int));
            assert(y == spec_aligned_extent(b@, n as int, idx as int));
        }
        out.push(m);
        idx = idx + 1;
    }
    proof {
        assert(out@ =~= spec_out_shape(a@, b@));
    }
    out
}

/// True iff the two shapes are broadcast-compatible, right-aligned.
pub fn shapes_broadcast_ok(a: &Vec<ViewType>, b: &Vec<ViewType>) -> (r: bool)
    ensures
        r == spec_shapes_broadcast_ok(a@, b@),
{
    let zl = zip_longest_rev(a, b);
    let n = zl.len();
    let mut idx: usize = 0;
    while idx < n
        invariant
            n == zl@.len(),
            n == spec_out_rank(a@, b@),
            forall|k: int|
                0 <= k < n ==> #[trigger] zl@[k].0 == (if k < a@.len() {
                    Some(a@[a@.len() - 1 - k])
                } else {
                    Option::<u32>::None
                }),
            forall|k: int|
                0 <= k < n ==> #[trigger] zl@[k].1 == (if k < b@.len() {
                    Some(b@[b@.len() - 1 - k])
                } else {
                    Option::<u32>::None
                }),
            idx <= n,
            forall|i: int|
                0 <= i < idx ==> {
                    let x = #[trigger] spec_aligned_extent(a@, n as int, i);
                    let y = spec_aligned_extent(b@, n as int, i);
                    x == y || x == 1 || y == 1
                },
        decreases n - idx,
    {
        let k = n - 1 - idx;
        let x = match zl[k].0 {
            Some(v) => v,
            None => 1,
        };
        let y = match zl[k].1 {
            Some(v) => v,
            None => 1,
        };
        proof {
            assert(x == spec_aligned_extent(a@, n as int, idx as int));
            assert(y == spec_aligned_extent(b@, n as int, idx as int));
        }
        if x != y && x != 1 && y != 1 {
            return false;
        }
        idx = idx + 1;
    }
    true
}

/// Product of a shape whose extents are all at least one, refusing counts
/// beyond the 32-bit range.
pub fn checked_len(shape: &Vec<ViewType>) -> (r: Option<ViewType>)
    requires
        shape@.len() >= 1,
        forall|i: int| 0 <= i < shape@.len() ==> shape@[i] >= 1,
    ensures
        match r {
            Some(p) => p == spec_product(shape@) && spec_product(shape@) <= u32::MAX,
            None => spec_product(shape@) > u32::MAX,
        },
{
    let n = shape.len();
    let mut acc: u64 = 1;
    let mut i: usize = n;
    while i > 0
        invariant
            n == shape@.len(),
            forall|k: int| 0 <= k < n ==> shape@[k] >= 1,
            i <= n,
            acc == spec_product(shape@.skip(i as int)),
            acc <= u32::MAX,
        decreases i,
    {
        i = i - 1;
        proof {
            lemma_product_skip_step(shape@, i as int);
            lemma_product_pos(shape@.skip(i as int + 1));
            vstd::arithmetic::mul::lemma_mul_upper_bound(
                shape@[i as int] as int,
                u32::MAX as int,
                acc as int,
                u32::MAX as int,
            );
        }
        acc = (shape[i] as u64) * acc;
        if acc > u32::MAX as u64 {
            proof {
                lemma_product_skip_le(shape@, i as int);
            }
            return None;
        }
    }
    proof {
        assert(shape@.skip(0) =~= shape@);
    }
    Some(acc as u32)
}

impl TensorView {
    /// Broadcast two views together: the result is the dense view of the
    /// right-aligned elementwise maximum of the shapes. Fails with
    /// `InvalidShape` exactly when the shapes are not broadcast-compatible
    /// or the resulting element count does not fit in 32 bits.
    pub fn broadcast(a: &TensorView, b: &TensorView) -> (r: Result<TensorView, TensorError>)
        requires
            a.wf(),
            b.wf(),
        ensures
            r is Ok <==> spec_shapes_broadcast_ok(a.shape@, b.shape@) && spec_product(
                spec_out_shape(a.shape@, b.shape@),
            ) <= u32::MAX,
            r matches Ok(v) ==> v.wf() && v.shape@ == spec_out_shape(a.shape@, b.shape@)
                && v.spec_contiguous(),
            r matches Err(e) ==> e matches TensorError::InvalidShape,
    {
        if !shapes_broadcast_ok(&a.shape, &b.shape) {
            return Err(TensorError::InvalidShape);
        }
        let shape = compute_output_shape(&a.shape, &b.shape);
        assert(shape@.len() >= 1);
        assert forall|i: int| 0 <= i < shape@.len() implies shape@[i] >= 1 by {
            assert(spec_aligned_extent(a.shape@, shape@.len() as int, i) >= 1);
            assert(spec_aligned_extent(b.shape@, shape@.len() as int, i) >= 1);
        }
        match checked_len(&shape) {
            Some(_) => Ok(Self::from_shape(&shape)),
            None => Err(TensorError::InvalidShape),
        }
    }

    /// Project a source view into the index space of a broadcast target:
    /// same shape and contiguous stride as the target, zero offsets, and the
    /// source stride wherever the extents agree — stride zero (replication)
    /// on broadcast or missing leading dimensions.
    pub fn project_for_broadcast(src: &TensorView, out: &TensorView) -> (p: TensorView)
        requires
            src.wf(),
            out.wf(),
            out.shape@.len() >= src.shape@.len(),
        ensures
            p.wf(),
            p.shape@ == out.shape@,
            p.contiguous_stride@ == out.contiguous_stride@,
            forall|i: int| 0 <= i < p.offset@.len() ==> p.offset@[i] == 0,
            forall|k: int|
                0 <= k < out.shape@.len() ==> #[trigger] p.stride@[k] == (if k >= out.shape@.len()
                    - src.shape@.len() && src.shape@[k - (out.shape@.len() - src.shape@.len())]
                    == out.shape@[k] {
                    src.stride@[k - (out.shape@.len() - src.shape@.len())]
                } else {
                    0
                }),
    {
        let n = out.shape.len();
        let d = n - src.shape.len();
        let shape = copy_words(&out.shape);
        let cs = copy_words(&out.contiguous_stride);
        let mut offset: Vec<u32> = Vec::new();
        let mut stride: Vec<u32> = Vec::new();
        let mut k: usize = 0;
        while k < n
            invariant
                src.wf(),
                out.wf(),
                n == out.shape@.len(),
                d == n - src.shape@.len(),
                k <= n,
                offset@.len() == k,
                stride@.len() == k,
                forall|i: int| 0 <= i < k ==> offset@[i] == 0,
                forall|i: int|
                    0 <= i < k ==> #[trigger] stride@[i] == (if i >= d && src.shape@[i - d]
                        == out.shape@[i] {
                        src.stride@[i - d]
                    } else {
                        0
                    }),
            decreases n - k,
        {
            offset.push(0);
            if k >= d && src.shape[k - d] == out.shape[k] {
                stride.push(src.stride[k - d]);
            } else {
                stride.push(0);
            }
            k = k + 1;
        }
        TensorView { shape, stride, contiguous_stride: cs, offset }
    }
}

/// Copy a vector of metadata words.
pub fn copy_words(v: &Vec<ViewType>) -> (r: Vec<ViewType>)
    ensures
        r@ == v@,
{
    let n = v.len();
    let mut r: Vec<u32> = Vec::new();
    let mut i: usize = 0;
    while i < n
        invariant
            n == v@.len(),
            i <= n,
            r@.len() == i,
            forall|j: int| 0 <= j < i ==> r@[j] == v@[j],
        decreases n - i,
    {
        r.push(v[i]);
        i = i + 1;
    }
    proof {
        assert(r@ =~= v@);
    }
    r
}

/// True iff `x` occurs in the axis list.
pub fn contains_axis(axes: &Vec<u32>, x: u32) -> (r: bool)
    ensures
        r == axes@.contains(x),
{
    let n = axes.len();
    let mut i: usize = 0;
    while i < n
        invariant
            n == axes@.len(),
            i <= n,
            forall|j: int| 0 <= j < i ==> axes@[j] != x,
        decreases n - i,
    {
        if axes[i] == x {
            assert(axes@[i as int] == x);
            return true;
        }
        i = i + 1;
    }
    assert(!axes@.contains(x));
    false
}

/// The input shape with every reduced axis collapsed to extent one.
pub open spec fn spec_reduce_shape(shape: Seq<u32>, axes: Seq<u32>) -> Seq<u32> {
    Seq::new(
        shape.len(),
        |i: int|
            if axes.contains(i as u32) {
                1
            } else {
                shape[i]
            },
    )
}

impl TensorView {
    /// The view of a reduction's output: reduced axes get extent one, and the
    /// result is laid out densely. Reducing along no axes leaves the shape
    /// unchanged.
    pub fn reduce(&self, axes: &Vec<u32>) -> (r: TensorView)
        requires
            self.wf(),
        ensures
            r.wf(),
            r.shape@ == spec_reduce_shape(self.shape@, axes@),
            r.spec_contiguous(),
            axes@.len() == 0 ==> r.shape@ == self.shape@,
    {
        let n = self.shape.len();
        let mut shape: Vec<u32> = Vec::new();
        let mut i: usize = 0;
        while i < n
            invariant
                self.wf(),
                n == self.shape@.len(),
                i <= n,
                shape@.len() == i,
                forall|j: int| 0 <= j < i ==> shape@[j] == spec_reduce_shape(self.shape@, axes@)[j],
            decreases n - i,
        {
            if contains_axis(axes, i as u32) {
                shape.push(1);
            } else {
                shape.push(self.shape[i]);
            }
            i = i + 1;
        }
        proof {
            assert(shape@ =~= spec_reduce_shape(self.shape@, axes@));
            assert forall|j: int| 0 <= j < shape@.len() implies 1 <= #[trigger] shape@[j]
                <= self.shape@[j] by {}
            lemma_product_pointwise_le(shape@, self.shape@);
            if axes@.len() == 0 {
                assert(shape@ =~= self.shape@);
            }
        }
        Self::from_shape(&shape)
    }
}

/// The strided-offset remapping a kernel performs: peel the linear output
/// index into per-dimension coordinates with the output's contiguous strides,
/// and re-linearize them with the input's strides.
pub open spec fn spec_mapped_index(out_cs: Seq<u32>, in_stride: Seq<u32>, lin: int) -> int
    decreases out_cs.len(),
{
    if out_cs.len() == 0 || out_cs.len() != in_stride.len() || out_cs[0] == 0 {
        0
    } else {
        (lin / out_cs[0] as int) * in_stride[0] + spec_mapped_index(
            out_cs.skip(1),
            in_stride.skip(1),
            lin % out_cs[0] as int,
        )
    }
}

pub proof fn lemma_mapped_index_nonneg(out_cs: Seq<u32>, in_stride: Seq<u32>, lin: int)
    requires
        lin >= 0,
        forall|i: int| 0 <= i < out_cs.len() ==> out_cs[i] >= 1,
    ensures
        spec_mapped_index(out_cs, in_stride, lin) >= 0,
    decreases out_cs.len(),
{
    if out_cs.len() == 0 || out_cs.len() != in_stride.len() {
    } else {
        vstd::arithmetic::div_mod::lemma_div_pos_is_pos(lin, out_cs[0] as int);
        lemma_mod_division_less_than_divisor(lin, out_cs[0] as int);
        vstd::arithmetic::mul::lemma_mul_nonnegative(lin / out_cs[0] as int, in_stride[0] as int);
        assert(forall|i: int|
            0 <= i < out_cs.skip(1).len() ==> #[trigger] out_cs.skip(1)[i] >= 1);
        lemma_mapped_index_nonneg(out_cs.skip(1), in_stride.skip(1), lin % out_cs[0] as int);
    }
}

/// When the input walks its buffer with exactly the output's contiguous
/// strides, the strided-offset remapping is the identity.
pub proof fn lemma_mapped_index_identity(cs: Seq<u32>, lin: int)
    requires
        cs.len() >= 1,
        forall|i: int| 0 <= i < cs.len() ==> cs[i] >= 1,
        cs[cs.len() - 1] == 1,
        lin >= 0,
    ensures
        spec_mapped_index(cs, cs, lin) == lin,
    decreases cs.len(),
{
    if cs.len() == 1 {
        vstd::arithmetic::div_mod::lemma_div_basics(lin);
        assert(spec_mapped_index(cs.skip(1), cs.skip(1), lin % 1) == 0);
    } else {
        let c0 = cs[0] as int;
        lemma_mod_division_less_than_divisor(lin, c0);
        assert(forall|i: int| 0 <= i < cs.skip(1).len() ==> #[trigger] cs.skip(1)[i] >= 1);
        assert(cs.skip(1)[cs.skip(1).len() - 1] == 1);
        lemma_mapped_index_identity(cs.skip(1), lin % c0);
        lemma_fundamental_div_mod(lin, c0);
        assert((lin / c0) * c0 == c0 * (lin / c0)) by (nonlinear_arith);
    }
}

/// Remap a linear index of the output's dense iteration space to the
/// corresponding strided position in an input buffer, honoring broadcast
/// strides of zero.
pub fn mapped_index(out_cs: &Vec<ViewType>, in_stride: &Vec<ViewType>, index: ViewType) -> (r:
    ViewType)
    requires
        out_cs@.len() == in_stride@.len(),
        forall|i: int| 0 <= i < out_cs@.len() ==> out_cs@[i] >= 1,
        spec_mapped_index(out_cs@, in_stride@, index as int) <= u32::MAX,
    ensures
        r == spec_mapped_index(out_cs@, in_stride@, index as int),
{
    let n = out_cs.len();
    proof {
        assert(out_cs@.skip(0) =~= out_cs@);
        assert(in_stride@.skip(0) =~= in_stride@);
    }
    let mut acc: u32 = 0;
    let mut lin: u32 = index;
    let mut k: usize = 0;
    while k < n
        invariant
            n == out_cs@.len(),
            n == in_stride@.len(),
            forall|i: int| 0 <= i < n ==> out_cs@[i] >= 1,
            k <= n,
            acc + spec_mapped_index(out_cs@.skip(k as int), in_stride@.skip(k as int), lin as int)
                == spec_mapped_index(out_cs@, in_stride@, index as int),
            spec_mapped_index(out_cs@, in_stride@, index as int) <= u32::MAX,
        decreases n - k,
    {
        proof {
            assert(out_cs@.skip(k as int)[0] == out_cs@[k as int]);
            assert(out_cs@.skip(k as int).skip(1) =~= out_cs@.skip(k as int + 1));
            assert(in_stride@.skip(k as int).skip(1) =~= in_stride@.skip(k as int + 1));
            vstd::arithmetic::div_mod::lemma_div_pos_is_pos(lin as int, out_cs@[k as int] as int);
            lemma_mod_division_less_than_divisor(lin as int, out_cs@[k as int] as int);
            vstd::arithmetic::mul::lemma_mul_nonnegative(
                lin as int / out_cs@[k as int] as int,
                in_stride@[k as int] as int,
            );
            assert(forall|i: int|
                0 <= i < out_cs@.skip(k as int + 1).len() ==> #[trigger] out_cs@.skip(
                    k as int + 1,
                )[i] >= 1);
            lemma_mapped_index_nonneg(
                out_cs@.skip(k as int + 1),
                in_stride@.skip(k as int + 1),
                lin as int % out_cs@[k as int] as int,
            );
        }
        let q = lin / out_cs[k];
        let term = q * in_stride[k];
        acc = acc + term;
        lin = lin % out_cs[k];
        k = k + 1;
    }
    assert(out_cs@.skip(n as int).len() == 0);
    acc
}

/// Every well-formed view keeps the central bookkeeping invariants: its
/// element count is the product of its shape, and its `contiguous_stride`
/// field is the right-cumulative product of the shape, ending at one.
pub proof fn lemma_view_invariants(v: TensorView)
    requires
        v.wf(),
    ensures
        v.spec_len() == spec_product(v.shape@),
        forall|i: int|
            0 <= i < v.rank() ==> v.contiguous_stride@[i] == spec_product(v.shape@.skip(i + 1)),
        v.contiguous_stride@[v.rank() - 1] == 1,
{
    assert(v.shape@.skip(v.rank()).len() == 0);
}

/// Broadcasting is symmetric in its operands: swapping them changes neither
/// whether they are compatible nor the resulting shape. This is the
/// shape-level half of the commutativity of broadcast addition; the
/// element sums themselves are the kernel's floating-point arithmetic,
/// which the library does not compute.
pub proof fn lemma_broadcast_symmetric(a: Seq<u32>, b: Seq<u32>)
    ensures
        spec_out_shape(a, b) == spec_out_shape(b, a),
        spec_shapes_broadcast_ok(a, b) == spec_shapes_broadcast_ok(b, a),
{
    assert(spec_out_shape(a, b) =~= spec_out_shape(b, a));
    if spec_shapes_broadcast_ok(a, b) {
        assert forall|i: int| 0 <= i < spec_out_rank(b, a) implies {
            let x = #[trigger] spec_aligned_extent(b, spec_out_rank(b, a), i);
            let y = spec_aligned_extent(a, spec_out_rank(b, a), i);
            x == y || x == 1 || y == 1
        } by {
            assert(spec_aligned_extent(a, spec_out_rank(a, b), i) == spec_aligned_extent(
                b,
                spec_out_rank(a, b),
                i,
            ) || spec_aligned_extent(a, spec_out_rank(a, b), i) == 1 || spec_aligned_extent(
                b,
                spec_out_rank(a, b),
                i,
            ) == 1);
        }
    }
    if spec_shapes_broadcast_ok(b, a) {
        assert forall|i: int| 0 <= i < spec_out_rank(a, b) implies {
            let x = #[trigger] spec_aligned_extent(a, spec_out_rank(a, b), i);
            let y = spec_aligned_extent(b, spec_out_rank(a, b), i);
            x == y || x == 1 || y == 1
        } by {
            assert(spec_aligned_extent(b, spec_out_rank(b, a), i) == spec_aligned_extent(
                a,
                spec_out_rank(b, a),
                i,
            ) || spec_aligned_extent(b, spec_out_rank(b, a), i) == 1 || spec_aligned_extent(
                a,
                spec_out_rank(b, a),
                i,
            ) == 1);
        }
    }
}

/// The elementwise effect of a copy kernel on the materialized words: output
/// element `i` is the input word at the strided remapping of `i`.
pub open spec fn spec_gather(input: Seq<u32>, out_cs: Seq<u32>, in_stride: Seq<u32>, n: nat) -> Seq<
    u32,
> {
    Seq::new(
        n,
        |i: int|
            {
                let m = spec_mapped_index(out_cs, in_stride, i);
                if 0 <= m < input.len() {
                    input[m]
                } else {
                    0
                }
            },
    )
}

/// A copy kernel that addresses its input through the output's own dense
/// strides copies the buffer verbatim: this is the reshape kernel, whose
/// input metadata carries the output view's contiguous strides.
pub proof fn lemma_gather_identity(input: Seq<u32>, cs: Seq<u32>)
    requires
        cs.len() >= 1,
        forall|i: int| 0 <= i < cs.len() ==> cs[i] >= 1,
        cs[cs.len() - 1] == 1,
    ensures
        spec_gather(input, cs, cs, input.len()) == input,
{
    assert forall|i: int| 0 <= i < input.len() implies spec_gather(input, cs, cs, input.len())[i]
        == input[i] by {
        lemma_mapped_index_identity(cs, i);
    }
    assert(spec_gather(input, cs, cs, input.len()) =~= input);
}

/// Reshaping twice is reshaping once: at the level of the materialized
/// words, a reshape through shape `s1` and then through `s2` yields exactly
/// the words of a single reshape through `s2` — both are verbatim copies,
/// whatever compatible shapes are chosen.
pub proof fn lemma_reshape_reshape(words: Seq<u32>, cs1: Seq<u32>, cs2: Seq<u32>)
    requires
        cs1.len() >= 1,
        forall|i: int| 0 <= i < cs1.len() ==> cs1[i] >= 1,
        cs1[cs1.len() - 1] == 1,
        cs2.len() >= 1,
        forall|i: int| 0 <= i < cs2.len() ==> cs2[i] >= 1,
        cs2[cs2.len() - 1] == 1,
    ensures
        spec_gather(spec_gather(words, cs1, cs1, words.len()), cs2, cs2, words.len())
            == spec_gather(words, cs2, cs2, words.len()),
{
    lemma_gather_identity(words, cs1);
    lemma_gather_identity(words, cs2);
    lemma_gather_identity(spec_gather(words, cs1, cs1, words.len()), cs2);
}

} // verus!
