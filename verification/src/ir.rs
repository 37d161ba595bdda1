//! The straight-line SSA shader IR: an arena of nodes, each with an opcode,
//! a datatype, input nodes and an optional evaluation tag whose arity is
//! fixed at construction.
use vstd::prelude::*;
use vstd::string::StringExecFns;

use crate::wgsl::{spec_decimal, spec_digit, u32_string};

verus! {

pub type ShaderIRID = u64;

/// IR opcodes.
#[derive(Clone, Copy, Debug, PartialEq, Eq, Structural)]
pub enum ShaderIROp {
    MagicIndex,
    ReduceBegin,
    ReduceEnd,
    ReduceMagic,
    Const,
    Load,
    Store,
    Evaluate,
}

/// IR value types.
#[derive(Clone, Copy, Debug, PartialEq, Eq, Structural)]
pub enum ShaderIRType {
    F32,
    I32,
}

/// The evaluation tag: a constant (a 32-bit float carried as its bit
/// pattern, or an integer) or an arithmetic operation.
#[derive(Clone, Copy, Debug, PartialEq, Eq, Structural)]
pub enum ShaderIREvaluation {
    F32Bits(u32),
    I32(i32),
    IDENTITY,
    EXP2,
    LOG2,
    CAST,
    SIN,
    SQRT,
    ABS,
    FLOOR,
    CEIL,
    ADD,
    SUB,
    MULTIPLY,
    DIVIDE,
    MAX,
    MOD,
    EQUAL,
    LESSTHAN,
}

impl ShaderIREvaluation {
    /// How many input nodes this tag consumes: none for constants, one for
    /// unary operations, two for binary ones.
    pub open spec fn spec_n_dependencies(self) -> int {
        match self {
            ShaderIREvaluation::F32Bits(_) => 0,
            ShaderIREvaluation::I32(_) => 0,
            ShaderIREvaluation::IDENTITY => 1,
            ShaderIREvaluation::EXP2 => 1,
            ShaderIREvaluation::LOG2 => 1,
            ShaderIREvaluation::CAST => 1,
            ShaderIREvaluation::SIN => 1,
            ShaderIREvaluation::SQRT => 1,
            ShaderIREvaluation::ABS => 1,
            ShaderIREvaluation::FLOOR => 1,
            ShaderIREvaluation::CEIL => 1,
            ShaderIREvaluation::ADD => 2,
            ShaderIREvaluation::SUB => 2,
            ShaderIREvaluation::MULTIPLY => 2,
            ShaderIREvaluation::DIVIDE => 2,
            ShaderIREvaluation::MAX => 2,
            ShaderIREvaluation::MOD => 2,
            ShaderIREvaluation::EQUAL => 2,
            ShaderIREvaluation::LESSTHAN => 2,
        }
    }

    pub fn n_dependencies(&self) -> (r: usize)
        ensures
            r == self.spec_n_dependencies(),
    {
        match self {
            ShaderIREvaluation::F32Bits(_) => 0,
            ShaderIREvaluation::I32(_) => 0,
            ShaderIREvaluation::IDENTITY => 1,
            ShaderIREvaluation::EXP2 => 1,
            ShaderIREvaluation::LOG2 => 1,
            ShaderIREvaluation::CAST => 1,
            ShaderIREvaluation::SIN => 1,
            ShaderIREvaluation::SQRT => 1,
            ShaderIREvaluation::ABS => 1,
            ShaderIREvaluation::FLOOR => 1,
            ShaderIREvaluation::CEIL => 1,
            ShaderIREvaluation::ADD => 2,
            ShaderIREvaluation::SUB => 2,
            ShaderIREvaluation::MULTIPLY => 2,
            ShaderIREvaluation::DIVIDE => 2,
            ShaderIREvaluation::MAX => 2,
            ShaderIREvaluation::MOD => 2,
            ShaderIREvaluation::EQUAL => 2,
            ShaderIREvaluation::LESSTHAN => 2,
        }
    }
}

/// A handle to an IR node: its id, its index in the arena.
#[derive(Clone, Copy, Debug, PartialEq, Eq, Structural)]
pub struct ShaderIR {
    pub id: ShaderIRID,
}

/// One arena slot.
#[derive(Clone, Debug)]
pub struct ShaderIRInternals {
    pub id: ShaderIRID,
    pub op: ShaderIROp,
    pub datatype: ShaderIRType,
    pub inputs: Vec<ShaderIRID>,
    pub evaltype: Option<ShaderIREvaluation>,
}

/// The arena of IR nodes. Inputs always have smaller ids, so the IR is a
/// DAG by construction.
pub struct ShaderIRGraph {
    pub nodes: Vec<ShaderIRInternals>,
}

impl ShaderIRGraph {
    /// The node at `i` has its index as id, its inputs precede it, and when
    /// it carries an evaluation tag its input count is the tag's arity.
    pub open spec fn spec_node_wf(self, i: int) -> bool {
        let node = self.nodes@[i];
        &&& node.id == i
        &&& forall|j: int| 0 <= j < node.inputs@.len() ==> (#[trigger] node.inputs@[j] as int) < i
        &&& match node.evaltype {
            Some(e) => node.inputs@.len() == e.spec_n_dependencies(),
            None => true,
        }
    }

    pub open spec fn wf(self) -> bool {
        forall|i: int| 0 <= i < self.nodes@.len() ==> self.spec_node_wf(i)
    }

    pub open spec fn spec_valid(self, n: ShaderIR) -> bool {
        (n.id as int) < self.nodes@.len()
    }

    pub fn new() -> (g: ShaderIRGraph)
        ensures
            g.wf(),
            g.nodes@.len() == 0,
    {
        ShaderIRGraph { nodes: Vec::new() }
    }

    pub fn len(&self) -> (r: usize)
        ensures
            r == self.nodes@.len(),
    {
        self.nodes.len()
    }
}

impl ShaderIR {
    /// Append a node. The evaluation tag's arity must match the number of
    /// inputs, and every input must already exist.
    pub fn new(
        g: &mut ShaderIRGraph,
        op: ShaderIROp,
        datatype: ShaderIRType,
        inputs: &Vec<ShaderIR>,
        evaltype: Option<ShaderIREvaluation>,
    ) -> (r: ShaderIR)
        requires
            old(g).wf(),
            old(g).nodes@.len() < u64::MAX,
            forall|j: int| 0 <= j < inputs@.len() ==> (#[trigger] inputs@[j].id as int) < old(
                g,
            ).nodes@.len(),
            evaltype matches Some(e) ==> inputs@.len() == e.spec_n_dependencies(),
        ensures
            final(g).wf(),
            final(g).nodes@.len() == old(g).nodes@.len() + 1,
            forall|i: int| 0 <= i < old(g).nodes@.len() ==> final(g).nodes@[i] == old(g).nodes@[i],
            r.id == old(g).nodes@.len(),
            final(g).spec_valid(r),
            final(g).nodes@[r.id as int].op == op,
            final(g).nodes@[r.id as int].datatype == datatype,
            final(g).nodes@[r.id as int].evaltype == evaltype,
            final(g).nodes@[r.id as int].inputs@.len() == inputs@.len(),
            forall|j: int|
                0 <= j < inputs@.len() ==> final(g).nodes@[r.id as int].inputs@[j]
                    == inputs@[j].id,
    {
        let m = inputs.len();
        let mut ids: Vec<u64> = Vec::new();
        let mut j: usize = 0;
        while j < m
            invariant
                m == inputs@.len(),
                j <= m,
                ids@.len() == j,
                forall|l: int| 0 <= l < j ==> ids@[l] == inputs@[l].id,
            decreases m - j,
        {
            ids.push(inputs[j].id);
            j = j + 1;
        }
        let id = g.nodes.len() as u64;
        let node = ShaderIRInternals { id, op, datatype, inputs: ids, evaltype };
        g.nodes.push(node);
        proof {
            let i = old(g).nodes@.len() as int;
            assert(g.spec_node_wf(i));
            assert forall|k: int| 0 <= k < g.nodes@.len() implies g.spec_node_wf(k) by {
                if k < i {
                    assert(old(g).spec_node_wf(k));
                    assert(g.nodes@[k] == old(g).nodes@[k]);
                }
            }
        }
        ShaderIR { id }
    }

    /// The node's unique id.
    pub fn id(&self) -> (r: ShaderIRID)
        ensures
            r == self.id,
    {
        self.id
    }

    /// The node's opcode.
    pub fn op(&self, g: &ShaderIRGraph) -> (r: ShaderIROp)
        requires
            g.spec_valid(*self),
        ensures
            r == g.nodes@[self.id as int].op,
    {
        let n = g.nodes.len();
        g.nodes[self.id as usize].op
    }

    /// The node's value type.
    pub fn datatype(&self, g: &ShaderIRGraph) -> (r: ShaderIRType)
        requires
            g.spec_valid(*self),
        ensures
            r == g.nodes@[self.id as int].datatype,
    {
        let n = g.nodes.len();
        g.nodes[self.id as usize].datatype
    }

    /// The node's evaluation tag.
    pub fn evaltype(&self, g: &ShaderIRGraph) -> (r: Option<ShaderIREvaluation>)
        requires
            g.spec_valid(*self),
        ensures
            r == g.nodes@[self.id as int].evaltype,
    {
        let n = g.nodes.len();
        g.nodes[self.id as usize].evaltype
    }

    /// Handles to the node's inputs.
    pub fn inputs(&self, g: &ShaderIRGraph) -> (r: Vec<ShaderIR>)
        requires
            g.spec_valid(*self),
        ensures
            r@.len() == g.nodes@[self.id as int].inputs@.len(),
            forall|j: int|
                0 <= j < r@.len() ==> (#[trigger] r@[j]).id == g.nodes@[self.id as int].inputs@[j],
    {
        let n = g.nodes.len();
        let ids = &g.nodes[self.id as usize].inputs;
        let m = ids.len();
        let mut r: Vec<ShaderIR> = Vec::new();
        let mut j: usize = 0;
        while j < m
            invariant
                m == ids@.len(),
                ids@ == g.nodes@[self.id as int].inputs@,
                j <= m,
                r@.len() == j,
                forall|l: int| 0 <= l < j ==> (#[trigger] r@[l]).id == ids@[l],
            decreases m - j,
        {
            r.push(ShaderIR { id: ids[j] });
            j = j + 1;
        }
        r
    }

    /// The node's direct predecessors: its inputs.
    pub fn dependencies(&self, g: &ShaderIRGraph) -> (r: Vec<ShaderIR>)
        requires
            g.spec_valid(*self),
        ensures
            r@.len() == g.nodes@[self.id as int].inputs@.len(),
            forall|j: int|
                0 <= j < r@.len() ==> (#[trigger] r@[j]).id == g.nodes@[self.id as int].inputs@[j],
    {
        self.inputs(g)
    }
}

/// A run of spaces.
pub open spec fn spec_spaces(n: int) -> Seq<char>
    decreases n,
{
    if n <= 0 {
        Seq::empty()
    } else {
        spec_spaces(n - 1) + " "@
    }
}

/// `s` padded with spaces on the right to at least `w` characters.
pub open spec fn spec_pad_right(s: Seq<char>, w: int) -> Seq<char> {
    s + spec_spaces(w - s.len())
}

/// A character count clamped to 64: every column of the table is narrower,
/// so the clamp never changes how much padding is emitted.
pub open spec fn spec_wcap(n: int) -> int {
    if n <= 64 {
        n
    } else {
        64
    }
}

/// A string of `k` spaces.
fn spaces_string(k: usize) -> (r: String)
    ensures
        r@ == spec_spaces(k as int),
{
    let mut out = String::new();
    let mut n: usize = 0;
    while n < k
        invariant
            out@ == spec_spaces(n as int),
            n <= k,
        decreases k - n,
    {
        out.append(" ");
        n = n + 1;
    }
    out
}

proof fn lemma_digit_len(d: int)
    ensures
        spec_digit(d).len() == 1,
{
    reveal_strlit("0");
    reveal_strlit("1");
    reveal_strlit("2");
    reveal_strlit("3");
    reveal_strlit("4");
    reveal_strlit("5");
    reveal_strlit("6");
    reveal_strlit("7");
    reveal_strlit("8");
    reveal_strlit("9");
}

proof fn lemma_decimal_len_bound(n: int)
    requires
        n >= 0,
    ensures
        1 <= spec_decimal(n).len() <= n + 1,
    decreases n,
{
    lemma_digit_len(n % 10);
    lemma_digit_len(n);
    if n >= 10 {
        vstd::arithmetic::div_mod::lemma_div_pos_is_pos(n, 10);
        vstd::arithmetic::div_mod::lemma_div_is_strictly_smaller(n, 10);
        lemma_decimal_len_bound(n / 10);
    }
}

/// Decimal notation of a 64-bit id together with its character count.
fn u64_string_w(n: u64) -> (r: (String, u64))
    ensures
        r.0@ == spec_decimal(n as int),
        r.1 == spec_decimal(n as int).len(),
    decreases n,
{
    proof {
        lemma_decimal_len_bound(n as int);
    }
    if n < 10 {
        let s = String::from_str(crate::wgsl::digit_str(n as u32));
        proof {
            lemma_digit_len(n as int);
        }
        (s, 1)
    } else {
        let (mut s, w) = u64_string_w(n / 10);
        proof {
            lemma_decimal_len_bound(n as int / 10);
            lemma_digit_len(n as int % 10);
        }
        s.append(crate::wgsl::digit_str((n % 10) as u32));
        (s, w + 1)
    }
}

/// The table name of an opcode.
pub open spec fn spec_op_name(op: ShaderIROp) -> Seq<char> {
    match op {
        ShaderIROp::MagicIndex => "MagicIndex"@,
        ShaderIROp::ReduceBegin => "ReduceBegin"@,
        ShaderIROp::ReduceEnd => "ReduceEnd"@,
        ShaderIROp::ReduceMagic => "ReduceMagic"@,
        ShaderIROp::Const => "Const"@,
        ShaderIROp::Load => "Load"@,
        ShaderIROp::Store => "Store"@,
        ShaderIROp::Evaluate => "Evaluate"@,
    }
}

/// The table name of a value type.
pub open spec fn spec_type_name(t: ShaderIRType) -> Seq<char> {
    match t {
        ShaderIRType::F32 => "F32"@,
        ShaderIRType::I32 => "I32"@,
    }
}

/// The table text of an evaluation tag.
pub open spec fn spec_eval_name(e: ShaderIREvaluation) -> Seq<char> {
    match e {
        ShaderIREvaluation::F32Bits(b) => "F32Bits("@ + spec_decimal(b as int) + ")"@,
        ShaderIREvaluation::I32(v) => "I32("@ + (if v < 0 {
            "-"@ + spec_decimal(-(v as int))
        } else {
            spec_decimal(v as int)
        }) + ")"@,
        ShaderIREvaluation::IDENTITY => "IDENTITY"@,
        ShaderIREvaluation::EXP2 => "EXP2"@,
        ShaderIREvaluation::LOG2 => "LOG2"@,
        ShaderIREvaluation::CAST => "CAST"@,
        ShaderIREvaluation::SIN => "SIN"@,
        ShaderIREvaluation::SQRT => "SQRT"@,
        ShaderIREvaluation::ABS => "ABS"@,
        ShaderIREvaluation::FLOOR => "FLOOR"@,
        ShaderIREvaluation::CEIL => "CEIL"@,
        ShaderIREvaluation::ADD => "ADD"@,
        ShaderIREvaluation::SUB => "SUB"@,
        ShaderIREvaluation::MULTIPLY => "MULTIPLY"@,
        ShaderIREvaluation::DIVIDE => "DIVIDE"@,
        ShaderIREvaluation::MAX => "MAX"@,
        ShaderIREvaluation::MOD => "MOD"@,
        ShaderIREvaluation::EQUAL => "EQUAL"@,
        ShaderIREvaluation::LESSTHAN => "LESSTHAN"@,
    }
}

/// The comma-separated tail of an input id list.
pub open spec fn spec_inputs_tail(ids: Seq<u64>, k: int) -> Seq<char>
    decreases ids.len() - k,
{
    if k < 0 || k >= ids.len() {
        Seq::empty()
    } else {
        ","@ + spec_decimal(ids[k] as int) + spec_inputs_tail(ids, k + 1)
    }
}

/// The bracketed input id list of a node, `[3,7]`.
pub open spec fn spec_inputs_text(ids: Seq<u64>) -> Seq<char> {
    "["@ + (if ids.len() == 0 {
        Seq::empty()
    } else {
        spec_decimal(ids[0] as int) + spec_inputs_tail(ids, 1)
    }) + "]"@
}

/// One line of the IR table: id, opcode, type and inputs left-aligned in
/// fixed-width columns, then the evaluation tag.
pub open spec fn spec_ir_line(g: ShaderIRGraph, i: int) -> Seq<char> {
    let node = g.nodes@[i];
    spec_pad_right(spec_decimal(node.id as int), 8) + " "@ + spec_pad_right(
        spec_op_name(node.op),
        16,
    ) + " "@ + spec_pad_right(spec_type_name(node.datatype), 4) + " "@ + spec_pad_right(
        spec_inputs_text(node.inputs@),
        16,
    ) + " "@ + (match node.evaltype {
        Some(e) => spec_eval_name(e),
        None => Seq::empty(),
    })
}

/// The first `n` lines of a table over the listed node ids, joined with
/// newlines.
pub open spec fn spec_ir_table(g: ShaderIRGraph, ids: Seq<u64>, n: int) -> Seq<char>
    decreases n,
{
    if n <= 0 || n > ids.len() {
        Seq::empty()
    } else if n == 1 {
        spec_ir_line(g, ids[0] as int)
    } else {
        spec_ir_table(g, ids, n - 1) + "
"@ + spec_ir_line(g, ids[n - 1] as int)
    }
}

/// Node `i` is reachable from node `from`: it is `from` itself, or
/// reachable from one of `from`'s inputs (which always have smaller ids).
pub open spec fn spec_ir_reachable(g: ShaderIRGraph, from: int, i: int) -> bool
    decreases from,
{
    ||| from == i
    ||| (0 <= i && 0 <= from < g.nodes@.len() && exists|j: int|
        0 <= j < g.nodes@[from].inputs@.len() && (#[trigger] g.nodes@[from].inputs@[j] as int)
            < from && spec_ir_reachable(g, g.nodes@[from].inputs@[j] as int, i))
}

/// The ids below `n` reachable from `root`, in ascending order: the
/// deterministic linearization of the reachable sub-DAG — ascending ids are
/// a topological order, since inputs have smaller ids.
pub open spec fn spec_reach_ids(g: ShaderIRGraph, root: int, n: int) -> Seq<u64>
    decreases n,
{
    if n <= 0 {
        Seq::empty()
    } else {
        spec_reach_ids(g, root, n - 1) + (if spec_ir_reachable(g, root, n - 1) {
            seq![(n - 1) as u64]
        } else {
            Seq::empty()
        })
    }
}

/// Every id the reachable listing holds is below its bound.
proof fn lemma_reach_ids_bounded(g: ShaderIRGraph, root: int, n: int)
    ensures
        forall|p: int|
            0 <= p < spec_reach_ids(g, root, n).len() ==> (#[trigger] spec_reach_ids(
                g,
                root,
                n,
            )[p] as int) < n,
    decreases n,
{
    if n > 0 {
        lemma_reach_ids_bounded(g, root, n - 1);
        assert forall|p: int|
            0 <= p < spec_reach_ids(g, root, n).len() implies (#[trigger] spec_reach_ids(
            g,
            root,
            n,
        )[p] as int) < n by {
            if p < spec_reach_ids(g, root, n - 1).len() {
                assert(spec_reach_ids(g, root, n)[p] == spec_reach_ids(g, root, n - 1)[p]);
            }
        }
    }
}

/// An input of a reachable node is reachable.
proof fn lemma_ir_reach_step(g: ShaderIRGraph, from: int, m: int, j: int)
    requires
        g.wf(),
        0 <= from < g.nodes@.len(),
        spec_ir_reachable(g, from, m),
        0 <= m < g.nodes@.len(),
        0 <= j < g.nodes@[m].inputs@.len(),
    ensures
        spec_ir_reachable(g, from, g.nodes@[m].inputs@[j] as int),
    decreases from,
{
    let d = g.nodes@[m].inputs@[j] as int;
    if from == m {
        assert(g.spec_node_wf(from));
        assert((g.nodes@[from].inputs@[j] as int) < from);
        assert(spec_ir_reachable(g, d, d));
        assert(spec_ir_reachable(g, from, d));
    } else {
        let j0 = choose|j0: int|
            0 <= j0 < g.nodes@[from].inputs@.len() && (#[trigger] g.nodes@[from].inputs@[j0]
                as int) < from && spec_ir_reachable(g, g.nodes@[from].inputs@[j0] as int, m);
        lemma_ir_reach_step(g, g.nodes@[from].inputs@[j0] as int, m, j);
        assert(spec_ir_reachable(g, from, d));
    }
}

/// A marking that contains `from` and is closed under inputs contains every
/// node reachable from `from`.
proof fn lemma_ir_reach_marked(g: ShaderIRGraph, marked: Seq<bool>, from: int, i: int)
    requires
        marked.len() <= g.nodes@.len(),
        0 <= from < marked.len(),
        marked[from],
        forall|m: int, j: int|
            0 <= m < marked.len() && marked[m] && 0 <= j < g.nodes@[m].inputs@.len()
                ==> marked[#[trigger] g.nodes@[m].inputs@[j] as int],
        spec_ir_reachable(g, from, i),
    ensures
        0 <= i < marked.len() && marked[i],
    decreases from,
{
    if from == i {
    } else {
        let j0 = choose|j0: int|
            0 <= j0 < g.nodes@[from].inputs@.len() && (#[trigger] g.nodes@[from].inputs@[j0]
                as int) < from && spec_ir_reachable(g, g.nodes@[from].inputs@[j0] as int, i);
        assert(marked[g.nodes@[from].inputs@[j0] as int]);
        lemma_ir_reach_marked(g, marked, g.nodes@[from].inputs@[j0] as int, i);
    }
}

/// Build the bracketed input list and its clamped character count.
fn inputs_text(ids: &Vec<u64>) -> (r: (String, u64))
    ensures
        r.0@ == spec_inputs_text(ids@),
        r.1 == spec_wcap(spec_inputs_text(ids@).len() as int),
{
    let mut s = String::from_str("[");
    let mut w: u64 = 1;
    proof {
        reveal_strlit("[");
        reveal_strlit("]");
        reveal_strlit(",");
    }
    let m = ids.len();
    if m > 0 {
        let (d, dw) = u64_string_w(ids[0]);
        s.append(d.as_str());
        proof {
            lemma_decimal_len_bound(ids@[0] as int);
        }
        let dwc: u64 = if dw > 64 {
            64
        } else {
            dw
        };
        w = 1 + dwc;
        if w > 64 {
            w = 64;
        }
        let mut k: usize = 1;
        while k < m
            invariant
                m == ids@.len(),
                1 <= k <= m,
                s@ == "["@ + spec_decimal(ids@[0] as int) + spec_inputs_tail(ids@.take(k as int), 1),
                w == spec_wcap(s@.len() as int),
            decreases m - k,
        {
            proof {
                reveal_strlit(",");
                lemma_decimal_len_bound(ids@[k as int] as int);
                lemma_inputs_tail_snoc(ids@, k as int);
            }
            s.append(",");
            let (d, dw) = u64_string_w(ids[k]);
            s.append(d.as_str());
            let dwc: u64 = if dw > 64 {
                64
            } else {
                dw
            };
            w = w + 1 + dwc;
            if w > 64 {
                w = 64;
            }
            proof {
                assert(s@ =~= "["@ + spec_decimal(ids@[0] as int) + spec_inputs_tail(
                    ids@.take(k as int + 1),
                    1,
                ));
            }
            k = k + 1;
        }
        proof {
            assert(ids@.take(m as int) =~= ids@);
        }
    }
    s.append("]");
    let r: u64 = if w >= 64 {
        64
    } else {
        w + 1
    };
    proof {
        assert(s@ =~= spec_inputs_text(ids@));
        if ids@.len() == 0 {
            assert(spec_inputs_text(ids@) =~= "["@ + "]"@);
        }
    }
    (s, r)
}

/// Appending one id extends the comma-separated tail by one entry.
proof fn lemma_inputs_tail_snoc(ids: Seq<u64>, k: int)
    requires
        1 <= k < ids.len(),
    ensures
        spec_inputs_tail(ids.take(k + 1), 1) == spec_inputs_tail(ids.take(k), 1) + ","@
            + spec_decimal(ids[k] as int),
    decreases k,
{
    lemma_inputs_tail_snoc_from(ids, k, 1);
}

proof fn lemma_inputs_tail_snoc_from(ids: Seq<u64>, k: int, from: int)
    requires
        1 <= from <= k < ids.len(),
    ensures
        spec_inputs_tail(ids.take(k + 1), from) == spec_inputs_tail(ids.take(k), from) + ","@
            + spec_decimal(ids[k] as int),
    decreases k - from,
{
    let a = ids.take(k + 1);
    let b = ids.take(k);
    assert(a[from] == ids[from]);
    if from == k {
        assert(spec_inputs_tail(b, from) == Seq::<char>::empty());
        assert(spec_inputs_tail(a, from + 1) == Seq::<char>::empty());
        assert(spec_inputs_tail(a, from) == ","@ + spec_decimal(a[from] as int)
            + spec_inputs_tail(a, from + 1));
        assert(spec_inputs_tail(a, from) =~= spec_inputs_tail(b, from) + ","@ + spec_decimal(
            ids[k] as int,
        ));
    } else {
        lemma_inputs_tail_snoc_from(ids, k, from + 1);
        assert(b[from] == ids[from]);
        assert(spec_inputs_tail(a, from) =~= spec_inputs_tail(b, from) + ","@ + spec_decimal(
            ids[k] as int,
        ));
    }
}

/// Append `s` (whose clamped character count is `w`) padded to `target`
/// columns.
fn append_pad(out: &mut String, s: &str, w: u64, target: u64)
    requires
        w == spec_wcap(s@.len() as int),
        target <= 16,
    ensures
        final(out)@ == old(out)@ + spec_pad_right(s@, target as int),
{
    out.append(s);
    let pad: u64 = if w < target {
        target - w
    } else {
        0
    };
    let sp = spaces_string(pad as usize);
    out.append(sp.as_str());
    proof {
        assert(final(out)@ =~= old(out)@ + spec_pad_right(s@, target as int));
    }
}

impl ShaderIR {
    /// One formatted table line for this node.
    pub fn line_text(&self, g: &ShaderIRGraph) -> (r: String)
        requires
            g.spec_valid(*self),
        ensures
            r@ == spec_ir_line(*g, self.id as int),
    {
        let nn = g.nodes.len();
        let node = &g.nodes[self.id as usize];
        let mut out = String::new();
        let (ds, dw) = u64_string_w(node.id);
        let dwc: u64 = if dw > 64 {
            64
        } else {
            dw
        };
        append_pad(&mut out, ds.as_str(), dwc, 8);
        out.append(" ");
        let (opname, opw): (&'static str, u64) = match node.op {
            ShaderIROp::MagicIndex => ("MagicIndex", 10),
            ShaderIROp::ReduceBegin => ("ReduceBegin", 11),
            ShaderIROp::ReduceEnd => ("ReduceEnd", 9),
            ShaderIROp::ReduceMagic => ("ReduceMagic", 11),
            ShaderIROp::Const => ("Const", 5),
            ShaderIROp::Load => ("Load", 4),
            ShaderIROp::Store => ("Store", 5),
            ShaderIROp::Evaluate => ("Evaluate", 8),
        };
        proof {
            reveal_strlit("MagicIndex");
            reveal_strlit("ReduceBegin");
            reveal_strlit("ReduceEnd");
            reveal_strlit("ReduceMagic");
            reveal_strlit("Const");
            reveal_strlit("Load");
            reveal_strlit("Store");
            reveal_strlit("Evaluate");
        }
        append_pad(&mut out, opname, opw, 16);
        out.append(" ");
        let (tyname, tyw): (&'static str, u64) = match node.datatype {
            ShaderIRType::F32 => ("F32", 3),
            ShaderIRType::I32 => ("I32", 3),
        };
        proof {
            reveal_strlit("F32");
            reveal_strlit("I32");
        }
        append_pad(&mut out, tyname, tyw, 4);
        out.append(" ");
        let (its, itw) = inputs_text(&node.inputs);
        append_pad(&mut out, its.as_str(), itw, 16);
        out.append(" ");
        match node.evaltype {
            Some(e) => {
                let ev = eval_text(e);
                out.append(ev.as_str());
            },
            None => {},
        }
        proof {
            assert(out@ =~= spec_ir_line(*g, self.id as int));
        }
        out
    }

    /// The deterministic linearization of the sub-DAG reachable from this
    /// node: mark the reachable nodes walking ids downward, then emit the
    /// marked ids in ascending order — a topological order in which every
    /// node follows all of its transitive inputs, each node exactly once.
    pub fn linearize(&self, g: &ShaderIRGraph) -> (order: Vec<ShaderIR>)
        requires
            g.wf(),
            g.spec_valid(*self),
            g.nodes@.len() <= u32::MAX,
        ensures
            order@.len() == spec_reach_ids(*g, self.id as int, self.id as int + 1).len(),
            forall|p: int|
                0 <= p < order@.len() ==> (#[trigger] order@[p]).id == spec_reach_ids(
                    *g,
                    self.id as int,
                    self.id as int + 1,
                )[p],
    {
        let ghost root = self.id as int;
        let n: usize = self.id as usize + 1;
        let mut marked: Vec<bool> = Vec::new();
        let mut k: usize = 0;
        while k < n
            invariant
                marked@.len() == k,
                k <= n,
                forall|j: int| 0 <= j < k ==> !marked@[j],
            decreases n - k,
        {
            marked.push(false);
            k = k + 1;
        }
        marked.set(self.id as usize, true);
        proof {
            assert(spec_ir_reachable(*g, root, root));
        }
        let mut i: usize = n;
        while i > 0
            invariant
                g.wf(),
                g.spec_valid(*self),
                root == self.id as int,
                n == root + 1,
                n <= g.nodes@.len(),
                marked@.len() == n,
                i <= n,
                marked@[root],
                forall|m: int, j: int|
                    i <= m < n && marked@[m] && 0 <= j < g.nodes@[m].inputs@.len()
                        ==> marked@[#[trigger] g.nodes@[m].inputs@[j] as int],
                forall|m: int| 0 <= m < n && marked@[m] ==> spec_ir_reachable(*g, root, m),
            decreases i,
        {
            i = i - 1;
            if marked[i] {
                proof {
                    assert(g.spec_node_wf(i as int));
                }
                let dn = g.nodes[i].inputs.len();
                let mut j: usize = 0;
                while j < dn
                    invariant
                        g.wf(),
                        g.spec_valid(*self),
                        root == self.id as int,
                        n == root + 1,
                        n <= g.nodes@.len(),
                        marked@.len() == n,
                        i < n,
                        marked@[root],
                        marked@[i as int],
                        dn == g.nodes@[i as int].inputs@.len(),
                        j <= dn,
                        forall|l: int|
                            0 <= l < dn ==> (#[trigger] g.nodes@[i as int].inputs@[l] as int) < i,
                        forall|l: int|
                            0 <= l < j ==> marked@[#[trigger] g.nodes@[i as int].inputs@[l]
                                as int],
                        forall|m: int, l: int|
                            i < m < n && marked@[m] && 0 <= l < g.nodes@[m].inputs@.len()
                                ==> marked@[#[trigger] g.nodes@[m].inputs@[l] as int],
                        forall|m: int| 0 <= m < n && marked@[m] ==> spec_ir_reachable(*g, root, m),
                    decreases dn - j,
                {
                    let ghost mpre = marked@;
                    let d = g.nodes[i].inputs[j];
                    marked.set(d as usize, true);
                    proof {
                        lemma_ir_reach_step(*g, root, i as int, j as int);
                        assert forall|m: int, l: int|
                            i < m < n && marked@[m] && 0 <= l < g.nodes@[m].inputs@.len()
                                implies marked@[#[trigger] g.nodes@[m].inputs@[l] as int] by {
                            assert(g.spec_node_wf(m));
                            assert((g.nodes@[m].inputs@[l] as int) < m);
                            assert(m != d as int);
                            assert(mpre[m]);
                            assert(mpre[g.nodes@[m].inputs@[l] as int]);
                        }
                        assert forall|m: int|
                            0 <= m < n && marked@[m] implies spec_ir_reachable(*g, root, m) by {
                            if m != d as int {
                                assert(mpre[m]);
                            }
                        }
                    }
                    j = j + 1;
                }
                proof {
                    assert forall|m: int, j2: int|
                        i <= m < n && marked@[m] && 0 <= j2 < g.nodes@[m].inputs@.len()
                            implies marked@[#[trigger] g.nodes@[m].inputs@[j2] as int] by {
                        if m == i {
                            assert(marked@[g.nodes@[i as int].inputs@[j2] as int]);
                        }
                    }
                }
            } else {
            }
        }
        let mut order: Vec<ShaderIR> = Vec::new();
        let mut c: usize = 0;
        while c < n
            invariant
                g.wf(),
                g.spec_valid(*self),
                root == self.id as int,
                n == root + 1,
                n <= g.nodes@.len(),
                marked@.len() == n,
                c <= n,
                marked@[root],
                forall|m: int, j: int|
                    0 <= m < n && marked@[m] && 0 <= j < g.nodes@[m].inputs@.len()
                        ==> marked@[#[trigger] g.nodes@[m].inputs@[j] as int],
                forall|m: int| 0 <= m < n && marked@[m] ==> spec_ir_reachable(*g, root, m),
                order@.len() == spec_reach_ids(*g, root, c as int).len(),
                forall|p: int|
                    0 <= p < order@.len() ==> (#[trigger] order@[p]).id == spec_reach_ids(
                        *g,
                        root,
                        c as int,
                    )[p],
            decreases n - c,
        {
            let ghost pre = order@;
            if marked[c] {
                order.push(ShaderIR { id: c as u64 });
            }
            proof {
                if marked@[c as int] {
                    assert(spec_ir_reachable(*g, root, c as int));
                } else {
                    if spec_ir_reachable(*g, root, c as int) {
                        lemma_ir_reach_marked(*g, marked@, root, c as int);
                        assert(false);
                    }
                }
                assert forall|p: int|
                    0 <= p < order@.len() implies (#[trigger] order@[p]).id == spec_reach_ids(
                    *g,
                    root,
                    c as int + 1,
                )[p] by {
                    if p < pre.len() {
                        assert(order@[p] == pre[p]);
                    }
                }
            }
            c = c + 1;
        }
        order
    }

    /// The formatted table of the sub-DAG reachable from this node: one line
    /// per reachable node, each exactly once, joined by newlines, in the
    /// deterministic linearization where every node's line follows the lines
    /// of all its transitive inputs.
    pub fn literal(&self, g: &ShaderIRGraph) -> (r: String)
        requires
            g.wf(),
            g.spec_valid(*self),
            g.nodes@.len() <= u32::MAX,
        ensures
            r@ == spec_ir_table(
                *g,
                spec_reach_ids(*g, self.id as int, self.id as int + 1),
                spec_reach_ids(*g, self.id as int, self.id as int + 1).len() as int,
            ),
    {
        let ghost ids = spec_reach_ids(*g, self.id as int, self.id as int + 1);
        let order = self.linearize(g);
        proof {
            lemma_reach_ids_bounded(*g, self.id as int, self.id as int + 1);
        }
        let mut out = String::new();
        let m = order.len();
        let mut p: usize = 0;
        while p < m
            invariant
                g.wf(),
                g.spec_valid(*self),
                m == order@.len(),
                p <= m,
                ids == spec_reach_ids(*g, self.id as int, self.id as int + 1),
                m == ids.len(),
                forall|q: int| 0 <= q < m ==> (#[trigger] order@[q]).id == ids[q],
                forall|q: int| 0 <= q < m ==> (#[trigger] order@[q].id as int) < g.nodes@.len(),
                out@ == spec_ir_table(*g, ids, p as int),
            decreases m - p,
        {
            if p > 0 {
                out.append(
                    "
",
                );
            }
            let line = order[p].line_text(g);
            out.append(line.as_str());
            proof {
                assert(out@ =~= spec_ir_table(*g, ids, p as int + 1));
            }
            p = p + 1;
        }
        out
    }
}

/// The table text of an evaluation tag.
fn eval_text(e: ShaderIREvaluation) -> (r: String)
    ensures
        r@ == spec_eval_name(e),
{
    match e {
        ShaderIREvaluation::F32Bits(b) => {
            let mut s = String::from_str("F32Bits(");
            let d = u32_string(b);
            s.append(d.as_str());
            s.append(")");
            proof {
                assert(s@ =~= spec_eval_name(e));
            }
            s
        },
        ShaderIREvaluation::I32(v) => {
            let mut s = String::from_str("I32(");
            if v < 0 {
                s.append("-");
                let mag: u64 = -(v as i64) as u64;
                let (d, _) = u64_string_w(mag);
                s.append(d.as_str());
            } else {
                let d = u32_string(v as u32);
                s.append(d.as_str());
            }
            s.append(")");
            proof {
                assert(s@ =~= spec_eval_name(e));
            }
            s
        },
        ShaderIREvaluation::IDENTITY => String::from_str("IDENTITY"),
        ShaderIREvaluation::EXP2 => String::from_str("EXP2"),
        ShaderIREvaluation::LOG2 => String::from_str("LOG2"),
        ShaderIREvaluation::CAST => String::from_str("CAST"),
        ShaderIREvaluation::SIN => String::from_str("SIN"),
        ShaderIREvaluation::SQRT => String::from_str("SQRT"),
        ShaderIREvaluation::ABS => String::from_str("ABS"),
        ShaderIREvaluation::FLOOR => String::from_str("FLOOR"),
        ShaderIREvaluation::CEIL => String::from_str("CEIL"),
        ShaderIREvaluation::ADD => String::from_str("ADD"),
        ShaderIREvaluation::SUB => String::from_str("SUB"),
        ShaderIREvaluation::MULTIPLY => String::from_str("MULTIPLY"),
        ShaderIREvaluation::DIVIDE => String::from_str("DIVIDE"),
        ShaderIREvaluation::MAX => String::from_str("MAX"),
        ShaderIREvaluation::MOD => String::from_str("MOD"),
        ShaderIREvaluation::EQUAL => String::from_str("EQUAL"),
        ShaderIREvaluation::LESSTHAN => String::from_str("LESSTHAN"),
    }
}

} // verus!
