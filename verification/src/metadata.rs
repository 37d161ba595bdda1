//! The packed per-tensor metadata buffer handed to every kernel: a header of
//! six words followed by the four view sections, serialized to little-endian
//! bytes for the GPU.
use vstd::prelude::*;
use vstd::bytes::{lemma_auto_spec_u32_to_from_le_bytes, spec_u32_to_le_bytes, u32_to_le_bytes};

use crate::view::{TensorView, ViewType};

verus! {

/// The host-side image of the GPU metadata buffer. `metadata` is the packed
/// word sequence; the six scalar fields mirror its header.
#[derive(Debug)]
pub struct TensorMetadata {
    pub length: ViewType,
    pub dimension: ViewType,
    pub shape_offset: ViewType,
    pub stride_offset: ViewType,
    pub contiguous_stride_offset: ViewType,
    pub offset_offset: ViewType,
    pub metadata: Vec<ViewType>,
}

impl TensorMetadata {
    /// The packed buffer holds six header words and four sections of
    /// `dimension` words each.
    pub open spec fn wf(self) -> bool {
        self.metadata@.len() == 6 + 4 * (self.dimension as int)
    }

    pub fn new(
        length: ViewType,
        dimension: ViewType,
        shape_offset: ViewType,
        stride_offset: ViewType,
        contiguous_stride_offset: ViewType,
        offset_offset: ViewType,
        metadata: Vec<ViewType>,
    ) -> (m: TensorMetadata)
        ensures
            m.length == length,
            m.dimension == dimension,
            m.shape_offset == shape_offset,
            m.stride_offset == stride_offset,
            m.contiguous_stride_offset == contiguous_stride_offset,
            m.offset_offset == offset_offset,
            m.metadata@ == metadata@,
    {
        TensorMetadata {
            length,
            dimension,
            shape_offset,
            stride_offset,
            contiguous_stride_offset,
            offset_offset,
            metadata,
        }
    }

    /// Pack a view: `[length, rank, 0, rank, 2·rank, 3·rank]` followed by
    /// shape, stride, contiguous stride and offset, each of `rank` words.
    pub fn from_view(view: &TensorView) -> (m: TensorMetadata)
        requires
            view.wf(),
        ensures
            m.wf(),
            m.length == view.spec_len(),
            m.dimension == view.rank(),
            m.shape_offset == 0,
            m.stride_offset == view.rank(),
            m.contiguous_stride_offset == 2 * view.rank(),
            m.offset_offset == 3 * view.rank(),
            m.metadata@ == seq![
                m.length,
                m.dimension,
                m.shape_offset,
                m.stride_offset,
                m.contiguous_stride_offset,
                m.offset_offset,
            ] + view.shape@ + view.stride@ + view.contiguous_stride@ + view.offset@,
    {
        let length = view.len();
        let dimension = view.dimension();
        let shape_offset: u32 = 0;
        let stride_offset: u32 = dimension;
        let contiguous_stride_offset: u32 = 2 * dimension;
        let offset_offset: u32 = 3 * dimension;
        let mut metadata: Vec<u32> = Vec::new();
        metadata.push(length);
        metadata.push(dimension);
        metadata.push(shape_offset);
        metadata.push(stride_offset);
        metadata.push(contiguous_stride_offset);
        metadata.push(offset_offset);
        let mut section = crate::view::copy_words(&view.shape);
        metadata.append(&mut section);
        let mut section = crate::view::copy_words(&view.stride);
        metadata.append(&mut section);
        let mut section = crate::view::copy_words(&view.contiguous_stride);
        metadata.append(&mut section);
        let mut section = crate::view::copy_words(&view.offset);
        metadata.append(&mut section);
        proof {
            assert(metadata@ =~= seq![
                length,
                dimension,
                shape_offset,
                stride_offset,
                contiguous_stride_offset,
                offset_offset,
            ] + view.shape@ + view.stride@ + view.contiguous_stride@ + view.offset@);
        }
        TensorMetadata {
            length,
            dimension,
            shape_offset,
            stride_offset,
            contiguous_stride_offset,
            offset_offset,
            metadata,
        }
    }

    /// The WGSL declaration of the metadata struct shared by every kernel.
    pub fn serialize_definition() -> (r: String)
        ensures
            r@ == spec_metadata_definition(),
    {
        String::from_str(
            "
struct TensorMetadata {
    length: u32,
    dimension: u32,
    shape_offset: u32,
    stride_offset: u32,
    contiguous_stride_offset: u32,
    offset_offset: u32,
    metadata: array<u32>,
}
",
        )
    }

    /// Serialize the packed words to little-endian bytes, four per word; for
    /// a well-formed metadata block the byte count is `4 · (6 + 4 · rank)`.
    pub fn bytes(&self) -> (r: Vec<u8>)
        ensures
            r@ == spec_words_to_le_bytes(self.metadata@),
            r@.len() == 4 * self.metadata@.len(),
            self.wf() ==> r@.len() == 4 * (6 + 4 * (self.dimension as int)),
    {
        words_to_le_bytes(&self.metadata)
    }
}

/// Serialize a word vector to little-endian bytes, four per word.
pub fn words_to_le_bytes(words: &Vec<u32>) -> (r: Vec<u8>)
    ensures
        r@ == spec_words_to_le_bytes(words@),
        r@.len() == 4 * words@.len(),
{
    proof {
        lemma_auto_spec_u32_to_from_le_bytes();
        assert(words@.take(0) =~= Seq::<u32>::empty());
        lemma_words_to_le_bytes_len(words@.take(0));
    }
    let n = words.len();
    let mut r: Vec<u8> = Vec::new();
    let mut i: usize = 0;
    while i < n
        invariant
            n == words@.len(),
            i <= n,
            r@ == spec_words_to_le_bytes(words@.take(i as int)),
            r@.len() == 4 * i,
        decreases n - i,
    {
        let mut word = u32_to_le_bytes(words[i]);
        proof {
            lemma_auto_spec_u32_to_from_le_bytes();
            lemma_words_to_le_bytes_concat(words@.take(i as int), seq![words@[i as int]]);
            assert(words@.take(i as int + 1) =~= words@.take(i as int) + seq![words@[i as int]]);
            let w = words@[i as int];
            assert(seq![w].skip(1) =~= Seq::<u32>::empty());
            assert(seq![w].len() == 1 && seq![w][0] == w);
            assert(spec_words_to_le_bytes(seq![w]) == spec_u32_to_le_bytes(w)
                + spec_words_to_le_bytes(seq![w].skip(1)));
            assert(spec_words_to_le_bytes(Seq::<u32>::empty()) == Seq::<u8>::empty());
            assert(spec_words_to_le_bytes(seq![w]) =~= spec_u32_to_le_bytes(w));
        }
        r.append(&mut word);
        i = i + 1;
    }
    proof {
        assert(words@.take(n as int) =~= words@);
    }
    r
}

/// The WGSL metadata struct declaration.
pub open spec fn spec_metadata_definition() -> Seq<char> {
    "
struct TensorMetadata {
    length: u32,
    dimension: u32,
    shape_offset: u32,
    stride_offset: u32,
    contiguous_stride_offset: u32,
    offset_offset: u32,
    metadata: array<u32>,
}
"@
}

/// Little-endian serialization of a word sequence, four bytes per word.
pub open spec fn spec_words_to_le_bytes(words: Seq<u32>) -> Seq<u8>
    decreases words.len(),
{
    if words.len() == 0 {
        Seq::empty()
    } else {
        spec_u32_to_le_bytes(words[0]) + spec_words_to_le_bytes(words.skip(1))
    }
}

pub proof fn lemma_words_to_le_bytes_len(words: Seq<u32>)
    ensures
        spec_words_to_le_bytes(words).len() == 4 * words.len(),
    decreases words.len(),
{
    lemma_auto_spec_u32_to_from_le_bytes();
    if words.len() > 0 {
        lemma_words_to_le_bytes_len(words.skip(1));
    }
}

pub proof fn lemma_words_to_le_bytes_concat(a: Seq<u32>, b: Seq<u32>)
    ensures
        spec_words_to_le_bytes(a + b) == spec_words_to_le_bytes(a) + spec_words_to_le_bytes(b),
    decreases a.len(),
{
    if a.len() == 0 {
        assert(a + b =~= b);
        assert(spec_words_to_le_bytes(a) =~= Seq::<u8>::empty());
        assert(spec_words_to_le_bytes(a) + spec_words_to_le_bytes(b) =~= spec_words_to_le_bytes(
            b,
        ));
    } else {
        assert((a + b).skip(1) =~= a.skip(1) + b);
        assert((a + b)[0] == a[0]);
        lemma_words_to_le_bytes_concat(a.skip(1), b);
        assert(spec_words_to_le_bytes(a + b) =~= spec_words_to_le_bytes(a)
            + spec_words_to_le_bytes(b));
    }
}

} // verus!
