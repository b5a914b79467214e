use vstd::prelude::*;

verus! {

/// The index data of a mesh, in one of three widths.
pub enum Indices {
    U8(Vec<u8>),
    U16(Vec<u16>),
    U32(Vec<u32>),
}

/// The width of the indices of a mesh, as a draw call names it.
#[derive(Clone, Copy, PartialEq, Eq, Structural, Debug)]
pub enum IndexType {
    Uint8,
    Uint16,
    Uint32,
}

/// Reinterprets 8-bit indices as bytes (`bytemuck::cast_slice`): the same
/// values.
#[verifier::external_body]
fn u8_bytes(v: &[u8]) -> (r: &[u8])
    ensures
        r@ == v@,
{
    bytemuck::cast_slice(v)
}

/// `b` holds the 16-bit values of `v` in order, two bytes each, low byte
/// first.
pub open spec fn le_u16(v: Seq<u16>, b: Seq<u8>) -> bool {
    &&& b.len() == 2 * v.len()
    &&& forall|i: int| 0 <= i < v.len() ==> #[trigger] v[i] == b[2 * i] + 256 * b[2 * i + 1]
}

/// `b` holds the 16-bit values of `v` in order, two bytes each, high byte
/// first.
pub open spec fn be_u16(v: Seq<u16>, b: Seq<u8>) -> bool {
    &&& b.len() == 2 * v.len()
    &&& forall|i: int| 0 <= i < v.len() ==> #[trigger] v[i] == 256 * b[2 * i] + b[2 * i + 1]
}

/// `b` holds the 32-bit values of `v` in order, four bytes each, lowest
/// byte first.
pub open spec fn le_u32(v: Seq<u32>, b: Seq<u8>) -> bool {
    &&& b.len() == 4 * v.len()
    &&& forall|i: int|
        0 <= i < v.len() ==> #[trigger] v[i] == b[4 * i] + 0x100 * b[4 * i + 1] + 0x1_0000 * b[4
            * i + 2] + 0x100_0000 * b[4 * i + 3]
}

/// `b` holds the 32-bit values of `v` in order, four bytes each, highest
/// byte first.
pub open spec fn be_u32(v: Seq<u32>, b: Seq<u8>) -> bool {
    &&& b.len() == 4 * v.len()
    &&& forall|i: int|
        0 <= i < v.len() ==> #[trigger] v[i] == 0x100_0000 * b[4 * i] + 0x1_0000 * b[4 * i + 1]
            + 0x100 * b[4 * i + 2] + b[4 * i + 3]
}

/// Reinterprets 16-bit indices as their bytes (`bytemuck::cast_slice`): the
/// same memory, each index in the machine's byte order, which on every
/// target is either little-endian or big-endian. Which of the two is not
/// stated.
#[verifier::external_body]
fn u16_bytes(v: &[u16]) -> (r: &[u8])
    ensures
        r@.len() == 2 * v@.len(),
        le_u16(v@, r@) || be_u16(v@, r@),
{
    bytemuck::cast_slice(v)
}

/// Reinterprets 32-bit indices as their bytes (`bytemuck::cast_slice`): the
/// same memory, each index in the machine's byte order, which on every
/// target is either little-endian or big-endian. Which of the two is not
/// stated.
#[verifier::external_body]
fn u32_bytes(v: &[u32]) -> (r: &[u8])
    ensures
        r@.len() == 4 * v@.len(),
        le_u32(v@, r@) || be_u32(v@, r@),
{
    bytemuck::cast_slice(v)
}

impl Indices {
    /// The number of indices.
    pub open spec fn count(self) -> nat {
        match self {
            Indices::U8(v) => v@.len(),
            Indices::U16(v) => v@.len(),
            Indices::U32(v) => v@.len(),
        }
    }

    /// The size of one index in bytes.
    pub open spec fn width(self) -> nat {
        match self {
            Indices::U8(_) => 1,
            Indices::U16(_) => 2,
            Indices::U32(_) => 4,
        }
    }

    /// Returns the number of indices.
    pub fn len(&self) -> (r: usize)
        ensures
            r == self.count(),
    {
        match self {
            Indices::U8(vec) => vec.len(),
            Indices::U16(vec) => vec.len(),
            Indices::U32(vec) => vec.len(),
        }
    }

    /// Returns `true` if there are no indices.
    pub fn is_empty(&self) -> (r: bool)
        ensures
            r == (self.count() == 0),
    {
        match self {
            Indices::U8(vec) => vec.is_empty(),
            Indices::U16(vec) => vec.is_empty(),
            Indices::U32(vec) => vec.is_empty(),
        }
    }

    /// The indices as bytes, in order, each index in the machine's byte
    /// order (little- or big-endian, the same for all indices).
    pub fn get_slice(&self) -> (r: &[u8])
        ensures
            r@.len() == self.count() * self.width(),
            self matches Indices::U8(v) ==> r@ == v@,
            self matches Indices::U16(v) ==> le_u16(v@, r@) || be_u16(v@, r@),
            self matches Indices::U32(v) ==> le_u32(v@, r@) || be_u32(v@, r@),
    {
        match self {
            Indices::U8(indices) => u8_bytes(indices.as_slice()),
            Indices::U16(indices) => u16_bytes(indices.as_slice()),
            Indices::U32(indices) => u32_bytes(indices.as_slice()),
        }
    }

    /// The index width that a draw call names for these indices.
    pub fn vk_type(&self) -> (r: IndexType)
        ensures
            r == (match self {
                Indices::U8(_) => IndexType::Uint8,
                Indices::U16(_) => IndexType::Uint16,
                Indices::U32(_) => IndexType::Uint32,
            }),
    {
        match self {
            Indices::U8(_) => IndexType::Uint8,
            Indices::U16(_) => IndexType::Uint16,
            Indices::U32(_) => IndexType::Uint32,
        }
    }
}

} // verus!
