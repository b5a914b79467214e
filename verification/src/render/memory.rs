use vstd::prelude::*;

verus! {

/// Most memory types a device reports.
pub const MAX_MEMORY_TYPES: usize = 32;

/// Bit `index` of `bits` is set.
pub open spec fn bit_set(bits: u32, index: u32) -> bool {
    (bits >> index) & 1u32 == 1u32
}

/// The memory type at `index`, with property flags `props`, is allowed by
/// `type_bits` and has every flag of `flags`.
pub open spec fn memory_type_suits(type_bits: u32, index: u32, props: u32, flags: u32) -> bool {
    bit_set(type_bits, index) && props & flags == flags
}

proof fn lemma_shifted_one(bits: u32, index: u32)
    requires
        index < 32,
    ensures
        ((1u32 << index) & bits != 0) == bit_set(bits, index),
{
    assert(((1u32 << index) & bits != 0) == ((bits >> index) & 1u32 == 1u32)) by (bit_vector)
        requires
            index < 32,
    ;
}

/// The memory types of a physical device: the property flags of each type,
/// in the device's order.
pub struct MemoryAllocator {
    memory_types: Vec<u32>,
}

impl MemoryAllocator {
    /// The property flags of the memory types.
    pub closed spec fn types(self) -> Seq<u32> {
        self.memory_types@
    }

    /// A device reports at most [`MAX_MEMORY_TYPES`] memory types.
    pub open spec fn wf(self) -> bool {
        self.types().len() <= MAX_MEMORY_TYPES
    }

    pub fn new(memory_types: Vec<u32>) -> (r: MemoryAllocator)
        ensures
            r.types() == memory_types@,
    {
        MemoryAllocator { memory_types }
    }

    /// The first memory type that `type_bits` allows and that has every flag
    /// of `flags`.
    pub fn find_memorytype_index(&self, type_bits: u32, flags: u32) -> (r: Option<u32>)
        requires
            self.wf(),
        ensures
            match r {
                Some(i) => {
                    &&& i < self.types().len()
                    &&& memory_type_suits(type_bits, i, self.types()[i as int], flags)
                    &&& forall|j: u32|
                        j < i ==> !memory_type_suits(type_bits, j, #[trigger] self.types()[j as int], flags)
                },
                None => forall|j: u32|
                    j < self.types().len() ==> !memory_type_suits(
                        type_bits,
                        j,
                        #[trigger] self.types()[j as int],
                        flags,
                    ),
            },
    {
        let mut index: usize = 0;
        while index < self.memory_types.len()
            invariant
                self.wf(),
                index <= self.memory_types.len(),
                forall|j: u32|
                    j < index ==> !memory_type_suits(type_bits, j, #[trigger] self.types()[j as int], flags),
            decreases self.memory_types.len() - index,
        {
            let props = self.memory_types[index];
            let i = index as u32;
            proof {
                lemma_shifted_one(type_bits, i);
            }
            if (1u32 << i) & type_bits != 0 && props & flags == flags {
                return Some(i);
            }
            index = index + 1;
        }
        None
    }
}

} // verus!
