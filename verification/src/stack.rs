//! Block identifiers and the bounded stack that holds them.

use vstd::prelude::*;

verus! {

/// Number of blocks that the store manages.
pub const BLOCK_COUNT: usize = 64;

/// Handle of one block of the store: an integer below [`BLOCK_COUNT`].
#[derive(Clone, Copy, Debug, PartialEq, Eq, Structural)]
pub struct BlockId(u8);

impl BlockId {
    /// Every handle names one of the store's blocks.
    #[verifier::type_invariant]
    pub open spec fn in_range(self) -> bool {
        self.index() < BLOCK_COUNT
    }

    /// The number of the block that the handle names.
    pub closed spec fn index(self) -> nat {
        self.0 as nat
    }

    /// The handle that names block `index`.
    pub closed spec fn from_index(index: int) -> BlockId {
        BlockId(index as u8)
    }

    /// `from_index` and `index` undo each other on the numbers of a byte.
    pub broadcast proof fn lemma_from_index(index: int)
        requires
            0 <= index < 256,
        ensures
            (#[trigger] Self::from_index(index)).index() == index,
    {
    }

    /// A handle is the handle of the block that it names.
    pub broadcast proof fn lemma_index_from(self)
        ensures
            Self::from_index(#[trigger] self.index() as int) == self,
    {
    }

    /// The handle of block `value`, if there is such a block.
    pub fn new(value: u8) -> (id: Option<BlockId>)
        ensures
            id is Some <==> value < BLOCK_COUNT,
            id is Some ==> id == Some(Self::from_index(value as int)),
    {
        if value < 64 {
            Some(BlockId(value))
        } else {
            None
        }
    }

    /// The number of the block that the handle names.
    pub fn value(&self) -> (value: u8)
        ensures
            value == self.index(),
            value < BLOCK_COUNT,
    {
        proof {
            use_type_invariant(self);
        }
        self.0
    }

    /// Two handles that name the same block are the same handle.
    pub proof fn lemma_index_injective(self, other: BlockId)
        requires
            self.index() == other.index(),
        ensures
            self == other,
    {
    }
}

/// Where `id` first occurs in `ids`, or the length of `ids` if it does not occur.
pub open spec fn first_index_of(ids: Seq<BlockId>, id: BlockId) -> int
    decreases ids.len(),
{
    if ids.len() == 0 {
        0
    } else if ids[0] == id {
        0
    } else {
        1 + first_index_of(ids.drop_first(), id)
    }
}

/// `ids` without the first occurrence of `id`: the last element takes its
/// place, so the order of the others is not kept. Unchanged if `id` does not
/// occur.
pub open spec fn swap_removed(ids: Seq<BlockId>, id: BlockId) -> Seq<BlockId> {
    let at = first_index_of(ids, id);
    if at < ids.len() {
        ids.update(at, ids.last()).drop_last()
    } else {
        ids
    }
}

/// `first_index_of` is the least position that holds `id`.
pub proof fn lemma_first_index_of(ids: Seq<BlockId>, id: BlockId, at: int)
    requires
        0 <= at <= ids.len(),
        forall|j: int| 0 <= j < at ==> ids[j] != id,
        at < ids.len() ==> ids[at] == id,
    ensures
        first_index_of(ids, id) == at,
    decreases ids.len(),
{
    if ids.len() > 0 && ids[0] != id {
        let rest = ids.drop_first();
        lemma_first_index_of(rest, id, at - 1);
    }
}

/// `first_index_of` stays within the sequence exactly if `id` occurs in it,
/// and then points at an occurrence that no other precedes.
pub proof fn lemma_first_index_of_bounds(ids: Seq<BlockId>, id: BlockId)
    ensures
        0 <= first_index_of(ids, id) <= ids.len(),
        first_index_of(ids, id) < ids.len() <==> ids.contains(id),
        first_index_of(ids, id) < ids.len() ==> ids[first_index_of(ids, id)] == id,
        forall|j: int| 0 <= j < first_index_of(ids, id) ==> ids[j] != id,
    decreases ids.len(),
{
    if ids.len() > 0 && ids[0] != id {
        let rest = ids.drop_first();
        lemma_first_index_of_bounds(rest, id);
        let at = first_index_of(rest, id);
        assert forall|j: int| 0 <= j < 1 + at implies ids[j] != id by {
            if j > 0 {
                assert(rest[j - 1] == ids[j]);
            }
        }
    }
}

/// Taking a handle out of a list without duplicates leaves the other handles
/// in the list, each once.
pub proof fn lemma_swap_removed(ids: Seq<BlockId>, id: BlockId)
    requires
        ids.no_duplicates(),
    ensures
        swap_removed(ids, id).no_duplicates(),
        !swap_removed(ids, id).contains(id),
        forall|other: BlockId|
            other != id ==> (#[trigger] swap_removed(ids, id).contains(other) <==> ids.contains(
                other,
            )),
        swap_removed(ids, id).len() == if ids.contains(id) {
            ids.len() - 1
        } else {
            ids.len() as int
        },
{
    lemma_first_index_of_bounds(ids, id);
    let at = first_index_of(ids, id);
    let rest = swap_removed(ids, id);
    if at < ids.len() {
        let last = ids.len() - 1;
        assert forall|other: BlockId| other != id implies (#[trigger] rest.contains(other)
            <==> ids.contains(other)) by {
            if ids.contains(other) {
                let k = choose|k: int| 0 <= k < ids.len() && ids[k] == other;
                if k == last {
                    assert(rest[at] == other);
                } else {
                    assert(rest[k] == other);
                }
            }
        }
    }
}

/// A stack of at most [`BLOCK_COUNT`] block handles.
pub struct Stack {
    elements: [BlockId; 64],
    count: u8,
}

impl Stack {
    /// The stack never holds more handles than there are blocks.
    #[verifier::type_invariant]
    pub closed spec fn bounded(&self) -> bool {
        &&& self.count <= BLOCK_COUNT
        &&& forall|slot: int| 0 <= slot < 64 ==> (#[trigger] self.elements@[slot]).in_range()
    }

    /// The handles on the stack, the most recently pushed last.
    pub closed spec fn view(&self) -> Seq<BlockId> {
        self.elements@.take(self.count as int)
    }

    /// An empty stack.
    pub fn new() -> (stack: Stack)
        ensures
            stack@ == Seq::<BlockId>::empty(),
    {
        Stack { elements: [BlockId(0);64], count: 0 }
    }

    /// The number of handles on the stack.
    pub fn len(&self) -> (count: usize)
        ensures
            count == self@.len(),
            count <= BLOCK_COUNT,
    {
        proof {
            use_type_invariant(self);
        }
        self.count as usize
    }

    /// The handle at position `index`, counted from the bottom of the stack.
    pub fn get(&self, index: usize) -> (id: Option<BlockId>)
        ensures
            id == if index < self@.len() {
                Some(self@[index as int])
            } else {
                None
            },
    {
        proof {
            use_type_invariant(self);
        }
        if index < self.count as usize {
            Some(self.elements[index])
        } else {
            None
        }
    }

    /// Takes the most recently pushed handle off the stack.
    pub fn pop(&mut self) -> (id: Option<BlockId>)
        ensures
            old(self)@.len() == 0 ==> id is None && final(self)@ == old(self)@,
            old(self)@.len() > 0 ==> id == Some(old(self)@.last()) && final(self)@ == old(
                self,
            )@.drop_last(),
    {
        proof {
            use_type_invariant(&*self);
        }
        if self.count == 0 {
            return None;
        }
        self.count = self.count - 1;
        Some(self.elements[self.count as usize])
    }

    /// Puts `block_id` on top of the stack. A full stack stays as it is.
    pub fn push(&mut self, block_id: BlockId)
        ensures
            final(self)@ == if old(self)@.len() < BLOCK_COUNT {
                old(self)@.push(block_id)
            } else {
                old(self)@
            },
    {
        proof {
            use_type_invariant(&*self);
        }
        proof {
            use_type_invariant(block_id);
        }
        if self.count > 63 {
            return ;
        }
        self.elements[self.count as usize] = block_id;
        self.count = self.count + 1;
    }

    /// Takes the first occurrence of `block_id` off the stack and moves the
    /// top handle into its place. A stack without `block_id` stays as it is.
    pub fn remove(&mut self, block_id: BlockId)
        ensures
            final(self)@ == swap_removed(old(self)@, block_id),
    {
        proof {
            use_type_invariant(&*self);
        }
        let count: usize = self.count as usize;
        let mut index: usize = 0;
        while index < count
            invariant
                index <= count <= BLOCK_COUNT,
                count == self.count,
                *self == *old(self),
                forall|j: int| 0 <= j < index ==> self@[j] != block_id,
            decreases count - index,
        {
            if self.elements[index].0 == block_id.0 {
                proof {
                    use_type_invariant(&*self);
                    lemma_first_index_of(self@, block_id, index as int);
                }
                self.count = self.count - 1;
                self.elements[index] = self.elements[self.count as usize];
                return ;
            }
            index = index + 1;
        }
        proof {
            lemma_first_index_of(self@, block_id, count as int);
        }
    }

    /// Whether `block_id` is on the stack.
    pub fn contains(&self, block_id: BlockId) -> (found: bool)
        ensures
            found == self@.contains(block_id),
    {
        proof {
            use_type_invariant(self);
        }
        let count: usize = self.count as usize;
        let mut index: usize = 0;
        while index < count
            invariant
                index <= count <= BLOCK_COUNT,
                count == self.count,
                forall|j: int| 0 <= j < index ==> self@[j] != block_id,
            decreases count - index,
        {
            if self.elements[index].0 == block_id.0 {
                assert(self@[index as int] == block_id);
                return true;
            }
            index = index + 1;
        }
        false
    }

    /// Whether no handle is on the stack twice.
    pub fn is_duplicate_free(&self) -> (distinct: bool)
        ensures
            distinct == self@.no_duplicates(),
    {
        proof {
            use_type_invariant(self);
        }
        let count: usize = self.count as usize;
        let mut upper: usize = 0;
        while upper < count
            invariant
                upper <= count <= BLOCK_COUNT,
                count == self.count,
                forall|i: int, j: int| 0 <= i < j < upper ==> self@[i] != self@[j],
            decreases count - upper,
        {
            let mut lower: usize = 0;
            while lower < upper
                invariant
                    lower <= upper < count <= BLOCK_COUNT,
                    count == self.count,
                    forall|i: int| 0 <= i < lower ==> self@[i] != self@[upper as int],
                decreases upper - lower,
            {
                if self.elements[lower].0 == self.elements[upper].0 {
                    assert(self@[lower as int] == self@[upper as int]);
                    return false;
                }
                lower = lower + 1;
            }
            upper = upper + 1;
        }
        true
    }

    /// The handles on the stack, from the bottom up, as a fresh snapshot.
    pub fn iter(&self) -> (ids: Vec<BlockId>)
        ensures
            ids@ == self@,
    {
        proof {
            use_type_invariant(self);
        }
        let count: usize = self.count as usize;
        let mut ids: Vec<BlockId> = Vec::new();
        let mut index: usize = 0;
        while index < count
            invariant
                index <= count <= BLOCK_COUNT,
                count == self.count,
                ids@ == self@.take(index as int),
            decreases count - index,
        {
            ids.push(self.elements[index]);
            index = index + 1;
        }
        ids
    }

    /// A stack that meets its bound holds at most [`BLOCK_COUNT`] handles,
    /// each of which names a block.
    pub proof fn lemma_bounded(&self)
        requires
            self.bounded(),
        ensures
            self@.len() <= BLOCK_COUNT,
            forall|at: int| 0 <= at < self@.len() ==> (#[trigger] self@[at]).in_range(),
    {
    }
}

} // verus!
