//! Blocks: a fixed number of slots, each empty or holding a payload of at
//! most a fixed number of bytes.

use crate::storage::BlockError;
use vstd::prelude::*;
use vstd::string::StringSliceAdditionalSpecFns;
use vstd::utf8::encode_utf8;

verus! {

/// The slots of a block store in index order; `None` is an empty slot.
pub type Blocks = Seq<Option<Seq<char>>>;

/// The number of bytes that `data` takes, encoded as UTF-8.
pub open spec fn byte_len(data: Seq<char>) -> nat {
    encode_utf8(data).len()
}

/// Whether every occupied slot holds at most `block_size` bytes.
pub open spec fn within_limit(blocks: Blocks, block_size: usize) -> bool {
    forall|i: int|
        0 <= i < blocks.len() ==> ((#[trigger] blocks[i]) matches Some(data) ==> byte_len(data)
            <= block_size)
}

/// Whether `write` at `index` is accepted, and why not. The index is
/// examined before the size.
pub open spec fn write_outcome(blocks: Blocks, block_size: usize, index: usize, data: Seq<char>)
    -> Result<(), BlockError> {
    if index >= blocks.len() {
        Err(BlockError::InvalidIndex)
    } else if byte_len(data) > block_size {
        Err(BlockError::TooLarge { max: block_size })
    } else {
        Ok(())
    }
}

/// The slots after `write`: slot `index` holds `data` if the write is
/// accepted, and nothing changes if it is not.
pub open spec fn written(blocks: Blocks, block_size: usize, index: usize, data: Seq<char>)
    -> Blocks {
    if write_outcome(blocks, block_size, index, data) is Ok {
        blocks.update(index as int, Some(data))
    } else {
        blocks
    }
}

/// The slots after `delete`: slot `index` is empty, if there is such a slot.
pub open spec fn cleared(blocks: Blocks, index: usize) -> Blocks {
    if index < blocks.len() {
        blocks.update(index as int, None)
    } else {
        blocks
    }
}

/// Whether `delete` at `index` is accepted.
pub open spec fn delete_outcome(blocks: Blocks, index: usize) -> Result<(), BlockError> {
    if index < blocks.len() {
        Ok(())
    } else {
        Err(BlockError::InvalidIndex)
    }
}

/// What `read` finds at `index`: nothing where the slot is empty and nothing
/// where there is no such slot.
pub open spec fn stored(blocks: Blocks, index: usize) -> Option<Seq<char>> {
    if index < blocks.len() {
        blocks[index as int]
    } else {
        None
    }
}

/// A change that a block store can be asked for.
pub enum BlockOp {
    Write { index: usize, data: Seq<char> },
    Delete { index: usize },
}

/// The slots after one change.
pub open spec fn applied(blocks: Blocks, block_size: usize, op: BlockOp) -> Blocks {
    match op {
        BlockOp::Write { index, data } => written(blocks, block_size, index, data),
        BlockOp::Delete { index } => cleared(blocks, index),
    }
}

/// The slots after a sequence of changes, the first one first.
pub open spec fn replayed(blocks: Blocks, block_size: usize, ops: Seq<BlockOp>) -> Blocks
    decreases ops.len(),
{
    if ops.len() == 0 {
        blocks
    } else {
        applied(replayed(blocks, block_size, ops.drop_last()), block_size, ops.last())
    }
}

/// A store as `new` makes it: `num_blocks` empty slots.
pub open spec fn empty_blocks(num_blocks: usize) -> Blocks {
    Seq::new(num_blocks as nat, |i: int| None::<Seq<char>>)
}

/// One change keeps the number of slots, and keeps every payload within
/// the limit.
pub proof fn lemma_bounds_step(blocks: Blocks, block_size: usize, op: BlockOp)
    requires
        within_limit(blocks, block_size),
    ensures
        applied(blocks, block_size, op).len() == blocks.len(),
        within_limit(applied(blocks, block_size, op), block_size),
{
}

/// Through any sequence of changes the number of slots stays what it was,
/// and every payload stays within the limit.
pub proof fn lemma_bounds(blocks: Blocks, block_size: usize, ops: Seq<BlockOp>)
    requires
        within_limit(blocks, block_size),
    ensures
        replayed(blocks, block_size, ops).len() == blocks.len(),
        within_limit(replayed(blocks, block_size, ops), block_size),
    decreases ops.len(),
{
    if ops.len() > 0 {
        lemma_bounds(blocks, block_size, ops.drop_last());
        lemma_bounds_step(replayed(blocks, block_size, ops.drop_last()), block_size, ops.last());
    }
}

/// A store made with `num_blocks` slots has that many slots after any
/// sequence of changes, each empty or within the limit.
pub proof fn lemma_bounds_from_new(num_blocks: usize, block_size: usize, ops: Seq<BlockOp>)
    ensures
        replayed(empty_blocks(num_blocks), block_size, ops).len() == num_blocks,
        within_limit(replayed(empty_blocks(num_blocks), block_size, ops), block_size),
{
    lemma_bounds(empty_blocks(num_blocks), block_size, ops);
}

/// A write that is refused leaves every slot as it was, and so does a
/// delete at an index that is no slot's.
pub proof fn lemma_refused_changes_nothing(
    blocks: Blocks,
    block_size: usize,
    index: usize,
    data: Seq<char>,
)
    ensures
        write_outcome(blocks, block_size, index, data) is Err ==> written(
            blocks,
            block_size,
            index,
            data,
        ) == blocks,
        index >= blocks.len() ==> cleared(blocks, index) == blocks,
{
}

/// What a write stored in a slot is what a read of that slot finds.
pub proof fn lemma_write_then_read(blocks: Blocks, block_size: usize, index: usize, data: Seq<char>)
    requires
        write_outcome(blocks, block_size, index, data) is Ok,
    ensures
        stored(written(blocks, block_size, index, data), index) == Some(data),
{
}

/// After a delete a read of the slot finds nothing; a second delete changes
/// nothing more.
pub proof fn lemma_delete_then_read(blocks: Blocks, index: usize)
    ensures
        stored(cleared(blocks, index), index) is None,
        cleared(cleared(blocks, index), index) == cleared(blocks, index),
{
}

/// A write at the index that equals the number of slots, or at a greater
/// one, is refused as an invalid index, whatever the payload.
pub proof fn lemma_write_past_the_end(
    blocks: Blocks,
    block_size: usize,
    index: usize,
    data: Seq<char>,
)
    requires
        index >= blocks.len(),
    ensures
        write_outcome(blocks, block_size, index, data) == Err::<(), BlockError>(
            BlockError::InvalidIndex,
        ),
        written(blocks, block_size, index, data) == blocks,
{
}

/// A write of more bytes than a block holds, at a valid index, is refused
/// as too large, and the slot keeps what it had.
pub proof fn lemma_write_too_large(
    blocks: Blocks,
    block_size: usize,
    index: usize,
    data: Seq<char>,
)
    requires
        index < blocks.len(),
        byte_len(data) > block_size,
    ensures
        write_outcome(blocks, block_size, index, data) == Err::<(), BlockError>(
            (BlockError::TooLarge { max: block_size }),
        ),
        written(blocks, block_size, index, data)[index as int] == blocks[index as int],
{
}

/// A store of blocks. Viewed as its slots in index order. The number of
/// slots and the block size are fixed when the store is made, and no slot
/// ever holds more bytes than the block size.
pub struct BlockStorage {
    blocks: Vec<Option<String>>,
    block_size: usize,
}

impl View for BlockStorage {
    type V = Blocks;

    closed spec fn view(&self) -> Blocks {
        self.blocks.deep_view()
    }
}

impl BlockStorage {
    #[verifier::type_invariant]
    spec fn payloads_fit(&self) -> bool {
        within_limit(self.blocks.deep_view(), self.block_size)
    }

    /// The most bytes that one block holds.
    pub closed spec fn spec_block_size(&self) -> usize {
        self.block_size
    }

    /// A store of `num_blocks` empty slots that hold up to `block_size`
    /// bytes each.
    pub fn new(num_blocks: usize, block_size: usize) -> (store: Self)
        ensures
            store@ == empty_blocks(num_blocks),
            store.block_size() == block_size,
    {
        let mut blocks: Vec<Option<String>> = Vec::new();
        let mut i: usize = 0;
        while i < num_blocks
            invariant
                i <= num_blocks,
                blocks.len() == i,
                forall|j: int| 0 <= j < i ==> blocks[j] is None,
            decreases num_blocks - i,
        {
            blocks.push(None);
            i += 1;
        }
        BlockStorage { blocks, block_size }
    }

    /// The most bytes that one block holds.
    #[verifier::when_used_as_spec(spec_block_size)]
    pub fn block_size(&self) -> (max: usize)
        ensures
            max == self.block_size(),
    {
        self.block_size
    }

    /// Stores `data` in slot `index`.
    pub fn write(&mut self, index: usize, data: &str) -> (done: Result<(), BlockError>)
        ensures
            done == write_outcome(old(self)@, old(self).block_size(), index, data@),
            final(self)@ == written(old(self)@, old(self).block_size(), index, data@),
            final(self).block_size() == old(self).block_size(),
            final(self)@.len() == old(self)@.len(),
            within_limit(final(self)@, final(self).block_size()),
            done is Err ==> final(self)@ == old(self)@,
    {
        proof {
            use_type_invariant(&*self);
        }
        if index >= self.blocks.len() {
            return Err(BlockError::InvalidIndex);
        }
        if data.as_bytes().len() > self.block_size {
            return Err(BlockError::TooLarge { max: self.block_size });
        }
        // The slots change outside the store, which at no time holds a slot
        // over its limit.
        let mut blocks = Vec::new();
        core::mem::swap(&mut self.blocks, &mut blocks);
        blocks[index] = Some(data.to_owned());
        assert(blocks.deep_view() =~= old(self)@.update(index as int, Some(data@)));
        self.blocks = blocks;
        Ok(())
    }

    /// The payload in slot `index`.
    pub fn read(&self, index: usize) -> (payload: Option<&String>)
        ensures
            payload.deep_view() == stored(self@, index),
    {
        if index < self.blocks.len() {
            self.blocks[index].as_ref()
        } else {
            None
        }
    }

    /// Empties slot `index`, whether or not it held anything.
    pub fn delete(&mut self, index: usize) -> (done: Result<(), BlockError>)
        ensures
            done == delete_outcome(old(self)@, index),
            final(self)@ == cleared(old(self)@, index),
            final(self).block_size() == old(self).block_size(),
            final(self)@.len() == old(self)@.len(),
            within_limit(final(self)@, final(self).block_size()),
            done is Err ==> final(self)@ == old(self)@,
    {
        proof {
            use_type_invariant(&*self);
        }
        if index < self.blocks.len() {
            let mut blocks = Vec::new();
            core::mem::swap(&mut self.blocks, &mut blocks);
            blocks[index] = None;
            assert(blocks.deep_view() =~= old(self)@.update(index as int, None));
            self.blocks = blocks;
            Ok(())
        } else {
            Err(BlockError::InvalidIndex)
        }
    }

    /// All slots in index order, the empty ones included.
    pub fn list(&self) -> (slots: &Vec<Option<String>>)
        ensures
            slots.deep_view() == self@,
            within_limit(self@, self.block_size()),
    {
        proof {
            use_type_invariant(self);
        }
        &self.blocks
    }
}

} // verus!
