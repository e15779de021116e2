//! The layout of the metadata page: the image of the store's metadata that
//! is written to flash and read back from it.
//!
//! | bytes      | field                                                     |
//! |------------|-----------------------------------------------------------|
//! | 0..256     | four bytes for each block: next block, name size, content size (two bytes, low byte first) |
//! | 256..321   | the free blocks: 64 slots and the number of slots in use  |
//! | 321..386   | the first blocks of the files, in the same form           |
//! | 388..392   | the address of the content of block 0, low byte first     |
//! | 392        | 1 if the store is set up, else 0                          |
//!
//! All other bytes are written as 0 and ignored when read.

use vstd::prelude::*;
use crate::file_system::BlockInfo;
use crate::flash::{Page, PAGE_SIZE};
use crate::stack::{BlockId, Stack, BLOCK_COUNT};

verus! {

/// Where the free blocks start in the image.
pub const FREE_OFFSET: usize = 256;

/// Where the first blocks of the files start in the image.
pub const FILES_OFFSET: usize = 321;

/// Where the address of the content starts in the image.
pub const POINTER_OFFSET: usize = 388;

/// Where the image says whether the store is set up.
pub const INITIALIZED_OFFSET: usize = 392;

/// Byte `part` of the four bytes that hold `info`.
pub open spec fn info_byte(info: BlockInfo, part: int) -> u8 {
    if part == 0 {
        info.next_block.index() as u8
    } else if part == 1 {
        info.file_name_size
    } else if part == 2 {
        (info.content_size % 256) as u8
    } else {
        (info.content_size / 256) as u8
    }
}

/// Byte `slot` of the 65 bytes that hold the stack `ids`: a slot in use holds
/// the number of its block, a slot not in use holds 0, and the last byte
/// holds the number of slots in use.
pub open spec fn stack_byte(ids: Seq<BlockId>, slot: int) -> u8 {
    if slot == BLOCK_COUNT {
        ids.len() as u8
    } else if slot < ids.len() {
        ids[slot].index() as u8
    } else {
        0
    }
}

/// Byte `part` of the address of the content of block 0, low byte first.
pub open spec fn pointer_byte(part: int) -> u8 {
    if part == 2 {
        0x01
    } else if part == 3 {
        0x08
    } else {
        0x00
    }
}

/// Byte `at` of the image of a store's metadata.
pub open spec fn image_byte(
    block_info: Seq<BlockInfo>,
    free_blocks: Seq<BlockId>,
    first_blocks: Seq<BlockId>,
    initialized: bool,
    at: int,
) -> u8 {
    if at < FREE_OFFSET {
        info_byte(block_info[at / 4], at % 4)
    } else if at < FILES_OFFSET {
        stack_byte(free_blocks, at - FREE_OFFSET)
    } else if at < FILES_OFFSET + 65 {
        stack_byte(first_blocks, at - FILES_OFFSET)
    } else if POINTER_OFFSET <= at < POINTER_OFFSET + 4 {
        pointer_byte(at - POINTER_OFFSET)
    } else if at == INITIALIZED_OFFSET && initialized {
        1
    } else {
        0
    }
}

/// The image of a store's metadata: one page.
pub open spec fn metadata_image(
    block_info: Seq<BlockInfo>,
    free_blocks: Seq<BlockId>,
    first_blocks: Seq<BlockId>,
    initialized: bool,
) -> Seq<u8> {
    Seq::new(
        PAGE_SIZE as nat,
        |at: int| image_byte(block_info, free_blocks, first_blocks, initialized, at),
    )
}

/// The metadata of block `block` that `image` holds.
pub open spec fn image_info(image: Seq<u8>, block: int) -> BlockInfo {
    BlockInfo {
        next_block: BlockId::from_index(image[4 * block] as int),
        file_name_size: image[4 * block + 1],
        content_size: (image[4 * block + 2] as int + 256 * (image[4 * block + 3] as int)) as u16,
    }
}

/// The metadata of all blocks that `image` holds.
pub open spec fn image_block_info(image: Seq<u8>) -> Seq<BlockInfo> {
    Seq::new(BLOCK_COUNT as nat, |block: int| image_info(image, block))
}

/// The stack that `image` holds in the 65 bytes from `offset` on.
pub open spec fn image_stack(image: Seq<u8>, offset: int) -> Seq<BlockId> {
    Seq::new(
        image[offset + BLOCK_COUNT] as nat,
        |slot: int| BlockId::from_index(image[offset + slot] as int),
    )
}

/// Whether `image` says that the store is set up.
pub open spec fn image_initialized(image: Seq<u8>) -> bool {
    image[INITIALIZED_OFFSET as int] == 1
}

/// Whether the 65 bytes of `image` from `offset` on hold a stack: no more
/// slots are in use than there are blocks, and each slot in use names a block.
pub open spec fn stack_readable(image: Seq<u8>, offset: int) -> bool {
    &&& image[offset + BLOCK_COUNT] <= BLOCK_COUNT
    &&& forall|slot: int|
        0 <= slot < image[offset + BLOCK_COUNT] ==> #[trigger] image[offset + slot] < BLOCK_COUNT
}

/// Whether `image` can be read as the metadata of a store: it is one page,
/// every block's next block is a block, both stacks can be read, the content
/// is where it is expected, and the set-up byte is 0 or 1.
pub open spec fn image_readable(image: Seq<u8>) -> bool {
    &&& image.len() == PAGE_SIZE
    &&& forall|block: int| 0 <= block < BLOCK_COUNT ==> #[trigger] image[4 * block] < BLOCK_COUNT
    &&& stack_readable(image, FREE_OFFSET as int)
    &&& stack_readable(image, FILES_OFFSET as int)
    &&& image[POINTER_OFFSET as int] == pointer_byte(0)
    &&& image[POINTER_OFFSET + 1] == pointer_byte(1)
    &&& image[POINTER_OFFSET + 2] == pointer_byte(2)
    &&& image[POINTER_OFFSET + 3] == pointer_byte(3)
    &&& image[INITIALIZED_OFFSET as int] <= 1
}

/// Reading the image of a store's metadata gives that metadata back.
pub proof fn lemma_image_round_trip(
    block_info: Seq<BlockInfo>,
    free_blocks: Seq<BlockId>,
    first_blocks: Seq<BlockId>,
    initialized: bool,
)
    requires
        block_info.len() == BLOCK_COUNT,
        free_blocks.len() <= BLOCK_COUNT,
        first_blocks.len() <= BLOCK_COUNT,
        forall|block: int|
            0 <= block < BLOCK_COUNT ==> (#[trigger] block_info[block]).next_block.in_range(),
        forall|at: int| 0 <= at < free_blocks.len() ==> (#[trigger] free_blocks[at]).in_range(),
        forall|at: int| 0 <= at < first_blocks.len() ==> (#[trigger] first_blocks[at]).in_range(),
    ensures
        image_readable(metadata_image(block_info, free_blocks, first_blocks, initialized)),
        image_block_info(metadata_image(block_info, free_blocks, first_blocks, initialized))
            == block_info,
        image_stack(
            metadata_image(block_info, free_blocks, first_blocks, initialized),
            FREE_OFFSET as int,
        ) == free_blocks,
        image_stack(
            metadata_image(block_info, free_blocks, first_blocks, initialized),
            FILES_OFFSET as int,
        ) == first_blocks,
        image_initialized(metadata_image(block_info, free_blocks, first_blocks, initialized))
            == initialized,
{
    broadcast use BlockId::lemma_index_from;
}

/// Writes the 65 bytes that hold `stack` into `page` from `offset` on.
fn write_stack(page: &mut Page, offset: usize, stack: &Stack)
    requires
        offset + BLOCK_COUNT < PAGE_SIZE,
    ensures
        forall|slot: int|
            0 <= slot <= BLOCK_COUNT ==> #[trigger] final(page)@[offset + slot] == stack_byte(
                stack@,
                slot,
            ),
        forall|at: int|
            0 <= at < offset || offset + BLOCK_COUNT < at < PAGE_SIZE ==> final(page)@[at] == old(
                page,
            )@[at],
{
    let mut slot: usize = 0;
    while slot < 64
        invariant
            slot <= BLOCK_COUNT,
            offset + BLOCK_COUNT < PAGE_SIZE,
            forall|done: int|
                0 <= done < slot ==> #[trigger] page@[offset + done] == stack_byte(stack@, done),
            forall|at: int|
                0 <= at < offset || offset + BLOCK_COUNT < at < PAGE_SIZE ==> page@[at] == old(
                    page,
                )@[at],
        decreases BLOCK_COUNT - slot,
    {
        let value: u8 = match stack.get(slot) {
            Some(id) => id.value(),
            None => 0,
        };
        page[offset + slot] = value;
        slot = slot + 1;
    }
    page[offset + 64] = stack.len() as u8;
}

/// The image of the metadata of a store.
pub fn encode(
    block_info: &[BlockInfo; 64],
    free_blocks: &Stack,
    first_blocks: &Stack,
    initialized: bool,
) -> (page: Page)
    ensures
        page@ == metadata_image(block_info@, free_blocks@, first_blocks@, initialized),
{
    let mut page: Page = [0;1024];
    let mut block: usize = 0;
    while block < 64
        invariant
            block <= BLOCK_COUNT,
            forall|at: int|
                0 <= at < 4 * block ==> #[trigger] page@[at] == info_byte(
                    block_info@[at / 4],
                    at % 4,
                ),
            forall|at: int| 4 * block <= at < PAGE_SIZE ==> #[trigger] page@[at] == 0,
        decreases BLOCK_COUNT - block,
    {
        let info = block_info[block];
        page[4 * block] = info.next_block.value();
        page[4 * block + 1] = info.file_name_size;
        page[4 * block + 2] = (info.content_size % 256) as u8;
        page[4 * block + 3] = (info.content_size / 256) as u8;
        block = block + 1;
    }
    write_stack(&mut page, FREE_OFFSET, free_blocks);
    write_stack(&mut page, FILES_OFFSET, first_blocks);
    page[POINTER_OFFSET + 2] = 0x01;
    page[POINTER_OFFSET + 3] = 0x08;
    if initialized {
        page[INITIALIZED_OFFSET] = 1;
    }
    assert forall|at: int| 0 <= at < PAGE_SIZE implies #[trigger] page@[at] == image_byte(
        block_info@,
        free_blocks@,
        first_blocks@,
        initialized,
        at,
    ) by {
        if FREE_OFFSET <= at < FILES_OFFSET {
            assert(page@[FREE_OFFSET + (at - FREE_OFFSET)] == stack_byte(
                free_blocks@,
                at - FREE_OFFSET,
            ));
        } else if FILES_OFFSET <= at < FILES_OFFSET + 65 {
            assert(page@[FILES_OFFSET + (at - FILES_OFFSET)] == stack_byte(
                first_blocks@,
                at - FILES_OFFSET,
            ));
        }
    }
    page
}

/// Reads the metadata of the blocks from an image, unless a block's next
/// block is no block.
pub fn decode_block_info(page: &Page) -> (decoded: Option<[BlockInfo; 64]>)
    ensures
        decoded is Some <==> forall|block: int|
            0 <= block < BLOCK_COUNT ==> #[trigger] page@[4 * block] < BLOCK_COUNT,
        decoded is Some ==> decoded.unwrap()@ == image_block_info(page@),
{
    let first = match BlockId::new(0) {
        Some(id) => id,
        None => { return None; },
    };
    let blank = BlockInfo { next_block: first, file_name_size: 0, content_size: 0 };
    let mut block_info: [BlockInfo; 64] = [blank;64];
    let mut block: usize = 0;
    while block < 64
        invariant
            block <= BLOCK_COUNT,
            forall|done: int| 0 <= done < block ==> #[trigger] page@[4 * done] < BLOCK_COUNT,
            forall|done: int|
                0 <= done < block ==> #[trigger] block_info@[done] == image_info(page@, done),
        decreases BLOCK_COUNT - block,
    {
        let next_block = match BlockId::new(page[4 * block]) {
            Some(id) => id,
            None => {
                return None;
            },
        };
        let low: u16 = page[4 * block + 2] as u16;
        let high: u16 = page[4 * block + 3] as u16;
        block_info[block] = BlockInfo {
            next_block,
            file_name_size: page[4 * block + 1],
            content_size: low + 256 * high,
        };
        block = block + 1;
    }
    Some(block_info)
}

/// Reads the stack that an image holds from `offset` on, unless more slots
/// are in use than there are blocks or a slot in use names no block.
pub fn decode_stack(page: &Page, offset: usize) -> (decoded: Option<Stack>)
    requires
        offset + BLOCK_COUNT < PAGE_SIZE,
    ensures
        decoded is Some <==> stack_readable(page@, offset as int),
        decoded is Some ==> decoded.unwrap()@ == image_stack(page@, offset as int),
{
    let count: usize = page[offset + 64] as usize;
    if count > 64 {
        return None;
    }
    let mut stack = Stack::new();
    let mut slot: usize = 0;
    while slot < count
        invariant
            slot <= count <= BLOCK_COUNT,
            count == page@[offset + BLOCK_COUNT],
            offset + BLOCK_COUNT < PAGE_SIZE,
            forall|done: int| 0 <= done < slot ==> #[trigger] page@[offset + done] < BLOCK_COUNT,
            stack@ == Seq::new(
                slot as nat,
                |done: int| BlockId::from_index(page@[offset + done] as int),
            ),
        decreases count - slot,
    {
        let id = match BlockId::new(page[offset + slot]) {
            Some(id) => id,
            None => {
                return None;
            },
        };
        stack.push(id);
        slot = slot + 1;
    }
    Some(stack)
}

} // verus!
