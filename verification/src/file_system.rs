//! The block store: 64 blocks of 1024 bytes, each free or the single block of
//! one file, with their metadata, kept consistent with the flash that backs
//! them.

use vstd::prelude::*;
use vstd::slice::slice_subrange;
use crate::bytes::same_bytes;
use crate::flash::{Flash, Page, FIRST_CONTENT_PAGE, METADATA_PAGE, PAGE_SIZE};
use crate::image::{
    decode_block_info, decode_stack, encode, FILES_OFFSET, FREE_OFFSET, INITIALIZED_OFFSET,
    POINTER_OFFSET,
};
use crate::print::put_printable;
use crate::stack::{swap_removed, BlockId, Stack, BLOCK_COUNT};
use crate::store::{
    fresh_store, lemma_fresh_store_wf, loadable, loaded_store, stored_name, StoreView,
};

verus! {

/// Address at which the content page of block 0 is mapped; the pages of the
/// other blocks follow at a stride of one page.
pub const CONTENT_BASE: u32 = 0x0801_0000;

/// Longest prefix of a file name that is written to a block.
pub const NAME_LIMIT: usize = 256;

/// Number of the page in memory in which a block is put together.
pub const STAGING_PAGE: u8 = 0;

/// Number of the page in memory that holds the store's metadata.
pub const STORE_PAGE: u8 = 16;

/// How an attempt to paste a file ended.
#[derive(Clone, Copy, Debug, PartialEq, Eq, Structural)]
pub enum PasteOutcome {
    /// The announced size does not fit in one block; nothing was changed.
    TooLarge,
    /// A file of that name, if there was one, was removed, and no new file
    /// could be created.
    NotCreated,
    /// The file was created in this block.
    Created(BlockId),
}

/// What the store records about one block.
#[derive(Clone, Copy, Debug, PartialEq, Eq, Structural)]
pub struct BlockInfo {
    /// The block that continues the file; the block itself where the file ends.
    pub next_block: BlockId,
    /// Number of leading bytes of the block that hold the file's name.
    pub file_name_size: u8,
    /// Number of bytes behind the name that hold the file's content.
    pub content_size: u16,
}

impl BlockInfo {
    /// Where the content starts in the block.
    pub open spec fn content_start(self) -> int {
        self.file_name_size as int % 1024
    }

    /// Where the content ends in the block: lengths that would end it before
    /// its start give an empty content.
    pub open spec fn content_end(self) -> int {
        let end = (self.content_start() + self.content_size as int) % 1024;
        if self.content_start() > end {
            self.content_start()
        } else {
            end
        }
    }
}

/// The block store.
pub struct FileSystem {
    block_info: [BlockInfo; 64],
    free_blocks: Stack,
    first_blocks: Stack,
    initialized: bool,
    staging: Page,
    flash: Flash,
}

impl FileSystem {
    /// The store as a mathematical value.
    pub closed spec fn view(&self) -> StoreView {
        StoreView {
            block_info: self.block_info@,
            free_blocks: self.free_blocks@,
            first_blocks: self.first_blocks@,
            initialized: self.initialized,
            staging: self.staging@,
            flash: self.flash@,
        }
    }

    /// A store in which every block is free, over `flash`, which is left as
    /// it is.
    pub fn new_from_scratch(flash: Flash) -> (store: FileSystem)
        ensures
            store@ == fresh_store(flash@),
            store@.wf(),
    {
        let blank = BlockInfo { next_block: first_block(), file_name_size: 0, content_size: 0 };
        let store = FileSystem {
            block_info: [blank;64],
            free_blocks: every_block(),
            first_blocks: Stack::new(),
            initialized: true,
            staging: [0;1024],
            flash,
        };
        proof {
            assert(store@.block_info =~= fresh_store(flash@).block_info);
            assert(store@.staging =~= fresh_store(flash@).staging);
            flash.lemma_wf();
            lemma_fresh_store_wf(flash@);
        }
        store
    }

    /// Makes every block free again. The flash is left as it is.
    pub fn reset(&mut self)
        ensures
            final(self)@ == fresh_store(old(self)@.flash),
            final(self)@.wf(),
    {
        let blank = BlockInfo { next_block: first_block(), file_name_size: 0, content_size: 0 };
        self.block_info = [blank;64];
        self.free_blocks = every_block();
        self.first_blocks = Stack::new();
        self.initialized = true;
        self.staging = [0;1024];
        proof {
            assert(self@.block_info =~= fresh_store(old(self)@.flash).block_info);
            assert(self@.staging =~= fresh_store(old(self)@.flash).staging);
            self.flash.lemma_wf();
            lemma_fresh_store_wf(self@.flash);
        }
    }

    /// Reads the store back from the metadata page of `flash`.
    ///
    /// If the page does not hold a store that meets the invariants, the
    /// flash is handed back as it is.
    pub fn load_from_flash(flash: Flash) -> (loaded: Result<FileSystem, Flash>)
        ensures
            match loaded {
                Ok(store) => loadable(flash@) && store@ == loaded_store(flash@),
                Err(unchanged) => !loadable(flash@) && unchanged@ == flash@,
            },
    {
        let mut store = FileSystem::new_from_scratch(flash);
        if store.reload() {
            Ok(store)
        } else {
            Err(store.into_flash())
        }
    }

    /// Reads the store back from the metadata page of its flash, in place of
    /// what it holds in memory, and says whether it did.
    ///
    /// If the page does not hold a store that meets the invariants, nothing
    /// is changed.
    pub fn reload(&mut self) -> (loaded: bool)
        ensures
            loaded == loadable(old(self)@.flash),
            loaded ==> final(self)@ == (StoreView {
                staging: old(self)@.staging,
                ..loaded_store(old(self)@.flash)
            }),
            !loaded ==> final(self)@ == old(self)@,
    {
        let page: Page = *self.flash.metadata();
        let block_info = match decode_block_info(&page) {
            Some(block_info) => block_info,
            None => {
                return false;
            },
        };
        let free_blocks = match decode_stack(&page, FREE_OFFSET) {
            Some(stack) => stack,
            None => {
                return false;
            },
        };
        let first_blocks = match decode_stack(&page, FILES_OFFSET) {
            Some(stack) => stack,
            None => {
                return false;
            },
        };
        if page[POINTER_OFFSET] != 0x00 || page[POINTER_OFFSET + 1] != 0x00 || page[POINTER_OFFSET
            + 2] != 0x01 || page[POINTER_OFFSET + 3] != 0x08 {
            return false;
        }
        if page[INITIALIZED_OFFSET] > 1 {
            return false;
        }
        let ghost candidate = loaded_store(self@.flash);
        proof {
            self.flash.lemma_wf();
        }
        if !consistent(&block_info, &free_blocks, &first_blocks, Ghost(candidate)) {
            return false;
        }
        self.block_info = block_info;
        self.free_blocks = free_blocks;
        self.first_blocks = first_blocks;
        self.initialized = page[INITIALIZED_OFFSET] == 1;
        true
    }

    /// Gives up the store and hands out the flash behind it.
    pub fn into_flash(self) -> (flash: Flash)
        ensures
            flash@ == self@.flash,
    {
        self.flash
    }

    /// The flash behind the store.
    pub fn flash(&self) -> (flash: &Flash)
        ensures
            flash@ == self@.flash,
    {
        &self.flash
    }

    /// Whether the store meets its invariants.
    pub fn is_consistent(&self) -> (consistent: bool)
        ensures
            consistent == self@.wf(),
    {
        proof {
            self.flash.lemma_wf();
        }
        consistent(&self.block_info, &self.free_blocks, &self.first_blocks, Ghost(self@))
    }

    /// Writes the store's metadata to its page in flash.
    pub fn save_file_system(&mut self)
        ensures
            final(self)@ == old(self)@.saved(STORE_PAGE as int, METADATA_PAGE),
    {
        self.save(STORE_PAGE, METADATA_PAGE);
    }

    /// Writes the staging page to the content page of block `block_id`.
    pub fn save_block(&mut self, block_id: BlockId)
        ensures
            final(self)@ == old(self)@.saved(
                STAGING_PAGE as int,
                (FIRST_CONTENT_PAGE + block_id.index()) as u8,
            ),
    {
        self.save(STAGING_PAGE, block_id.value() + FIRST_CONTENT_PAGE);
    }

    /// Erases flash page `target_page`, then writes it from page
    /// `source_page` of the memory: the page of the store's metadata or the
    /// staging page.
    pub fn save(&mut self, source_page: u8, target_page: u8)
        requires
            source_page == STAGING_PAGE || source_page == STORE_PAGE,
        ensures
            final(self)@ == old(self)@.saved(source_page as int, target_page),
    {
        self.flash.erase_page(target_page);
        if source_page == STORE_PAGE {
            let image = encode(
                &self.block_info,
                &self.free_blocks,
                &self.first_blocks,
                self.initialized,
            );
            self.flash.program_page(&image, target_page);
        } else {
            self.flash.program_page(&self.staging, target_page);
        }
    }

    /// Creates a file in the free block that is next to be used, and writes
    /// the metadata and then the block to flash.
    ///
    /// The block gets the first 256 bytes of `file_name` and, behind them,
    /// `content`. The length that is recorded for the name is a byte: a name
    /// of 256 bytes or more is recorded with the length 0, and is then no
    /// longer told from the content.
    ///
    /// Nothing is created, and the store stays as it is, if no block is free
    /// or if the name and the content together are not shorter than a block.
    pub fn create_file(&mut self, file_name: &[u8], content: &[u8]) -> (created: Option<BlockId>)
        requires
            old(self)@.wf(),
        ensures
            final(self)@.wf(),
            created is Some <==> old(self)@.can_create(file_name@, content@),
            created is Some ==> created == Some(old(self)@.free_blocks.last()) && final(self)@
                == old(self)@.created(file_name@, content@),
            created is None ==> final(self)@ == old(self)@,
            created is Some && file_name@.len() < NAME_LIMIT ==> final(self)@.file_name(
                created.unwrap(),
            ) == file_name@ && final(self)@.content(created.unwrap()) == content@,
    {
        let name_length: usize = if file_name.len() > NAME_LIMIT {
            NAME_LIMIT
        } else {
            file_name.len()
        };
        let name = slice_subrange(file_name, 0, name_length);
        assert(name@ == stored_name(file_name@));
        if file_name.len() >= PAGE_SIZE || content.len() >= PAGE_SIZE || file_name.len()
            + content.len() >= PAGE_SIZE {
            return None;
        }
        let free_block = match self.free_blocks.pop() {
            Some(free_block) => free_block,
            None => {
                return None;
            },
        };
        proof {
            old(self)@.lemma_created(file_name@, content@);
        }
        self.first_blocks.push(free_block);
        self.block_info[free_block.value() as usize] = BlockInfo {
            next_block: free_block,
            file_name_size: (name_length % 256) as u8,
            content_size: content.len() as u16,
        };

        let mut page: Page = self.staging;
        let mut index: usize = 0;
        while index < name_length
            invariant
                index <= name_length == name@.len(),
                name_length + content@.len() < PAGE_SIZE,
                page@ =~= name@.take(index as int) + old(self)@.staging.skip(index as int),
                old(self)@.staging.len() == PAGE_SIZE,
            decreases name_length - index,
        {
            page[index] = name[index];
            index = index + 1;
        }
        let mut index: usize = 0;
        while index < content.len()
            invariant
                index <= content@.len(),
                name_length == name@.len(),
                name_length + content@.len() < PAGE_SIZE,
                page@ =~= name@ + content@.take(index as int) + old(self)@.staging.skip(
                    name_length + index,
                ),
                old(self)@.staging.len() == PAGE_SIZE,
            decreases content@.len() - index,
        {
            page[name_length + index] = content[index];
            index = index + 1;
        }
        self.staging = page;
        assert(self@ == old(self)@.allocated(file_name@, content@)) by {
            assert(content@.take(content@.len() as int) =~= content@);
        }
        self.save_file_system();
        self.save_block(free_block);
        Some(free_block)
    }

    /// Removes the file that starts in block `file`: takes the block off the
    /// list of files and frees the blocks of the file, which end with the
    /// block that is its own next block. Nothing is written to flash.
    ///
    /// A block that starts no file changes nothing.
    pub fn remove_file(&mut self, file: BlockId)
        requires
            old(self)@.wf(),
        ensures
            final(self)@ == old(self)@.removed(file),
            final(self)@.wf(),
            final(self)@.free_blocks.contains(file),
            !final(self)@.is_file(file),
    {
        proof {
            use_type_invariant(file);
            old(self)@.lemma_removed(file);
        }
        if !self.first_blocks.contains(file) {
            return ;
        }
        let mut current_block = file;
        self.first_blocks.remove(file);
        // Every file has one block, which is its own next block: the walk
        // frees the first block and ends there.
        loop
            invariant_except_break
                current_block == file,
                self@ == (StoreView {
                    first_blocks: swap_removed(old(self)@.first_blocks, file),
                    ..old(self)@
                }),
            invariant
                old(self)@.wf(),
                old(self)@.is_file(file),
                old(self)@.info(file).next_block == file,
            ensures
                self@ == old(self)@.removed(file),
            decreases 0int,
        {
            self.free_blocks.push(current_block);
            let block_info = self.block_info[current_block.value() as usize];
            if block_info.next_block.value() == current_block.value() {
                break ;
            }
            proof {
                block_info.next_block.lemma_index_injective(current_block);
            }
            current_block = block_info.next_block;
        }
    }

    /// Stores `file_size` bytes of `input`, the bytes that were received for
    /// the file, under the name `file_name`, in place of a file that has this
    /// name already.
    ///
    /// A size that a block cannot hold is refused before anything is changed.
    pub fn paste_file(&mut self, file_name: &[u8], file_size: usize, input: &[u8]) -> (outcome:
        PasteOutcome)
        requires
            old(self)@.wf(),
            file_size < PAGE_SIZE ==> file_size <= input@.len(),
        ensures
            final(self)@.wf(),
            file_size >= PAGE_SIZE ==> outcome == PasteOutcome::TooLarge && final(self)@ == old(
                self,
            )@,
            file_size < PAGE_SIZE ==> final(self)@ == old(self)@.pasted(
                file_name@,
                input@.take(file_size as int),
            ) && outcome == if old(self)@.cleared(file_name@).can_create(
                file_name@,
                input@.take(file_size as int),
            ) {
                PasteOutcome::Created(old(self)@.cleared(file_name@).free_blocks.last())
            } else {
                PasteOutcome::NotCreated
            },
    {
        let mut content: Page = [0;1024];
        if file_size >= PAGE_SIZE {
            return PasteOutcome::TooLarge;
        }
        let mut index: usize = 0;
        while index < file_size
            invariant
                index <= file_size <= input@.len(),
                file_size < PAGE_SIZE,
                forall|at: int| 0 <= at < index ==> content@[at] == input@[at],
            decreases file_size - index,
        {
            content[index % 1024] = input[index];
            index = index + 1;
        }
        let received = slice_subrange(content.as_slice(), 0, file_size % 1024);
        assert(received@ =~= input@.take(file_size as int));
        if let Some(file) = self.file(file_name) {
            self.remove_file(file);
        }
        match self.create_file(file_name, received) {
            Some(created) => PasteOutcome::Created(created),
            None => PasteOutcome::NotCreated,
        }
    }

    /// The first blocks of the files, in the order in which the store holds
    /// them, as a fresh snapshot.
    pub fn list_files(&self) -> (files: Vec<BlockId>)
        ensures
            files@ == self@.first_blocks,
    {
        self.first_blocks.iter()
    }

    /// The first file of the list whose name is `file_name`.
    pub fn file(&self, file_name: &[u8]) -> (found: Option<BlockId>)
        ensures
            found == self@.find_file(file_name@),
    {
        let files = self.list_files();
        let mut index: usize = 0;
        while index < files.len()
            invariant
                index <= files@.len(),
                files@ == self@.first_blocks,
                self@.find_file(file_name@) == self@.find_from(file_name@, index as int),
            decreases files@.len() - index,
        {
            let file = files[index];
            if same_bytes(file_name, self.file_name(file)) {
                return Some(file);
            }
            index = index + 1;
        }
        None
    }

    /// The name of the file that starts in block `block_id`.
    pub fn file_name(&self, block_id: BlockId) -> (name: &[u8])
        ensures
            name@ == self@.file_name(block_id),
    {
        let info = self.block(block_id);
        let bytes = self.bytes(block_id);
        slice_subrange(bytes.as_slice(), 0, info.file_name_size as usize % 256)
    }

    /// The content of the file that starts in block `block_id`.
    pub fn read_file(&self, block_id: BlockId) -> (content: &[u8])
        ensures
            content@ == self@.content(block_id),
    {
        let bytes = self.bytes(block_id);
        let info = self.block(block_id);
        let start: usize = info.file_name_size as usize % 1024;
        let end: usize = (start + info.content_size as usize) % 1024;
        let end: usize = if start > end {
            start
        } else {
            end
        };
        slice_subrange(bytes.as_slice(), start, end)
    }

    /// The address at which the content of the file that starts in block
    /// `block_id` is mapped.
    pub fn file_address(&self, block_id: BlockId) -> (address: u32)
        ensures
            address == self@.file_address(block_id),
    {
        let info = self.block(block_id);
        CONTENT_BASE + 1024 * (block_id.value() as u32) + info.file_name_size as u32
    }

    /// The metadata of block `block_id`.
    pub fn block(&self, block_id: BlockId) -> (info: &BlockInfo)
        ensures
            *info == self@.info(block_id),
    {
        &self.block_info[block_id.value() as usize]
    }

    /// The bytes of block `block_id` in flash.
    pub fn bytes(&self, block_id: BlockId) -> (bytes: &Page)
        ensures
            bytes@ == self@.bytes(block_id),
    {
        self.flash.content(block_id)
    }

    /// Prints whether the store is set up, and how many blocks start a file
    /// and how many are free.
    pub fn print_stats(&self, out: &mut Vec<u8>)
        ensures
            final(out)@ == old(out)@ + self@.stats_text(),
    {
        let initialized = if self.initialized {
            "yes"
        } else {
            "no"
        };
        put_printable("Initialized:", out);
        put_printable(" ", out);
        put_printable(initialized, out);
        put_printable("\r\n", out);
        put_printable("File blocks: ", out);
        put_printable(" ", out);
        put_printable(self.first_blocks.len() as i32, out);
        put_printable("\r\n", out);
        put_printable("Free blocks: ", out);
        put_printable(" ", out);
        put_printable(self.free_blocks.len() as i32, out);
        put_printable("\r\n", out);
    }
}

/// The handle of block 0.
fn first_block() -> (id: BlockId)
    ensures
        id == BlockId::from_index(0),
{
    BlockId::new(0).unwrap()
}

/// A stack that holds every block, block 0 at the bottom.
fn every_block() -> (stack: Stack)
    ensures
        stack@ == Seq::new(BLOCK_COUNT as nat, |block: int| BlockId::from_index(block)),
{
    let mut stack = Stack::new();
    let mut block: u8 = 0;
    while block < 64
        invariant
            block <= BLOCK_COUNT,
            stack@ == Seq::new(block as nat, |at: int| BlockId::from_index(at)),
        decreases BLOCK_COUNT - block,
    {
        stack.push(BlockId::new(block).unwrap());
        block = block + 1;
    }
    stack
}

/// Whether metadata meets the invariants of the store. `store` is a store
/// with this metadata whose other parts have their sizes.
fn consistent(
    block_info: &[BlockInfo; 64],
    free_blocks: &Stack,
    first_blocks: &Stack,
    Ghost(store): Ghost<StoreView>,
) -> (consistent: bool)
    requires
        store.block_info == block_info@,
        store.free_blocks == free_blocks@,
        store.first_blocks == first_blocks@,
        store.staging.len() == PAGE_SIZE,
        store.flash.wf(),
    ensures
        consistent == store.wf(),
{
    broadcast use BlockId::lemma_index_from;

    proof {
        use_type_invariant(free_blocks);
        use_type_invariant(first_blocks);
        free_blocks.lemma_bounded();
        first_blocks.lemma_bounded();
    }
    let mut block: usize = 0;
    while block < 64
        invariant
            block <= BLOCK_COUNT,
            store.block_info == block_info@,
            forall|done: int|
                0 <= done < block ==> (#[trigger] store.block_info[done]).next_block.in_range(),
        decreases BLOCK_COUNT - block,
    {
        let next: u8 = block_info[block].next_block.value();
        block = block + 1;
    }
    if !free_blocks.is_duplicate_free() || !first_blocks.is_duplicate_free() {
        return false;
    }
    if free_blocks.len() + first_blocks.len() != 64 {
        return false;
    }
    let mut number: u8 = 0;
    while number < 64
        invariant
            number <= BLOCK_COUNT,
            store.free_blocks == free_blocks@,
            store.first_blocks == first_blocks@,
            forall|done: int|
                0 <= done < number ==> (store.free_blocks.contains(
                    #[trigger] BlockId::from_index(done),
                ) != store.first_blocks.contains(BlockId::from_index(done))),
        decreases BLOCK_COUNT - number,
    {
        let id = BlockId::new(number).unwrap();
        let free = free_blocks.contains(id);
        let used = first_blocks.contains(id);
        if free == used {
            proof {
                BlockId::lemma_from_index(number as int);
            }
            assert(id.in_range());
            return false;
        }
        number = number + 1;
    }
    let files = first_blocks.iter();
    let mut index: usize = 0;
    while index < files.len()
        invariant
            index <= files@.len(),
            files@ == store.first_blocks,
            store.block_info == block_info@,
            forall|at: int|
                0 <= at < index ==> {
                    let info = store.info(#[trigger] store.first_blocks[at]);
                    &&& info.next_block == store.first_blocks[at]
                    &&& info.file_name_size + info.content_size < PAGE_SIZE
                },
        decreases files@.len() - index,
    {
        let head = files[index];
        let info = block_info[head.value() as usize];
        if info.next_block.value() != head.value() || info.file_name_size as usize
            + info.content_size as usize >= PAGE_SIZE {
            return false;
        }
        proof {
            info.next_block.lemma_index_injective(head);
        }
        index = index + 1;
    }
    true
}

} // verus!
