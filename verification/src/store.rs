//! The block store as a mathematical value: what each operation makes of
//! it, the invariants, and what follows from them.

use vstd::prelude::*;
use vstd::string::StringSliceAdditionalSpecFns;
use crate::file_system::{BlockInfo, CONTENT_BASE, NAME_LIMIT, STAGING_PAGE, STORE_PAGE};
use crate::flash::{FlashOp, FlashView, FIRST_CONTENT_PAGE, METADATA_PAGE, PAGE_SIZE};
use crate::image::{
    image_block_info, image_initialized, image_readable, image_stack, lemma_image_round_trip,
    metadata_image, FILES_OFFSET, FREE_OFFSET,
};
use crate::print::decimal_text;
use crate::stack::{lemma_swap_removed, swap_removed, BlockId, BLOCK_COUNT};

verus! {

/// The part of a file name that is written to a block.
pub open spec fn stored_name(name: Seq<u8>) -> Seq<u8> {
    if name.len() > NAME_LIMIT {
        name.take(NAME_LIMIT as int)
    } else {
        name
    }
}

/// The store that the metadata page of `flash` holds, over that flash.
pub open spec fn loaded_store(flash: FlashView) -> StoreView {
    StoreView {
        block_info: image_block_info(flash.metadata),
        free_blocks: image_stack(flash.metadata, FREE_OFFSET as int),
        first_blocks: image_stack(flash.metadata, FILES_OFFSET as int),
        initialized: image_initialized(flash.metadata),
        staging: Seq::new(PAGE_SIZE as nat, |at: int| 0u8),
        flash,
    }
}

/// Whether the metadata page of `flash` holds a store: it can be read, and
/// what is read meets the invariants of the store.
pub open spec fn loadable(flash: FlashView) -> bool {
    &&& image_readable(flash.metadata)
    &&& loaded_store(flash).wf()
}

/// A store in which every block is free, over a flash that holds `flash`.
pub open spec fn fresh_store(flash: FlashView) -> StoreView {
    StoreView {
        block_info: Seq::new(
            BLOCK_COUNT as nat,
            |block: int|
                BlockInfo { next_block: BlockId::from_index(0), file_name_size: 0, content_size: 0 },
        ),
        free_blocks: Seq::new(BLOCK_COUNT as nat, |block: int| BlockId::from_index(block)),
        first_blocks: Seq::empty(),
        initialized: true,
        staging: Seq::new(PAGE_SIZE as nat, |at: int| 0u8),
        flash,
    }
}

/// The store as a mathematical value.
pub struct StoreView {
    /// The metadata of each block, by block number.
    pub block_info: Seq<BlockInfo>,
    /// The blocks that belong to no file, the next one to be used last.
    pub free_blocks: Seq<BlockId>,
    /// The first block of each file.
    pub first_blocks: Seq<BlockId>,
    /// Whether the store has been set up.
    pub initialized: bool,
    /// The page in memory in which a block is put together before it is
    /// written to flash.
    pub staging: Seq<u8>,
    /// The flash behind the store.
    pub flash: FlashView,
}

impl StoreView {
    /// The metadata of block `id`.
    pub open spec fn info(self, id: BlockId) -> BlockInfo {
        self.block_info[id.index() as int]
    }

    /// The bytes of block `id` in flash.
    pub open spec fn bytes(self, id: BlockId) -> Seq<u8> {
        self.flash.content[id.index() as int]
    }

    /// The name of the file that starts in block `id`.
    pub open spec fn file_name(self, id: BlockId) -> Seq<u8> {
        self.bytes(id).take(self.info(id).file_name_size as int)
    }

    /// The content of the file that starts in block `id`.
    pub open spec fn content(self, id: BlockId) -> Seq<u8> {
        self.bytes(id).subrange(self.info(id).content_start(), self.info(id).content_end())
    }

    /// The address at which the content of the file that starts in block
    /// `id` is mapped.
    pub open spec fn file_address(self, id: BlockId) -> int {
        CONTENT_BASE + PAGE_SIZE * id.index() + self.info(id).file_name_size
    }

    /// Whether `id` is the first block of a file.
    pub open spec fn is_file(self, id: BlockId) -> bool {
        self.first_blocks.contains(id)
    }

    /// The sizes of the parts of the store.
    pub open spec fn shaped(self) -> bool {
        &&& self.block_info.len() == BLOCK_COUNT
        &&& self.staging.len() == PAGE_SIZE
        &&& self.flash.wf()
        &&& self.free_blocks.len() <= BLOCK_COUNT
        &&& self.first_blocks.len() <= BLOCK_COUNT
    }

    /// Every handle in the store names a block.
    pub open spec fn ids_in_range(self) -> bool {
        &&& forall|at: int|
            0 <= at < self.free_blocks.len() ==> (#[trigger] self.free_blocks[at]).in_range()
        &&& forall|at: int|
            0 <= at < self.first_blocks.len() ==> (#[trigger] self.first_blocks[at]).in_range()
        &&& forall|block: int|
            0 <= block < self.block_info.len() ==> (
            #[trigger] self.block_info[block]).next_block.in_range()
    }

    /// Every block is either free or the block of exactly one file, and is
    /// listed once.
    pub open spec fn partitioned(self) -> bool {
        &&& self.free_blocks.no_duplicates()
        &&& self.first_blocks.no_duplicates()
        &&& forall|id: BlockId| !(self.free_blocks.contains(id) && self.first_blocks.contains(id))
        &&& forall|id: BlockId|
            id.in_range() ==> self.free_blocks.contains(id) || self.first_blocks.contains(id)
        &&& self.free_blocks.len() + self.first_blocks.len() == BLOCK_COUNT
    }

    /// Every file ends in its first block, and its name and content fit in it.
    pub open spec fn files_fit(self) -> bool {
        forall|at: int|
            0 <= at < self.first_blocks.len() ==> {
                let info = self.info(#[trigger] self.first_blocks[at]);
                &&& info.next_block == self.first_blocks[at]
                &&& info.file_name_size + info.content_size < PAGE_SIZE
            }
    }

    /// The invariants of the store.
    pub open spec fn wf(self) -> bool {
        &&& self.shaped()
        &&& self.ids_in_range()
        &&& self.partitioned()
        &&& self.files_fit()
    }

    /// The image of the store's metadata.
    pub open spec fn image(self) -> Seq<u8> {
        metadata_image(self.block_info, self.free_blocks, self.first_blocks, self.initialized)
    }

    /// The bytes of page `source_page` of the memory, for the two pages that
    /// the store writes to flash.
    pub open spec fn memory_page(self, source_page: int) -> Seq<u8> {
        if source_page == STORE_PAGE {
            self.image()
        } else {
            self.staging
        }
    }

    /// The store after flash page `target_page` has been erased and then
    /// programmed from page `source_page` of the memory.
    pub open spec fn saved(self, source_page: int, target_page: u8) -> StoreView {
        StoreView {
            flash: self.flash.written(target_page, self.memory_page(source_page)),
            ..self
        }
    }

    /// Whether a file with this name and content can be created: a block is
    /// free, and the name and the content together are shorter than a block.
    pub open spec fn can_create(self, name: Seq<u8>, content: Seq<u8>) -> bool {
        &&& self.free_blocks.len() > 0
        &&& name.len() + content.len() < PAGE_SIZE
    }

    /// The staging page after the stored name and the content have been
    /// written to its start; the bytes behind them are what they were.
    pub open spec fn staged(self, name: Seq<u8>, content: Seq<u8>) -> Seq<u8> {
        stored_name(name) + content + self.staging.skip(
            (stored_name(name).len() + content.len()) as int,
        )
    }

    /// The store in memory after a file has been created in the free block
    /// that was next to be used, before anything is written to flash.
    pub open spec fn allocated(self, name: Seq<u8>, content: Seq<u8>) -> StoreView {
        let id = self.free_blocks.last();
        let info = BlockInfo {
            next_block: id,
            file_name_size: (stored_name(name).len() % 256) as u8,
            content_size: content.len() as u16,
        };
        StoreView {
            block_info: self.block_info.update(id.index() as int, info),
            free_blocks: self.free_blocks.drop_last(),
            first_blocks: self.first_blocks.push(id),
            staging: self.staged(name, content),
            ..self
        }
    }

    /// The store after a file has been created: the metadata is written to
    /// flash first, then the staging page to the block's content page.
    pub open spec fn created(self, name: Seq<u8>, content: Seq<u8>) -> StoreView {
        let id = self.free_blocks.last();
        self.allocated(name, content).saved(STORE_PAGE as int, METADATA_PAGE).saved(
            STAGING_PAGE as int,
            (FIRST_CONTENT_PAGE + id.index()) as u8,
        )
    }

    /// The store after the file that starts in block `id` has been removed:
    /// the block is free again. A block that starts no file changes nothing.
    pub open spec fn removed(self, id: BlockId) -> StoreView {
        if self.is_file(id) {
            StoreView {
                first_blocks: swap_removed(self.first_blocks, id),
                free_blocks: self.free_blocks.push(id),
                ..self
            }
        } else {
            self
        }
    }

    /// The first file from position `from` of the list on whose name is `name`.
    pub open spec fn find_from(self, name: Seq<u8>, from: int) -> Option<BlockId>
        decreases self.first_blocks.len() - from,
    {
        if from < 0 || from >= self.first_blocks.len() {
            None
        } else if self.file_name(self.first_blocks[from]) == name {
            Some(self.first_blocks[from])
        } else {
            self.find_from(name, from + 1)
        }
    }

    /// The first file of the list whose name is `name`.
    pub open spec fn find_file(self, name: Seq<u8>) -> Option<BlockId> {
        self.find_from(name, 0)
    }

    /// The three lines that describe the store: whether it is set up, and
    /// how many blocks start a file and how many are free.
    pub open spec fn stats_text(self) -> Seq<u8> {
        "Initialized:".spec_bytes() + " ".spec_bytes() + (if self.initialized {
            "yes".spec_bytes()
        } else {
            "no".spec_bytes()
        }) + "\r\n".spec_bytes() + "File blocks: ".spec_bytes() + " ".spec_bytes() + decimal_text(
            self.first_blocks.len() as int,
        ) + "\r\n".spec_bytes() + "Free blocks: ".spec_bytes() + " ".spec_bytes() + decimal_text(
            self.free_blocks.len() as int,
        ) + "\r\n".spec_bytes()
    }

    /// The store without the first file whose name is `name`, if there is one.
    pub open spec fn cleared(self, name: Seq<u8>) -> StoreView {
        match self.find_file(name) {
            Some(id) => self.removed(id),
            None => self,
        }
    }

    /// The store after a file has been pasted: a file of that name is
    /// removed, and the new file is created if that is possible.
    pub open spec fn pasted(self, name: Seq<u8>, content: Seq<u8>) -> StoreView {
        if self.cleared(name).can_create(name, content) {
            self.cleared(name).created(name, content)
        } else {
            self.cleared(name)
        }
    }

    /// What `find_from` finds is a file of the list with that name, and no
    /// file before it from `from` on has that name.
    pub proof fn lemma_find_from(self, name: Seq<u8>, from: int)
        requires
            0 <= from,
        ensures
            match self.find_from(name, from) {
                Some(id) => exists|at: int|
                    from <= at < self.first_blocks.len() && self.first_blocks[at] == id
                        && self.file_name(id) == name && forall|before: int|
                        from <= before < at ==> self.file_name(
                            #[trigger] self.first_blocks[before],
                        ) != name,
                None => forall|at: int|
                    from <= at < self.first_blocks.len() ==> self.file_name(
                        #[trigger] self.first_blocks[at],
                    ) != name,
            },
        decreases self.first_blocks.len() - from,
    {
        if from < self.first_blocks.len() && self.file_name(self.first_blocks[from]) != name {
            self.lemma_find_from(name, from + 1);
        }
    }

    /// A store that is saved stays well formed.
    pub proof fn lemma_saved_wf(self, source_page: int, target_page: u8)
        requires
            self.wf(),
        ensures
            self.saved(source_page, target_page).wf(),
    {
    }

    /// Creating a file keeps the store well formed and makes the block that
    /// was next to be used a file, whose name and content are the ones given
    /// if the name is shorter than the limit. The other files keep their
    /// names and contents.
    pub proof fn lemma_created(self, name: Seq<u8>, content: Seq<u8>)
        requires
            self.wf(),
            self.can_create(name, content),
        ensures
            self.created(name, content).wf(),
            self.created(name, content).is_file(self.free_blocks.last()),
            !self.is_file(self.free_blocks.last()),
            self.created(name, content).first_blocks == self.first_blocks.push(
                self.free_blocks.last(),
            ),
            name.len() < NAME_LIMIT ==> self.created(name, content).file_name(
                self.free_blocks.last(),
            ) == name && self.created(name, content).content(self.free_blocks.last()) == content,
            forall|other: BlockId|
                self.is_file(other) ==> #[trigger] self.created(name, content).file_name(other)
                    == self.file_name(other) && self.created(name, content).content(other)
                    == self.content(other) && self.created(name, content).is_file(other),
    {
        let id = self.free_blocks.last();
        let memory = self.allocated(name, content);

        assert(memory.wf()) by {
            assert forall|other: BlockId| other.in_range() implies memory.free_blocks.contains(
                other,
            ) || memory.first_blocks.contains(other) by {
                if other == id {
                    assert(memory.first_blocks[self.first_blocks.len() as int] == id);
                } else if self.free_blocks.contains(other) {
                    let k = choose|k: int|
                        0 <= k < self.free_blocks.len() && self.free_blocks[k] == other;
                    assert(memory.free_blocks[k] == other);
                } else {
                    let m = choose|m: int|
                        0 <= m < self.first_blocks.len() && self.first_blocks[m] == other;
                    assert(memory.first_blocks[m] == other);
                }
            }
            assert forall|at: int| 0 <= at < memory.first_blocks.len() implies {
                let info = memory.info(#[trigger] memory.first_blocks[at]);
                &&& info.next_block == memory.first_blocks[at]
                &&& info.file_name_size + info.content_size < PAGE_SIZE
            } by {
                if at < self.first_blocks.len() {
                    let head = self.first_blocks[at];
                    assert(head.index() != id.index()) by {
                        if head.index() == id.index() {
                            head.lemma_index_injective(id);
                        }
                    }
                }
            }
        }
        let between = memory.saved(STORE_PAGE as int, METADATA_PAGE);
        memory.lemma_saved_wf(STORE_PAGE as int, METADATA_PAGE);
        between.lemma_saved_wf(STAGING_PAGE as int, (FIRST_CONTENT_PAGE + id.index()) as u8);
    }

    /// The store in memory is well formed as soon as the file has its block,
    /// before anything is written to flash.
    pub proof fn lemma_allocated_wf(self, name: Seq<u8>, content: Seq<u8>)
        requires
            self.wf(),
            self.can_create(name, content),
        ensures
            self.allocated(name, content).wf(),
    {
        self.lemma_created(name, content);
    }

    /// Removing a file keeps the store well formed and leaves its block
    /// free, as the next block to be used. The other files keep their names
    /// and contents.
    pub proof fn lemma_removed(self, id: BlockId)
        requires
            self.wf(),
            id.in_range(),
        ensures
            self.removed(id).wf(),
            self.removed(id).free_blocks.contains(id),
            !self.removed(id).is_file(id),
            self.is_file(id) ==> self.removed(id).free_blocks.last() == id,
            forall|other: BlockId|
                other != id ==> (#[trigger] self.removed(id).is_file(other) <==> self.is_file(
                    other,
                )),
            forall|other: BlockId|
                #[trigger] self.removed(id).file_name(other) == self.file_name(other)
                    && self.removed(id).content(other) == self.content(other),
    {
        let after = self.removed(id);
        if self.is_file(id) {
            lemma_swap_removed(self.first_blocks, id);
            assert(after.free_blocks[self.free_blocks.len() as int] == id);
            assert forall|other: BlockId| other.in_range() implies after.free_blocks.contains(
                other,
            ) || after.first_blocks.contains(other) by {
                if other != id && self.free_blocks.contains(other) {
                    let k = choose|k: int|
                        0 <= k < self.free_blocks.len() && self.free_blocks[k] == other;
                    assert(after.free_blocks[k] == other);
                }
            }
            assert forall|at: int| 0 <= at < after.first_blocks.len() implies (
            #[trigger] after.first_blocks[at]).in_range() && {
                let info = after.info(after.first_blocks[at]);
                &&& info.next_block == after.first_blocks[at]
                &&& info.file_name_size + info.content_size < PAGE_SIZE
            } by {
                let head = after.first_blocks[at];
                assert(after.first_blocks.contains(head));
            }
        }
    }
}

/// One change of the store's files.
pub enum Operation {
    /// A file with this name and this content is created.
    Create(Seq<u8>, Seq<u8>),
    /// The file that starts in this block is removed.
    Remove(BlockId),
}

impl Operation {
    /// Whether a handle that the operation names is the handle of a block.
    pub open spec fn in_range(self) -> bool {
        match self {
            Operation::Create(_, _) => true,
            Operation::Remove(id) => id.in_range(),
        }
    }
}

impl StoreView {
    /// The blocks of the file that starts in `id`, found by following the
    /// next block at most `steps` times, up to the block that is its own next
    /// block.
    pub open spec fn chain_from(self, id: BlockId, steps: nat) -> Seq<BlockId>
        decreases steps,
    {
        if steps == 0 || self.info(id).next_block == id {
            seq![id]
        } else {
            seq![id] + self.chain_from(self.info(id).next_block, (steps - 1) as nat)
        }
    }

    /// The blocks of the file that starts in `head`.
    pub open spec fn chain(self, head: BlockId) -> Seq<BlockId> {
        self.chain_from(head, BLOCK_COUNT as nat)
    }

    /// The number of blocks in the chains of the first `files` files of the
    /// list.
    pub open spec fn chained_blocks(self, files: nat) -> nat
        decreases files,
    {
        if files == 0 {
            0
        } else {
            self.chained_blocks((files - 1) as nat) + self.chain(
                self.first_blocks[files - 1],
            ).len()
        }
    }

    /// The store after `operation`; a file that cannot be created changes
    /// nothing.
    pub open spec fn applied(self, operation: Operation) -> StoreView {
        match operation {
            Operation::Create(name, content) => if self.can_create(name, content) {
                self.created(name, content)
            } else {
                self
            },
            Operation::Remove(id) => self.removed(id),
        }
    }

    /// The store after `operations`, one after the other.
    pub open spec fn applied_all(self, operations: Seq<Operation>) -> StoreView
        decreases operations.len(),
    {
        if operations.len() == 0 {
            self
        } else {
            self.applied_all(operations.drop_last()).applied(operations.last())
        }
    }

    /// In a well-formed store the chain of every file is its first block
    /// alone, so the files' chains hold as many blocks as there are files.
    pub proof fn lemma_chains(self, files: nat)
        requires
            self.wf(),
            files <= self.first_blocks.len(),
        ensures
            self.chained_blocks(files) == files,
            forall|at: int|
                0 <= at < self.first_blocks.len() ==> self.chain(#[trigger] self.first_blocks[at])
                    == seq![self.first_blocks[at]],
        decreases files,
    {
        if files > 0 {
            self.lemma_chains((files - 1) as nat);
        }
    }

    /// In a well-formed store the free blocks and the blocks in the files'
    /// chains are 64 together, no block is listed twice, and every block is
    /// either free or in the chain of exactly one file.
    pub proof fn lemma_blocks_accounted(self)
        requires
            self.wf(),
        ensures
            self.free_blocks.len() + self.chained_blocks(self.first_blocks.len()) == BLOCK_COUNT,
            self.free_blocks.no_duplicates(),
            self.first_blocks.no_duplicates(),
            forall|id: BlockId| !(self.free_blocks.contains(id) && self.first_blocks.contains(id)),
            forall|id: BlockId, at: int|
                0 <= at < self.first_blocks.len() ==> (#[trigger] self.chain(
                    self.first_blocks[at],
                ).contains(id) <==> self.first_blocks[at] == id),
            forall|id: BlockId|
                id.in_range() ==> (self.free_blocks.contains(id) <==> !self.is_file(id)),
    {
        self.lemma_chains(self.first_blocks.len());
        assert forall|id: BlockId, at: int| 0 <= at < self.first_blocks.len() implies (
        #[trigger] self.chain(self.first_blocks[at]).contains(id) <==> self.first_blocks[at]
            == id) by {
            let chain = self.chain(self.first_blocks[at]);
            assert(chain[0] == self.first_blocks[at]);
        }
    }

    /// What a file holds can be read back: in a well-formed store the
    /// content of a file starts behind its name in the file's block and has
    /// the length that the metadata records.
    pub proof fn lemma_content_as_recorded(self, id: BlockId)
        requires
            self.wf(),
            self.is_file(id),
        ensures
            self.content(id).len() == self.info(id).content_size,
            self.file_name(id).len() == self.info(id).file_name_size,
            self.content(id) == self.bytes(id).subrange(
                self.info(id).file_name_size as int,
                self.info(id).file_name_size + self.info(id).content_size,
            ),
    {
    }

    /// Whatever files are created and removed, one after the other, the
    /// store stays well formed.
    pub proof fn lemma_applied_all_wf(self, operations: Seq<Operation>)
        requires
            self.wf(),
            forall|at: int| 0 <= at < operations.len() ==> (#[trigger] operations[at]).in_range(),
        ensures
            self.applied_all(operations).wf(),
        decreases operations.len(),
    {
        if operations.len() > 0 {
            let before = self.applied_all(operations.drop_last());
            self.lemma_applied_all_wf(operations.drop_last());
            match operations.last() {
                Operation::Create(name, content) => {
                    if before.can_create(name, content) {
                        before.lemma_created(name, content);
                    }
                },
                Operation::Remove(id) => {
                    before.lemma_removed(id);
                },
            }
        }
    }

    /// A file can be created exactly as long as fewer than 64 files exist
    /// and the name and the content together are shorter than a block;
    /// creating it adds one file.
    pub proof fn lemma_room(self, name: Seq<u8>, content: Seq<u8>)
        requires
            self.wf(),
        ensures
            self.can_create(name, content) <==> self.first_blocks.len() < BLOCK_COUNT
                && name.len() + content.len() < PAGE_SIZE,
            self.can_create(name, content) ==> self.created(name, content).first_blocks.len()
                == self.first_blocks.len() + 1,
    {
    }

    /// Of the files that are created one after the other in a store without
    /// files, each of a size that fits, the first 64 are created and no
    /// other, and the store stays well formed.
    pub proof fn lemma_sixty_four_files(self, operations: Seq<Operation>)
        requires
            self.wf(),
            self.first_blocks.len() == 0,
            forall|at: int|
                0 <= at < operations.len() ==> match #[trigger] operations[at] {
                    Operation::Create(name, content) => name.len() + content.len() < PAGE_SIZE,
                    Operation::Remove(_) => false,
                },
        ensures
            self.applied_all(operations).wf(),
            self.applied_all(operations).first_blocks.len() == if operations.len() <= BLOCK_COUNT {
                operations.len()
            } else {
                BLOCK_COUNT as nat
            },
        decreases operations.len(),
    {
        if operations.len() > 0 {
            let earlier = operations.drop_last();
            assert forall|at: int| 0 <= at < earlier.len() implies match #[trigger] earlier[at] {
                Operation::Create(name, content) => name.len() + content.len() < PAGE_SIZE,
                Operation::Remove(_) => false,
            } by {
                assert(earlier[at] == operations[at]);
            }
            self.lemma_sixty_four_files(earlier);
            let before = self.applied_all(earlier);
            match operations.last() {
                Operation::Create(name, content) => {
                    before.lemma_room(name, content);
                    if before.can_create(name, content) {
                        before.lemma_created(name, content);
                    }
                },
                Operation::Remove(_) => {
                    assert(operations[operations.len() - 1] == operations.last());
                },
            }
        }
    }

    /// The metadata is written before the content: the flash between the
    /// two writes of a created file holds a store that lists the new file,
    /// whatever its block holds by then.
    pub proof fn lemma_metadata_first(self, name: Seq<u8>, content: Seq<u8>)
        requires
            self.wf(),
            self.can_create(name, content),
        ensures
            loadable(self.allocated(name, content).saved(STORE_PAGE as int, METADATA_PAGE).flash),
            loaded_store(
                self.allocated(name, content).saved(STORE_PAGE as int, METADATA_PAGE).flash,
            ).is_file(self.free_blocks.last()),
            self.created(name, content).flash.history == self.flash.history + seq![
                FlashOp::Erase(METADATA_PAGE),
                FlashOp::Program(METADATA_PAGE),
                FlashOp::Erase((FIRST_CONTENT_PAGE + self.free_blocks.last().index()) as u8),
                FlashOp::Program((FIRST_CONTENT_PAGE + self.free_blocks.last().index()) as u8),
            ],
    {
        let memory = self.allocated(name, content);
        self.lemma_created(name, content);
        self.lemma_allocated_wf(name, content);
        memory.lemma_saved_loads();
    }

    /// Pasting no bytes makes a file without content, provided that the name
    /// is shorter than a block and that a block is free once a file of the
    /// same name has been removed: that is, that fewer than 64 files exist
    /// or one of them has the name.
    pub proof fn lemma_pasted_empty(self, name: Seq<u8>)
        requires
            self.wf(),
        ensures
            self.cleared(name).can_create(name, Seq::empty()) <==> name.len() < PAGE_SIZE && (
            self.first_blocks.len() < BLOCK_COUNT || self.find_file(name) is Some),
            self.cleared(name).can_create(name, Seq::empty()) ==> self.pasted(
                name,
                Seq::empty(),
            ).is_file(self.cleared(name).free_blocks.last()) && self.pasted(
                name,
                Seq::empty(),
            ).content(self.cleared(name).free_blocks.last()) == Seq::<u8>::empty(),
    {
        self.lemma_find_from(name, 0);
        let cleared = self.cleared(name);
        match self.find_file(name) {
            Some(id) => {
                self.lemma_removed(id);
            },
            None => {},
        }
        if cleared.can_create(name, Seq::empty()) {
            cleared.lemma_created(name, Seq::empty());
            let created = cleared.created(name, Seq::empty());
            let id = cleared.free_blocks.last();
            created.lemma_content_as_recorded(id);
        }
    }

    /// Saving the metadata and loading it again gives the store back, with
    /// an empty staging page.
    pub proof fn lemma_saved_loads(self)
        requires
            self.wf(),
        ensures
            loadable(self.saved(STORE_PAGE as int, METADATA_PAGE).flash),
            loaded_store(self.saved(STORE_PAGE as int, METADATA_PAGE).flash) == (StoreView {
                staging: Seq::new(PAGE_SIZE as nat, |at: int| 0u8),
                ..self.saved(STORE_PAGE as int, METADATA_PAGE)
            }),
    {
        lemma_image_round_trip(
            self.block_info,
            self.free_blocks,
            self.first_blocks,
            self.initialized,
        );
        self.lemma_saved_wf(STORE_PAGE as int, METADATA_PAGE);
    }
}

/// A fresh store over a well-formed flash is well formed.
pub proof fn lemma_fresh_store_wf(flash: FlashView)
    requires
        flash.wf(),
    ensures
        fresh_store(flash).wf(),
{
    broadcast use BlockId::lemma_from_index, BlockId::lemma_index_from;

    let store = fresh_store(flash);
    assert forall|id: BlockId| id.in_range() implies store.free_blocks.contains(id) by {
        assert(store.free_blocks[id.index() as int] == id);
    }
}

} // verus!
