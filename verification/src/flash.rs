//! A model of the flash pages that back the store: one metadata page and one
//! content page for each block.

use vstd::prelude::*;
use crate::stack::BlockId;

verus! {

/// Number of bytes in a flash page, and so in a block.
pub const PAGE_SIZE: usize = 1024;

/// Number of the flash page that holds the store's metadata image.
pub const METADATA_PAGE: u8 = 63;

/// Number of the flash page that holds the content of block 0; the content
/// pages of the other blocks follow it in the order of their numbers.
pub const FIRST_CONTENT_PAGE: u8 = 64;

/// The value of every byte of an erased page.
pub const ERASED: u8 = 0xff;

/// The bytes of a page.
pub type Page = [u8; 1024];

/// One step of a change of the flash.
pub enum FlashOp {
    /// The page of this number was erased.
    Erase(u8),
    /// The page of this number was programmed.
    Program(u8),
}

/// What the flash holds, as sequences of bytes, and how it came to hold it.
pub struct FlashView {
    /// The bytes of the metadata page.
    pub metadata: Seq<u8>,
    /// The bytes of each block's content page, by block number.
    pub content: Seq<Seq<u8>>,
    /// The steps that were taken on the flash, the latest last.
    pub history: Seq<FlashOp>,
}

impl FlashView {
    /// The metadata page and each of the 64 content pages has 1024 bytes.
    pub open spec fn wf(self) -> bool {
        &&& self.metadata.len() == PAGE_SIZE
        &&& self.content.len() == 64
        &&& forall|block: int| 0 <= block < 64 ==> (#[trigger] self.content[block]).len() == PAGE_SIZE
    }

    /// Whether `page_number` is one of the pages of the model.
    pub open spec fn holds(page_number: int) -> bool {
        METADATA_PAGE <= page_number < FIRST_CONTENT_PAGE + 64
    }

    /// The bytes of page `page_number`.
    pub open spec fn page(self, page_number: int) -> Seq<u8>
        recommends
            Self::holds(page_number),
    {
        if page_number == METADATA_PAGE {
            self.metadata
        } else {
            self.content[page_number - FIRST_CONTENT_PAGE]
        }
    }

    /// The flash with the bytes of page `page_number` replaced by `bytes`. A
    /// page that the model does not hold changes nothing.
    pub open spec fn with_page(self, page_number: int, bytes: Seq<u8>) -> FlashView {
        if page_number == METADATA_PAGE {
            FlashView { metadata: bytes, ..self }
        } else if FIRST_CONTENT_PAGE <= page_number < FIRST_CONTENT_PAGE + 64 {
            FlashView {
                content: self.content.update(page_number - FIRST_CONTENT_PAGE, bytes),
                ..self
            }
        } else {
            self
        }
    }

    /// The flash after page `page_number` has been erased.
    pub open spec fn erased(self, page_number: u8) -> FlashView {
        FlashView {
            history: self.history.push(FlashOp::Erase(page_number)),
            ..self.with_page(page_number as int, erased_page())
        }
    }

    /// The flash after page `page_number` has been programmed with `bytes`.
    pub open spec fn programmed(self, page_number: u8, bytes: Seq<u8>) -> FlashView {
        FlashView {
            history: self.history.push(FlashOp::Program(page_number)),
            ..self.with_page(page_number as int, bytes)
        }
    }

    /// The flash after page `page_number` has been written with `bytes`: it
    /// is erased first and programmed then, and between the two steps the
    /// page holds neither what it held nor `bytes`.
    pub open spec fn written(self, page_number: u8, bytes: Seq<u8>) -> FlashView {
        self.erased(page_number).programmed(page_number, bytes)
    }
}

/// A page in which every byte is erased.
pub open spec fn erased_page() -> Seq<u8> {
    Seq::new(PAGE_SIZE as nat, |i: int| ERASED)
}

/// The flash region of the store.
pub struct Flash {
    metadata: Page,
    content: [Page; 64],
    history: Ghost<Seq<FlashOp>>,
}

impl Flash {
    /// What the flash holds.
    pub closed spec fn view(&self) -> FlashView {
        FlashView {
            metadata: self.metadata@,
            content: Seq::new(64, |block: int| self.content@[block]@),
            history: self.history@,
        }
    }

    /// Every page of a flash has its full size.
    pub proof fn lemma_wf(&self)
        ensures
            self@.wf(),
    {
    }

    /// A flash in which every page is erased, and on which no step has been
    /// taken.
    pub fn new() -> (flash: Flash)
        ensures
            flash@.metadata == erased_page(),
            flash@.content.len() == 64,
            forall|block: int| 0 <= block < 64 ==> #[trigger] flash@.content[block] == erased_page(),
            flash@.history == Seq::<FlashOp>::empty(),
    {
        let flash = Flash {
            metadata: [0xff;1024],
            content: [[0xff;1024];64],
            history: Ghost(Seq::empty()),
        };
        flash
    }

    /// Erases page `page_number`.
    pub fn erase_page(&mut self, page_number: u8)
        ensures
            final(self)@ == old(self)@.erased(page_number),
    {
        let blank: Page = [0xff;1024];
        assert(blank@ =~= erased_page());
        self.set_page(&blank, page_number);
        self.history = Ghost(self.history@.push(FlashOp::Erase(page_number)));
    }

    /// Programs page `target_page` with the bytes of `source`.
    pub fn program_page(&mut self, source: &Page, target_page: u8)
        ensures
            final(self)@ == old(self)@.programmed(target_page, source@),
    {
        self.set_page(source, target_page);
        self.history = Ghost(self.history@.push(FlashOp::Program(target_page)));
    }

    /// Replaces the bytes of page `page_number`, if the flash holds it.
    fn set_page(&mut self, bytes: &Page, page_number: u8)
        ensures
            final(self)@ == old(self)@.with_page(page_number as int, bytes@),
    {
        if page_number == METADATA_PAGE {
            self.metadata = *bytes;
        } else if page_number >= FIRST_CONTENT_PAGE && page_number - FIRST_CONTENT_PAGE < 64 {
            let block: usize = (page_number - FIRST_CONTENT_PAGE) as usize;
            self.content[block] = *bytes;
            assert(self@.content =~= old(self)@.content.update(block as int, bytes@));
        }
    }

    /// The metadata page.
    pub fn metadata(&self) -> (page: &Page)
        ensures
            page@ == self@.metadata,
    {
        &self.metadata
    }

    /// The content page of block `block_id`.
    pub fn content(&self, block_id: BlockId) -> (page: &Page)
        ensures
            page@ == self@.content[block_id.index() as int],
    {
        let block: usize = block_id.value() as usize;
        &self.content[block]
    }
}

} // verus!
