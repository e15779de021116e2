use mcu_os::file_system::{BlockInfo, FileSystem};
use mcu_os::flash::Flash;
use mcu_os::image::{decode_block_info, decode_stack, encode};
use mcu_os::stack::{BlockId, Stack};

fn block(number: u8) -> BlockId {
    BlockId::new(number).unwrap()
}

fn saved_image(store: FileSystem) -> [u8; 1024] {
    *store.into_flash().metadata()
}

#[test]
fn image_of_a_fresh_store() {
    let mut store = FileSystem::new_from_scratch(Flash::new());
    store.save_file_system();
    let image = saved_image(store);
    let mut expected = [0u8; 1024];
    for number in 0..64u8 {
        expected[256 + number as usize] = number;
    }
    expected[320] = 64;
    expected[388..392].copy_from_slice(&0x0801_0000u32.to_le_bytes());
    expected[392] = 1;
    assert_eq!(image, expected);
}

#[test]
fn image_after_a_file_was_created() {
    let mut store = FileSystem::new_from_scratch(Flash::new());
    store.create_file(b"name", &[0u8; 600]).unwrap();
    let image = saved_image(store);
    assert_eq!(&image[4 * 63..4 * 64], &[63, 4, 0x58, 0x02]);
    assert_eq!(&image[..4 * 63], &[0u8; 4 * 63][..]);
    assert_eq!(image[256 + 62], 62);
    assert_eq!(image[256 + 63], 0);
    assert_eq!(image[320], 63);
    assert_eq!(image[321], 63);
    assert_eq!(image[322], 0);
    assert_eq!(image[385], 1);
    assert_eq!(&image[386..393], &[0, 0, 0x00, 0x00, 0x01, 0x08, 1]);
    assert_eq!(&image[393..], &[0u8; 1024 - 393][..]);
}

#[test]
fn encode_lays_out_each_field() {
    let mut block_info = [BlockInfo { next_block: block(0), file_name_size: 0, content_size: 0 }; 64];
    block_info[2] = BlockInfo { next_block: block(9), file_name_size: 255, content_size: 0xfffe };
    let mut free_blocks = Stack::new();
    free_blocks.push(block(7));
    free_blocks.push(block(5));
    let mut first_blocks = Stack::new();
    first_blocks.push(block(2));
    let image = encode(&block_info, &free_blocks, &first_blocks, false);
    assert_eq!(&image[8..12], &[9, 255, 0xfe, 0xff]);
    assert_eq!(&image[256..259], &[7, 5, 0]);
    assert_eq!(image[320], 2);
    assert_eq!(&image[321..323], &[2, 0]);
    assert_eq!(image[385], 1);
    assert_eq!(&image[388..392], &[0x00, 0x00, 0x01, 0x08]);
    assert_eq!(image[392], 0);
    assert_eq!(encode(&block_info, &free_blocks, &first_blocks, true)[392], 1);
}

#[test]
fn decoding_gives_back_what_was_encoded() {
    let mut block_info = [BlockInfo { next_block: block(1), file_name_size: 2, content_size: 3 }; 64];
    block_info[63] = BlockInfo { next_block: block(63), file_name_size: 10, content_size: 1000 };
    let mut free_blocks = Stack::new();
    for number in [4u8, 8, 15, 16, 23, 42] {
        free_blocks.push(block(number));
    }
    let first_blocks = Stack::new();
    let image = encode(&block_info, &free_blocks, &first_blocks, true);
    assert_eq!(decode_block_info(&image), Some(block_info));
    let decoded = decode_stack(&image, 256).unwrap();
    assert_eq!(decoded.iter(), free_blocks.iter());
    assert_eq!(decode_stack(&image, 321).unwrap().len(), 0);
}

#[test]
fn stack_with_too_many_slots_cannot_be_read() {
    let mut image = [0u8; 1024];
    image[320] = 64;
    assert_eq!(decode_stack(&image, 256).map(|stack| stack.len()), Some(64));
    image[320] = 65;
    assert!(decode_stack(&image, 256).is_none());
    image[320] = 255;
    assert!(decode_stack(&image, 256).is_none());
}

#[test]
fn slot_in_use_must_name_a_block() {
    let mut image = [0u8; 1024];
    image[320] = 2;
    image[257] = 64;
    assert!(decode_stack(&image, 256).is_none());
    image[257] = 63;
    assert_eq!(
        decode_stack(&image, 256).map(|stack| stack.iter()),
        Some(vec![block(0), block(63)])
    );
}

#[test]
fn slot_not_in_use_is_not_looked_at() {
    let mut image = [0u8; 1024];
    image[320] = 1;
    image[256] = 5;
    image[257] = 200;
    assert_eq!(decode_stack(&image, 256).map(|stack| stack.iter()), Some(vec![block(5)]));
}

#[test]
fn next_block_must_be_a_block() {
    let mut image = [0u8; 1024];
    assert!(decode_block_info(&image).is_some());
    image[4 * 17] = 64;
    assert!(decode_block_info(&image).is_none());
    image[4 * 17] = 63;
    image[4 * 17 + 1] = 255;
    image[4 * 17 + 2] = 255;
    image[4 * 17 + 3] = 255;
    let decoded = decode_block_info(&image).unwrap();
    assert_eq!(
        decoded[17],
        BlockInfo { next_block: block(63), file_name_size: 255, content_size: 0xffff }
    );
}

#[test]
fn image_with_the_content_elsewhere_is_refused() {
    let mut store = FileSystem::new_from_scratch(Flash::new());
    store.save_file_system();
    for at in 388..392 {
        let mut page = *store.flash().metadata();
        page[at] ^= 0x10;
        let mut flash = Flash::new();
        flash.program_page(&page, 63);
        assert!(FileSystem::load_from_flash(flash).is_err());
    }
    assert!(FileSystem::load_from_flash(store_flash(&store)).is_ok());
}

#[test]
fn set_up_byte_must_be_zero_or_one() {
    let mut store = FileSystem::new_from_scratch(Flash::new());
    store.save_file_system();
    let mut page = *store.flash().metadata();
    let mut flash = Flash::new();
    page[392] = 0;
    flash.program_page(&page, 63);
    let loaded = FileSystem::load_from_flash(flash).ok().unwrap();
    let mut out = Vec::new();
    loaded.print_stats(&mut out);
    assert_eq!(out, b"Initialized: no\r\nFile blocks:  0\r\nFree blocks:  64\r\n".to_vec());
    let mut flash = Flash::new();
    page[392] = 2;
    flash.program_page(&page, 63);
    assert!(FileSystem::load_from_flash(flash).is_err());
}

#[test]
fn bytes_between_the_fields_are_not_looked_at() {
    let mut store = FileSystem::new_from_scratch(Flash::new());
    store.save_file_system();
    let mut page = *store.flash().metadata();
    page[386] = 0xaa;
    page[387] = 0xbb;
    page[393] = 0xcc;
    page[1023] = 0xdd;
    let mut flash = Flash::new();
    flash.program_page(&page, 63);
    assert!(FileSystem::load_from_flash(flash).is_ok());
}

/// A flash that holds what the flash of `store` holds.
fn store_flash(store: &FileSystem) -> Flash {
    let mut flash = Flash::new();
    flash.program_page(store.flash().metadata(), 63);
    for number in 0..64u8 {
        flash.program_page(store.bytes(block(number)), 64 + number);
    }
    flash
}

#[test]
fn erased_flash_is_all_ones() {
    let flash = Flash::new();
    assert_eq!(flash.metadata(), &[0xffu8; 1024]);
    for number in 0..64u8 {
        assert_eq!(flash.content(block(number)), &[0xffu8; 1024]);
    }
}

#[test]
fn pages_are_programmed_and_erased_one_by_one() {
    let mut flash = Flash::new();
    flash.program_page(&[1u8; 1024], 63);
    flash.program_page(&[2u8; 1024], 64);
    flash.program_page(&[3u8; 1024], 127);
    assert_eq!(flash.metadata(), &[1u8; 1024]);
    assert_eq!(flash.content(block(0)), &[2u8; 1024]);
    assert_eq!(flash.content(block(63)), &[3u8; 1024]);
    assert_eq!(flash.content(block(1)), &[0xffu8; 1024]);
    flash.erase_page(64);
    assert_eq!(flash.content(block(0)), &[0xffu8; 1024]);
    assert_eq!(flash.metadata(), &[1u8; 1024]);
    flash.erase_page(63);
    assert_eq!(flash.metadata(), &[0xffu8; 1024]);
    assert_eq!(flash.content(block(63)), &[3u8; 1024]);
}

#[test]
fn pages_outside_the_store_are_left_alone() {
    let mut flash = Flash::new();
    for page_number in [0u8, 16, 62, 128, 255] {
        flash.program_page(&[9u8; 1024], page_number);
        flash.erase_page(page_number);
    }
    assert_eq!(flash.metadata(), &[0xffu8; 1024]);
    for number in 0..64u8 {
        assert_eq!(flash.content(block(number)), &[0xffu8; 1024]);
    }
}
