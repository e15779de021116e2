use mcu_os::elf::{read_elf, read_program_header, read_u16, read_u32, ElfError};

/// A 32-bit little-endian image with one program header directly behind the
/// ELF header.
fn image(entry: u32, file_offset: u32, virtual_address: u32, memory_size: u32) -> Vec<u8> {
    let mut bytes = vec![0u8; 0x34 + 0x20];
    bytes[0] = 0x7f;
    bytes[1] = 0x45;
    bytes[2] = 0x4c;
    bytes[3] = 0x46;
    bytes[4] = 1;
    bytes[0x18..0x1c].copy_from_slice(&entry.to_le_bytes());
    bytes[0x1c..0x20].copy_from_slice(&0x34u32.to_le_bytes());
    bytes[0x2a..0x2c].copy_from_slice(&0x20u16.to_le_bytes());
    bytes[0x2c..0x2e].copy_from_slice(&1u16.to_le_bytes());
    bytes[0x34 + 0x04..0x34 + 0x08].copy_from_slice(&file_offset.to_le_bytes());
    bytes[0x34 + 0x08..0x34 + 0x0c].copy_from_slice(&virtual_address.to_le_bytes());
    bytes[0x34 + 0x10..0x34 + 0x14].copy_from_slice(&memory_size.to_le_bytes());
    bytes
}

#[test]
fn reads_little_endian_values() {
    assert_eq!(read_u16(&[0x34, 0x12]), 0x1234);
    assert_eq!(read_u16(&[0xff, 0xff, 0x00]), 0xffff);
    assert_eq!(read_u32(&[0x78, 0x56, 0x34, 0x12]), 0x1234_5678);
    assert_eq!(read_u32(&[0xff, 0xff, 0xff, 0xff, 0x01]), 0xffff_ffff);
}

#[test]
fn resolves_entry_inside_the_segment() {
    let bytes = image(0x1000_0010, 0x100, 0x1000_0000, 0x200);
    assert_eq!(read_elf(&bytes), Ok(0x110));
}

#[test]
fn resolves_entry_at_the_first_byte_of_the_segment() {
    let bytes = image(0x2000, 0x54, 0x2000, 1);
    assert_eq!(read_elf(&bytes), Ok(0x54));
}

#[test]
fn entry_at_the_end_of_the_segment_is_outside() {
    let bytes = image(0x2200, 0x54, 0x2000, 0x200);
    assert_eq!(read_elf(&bytes), Err(ElfError::NoMatchingSegment));
}

#[test]
fn offset_may_exceed_thirty_two_bits() {
    let bytes = image(0xffff_fffe, 0xffff_ffff, 0, 0xffff_ffff);
    assert_eq!(read_elf(&bytes), Ok(0x1_ffff_fffd));
}

#[test]
fn any_flipped_magic_byte_is_bad_magic() {
    for at in 0..4 {
        let mut bytes = image(0x2000, 0x54, 0x2000, 0x100);
        bytes[at] ^= 0x01;
        assert_eq!(read_elf(&bytes), Err(ElfError::BadMagic));
    }
}

#[test]
fn class_two_is_unsupported() {
    let mut bytes = image(0x2000, 0x54, 0x2000, 0x100);
    bytes[4] = 2;
    assert_eq!(read_elf(&bytes), Err(ElfError::UnsupportedClass));
}

#[test]
fn short_header_is_rejected() {
    let bytes = image(0x2000, 0x54, 0x2000, 0x100);
    assert_eq!(read_elf(&bytes[..53]), Err(ElfError::HeaderTooShort));
    assert_eq!(read_elf(&[]), Err(ElfError::HeaderTooShort));
}

#[test]
fn header_of_fifty_four_bytes_is_enough() {
    let mut bytes = image(0x2000, 0x54, 0x2000, 0x100);
    bytes[0x2c] = 0;
    assert_eq!(read_elf(&bytes[..54]), Err(ElfError::NoMatchingSegment));
}

#[test]
fn short_header_wins_over_bad_magic() {
    assert_eq!(read_elf(&[0u8; 10]), Err(ElfError::HeaderTooShort));
}

#[test]
fn table_beyond_the_buffer_is_out_of_range() {
    let mut bytes = image(0x2000, 0x54, 0x2000, 0x100);
    bytes[0x1c..0x20].copy_from_slice(&0x1000u32.to_le_bytes());
    assert_eq!(read_elf(&bytes), Err(ElfError::ProgramHeadersOutOfRange));
}

#[test]
fn table_that_ends_one_byte_late_is_out_of_range() {
    let mut bytes = image(0x2000, 0x54, 0x2000, 0x100);
    bytes[0x2a..0x2c].copy_from_slice(&0x21u16.to_le_bytes());
    assert_eq!(read_elf(&bytes), Err(ElfError::ProgramHeadersOutOfRange));
}

#[test]
fn huge_table_is_out_of_range() {
    let mut bytes = image(0x2000, 0x54, 0x2000, 0x100);
    bytes[0x1c..0x20].copy_from_slice(&0xffff_ffffu32.to_le_bytes());
    bytes[0x2a..0x2c].copy_from_slice(&0xffffu16.to_le_bytes());
    bytes[0x2c..0x2e].copy_from_slice(&0xffffu16.to_le_bytes());
    assert_eq!(read_elf(&bytes), Err(ElfError::ProgramHeadersOutOfRange));
}

#[test]
fn small_entries_are_too_short() {
    let mut bytes = image(0x2000, 0x54, 0x2000, 0x100);
    bytes[0x2a..0x2c].copy_from_slice(&0x13u16.to_le_bytes());
    assert_eq!(read_elf(&bytes), Err(ElfError::ProgramHeaderTooShort));
}

#[test]
fn segment_that_wraps_is_an_overflow() {
    let bytes = image(0x2000, 0x54, 0xffff_ff00, 0x100);
    assert_eq!(read_elf(&bytes), Err(ElfError::SegmentSizeOverflow));
}

#[test]
fn segment_that_ends_at_the_last_address_is_accepted() {
    let bytes = image(0xffff_fffe, 0x54, 0xffff_ff00, 0xff);
    assert_eq!(read_elf(&bytes), Ok(0xffff_fffe + 0x54 - 0xffff_ff00));
}

#[test]
fn no_entries_means_no_segment() {
    let mut bytes = image(0x2000, 0x54, 0x2000, 0x100);
    bytes[0x2c] = 0;
    assert_eq!(read_elf(&bytes), Err(ElfError::NoMatchingSegment));
}

#[test]
fn second_segment_is_found_after_a_miss() {
    let mut bytes = image(0x3004, 0x54, 0x2000, 0x100);
    bytes.extend_from_slice(&[0u8; 0x20]);
    bytes[0x2c] = 2;
    bytes[0x54 + 0x04..0x54 + 0x08].copy_from_slice(&0x400u32.to_le_bytes());
    bytes[0x54 + 0x08..0x54 + 0x0c].copy_from_slice(&0x3000u32.to_le_bytes());
    bytes[0x54 + 0x10..0x54 + 0x14].copy_from_slice(&0x10u32.to_le_bytes());
    assert_eq!(read_elf(&bytes), Ok(0x404));
}

#[test]
fn first_matching_segment_wins() {
    let mut bytes = image(0x2004, 0x54, 0x2000, 0x100);
    bytes.extend_from_slice(&[0u8; 0x20]);
    bytes[0x2c] = 2;
    bytes[0x54 + 0x04..0x54 + 0x08].copy_from_slice(&0x400u32.to_le_bytes());
    bytes[0x54 + 0x08..0x54 + 0x0c].copy_from_slice(&0x2000u32.to_le_bytes());
    bytes[0x54 + 0x10..0x54 + 0x14].copy_from_slice(&0x100u32.to_le_bytes());
    assert_eq!(read_elf(&bytes), Ok(0x58));
}

#[test]
fn error_in_an_earlier_entry_stops_the_walk() {
    let mut bytes = image(0x3004, 0x54, 0xffff_ff00, 0x100);
    bytes.extend_from_slice(&[0u8; 0x20]);
    bytes[0x2c] = 2;
    bytes[0x54 + 0x08..0x54 + 0x0c].copy_from_slice(&0x3000u32.to_le_bytes());
    bytes[0x54 + 0x10..0x54 + 0x14].copy_from_slice(&0x10u32.to_le_bytes());
    assert_eq!(read_elf(&bytes), Err(ElfError::SegmentSizeOverflow));
}

#[test]
fn program_header_is_tested_on_its_own() {
    let mut header = [0u8; 0x14];
    header[0x04..0x08].copy_from_slice(&0x100u32.to_le_bytes());
    header[0x08..0x0c].copy_from_slice(&0x8000u32.to_le_bytes());
    header[0x10..0x14].copy_from_slice(&0x20u32.to_le_bytes());
    assert_eq!(read_program_header(&header, 0x8010), Ok(Some(0x110)));
    assert_eq!(read_program_header(&header, 0x8020), Ok(None));
    assert_eq!(read_program_header(&header, 0x7fff), Ok(None));
    assert_eq!(read_program_header(&header[..0x13], 0x8010), Err(ElfError::ProgramHeaderTooShort));
}

#[test]
fn each_error_has_its_message() {
    assert_eq!(ElfError::HeaderTooShort.message(), "ELF header too short");
    assert_eq!(ElfError::BadMagic.message(), "Cannot run program: Magic ELF header not found.");
    assert_eq!(ElfError::UnsupportedClass.message(), "Cannot run program: Not 32-bit.");
    assert_eq!(
        ElfError::ProgramHeadersOutOfRange.message(),
        "ELF program headers section too short"
    );
    assert_eq!(ElfError::ProgramHeaderTooShort.message(), "Program header too short");
    assert_eq!(ElfError::SegmentSizeOverflow.message(), "Segment size overflow error");
    assert_eq!(ElfError::NoMatchingSegment.message(), "No program headers found");
}
