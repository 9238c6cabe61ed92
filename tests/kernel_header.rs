use bootimg_info::arm64_image_header::{
    Arm64ImageHeader, Endianness, Flags, PageSize, PhysicalPlacement,
};
use bootimg_info::error::ExtractError;

fn sample_header() -> Vec<u8> {
    let mut b = Vec::new();
    b.extend_from_slice(&[0x4d, 0x5a, 0x40, 0xfa, 0x3f, 0x48, 0x20, 0x14]);
    b.extend_from_slice(&0x8_0000u64.to_le_bytes());
    b.extend_from_slice(&0x2a3_c000u64.to_le_bytes());
    b.extend_from_slice(&0b1010u64.to_le_bytes());
    b.extend_from_slice(&[0u8; 24]);
    b.extend_from_slice(b"ARM\x64");
    b.extend_from_slice(&[0x40, 0, 0, 0]);
    b
}

#[test]
fn parses_all_fields() {
    let b = sample_header();
    let h = Arm64ImageHeader::parse(&b).unwrap();
    assert_eq!(h.code, [0x4d, 0x5a, 0x40, 0xfa, 0x3f, 0x48, 0x20, 0x14]);
    assert_eq!(h.text_offset, 0x8_0000);
    assert_eq!(h.image_size, 0x2a3_c000);
    assert_eq!(h.flags.endianness, Endianness::Little);
    assert_eq!(h.flags.page_size, PageSize::Size4K);
    assert_eq!(h.flags.physical_placement, PhysicalPlacement::B);
    assert_eq!(h.flags.reserved, 0);
    assert_eq!(h.res5, [0x40, 0, 0, 0]);
}

#[test]
fn parses_header_followed_by_more_bytes() {
    let mut b = sample_header();
    b.extend_from_slice(&[0xaa; 100]);
    let h = Arm64ImageHeader::parse(&b).unwrap();
    assert_eq!(h.image_size, 0x2a3_c000);
}

#[test]
fn short_buffer_is_malformed() {
    let b = sample_header();
    assert_eq!(Arm64ImageHeader::parse(&b[..63]).unwrap_err(), ExtractError::MalformedHeader);
    assert_eq!(Arm64ImageHeader::parse(&[]).unwrap_err(), ExtractError::MalformedHeader);
}

#[test]
fn wrong_magic_is_bad_magic() {
    for k in 56..60 {
        let mut b = sample_header();
        b[k] ^= 0x01;
        assert_eq!(Arm64ImageHeader::parse(&b).unwrap_err(), ExtractError::BadMagic);
    }
    let mut b = sample_header();
    b[56..60].copy_from_slice(b"\x64MRA");
    assert_eq!(Arm64ImageHeader::parse(&b).unwrap_err(), ExtractError::BadMagic);
}

#[test]
fn encode_reproduces_decoded_bytes() {
    let mut b = sample_header();
    b[32..56].copy_from_slice(&[0x77; 24]);
    b[24..32].copy_from_slice(&0xdead_beef_0000_000fu64.to_le_bytes());
    let h = Arm64ImageHeader::parse(&b).unwrap();
    let e = h.to_bytes();
    assert_eq!(e.len(), 64);
    assert_eq!(&e[..32], &b[..32]);
    assert_eq!(&e[32..56], &[0u8; 24]);
    assert_eq!(&e[56..64], &b[56..64]);
    let h2 = Arm64ImageHeader::parse(&e).unwrap();
    assert_eq!(h2.text_offset, h.text_offset);
    assert_eq!(h2.image_size, h.image_size);
    assert_eq!(h2.flags, h.flags);
}

#[test]
fn flags_fields_in_bit_order() {
    let f = Flags::from_bits(0b1011);
    assert_eq!(f.endianness, Endianness::Big);
    assert_eq!(f.page_size, PageSize::Size4K);
    assert_eq!(f.physical_placement, PhysicalPlacement::B);
    assert_eq!(f.reserved, 0);
    let g = Flags::from_bits(0xffff_ffff_ffff_fff0);
    assert_eq!(g.endianness, Endianness::Little);
    assert_eq!(g.page_size, PageSize::Unspecified);
    assert_eq!(g.physical_placement, PhysicalPlacement::A);
    assert_eq!(g.reserved, 0x0fff_ffff_ffff_ffff);
    assert_eq!(Flags::from_bits(0b0100).page_size, PageSize::Size16K);
    assert_eq!(Flags::from_bits(0b0110).page_size, PageSize::Size64K);
}

#[test]
fn flags_word_round_trips() {
    for w in [0u64, 1, 0b1011, 0xffff_ffff_ffff_ffff, 0x1234_5678_9abc_def0, 1 << 63] {
        assert_eq!(Flags::from_bits(w).to_bits(), w);
    }
}
