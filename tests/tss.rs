use x86_tss::addr::VirtAddr;
use x86_tss::tss::{TaskStateSegment, DENY_ALL, IOMAP_OFFSET};

#[test]
pub fn check_tss_size() {
    // The minimum segment is 0x68 bytes; the trailing bitmap byte adds one.
    assert_eq!(TaskStateSegment::<0>::new().to_bytes().len(), 0x69);
}

#[test]
fn image_size_follows_bitmap_length() {
    assert_eq!(TaskStateSegment::<1>::new().to_bytes().len(), 0x68 + 1 + 1);
    assert_eq!(TaskStateSegment::<32>::new().to_bytes().len(), 0x68 + 32 + 1);
    assert_eq!(TaskStateSegment::<8192>::new().to_bytes().len(), 0x2069);
}

#[test]
fn iomap_offset_is_0x68() {
    assert_eq!(IOMAP_OFFSET, 0x68);
    let tss = TaskStateSegment::<16>::new();
    assert_eq!(tss.iomap_base(), 0x68);
    let bytes = tss.to_bytes();
    assert_eq!(bytes[0x66], 0x68);
    assert_eq!(bytes[0x67], 0x00);
}

#[test]
fn fresh_bitmap_denies_everything() {
    let tss = TaskStateSegment::<16>::new();
    assert!(tss.iomap.iter().all(|&b| b == 0xFF));
    assert_eq!(tss.iomap_last_byte(), 0xFF);
    assert_eq!(DENY_ALL, 0xFF);
    let bytes = tss.to_bytes();
    assert!(bytes[0x68..].iter().all(|&b| b == 0xFF));
    assert_eq!(bytes.len(), 0x68 + 16 + 1);
}

#[test]
fn fresh_stack_tables_are_zero() {
    let tss = TaskStateSegment::<0>::new();
    for a in tss.privilege_stack_table.iter() {
        assert_eq!(a.as_u64(), 0);
    }
    for a in tss.interrupt_stack_table.iter() {
        assert_eq!(a.as_u64(), 0);
    }
    let bytes = tss.to_bytes();
    assert!(bytes[0x04..0x1C].iter().all(|&b| b == 0));
    assert!(bytes[0x24..0x5C].iter().all(|&b| b == 0));
}

#[test]
fn fresh_reserved_fields_are_zero() {
    let bytes = TaskStateSegment::<4>::new().to_bytes();
    assert!(bytes[0x00..0x04].iter().all(|&b| b == 0));
    assert!(bytes[0x1C..0x24].iter().all(|&b| b == 0));
    assert!(bytes[0x5C..0x66].iter().all(|&b| b == 0));
}

#[test]
fn zero_length_bitmap_scenario() {
    let tss = TaskStateSegment::<0>::new();
    let bytes = tss.to_bytes();
    assert_eq!(bytes.len(), 0x69);
    assert_eq!(tss.iomap_base(), 0x68);
    assert_eq!(tss.iomap_last_byte(), 0xFF);
    assert_eq!(bytes[0x68], 0xFF);
}

#[test]
fn full_port_bitmap_scenario() {
    let mut tss = TaskStateSegment::<8192>::new();
    let port: usize = 0x3F8;
    tss.iomap[port / 8] &= !(1u8 << (port % 8));
    let bytes = tss.to_bytes();
    assert_eq!(bytes.len(), 0x2069);
    assert_eq!(tss.iomap[0x7F], 0xFE);
    assert_eq!(bytes[0x68 + 0x7F], 0xFE);
    for (i, &b) in tss.iomap.iter().enumerate() {
        if i != 0x7F {
            assert_eq!(b, 0xFF);
        }
    }
    assert_eq!(bytes[0x68 + 8192], 0xFF);
}

#[test]
fn stack_pointers_are_little_endian_in_place() {
    let mut tss = TaskStateSegment::<0>::new();
    tss.privilege_stack_table[0] = VirtAddr::try_new(0xFFFF_8000_1234_5678).unwrap();
    tss.interrupt_stack_table[6] = VirtAddr::try_new(0x0000_7FFF_FFFF_F000).unwrap();
    let bytes = tss.to_bytes();
    assert_eq!(&bytes[0x04..0x0C], &[0x78, 0x56, 0x34, 0x12, 0x00, 0x80, 0xFF, 0xFF]);
    assert!(bytes[0x0C..0x1C].iter().all(|&b| b == 0));
    assert_eq!(&bytes[0x54..0x5C], &[0x00, 0xF0, 0xFF, 0xFF, 0xFF, 0x7F, 0x00, 0x00]);
    assert!(bytes[0x24..0x54].iter().all(|&b| b == 0));
    assert_eq!(bytes.len(), 0x69);
}

#[test]
fn default_matches_new() {
    let a: TaskStateSegment<8> = Default::default();
    assert_eq!(a.to_bytes(), TaskStateSegment::<8>::new().to_bytes());
}

#[test]
fn canonical_addresses() {
    assert_eq!(VirtAddr::zero().as_u64(), 0);
    assert_eq!(VirtAddr::try_new(0x0000_7FFF_FFFF_FFFF).map(|a| a.as_u64()), Some(0x0000_7FFF_FFFF_FFFF));
    assert_eq!(VirtAddr::try_new(0xFFFF_8000_0000_0000).map(|a| a.as_u64()), Some(0xFFFF_8000_0000_0000));
    assert_eq!(VirtAddr::try_new(u64::MAX).map(|a| a.as_u64()), Some(u64::MAX));
    assert!(VirtAddr::try_new(0x0000_8000_0000_0000).is_none());
    assert!(VirtAddr::try_new(0xFFFF_7FFF_FFFF_FFFF).is_none());
    assert!(VirtAddr::try_new(0x1234_0000_0000_0000).is_none());
}
