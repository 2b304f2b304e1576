use app_loader::allocator::{is_power_of_two, AllocError, EarlyAllocator};
use app_loader::dtb::{dtb_info_from_regions, DtbError};
use app_loader::hasher::{DefaultHasher, RandomState};
use std::hash::Hasher;

type Alloc = EarlyAllocator<0x1000>;

#[test]
fn new_allocator_is_empty() {
    let a = Alloc::new();
    assert_eq!(a.total_pages(), 0);
    assert_eq!(a.total_bytes(), 0);
    assert_eq!(a.available_bytes(), 0);
}

#[test]
fn init_trims_to_page_boundaries() {
    let mut a = Alloc::new();
    a.init(0x1234, 0x5000);
    assert_eq!(a.total_bytes(), 0x4000);
    assert_eq!(a.total_pages(), 4);
    assert_eq!(a.available_pages(), 4);
}

#[test]
fn pages_come_from_the_top() {
    let mut a = Alloc::new();
    a.init(0x1000, 0x10000);
    assert_eq!(a.total_pages(), 16);
    assert_eq!(a.alloc_pages(1, 0x1000), Ok(0x10000));
    assert_eq!(a.used_pages(), 1);
    assert_eq!(a.alloc_pages(1, 0x4000), Ok(0xf000));
    assert_eq!(a.used_pages(), 2);
    assert_eq!(a.available_pages(), 14);
}

#[test]
fn page_alignment_counts_in_pages_per_byte() {
    let mut a = Alloc::new();
    a.init(0x10000, 0x10000);
    assert_eq!(a.alloc_pages(1, 0x2000), Ok(0x1f000));
    let mut b = Alloc::new();
    b.init(0x10000, 0x10000);
    assert_eq!(b.alloc_pages(1, 0x200_0000), Ok(0x1e000));
    assert_eq!(b.used_pages(), 2);
}

#[test]
fn counters_add_up() {
    let mut a = Alloc::new();
    a.init(0x1000, 0x10000);
    a.alloc_pages(3, 0x1000).unwrap();
    a.alloc_bytes(0x1234, 16).unwrap();
    assert_eq!(a.available_bytes() + a.used_bytes() + a.used_pages() * 0x1000, a.total_bytes());
    assert_eq!(a.available_pages(), a.total_pages() - a.used_pages() - 2);
}

#[test]
fn bad_page_requests_are_refused() {
    let mut a = Alloc::new();
    a.init(0x1000, 0x10000);
    assert_eq!(a.alloc_pages(0, 0x1000), Err(AllocError::InvalidParam));
    assert_eq!(a.alloc_pages(1, 0x800), Err(AllocError::InvalidParam));
    assert_eq!(a.alloc_pages(1, 0x3000), Err(AllocError::InvalidParam));
    assert_eq!(a.alloc_pages(1, 0), Err(AllocError::InvalidParam));
    assert_eq!(a.alloc_pages(17, 0x1000), Err(AllocError::NoMemory));
    assert_eq!(a.used_pages(), 0);
}

#[test]
fn bytes_come_from_the_bottom() {
    let mut a = Alloc::new();
    a.init(0x1000, 0x10000);
    assert_eq!(a.alloc_bytes(10, 8), Ok(0x1000));
    assert_eq!(a.used_bytes(), 10);
    assert_eq!(a.alloc_bytes(4, 8), Ok(0x1010));
    assert_eq!(a.used_bytes(), 0x14);
    assert_eq!(a.available_pages(), 15);
    assert_eq!(a.available_bytes(), 0x10000 - 0x14);
    a.dealloc(0x1000, 10);
    assert_eq!(a.used_bytes(), 0x14);
    a.dealloc(0x1010, 4);
    assert_eq!(a.used_bytes(), 0);
    assert_eq!(a.available_pages(), 16);
}

#[test]
fn bytes_and_pages_do_not_meet() {
    let mut a = Alloc::new();
    a.init(0x1000, 0x2000);
    assert_eq!(a.alloc_bytes(0x1800, 1), Ok(0x1000));
    assert_eq!(a.alloc_pages(1, 0x1000), Err(AllocError::NoMemory));
    assert_eq!(a.alloc_bytes(0x900, 1), Err(AllocError::NoMemory));
    assert_eq!(a.alloc_bytes(0x800, 1), Ok(0x2800));
}

#[test]
fn unsupported_operations() {
    let mut a = Alloc::new();
    assert_eq!(a.add_memory(0x1000, 0x1000), Err(AllocError::InvalidParam));
    a.dealloc_pages(0x1000, 1);
    assert_eq!(a.used_pages(), 0);
}

#[test]
fn powers_of_two() {
    assert!(is_power_of_two(1));
    assert!(is_power_of_two(4096));
    assert!(!is_power_of_two(0));
    assert!(!is_power_of_two(12));
}

#[test]
fn dtb_layout_from_regions() {
    let info = dtb_info_from_regions(
        Some((0x8000_0000, Some(0x800_0000))),
        vec![Some((0x1000_1000, Some(0x1000))), None, Some((0x1000_2000, None)), Some((0x1000_8000, Some(0x1000)))],
    )
    .unwrap();
    assert_eq!(info.memory_addr, 0x8000_0000);
    assert_eq!(info.memory_size, 0x8800_0000);
    assert_eq!(info.mmio_regions, vec![(0x1000_1000, 0x1000), (0x1000_8000, 0x1000)]);
}

#[test]
fn dtb_without_memory_size_is_refused() {
    assert!(matches!(dtb_info_from_regions(None, vec![]), Err(DtbError::BadPtr)));
    assert!(matches!(dtb_info_from_regions(Some((0x8000_0000, None)), vec![]), Err(DtbError::BadPtr)));
    assert!(matches!(dtb_info_from_regions(Some((usize::MAX, Some(2))), vec![]), Err(DtbError::BadPtr)));
}

#[test]
fn random_state_splits_the_value() {
    let s = RandomState::new((7u128 << 64) | 9);
    assert_eq!(s.keys(), (7, 9));
}

#[test]
fn default_hasher_matches_zero_keyed_siphash13() {
    let mut h = DefaultHasher::new();
    h.write(b"loader");
    let mut reference = siphasher::sip::SipHasher13::new_with_keys(0, 0);
    reference.write(b"loader");
    assert_eq!(h.finish(), reference.finish());
    let mut s = DefaultHasher::new();
    s.write_str("ab");
    let mut reference = siphasher::sip::SipHasher13::new_with_keys(0, 0);
    reference.write(b"ab");
    reference.write(&[0xff]);
    assert_eq!(s.finish(), reference.finish());
    let empty = DefaultHasher::new();
    assert_ne!(empty.finish(), h.finish());
}
