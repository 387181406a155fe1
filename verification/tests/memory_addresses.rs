use kernel::memory::{offset_mapped, PhysAddr, PhysFrame, VirtAddr};

#[test]
fn virt_addr_accepts_canonical_addresses() {
    let low = VirtAddr::try_new(0x0000_7fff_ffff_ffff).expect("lower half is canonical");
    assert_eq!(low.as_u64(), 0x0000_7fff_ffff_ffff);
    let high = VirtAddr::try_new(0xffff_8000_0000_0000).expect("upper half is canonical");
    assert_eq!(high.as_u64(), 0xffff_8000_0000_0000);
}

#[test]
fn virt_addr_sign_extends_bit_47() {
    let addr = VirtAddr::try_new(0x0000_8000_0000_1234).expect("bit 47 alone is extended");
    assert_eq!(addr.as_u64(), 0xffff_8000_0000_1234);
}

#[test]
fn virt_addr_rejects_data_in_upper_bits() {
    assert!(VirtAddr::try_new(0x0001_0000_0000_0000).is_none());
    assert!(VirtAddr::try_new(0x8000_0000_0000_0000).is_none());
    assert!(VirtAddr::try_new(0xfffe_8000_0000_0000).is_none());
}

#[test]
fn virt_addr_splits_into_indices_and_offset() {
    let addr = VirtAddr::new((1 << 39) | (2 << 30) | (3 << 21) | (4 << 12) | 0x567);
    assert_eq!(addr.p4_index(), 1);
    assert_eq!(addr.p3_index(), 2);
    assert_eq!(addr.p2_index(), 3);
    assert_eq!(addr.p1_index(), 4);
    assert_eq!(addr.page_offset(), 0x567);
}

#[test]
fn virt_addr_indices_of_highest_address() {
    let addr = VirtAddr::new(0xffff_ffff_ffff_ffff);
    assert_eq!(addr.p4_index(), 511);
    assert_eq!(addr.p3_index(), 511);
    assert_eq!(addr.p2_index(), 511);
    assert_eq!(addr.p1_index(), 511);
    assert_eq!(addr.page_offset(), 0xfff);
}

#[test]
fn phys_addr_has_52_bits() {
    assert!(PhysAddr::try_new(0x000f_ffff_ffff_ffff).is_some());
    assert!(PhysAddr::try_new(0x0010_0000_0000_0000).is_none());
}

#[test]
fn frame_containing_address_clears_low_bits() {
    let frame = PhysFrame::containing_address(PhysAddr::new(0xb8abc));
    assert_eq!(frame.start_address().as_u64(), 0xb8000);
}

#[test]
fn frame_from_start_address_wants_alignment() {
    assert!(PhysFrame::from_start_address(PhysAddr::new(0x1000)).is_some());
    assert!(PhysFrame::from_start_address(PhysAddr::new(0x1001)).is_none());
}

#[test]
fn page_containing_address_clears_low_bits() {
    let page = kernel::memory::Page::containing_address(VirtAddr::new(0xffff_8000_dead_beef));
    assert_eq!(page.start_address().as_u64(), 0xffff_8000_dead_b000);
}

#[test]
fn virt_addr_new_keeps_canonical_address() {
    assert_eq!(VirtAddr::new(0xdead_beef).as_u64(), 0xdead_beef);
}

#[test]
fn offset_mapping_adds_the_offset() {
    let offset = VirtAddr::new(0xffff_8000_0000_0000);
    let mapped = offset_mapped(offset, PhysAddr::new(0x1000)).expect("within the upper half");
    assert_eq!(mapped.as_u64(), 0xffff_8000_0000_1000);
    let mapped = offset_mapped(VirtAddr::new(0), PhysAddr::new(0xb8000)).expect("identity");
    assert_eq!(mapped.as_u64(), 0xb8000);
}

#[test]
fn offset_mapping_extends_the_sign_across_the_lower_half() {
    let offset = VirtAddr::new(0x0000_7fff_ffff_f000);
    let mapped = offset_mapped(offset, PhysAddr::new(0x2000)).expect("bit 47 alone is extended");
    assert_eq!(mapped.as_u64(), 0xffff_8000_0000_1000);
}

#[test]
fn offset_mapping_fails_outside_the_address_space() {
    let offset = VirtAddr::new(0xffff_ffff_ffff_f000);
    assert!(offset_mapped(offset, PhysAddr::new(0x1000)).is_none());
    let offset = VirtAddr::new(0x0000_7fff_ffff_f000);
    assert!(offset_mapped(offset, PhysAddr::new(0x0000_8000_0000_1000)).is_none());
}
