use kernel::memory::{
    create_example_mapping, entry_frame, translate, translate_addr, FrameError, Page,
    PageTableMemory, PhysAddr, PhysFrame, TableImage, Translation, VirtAddr, HUGE_PAGE, PRESENT,
    WRITABLE,
};

fn frame(start: u64) -> PhysFrame {
    PhysFrame::from_start_address(PhysAddr::new(start)).expect("aligned start")
}

/// Tables at 0x1000 (level 4), 0x2000, 0x3000 and 0x4000 (level 1) that map the
/// page at 0x0000_0080_4020_1000 (indices 1, 1, 1, 1) to the frame at 0x5000.
fn four_levels() -> TableImage {
    let mut image = TableImage::new();
    image.set_entry(frame(0x1000), 1, 0x2000 | PRESENT | WRITABLE);
    image.set_entry(frame(0x2000), 1, 0x3000 | PRESENT | WRITABLE);
    image.set_entry(frame(0x3000), 1, 0x4000 | PRESENT | WRITABLE);
    image.set_entry(frame(0x4000), 1, 0x5000 | PRESENT);
    image
}

const MAPPED_PAGE: u64 = (1 << 39) | (1 << 30) | (1 << 21) | (1 << 12);

#[test]
fn entry_frame_reads_the_address_bits() {
    let target = entry_frame(0x8000_0000_1234_5003).expect("present and not huge");
    assert_eq!(target.start_address().as_u64(), 0x1234_5000);
}

#[test]
fn entry_frame_of_absent_entry() {
    assert_eq!(entry_frame(0), Err(FrameError::FrameNotPresent));
    assert_eq!(entry_frame(0x1234_5002), Err(FrameError::FrameNotPresent));
}

#[test]
fn entry_frame_of_huge_entry() {
    assert_eq!(entry_frame(0x20_0000 | PRESENT | HUGE_PAGE), Err(FrameError::HugeFrame));
}

#[test]
fn entry_frame_tests_presence_before_size() {
    assert_eq!(entry_frame(0x20_0000 | HUGE_PAGE), Err(FrameError::FrameNotPresent));
}

#[test]
fn image_returns_last_write() {
    let mut image = TableImage::new();
    assert_eq!(image.read_entry(frame(0x1000), 7), 0);
    image.set_entry(frame(0x1000), 7, 0xabc);
    image.set_entry(frame(0x1000), 8, 0xdef);
    image.set_entry(frame(0x2000), 7, 0x123);
    assert_eq!(image.read_entry(frame(0x1000), 7), 0xabc);
    image.set_entry(frame(0x1000), 7, 0x456);
    assert_eq!(image.read_entry(frame(0x1000), 7), 0x456);
    assert_eq!(image.read_entry(frame(0x1000), 8), 0xdef);
    assert_eq!(image.read_entry(frame(0x2000), 7), 0x123);
    assert_eq!(image.read_entry(frame(0x2000), 8), 0);
}

#[test]
fn translate_adds_page_offset_to_frame() {
    let image = four_levels();
    let addr = VirtAddr::new(MAPPED_PAGE + 0x123);
    let mapped = translate_addr(addr, &image, frame(0x1000)).expect("complete path");
    assert_eq!(mapped.as_u64(), 0x5123);
}

#[test]
fn translate_first_and_last_byte_of_page() {
    let image = four_levels();
    let first = translate_addr(VirtAddr::new(MAPPED_PAGE), &image, frame(0x1000));
    assert_eq!(first.map(PhysAddr::as_u64), Some(0x5000));
    let last = translate_addr(VirtAddr::new(MAPPED_PAGE + 0xfff), &image, frame(0x1000));
    assert_eq!(last.map(PhysAddr::as_u64), Some(0x5fff));
}

#[test]
fn translate_unmapped_at_each_level() {
    let image = four_levels();
    let root = frame(0x1000);
    // Level 4 entry missing.
    assert!(translate_addr(VirtAddr::new(2 << 39), &image, root).is_none());
    // Level 3 entry missing.
    assert!(translate_addr(VirtAddr::new((1 << 39) | (2 << 30)), &image, root).is_none());
    // Level 2 entry missing.
    let addr = VirtAddr::new((1 << 39) | (1 << 30) | (2 << 21));
    assert!(translate_addr(addr, &image, root).is_none());
    // Level 1 entry missing.
    let addr = VirtAddr::new((1 << 39) | (1 << 30) | (1 << 21) | (2 << 12));
    assert!(translate_addr(addr, &image, root).is_none());
}

#[test]
fn translate_in_empty_tables_is_unmapped() {
    let image = TableImage::new();
    assert!(translate_addr(VirtAddr::new(0), &image, frame(0x1000)).is_none());
    assert!(translate_addr(VirtAddr::new(0xffff_ffff_ffff_ffff), &image, frame(0x1000)).is_none());
}

#[test]
fn translate_upper_half_address() {
    let mut image = TableImage::new();
    image.set_entry(frame(0x1000), 511, 0x2000 | PRESENT);
    image.set_entry(frame(0x2000), 511, 0x3000 | PRESENT);
    image.set_entry(frame(0x3000), 511, 0x4000 | PRESENT);
    image.set_entry(frame(0x4000), 511, 0x000f_ffff_ffff_f000 | PRESENT);
    let mapped = translate_addr(VirtAddr::new(0xffff_ffff_ffff_fabc), &image, frame(0x1000));
    assert_eq!(mapped.map(PhysAddr::as_u64), Some(0x000f_ffff_ffff_fabc));
}

#[test]
fn translate_reports_huge_page() {
    let mut image = four_levels();
    image.set_entry(frame(0x3000), 1, 0x20_0000 | PRESENT | HUGE_PAGE);
    let found = translate(&image, frame(0x1000), VirtAddr::new(MAPPED_PAGE));
    assert_eq!(found, Translation::HugePage);
}

#[test]
fn translate_stops_at_absent_entry_above_huge_page() {
    let mut image = TableImage::new();
    image.set_entry(frame(0x2000), 1, 0x4000_0000 | PRESENT | HUGE_PAGE);
    let found = translate(&image, frame(0x1000), VirtAddr::new(MAPPED_PAGE));
    assert_eq!(found, Translation::Unmapped);
}

#[test]
fn translate_reports_mapped_address() {
    let image = four_levels();
    let found = translate(&image, frame(0x1000), VirtAddr::new(MAPPED_PAGE + 8));
    assert_eq!(found, Translation::Mapped(PhysAddr::new(0x5008)));
}

#[test]
fn example_mapping_targets_vga_buffer() {
    let page = Page::containing_address(VirtAddr::new(0xdead_beaf_000));
    let mapping = create_example_mapping(page);
    assert_eq!(mapping.page, page);
    assert_eq!(mapping.frame.start_address().as_u64(), 0xb8000);
    assert_eq!(mapping.flags, PRESENT | WRITABLE);
}

#[test]
fn example_mapping_translates_once_installed() {
    let page = Page::containing_address(VirtAddr::new(MAPPED_PAGE));
    let mapping = create_example_mapping(page);
    let mut image = four_levels();
    image.set_entry(frame(0x4000), 1, mapping.frame.start_address().as_u64() | mapping.flags);
    let mapped = translate_addr(VirtAddr::new(MAPPED_PAGE + 0x10), &image, frame(0x1000));
    assert_eq!(mapped.map(PhysAddr::as_u64), Some(0xb8010));
}
