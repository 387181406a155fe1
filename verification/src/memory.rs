//! Virtual and physical addresses, the four-level page-table walk, and the
//! allocation of physical frames from the firmware memory map.
//!
//! Addresses are validated and taken apart by the `x86_64` crate; the walk
//! itself reads table entries through [`PageTableMemory`], so it runs equally
//! over physical memory seen through an offset mapping and over an image of
//! tables built in ordinary memory.

pub mod frame_allocator;

pub use self::frame_allocator::{BootInfoFrameAllocator, EmptyFrameAllocator};
use vstd::prelude::*;
use x86_64::structures::paging;

verus! {

/// Size of a page and of a physical frame in bytes.
pub const PAGE_SIZE: u64 = 4096;

/// Number of entries in a page table of any level.
pub const ENTRY_COUNT: u16 = 512;

/// The least value that is too large for a physical address (52 bits).
pub const PHYS_ADDR_LIMIT: u64 = 0x0010_0000_0000_0000;

/// Entry flag: the entry refers to a frame or a table that is in memory.
pub const PRESENT: u64 = 1;

/// Entry flag: the mapped range may be written.
pub const WRITABLE: u64 = 2;

/// Entry flag: the entry maps a huge frame instead of a table.
pub const HUGE_PAGE: u64 = 0x80;

/// The bits of an entry that hold the physical address it refers to.
pub const ENTRY_ADDRESS_MASK: u64 = 0x000f_ffff_ffff_f000;

/// Whether the upper seventeen bits of `addr` are all equal, so that bits 48
/// to 63 repeat bit 47.
pub open spec fn is_canonical(addr: u64) -> bool {
    addr < 0x0000_8000_0000_0000 || addr >= 0xffff_8000_0000_0000
}

/// The canonical address that `addr` stands for: itself where it is canonical,
/// its sign extension where only bit 47 of the upper seventeen is set, and
/// nothing where the upper bits hold anything else.
pub open spec fn canonical_form_of(addr: u64) -> Option<u64> {
    if is_canonical(addr) {
        Some(addr)
    } else if addr < 0x0001_0000_0000_0000 {
        Some((addr + 0xffff_0000_0000_0000) as u64)
    } else {
        None
    }
}

/// The start of the 4 KiB block that holds `addr`.
pub open spec fn align_down_of(addr: u64) -> u64 {
    (addr - addr % 4096) as u64
}

/// Offset of `addr` within its page.
pub open spec fn page_offset_of(addr: u64) -> u16 {
    (addr % 4096) as u16
}

/// Index into the level 1 table: bits 12 to 20 of `addr`.
pub open spec fn p1_index_of(addr: u64) -> u16 {
    ((addr / 0x1000) % 512) as u16
}

/// Index into the level 2 table: bits 21 to 29 of `addr`.
pub open spec fn p2_index_of(addr: u64) -> u16 {
    ((addr / 0x20_0000) % 512) as u16
}

/// Index into the level 3 table: bits 30 to 38 of `addr`.
pub open spec fn p3_index_of(addr: u64) -> u16 {
    ((addr / 0x4000_0000) % 512) as u16
}

/// Index into the level 4 table: bits 39 to 47 of `addr`.
pub open spec fn p4_index_of(addr: u64) -> u16 {
    ((addr / 0x80_0000_0000) % 512) as u16
}

/// Index into the table of the given level, 4 down to 1.
pub open spec fn table_index_of(addr: u64, level: nat) -> u16 {
    if level == 4 {
        p4_index_of(addr)
    } else if level == 3 {
        p3_index_of(addr)
    } else if level == 2 {
        p2_index_of(addr)
    } else {
        p1_index_of(addr)
    }
}

/// The four table indices and the page offset make up the low 48 bits of an
/// address, and each index is below the number of entries of a table.
pub proof fn lemma_indices_make_up_address(addr: u64)
    ensures
        addr % 0x1_0000_0000_0000 == p4_index_of(addr) * 0x80_0000_0000 + p3_index_of(addr)
            * 0x4000_0000 + p2_index_of(addr) * 0x20_0000 + p1_index_of(addr) * 0x1000
            + page_offset_of(addr),
        forall|level: nat| #[trigger] table_index_of(addr, level) < ENTRY_COUNT,
        page_offset_of(addr) < PAGE_SIZE,
{
    assert(addr % 0x1_0000_0000_0000 == ((addr / 0x80_0000_0000) % 512) * 0x80_0000_0000 + ((addr
        / 0x4000_0000) % 512) * 0x4000_0000 + ((addr / 0x20_0000) % 512) * 0x20_0000 + ((addr
        / 0x1000) % 512) * 0x1000 + addr % 4096) by (bit_vector);
}

/// `x86_64::VirtAddr::try_new`, on plain integers. The crate accepts an
/// address whose bits 47 to 63 are all zero or all one as it is, sign-extends
/// one in which of these only bit 47 is set, and rejects every other.
#[verifier::external_body]
fn canonical_form(addr: u64) -> (form: Option<u64>)
    ensures
        form == canonical_form_of(addr),
{
    match x86_64::VirtAddr::try_new(addr) {
        Ok(canonical) => Some(canonical.as_u64()),
        Err(_) => None,
    }
}

/// `x86_64::VirtAddr::page_offset`: the low twelve bits of the address.
#[verifier::external_body]
fn page_offset_bits(addr: u64) -> (offset: u16)
    requires
        is_canonical(addr),
    ensures
        offset == page_offset_of(addr),
{
    u16::from(x86_64::VirtAddr::new(addr).page_offset())
}

/// `x86_64::VirtAddr::p1_index`: the address shifted right by 12, reduced
/// modulo 512.
#[verifier::external_body]
fn p1_index_bits(addr: u64) -> (index: u16)
    requires
        is_canonical(addr),
    ensures
        index == p1_index_of(addr),
{
    u16::from(x86_64::VirtAddr::new(addr).p1_index())
}

/// `x86_64::VirtAddr::p2_index`: the address shifted right by 21, reduced
/// modulo 512.
#[verifier::external_body]
fn p2_index_bits(addr: u64) -> (index: u16)
    requires
        is_canonical(addr),
    ensures
        index == p2_index_of(addr),
{
    u16::from(x86_64::VirtAddr::new(addr).p2_index())
}

/// `x86_64::VirtAddr::p3_index`: the address shifted right by 30, reduced
/// modulo 512.
#[verifier::external_body]
fn p3_index_bits(addr: u64) -> (index: u16)
    requires
        is_canonical(addr),
    ensures
        index == p3_index_of(addr),
{
    u16::from(x86_64::VirtAddr::new(addr).p3_index())
}

/// `x86_64::VirtAddr::p4_index`: the address shifted right by 39, reduced
/// modulo 512.
#[verifier::external_body]
fn p4_index_bits(addr: u64) -> (index: u16)
    requires
        is_canonical(addr),
    ensures
        index == p4_index_of(addr),
{
    u16::from(x86_64::VirtAddr::new(addr).p4_index())
}

/// `x86_64::structures::paging::Page::containing_address` for 4 KiB pages:
/// the address with its low twelve bits cleared.
#[verifier::external_body]
fn page_start_bits(addr: u64) -> (start: u64)
    requires
        is_canonical(addr),
    ensures
        start == align_down_of(addr),
{
    paging::Page::<paging::Size4KiB>::containing_address(x86_64::VirtAddr::new(addr))
        .start_address()
        .as_u64()
}

/// `x86_64::structures::paging::PhysFrame::containing_address` for 4 KiB
/// frames: the address with its low twelve bits cleared. `x86_64::PhysAddr::new`
/// panics on an address of more than 52 bits.
#[verifier::external_body]
fn frame_start_bits(addr: u64) -> (start: u64)
    requires
        addr < PHYS_ADDR_LIMIT,
    ensures
        start == align_down_of(addr),
{
    paging::PhysFrame::<paging::Size4KiB>::containing_address(x86_64::PhysAddr::new(addr))
        .start_address()
        .as_u64()
}

/// A canonical 64-bit virtual address.
#[derive(Clone, Copy, Debug, PartialEq, Eq, Structural)]
pub struct VirtAddr {
    value: u64,
}

impl View for VirtAddr {
    type V = u64;

    closed spec fn view(&self) -> u64 {
        self.value
    }
}

/// The integer of an optional virtual address.
pub open spec fn virtual_address_of(made: Option<VirtAddr>) -> Option<u64> {
    match made {
        Some(address) => Some(address@),
        None => None,
    }
}

impl VirtAddr {
    #[verifier::type_invariant]
    spec fn canonical(self) -> bool {
        is_canonical(self.value)
    }

    /// The address that `addr` stands for, or `None` where bits 48 to 63 hold
    /// data of their own.
    pub fn try_new(addr: u64) -> (made: Option<VirtAddr>)
        ensures
            virtual_address_of(made) == canonical_form_of(addr),
    {
        match canonical_form(addr) {
            Some(value) => Some(VirtAddr { value }),
            None => None,
        }
    }

    /// The address that `addr` stands for.
    pub fn new(addr: u64) -> (made: VirtAddr)
        requires
            canonical_form_of(addr) is Some,
        ensures
            Some(made@) == canonical_form_of(addr),
    {
        Self::try_new(addr).unwrap()
    }

    /// The address as an integer.
    pub fn as_u64(self) -> (value: u64)
        ensures
            value == self@,
            is_canonical(value),
    {
        proof {
            use_type_invariant(&self);
        }
        self.value
    }

    /// The offset within the page, below 4096.
    pub fn page_offset(self) -> (offset: u16)
        ensures
            offset == page_offset_of(self@),
            offset < PAGE_SIZE,
    {
        proof {
            use_type_invariant(&self);
        }
        page_offset_bits(self.value)
    }

    /// The index into the level 1 table.
    pub fn p1_index(self) -> (index: u16)
        ensures
            index == p1_index_of(self@),
            index < ENTRY_COUNT,
    {
        proof {
            use_type_invariant(&self);
        }
        p1_index_bits(self.value)
    }

    /// The index into the level 2 table.
    pub fn p2_index(self) -> (index: u16)
        ensures
            index == p2_index_of(self@),
            index < ENTRY_COUNT,
    {
        proof {
            use_type_invariant(&self);
        }
        p2_index_bits(self.value)
    }

    /// The index into the level 3 table.
    pub fn p3_index(self) -> (index: u16)
        ensures
            index == p3_index_of(self@),
            index < ENTRY_COUNT,
    {
        proof {
            use_type_invariant(&self);
        }
        p3_index_bits(self.value)
    }

    /// The index into the level 4 table.
    pub fn p4_index(self) -> (index: u16)
        ensures
            index == p4_index_of(self@),
            index < ENTRY_COUNT,
    {
        proof {
            use_type_invariant(&self);
        }
        p4_index_bits(self.value)
    }
}

/// Where all of physical memory is mapped at the virtual address
/// `physical_memory_offset`, the virtual address at which the byte at the
/// physical address `address` is seen: their sum in canonical form, or
/// nothing where the sum leaves the address space.
pub open spec fn offset_mapped_of(physical_memory_offset: u64, address: u64) -> Option<u64> {
    if physical_memory_offset + address > u64::MAX {
        None
    } else {
        canonical_form_of((physical_memory_offset + address) as u64)
    }
}

/// A physical address: an integer of at most 52 bits.
#[derive(Clone, Copy, Debug, PartialEq, Eq, Structural)]
pub struct PhysAddr {
    value: u64,
}

impl View for PhysAddr {
    type V = u64;

    closed spec fn view(&self) -> u64 {
        self.value
    }
}

/// The integer of an optional physical address.
pub open spec fn physical_address_of(mapped: Option<PhysAddr>) -> Option<u64> {
    match mapped {
        Some(address) => Some(address@),
        None => None,
    }
}

impl PhysAddr {
    #[verifier::type_invariant]
    spec fn in_range(self) -> bool {
        self.value < PHYS_ADDR_LIMIT
    }

    /// The physical address `addr`, or `None` where a bit from 52 up is set.
    pub fn try_new(addr: u64) -> (made: Option<PhysAddr>)
        ensures
            physical_address_of(made) == if addr < PHYS_ADDR_LIMIT {
                Some(addr)
            } else {
                None
            },
    {
        if addr < PHYS_ADDR_LIMIT {
            Some(PhysAddr { value: addr })
        } else {
            None
        }
    }

    /// The physical address `addr`.
    pub fn new(addr: u64) -> (made: PhysAddr)
        requires
            addr < PHYS_ADDR_LIMIT,
        ensures
            made@ == addr,
    {
        PhysAddr { value: addr }
    }

    /// The address as an integer.
    pub fn as_u64(self) -> (value: u64)
        ensures
            value == self@,
            value < PHYS_ADDR_LIMIT,
    {
        proof {
            use_type_invariant(&self);
        }
        self.value
    }
}

/// The virtual address at which the byte at the physical address `address` is
/// seen, where all of physical memory is mapped at `physical_memory_offset`.
/// A page table in the frame at `address` is read there, with no mapping of
/// its own. Returns `None` where the offset does not reach `address`.
pub fn offset_mapped(physical_memory_offset: VirtAddr, address: PhysAddr) -> (mapped: Option<
    VirtAddr,
>)
    ensures
        virtual_address_of(mapped) == offset_mapped_of(physical_memory_offset@, address@),
{
    let offset = physical_memory_offset.as_u64();
    let physical = address.as_u64();
    if offset > u64::MAX - physical {
        None
    } else {
        VirtAddr::try_new(offset + physical)
    }
}

/// A 4 KiB frame of physical memory, known by the address of its first byte.
#[derive(Clone, Copy, Debug, PartialEq, Eq, Structural)]
pub struct PhysFrame {
    start: u64,
}

impl View for PhysFrame {
    type V = u64;

    closed spec fn view(&self) -> u64 {
        self.start
    }
}

/// Whether `start` can be the first byte of a frame: a multiple of the page size
/// that is a physical address.
pub open spec fn is_frame_start(start: u64) -> bool {
    start % 4096 == 0 && start < PHYS_ADDR_LIMIT
}

impl PhysFrame {
    #[verifier::type_invariant]
    spec fn aligned(self) -> bool {
        is_frame_start(self.start)
    }

    /// The frame that holds `address`.
    pub fn containing_address(address: PhysAddr) -> (frame: PhysFrame)
        ensures
            frame@ == align_down_of(address@),
            is_frame_start(frame@),
    {
        let start = frame_start_bits(address.as_u64());
        PhysFrame { start }
    }

    /// The frame that starts at `address`, or `None` where `address` is not a
    /// multiple of the page size.
    pub fn from_start_address(address: PhysAddr) -> (made: Option<PhysFrame>)
        ensures
            made is Some == (address@ % 4096 == 0),
            made matches Some(frame) ==> frame@ == address@,
    {
        let start = address.as_u64();
        if start % PAGE_SIZE == 0 {
            Some(PhysFrame { start })
        } else {
            None
        }
    }

    /// The address of the frame's first byte.
    pub fn start_address(self) -> (address: PhysAddr)
        ensures
            address@ == self@,
            is_frame_start(address@),
    {
        proof {
            use_type_invariant(&self);
        }
        PhysAddr { value: self.start }
    }
}

/// A 4 KiB page of virtual memory, known by the address of its first byte.
#[derive(Clone, Copy, Debug, PartialEq, Eq, Structural)]
pub struct Page {
    start: u64,
}

impl View for Page {
    type V = u64;

    closed spec fn view(&self) -> u64 {
        self.start
    }
}

impl Page {
    #[verifier::type_invariant]
    spec fn aligned(self) -> bool {
        is_canonical(self.start) && self.start % 4096 == 0
    }

    /// The page that holds `address`.
    pub fn containing_address(address: VirtAddr) -> (page: Page)
        ensures
            page@ == align_down_of(address@),
    {
        let start = page_start_bits(address.as_u64());
        Page { start }
    }

    /// The address of the page's first byte.
    pub fn start_address(self) -> (address: VirtAddr)
        ensures
            address@ == self@,
            address@ % 4096 == 0,
    {
        proof {
            use_type_invariant(&self);
        }
        VirtAddr { value: self.start }
    }
}

/// Why a page-table entry names no 4 KiB frame.
#[derive(Clone, Copy, Debug, PartialEq, Eq, Structural)]
pub enum FrameError {
    /// The entry's `PRESENT` flag is clear.
    FrameNotPresent,
    /// The entry's `HUGE_PAGE` flag is set.
    HugeFrame,
}

/// The start of the frame that the raw entry `raw` refers to: its address bits
/// where it is present and not huge.
pub open spec fn entry_frame_of(raw: u64) -> Result<u64, FrameError> {
    if raw & PRESENT == 0 {
        Err(FrameError::FrameNotPresent)
    } else if raw & HUGE_PAGE != 0 {
        Err(FrameError::HugeFrame)
    } else {
        Ok(raw & ENTRY_ADDRESS_MASK)
    }
}

/// `x86_64::structures::paging::page_table::PageTableEntry::frame`, on an
/// entry with the bits of `raw`. The crate tests the `PRESENT` flag (bit 0),
/// then the `HUGE_PAGE` flag (bit 7), and otherwise returns the frame at the
/// entry's address bits (12 to 51).
///
/// The entry is put together from its two parts, since the crate takes no raw
/// entry: `set_addr` joins bits 12 to 51 of `raw`, as an aligned physical
/// address, with the flags that `from_bits_truncate` keeps, which are all the
/// other bits.
#[verifier::external_body]
fn entry_frame_bits(raw: u64) -> (target: Result<u64, FrameError>)
    ensures
        target == entry_frame_of(raw),
{
    let mut entry = paging::page_table::PageTableEntry::new();
    let address = x86_64::PhysAddr::new_truncate(raw)
        .align_down(<paging::Size4KiB as paging::PageSize>::SIZE);
    entry.set_addr(address, paging::PageTableFlags::from_bits_truncate(raw));
    match entry.frame() {
        Ok(frame) => Ok(frame.start_address().as_u64()),
        Err(paging::page_table::FrameError::FrameNotPresent) => Err(FrameError::FrameNotPresent),
        Err(paging::page_table::FrameError::HugeFrame) => Err(FrameError::HugeFrame),
    }
}

/// The address bits of an entry are the start of a frame.
pub proof fn lemma_entry_address_is_frame_start(raw: u64)
    ensures
        is_frame_start(raw & ENTRY_ADDRESS_MASK),
{
    assert((raw & 0x000f_ffff_ffff_f000) % 4096 == 0) by (bit_vector);
    assert((raw & 0x000f_ffff_ffff_f000) < 0x0010_0000_0000_0000) by (bit_vector);
}

/// The frame that a raw page-table entry refers to.
pub fn entry_frame(raw: u64) -> (target: Result<PhysFrame, FrameError>)
    ensures
        target is Ok == entry_frame_of(raw) is Ok,
        target matches Ok(frame) ==> Ok::<u64, FrameError>(frame@) == entry_frame_of(raw),
        target matches Err(error) ==> Err::<u64, FrameError>(error) == entry_frame_of(raw),
{
    match entry_frame_bits(raw) {
        Ok(start) => {
            proof {
                lemma_entry_address_is_frame_start(raw);
            }
            Ok(PhysFrame { start })
        },
        Err(error) => Err(error),
    }
}

/// Read access to the page tables of an address space.
///
/// A table is known by the frame that holds it. Physical memory seen through
/// an offset mapping is one implementation; [`TableImage`] is another.
pub trait PageTableMemory {
    /// The raw entry `index` of the table that starts at `table`.
    spec fn entry(&self, table: u64, index: u16) -> u64;

    /// Reads entry `index` of the table in `table`.
    fn read_entry(&self, table: PhysFrame, index: u16) -> (raw: u64)
        requires
            index < ENTRY_COUNT,
        ensures
            raw == self.entry(table@, index),
    ;
}

/// One entry written into a [`TableImage`].
#[derive(Clone, Copy, Debug)]
pub struct ImageEntry {
    table: u64,
    index: u16,
    raw: u64,
}

/// The raw entry that the writes in `entries` leave at `index` of the table at
/// `table`: that of the last write there, or zero where there was none.
pub closed spec fn image_lookup(entries: Seq<ImageEntry>, table: u64, index: u16) -> u64
    decreases entries.len(),
{
    if entries.len() == 0 {
        0
    } else if entries.last().table == table && entries.last().index == index {
        entries.last().raw
    } else {
        image_lookup(entries.drop_last(), table, index)
    }
}

/// Page tables held in ordinary memory: every entry is zero, and so not
/// present, until it is written.
#[derive(Debug)]
pub struct TableImage {
    entries: Vec<ImageEntry>,
}

impl TableImage {
    /// An image in which no entry is present.
    pub fn new() -> (image: TableImage)
        ensures
            forall|table: u64, index: u16| #[trigger] image.entry(table, index) == 0,
    {
        TableImage { entries: Vec::new() }
    }

    /// Writes `raw` to entry `index` of the table in `table`.
    pub fn set_entry(&mut self, table: PhysFrame, index: u16, raw: u64)
        requires
            index < ENTRY_COUNT,
        ensures
            final(self).entry(table@, index) == raw,
            forall|other: u64, at: u16|
                other != table@ || at != index ==> #[trigger] final(self).entry(other, at) == old(
                    self,
                ).entry(other, at),
    {
        let ghost before = self.entries@;
        let entry = ImageEntry { table: table.start_address().as_u64(), index, raw };
        self.entries.push(entry);
        proof {
            assert(self.entries@.drop_last() =~= before);
        }
    }
}

impl PageTableMemory for TableImage {
    closed spec fn entry(&self, table: u64, index: u16) -> u64 {
        image_lookup(self.entries@, table, index)
    }

    fn read_entry(&self, table: PhysFrame, index: u16) -> (raw: u64) {
        let start = table.start_address().as_u64();
        let mut remaining = self.entries.len();
        proof {
            assert(self.entries@.take(remaining as int) =~= self.entries@);
        }
        while remaining > 0
            invariant
                remaining <= self.entries.len(),
                start == table@,
                image_lookup(self.entries@, start, index) == image_lookup(
                    self.entries@.take(remaining as int),
                    start,
                    index,
                ),
            decreases remaining,
        {
            remaining -= 1;
            let entry = self.entries[remaining];
            proof {
                let seen = self.entries@.take(remaining + 1);
                assert(seen.last() == entry);
                assert(seen.drop_last() =~= self.entries@.take(remaining as int));
            }
            if entry.table == start && entry.index == index {
                return entry.raw;
            }
        }
        0
    }
}

/// Result of walking the page tables for one address.
#[derive(Clone, Copy, Debug, PartialEq, Eq, Structural)]
pub enum Translation {
    /// Every level had a present entry; the address maps to this one.
    Mapped(PhysAddr),
    /// The walk met an entry that is not present.
    Unmapped,
    /// The walk met an entry that maps a huge frame.
    HugePage,
}

/// Result of walking the page tables for one address, over plain integers.
pub enum Walk {
    Mapped(u64),
    Unmapped,
    HugePage,
}

impl View for Translation {
    type V = Walk;

    open spec fn view(&self) -> Walk {
        match *self {
            Translation::Mapped(address) => Walk::Mapped(address@),
            Translation::Unmapped => Walk::Unmapped,
            Translation::HugePage => Walk::HugePage,
        }
    }
}

/// The walk for `addr` that has `levels` tables still to read, the next of
/// them at `table`. With no table left, `table` is the frame that the address
/// lies in.
pub open spec fn walk_from<M: PageTableMemory>(mem: &M, table: u64, addr: u64, levels: nat) -> Walk
    decreases levels,
{
    if levels == 0 {
        Walk::Mapped((table + page_offset_of(addr)) as u64)
    } else {
        match entry_frame_of(mem.entry(table, table_index_of(addr, levels))) {
            Ok(next) => walk_from(mem, next, addr, (levels - 1) as nat),
            Err(FrameError::FrameNotPresent) => Walk::Unmapped,
            Err(FrameError::HugeFrame) => Walk::HugePage,
        }
    }
}

/// The walk for `addr` through all four levels, from the level 4 table at `root`.
pub open spec fn walk<M: PageTableMemory>(mem: &M, root: u64, addr: u64) -> Walk {
    walk_from(mem, root, addr, 4)
}

/// Whether every remaining level holds a present entry that is not huge.
pub open spec fn has_complete_path<M: PageTableMemory>(
    mem: &M,
    table: u64,
    addr: u64,
    levels: nat,
) -> bool
    decreases levels,
{
    levels == 0 || match entry_frame_of(mem.entry(table, table_index_of(addr, levels))) {
        Ok(next) => has_complete_path(mem, next, addr, (levels - 1) as nat),
        Err(_) => false,
    }
}

/// The frame at the end of a complete path.
pub open spec fn terminal_frame<M: PageTableMemory>(
    mem: &M,
    table: u64,
    addr: u64,
    levels: nat,
) -> u64
    decreases levels,
{
    if levels == 0 {
        table
    } else {
        match entry_frame_of(mem.entry(table, table_index_of(addr, levels))) {
            Ok(next) => terminal_frame(mem, next, addr, (levels - 1) as nat),
            Err(_) => table,
        }
    }
}

/// A walk ends in a physical address exactly when the path is complete, and
/// the address is then the terminal frame's start plus the page offset.
pub proof fn lemma_walk_follows_path<M: PageTableMemory>(
    mem: &M,
    table: u64,
    addr: u64,
    levels: nat,
)
    ensures
        has_complete_path(mem, table, addr, levels) ==> walk_from(mem, table, addr, levels)
            == Walk::Mapped(
            (terminal_frame(mem, table, addr, levels) + page_offset_of(addr)) as u64,
        ),
        !has_complete_path(mem, table, addr, levels) ==> !(walk_from(mem, table, addr, levels)
            is Mapped),
    decreases levels,
{
    if levels > 0 {
        match entry_frame_of(mem.entry(table, table_index_of(addr, levels))) {
            Ok(next) => lemma_walk_follows_path(mem, next, addr, (levels - 1) as nat),
            Err(_) => {},
        }
    }
}

/// Walks the four levels of page tables for `addr`, starting at the level 4
/// table in `level_4_table_frame`.
pub fn translate<M: PageTableMemory>(
    mem: &M,
    level_4_table_frame: PhysFrame,
    addr: VirtAddr,
) -> (found: Translation)
    ensures
        found@ == walk(mem, level_4_table_frame@, addr@),
{
    let table_indexes = [addr.p4_index(), addr.p3_index(), addr.p2_index(), addr.p1_index()];
    let mut frame = level_4_table_frame;
    let mut level: usize = 0;
    while level < 4
        invariant
            level <= 4,
            table_indexes@.len() == 4,
            forall|k: int|
                0 <= k < 4 ==> #[trigger] table_indexes@[k] == table_index_of(
                    addr@,
                    (4 - k) as nat,
                ),
            walk_from(mem, frame@, addr@, (4 - level) as nat) == walk(
                mem,
                level_4_table_frame@,
                addr@,
            ),
        decreases 4 - level,
    {
        let index = table_indexes[level];
        let raw = mem.read_entry(frame, index);
        match entry_frame(raw) {
            Ok(next) => {
                frame = next;
            },
            Err(FrameError::FrameNotPresent) => {
                return Translation::Unmapped;
            },
            Err(FrameError::HugeFrame) => {
                return Translation::HugePage;
            },
        }
        level += 1;
    }
    let start = frame.start_address().as_u64();
    let offset = addr.page_offset();
    Translation::Mapped(PhysAddr { value: start + offset as u64 })
}

/// Translates `addr` to the physical address it is mapped to, or returns
/// `None` where the walk from the level 4 table in `level_4_table_frame`
/// meets an entry that is not present.
///
/// Huge pages are not supported: the walk must not meet one.
pub fn translate_addr<M: PageTableMemory>(
    addr: VirtAddr,
    mem: &M,
    level_4_table_frame: PhysFrame,
) -> (mapped: Option<PhysAddr>)
    requires
        !(walk(mem, level_4_table_frame@, addr@) is HugePage),
    ensures
        physical_address_of(mapped) == match walk(mem, level_4_table_frame@, addr@) {
            Walk::Mapped(address) => Some(address),
            _ => None,
        },
        has_complete_path(mem, level_4_table_frame@, addr@, 4) ==> physical_address_of(mapped)
            == Some(
            (terminal_frame(mem, level_4_table_frame@, addr@, 4) + page_offset_of(addr@)) as u64,
        ),
        !has_complete_path(mem, level_4_table_frame@, addr@, 4) ==> mapped is None,
{
    proof {
        lemma_walk_follows_path(mem, level_4_table_frame@, addr@, 4);
    }
    match translate(mem, level_4_table_frame, addr) {
        Translation::Mapped(address) => Some(address),
        _ => None,
    }
}

/// Start of the frame that holds the text buffer of the VGA display.
pub const VGA_BUFFER_START: u64 = 0xb8000;

/// A request to map one page to one frame.
#[derive(Clone, Copy, Debug, PartialEq, Eq, Structural)]
pub struct Mapping {
    /// The page to map.
    pub page: Page,
    /// The frame that the page is to refer to.
    pub frame: PhysFrame,
    /// The flags of the page's entry in the level 1 table.
    pub flags: u64,
}

/// The example mapping of `page`: to the frame of the VGA text buffer, present
/// and writable. The caller installs it; a page that cannot be mapped leaves
/// the caller nothing to fall back on.
pub fn create_example_mapping(page: Page) -> (mapping: Mapping)
    ensures
        mapping.page == page,
        mapping.frame@ == VGA_BUFFER_START,
        mapping.flags == 3,
        entry_frame_of((mapping.frame@ | mapping.flags) as u64) == Ok::<u64, FrameError>(
            VGA_BUFFER_START,
        ),
{
    let frame = PhysFrame::containing_address(PhysAddr::new(VGA_BUFFER_START));
    let flags = PRESENT | WRITABLE;
    assert(1u64 | 2u64 == 3u64) by (bit_vector);
    assert((0xb8000u64 | 3u64) & 1 != 0 && (0xb8000u64 | 3u64) & 0x80 == 0 && (0xb8000u64 | 3u64)
        & 0x000f_ffff_ffff_f000 == 0xb8000u64) by (bit_vector);
    Mapping { page, frame, flags }
}

} // verus!
