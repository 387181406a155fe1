//! Allocation of physical frames from the memory map that the boot loader
//! hands over.

use crate::memory::{PhysAddr, PhysFrame, PAGE_SIZE};
use vstd::prelude::*;

verus! {

#[verifier::external_type_specification]
#[verifier::external_body]
pub struct ExMemoryMap(bootloader::bootinfo::MemoryMap);

#[verifier::external_type_specification]
#[verifier::external_body]
pub struct ExMemoryRegion(bootloader::bootinfo::MemoryRegion);

/// The least frame number whose frame lies beyond the physical address space.
pub const FRAME_NUMBER_LIMIT: u64 = 0x0000_0100_0000_0000;

/// The regions of a memory map in the order in which the map stores them, each
/// as the number of its first frame, the number of the frame after its last,
/// and whether the region is marked usable.
pub uninterp spec fn memory_map_regions(map: bootloader::bootinfo::MemoryMap) -> Seq<
    (u64, u64, bool),
>;

/// The length of the slice that `bootloader::bootinfo::MemoryMap` dereferences
/// to: the regions added so far.
#[verifier::external_body]
fn region_count(map: &bootloader::bootinfo::MemoryMap) -> (count: usize)
    ensures
        count == memory_map_regions(*map).len(),
{
    map.len()
}

/// One element of the slice that `bootloader::bootinfo::MemoryMap` dereferences
/// to: the two frame numbers of its `range`, and whether its `region_type` is
/// `MemoryRegionType::Usable`.
#[verifier::external_body]
fn region_at(map: &bootloader::bootinfo::MemoryMap, index: usize) -> (region: (u64, u64, bool))
    requires
        index < memory_map_regions(*map).len(),
    ensures
        region == memory_map_regions(*map)[index as int],
{
    let region = &map[index];
    let usable = match region.region_type {
        bootloader::bootinfo::MemoryRegionType::Usable => true,
        _ => false,
    };
    (region.range.start_frame_number, region.range.end_frame_number, usable)
}

/// Number of frames that a region contributes: its length where it is usable,
/// zero otherwise.
pub open spec fn frame_count(region: (u64, u64, bool)) -> nat {
    if region.2 && region.0 < region.1 {
        (region.1 - region.0) as nat
    } else {
        0
    }
}

/// Start addresses of the frames that a region contributes, ascending.
pub open spec fn region_frames(region: (u64, u64, bool)) -> Seq<int> {
    Seq::new(frame_count(region), |i: int| (region.0 + i) * 4096)
}

/// Start addresses of all usable frames: those of each usable region, in the
/// order of the regions.
pub open spec fn usable_frames(regions: Seq<(u64, u64, bool)>) -> Seq<int>
    decreases regions.len(),
{
    if regions.len() == 0 {
        Seq::empty()
    } else {
        usable_frames(regions.drop_last()) + region_frames(regions.last())
    }
}

/// Whether every frame of every usable region lies in the physical address
/// space.
pub open spec fn addressable(regions: Seq<(u64, u64, bool)>) -> bool {
    forall|r: int|
        0 <= r < regions.len() && frame_count(#[trigger] regions[r]) > 0 ==> regions[r].1
            <= FRAME_NUMBER_LIMIT
}

/// Whether no two usable regions share a frame.
pub open spec fn usable_regions_disjoint(regions: Seq<(u64, u64, bool)>) -> bool {
    forall|a: int, b: int|
        0 <= a < b < regions.len() && frame_count(#[trigger] regions[a]) > 0 && frame_count(
            #[trigger] regions[b],
        ) > 0 ==> regions[a].1 <= regions[b].0 || regions[b].1 <= regions[a].0
}

/// Whether `frame` is the start of a frame of some usable region.
pub open spec fn in_usable_region(regions: Seq<(u64, u64, bool)>, frame: int) -> bool {
    exists|r: int|
        0 <= r < regions.len() && (#[trigger] regions[r]).2 && regions[r].0 * 4096 <= frame
            < regions[r].1 * 4096 && frame % 4096 == 0
}

/// The frames of the first `count + 1` regions are those of the first `count`
/// followed by those of region `count`.
pub proof fn lemma_usable_frames_step(regions: Seq<(u64, u64, bool)>, count: int)
    requires
        0 <= count < regions.len(),
    ensures
        usable_frames(regions.take(count + 1)) == usable_frames(regions.take(count))
            + region_frames(regions[count]),
{
    assert(regions.take(count + 1).drop_last() =~= regions.take(count));
}

/// The frames of the first `count` regions open the sequence of all frames.
pub proof fn lemma_usable_frames_prefix(regions: Seq<(u64, u64, bool)>, count: int)
    requires
        0 <= count <= regions.len(),
    ensures
        usable_frames(regions.take(count)).len() <= usable_frames(regions).len(),
        forall|k: int|
            0 <= k < usable_frames(regions.take(count)).len() ==> usable_frames(regions)[k]
                == #[trigger] usable_frames(regions.take(count))[k],
    decreases regions.len(),
{
    if count == regions.len() {
        assert(regions.take(count) =~= regions);
    } else {
        assert(regions.drop_last().take(count) =~= regions.take(count));
        lemma_usable_frames_prefix(regions.drop_last(), count);
    }
}

/// Every usable frame is page-aligned and lies in a region marked usable.
pub proof fn lemma_frames_lie_in_usable_regions(regions: Seq<(u64, u64, bool)>, k: int)
    requires
        0 <= k < usable_frames(regions).len(),
    ensures
        in_usable_region(regions, usable_frames(regions)[k]),
    decreases regions.len(),
{
    let rest = regions.drop_last();
    let before = usable_frames(rest).len();
    if k < before {
        lemma_frames_lie_in_usable_regions(rest, k);
        let r = choose|r: int|
            0 <= r < rest.len() && (#[trigger] rest[r]).2 && rest[r].0 * 4096 <= usable_frames(
                rest,
            )[k] < rest[r].1 * 4096 && usable_frames(rest)[k] % 4096 == 0;
        assert(regions[r] == rest[r]);
    } else {
        let r = regions.len() - 1;
        assert(usable_frames(regions)[k] == (regions[r].0 + (k - before)) * 4096);
        assert(regions[r].2);
    }
}

/// Where no two usable regions overlap, no frame occurs twice among the usable
/// frames.
pub proof fn lemma_frames_distinct(regions: Seq<(u64, u64, bool)>, j: int, k: int)
    requires
        usable_regions_disjoint(regions),
        0 <= j < k < usable_frames(regions).len(),
    ensures
        usable_frames(regions)[j] != usable_frames(regions)[k],
    decreases regions.len(),
{
    let rest = regions.drop_last();
    let last = regions.len() - 1;
    let before = usable_frames(rest).len();
    assert(usable_regions_disjoint(rest)) by {
        assert forall|a: int, b: int|
            0 <= a < b < rest.len() && frame_count(#[trigger] rest[a]) > 0 && frame_count(
                #[trigger] rest[b],
            ) > 0 implies rest[a].1 <= rest[b].0 || rest[b].1 <= rest[a].0 by {
            assert(regions[a] == rest[a] && regions[b] == rest[b]);
        }
    }
    if k < before {
        lemma_frames_distinct(rest, j, k);
    } else if j < before {
        lemma_frames_lie_in_usable_regions(rest, j);
        let r = choose|r: int|
            0 <= r < rest.len() && (#[trigger] rest[r]).2 && rest[r].0 * 4096 <= usable_frames(
                rest,
            )[j] < rest[r].1 * 4096 && usable_frames(rest)[j] % 4096 == 0;
        assert(regions[r] == rest[r]);
        assert(frame_count(regions[r]) > 0);
        assert(frame_count(regions[last]) > 0);
        assert(usable_frames(regions)[k] == (regions[last].0 + (k - before)) * 4096);
    } else {
        assert(usable_frames(regions)[j] == (regions[last].0 + (j - before)) * 4096);
        assert(usable_frames(regions)[k] == (regions[last].0 + (k - before)) * 4096);
    }
}

/// A frame allocator that has no frames to give.
#[derive(Debug)]
pub struct EmptyFrameAllocator;

impl EmptyFrameAllocator {
    /// Reports exhaustion.
    pub fn allocate_frame(&mut self) -> (frame: Option<PhysFrame>)
        ensures
            frame is None,
    {
        None
    }
}

/// The integer of an optional frame's start address.
pub open spec fn frame_start_of(frame: Option<PhysFrame>) -> Option<int> {
    match frame {
        Some(frame) => Some(frame@ as int),
        None => None,
    }
}

/// The usable frame at `position`, if there are that many.
pub open spec fn usable_frame_at(regions: Seq<(u64, u64, bool)>, position: nat) -> Option<int> {
    if position < usable_frames(regions).len() {
        Some(usable_frames(regions)[position as int])
    } else {
        None
    }
}

/// A frame allocator that hands out the usable frames of the boot loader's
/// memory map, each once, in the order of the map.
pub struct BootInfoFrameAllocator {
    memory_map: &'static bootloader::bootinfo::MemoryMap,
    next: usize,
}

impl BootInfoFrameAllocator {
    #[verifier::type_invariant]
    spec fn map_addressable(self) -> bool {
        addressable(memory_map_regions(*self.memory_map))
    }

    /// The regions of the memory map that the allocator draws from.
    pub closed spec fn regions(self) -> Seq<(u64, u64, bool)> {
        memory_map_regions(*self.memory_map)
    }

    /// The cursor: the number of allocation requests served so far.
    pub closed spec fn cursor(self) -> nat {
        self.next as nat
    }

    /// An allocator over `memory_map` with its cursor at the first usable frame.
    ///
    /// The frames marked usable in the map must really be unused.
    pub fn init(memory_map: &'static bootloader::bootinfo::MemoryMap) -> (allocator: Self)
        requires
            addressable(memory_map_regions(*memory_map)),
        ensures
            allocator.regions() == memory_map_regions(*memory_map),
            allocator.cursor() == 0,
    {
        BootInfoFrameAllocator { memory_map, next: 0 }
    }

    /// An allocator over `memory_map`, or `None` where a usable region of the
    /// map reaches beyond the physical address space.
    pub fn try_init(memory_map: &'static bootloader::bootinfo::MemoryMap) -> (made: Option<Self>)
        ensures
            made is Some == addressable(memory_map_regions(*memory_map)),
            made matches Some(allocator) ==> allocator.regions() == memory_map_regions(*memory_map)
                && allocator.cursor() == 0,
    {
        let ghost regions = memory_map_regions(*memory_map);
        let count = region_count(memory_map);
        let mut index: usize = 0;
        while index < count
            invariant
                index <= count,
                count == regions.len(),
                regions == memory_map_regions(*memory_map),
                forall|r: int|
                    0 <= r < index && frame_count(#[trigger] regions[r]) > 0 ==> regions[r].1
                        <= FRAME_NUMBER_LIMIT,
            decreases count - index,
        {
            let (start, end, usable) = region_at(memory_map, index);
            if usable && start < end && end > FRAME_NUMBER_LIMIT {
                return None;
            }
            index += 1;
        }
        Some(Self::init(memory_map))
    }

    /// The number of allocation requests served so far.
    pub fn allocated(&self) -> (count: usize)
        ensures
            count == self.cursor(),
    {
        self.next
    }

    /// The usable frame at `position` in the order of the memory map.
    fn usable_frame(&self, position: usize) -> (frame: Option<PhysFrame>)
        ensures
            frame_start_of(frame) == usable_frame_at(self.regions(), position as nat),
    {
        proof {
            use_type_invariant(self);
        }
        let ghost regions = memory_map_regions(*self.memory_map);
        let count = region_count(self.memory_map);
        let mut remaining: usize = position;
        let mut index: usize = 0;
        proof {
            assert(regions.take(0) =~= Seq::<(u64, u64, bool)>::empty());
        }
        while index < count
            invariant
                index <= count,
                count == regions.len(),
                regions == memory_map_regions(*self.memory_map),
                addressable(regions),
                usable_frames(regions.take(index as int)).len() + remaining == position,
            decreases count - index,
        {
            let (start, end, usable) = region_at(self.memory_map, index);
            proof {
                lemma_usable_frames_step(regions, index as int);
                lemma_usable_frames_prefix(regions, index + 1);
            }
            if usable && start < end {
                let frames = end - start;
                if (remaining as u64) < frames {
                    let address = (start + remaining as u64) * PAGE_SIZE;
                    proof {
                        assert(usable_frames(regions.take(index + 1))[position as int]
                            == region_frames(regions[index as int])[remaining as int]);
                        assert(address % 4096 == 0);
                    }
                    return Some(PhysFrame::containing_address(PhysAddr::new(address)));
                }
                remaining -= frames as usize;
            }
            index += 1;
        }
        proof {
            assert(regions.take(count as int) =~= regions);
        }
        None
    }

    /// Hands out the usable frame at the cursor, or `None` where all usable
    /// frames have been handed out, and advances the cursor.
    pub fn allocate_frame(&mut self) -> (frame: Option<PhysFrame>)
        requires
            old(self).cursor() < usize::MAX,
        ensures
            final(self).regions() == old(self).regions(),
            final(self).cursor() == old(self).cursor() + 1,
            frame_start_of(frame) == usable_frame_at(old(self).regions(), old(self).cursor()),
            frame matches Some(handed) ==> in_usable_region(old(self).regions(), handed@ as int),
    {
        let frame = self.usable_frame(self.next);
        proof {
            use_type_invariant(&*self);
            if frame is Some {
                lemma_frames_lie_in_usable_regions(self.regions(), self.next as int);
            }
        }
        self.next += 1;
        frame
    }
}

} // verus!
