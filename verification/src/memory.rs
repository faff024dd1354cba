use vstd::prelude::*;

verus! {

use crate::error::{MemoryError, PhysicalMemoryOffsetError};
use crate::paging::{translate_result, PhysicalMemoryView};
use crate::region::{usable_frames_seq, PhysFrame, RegionCatalog, FRAME_SIZE};

/// A frame allocator that always reports exhaustion.
pub struct EmptyFrameAllocator;

impl EmptyFrameAllocator {
    /// Never hands out a frame.
    pub fn allocate_frame(&mut self) -> (r: Option<PhysFrame>)
        ensures
            r is None,
    {
        None
    }
}

/// A frame allocator that hands out the usable frames of the loader-reported
/// memory map, in catalog order, each at most once.
///
/// Exactly one allocator may exist per kernel lifetime: the caller who
/// constructs it must guarantee that every region the catalog marks usable is
/// genuinely unused, and that no second allocator shares the catalog, or
/// frames would be issued twice.
pub struct BootInfoFrameAllocator {
    pub catalog: RegionCatalog,
    pub next: usize,
}

impl BootInfoFrameAllocator {
    /// The allocator is as well-formed as its catalog.
    pub open spec fn wf(self) -> bool {
        self.catalog.wf()
    }

    /// Creates the allocator over a validated catalog, with its cursor at
    /// the first usable frame.
    pub fn new(catalog: RegionCatalog) -> (r: BootInfoFrameAllocator)
        ensures
            r.catalog == catalog,
            r.next == 0,
    {
        BootInfoFrameAllocator { catalog, next: 0 }
    }

    /// The `index`-th element of the usable-frame sequence, re-derived from
    /// the catalog.
    pub fn usable_frames(&self, index: usize) -> (r: Option<PhysFrame>)
        requires
            self.wf(),
        ensures
            match r {
                Some(f) => index < usable_frames_seq(self.catalog.regions@).len() && f.base
                    == usable_frames_seq(self.catalog.regions@)[index as int],
                None => index >= usable_frames_seq(self.catalog.regions@).len(),
            },
    {
        self.catalog.usable_frame(index)
    }

    /// Returns the `next`-th usable frame in catalog order and advances the
    /// cursor by exactly one, so no frame is ever issued twice; `None` once
    /// the cursor has run past the last usable frame — exhaustion, which the
    /// caller must handle, not an error.
    pub fn allocate_frame(&mut self) -> (r: Option<PhysFrame>)
        requires
            old(self).wf(),
            old(self).next < usize::MAX,
        ensures
            final(self).wf(),
            final(self).catalog == old(self).catalog,
            final(self).next == old(self).next + 1,
            ({
                let frames = usable_frames_seq(old(self).catalog.regions@);
                match r {
                    Some(f) => old(self).next < frames.len() && f.base == frames[old(
                        self,
                    ).next as int],
                    None => old(self).next >= frames.len(),
                }
            }),
    {
        let frame = self.usable_frames(self.next);
        self.next = self.next + 1;
        frame
    }
}

/// The translation capability built at boot: the physical base of the active
/// level-4 table, paired with the physical-memory offset it is reached
/// through.
///
/// Exactly one mapper may be built per kernel lifetime; a second one would
/// alias mutable access to the same hardware tables.
pub struct Mapper {
    pub physical_memory_offset: u64,
    pub level_4_table_base: u64,
}

impl Mapper {
    /// The table base register always holds a frame-aligned address.
    pub open spec fn wf(self) -> bool {
        self.level_4_table_base % FRAME_SIZE == 0
    }

    /// Translates a virtual address through the active hierarchy.
    pub fn translate(&self, address: u64, view: &PhysicalMemoryView) -> (r: Result<
        u64,
        MemoryError,
    >)
        requires
            self.wf(),
        ensures
            r == translate_result(*view, self.level_4_table_base, address),
    {
        crate::paging::translate_address(address, self.level_4_table_base, view)
    }
}

/// Extracts the physical-memory offset the loader supplied, or reports the
/// one fatal boot-configuration error when it is missing.
pub fn try_get_physical_memory_offset(physical_memory_offset: Option<u64>) -> (r: Result<
    u64,
    &'static str,
>)
    ensures
        match physical_memory_offset {
            Some(offset) => r == Ok::<u64, &'static str>(offset),
            None => r matches Err(m) && m@ == "Failed to acquire physical memory offset"@,
        },
{
    match physical_memory_offset {
        Some(offset) => Ok(offset),
        None => Err("Failed to acquire physical memory offset"),
    }
}

/// Builds the mapper from the loader-supplied physical-memory offset and the
/// physical base the table-base register holds. Fails, before anything is
/// read through the offset, when the loader supplied no offset; the kernel
/// cannot guess one and must halt.
///
/// To be called once per kernel lifetime, as the single mapper's
/// construction.
pub fn initialize(physical_memory_offset: Option<u64>, level_4_table_base: u64) -> (r: Result<
    Mapper,
    MemoryError,
>)
    requires
        level_4_table_base % FRAME_SIZE == 0,
    ensures
        match physical_memory_offset {
            Some(offset) => r == Ok::<Mapper, MemoryError>(
                Mapper { physical_memory_offset: offset, level_4_table_base },
            ),
            None => r == Err::<Mapper, MemoryError>(
                MemoryError::PhysicalMemoryOffset(PhysicalMemoryOffsetError),
            ),
        },
        r matches Ok(m) ==> m.wf(),
{
    match physical_memory_offset {
        Some(offset) => Ok(Mapper { physical_memory_offset: offset, level_4_table_base }),
        None => Err(MemoryError::PhysicalMemoryOffset(PhysicalMemoryOffsetError)),
    }
}

} // verus!
