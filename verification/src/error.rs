use vstd::prelude::*;

verus! {

/// The condition under which a page-table walk gave up at some level.
#[derive(Clone, Copy, Debug, PartialEq, Eq, Structural)]
pub enum FrameCondition {
    /// The entry at the failing level is marked absent.
    FrameNotPresent,
    /// The entry at the failing level maps a huge page, which the walker
    /// does not decode.
    HugeFrameUnsupported,
}

/// A failed translation of one virtual address: the condition found in the
/// failing entry, together with the originally requested virtual address,
/// kept for diagnostics.
#[derive(Clone, Copy, Debug, PartialEq, Eq, Structural)]
pub struct FrameError {
    pub condition: FrameCondition,
    pub requested_address: u64,
}

impl FrameError {
    /// A human-readable description of the failing condition.
    pub fn description(&self) -> (r: &'static str)
        ensures
            self.condition == FrameCondition::FrameNotPresent ==> r@ == "frame not present"@,
            self.condition == FrameCondition::HugeFrameUnsupported ==> r@
                == "huge pages not supported"@,
    {
        match self.condition {
            FrameCondition::FrameNotPresent => "frame not present",
            FrameCondition::HugeFrameUnsupported => "huge pages not supported",
        }
    }
}

/// The loader did not supply the base of the linear mapping of physical
/// memory; the kernel cannot address page tables without it.
#[derive(Clone, Copy, Debug, PartialEq, Eq, Structural)]
pub struct PhysicalMemoryOffsetError;

impl PhysicalMemoryOffsetError {
    /// A human-readable description of the error.
    pub fn description(&self) -> (r: &'static str)
        ensures
            r@ == "Physical memory offset not set"@,
    {
        "Physical memory offset not set"
    }
}

/// A failure to establish a new virtual-to-physical mapping.
#[derive(Clone, Copy, Debug, PartialEq, Eq, Structural)]
pub enum MapToError {
    /// The frame allocator ran out of usable frames.
    FrameAllocationFailed,
    /// The requested page already maps to some frame.
    PageAlreadyMapped,
    /// A parent entry on the way to the page maps a huge page.
    ParentEntryHugePage,
}

/// Every error the memory subsystem can report.
#[derive(Clone, Copy, Debug, PartialEq, Eq, Structural)]
pub enum MemoryError {
    /// A page-table walk failed for one address; recoverable per call.
    Frame(FrameError),
    /// Establishing a mapping failed; recoverable per call.
    MapTo(MapToError),
    /// The boot configuration lacks the physical-memory offset; fatal at boot.
    PhysicalMemoryOffset(PhysicalMemoryOffsetError),
}

} // verus!
