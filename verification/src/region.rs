use vstd::prelude::*;

verus! {

use vstd::arithmetic::div_mod::{
    lemma_div_multiples_vanish,
    lemma_fundamental_div_mod,
    lemma_mod_multiples_basic,
    lemma_mod_multiples_vanish,
};
use vstd::arithmetic::mul::{lemma_mul_inequality, lemma_mul_strict_inequality};

/// The size in bytes of one physical page frame.
pub const FRAME_SIZE: u64 = 4096;

/// What the firmware reported a physical memory region to be.
#[derive(Clone, Copy, Debug, PartialEq, Eq, Structural)]
pub enum MemoryRegionKind {
    /// Free memory the kernel may claim as general-purpose RAM.
    Usable,
    /// Memory holding the loader, its page tables, or the boot information.
    Bootloader,
    /// A UEFI-specific kind the loader did not interpret.
    UnknownUefi(u32),
    /// A BIOS-specific kind the loader did not interpret.
    UnknownBios(u32),
}

/// One physical memory region `[start, end)`, in bytes, as the loader
/// reported it.
#[derive(Clone, Copy, Debug, PartialEq, Eq, Structural)]
pub struct MemoryRegion {
    pub start: u64,
    pub end: u64,
    pub kind: MemoryRegionKind,
}

/// An aligned 4096-byte physical address range, identified by its base.
#[derive(Clone, Copy, Debug, PartialEq, Eq, Structural)]
pub struct PhysFrame {
    pub base: u64,
}

impl PhysFrame {
    /// A frame base address is always frame-aligned.
    pub open spec fn wf(self) -> bool {
        self.base % FRAME_SIZE == 0
    }

    /// The frame that contains `address`: its base is `address` rounded
    /// down to the frame size.
    pub fn containing_address(address: u64) -> (r: PhysFrame)
        ensures
            r.base == address - address % FRAME_SIZE,
            r.wf(),
    {
        let base = address - address % FRAME_SIZE;
        proof {
            lemma_fundamental_div_mod(address as int, FRAME_SIZE as int);
            lemma_mod_multiples_basic(address as int / FRAME_SIZE as int, FRAME_SIZE as int);
        }
        PhysFrame { base }
    }

    /// The base address of the frame.
    pub fn start_address(&self) -> (r: u64)
        ensures
            r == self.base,
    {
        self.base
    }
}

/// A single well-formed region: its bounds are ordered, and a usable region
/// starts on a frame boundary, so that stepping it in frame-size strides
/// yields aligned frame bases.
pub open spec fn region_wf(r: MemoryRegion) -> bool {
    &&& r.start <= r.end
    &&& r.kind == MemoryRegionKind::Usable ==> r.start % FRAME_SIZE == 0
}

/// How many frame-size strides step through `[start, end)`; zero unless the
/// region is usable.
pub open spec fn region_frame_count(r: MemoryRegion) -> nat {
    if r.kind == MemoryRegionKind::Usable && r.start < r.end {
        let bytes = r.end - r.start;
        (bytes / (FRAME_SIZE as int) + if bytes % (FRAME_SIZE as int) == 0 {
            0int
        } else {
            1int
        }) as nat
    } else {
        0
    }
}

/// The frame bases contributed by one region: `start`, `start + 4096`, ...,
/// while still below `end`.
pub open spec fn region_frames(r: MemoryRegion) -> Seq<u64> {
    Seq::new(region_frame_count(r), |k: int| (r.start + k * FRAME_SIZE) as u64)
}

/// The whole usable-frame sequence of a region list, in catalog order:
/// regions are visited as reported, with no sorting or coalescing.
pub open spec fn usable_frames_seq(regions: Seq<MemoryRegion>) -> Seq<u64>
    decreases regions.len(),
{
    if regions.len() == 0 {
        Seq::empty()
    } else {
        region_frames(regions[0]) + usable_frames_seq(regions.skip(1))
    }
}

/// Every region of the list is well-formed.
pub open spec fn regions_wf(regions: Seq<MemoryRegion>) -> bool {
    forall|i: int| 0 <= i < regions.len() ==> region_wf(#[trigger] regions[i])
}

/// No two regions of the list overlap.
pub open spec fn regions_disjoint(regions: Seq<MemoryRegion>) -> bool {
    forall|i: int, j: int|
        0 <= i < j < regions.len() ==> #[trigger] regions[i].end <= #[trigger] regions[j].start
            || regions[j].end <= regions[i].start
}

/// The total number of bytes the list marks usable.
pub open spec fn usable_bytes(regions: Seq<MemoryRegion>) -> int
    decreases regions.len(),
{
    if regions.len() == 0 {
        0
    } else {
        (if regions[0].kind == MemoryRegionKind::Usable {
            regions[0].end - regions[0].start
        } else {
            0int
        }) + usable_bytes(regions.skip(1))
    }
}

/// Whether some usable region's byte range covers `value`.
pub open spec fn frame_covered(regions: Seq<MemoryRegion>, value: u64) -> bool {
    exists|k: int|
        0 <= k < regions.len() && (#[trigger] regions[k]).kind == MemoryRegionKind::Usable
            && regions[k].start <= value < regions[k].end
}

/// Each frame base a region contributes lies inside the region's byte range.
pub proof fn lemma_region_frame_value(r: MemoryRegion, k: int)
    requires
        region_wf(r),
        0 <= k < region_frame_count(r),
    ensures
        r.start + k * FRAME_SIZE < r.end,
        region_frames(r)[k] == r.start + k * FRAME_SIZE,
{
    let bytes = r.end - r.start;
    let count = region_frame_count(r) as int;
    lemma_fundamental_div_mod(bytes, FRAME_SIZE as int);
    lemma_mul_inequality(k, count - 1, FRAME_SIZE as int);
    if bytes % (FRAME_SIZE as int) == 0 {
        assert((count - 1) * FRAME_SIZE == bytes - FRAME_SIZE);
    } else {
        assert((count - 1) * FRAME_SIZE == bytes - bytes % (FRAME_SIZE as int));
    }
}

/// Law: with every usable region a whole number of frames long, the
/// usable-frame sequence is exactly one frame per usable frame-sized chunk:
/// its length is the total usable byte count divided by the frame size, so
/// that exactly that many allocations succeed before exhaustion.
pub proof fn lemma_usable_frame_count(regions: Seq<MemoryRegion>)
    requires
        regions_wf(regions),
        forall|i: int|
            0 <= i < regions.len() && (#[trigger] regions[i]).kind == MemoryRegionKind::Usable
                ==> (regions[i].end - regions[i].start) % (FRAME_SIZE as int) == 0,
    ensures
        usable_bytes(regions) == FRAME_SIZE * usable_frames_seq(regions).len(),
        usable_frames_seq(regions).len() == usable_bytes(regions) / (FRAME_SIZE as int),
    decreases regions.len(),
{
    if regions.len() == 0 {
    } else {
        let tail = regions.skip(1);
        assert forall|i: int| 0 <= i < tail.len() implies region_wf(#[trigger] tail[i]) && (
        tail[i].kind == MemoryRegionKind::Usable ==> (tail[i].end - tail[i].start) % (
        FRAME_SIZE as int) == 0) by {
            assert(tail[i] == regions[i + 1]);
        }
        lemma_usable_frame_count(tail);
        let r = regions[0];
        if r.kind == MemoryRegionKind::Usable && r.start < r.end {
            let bytes = r.end - r.start;
            lemma_fundamental_div_mod(bytes, FRAME_SIZE as int);
            assert(FRAME_SIZE * region_frame_count(r) == bytes);
        }
    }
    lemma_div_multiples_vanish(usable_frames_seq(regions).len() as int, FRAME_SIZE as int);
}

/// Law: every frame base the catalog yields is a multiple of the frame
/// size.
pub proof fn lemma_usable_frames_aligned(regions: Seq<MemoryRegion>)
    requires
        regions_wf(regions),
    ensures
        forall|i: int|
            0 <= i < usable_frames_seq(regions).len() ==> #[trigger] usable_frames_seq(regions)[i]
                % FRAME_SIZE == 0,
    decreases regions.len(),
{
    if regions.len() == 0 {
    } else {
        let r = regions[0];
        let head = region_frames(r);
        let tail = regions.skip(1);
        assert forall|i: int| 0 <= i < tail.len() implies region_wf(#[trigger] tail[i]) by {
            assert(tail[i] == regions[i + 1]);
        }
        lemma_usable_frames_aligned(tail);
        assert forall|k: int| 0 <= k < head.len() implies #[trigger] head[k] % FRAME_SIZE == 0 by {
            lemma_region_frame_value(r, k);
            lemma_mod_multiples_vanish(k, r.start as int, FRAME_SIZE as int);
        }
        assert forall|i: int|
            0 <= i < usable_frames_seq(regions).len() implies #[trigger] usable_frames_seq(
            regions,
        )[i] % FRAME_SIZE == 0 by {
            if i < head.len() {
                assert(usable_frames_seq(regions)[i] == head[i]);
            } else {
                assert(usable_frames_seq(regions)[i] == usable_frames_seq(tail)[i - head.len()]);
            }
        }
    }
}

/// Every frame base the catalog yields lies inside some usable region.
pub proof fn lemma_frames_within_regions(regions: Seq<MemoryRegion>)
    requires
        regions_wf(regions),
    ensures
        forall|i: int|
            0 <= i < usable_frames_seq(regions).len() ==> frame_covered(
                regions,
                #[trigger] usable_frames_seq(regions)[i],
            ),
    decreases regions.len(),
{
    if regions.len() == 0 {
    } else {
        let r = regions[0];
        let head = region_frames(r);
        let tail = regions.skip(1);
        let s = usable_frames_seq(regions);
        let ts = usable_frames_seq(tail);
        assert forall|i: int| 0 <= i < tail.len() implies region_wf(#[trigger] tail[i]) by {
            assert(tail[i] == regions[i + 1]);
        }
        lemma_frames_within_regions(tail);
        assert forall|i: int| 0 <= i < s.len() implies frame_covered(regions, #[trigger] s[i]) by {
            if i < head.len() {
                lemma_region_frame_value(r, i);
                assert(regions[0].kind == MemoryRegionKind::Usable && regions[0].start <= s[i]
                    < regions[0].end);
            } else {
                let v = ts[i - head.len()];
                assert(frame_covered(tail, v));
                let k = choose|k: int|
                    0 <= k < tail.len() && (#[trigger] tail[k]).kind == MemoryRegionKind::Usable
                        && tail[k].start <= v < tail[k].end;
                assert(regions[k + 1] == tail[k]);
                assert(regions[k + 1].kind == MemoryRegionKind::Usable && regions[k + 1].start
                    <= s[i] < regions[k + 1].end);
            }
        }
    }
}

/// Law: over a catalog of well-formed, non-overlapping regions, the frame
/// bases are pairwise distinct, so successful allocations never repeat a
/// frame.
pub proof fn lemma_usable_frames_distinct(regions: Seq<MemoryRegion>)
    requires
        regions_wf(regions),
        regions_disjoint(regions),
    ensures
        forall|i: int, j: int|
            0 <= i < j < usable_frames_seq(regions).len() ==> #[trigger] usable_frames_seq(
                regions,
            )[i] != #[trigger] usable_frames_seq(regions)[j],
    decreases regions.len(),
{
    if regions.len() == 0 {
    } else {
        let r = regions[0];
        let head = region_frames(r);
        let tail = regions.skip(1);
        let s = usable_frames_seq(regions);
        let ts = usable_frames_seq(tail);
        assert forall|i: int| 0 <= i < tail.len() implies region_wf(#[trigger] tail[i]) by {
            assert(tail[i] == regions[i + 1]);
        }
        assert forall|a: int, b: int| 0 <= a < b < tail.len() implies #[trigger] tail[a].end
            <= #[trigger] tail[b].start || tail[b].end <= tail[a].start by {
            assert(tail[a] == regions[a + 1] && tail[b] == regions[b + 1]);
        }
        lemma_usable_frames_distinct(tail);
        lemma_frames_within_regions(tail);
        assert forall|i: int, j: int| 0 <= i < j < s.len() implies #[trigger] s[i]
            != #[trigger] s[j] by {
            if j < head.len() {
                lemma_region_frame_value(r, i);
                lemma_region_frame_value(r, j);
                lemma_mul_strict_inequality(i, j, FRAME_SIZE as int);
            } else if i < head.len() {
                lemma_region_frame_value(r, i);
                let v = ts[j - head.len()];
                assert(frame_covered(tail, v));
                let k = choose|k: int|
                    0 <= k < tail.len() && (#[trigger] tail[k]).kind == MemoryRegionKind::Usable
                        && tail[k].start <= v < tail[k].end;
                assert(tail[k] == regions[k + 1]);
                assert(regions[0].end <= regions[k + 1].start || regions[k + 1].end
                    <= regions[0].start);
            } else {
                assert(s[i] == ts[i - head.len()] && s[j] == ts[j - head.len()]);
            }
        }
    }
}

/// Law: what two successful allocations at different cursor positions
/// return — the frames `allocate_frame`'s contract fixes for cursor
/// values `i` and `j` — never shares a base: one allocator never issues
/// the same frame twice.
pub proof fn lemma_allocated_frames_distinct(
    regions: Seq<MemoryRegion>,
    i: int,
    j: int,
    first: PhysFrame,
    second: PhysFrame,
)
    requires
        regions_wf(regions),
        regions_disjoint(regions),
        0 <= i < usable_frames_seq(regions).len(),
        0 <= j < usable_frames_seq(regions).len(),
        i != j,
        first.base == usable_frames_seq(regions)[i],
        second.base == usable_frames_seq(regions)[j],
    ensures
        first.base != second.base,
{
    lemma_usable_frames_distinct(regions);
    if i < j {
        assert(usable_frames_seq(regions)[i] != usable_frames_seq(regions)[j]);
    } else {
        assert(usable_frames_seq(regions)[j] != usable_frames_seq(regions)[i]);
    }
}

/// Law: a catalog with no usable region yields no frame at all, so the very
/// first allocation already reports exhaustion.
pub proof fn lemma_reserved_only_no_frames(regions: Seq<MemoryRegion>)
    requires
        forall|k: int|
            0 <= k < regions.len() ==> (#[trigger] regions[k]).kind != MemoryRegionKind::Usable,
    ensures
        usable_frames_seq(regions).len() == 0,
    decreases regions.len(),
{
    if regions.len() == 0 {
    } else {
        let tail = regions.skip(1);
        assert forall|k: int| 0 <= k < tail.len() implies (#[trigger] tail[k]).kind
            != MemoryRegionKind::Usable by {
            assert(tail[k] == regions[k + 1]);
        }
        lemma_reserved_only_no_frames(tail);
    }
}

/// A non-owning view over the loader-reported region list, validated once at
/// construction and read-only afterwards.
pub struct RegionCatalog {
    pub regions: Vec<MemoryRegion>,
}

impl RegionCatalog {
    /// The catalog invariant: every region well-formed, no two overlapping.
    pub open spec fn wf(self) -> bool {
        regions_wf(self.regions@) && regions_disjoint(self.regions@)
    }

    /// Validates the loader-reported list: rejects a region whose bounds are
    /// out of order, a usable region that does not start on a frame
    /// boundary, and any two overlapping regions, so that no frame can be
    /// issued twice.
    pub fn new(regions: Vec<MemoryRegion>) -> (r: Option<RegionCatalog>)
        ensures
            match r {
                Some(c) => c.regions == regions && c.wf(),
                None => !(regions_wf(regions@) && regions_disjoint(regions@)),
            },
    {
        let n = regions.len();
        let mut i: usize = 0;
        while i < n
            invariant
                i <= n,
                n == regions.len(),
                forall|k: int| 0 <= k < i ==> region_wf(#[trigger] regions@[k]),
            decreases n - i,
        {
            let r = regions[i];
            if r.start > r.end {
                return None;
            }
            if r.kind == MemoryRegionKind::Usable && r.start % FRAME_SIZE != 0 {
                return None;
            }
            i += 1;
        }
        let mut i: usize = 0;
        while i < n
            invariant
                i <= n,
                n == regions.len(),
                forall|a: int, b: int|
                    0 <= a < b < n && a < i ==> #[trigger] regions@[a].end
                        <= #[trigger] regions@[b].start || regions@[b].end <= regions@[a].start,
            decreases n - i,
        {
            let mut j: usize = i + 1;
            while j < n
                invariant
                    i < j <= n || (i + 1 > n && j == i + 1),
                    i < n,
                    n == regions.len(),
                    forall|b: int|
                        i < b < j ==> #[trigger] regions@[i as int].end <= regions@[b].start
                            || regions@[b].end <= regions@[i as int].start,
                decreases n - j,
            {
                if !(regions[i].end <= regions[j].start || regions[j].end <= regions[i].start) {
                    return None;
                }
                j += 1;
            }
            i += 1;
        }
        Some(RegionCatalog { regions })
    }

    /// The `index`-th element of the lazy usable-frame sequence, derived
    /// afresh from the region list: `None` once `index` runs past the last
    /// usable frame of the whole catalog.
    pub fn usable_frame(&self, index: usize) -> (r: Option<PhysFrame>)
        requires
            self.wf(),
        ensures
            match r {
                Some(f) => index < usable_frames_seq(self.regions@).len() && f.base
                    == usable_frames_seq(self.regions@)[index as int],
                None => index >= usable_frames_seq(self.regions@).len(),
            },
    {
        let ghost all = usable_frames_seq(self.regions@);
        let n = self.regions.len();
        let mut remaining: u64 = index as u64;
        let mut i: usize = 0;
        proof {
            assert(self.regions@.skip(0) =~= self.regions@);
        }
        while i < n
            invariant
                self.wf(),
                i <= n,
                n == self.regions.len(),
                all == usable_frames_seq(self.regions@),
                index < all.len() <==> remaining < usable_frames_seq(
                    self.regions@.skip(i as int),
                ).len(),
                index < all.len() ==> all[index as int] == usable_frames_seq(
                    self.regions@.skip(i as int),
                )[remaining as int],
            decreases n - i,
        {
            proof {
                assert(self.regions@.skip(i as int)[0] == self.regions@[i as int]);
                assert(self.regions@.skip(i as int).skip(1) =~= self.regions@.skip(i + 1));
            }
            let r = self.regions[i];
            if r.kind == MemoryRegionKind::Usable && r.start < r.end {
                let bytes = r.end - r.start;
                let q = bytes / FRAME_SIZE;
                let cnt = if bytes % FRAME_SIZE != 0 {
                    q + 1
                } else {
                    q
                };
                assert(cnt == region_frame_count(r));
                if remaining < cnt {
                    proof {
                        lemma_fundamental_div_mod(bytes as int, FRAME_SIZE as int);
                        lemma_mul_inequality(
                            remaining as int,
                            cnt - 1,
                            FRAME_SIZE as int,
                        );
                        assert((cnt - 1) * FRAME_SIZE <= bytes);
                    }
                    let base = r.start + remaining * FRAME_SIZE;
                    return Some(PhysFrame { base });
                } else {
                    remaining = remaining - cnt;
                }
            }
            i += 1;
        }
        None
    }
}

} // verus!
