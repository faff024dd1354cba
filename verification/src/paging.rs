use vstd::prelude::*;

verus! {

use crate::error::{FrameCondition, FrameError, MemoryError};
use crate::region::{PhysFrame, FRAME_SIZE};

/// Entries per page table at every level of the four-level hierarchy.
pub const PAGE_TABLE_ENTRIES: usize = 512;

/// The low bit marks an entry as present.
pub const ENTRY_PRESENT: u64 = 1;

/// Bit 7 marks an entry as mapping a huge page, which this walker does not
/// decode.
pub const ENTRY_HUGE: u64 = 0x80;

/// The bits of an entry that hold the physical base of the next table or of
/// the final data frame.
pub const ENTRY_ADDRESS_MASK: u64 = 0x000f_ffff_ffff_f000;

/// Whether the entry is marked present.
pub open spec fn entry_present(bits: u64) -> bool {
    bits & ENTRY_PRESENT != 0
}

/// Whether the entry maps a huge page.
pub open spec fn entry_huge(bits: u64) -> bool {
    bits & ENTRY_HUGE != 0
}

/// The physical base address held in the entry.
pub open spec fn entry_address(bits: u64) -> u64 {
    bits & ENTRY_ADDRESS_MASK
}

/// One hardware page-table entry, kept as its raw 64 bits.
#[derive(Clone, Copy, Debug, PartialEq, Eq, Structural)]
pub struct PageTableEntry {
    pub bits: u64,
}

impl PageTableEntry {
    /// An entry marked absent.
    pub fn absent() -> (r: PageTableEntry)
        ensures
            r.bits == 0,
            !entry_present(r.bits),
    {
        proof {
            assert(0u64 & ENTRY_PRESENT == 0) by (bit_vector);
        }
        PageTableEntry { bits: 0 }
    }

    /// A present entry pointing at the table or data frame at `frame`.
    pub fn mapping(frame: PhysFrame) -> (r: PageTableEntry)
        requires
            frame.wf(),
            frame.base <= ENTRY_ADDRESS_MASK,
        ensures
            entry_present(r.bits),
            !entry_huge(r.bits),
            entry_address(r.bits) == frame.base,
    {
        let base = frame.base;
        let bits = base | ENTRY_PRESENT;
        proof {
            assert((base | 1u64) & 1u64 != 0) by (bit_vector);
            assert(base % 4096 == 0 && base <= 0x000f_ffff_ffff_f000u64 ==> (base | 1u64)
                & 0x80u64 == 0 && (base | 1u64) & 0x000f_ffff_ffff_f000u64 == base)
                by (bit_vector);
        }
        PageTableEntry { bits }
    }

    /// A present entry that maps a huge page at `frame`.
    pub fn huge_mapping(frame: PhysFrame) -> (r: PageTableEntry)
        requires
            frame.wf(),
            frame.base <= ENTRY_ADDRESS_MASK,
        ensures
            entry_present(r.bits),
            entry_huge(r.bits),
    {
        let base = frame.base;
        let bits = base | ENTRY_PRESENT | ENTRY_HUGE;
        proof {
            assert((base | 1u64 | 0x80u64) & 1u64 != 0 && (base | 1u64 | 0x80u64) & 0x80u64 != 0)
                by (bit_vector);
        }
        PageTableEntry { bits }
    }

    /// The frame this entry points at: absent and huge entries are reported
    /// by their condition instead, exactly as the walk will.
    pub fn frame(&self) -> (r: Result<PhysFrame, FrameCondition>)
        ensures
            !entry_present(self.bits) ==> r == Err::<PhysFrame, FrameCondition>(
                FrameCondition::FrameNotPresent,
            ),
            entry_present(self.bits) && entry_huge(self.bits) ==> r == Err::<
                PhysFrame,
                FrameCondition,
            >(FrameCondition::HugeFrameUnsupported),
            entry_present(self.bits) && !entry_huge(self.bits) ==> (r matches Ok(f) && f.base
                == entry_address(self.bits) && f.wf()),
    {
        let bits = self.bits;
        if bits & ENTRY_PRESENT == 0 {
            Err(FrameCondition::FrameNotPresent)
        } else if bits & ENTRY_HUGE != 0 {
            Err(FrameCondition::HugeFrameUnsupported)
        } else {
            let base = bits & ENTRY_ADDRESS_MASK;
            proof {
                assert((bits & 0x000f_ffff_ffff_f000u64) % 4096 == 0) by (bit_vector);
            }
            Ok(PhysFrame { base })
        }
    }
}

/// One page table: 512 entries, as the hardware lays them out.
pub struct PageTable {
    pub entries: Vec<PageTableEntry>,
}

impl PageTable {
    /// A page table always holds exactly 512 entries.
    pub open spec fn wf(self) -> bool {
        self.entries@.len() == PAGE_TABLE_ENTRIES
    }

    /// A table whose entries are all absent.
    pub fn empty() -> (r: PageTable)
        ensures
            r.wf(),
            forall|i: int|
                0 <= i < PAGE_TABLE_ENTRIES ==> (#[trigger] r.entries@[i]).bits == 0,
    {
        let entries = vec![PageTableEntry { bits: 0 }; PAGE_TABLE_ENTRIES];
        PageTable { entries }
    }

    /// Reads the entry at `index`.
    pub fn entry(&self, index: usize) -> (r: PageTableEntry)
        requires
            self.wf(),
            index < PAGE_TABLE_ENTRIES,
        ensures
            r == self.entries@[index as int],
    {
        self.entries[index]
    }

    /// Replaces the entry at `index`.
    pub fn set_entry(&mut self, index: usize, entry: PageTableEntry)
        requires
            old(self).wf(),
            index < PAGE_TABLE_ENTRIES,
        ensures
            final(self).wf(),
            final(self).entries@ == old(self).entries@.update(index as int, entry),
    {
        self.entries[index] = entry;
    }
}

/// A page table together with the physical frame base it lives at.
pub struct MappedTable {
    pub base: u64,
    pub table: PageTable,
}

/// The bounds-respecting capability through which every table access goes:
/// it carries the physical-memory offset (the virtual base at which all
/// physical memory is linearly visible) and models the page-table memory the
/// kernel can observe through it. A physical address the view does not hold
/// a table for reads as zeroed entries, which the walk reports as
/// not-present.
pub struct PhysicalMemoryView {
    pub physical_memory_offset: u64,
    pub tables: Vec<MappedTable>,
}

/// The first table recorded at `base`, if any.
pub open spec fn spec_find_table(tables: Seq<MappedTable>, base: u64) -> Option<PageTable>
    decreases tables.len(),
{
    if tables.len() == 0 {
        None
    } else if tables[0].base == base {
        Some(tables[0].table)
    } else {
        spec_find_table(tables.skip(1), base)
    }
}

/// The bits read at `index` of the table at `base`: zero where the view
/// holds no such table or entry.
pub open spec fn spec_entry_bits(view: PhysicalMemoryView, base: u64, index: int) -> u64 {
    match spec_find_table(view.tables@, base) {
        Some(table) => if 0 <= index < table.entries@.len() {
            table.entries@[index].bits
        } else {
            0
        },
        None => 0,
    }
}

impl PhysicalMemoryView {
    /// A view with the given physical-memory offset and no tables observed
    /// yet.
    pub fn new(physical_memory_offset: u64) -> (r: PhysicalMemoryView)
        ensures
            r.physical_memory_offset == physical_memory_offset,
            r.tables@.len() == 0,
    {
        PhysicalMemoryView { physical_memory_offset, tables: Vec::new() }
    }

    /// Records the table living at the physical frame `base`.
    pub fn map_table(&mut self, base: u64, table: PageTable)
        ensures
            final(self).physical_memory_offset == old(self).physical_memory_offset,
            final(self).tables@ == old(self).tables@.push(MappedTable { base, table }),
    {
        self.tables.push(MappedTable { base, table });
    }

    /// The virtual address at which the physical address `physical` is
    /// visible through the linear mapping.
    pub fn virtual_address_of(&self, physical: u64) -> (r: Option<u64>)
        ensures
            match r {
                Some(v) => self.physical_memory_offset + physical <= u64::MAX && v
                    == self.physical_memory_offset + physical,
                None => self.physical_memory_offset + physical > u64::MAX,
            },
    {
        self.physical_memory_offset.checked_add(physical)
    }

    /// Reads one table entry through the view.
    pub fn read_entry(&self, base: u64, index: usize) -> (r: PageTableEntry)
        ensures
            r.bits == spec_entry_bits(*self, base, index as int),
    {
        let n = self.tables.len();
        let mut i: usize = 0;
        proof {
            assert(self.tables@.skip(0) =~= self.tables@);
        }
        while i < n
            invariant
                i <= n,
                n == self.tables@.len(),
                spec_find_table(self.tables@, base) == spec_find_table(
                    self.tables@.skip(i as int),
                    base,
                ),
            decreases n - i,
        {
            proof {
                assert(self.tables@.skip(i as int)[0] == self.tables@[i as int]);
                assert(self.tables@.skip(i as int).skip(1) =~= self.tables@.skip(i + 1));
            }
            if self.tables[i].base == base {
                let table = &self.tables[i].table;
                if index < table.entries.len() {
                    return table.entries[index];
                } else {
                    return PageTableEntry { bits: 0 };
                }
            }
            i += 1;
        }
        PageTableEntry { bits: 0 }
    }
}

/// The 9-bit table index that `address` selects at the given level, level 4
/// being the root.
pub open spec fn spec_table_index(address: u64, level: int) -> u64 {
    (address >> ((12 + 9 * (level - 1)) as u64)) & 0x1ff
}

/// The low 12 bits of a virtual address: its offset inside the page.
pub open spec fn spec_page_offset(address: u64) -> u64 {
    address & 0xfff
}

/// The table index `address` selects at `level` (4 down to 1).
pub fn table_index(address: u64, level: u64) -> (r: usize)
    requires
        1 <= level <= 4,
    ensures
        r == spec_table_index(address, level as int),
        r < PAGE_TABLE_ENTRIES,
{
    let shift = 12 + 9 * (level - 1);
    let index = (address >> shift) & 0x1ff;
    proof {
        assert((address >> shift) & 0x1ff < 512) by (bit_vector);
    }
    index as usize
}

/// The level-4 table index of a virtual address.
pub fn p4_index(address: u64) -> (r: usize)
    ensures
        r == spec_table_index(address, 4),
        r < PAGE_TABLE_ENTRIES,
{
    table_index(address, 4)
}

/// The level-3 table index of a virtual address.
pub fn p3_index(address: u64) -> (r: usize)
    ensures
        r == spec_table_index(address, 3),
        r < PAGE_TABLE_ENTRIES,
{
    table_index(address, 3)
}

/// The level-2 table index of a virtual address.
pub fn p2_index(address: u64) -> (r: usize)
    ensures
        r == spec_table_index(address, 2),
        r < PAGE_TABLE_ENTRIES,
{
    table_index(address, 2)
}

/// The level-1 table index of a virtual address.
pub fn p1_index(address: u64) -> (r: usize)
    ensures
        r == spec_table_index(address, 1),
        r < PAGE_TABLE_ENTRIES,
{
    table_index(address, 1)
}

/// The offset of a virtual address inside its page.
pub fn page_offset(address: u64) -> (r: u64)
    ensures
        r == spec_page_offset(address),
        r < FRAME_SIZE,
{
    proof {
        assert(address & 0xfff < 4096) by (bit_vector);
    }
    address & 0xfff
}

/// The walk from the table at `base`, with `levels` levels still to go:
/// each step reads the selected entry and either fails on an absent or huge
/// entry, carrying the requested address for diagnostics, or descends; after
/// the last level the physical address is the leaf frame base plus the page
/// offset.
pub open spec fn spec_walk(
    view: PhysicalMemoryView,
    base: u64,
    address: u64,
    levels: int,
) -> Result<u64, FrameError>
    decreases levels,
{
    if levels <= 0 {
        Ok((base + spec_page_offset(address)) as u64)
    } else {
        let bits = spec_entry_bits(view, base, spec_table_index(address, levels) as int);
        if !entry_present(bits) {
            Err(FrameError { condition: FrameCondition::FrameNotPresent, requested_address: address })
        } else if entry_huge(bits) {
            Err(
                FrameError {
                    condition: FrameCondition::HugeFrameUnsupported,
                    requested_address: address,
                },
            )
        } else {
            spec_walk(view, entry_address(bits), address, levels - 1)
        }
    }
}

/// What translating `address` through the four-level hierarchy rooted at
/// `l4_base` yields.
pub open spec fn spec_translate(
    view: PhysicalMemoryView,
    l4_base: u64,
    address: u64,
) -> Result<u64, FrameError> {
    spec_walk(view, l4_base, address, 4)
}

/// The translation outcome as the memory subsystem reports it.
pub open spec fn translate_result(
    view: PhysicalMemoryView,
    l4_base: u64,
    address: u64,
) -> Result<u64, MemoryError> {
    match spec_translate(view, l4_base, address) {
        Ok(physical) => Ok(physical),
        Err(e) => Err(MemoryError::Frame(e)),
    }
}

/// The physical base of the table the walk reads at `level`, level 4 being
/// the root, assuming every entry selected above it was present and not
/// huge; at level 0 it is the base of the final data frame.
pub open spec fn walk_base(
    view: PhysicalMemoryView,
    l4_base: u64,
    address: u64,
    level: int,
) -> u64
    decreases 4 - level,
{
    if level >= 4 {
        l4_base
    } else {
        entry_address(
            spec_entry_bits(
                view,
                walk_base(view, l4_base, address, level + 1),
                spec_table_index(address, level + 1) as int,
            ),
        )
    }
}

/// The entry bits the walk reads at `level`, under the same assumption.
pub open spec fn walk_entry_bits(
    view: PhysicalMemoryView,
    l4_base: u64,
    address: u64,
    level: int,
) -> u64 {
    spec_entry_bits(
        view,
        walk_base(view, l4_base, address, level),
        spec_table_index(address, level) as int,
    )
}

/// Law: translation is a pure function of the requested address and the
/// table state, so walking the same address twice against an unchanged view
/// and root yields the same result both times.
pub proof fn lemma_translate_idempotent(
    view: PhysicalMemoryView,
    l4_base: u64,
    address: u64,
    first: Result<u64, MemoryError>,
    second: Result<u64, MemoryError>,
)
    requires
        first == translate_result(view, l4_base, address),
        second == translate_result(view, l4_base, address),
    ensures
        first == second,
{
}

/// Law: when the entries a virtual address selects at levels 4 down to 1
/// are all present and none maps a huge page, translation succeeds and
/// yields the leaf frame base plus the address's offset inside its page.
pub proof fn lemma_translate_present_path(view: PhysicalMemoryView, l4_base: u64, address: u64)
    requires
        forall|level: int|
            1 <= level <= 4 ==> entry_present(
                #[trigger] walk_entry_bits(view, l4_base, address, level),
            ) && !entry_huge(walk_entry_bits(view, l4_base, address, level)),
    ensures
        walk_base(view, l4_base, address, 0) + address % FRAME_SIZE <= u64::MAX,
        spec_translate(view, l4_base, address) == Ok::<u64, FrameError>(
            (walk_base(view, l4_base, address, 0) + address % FRAME_SIZE) as u64,
        ),
{
    assert(entry_present(walk_entry_bits(view, l4_base, address, 4)));
    assert(entry_present(walk_entry_bits(view, l4_base, address, 3)));
    assert(entry_present(walk_entry_bits(view, l4_base, address, 2)));
    assert(entry_present(walk_entry_bits(view, l4_base, address, 1)));
    assert(spec_walk(view, l4_base, address, 4) == spec_walk(
        view,
        walk_base(view, l4_base, address, 3),
        address,
        3,
    ));
    assert(spec_walk(view, walk_base(view, l4_base, address, 3), address, 3) == spec_walk(
        view,
        walk_base(view, l4_base, address, 2),
        address,
        2,
    ));
    assert(spec_walk(view, walk_base(view, l4_base, address, 2), address, 2) == spec_walk(
        view,
        walk_base(view, l4_base, address, 1),
        address,
        1,
    ));
    assert(spec_walk(view, walk_base(view, l4_base, address, 1), address, 1) == spec_walk(
        view,
        walk_base(view, l4_base, address, 0),
        address,
        0,
    ));
    let b1 = walk_entry_bits(view, l4_base, address, 1);
    assert(walk_base(view, l4_base, address, 0) == entry_address(b1));
    assert((b1 & 0x000f_ffff_ffff_f000u64) + (address & 0xfffu64) <= u64::MAX && (address
        & 0xfffu64) == address % 4096) by (bit_vector);
}

/// Law: when the entry a virtual address selects at level 2 is marked
/// absent (the entries above it being present and not huge), translation
/// fails with the not-present condition and the requested address, and with
/// nothing else.
pub proof fn lemma_translate_absent_level_2(view: PhysicalMemoryView, l4_base: u64, address: u64)
    requires
        entry_present(walk_entry_bits(view, l4_base, address, 4)),
        !entry_huge(walk_entry_bits(view, l4_base, address, 4)),
        entry_present(walk_entry_bits(view, l4_base, address, 3)),
        !entry_huge(walk_entry_bits(view, l4_base, address, 3)),
        !entry_present(walk_entry_bits(view, l4_base, address, 2)),
    ensures
        spec_translate(view, l4_base, address) == Err::<u64, FrameError>(
            FrameError { condition: FrameCondition::FrameNotPresent, requested_address: address },
        ),
{
    assert(spec_walk(view, l4_base, address, 4) == spec_walk(
        view,
        walk_base(view, l4_base, address, 3),
        address,
        3,
    ));
    assert(spec_walk(view, walk_base(view, l4_base, address, 3), address, 3) == spec_walk(
        view,
        walk_base(view, l4_base, address, 2),
        address,
        2,
    ));
}

/// Translates the virtual `address` to the physical address it maps to,
/// walking the four-level table hierarchy rooted at `l4_base` through the
/// view. An absent entry or a huge-page entry at any level fails the walk
/// with a typed error; the walker itself never panics.
pub fn translate_address(address: u64, l4_base: u64, view: &PhysicalMemoryView) -> (r: Result<
    u64,
    MemoryError,
>)
    requires
        l4_base % FRAME_SIZE == 0,
    ensures
        r == translate_result(*view, l4_base, address),
{
    let mut frame: u64 = l4_base;
    let mut level: u64 = 4;
    while level > 0
        invariant
            level <= 4,
            frame % FRAME_SIZE == 0,
            spec_walk(*view, l4_base, address, 4) == spec_walk(
                *view,
                frame,
                address,
                level as int,
            ),
        decreases level,
    {
        let index = table_index(address, level);
        let entry = view.read_entry(frame, index);
        match entry.frame() {
            Ok(next) => {
                frame = next.base;
            },
            Err(condition) => {
                return Err(
                    MemoryError::Frame(FrameError { condition, requested_address: address }),
                );
            },
        }
        level = level - 1;
    }
    let offset = page_offset(address);
    proof {
        assert(frame % 4096 == 0 ==> frame + (address & 0xfff) <= u64::MAX) by (bit_vector);
    }
    Ok(frame + offset)
}

} // verus!
