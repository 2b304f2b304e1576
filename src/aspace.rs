use vstd::prelude::*;

verus! {

/// Entries in one Sv39 page-table page.
pub const PT_ENTRIES: usize = 512;

/// Valid, readable, writable, executable, global, accessed and dirty.
pub const PTE_FLAGS_VRWX_GAD: u64 = 0xef;

/// Bytes in one page; the page-table root is named by its page number.
pub const PAGE_BYTES: usize = 4096;

/// Address-space identifiers that the satp register holds (16 bits).
pub const ASID_LIMIT: usize = 0x10000;

/// Physical page numbers that the satp register holds (44 bits).
pub const PPN_LIMIT: u64 = 0x1000_0000_0000;

/// How applications are kept apart.
#[derive(Debug, Clone, Copy, PartialEq, Eq, Structural)]
pub enum IsolationMode {
    /// Each application runs under its own address-space tag.
    PerAppDomain,
    /// All applications share one mapping; only one is resident at a time.
    SingleWindow,
}

/// A leaf entry mapping a 1 GiB block at physical page `ppn`, with every
/// permission set.
pub open spec fn block_entry(ppn: u64) -> u64 {
    (ppn * 1024 + PTE_FLAGS_VRWX_GAD) as u64
}

/// The mappings of the application address space, all 1 GiB blocks:
/// 0x8000_0000 identity (slot 2), its high alias 0xffff_ffc0_8000_0000
/// (slot 0x102), 0x0 identity (slot 0) and the application range
/// 0x4000_0000 backed by 0x8000_0000 (slot 1).
pub open spec fn app_page_table_spec() -> Seq<u64> {
    Seq::new(PT_ENTRIES as nat, |i: int| 0u64).update(2, block_entry(0x80000)).update(
        0x102,
        block_entry(0x80000),
    ).update(0, block_entry(0)).update(1, block_entry(0x80000))
}

/// The root page of the application address space.
pub struct AppPageTable {
    entries: Vec<u64>,
}

impl AppPageTable {
    pub closed spec fn view(&self) -> Seq<u64> {
        self.entries@
    }

    /// The entries, in slot order, for placing the table in memory.
    pub fn entries(&self) -> (r: Vec<u64>)
        ensures
            r@ == self.view(),
    {
        self.entries.clone()
    }
}

/// Builds the application page table.
pub fn init_app_page_table() -> (r: AppPageTable)
    ensures
        r.view() == app_page_table_spec(),
{
    let mut entries: Vec<u64> = Vec::new();
    let mut k: usize = 0;
    while k < PT_ENTRIES
        invariant
            k <= PT_ENTRIES,
            entries@ == Seq::new(k as nat, |i: int| 0u64),
        decreases PT_ENTRIES - k,
    {
        entries.push(0u64);
        k = k + 1;
        assert(entries@ =~= Seq::new(k as nat, |i: int| 0u64));
    }
    let high: u64 = 0x80000 * 1024 + PTE_FLAGS_VRWX_GAD;
    let low: u64 = PTE_FLAGS_VRWX_GAD;
    entries.set(2, high);
    entries.set(0x102, high);
    entries.set(0, low);
    entries.set(1, high);
    AppPageTable { entries }
}

/// What activating an address space writes: the tag and the page number of
/// the root, in Sv39 mode, followed by a full translation-cache flush.
#[derive(Debug, Clone, Copy, PartialEq, Eq, Structural)]
pub struct Activation {
    pub asid: usize,
    pub root_ppn: usize,
}

/// The activation of domain `asid` for a root table at virtual address
/// `root_va`, with kernel virtual addresses `phys_virt_offset` above
/// physical ones; `None` where the root lies below the offset or a value
/// does not fit its satp field.
pub fn switch_app_aspace(root_va: usize, phys_virt_offset: usize, asid: usize) -> (r: Option<
    Activation,
>)
    ensures
        r == switch_app_aspace_spec(root_va, phys_virt_offset, asid),
{
    if root_va < phys_virt_offset || asid >= ASID_LIMIT {
        return None;
    }
    let ppn = (root_va - phys_virt_offset) / PAGE_BYTES;
    if ppn as u64 >= PPN_LIMIT {
        return None;
    }
    Some(Activation { asid, root_ppn: ppn })
}

/// The activation, if any, that precedes running application `index`.
pub fn activation_for(
    mode: IsolationMode,
    root_va: usize,
    phys_virt_offset: usize,
    index: usize,
) -> (r: Option<Activation>)
    ensures
        mode == IsolationMode::SingleWindow ==> r is None,
        mode == IsolationMode::PerAppDomain ==> r == switch_app_aspace_spec(
            root_va,
            phys_virt_offset,
            index,
        ),
{
    match mode {
        IsolationMode::PerAppDomain => switch_app_aspace(root_va, phys_virt_offset, index),
        IsolationMode::SingleWindow => None,
    }
}

/// The value `switch_app_aspace` returns.
pub open spec fn switch_app_aspace_spec(root_va: usize, phys_virt_offset: usize, asid: usize) -> Option<
    Activation,
> {
    if root_va >= phys_virt_offset && asid < ASID_LIMIT && (root_va - phys_virt_offset) / (
    PAGE_BYTES as int) < PPN_LIMIT {
        Some(
            Activation {
                asid,
                root_ppn: ((root_va - phys_virt_offset) / (PAGE_BYTES as int)) as usize,
            },
        )
    } else {
        None
    }
}

} // verus!
