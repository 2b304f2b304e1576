use vstd::prelude::*;

verus! {

/// The memory layout that the device tree describes.
pub struct DtbInfo {
    pub memory_addr: usize,
    /// End address of the memory region (its start plus its size).
    pub memory_size: usize,
    /// Start and size of each virtio MMIO region, in tree order.
    pub mmio_regions: Vec<(usize, usize)>,
}

/// Why a device tree gives no layout.
#[derive(Debug, Clone, Copy, PartialEq, Eq, Structural)]
pub enum DtbError {
    /// No usable memory region was found.
    BadPtr,
}

/// The first register region of a device node: its start and, where the
/// tree gives it, its size.
pub type RegRegion = (usize, Option<usize>);

/// The MMIO regions kept from the nodes' first register regions: those that
/// exist and have a size.
pub open spec fn mmio_of(nodes: Seq<Option<RegRegion>>) -> Seq<(usize, usize)>
    decreases nodes.len(),
{
    if nodes.len() == 0 {
        Seq::empty()
    } else {
        let rest = mmio_of(nodes.drop_last());
        match nodes.last() {
            Some((addr, Some(size))) => rest.push((addr, size)),
            _ => rest,
        }
    }
}

/// The region has a size and its end fits in an address.
pub open spec fn usable_memory(memory: Option<RegRegion>) -> bool {
    match memory {
        Some((addr, Some(size))) => addr + size <= usize::MAX,
        _ => false,
    }
}

/// Builds the layout from the first memory region and the first register
/// region of each virtio MMIO node.
pub fn dtb_info_from_regions(memory: Option<RegRegion>, nodes: Vec<Option<RegRegion>>) -> (r: Result<
    DtbInfo,
    DtbError,
>)
    ensures
        r is Ok <==> usable_memory(memory),
        r matches Ok(info) ==> {
            &&& info.memory_addr == memory->Some_0.0
            &&& info.memory_size == memory->Some_0.0 + memory->Some_0.1->Some_0
            &&& info.mmio_regions@ == mmio_of(nodes@)
        },
        r matches Err(e) ==> e == DtbError::BadPtr,
{
    let (memory_addr, size) = match memory {
        Some((a, Some(s))) => (a, s),
        _ => {
            return Err(DtbError::BadPtr);
        },
    };
    if size > usize::MAX - memory_addr {
        return Err(DtbError::BadPtr);
    }
    let memory_size = memory_addr + size;
    let mut mmio_regions: Vec<(usize, usize)> = Vec::new();
    let mut k: usize = 0;
    while k < nodes.len()
        invariant
            k <= nodes@.len(),
            mmio_regions@ == mmio_of(nodes@.subrange(0, k as int)),
        decreases nodes.len() - k,
    {
        let ghost before = nodes@.subrange(0, k as int);
        assert(nodes@.subrange(0, k + 1).drop_last() =~= before);
        match nodes[k] {
            Some((a, Some(s))) => mmio_regions.push((a, s)),
            _ => {},
        }
        k = k + 1;
    }
    assert(nodes@.subrange(0, nodes@.len() as int) =~= nodes@);
    Ok(DtbInfo { memory_addr, memory_size, mmio_regions })
}

} // verus!
