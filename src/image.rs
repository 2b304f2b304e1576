use vstd::prelude::*;
use crate::error::LoadError;

verus! {

/// Width in bytes of the count field and of each size field.
pub const FIELD_BYTES: usize = 4;

/// The big-endian 32-bit value of the four bytes at `off`.
pub open spec fn be_u32_at(b: Seq<u8>, off: int) -> int {
    b[off] as int * 0x1000000 + b[off + 1] as int * 0x10000 + b[off + 2] as int * 0x100
        + b[off + 3] as int
}

/// The declared number of applications.
pub open spec fn declared_count(b: Seq<u8>) -> int {
    be_u32_at(b, 0)
}

/// Offset of the code region: after the count and `n` size fields.
pub open spec fn code_start(n: int) -> int {
    4 + 4 * n
}

/// The declared size of application `i`.
pub open spec fn size_at(b: Seq<u8>, i: int) -> int {
    be_u32_at(b, 4 + 4 * i)
}

/// Offset in the container where the code of application `i` begins, for a
/// container declaring `n` applications.
pub open spec fn offset_of(b: Seq<u8>, n: int, i: int) -> int
    decreases i,
{
    if i <= 0 {
        code_start(n)
    } else {
        offset_of(b, n, i - 1) + size_at(b, i - 1)
    }
}

/// The count, the whole size table and all code bytes lie inside `b`.
pub open spec fn well_formed(b: Seq<u8>) -> bool {
    &&& b.len() >= 4
    &&& b.len() >= code_start(declared_count(b))
    &&& offset_of(b, declared_count(b), declared_count(b)) <= b.len()
}

/// One embedded application: its position in the container and its size.
#[derive(Debug, Clone, Copy, PartialEq, Eq, Structural)]
pub struct AppDescriptor {
    pub index: u32,
    pub size: u32,
    pub source_offset: usize,
}

/// Reads the big-endian 32-bit value at `off`.
pub fn read_be_u32(b: &[u8], off: usize) -> (r: u32)
    requires
        off + 4 <= b@.len(),
    ensures
        r as int == be_u32_at(b@, off as int),
{
    let b0 = b[off] as u32;
    let b1 = b[off + 1] as u32;
    let b2 = b[off + 2] as u32;
    let b3 = b[off + 3] as u32;
    b0 * 0x1000000 + b1 * 0x10000 + b2 * 0x100 + b3
}

/// Code offsets grow with the index.
pub proof fn lemma_offset_monotone(b: Seq<u8>, n: int, i: int, j: int)
    requires
        0 <= i <= j,
        j <= n,
        b.len() >= code_start(n),
    ensures
        offset_of(b, n, i) <= offset_of(b, n, j),
    decreases j - i,
{
    if i < j {
        lemma_offset_monotone(b, n, i, j - 1);
        assert(size_at(b, j - 1) >= 0);
    }
}

/// Decodes the container into its application descriptors, in order.
pub fn parse_container(b: &[u8]) -> (r: Result<Vec<AppDescriptor>, LoadError>)
    ensures
        r is Ok <==> well_formed(b@),
        r is Err ==> r == Err::<Vec<AppDescriptor>, LoadError>(LoadError::MalformedContainer),
        r matches Ok(d) ==> {
            &&& d@.len() == declared_count(b@)
            &&& forall|i: int|
                #![trigger d@[i]]
                0 <= i < d@.len() ==> {
                    &&& d@[i].index == i
                    &&& d@[i].size == size_at(b@, i)
                    &&& d@[i].source_offset == offset_of(b@, declared_count(b@), i)
                }
        },
{
    let len = b.len();
    if len < FIELD_BYTES {
        return Err(LoadError::MalformedContainer);
    }
    let n = read_be_u32(b, 0);
    if n as usize > (len - FIELD_BYTES) / FIELD_BYTES {
        return Err(LoadError::MalformedContainer);
    }
    let ghost nn = n as int;
    assert(4 * nn <= len - 4) by (nonlinear_arith)
        requires
            nn <= (len - 4) / 4,
            len >= 4,
    ;
    let mut size_offset: usize = FIELD_BYTES;
    let mut start_offset: usize = FIELD_BYTES + FIELD_BYTES * n as usize;
    let mut out: Vec<AppDescriptor> = Vec::new();
    let mut i: u32 = 0;
    while i < n
        invariant
            nn == n,
            nn == declared_count(b@),
            len == b@.len(),
            code_start(nn) <= len,
            i <= n,
            size_offset == 4 + 4 * i,
            start_offset == offset_of(b@, nn, i as int),
            start_offset <= len,
            out@.len() == i,
            forall|k: int|
                #![trigger out@[k]]
                0 <= k < i ==> {
                    &&& out@[k].index == k
                    &&& out@[k].size == size_at(b@, k)
                    &&& out@[k].source_offset == offset_of(b@, nn, k)
                },
        decreases n - i,
    {
        let size = read_be_u32(b, size_offset);
        if size as usize > len - start_offset {
            proof {
                lemma_offset_monotone(b@, nn, i as int + 1, nn);
            }
            return Err(LoadError::MalformedContainer);
        }
        out.push(AppDescriptor { index: i, size, source_offset: start_offset });
        size_offset = size_offset + FIELD_BYTES;
        start_offset = start_offset + size as usize;
        i = i + 1;
    }
    Ok(out)
}

/// For a well-formed container the descriptors number the declared count,
/// and each application's code begins where the previous one's ends.
pub proof fn lemma_descriptors_contiguous(b: Seq<u8>, i: int)
    requires
        well_formed(b),
        0 <= i,
        i + 1 < declared_count(b),
    ensures
        offset_of(b, declared_count(b), i) + size_at(b, i) == offset_of(
            b,
            declared_count(b),
            i + 1,
        ),
        offset_of(b, declared_count(b), i + 1) <= b.len(),
{
    lemma_offset_monotone(b, declared_count(b), i + 1, declared_count(b));
}

} // verus!
