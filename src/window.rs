use vstd::prelude::*;
use crate::error::LoadError;

verus! {

/// The fixed range into which each application's code is copied before it
/// runs. One application occupies it at a time.
pub struct ExecutionWindow {
    bytes: Vec<u8>,
    occupant: usize,
}

/// What the window holds after copying `size` bytes of `src` from `offset`
/// into a window holding `bytes`, or the error that refuses the copy.
pub open spec fn copy_result(bytes: Seq<u8>, src: Seq<u8>, offset: int, size: int) -> Result<
    Seq<u8>,
    LoadError,
> {
    if size > bytes.len() {
        Err(LoadError::WindowOverflow)
    } else if offset + size > src.len() {
        Err(LoadError::MalformedContainer)
    } else {
        Ok(src.subrange(offset, offset + size) + bytes.subrange(size, bytes.len() as int))
    }
}

impl ExecutionWindow {
    /// The window's reserved bytes.
    pub closed spec fn bytes(&self) -> Seq<u8> {
        self.bytes@
    }

    /// How many leading bytes belong to the current application.
    pub closed spec fn occupant(&self) -> nat {
        self.occupant as nat
    }

    pub closed spec fn wf(&self) -> bool {
        self.occupant <= self.bytes@.len()
    }

    /// The code of the application now in the window.
    pub open spec fn code(&self) -> Seq<u8> {
        self.bytes().subrange(0, self.occupant() as int)
    }

    /// An empty window of `capacity` zero bytes.
    pub fn new(capacity: usize) -> (r: ExecutionWindow)
        ensures
            r.wf(),
            r.bytes() == Seq::new(capacity as nat, |i: int| 0u8),
            r.occupant() == 0,
    {
        let mut bytes: Vec<u8> = Vec::new();
        let mut k: usize = 0;
        while k < capacity
            invariant
                k <= capacity,
                bytes@ == Seq::new(k as nat, |i: int| 0u8),
            decreases capacity - k,
        {
            bytes.push(0u8);
            k = k + 1;
            assert(bytes@ =~= Seq::new(k as nat, |i: int| 0u8));
        }
        ExecutionWindow { bytes, occupant: 0 }
    }

    /// The window's reserved capacity in bytes.
    pub fn capacity(&self) -> (r: usize)
        ensures
            r == self.bytes().len(),
    {
        self.bytes.len()
    }

    /// Copies `size` bytes of `src`, starting at `offset`, to the start of
    /// the window, replacing the previous occupant. Nothing is written when
    /// the copy is refused.
    pub fn load(&mut self, src: &[u8], offset: usize, size: usize) -> (r: Result<(), LoadError>)
        requires
            old(self).wf(),
        ensures
            final(self).wf(),
            final(self).bytes().len() == old(self).bytes().len(),
            copy_result(old(self).bytes(), src@, offset as int, size as int) matches Ok(nb) ==> {
                &&& r is Ok
                &&& final(self).bytes() == nb
                &&& final(self).occupant() == size
            },
            copy_result(old(self).bytes(), src@, offset as int, size as int) matches Err(e) ==> {
                &&& r == Err::<(), LoadError>(e)
                &&& *final(self) == *old(self)
            },
    {
        if size > self.bytes.len() {
            return Err(LoadError::WindowOverflow);
        }
        if size > src.len() || offset > src.len() - size {
            return Err(LoadError::MalformedContainer);
        }
        let ghost before = self.bytes@;
        let mut k: usize = 0;
        while k < size
            invariant
                k <= size,
                size <= self.bytes@.len(),
                offset <= usize::MAX - size,
                offset + size <= src@.len(),
                self.bytes@.len() == before.len(),
                forall|j: int| 0 <= j < k ==> #[trigger] self.bytes@[j] == src@[offset + j],
                forall|j: int| k <= j < before.len() ==> #[trigger] self.bytes@[j] == before[j],
            decreases size - k,
        {
            self.bytes.set(k, src[offset + k]);
            k = k + 1;
        }
        self.occupant = size;
        assert(self.bytes@ =~= src@.subrange(offset as int, offset + size) + before.subrange(
            size as int,
            before.len() as int,
        ));
        Ok(())
    }

    /// A copy of the code now in the window.
    pub fn read_back(&self) -> (r: Vec<u8>)
        requires
            self.wf(),
        ensures
            r@ == self.code(),
    {
        let mut out: Vec<u8> = Vec::new();
        let mut k: usize = 0;
        while k < self.occupant
            invariant
                self.wf(),
                k <= self.occupant,
                out@ == self.bytes@.subrange(0, k as int),
            decreases self.occupant - k,
        {
            out.push(self.bytes[k]);
            k = k + 1;
            assert(out@ =~= self.bytes@.subrange(0, k as int));
        }
        out
    }
}

/// Copying `size` bytes into a window at least that large, from a source
/// that holds them, and reading the window back gives the source bytes.
pub proof fn lemma_copy_round_trip(bytes: Seq<u8>, src: Seq<u8>, offset: int, size: int)
    requires
        0 <= offset,
        0 <= size <= bytes.len(),
        offset + size <= src.len(),
    ensures
        copy_result(bytes, src, offset, size) matches Ok(nb) && nb.subrange(0, size) =~= src.subrange(
            offset,
            offset + size,
        ),
{
}

/// A copy exactly as large as the window is accepted; one byte more is
/// refused as an overflow.
pub proof fn lemma_copy_boundary(bytes: Seq<u8>, src: Seq<u8>)
    requires
        src.len() > bytes.len(),
    ensures
        copy_result(bytes, src, 0, bytes.len() as int) is Ok,
        copy_result(bytes, src, 0, bytes.len() as int + 1) == Err::<Seq<u8>, LoadError>(
            LoadError::WindowOverflow,
        ),
{
}

} // verus!
