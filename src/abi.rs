use vstd::prelude::*;
use crate::error::LoadError;

verus! {

/// Number of slots in the service table; slot 0 is reserved.
pub const ABI_CAPACITY: usize = 16;

/// Width in bytes of one slot as application code indexes it.
pub const POINTER_WIDTH: usize = 8;

/// Emits a fixed greeting.
pub const SYS_HELLO: usize = 1;

/// Emits one character.
pub const SYS_PUTCHAR: usize = 2;

/// Emits a shutdown notice and ends the whole loader.
pub const SYS_TERMINATE: usize = 3;

/// Emits a 64-bit value in hexadecimal.
pub const SYS_PRINT: usize = 4;

/// A service number that names a usable slot.
pub open spec fn valid_service(num: int) -> bool {
    1 <= num < ABI_CAPACITY
}

/// The table of service entry addresses handed to application code.
pub struct AbiTable {
    slots: Vec<Option<usize>>,
    sealed: bool,
}

impl AbiTable {
    /// The handler registered in each slot.
    pub closed spec fn slots(&self) -> Seq<Option<usize>> {
        self.slots@
    }

    /// Whether the table refuses further registration.
    pub closed spec fn is_sealed(&self) -> bool {
        self.sealed
    }

    pub open spec fn wf(&self) -> bool {
        &&& self.slots().len() == ABI_CAPACITY
        &&& self.slots()[0] is None
    }

    /// An empty, writable table.
    pub fn new() -> (r: AbiTable)
        ensures
            r.wf(),
            !r.is_sealed(),
            r.slots() == Seq::new(ABI_CAPACITY as nat, |i: int| None::<usize>),
    {
        let mut slots: Vec<Option<usize>> = Vec::new();
        let mut k: usize = 0;
        while k < ABI_CAPACITY
            invariant
                k <= ABI_CAPACITY,
                slots@ == Seq::new(k as nat, |i: int| None::<usize>),
            decreases ABI_CAPACITY - k,
        {
            slots.push(None);
            k = k + 1;
            assert(slots@ =~= Seq::new(k as nat, |i: int| None::<usize>));
        }
        AbiTable { slots, sealed: false }
    }

    /// Records `handler` as the entry of service `num`, replacing whatever
    /// was there.
    pub fn register(&mut self, num: usize, handler: usize) -> (r: Result<(), LoadError>)
        requires
            old(self).wf(),
        ensures
            final(self).wf(),
            final(self).is_sealed() == old(self).is_sealed(),
            r is Ok <==> valid_service(num as int) && !old(self).is_sealed(),
            r is Ok ==> final(self).slots() == old(self).slots().update(num as int, Some(handler)),
            r is Err ==> final(self).slots() == old(self).slots() && r == Err::<(), LoadError>(
                LoadError::UnknownService,
            ),
    {
        if num == 0 || num >= ABI_CAPACITY || self.sealed {
            return Err(LoadError::UnknownService);
        }
        self.slots.set(num, Some(handler));
        Ok(())
    }

    /// Closes the table to registration; lookups still work.
    pub fn seal(&mut self)
        requires
            old(self).wf(),
        ensures
            final(self).wf(),
            final(self).is_sealed(),
            final(self).slots() == old(self).slots(),
    {
        self.sealed = true;
    }

    /// The handler of service `num`; a slot outside the table or with no
    /// handler is refused.
    pub fn lookup(&self, num: usize) -> (r: Result<usize, LoadError>)
        requires
            self.wf(),
        ensures
            valid_service(num as int) && self.slots()[num as int] is Some ==> r == Ok::<
                usize,
                LoadError,
            >(self.slots()[num as int]->Some_0),
            !(valid_service(num as int) && self.slots()[num as int] is Some) ==> r == Err::<
                usize,
                LoadError,
            >(LoadError::UnknownService),
    {
        if num == 0 || num >= ABI_CAPACITY {
            return Err(LoadError::UnknownService);
        }
        match self.slots[num] {
            Some(h) => Ok(h),
            None => Err(LoadError::UnknownService),
        }
    }

    /// The table as application code reads it: one address per slot, zero
    /// where no handler is registered.
    pub fn entries(&self) -> (r: Vec<usize>)
        requires
            self.wf(),
        ensures
            r@.len() == ABI_CAPACITY,
            forall|i: int|
                #![trigger r@[i]]
                0 <= i < ABI_CAPACITY ==> r@[i] == match self.slots()[i] {
                    Some(h) => h,
                    None => 0usize,
                },
    {
        let mut out: Vec<usize> = Vec::new();
        let mut k: usize = 0;
        while k < ABI_CAPACITY
            invariant
                self.wf(),
                k <= ABI_CAPACITY,
                out@.len() == k,
                forall|i: int|
                    #![trigger out@[i]]
                    0 <= i < k ==> out@[i] == match self.slots()[i] {
                        Some(h) => h,
                        None => 0usize,
                    },
            decreases ABI_CAPACITY - k,
        {
            let v = match self.slots[k] {
                Some(h) => h,
                None => 0usize,
            };
            out.push(v);
            k = k + 1;
        }
        out
    }

    /// The table holding the four kernel services, sealed.
    pub fn with_services(hello: usize, putchar: usize, terminate: usize, print: usize) -> (r:
        AbiTable)
        ensures
            r.wf(),
            r.is_sealed(),
            r.slots() == Seq::new(ABI_CAPACITY as nat, |i: int| None::<usize>).update(
                SYS_HELLO as int,
                Some(hello),
            ).update(SYS_PUTCHAR as int, Some(putchar)).update(
                SYS_TERMINATE as int,
                Some(terminate),
            ).update(SYS_PRINT as int, Some(print)),
    {
        let mut t = AbiTable::new();
        let _ = t.register(SYS_HELLO, hello);
        let _ = t.register(SYS_PUTCHAR, putchar);
        let _ = t.register(SYS_TERMINATE, terminate);
        let _ = t.register(SYS_PRINT, print);
        t.seal();
        t
    }
}

/// Address of the slot of service `num` in a table placed at `base`: the
/// arithmetic that application code performs to reach a service.
pub fn slot_address(base: usize, num: usize) -> (r: Result<usize, LoadError>)
    ensures
        valid_service(num as int) && base + num * POINTER_WIDTH <= usize::MAX ==> r == Ok::<
            usize,
            LoadError,
        >((base + num * POINTER_WIDTH) as usize),
        !(valid_service(num as int) && base + num * POINTER_WIDTH <= usize::MAX) ==> r == Err::<
            usize,
            LoadError,
        >(LoadError::UnknownService),
{
    if num == 0 || num >= ABI_CAPACITY {
        return Err(LoadError::UnknownService);
    }
    let off = num * POINTER_WIDTH;
    if base > usize::MAX - off {
        return Err(LoadError::UnknownService);
    }
    Ok(base + off)
}

/// Registering one service twice keeps only the second handler, leaves the
/// other slots alone, and a slot that never had a handler is refused by
/// lookup.
pub proof fn lemma_register_twice(s: Seq<Option<usize>>, num: int, first: usize, second: usize)
    requires
        s.len() == ABI_CAPACITY,
        valid_service(num),
    ensures
        s.update(num, Some(first)).update(num, Some(second)) =~= s.update(num, Some(second)),
        s.update(num, Some(first)).update(num, Some(second))[num] == Some(second),
        forall|j: int|
            0 <= j < s.len() && j != num ==> #[trigger] s.update(num, Some(first)).update(
                num,
                Some(second),
            )[j] == s[j],
{
}

} // verus!
