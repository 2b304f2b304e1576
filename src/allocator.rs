use vstd::prelude::*;
use vstd::arithmetic::div_mod::{
    lemma_div_is_ordered,
    lemma_div_multiples_vanish,
    lemma_fundamental_div_mod,
    lemma_mod_multiples_basic,
};

verus! {

/// Why an allocation request was refused.
#[derive(Debug, Clone, Copy, PartialEq, Eq, Structural)]
pub enum AllocError {
    /// The request's parameters are not acceptable.
    InvalidParam,
    /// Not enough free memory is left.
    NoMemory,
}

/// `x` rounded down to a multiple of `a`.
pub open spec fn round_down(x: int, a: int) -> int {
    x - x % a
}

/// `x` rounded up to a multiple of `a`.
pub open spec fn round_up(x: int, a: int) -> int {
    if x % a == 0 {
        x
    } else {
        x - x % a + a
    }
}

/// `n` is a power of two.
pub open spec fn is_pow2(n: nat) -> bool
    decreases n,
{
    if n == 1 {
        true
    } else if n >= 2 && n % 2 == 0 {
        is_pow2(n / 2)
    } else {
        false
    }
}

/// Whether `n` is a power of two.
pub fn is_power_of_two(n: usize) -> (r: bool)
    ensures
        r == is_pow2(n as nat),
{
    let mut x = n;
    while x >= 2 && x % 2 == 0
        invariant
            is_pow2(x as nat) == is_pow2(n as nat),
        decreases x,
    {
        x = x / 2;
    }
    x == 1
}

proof fn lemma_aligned_sub(a: int, b: int, p: int)
    requires
        p > 0,
        0 <= b <= a,
        a % p == 0,
        b % p == 0,
    ensures
        (a - b) / p == a / p - b / p,
        (a - b) % p == 0,
{
    lemma_fundamental_div_mod(a, p);
    lemma_fundamental_div_mod(b, p);
    let q = a / p - b / p;
    assert(a - b == p * q) by (nonlinear_arith)
        requires
            a == p * (a / p),
            b == p * (b / p),
            q == a / p - b / p,
    ;
    lemma_div_multiples_vanish(q, p);
    lemma_mod_multiples_basic(q, p);
    assert(q * p == p * q) by (nonlinear_arith);
}

proof fn lemma_round_down_aligned(x: int, a: int, p: int)
    requires
        p > 0,
        a > 0,
        x >= 0,
        a % p == 0,
    ensures
        round_down(x, a) % p == 0,
        0 <= round_down(x, a) <= x,
{
    lemma_fundamental_div_mod(x, a);
    lemma_fundamental_div_mod(a, p);
    let k = (a / p) * (x / a);
    assert(round_down(x, a) == k * p) by (nonlinear_arith)
        requires
            x == a * (x / a) + x % a,
            a == p * (a / p) + a % p,
            a % p == 0,
            k == (a / p) * (x / a),
    ;
    lemma_mod_multiples_basic(k, p);
}

proof fn lemma_round_up_within(x: int, y: int, p: int)
    requires
        p > 0,
        0 <= x <= y,
        y % p == 0,
    ensures
        x <= round_up(x, p) <= y,
        round_up(x, p) % p == 0,
{
    lemma_fundamental_div_mod(x, p);
    lemma_fundamental_div_mod(y, p);
    lemma_div_is_ordered(x, y, p);
    let qx = x / p;
    let qy = y / p;
    if x % p != 0 {
        assert(qx + 1 <= qy) by (nonlinear_arith)
            requires
                x == p * qx + x % p,
                y == p * qy,
                0 < x % p < p,
                x <= y,
                qx <= qy,
        ;
        assert(round_up(x, p) == p * (qx + 1)) by (nonlinear_arith)
            requires
                x == p * qx + x % p,
                round_up(x, p) == x - x % p + p,
        ;
        assert(p * (qx + 1) <= p * qy) by (nonlinear_arith)
            requires
                qx + 1 <= qy,
                p > 0,
        ;
        lemma_mod_multiples_basic(qx + 1, p);
        assert((qx + 1) * p == p * (qx + 1)) by (nonlinear_arith);
    }
}

proof fn lemma_divides_trans(x: int, p: int, a: int)
    requires
        x >= 0,
        p > 0,
        a > 0,
        x % p == 0,
        p % a == 0,
    ensures
        x % a == 0,
{
    lemma_fundamental_div_mod(x, p);
    lemma_fundamental_div_mod(p, a);
    let k = (p / a) * (x / p);
    assert(x == k * a) by (nonlinear_arith)
        requires
            x == p * (x / p) + x % p,
            p == a * (p / a) + p % a,
            x % p == 0,
            p % a == 0,
            k == (p / a) * (x / p),
    ;
    lemma_mod_multiples_basic(k, a);
}

/// Of two powers of two, one is a multiple of the other.
proof fn lemma_pow2_divides(a: nat, p: nat)
    requires
        is_pow2(a),
        is_pow2(p),
    ensures
        a > 0,
        p > 0,
        a % p == 0 || p % a == 0,
    decreases a + p,
{
    if a == 1 {
        assert(p % 1 == 0);
    } else if p == 1 {
        assert(a % 1 == 0);
    } else {
        let ha = a / 2;
        let hp = p / 2;
        lemma_pow2_divides(ha, hp);
        if ha % hp == 0 {
            lemma_fundamental_div_mod(ha as int, hp as int);
            let k = ha as int / hp as int;
            assert(a == k * p) by (nonlinear_arith)
                requires
                    ha == hp * k + ha % hp,
                    ha % hp == 0,
                    a == 2 * ha,
                    p == 2 * hp,
            ;
            lemma_mod_multiples_basic(k, p as int);
        } else {
            lemma_fundamental_div_mod(hp as int, ha as int);
            let k = hp as int / ha as int;
            assert(p == k * a) by (nonlinear_arith)
                requires
                    hp == ha * k + hp % ha,
                    hp % ha == 0,
                    a == 2 * ha,
                    p == 2 * hp,
            ;
            lemma_mod_multiples_basic(k, a as int);
        }
    }
}

/// `x` rounded up to a multiple of `a`, where that fits.
fn round_up_checked(x: usize, a: usize) -> (r: Option<usize>)
    requires
        a > 0,
    ensures
        round_up(x as int, a as int) <= usize::MAX ==> r == Some(round_up(x as int, a as int) as usize),
        round_up(x as int, a as int) > usize::MAX ==> r is None,
{
    let rem = x % a;
    proof {
        lemma_fundamental_div_mod(x as int, a as int);
        assert(rem <= x) by (nonlinear_arith)
            requires
                x == a * (x as int / a as int) + rem,
                x as int / a as int >= 0,
                a > 0,
        ;
    }
    if rem == 0 {
        Some(x)
    } else if x - rem > usize::MAX - a {
        None
    } else {
        Some(x - rem + a)
    }
}

struct PageInfo {
    pos: usize,
    used_pages: usize,
}

struct ByteInfo {
    pos: usize,
    pos_byte: usize,
    used_pages: usize,
    used_bytes: usize,
}

/// A simple allocator for early boot: bytes are handed out upwards from the
/// start of the region, pages downwards from its end. Pages are never freed;
/// the byte area is reclaimed as a whole once every byte block is freed.
pub struct EarlyAllocator<const PAGE_SIZE: usize> {
    total_pages: usize,
    start: usize,
    end: usize,
    page: PageInfo,
    byte: ByteInfo,
}

impl<const PAGE_SIZE: usize> EarlyAllocator<PAGE_SIZE> {
    /// First address of the managed region.
    pub closed spec fn start(&self) -> int {
        self.start as int
    }

    /// Address just past the managed region.
    pub closed spec fn end(&self) -> int {
        self.end as int
    }

    /// Lowest address handed out as pages.
    pub closed spec fn page_pos(&self) -> int {
        self.page.pos as int
    }

    /// Address just past the last byte handed out as bytes.
    pub closed spec fn byte_pos(&self) -> int {
        self.byte.pos_byte as int
    }

    /// Page boundary just past the byte area.
    pub closed spec fn byte_page_end(&self) -> int {
        self.byte.pos as int
    }

    /// Bytes handed out and not yet freed.
    pub closed spec fn live_bytes(&self) -> int {
        self.byte.used_bytes as int
    }

    pub closed spec fn wf(&self) -> bool {
        let p = PAGE_SIZE as int;
        &&& p > 0
        &&& is_pow2(PAGE_SIZE as nat)
        &&& self.start <= self.byte.pos_byte
        &&& self.byte.pos_byte <= self.byte.pos
        &&& self.byte.pos <= self.page.pos
        &&& self.page.pos <= self.end
        &&& self.start as int % p == 0
        &&& self.end as int % p == 0
        &&& self.page.pos as int % p == 0
        &&& self.byte.pos as int % p == 0
        &&& self.total_pages == (self.end - self.start) / p
        &&& self.page.used_pages == (self.end - self.page.pos) / p
        &&& self.byte.used_pages == (self.byte.pos - self.start) / p
        &&& self.byte.used_bytes <= self.byte.pos_byte - self.start
    }

    /// A new allocator managing nothing.
    pub fn new() -> (r: Self)
        ensures
            is_pow2(PAGE_SIZE as nat) ==> r.wf(),
            r.start() == 0,
            r.end() == 0,
            r.page_pos() == 0,
            r.byte_pos() == 0,
            r.byte_page_end() == 0,
            r.live_bytes() == 0,
    {
        proof {
            if is_pow2(PAGE_SIZE as nat) {
                lemma_pow2_divides(PAGE_SIZE as nat, PAGE_SIZE as nat);
            }
        }
        EarlyAllocator {
            total_pages: 0,
            start: 0,
            end: 0,
            page: PageInfo { pos: 0, used_pages: 0 },
            byte: ByteInfo { pos: 0, pos_byte: 0, used_pages: 0, used_bytes: 0 },
        }
    }

    /// Takes the region `[start, start + size)`, trimmed inwards to page
    /// boundaries, and forgets every earlier allocation.
    pub fn init(&mut self, start: usize, size: usize)
        requires
            is_pow2(PAGE_SIZE as nat),
            start + size <= usize::MAX,
            round_up(start as int, PAGE_SIZE as int) <= round_down(
                start + size,
                PAGE_SIZE as int,
            ),
        ensures
            final(self).wf(),
            final(self).start() == round_up(start as int, PAGE_SIZE as int),
            final(self).end() == round_down(start + size, PAGE_SIZE as int),
            final(self).page_pos() == final(self).end(),
            final(self).byte_pos() == final(self).start(),
            final(self).byte_page_end() == final(self).start(),
            final(self).live_bytes() == 0,
    {
        let p = PAGE_SIZE;
        proof {
            lemma_pow2_divides(PAGE_SIZE as nat, PAGE_SIZE as nat);
        }
        let top = start + size;
        let end = top - top % p;
        proof {
            lemma_round_down_aligned(top as int, p as int, p as int);
            lemma_round_up_within(start as int, end as int, p as int);
        }
        let begin = match round_up_checked(start, p) {
            Some(v) => v,
            None => end,
        };
        self.start = begin;
        self.end = end;
        self.total_pages = (end - begin) / p;
        self.byte = ByteInfo { pos: begin, pos_byte: begin, used_pages: 0, used_bytes: 0 };
        self.page = PageInfo { pos: end, used_pages: 0 };
        assert((end - end) / (p as int) == 0);
        assert((begin - begin) / (p as int) == 0);
    }

    /// The region is ordered and page-aligned: bytes grow up from `start`,
    /// pages down from `end`, and the two areas never overlap.
    pub proof fn lemma_layout(&self)
        requires
            self.wf(),
        ensures
            is_pow2(PAGE_SIZE as nat),
            self.start() <= self.byte_pos() <= self.byte_page_end() <= self.page_pos() <= self.end(),
            self.start() % (PAGE_SIZE as int) == 0,
            self.end() % (PAGE_SIZE as int) == 0,
            self.page_pos() % (PAGE_SIZE as int) == 0,
            self.byte_page_end() % (PAGE_SIZE as int) == 0,
            0 <= self.live_bytes() <= self.byte_pos() - self.start(),
    {
    }

    /// Where `alloc_pages(num_pages, align)` places its block, or why it
    /// refuses.
    pub open spec fn alloc_pages_outcome(&self, num_pages: int, align: int) -> Result<int, AllocError> {
        let p = PAGE_SIZE as int;
        if align % p != 0 || !is_pow2((align / p) as nat) || num_pages == 0 {
            Err(AllocError::InvalidParam)
        } else if num_pages * p > self.page_pos() {
            Err(AllocError::NoMemory)
        } else if self.byte_page_end() > round_down(self.page_pos() - num_pages * p, align / p) {
            Err(AllocError::NoMemory)
        } else {
            Ok(round_down(self.page_pos() - num_pages * p, align / p))
        }
    }

    /// Hands out `num_pages` pages below those already handed out. The block
    /// starts at a multiple of `align_pow2 / PAGE_SIZE`, which must be a
    /// power of two.
    pub fn alloc_pages(&mut self, num_pages: usize, align_pow2: usize) -> (r: Result<usize, AllocError>)
        requires
            old(self).wf(),
        ensures
            final(self).wf(),
            r matches Ok(pos) ==> old(self).alloc_pages_outcome(num_pages as int, align_pow2 as int)
                == Ok::<int, AllocError>(pos as int),
            r matches Err(e) ==> old(self).alloc_pages_outcome(num_pages as int, align_pow2 as int)
                == Err::<int, AllocError>(e),
            r matches Ok(pos) ==> final(self).page_pos() == pos && pos as int % (align_pow2 as int
                / PAGE_SIZE as int) == 0,
            r is Err ==> *final(self) == *old(self),
            final(self).start() == old(self).start(),
            final(self).end() == old(self).end(),
            final(self).byte_pos() == old(self).byte_pos(),
            final(self).byte_page_end() == old(self).byte_page_end(),
            final(self).live_bytes() == old(self).live_bytes(),
    {
        let p = PAGE_SIZE;
        if align_pow2 % p != 0 {
            return Err(AllocError::InvalidParam);
        }
        if !is_power_of_two(align_pow2 / p) {
            return Err(AllocError::InvalidParam);
        }
        if num_pages == 0 {
            return Err(AllocError::InvalidParam);
        }
        if num_pages > self.page.pos / p {
            proof {
                lemma_fundamental_div_mod(self.page.pos as int, p as int);
                assert(num_pages * p > self.page.pos) by (nonlinear_arith)
                    requires
                        num_pages > self.page.pos as int / p as int,
                        self.page.pos == p * (self.page.pos as int / p as int) + self.page.pos as int % p as int,
                        self.page.pos as int % p as int == 0,
                        p > 0,
                ;
            }
            return Err(AllocError::NoMemory);
        }
        proof {
            lemma_fundamental_div_mod(self.page.pos as int, p as int);
            assert(num_pages * p <= self.page.pos) by (nonlinear_arith)
                requires
                    num_pages <= self.page.pos as int / p as int,
                    self.page.pos == p * (self.page.pos as int / p as int) + self.page.pos as int % p as int,
                    p > 0,
            ;
            lemma_mod_multiples_basic(num_pages as int, p as int);
            lemma_aligned_sub(self.page.pos as int, num_pages * p, p as int);
        }
        let want = self.page.pos - num_pages * p;
        let a = align_pow2 / p;
        proof {
            lemma_pow2_divides(a as nat, p as nat);
            lemma_round_down_aligned(want as int, a as int, a as int);
            if a as int % p as int == 0 {
                lemma_round_down_aligned(want as int, a as int, p as int);
            } else {
                lemma_divides_trans(want as int, p as int, a as int);
            }
        }
        let pos_alloc = want - want % a;
        if self.byte.pos > pos_alloc {
            return Err(AllocError::NoMemory);
        }
        self.page.pos = pos_alloc;
        self.page.used_pages = (self.end - self.page.pos) / p;
        Ok(pos_alloc)
    }

    /// Pages never return to the allocator.
    pub fn dealloc_pages(&mut self, pos: usize, num_pages: usize)
        ensures
            *final(self) == *old(self),
    {
    }

    /// Pages in the managed region.
    pub fn total_pages(&self) -> (r: usize)
        requires
            self.wf(),
        ensures
            r == (self.end() - self.start()) / (PAGE_SIZE as int),
    {
        self.total_pages
    }

    /// Pages handed out as pages.
    pub fn used_pages(&self) -> (r: usize)
        requires
            self.wf(),
        ensures
            r == (self.end() - self.page_pos()) / (PAGE_SIZE as int),
    {
        self.page.used_pages
    }

    /// Whole pages between the byte area and the page area.
    pub fn available_pages(&self) -> (r: usize)
        requires
            self.wf(),
        ensures
            r == (self.page_pos() - self.byte_page_end()) / (PAGE_SIZE as int),
            r == (self.end() - self.start()) / (PAGE_SIZE as int) - (self.end() - self.page_pos()) / (
            PAGE_SIZE as int) - (self.byte_page_end() - self.start()) / (PAGE_SIZE as int),
    {
        let ghost p = PAGE_SIZE as int;
        proof {
            lemma_aligned_sub(self.end as int, self.start as int, p);
            lemma_aligned_sub(self.end as int, self.page.pos as int, p);
            lemma_aligned_sub(self.byte.pos as int, self.start as int, p);
            lemma_aligned_sub(self.page.pos as int, self.byte.pos as int, p);
            lemma_div_is_ordered(self.byte.pos as int, self.page.pos as int, p);
        }
        self.total_pages - self.page.used_pages - self.byte.used_pages
    }

    /// Where `alloc_bytes(size, align)` places its block, or why it refuses.
    pub open spec fn alloc_outcome(&self, size: int, align: int) -> Result<int, AllocError> {
        let pos = round_up(self.byte_pos(), align);
        if pos > usize::MAX || pos + size > self.page_pos() {
            Err(AllocError::NoMemory)
        } else {
            Ok(pos)
        }
    }

    /// Hands out `size` bytes aligned to `align`, above those already handed
    /// out and below the page area. The byte area must not start at address
    /// zero, as it does before `init`.
    pub fn alloc_bytes(&mut self, size: usize, align: usize) -> (r: Result<usize, AllocError>)
        requires
            old(self).wf(),
            old(self).byte_pos() >= 1,
            align > 0,
        ensures
            final(self).wf(),
            r matches Ok(pos) ==> old(self).alloc_outcome(size as int, align as int) == Ok::<
                int,
                AllocError,
            >(pos as int),
            r matches Err(e) ==> old(self).alloc_outcome(size as int, align as int) == Err::<
                int,
                AllocError,
            >(e),
            r matches Ok(pos) ==> {
                &&& final(self).byte_pos() == pos + size
                &&& final(self).live_bytes() == old(self).live_bytes() + size
                &&& final(self).byte_page_end() == round_up(pos + size, PAGE_SIZE as int)
                &&& final(self).page_pos() == old(self).page_pos()
            },
            r is Err ==> *final(self) == *old(self),
            final(self).start() == old(self).start(),
            final(self).end() == old(self).end(),
    {
        let pos_alloc = match round_up_checked(self.byte.pos_byte, align) {
            Some(v) => v,
            None => {
                return Err(AllocError::NoMemory);
            },
        };
        if pos_alloc > self.page.pos || size > self.page.pos - pos_alloc {
            return Err(AllocError::NoMemory);
        }
        proof {
            if self.byte.pos_byte as int % align as int != 0 {
                lemma_fundamental_div_mod(self.byte.pos_byte as int, align as int);
            }
            lemma_round_up_within(
                (pos_alloc + size) as int,
                self.page.pos as int,
                PAGE_SIZE as int,
            );
        }
        self.byte.pos_byte = pos_alloc + size;
        self.byte.used_bytes = self.byte.used_bytes + size;
        let top = self.byte.pos_byte;
        self.byte.pos = match round_up_checked(top, PAGE_SIZE) {
            Some(v) => v,
            None => self.page.pos,
        };
        proof {
            lemma_aligned_sub(self.byte.pos as int, self.start as int, PAGE_SIZE as int);
        }
        self.byte.used_pages = (self.byte.pos - self.start) / PAGE_SIZE;
        Ok(pos_alloc)
    }

    /// Returns `size` bytes; once every handed-out byte is back, the whole
    /// byte area is free again.
    pub fn dealloc(&mut self, pos: usize, size: usize)
        requires
            old(self).wf(),
            size <= old(self).live_bytes(),
        ensures
            final(self).wf(),
            final(self).live_bytes() == old(self).live_bytes() - size,
            final(self).live_bytes() == 0 ==> final(self).byte_pos() == final(self).start()
                && final(self).byte_page_end() == final(self).start(),
            final(self).live_bytes() != 0 ==> final(self).byte_pos() == old(self).byte_pos()
                && final(self).byte_page_end() == old(self).byte_page_end(),
            final(self).start() == old(self).start(),
            final(self).end() == old(self).end(),
            final(self).page_pos() == old(self).page_pos(),
    {
        self.byte.used_bytes = self.byte.used_bytes - size;
        if self.byte.used_bytes == 0 {
            self.byte = ByteInfo { pos: self.start, pos_byte: self.start, used_pages: 0, used_bytes: 0 };
            assert((self.start - self.start) / (PAGE_SIZE as int) == 0);
        }
    }

    /// Bytes in the managed region.
    pub fn total_bytes(&self) -> (r: usize)
        requires
            self.wf(),
        ensures
            r == self.end() - self.start(),
    {
        self.end - self.start
    }

    /// Bytes from the start of the region to the end of the byte area.
    pub fn used_bytes(&self) -> (r: usize)
        requires
            self.wf(),
        ensures
            r == self.byte_pos() - self.start(),
    {
        self.byte.pos_byte - self.start
    }

    /// Bytes between the byte area and the page area.
    pub fn available_bytes(&self) -> (r: usize)
        requires
            self.wf(),
        ensures
            r == self.page_pos() - self.byte_pos(),
            r + (self.byte_pos() - self.start()) + (self.end() - self.page_pos()) / (
            PAGE_SIZE as int) * (PAGE_SIZE as int) == self.end() - self.start(),
    {
        proof {
            let p = PAGE_SIZE as int;
            lemma_aligned_sub(self.end as int, self.page.pos as int, p);
            lemma_fundamental_div_mod(self.end - self.page.pos, p);
            assert((self.end - self.page.pos) / p * p == p * ((self.end - self.page.pos) / p))
                by (nonlinear_arith);
        }
        self.page.pos - self.byte.pos_byte
    }

    /// Growing the region is not supported.
    pub fn add_memory(&mut self, start: usize, size: usize) -> (r: Result<(), AllocError>)
        ensures
            r == Err::<(), AllocError>(AllocError::InvalidParam),
            *final(self) == *old(self),
    {
        Err(AllocError::InvalidParam)
    }
}

} // verus!
