use vstd::prelude::*;
use vstd::std_specs::hash::DefaultHasherAdditionalSpecFns;
use vstd::string::StringSliceAdditionalSpecFns;

verus! {

/// The two SipHash keys of a hash map, drawn once per map.
#[derive(Debug, Clone, Copy, PartialEq, Eq, Structural)]
pub struct RandomState {
    k0: u64,
    k1: u64,
}

impl RandomState {
    /// Keys taken from a random 128-bit value: the high half, then the low
    /// half.
    pub fn new(rand: u128) -> (r: RandomState)
        ensures
            r.keys_spec().0 == rand / 0x1_0000_0000_0000_0000,
            r.keys_spec().1 == rand % 0x1_0000_0000_0000_0000,
    {
        let high = rand / 0x1_0000_0000_0000_0000u128;
        let low = rand % 0x1_0000_0000_0000_0000u128;
        RandomState { k0: high as u64, k1: low as u64 }
    }

    pub closed spec fn keys_spec(&self) -> (u64, u64) {
        (self.k0, self.k1)
    }

    /// The two keys.
    pub fn keys(&self) -> (r: (u64, u64))
        ensures
            r == self.keys_spec(),
    {
        (self.k0, self.k1)
    }
}

/// std's default hasher as `new` creates it: every hasher so created gives
/// the same hash for the same writes.
pub struct DefaultHasher {
    inner: std::collections::hash_map::DefaultHasher,
}

impl DefaultHasher {
    /// The byte strings written so far, in order.
    pub closed spec fn written(&self) -> Seq<Seq<u8>> {
        self.inner@
    }

    /// A hasher that has seen nothing.
    pub fn new() -> (r: DefaultHasher)
        ensures
            r.written() == Seq::<Seq<u8>>::empty(),
    {
        DefaultHasher { inner: std::collections::hash_map::DefaultHasher::new() }
    }

    /// Feeds `msg` to the hasher.
    pub fn write(&mut self, msg: &[u8])
        ensures
            final(self).written() == old(self).written().push(msg@),
    {
        std::hash::Hasher::write(&mut self.inner, msg)
    }

    /// Feeds the bytes of `s` followed by a 0xff byte, so that strings that
    /// are prefixes of one another hash apart.
    pub fn write_str(&mut self, s: &str)
        ensures
            final(self).written() == old(self).written().push(s.spec_bytes()).push(seq![0xffu8]),
    {
        self.write(s.as_bytes());
        let end: Vec<u8> = vec![0xffu8];
        assert(end@ =~= seq![0xffu8]);
        self.write(end.as_slice());
    }

    /// The hash of everything written so far.
    pub fn finish(&self) -> (r: u64)
        ensures
            r == std::collections::hash_map::DefaultHasher::spec_finish(self.written()),
    {
        std::hash::Hasher::finish(&self.inner)
    }
}

} // verus!
