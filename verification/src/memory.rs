use std::collections::HashMap;
use vstd::prelude::*;

verus! {

broadcast use vstd::std_specs::hash::group_hash_axioms;

/// A 16-bit byte address. Addresses wrap around naturally within the 16-bit
/// space; word operations act on the address rounded down to even.
#[derive(Clone, Copy, PartialEq, Eq, Hash, Structural, Debug)]
pub struct MemAddr(pub u16);

/// One stored byte.
#[derive(Clone, Copy, PartialEq, Eq, Structural, Debug)]
pub struct MemValue(pub u8);

/// A signed 16-bit displacement, kept in its two's-complement bit pattern.
#[derive(Clone, Copy, PartialEq, Eq, Structural, Debug)]
pub struct MemOffset(pub u16);

/// Round an address down to the nearest even value.
pub open spec fn spec_align(a: u16) -> u16 {
    a & 0xFFFE
}

/// The low byte of a 16-bit word.
pub open spec fn word_lo(v: u16) -> u8 {
    (v & 0xFF) as u8
}

/// The high byte of a 16-bit word.
pub open spec fn word_hi(v: u16) -> u8 {
    (v >> 8) as u8
}

/// Recombine a low and a high byte into a 16-bit word (little endian).
pub open spec fn word_of(lo: u8, hi: u8) -> u16 {
    ((hi as u16) << 8) | (lo as u16)
}

impl MemAddr {
    /// The same address rounded down to even.
    pub fn align(&self) -> (r: MemAddr)
        ensures
            r.0 == spec_align(self.0),
    {
        MemAddr(self.0 & 0xFFFE)
    }

    /// Step to the next word address (wrapping).
    pub fn inc(&mut self)
        ensures
            final(self).0 == crate::calc::spec_add16(old(self).0, 2),
    {
        self.0 = self.0.wrapping_add(2);
    }

    /// Step to the next byte address (wrapping).
    pub fn inc_one(&mut self)
        ensures
            final(self).0 == crate::calc::spec_add16(old(self).0, 1),
    {
        self.0 = self.0.wrapping_add(1);
    }

    /// Whether the address is even.
    pub fn is_even(&self) -> (r: bool)
        ensures
            r == (self.0 % 2 == 0),
    {
        self.0 % 2 == 0
    }
}

/// The effect of a word write on the byte store: the low byte goes to the
/// aligned address, the high byte to the address right above it.
pub open spec fn spec_insert_word(m: Map<u16, u8>, a: u16, v: u16) -> Map<u16, u8> {
    m.insert(spec_align(a), word_lo(v)).insert((spec_align(a) + 1) as u16, word_hi(v))
}

/// What a byte read returns: the stored byte, or `None` where nothing was
/// ever written.
pub open spec fn spec_get_byte(m: Map<u16, u8>, a: u16) -> Option<u8> {
    if m.contains_key(a) {
        Some(m[a])
    } else {
        None
    }
}

/// What a word read returns: both bytes of the aligned pair recombined in
/// little-endian order, or `None` where either byte is absent.
pub open spec fn spec_get_word(m: Map<u16, u8>, a: u16) -> Option<u16> {
    let al = spec_align(a);
    let ah = (spec_align(a) + 1) as u16;
    if m.contains_key(al) && m.contains_key(ah) {
        Some(word_of(m[al], m[ah]))
    } else {
        None
    }
}

/// The byte-addressable memory: a sparse map from address to byte, where
/// absence is a first-class "uninitialized" state, not zero.
#[derive(Debug, Clone)]
pub struct Memory(pub HashMap<u16, u8>);

impl View for Memory {
    type V = Map<u16, u8>;

    open spec fn view(&self) -> Map<u16, u8> {
        self.0@
    }
}

impl Memory {
    /// Create an empty memory: every address is uninitialized.
    pub fn new() -> (r: Memory)
        ensures
            r@ == Map::<u16, u8>::empty(),
    {
        Memory(HashMap::new())
    }

    /// Store one byte at the given address, leaving every other address
    /// untouched.
    pub fn insert_byte(&mut self, addr: &MemAddr, val: u8)
        ensures
            final(self)@ == old(self)@.insert(addr.0, val),
    {
        self.0.insert(addr.0, val);
    }

    /// Store a word at the given address in little-endian order: the low
    /// byte at the aligned address, the high byte right above it.
    pub fn insert_word(&mut self, addr: &MemAddr, val: u16)
        ensures
            final(self)@ == spec_insert_word(old(self)@, addr.0, val),
    {
        let a0 = addr.0;
        let aligned = a0 & 0xFFFE;
        assert(aligned <= 0xFFFE) by (bit_vector)
            requires
                aligned == a0 & 0xFFFE,
        ;
        let lo = (val & 0xFF) as u8;
        let hi = (val >> 8) as u8;
        self.0.insert(aligned, lo);
        self.0.insert(aligned + 1, hi);
    }

    /// Read the byte stored at the given address, if any.
    pub fn get_byte(&self, addr: &MemAddr) -> (r: Option<u8>)
        ensures
            r == spec_get_byte(self@, addr.0),
    {
        match self.0.get(&addr.0) {
            Some(v) => Some(*v),
            None => None,
        }
    }

    /// Read the word stored at the aligned pair of addresses, if both bytes
    /// are present.
    pub fn get_word(&self, addr: &MemAddr) -> (r: Option<u16>)
        ensures
            r == spec_get_word(self@, addr.0),
    {
        let a0 = addr.0;
        let aligned = a0 & 0xFFFE;
        assert(aligned <= 0xFFFE) by (bit_vector)
            requires
                aligned == a0 & 0xFFFE,
        ;
        let lo = match self.0.get(&aligned) {
            Some(v) => *v,
            None => {
                return None;
            },
        };
        let hi = match self.0.get(&(aligned + 1)) {
            Some(v) => *v,
            None => {
                return None;
            },
        };
        Some(((hi as u16) << 8) | (lo as u16))
    }

    /// All stored (address, byte) pairs in ascending address order. Exactly
    /// the initialized addresses appear, each once.
    pub fn sorted_entries(&self) -> (r: Vec<(u16, u8)>)
        ensures
            forall|i: int|
                0 <= i < r@.len() ==> self@.contains_key(#[trigger] r@[i].0) && self@[r@[i].0]
                    == r@[i].1,
            forall|a: u16| self@.contains_key(a) ==> exists|i: int|
                0 <= i < r@.len() && #[trigger] r@[i].0 == a,
            forall|i: int, j: int| 0 <= i < j < r@.len() ==> r@[i].0 < r@[j].0,
    {
        let mut r: Vec<(u16, u8)> = Vec::new();
        let mut a: u32 = 0;
        while a < 0x10000
            invariant
                a <= 0x10000,
                forall|i: int|
                    0 <= i < r@.len() ==> self@.contains_key(#[trigger] r@[i].0) && self@[r@[i].0]
                        == r@[i].1,
                forall|k: u16| k < a && self@.contains_key(k) ==> exists|i: int|
                    0 <= i < r@.len() && #[trigger] r@[i].0 == k,
                forall|i: int| 0 <= i < r@.len() ==> #[trigger] r@[i].0 < a,
                forall|i: int, j: int| 0 <= i < j < r@.len() ==> r@[i].0 < r@[j].0,
            decreases 0x10000 - a,
        {
            let addr = a as u16;
            let ghost prev = r@;
            match self.0.get(&addr) {
                Some(v) => {
                    r.push((addr, *v));
                    proof {
                        assert forall|k: u16| k < a + 1 && self@.contains_key(k) implies exists|
                            i: int,
                        | 0 <= i < r@.len() && #[trigger] r@[i].0 == k by {
                            if k < a {
                                let i = choose|i: int|
                                    0 <= i < prev.len() && #[trigger] prev[i].0 == k;
                                assert(r@[i].0 == k);
                            } else {
                                assert(r@[r@.len() - 1].0 == k);
                            }
                        }
                    }
                },
                None => {
                    proof {
                        assert(!self@.contains_key(addr));
                        assert forall|k: u16| k < a + 1 && self@.contains_key(k) implies exists|
                            i: int,
                        | 0 <= i < r@.len() && #[trigger] r@[i].0 == k by {
                            assert(k < a);
                            let i = choose|i: int|
                                0 <= i < prev.len() && #[trigger] prev[i].0 == k;
                            assert(r@[i].0 == k);
                        }
                    }
                },
            }
            a = a + 1;
        }
        r
    }
}

/// Storing a word and reading it back at the same address yields the word
/// unchanged, whatever the parity of the address.
pub proof fn lemma_word_round_trip(m: Map<u16, u8>, a: u16, v: u16)
    ensures
        spec_get_word(spec_insert_word(m, a, v), a) == Some(v),
{
    let al = spec_align(a);
    assert(al == a & 0xFFFE && al <= 0xFFFE) by (bit_vector)
        requires
            al == a & 0xFFFE,
    ;
    assert(word_of(word_lo(v), word_hi(v)) == v) by (bit_vector);
}

/// Storing one byte changes no other address: in particular the paired byte
/// of any word stays as it was unless it is itself overwritten.
pub proof fn lemma_insert_byte_preserves_others(m: Map<u16, u8>, a: u16, v: u8, b: u16)
    requires
        b != a,
    ensures
        spec_get_byte(m.insert(a, v), b) == spec_get_byte(m, b),
{
}

/// A word write touches exactly the aligned pair of addresses: any byte
/// outside that pair reads as before.
pub proof fn lemma_insert_word_touches_pair(m: Map<u16, u8>, a: u16, v: u16, b: u16)
    requires
        b != spec_align(a),
        b != (spec_align(a) + 1) as u16,
    ensures
        spec_get_byte(spec_insert_word(m, a, v), b) == spec_get_byte(m, b),
{
}

} // verus!
