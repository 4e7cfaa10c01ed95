//! A fast, non-cryptographic hash (the "Fx" polynomial hash with a final
//! rotation), used to give each tweakable function a compact identity.
//!
//! The state is 64 bits wide on every platform.
use vstd::prelude::*;
use vstd::string::StringSliceAdditionalSpecFns;

verus! {

/// Multiplier of the polynomial hash.
pub const K: u64 = 0xf1357aea2e62a9c5;

/// Digits of pi, the two starting states of `hash_bytes`.
pub const SEED1: u64 = 0x243f6a8885a308d3;

pub const SEED2: u64 = 0x13198a2e03707344;

/// Mixed into the second word of each bulk block, so that zero input does not
/// collapse the state to zero.
pub const PREVENT_TRIVIAL_ZERO_COLLAPSE: u64 = 0xa4093822299f31d0;

/// Bits that `finish` rotates left.
pub const ROTATE: u64 = 20;

/// XOR of the low and the high half of the full 128-bit product `x * y`.
pub open spec fn mix(x: u64, y: u64) -> u64 {
    let full = (x as int * y as int) as u128;
    (full as u64) ^ ((full >> 64u128) as u64)
}

/// The little-endian `u64` made of the eight bytes of `b` from `off`.
pub open spec fn le_u64(b: Seq<u8>, off: int) -> u64 {
    (b[off] as u64) | ((b[off + 1] as u64) << 8u64) | ((b[off + 2] as u64) << 16u64) | ((b[off
        + 3] as u64) << 24u64) | ((b[off + 4] as u64) << 32u64) | ((b[off + 5] as u64) << 40u64)
        | ((b[off + 6] as u64) << 48u64) | ((b[off + 7] as u64) << 56u64)
}

/// The little-endian `u32` made of the four bytes of `b` from `off`, widened.
pub open spec fn le_u32(b: Seq<u8>, off: int) -> u64 {
    (b[off] as u64) | ((b[off + 1] as u64) << 8u64) | ((b[off + 2] as u64) << 16u64) | ((b[off
        + 3] as u64) << 24u64)
}

/// The state pair after the 16-byte blocks of `b` from `off`, while a block
/// starts before `len - 16`.
pub open spec fn bulk(b: Seq<u8>, off: int, s0: u64, s1: u64) -> (u64, u64)
    decreases b.len() - off,
{
    if 0 <= off && off < b.len() - 16 {
        let t = mix(s0 ^ le_u64(b, off), PREVENT_TRIVIAL_ZERO_COLLAPSE ^ le_u64(b, off + 8));
        bulk(b, off + 16, s1, t)
    } else {
        (s0, s1)
    }
}

/// The state pair that `hash_bytes` mixes at its end.
pub open spec fn final_states(b: Seq<u8>) -> (u64, u64) {
    let len = b.len();
    if len <= 16 {
        if len >= 8 {
            (SEED1 ^ le_u64(b, 0), SEED2 ^ le_u64(b, len - 8))
        } else if len >= 4 {
            (SEED1 ^ le_u32(b, 0), SEED2 ^ le_u32(b, len - 4))
        } else if len > 0 {
            (SEED1 ^ (b[0] as u64), SEED2 ^ (((b[len - 1] as u64) << 8u64) | (b[(len / 2) as int] as u64)))
        } else {
            (SEED1, SEED2)
        }
    } else {
        let (s0, s1) = bulk(b, 0, SEED1, SEED2);
        (s0 ^ le_u64(b, len - 16), s1 ^ le_u64(b, len - 8))
    }
}

/// Hash of a byte string.
pub open spec fn hash_of_bytes(b: Seq<u8>) -> u64 {
    let (s0, s1) = final_states(b);
    mix(s0, s1) ^ (b.len() as u64)
}

/// One step of the polynomial hash: add the word, then multiply by `K`.
pub open spec fn add_word(h: u64, i: u64) -> u64 {
    h.wrapping_add(i).wrapping_mul(K)
}

/// `h` rotated left by `ROTATE` bits.
pub open spec fn rotated(h: u64) -> u64 {
    (h << ROTATE) | (h >> 44u64)
}

/// Hash of a string as `str`'s `Hash` impl feeds it to a hasher: its UTF-8
/// bytes, then the byte `0xff`.
pub open spec fn hash_of_str(bytes: Seq<u8>) -> u64 {
    rotated(add_word(add_word(0, hash_of_bytes(bytes)), 0xff))
}

/// Full product of `x` and `y`, folded to 64 bits.
pub fn multiply_mix(x: u64, y: u64) -> (r: u64)
    ensures
        r == mix(x, y),
{
    assert(x as int * y as int <= u128::MAX) by (nonlinear_arith)
        requires
            x <= u64::MAX,
            y <= u64::MAX,
    ;
    let full = (x as u128) * (y as u128);
    let lo = full as u64;
    let hi = (full >> 64u32) as u64;
    lo ^ hi
}

fn read_u64(b: &[u8], off: usize) -> (r: u64)
    requires
        off + 8 <= b@.len(),
    ensures
        r == le_u64(b@, off as int),
{
    (b[off] as u64) | ((b[off + 1] as u64) << 8u64) | ((b[off + 2] as u64) << 16u64) | ((b[off
        + 3] as u64) << 24u64) | ((b[off + 4] as u64) << 32u64) | ((b[off + 5] as u64) << 40u64)
        | ((b[off + 6] as u64) << 48u64) | ((b[off + 7] as u64) << 56u64)
}

fn read_u32(b: &[u8], off: usize) -> (r: u64)
    requires
        off + 4 <= b@.len(),
    ensures
        r == le_u32(b@, off as int),
{
    (b[off] as u64) | ((b[off + 1] as u64) << 8u64) | ((b[off + 2] as u64) << 16u64) | ((b[off
        + 3] as u64) << 24u64)
}

/// Compresses a byte string to one word: reads it in overlapping 8-byte
/// words, 16 bytes a round, and mixes the two running states at the end.
pub fn hash_bytes(bytes: &[u8]) -> (r: u64)
    ensures
        r == hash_of_bytes(bytes@),
{
    let len = bytes.len();
    let mut s0: u64 = SEED1;
    let mut s1: u64 = SEED2;
    if len <= 16 {
        if len >= 8 {
            s0 = s0 ^ read_u64(bytes, 0);
            s1 = s1 ^ read_u64(bytes, len - 8);
        } else if len >= 4 {
            s0 = s0 ^ read_u32(bytes, 0);
            s1 = s1 ^ read_u32(bytes, len - 4);
        } else if len > 0 {
            let lo = bytes[0];
            let mid = bytes[len / 2];
            let hi = bytes[len - 1];
            s0 = s0 ^ (lo as u64);
            s1 = s1 ^ (((hi as u64) << 8u64) | (mid as u64));
        }
    } else {
        let mut off: usize = 0;
        while off < len - 16
            invariant
                len == bytes@.len(),
                len > 16,
                off <= len,
                bulk(bytes@, off as int, s0, s1) == bulk(bytes@, 0, SEED1, SEED2),
            decreases len - off,
        {
            let x = read_u64(bytes, off);
            let y = read_u64(bytes, off + 8);
            let t = multiply_mix(s0 ^ x, PREVENT_TRIVIAL_ZERO_COLLAPSE ^ y);
            s0 = s1;
            s1 = t;
            off = off + 16;
        }
        s0 = s0 ^ read_u64(bytes, len - 16);
        s1 = s1 ^ read_u64(bytes, len - 8);
    }
    multiply_mix(s0, s1) ^ (len as u64)
}

/// Running state of the Fx hash.
#[derive(Clone, Copy, Debug)]
pub struct FxHasher {
    pub hash: u64,
}

impl FxHasher {
    /// A hasher in its starting state.
    pub fn default() -> (r: FxHasher)
        ensures
            r.hash == 0,
    {
        FxHasher { hash: 0 }
    }

    fn add_to_hash(&mut self, i: u64)
        ensures
            final(self).hash == add_word(old(self).hash, i),
    {
        self.hash = self.hash.wrapping_add(i).wrapping_mul(K);
    }

    /// The hash of everything written so far.
    pub fn finish(&self) -> (r: u64)
        ensures
            r == rotated(self.hash),
    {
        (self.hash << ROTATE) | (self.hash >> 44u64)
    }

    /// Feeds a byte string, compressed to one word.
    pub fn write(&mut self, bytes: &[u8])
        ensures
            final(self).hash == add_word(old(self).hash, hash_of_bytes(bytes@)),
    {
        self.write_u64(hash_bytes(bytes));
    }

    pub fn write_u8(&mut self, i: u8)
        ensures
            final(self).hash == add_word(old(self).hash, i as u64),
    {
        self.add_to_hash(i as u64);
    }

    pub fn write_u16(&mut self, i: u16)
        ensures
            final(self).hash == add_word(old(self).hash, i as u64),
    {
        self.add_to_hash(i as u64);
    }

    pub fn write_u32(&mut self, i: u32)
        ensures
            final(self).hash == add_word(old(self).hash, i as u64),
    {
        self.add_to_hash(i as u64);
    }

    pub fn write_u64(&mut self, i: u64)
        ensures
            final(self).hash == add_word(old(self).hash, i),
    {
        self.add_to_hash(i);
    }

    /// Feeds the low, then the high half of `i`.
    pub fn write_u128(&mut self, i: u128)
        ensures
            final(self).hash == add_word(add_word(old(self).hash, i as u64), (i >> 64u128) as u64),
    {
        self.add_to_hash(i as u64);
        self.add_to_hash((i >> 64u32) as u64);
    }

    pub fn write_usize(&mut self, i: usize)
        ensures
            final(self).hash == add_word(old(self).hash, i as u64),
    {
        self.add_to_hash(i as u64);
    }

    /// Feeds a string the way `str`'s `Hash` impl does: its UTF-8 bytes, then
    /// the byte `0xff`.
    pub fn write_str(&mut self, s: &str)
        ensures
            final(self).hash == add_word(
                add_word(old(self).hash, hash_of_bytes(s.spec_bytes())),
                0xff,
            ),
    {
        self.write(s.as_bytes());
        self.write_u8(0xff);
    }
}

/// The Fx hash of a string, as a fresh hasher finishes after `write_str`.
pub fn hash_str(s: &str) -> (r: u64)
    ensures
        r == hash_of_str(s.spec_bytes()),
{
    let mut h = FxHasher::default();
    h.write_str(s);
    h.finish()
}

} // verus!
