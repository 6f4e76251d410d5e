//! Byte-within-word patching.
//!
//! The tracing memory primitive reads and writes whole aligned machine words,
//! so installing or removing a one-byte breakpoint trap is an aligned read,
//! a masked merge of the single byte, and an aligned write.  This module
//! holds that merge as verified bit-level functions, together with the
//! round-trip facts the breakpoint engine rests on.

use vstd::prelude::*;

verus! {

/// Width in bytes of the machine word that the tracing memory primitive
/// reads and writes.
pub const WORD_SIZE: usize = 8;

/// The one-byte trap opcode that implements a software breakpoint.
pub const TRAP_OPCODE: u8 = 0xcc;

/// The byte of `word` at byte position `off`, counting from the least
/// significant byte (little-endian, as the traced machine lays words out).
pub open spec fn byte_of_word(word: u64, off: usize) -> u8
    recommends
        off < WORD_SIZE,
{
    ((word >> ((8 * off) as u64)) & 0xff) as u8
}

/// `word` with the byte at position `off` replaced by `val` and every other
/// byte unchanged.
pub open spec fn word_with_byte(word: u64, off: usize, val: u8) -> u64
    recommends
        off < WORD_SIZE,
{
    (word & !(0xffu64 << ((8 * off) as u64))) | ((val as u64) << ((8 * off) as u64))
}

/// Largest word-aligned address not above `addr`: the address at which the
/// word containing `addr` is read and written.
pub fn align_addr_to_word(addr: usize) -> (r: usize)
    ensures
        r == addr - addr % WORD_SIZE,
        r % WORD_SIZE == 0,
        r <= addr,
        addr - r < WORD_SIZE,
{
    addr - addr % WORD_SIZE
}

/// Byte position of `addr` within its containing word.
pub fn byte_offset_in_word(addr: usize) -> (r: usize)
    ensures
        r == addr % WORD_SIZE,
        r < WORD_SIZE,
{
    addr % WORD_SIZE
}

/// Reads the single byte at position `off` out of `word`.
pub fn extract_byte(word: u64, off: usize) -> (r: u8)
    requires
        off < WORD_SIZE,
    ensures
        r == byte_of_word(word, off),
{
    let sh: u64 = 8 * (off as u64);
    let masked: u64 = (word >> sh) & 0xff;
    proof {
        assert(masked == (byte_of_word(word, off) as u64) && masked <= 0xff) by (bit_vector)
            requires
                off < 8 && masked == (word >> ((8 * (off as u64)) as u64)) & 0xff,
        ;
    }
    masked as u8
}

/// Writes `val` over the byte at position `off` of `word`, leaving the other
/// bytes of the word as they were.
pub fn replace_byte(word: u64, off: usize, val: u8) -> (r: u64)
    requires
        off < WORD_SIZE,
    ensures
        r == word_with_byte(word, off, val),
{
    let sh: u64 = 8 * (off as u64);
    let r: u64 = (word & !(0xffu64 << sh)) | ((val as u64) << sh);
    proof {
        assert(r == word_with_byte(word, off, val)) by (bit_vector)
            requires
                off < 8 && r == (word & !(0xffu64 << ((8 * (off as u64)) as u64))) | ((val
                    as u64) << ((8 * (off as u64)) as u64)),
        ;
    }
    r
}

/// Replacing a byte plants exactly that byte: reading the position back
/// yields the new value, and every other position of the word is untouched.
pub proof fn lemma_word_with_byte(word: u64, off: usize, val: u8)
    requires
        off < WORD_SIZE,
    ensures
        byte_of_word(word_with_byte(word, off, val), off) == val,
        forall|k: usize|
            k < WORD_SIZE && k != off ==> byte_of_word(word_with_byte(word, off, val), k)
                == byte_of_word(word, k),
{
    assert(byte_of_word(word_with_byte(word, off, val), off) == val) by (bit_vector)
        requires
            off < 8,
    ;
    assert forall|k: usize|
        k < WORD_SIZE && k != off implies byte_of_word(word_with_byte(word, off, val), k)
        == byte_of_word(word, k) by {
        assert(byte_of_word(word_with_byte(word, off, val), k) == byte_of_word(word, k))
            by (bit_vector)
            requires
                off < 8 && k < 8 && k != off,
        ;
    }
}

/// Patch/restore round trip: overwriting the byte at `off` (in particular
/// with the trap opcode) and then writing the displaced byte back restores
/// the containing word bit for bit.
pub proof fn lemma_patch_restore_roundtrip(word: u64, off: usize, val: u8)
    requires
        off < WORD_SIZE,
    ensures
        word_with_byte(word_with_byte(word, off, val), off, byte_of_word(word, off)) == word,
{
    assert(word_with_byte(word_with_byte(word, off, val), off, byte_of_word(word, off))
        == word) by (bit_vector)
        requires
            off < 8,
    ;
}

} // verus!
