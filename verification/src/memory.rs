use crate::arith::{add_wrapping, unsigned, wrapping_sum};
use std::collections::HashMap;
use vstd::prelude::*;

verus! {

broadcast use vstd::std_specs::hash::group_hash_axioms;

/// Sparse byte-addressable storage over the whole 64-bit address space.
///
/// Its view is the map from each address that was written to the byte it
/// holds. An address outside that map reads as zero.
pub struct MemoryImage {
    cells: HashMap<u64, u8>,
}

impl View for MemoryImage {
    type V = Map<u64, u8>;

    closed spec fn view(&self) -> Map<u64, u8> {
        self.cells@
    }
}

/// The byte that a memory with the written cells `m` shows at `addr`.
pub open spec fn byte_at(m: Map<u64, u8>, addr: u64) -> u8 {
    if m.contains_key(addr) {
        m[addr]
    } else {
        0
    }
}

/// The little-endian halfword at `addr` and the address after it.
pub open spec fn half_at(m: Map<u64, u8>, addr: u64) -> u16 {
    (byte_at(m, addr) + 0x100 * byte_at(m, wrapping_sum(addr, 1))) as u16
}

/// The little-endian word at `addr` and the three addresses after it.
pub open spec fn word_at(m: Map<u64, u8>, addr: u64) -> u32 {
    (byte_at(m, addr) + 0x100 * byte_at(m, wrapping_sum(addr, 1)) + 0x1_0000 * byte_at(
        m,
        wrapping_sum(addr, 2),
    ) + 0x100_0000 * byte_at(m, wrapping_sum(addr, 3))) as u32
}

/// `m` after a halfword was stored at `addr`, low byte first.
pub open spec fn with_half(m: Map<u64, u8>, addr: u64, value: u16) -> Map<u64, u8> {
    m.insert(addr, (value % 0x100) as u8).insert(wrapping_sum(addr, 1), (value / 0x100) as u8)
}

/// `m` after a word was stored at `addr`, low byte first.
pub open spec fn with_word(m: Map<u64, u8>, addr: u64, value: u32) -> Map<u64, u8> {
    m.insert(addr, (value % 0x100) as u8).insert(
        wrapping_sum(addr, 1),
        ((value / 0x100) % 0x100) as u8,
    ).insert(wrapping_sum(addr, 2), ((value / 0x1_0000) % 0x100) as u8).insert(
        wrapping_sum(addr, 3),
        (value / 0x100_0000) as u8,
    )
}

/// How far `addr` lies above `base`, going round the address space.
pub open spec fn offset_from(base: u64, addr: u64) -> int {
    unsigned(addr - base) as int
}

/// `m` after `bytes` were stored at `base` and the addresses after it.
pub open spec fn with_bytes(m: Map<u64, u8>, base: u64, bytes: Seq<u8>) -> Map<u64, u8> {
    Map::new(
        |addr: u64| m.contains_key(addr) || offset_from(base, addr) < bytes.len(),
        |addr: u64|
            if offset_from(base, addr) < bytes.len() {
                bytes[offset_from(base, addr)]
            } else {
                m[addr]
            },
    )
}

/// The address `i` places above `base`, going round the address space.
pub open spec fn address_above(base: u64, i: int) -> u64 {
    unsigned(base + i)
}

/// The bytes that `m` shows at `base` and the addresses after it, `len` in
/// all.
pub open spec fn bytes_at(m: Map<u64, u8>, base: u64, len: nat) -> Seq<u8> {
    Seq::new(len, |i: int| byte_at(m, address_above(base, i)))
}

/// `m` after the byte writes of `writes`, each an address and a byte, made in
/// order.
pub open spec fn after_writes(m: Map<u64, u8>, writes: Seq<(u64, u8)>) -> Map<u64, u8>
    decreases writes.len(),
{
    if writes.len() == 0 {
        m
    } else {
        after_writes(m, writes.drop_last()).insert(writes.last().0, writes.last().1)
    }
}

impl MemoryImage {
    /// A memory in which nothing was written.
    pub fn new() -> (mem: Self)
        ensures
            mem@ == Map::<u64, u8>::empty(),
    {
        MemoryImage { cells: HashMap::new() }
    }

    /// The byte at `addr`; zero where nothing was written.
    pub fn get(&self, addr: u64) -> (byte: u8)
        ensures
            byte == byte_at(self@, addr),
    {
        match self.cells.get(&addr) {
            Some(b) => *b,
            None => 0,
        }
    }

    /// Writes `byte` at `addr`.
    pub fn set(&mut self, addr: u64, byte: u8)
        ensures
            final(self)@ == old(self)@.insert(addr, byte),
    {
        self.cells.insert(addr, byte);
    }

    /// Whether `addr` was ever written.
    pub fn is_written(&self, addr: u64) -> (written: bool)
        ensures
            written == self@.contains_key(addr),
    {
        self.cells.contains_key(&addr)
    }

    /// The little-endian halfword at `addr`.
    pub fn load_half(&self, addr: u64) -> (value: u16)
        ensures
            value == half_at(self@, addr),
    {
        let b0 = self.get(addr);
        let b1 = self.get(add_wrapping(addr, 1));
        assert((b0 as u16) | ((b1 as u16) << 8) == (b0 + 0x100 * b1) as u16) by (bit_vector);
        (b0 as u16) | ((b1 as u16) << 8)
    }

    /// The little-endian word at `addr`.
    pub fn load_word(&self, addr: u64) -> (value: u32)
        ensures
            value == word_at(self@, addr),
    {
        let b0 = self.get(addr);
        let b1 = self.get(add_wrapping(addr, 1));
        let b2 = self.get(add_wrapping(addr, 2));
        let b3 = self.get(add_wrapping(addr, 3));
        assert((b0 as u32) | ((b1 as u32) << 8) | ((b2 as u32) << 16) | ((b3 as u32) << 24) == (b0
            + 0x100 * b1 + 0x1_0000 * b2 + 0x100_0000 * b3) as u32) by (bit_vector);
        (b0 as u32) | ((b1 as u32) << 8) | ((b2 as u32) << 16) | ((b3 as u32) << 24)
    }

    /// Stores `value` at `addr`, low byte first.
    pub fn store_half(&mut self, addr: u64, value: u16)
        ensures
            final(self)@ == with_half(old(self)@, addr, value),
    {
        assert((value & 0xff) == value % 0x100 && (value >> 8) == value / 0x100) by (bit_vector);
        self.set(addr, (value & 0xff) as u8);
        self.set(add_wrapping(addr, 1), (value >> 8) as u8);
    }

    /// Stores `value` at `addr`, low byte first.
    pub fn store_word(&mut self, addr: u64, value: u32)
        ensures
            final(self)@ == with_word(old(self)@, addr, value),
    {
        assert((value & 0xff) == value % 0x100 && ((value >> 8) & 0xff) == (value / 0x100) % 0x100
            && ((value >> 16) & 0xff) == (value / 0x1_0000) % 0x100 && (value >> 24) == value
            / 0x100_0000) by (bit_vector);
        self.set(addr, (value & 0xff) as u8);
        self.set(add_wrapping(addr, 1), ((value >> 8) & 0xff) as u8);
        self.set(add_wrapping(addr, 2), ((value >> 16) & 0xff) as u8);
        self.set(add_wrapping(addr, 3), (value >> 24) as u8);
    }

    /// The bytes at `base` and the addresses after it, `len` in all.
    pub fn read_bytes(&self, base: u64, len: usize) -> (bytes: Vec<u8>)
        ensures
            bytes@ == bytes_at(self@, base, len as nat),
    {
        let mut bytes: Vec<u8> = Vec::new();
        let mut addr: u64 = base;
        let mut i: usize = 0;
        while i < len
            invariant
                i <= len,
                addr == address_above(base, i as int),
                bytes@ == bytes_at(self@, base, i as nat),
            decreases len - i,
        {
            bytes.push(self.get(addr));
            assert(bytes@ =~= bytes_at(self@, base, (i + 1) as nat));
            addr = add_wrapping(addr, 1);
            i += 1;
        }
        bytes
    }

    /// Stores `bytes` at `base` and the addresses after it, one byte each.
    pub fn write_bytes(&mut self, base: u64, bytes: &[u8])
        ensures
            final(self)@ == with_bytes(old(self)@, base, bytes@),
    {
        let mut i: usize = 0;
        let mut addr: u64 = base;
        assert(self@ =~= with_bytes(old(self)@, base, bytes@.take(0)));
        while i < bytes.len()
            invariant
                i <= bytes.len(),
                addr == address_above(base, i as int),
                self@ == with_bytes(old(self)@, base, bytes@.take(i as int)),
            decreases bytes.len() - i,
        {
            self.set(addr, bytes[i]);
            assert(self@ =~= with_bytes(old(self)@, base, bytes@.take(i + 1))) by {
                assert forall|a: u64| offset_from(base, a) == i as int implies a == addr by {}
            }
            addr = add_wrapping(addr, 1);
            i += 1;
        }
        assert(bytes@.take(i as int) =~= bytes@);
    }
}

/// Storing a word and loading it from the same address gives the word back.
pub proof fn lemma_word_round_trip(m: Map<u64, u8>, addr: u64, value: u32)
    ensures
        word_at(with_word(m, addr, value), addr) == value,
{
}

/// Storing a halfword and loading it from the same address gives it back.
pub proof fn lemma_half_round_trip(m: Map<u64, u8>, addr: u64, value: u16)
    ensures
        half_at(with_half(m, addr, value), addr) == value,
{
}

/// Bytes that were stored in a row are read back in a row.
pub proof fn lemma_bytes_round_trip(m: Map<u64, u8>, base: u64, bytes: Seq<u8>)
    requires
        bytes.len() <= 0x1_0000_0000_0000_0000,
    ensures
        bytes_at(with_bytes(m, base, bytes), base, bytes.len()) == bytes,
{
    assert forall|i: int| 0 <= i < bytes.len() implies offset_from(base, address_above(base, i))
        == i by {}
    assert(bytes_at(with_bytes(m, base, bytes), base, bytes.len()) =~= bytes);
}

/// Storing bytes in a row leaves every address outside the row as it was.
pub proof fn lemma_bytes_elsewhere(m: Map<u64, u8>, base: u64, bytes: Seq<u8>, addr: u64)
    requires
        offset_from(base, addr) >= bytes.len(),
    ensures
        with_bytes(m, base, bytes).contains_key(addr) == m.contains_key(addr),
        byte_at(with_bytes(m, base, bytes), addr) == byte_at(m, addr),
{
}

/// Byte writes leave every address that none of them names as it was.
pub proof fn lemma_writes_elsewhere(m: Map<u64, u8>, writes: Seq<(u64, u8)>, addr: u64)
    requires
        forall|i: int| 0 <= i < writes.len() ==> writes[i].0 != addr,
    ensures
        after_writes(m, writes).contains_key(addr) == m.contains_key(addr),
        byte_at(after_writes(m, writes), addr) == byte_at(m, addr),
    decreases writes.len(),
{
    if writes.len() > 0 {
        lemma_writes_elsewhere(m, writes.drop_last(), addr);
    }
}

/// An address that was never written reads as zero.
pub proof fn lemma_unwritten_reads_zero(writes: Seq<(u64, u8)>, addr: u64)
    requires
        forall|i: int| 0 <= i < writes.len() ==> writes[i].0 != addr,
    ensures
        byte_at(after_writes(Map::empty(), writes), addr) == 0,
{
    lemma_writes_elsewhere(Map::empty(), writes, addr);
}

/// A stored word is read back whatever was written meanwhile to addresses
/// other than its four.
pub proof fn lemma_word_survives_other_writes(
    m: Map<u64, u8>,
    addr: u64,
    value: u32,
    writes: Seq<(u64, u8)>,
)
    requires
        forall|i: int, k: u64| 0 <= i < writes.len() && k < 4 ==> writes[i].0 != wrapping_sum(addr, k),
    ensures
        word_at(after_writes(with_word(m, addr, value), writes), addr) == value,
{
    let stored = with_word(m, addr, value);
    assert(wrapping_sum(addr, 0) == addr);
    lemma_writes_elsewhere(stored, writes, addr);
    lemma_writes_elsewhere(stored, writes, wrapping_sum(addr, 1));
    lemma_writes_elsewhere(stored, writes, wrapping_sum(addr, 2));
    lemma_writes_elsewhere(stored, writes, wrapping_sum(addr, 3));
}

} // verus!
