//! A byte-addressed image of a tracee's memory.
//!
//! The image holds the bytes of every mapped address it was given. Reads and
//! writes touch mapped addresses only; nothing here maps or unmaps behind the
//! caller's back.

use std::collections::HashMap;
use vstd::prelude::*;

verus! {

broadcast use vstd::std_specs::hash::group_hash_axioms;

/// What a memory image says: which addresses are mapped, and the byte at
/// every address (zero where nothing is mapped).
#[verifier::ext_equal]
pub struct MemImage {
    pub mapped: Set<int>,
    pub bytes: Map<int, u8>,
}

/// Whole range `[addr, addr + len)` is mapped in `m`.
pub open spec fn mem_mapped(m: MemImage, addr: int, len: int) -> bool {
    forall|a: int| addr <= a < addr + len ==> #[trigger] m.mapped.contains(a)
}

/// The `len` bytes of `m` from `addr` on.
pub open spec fn mem_read(m: MemImage, addr: int, len: nat) -> Seq<u8> {
    Seq::new(len, |i: int| m.bytes[addr + i])
}

/// `m` with `data` stored from `addr` on. Addresses keep their mapping.
pub open spec fn mem_write(m: MemImage, addr: int, data: Seq<u8>) -> MemImage {
    MemImage {
        mapped: m.mapped,
        bytes: Map::new(
            |a: int| true,
            |a: int|
                if addr <= a < addr + data.len() {
                    data[a - addr]
                } else {
                    m.bytes[a]
                },
        ),
    }
}

/// `m` with `[addr, addr + len)` mapped and zero.
pub open spec fn mem_map_zeroed(m: MemImage, addr: int, len: nat) -> MemImage {
    MemImage {
        mapped: Set::new(|a: int| m.mapped.contains(a) || addr <= a < addr + len),
        bytes: Map::new(
            |a: int| true,
            |a: int|
                if addr <= a < addr + len {
                    0u8
                } else {
                    m.bytes[a]
                },
        ),
    }
}

/// The image with nothing mapped.
pub open spec fn mem_empty() -> MemImage {
    MemImage { mapped: Set::empty(), bytes: Map::new(|a: int| true, |a: int| 0u8) }
}

/// How many bytes from `addr` on are mapped in `m`, up to `len`.
pub open spec fn mem_readable_prefix(m: MemImage, addr: int, len: nat) -> nat
    decreases len,
{
    if len == 0 || !m.mapped.contains(addr) {
        0
    } else {
        1 + mem_readable_prefix(m, addr + 1, (len - 1) as nat)
    }
}

/// `a` and `b` map the same addresses and hold the same bytes everywhere
/// outside `[addr, addr + len)`.
pub open spec fn mem_same_outside(a: MemImage, b: MemImage, addr: int, len: int) -> bool {
    &&& a.mapped == b.mapped
    &&& forall|x: int| !(addr <= x < addr + len) ==> #[trigger] a.bytes[x] == b.bytes[x]
}

pub struct TraceeMemory {
    cells: HashMap<u64, u8>,
}

/// The image that a table of mapped cells stands for.
spec fn image_of(cells: Map<u64, u8>) -> MemImage {
    MemImage {
        mapped: Set::new(|a: int| 0 <= a <= u64::MAX && cells.dom().contains(a as u64)),
        bytes: Map::new(
            |a: int| true,
            |a: int|
                if 0 <= a <= u64::MAX && cells.dom().contains(a as u64) {
                    cells[a as u64]
                } else {
                    0u8
                },
        ),
    }
}

proof fn lemma_image_insert(cells: Map<u64, u8>, k: u64, v: u8)
    ensures
        forall|x: int| #[trigger]
            image_of(cells.insert(k, v)).mapped.contains(x) == (image_of(cells).mapped.contains(x)
                || x == k),
        forall|x: int| #[trigger]
            image_of(cells.insert(k, v)).bytes[x] == if x == k {
                v
            } else {
                image_of(cells).bytes[x]
            },
{
    assert forall|x: int| #[trigger]
        image_of(cells.insert(k, v)).mapped.contains(x) == (image_of(cells).mapped.contains(x) || x
            == k) by {
        if 0 <= x <= u64::MAX {
            assert(cells.insert(k, v).dom().contains(x as u64) == (cells.dom().contains(x as u64)
                || x as u64 == k));
        }
    }
    assert forall|x: int| #[trigger]
        image_of(cells.insert(k, v)).bytes[x] == if x == k {
            v
        } else {
            image_of(cells).bytes[x]
        } by {
        if 0 <= x <= u64::MAX {
            assert(cells.insert(k, v).dom().contains(x as u64) == (cells.dom().contains(x as u64)
                || x as u64 == k));
        }
    }
}

impl View for TraceeMemory {
    type V = MemImage;

    closed spec fn view(&self) -> MemImage {
        image_of(self.cells@)
    }
}

impl TraceeMemory {
    /// Every byte of the image is defined: a byte that is not mapped reads
    /// as zero.
    pub proof fn law_every_byte_is_defined(&self)
        ensures
            self@.bytes.dom() == Set::<int>::full(),
    {
        assert(self@.bytes.dom() =~= Set::<int>::full());
    }

    /// An image with nothing mapped.
    pub fn new() -> (m: TraceeMemory)
        ensures
            m@ == mem_empty(),
    {
        let m = TraceeMemory { cells: HashMap::new() };
        assert(m@ =~= mem_empty());
        m
    }

    /// A copy of the image.
    pub fn duplicate(&self) -> (r: TraceeMemory)
        ensures
            r@ == self@,
    {
        TraceeMemory { cells: self.cells.clone() }
    }

    /// Map `[addr, addr + len)` and fill it with zeros.
    pub fn map_zeroed(&mut self, addr: u64, len: usize)
        requires
            addr + len <= u64::MAX + 1,
        ensures
            final(self)@ == mem_map_zeroed(old(self)@, addr as int, len as nat),
    {
        let mut i: usize = 0;
        while i < len
            invariant
                i <= len,
                addr + len <= u64::MAX + 1,
                self@ == mem_map_zeroed(old(self)@, addr as int, i as nat),
            decreases len - i,
        {
            let a: u64 = addr + i as u64;
            proof {
                lemma_image_insert(self.cells@, a, 0u8);
            }
            self.cells.insert(a, 0u8);
            i = i + 1;
            assert(self@ =~= mem_map_zeroed(old(self)@, addr as int, i as nat));
        }
    }

    /// Whether the one address `addr` is mapped.
    pub fn is_mapped_at(&self, addr: u64) -> (r: bool)
        ensures
            r == self@.mapped.contains(addr as int),
    {
        self.cells.contains_key(&addr)
    }

    /// Whether all of `[addr, addr + len)` is mapped.
    pub fn is_mapped(&self, addr: u64, len: usize) -> (r: bool)
        ensures
            r == mem_mapped(self@, addr as int, len as int),
            r && len > 0 ==> addr + len <= u64::MAX + 1,
    {
        if len == 0 {
            return true;
        }
        if (u64::MAX - addr) < (len - 1) as u64 {
            assert(!self@.mapped.contains(u64::MAX as int + 1));
            return false;
        }
        let mut i: usize = 0;
        while i < len
            invariant
                i <= len,
                addr + len <= u64::MAX + 1,
                mem_mapped(self@, addr as int, i as int),
            decreases len - i,
        {
            let a: u64 = addr + i as u64;
            if !self.cells.contains_key(&a) {
                assert(!self@.mapped.contains(a as int));
                return false;
            }
            i = i + 1;
        }
        true
    }

    /// The byte at `addr`, if it is mapped.
    pub fn read_byte(&self, addr: u64) -> (r: Option<u8>)
        ensures
            r.is_some() == self@.mapped.contains(addr as int),
            r.is_some() ==> r.unwrap() == self@.bytes[addr as int],
    {
        match self.cells.get(&addr) {
            Some(b) => Some(*b),
            None => None,
        }
    }

    /// The bytes of `[addr, addr + len)`, or `None` if any of them is not
    /// mapped.
    pub fn read_bytes(&self, addr: u64, len: usize) -> (r: Option<Vec<u8>>)
        ensures
            r.is_some() == mem_mapped(self@, addr as int, len as int),
            r.is_some() ==> r.unwrap()@ == mem_read(self@, addr as int, len as nat),
    {
        if !self.is_mapped(addr, len) {
            return None;
        }
        let mut out: Vec<u8> = Vec::new();
        let mut i: usize = 0;
        while i < len
            invariant
                i <= len,
                len > 0 ==> addr + len <= u64::MAX + 1,
                mem_mapped(self@, addr as int, len as int),
                out@ == mem_read(self@, addr as int, i as nat),
            decreases len - i,
        {
            let a: u64 = addr + i as u64;
            assert(self@.mapped.contains(a as int));
            let b = self.cells.get(&a);
            out.push(*b.unwrap());
            i = i + 1;
            assert(out@ =~= mem_read(self@, addr as int, i as nat));
        }
        Some(out)
    }

    /// As many bytes from `addr` on as are mapped, up to `len`.
    pub fn read_bytes_fallible(&self, addr: u64, len: usize) -> (r: Vec<u8>)
        ensures
            r@.len() == mem_readable_prefix(self@, addr as int, len as nat),
            r@ == mem_read(self@, addr as int, r@.len()),
    {
        let mut out: Vec<u8> = Vec::new();
        let mut i: usize = 0;
        while i < len
            invariant
                i <= len,
                addr + i <= u64::MAX + 1,
                out@ == mem_read(self@, addr as int, i as nat),
                mem_readable_prefix(self@, addr as int, len as nat) == i + mem_readable_prefix(
                    self@,
                    addr + i,
                    (len - i) as nat,
                ),
            decreases len - i,
        {
            if (u64::MAX - addr) < i as u64 {
                assert(!self@.mapped.contains(addr + i));
                return out;
            }
            let a: u64 = addr + i as u64;
            match self.cells.get(&a) {
                Some(b) => {
                    out.push(*b);
                },
                None => {
                    assert(!self@.mapped.contains(addr + i));
                    return out;
                },
            }
            i = i + 1;
            assert(out@ =~= mem_read(self@, addr as int, i as nat));
        }
        out
    }

    /// Store `data` from `addr` on. Nothing is stored, and `false` comes
    /// back, unless the whole range is mapped.
    pub fn write_bytes(&mut self, addr: u64, data: &Vec<u8>) -> (ok: bool)
        ensures
            ok == mem_mapped(old(self)@, addr as int, data@.len() as int),
            ok ==> final(self)@ == mem_write(old(self)@, addr as int, data@),
            !ok ==> final(self)@ == old(self)@,
    {
        let len: usize = data.len();
        if !self.is_mapped(addr, len) {
            return false;
        }
        let mut i: usize = 0;
        assert(self@ =~= mem_write(old(self)@, addr as int, data@.take(0)));
        while i < len
            invariant
                i <= len,
                len == data@.len(),
                len > 0 ==> addr + len <= u64::MAX + 1,
                mem_mapped(old(self)@, addr as int, len as int),
                self@ == mem_write(old(self)@, addr as int, data@.take(i as int)),
            decreases len - i,
        {
            let a: u64 = addr + i as u64;
            assert(old(self)@.mapped.contains(a as int));
            proof {
                lemma_image_insert(self.cells@, a, data@[i as int]);
            }
            self.cells.insert(a, data[i]);
            i = i + 1;
            assert(self@ =~= mem_write(old(self)@, addr as int, data@.take(i as int)));
        }
        assert(data@.take(len as int) =~= data@);
        true
    }
}

/// Reading back what was just written gives the written bytes.
pub proof fn law_read_after_write(m: MemImage, addr: int, data: Seq<u8>)
    ensures
        mem_read(mem_write(m, addr, data), addr, data.len()) == data,
{
    assert(mem_read(mem_write(m, addr, data), addr, data.len()) =~= data);
}

/// A write leaves every range that it does not overlap as it was.
pub proof fn law_write_leaves_other_ranges(
    m: MemImage,
    addr: int,
    data: Seq<u8>,
    other: int,
    len: nat,
)
    requires
        other + len <= addr || addr + data.len() <= other,
    ensures
        mem_read(mem_write(m, addr, data), other, len) == mem_read(m, other, len),
{
    assert(mem_read(mem_write(m, addr, data), other, len) =~= mem_read(m, other, len));
}

} // verus!
