//! The address space of the debuggee as the debugger looks at it: which
//! mappings it has, what a read of its memory answers, and where in it some
//! bytes are found.

use crate::kernel_abi::PAGE_SIZE;
use crate::tracee_memory::{mem_mapped, mem_read, mem_readable_prefix, MemImage, TraceeMemory};
use vstd::prelude::*;

verus! {

/// A mapping of the debuggee's address space.
#[derive(Clone, Copy, Debug, PartialEq, Eq, Structural)]
pub struct Mapping {
    pub start: u64,
    pub end: u64,
    /// Whether the mapping holds the stubs that the recorder generated to
    /// patch syscalls.
    pub is_patch_stubs: bool,
}

/// `addr` lies in a mapping of `maps` that holds patch stubs, and that is
/// the first mapping to hold `addr`.
pub open spec fn in_patch_stubs(maps: Seq<Mapping>, addr: u64) -> bool
    decreases maps.len(),
{
    if maps.len() == 0 {
        false
    } else if maps[0].start <= addr < maps[0].end {
        maps[0].is_patch_stubs
    } else {
        in_patch_stubs(maps.skip(1), addr)
    }
}

/// Whether `ip` lies in the stubs that the recorder generated.
pub fn is_in_patch_stubs(maps: &Vec<Mapping>, ip: u64) -> (r: bool)
    ensures
        r == in_patch_stubs(maps@, ip),
{
    let mut i: usize = 0;
    assert(maps@.skip(0) =~= maps@);
    while i < maps.len()
        invariant
            i <= maps.len(),
            in_patch_stubs(maps@, ip) == in_patch_stubs(maps@.skip(i as int), ip),
        decreases maps.len() - i,
    {
        assert(maps@.skip(i as int)[0] == maps@[i as int]);
        assert(maps@.skip(i as int).skip(1) =~= maps@.skip(i + 1));
        if maps[i].start <= ip && ip < maps[i].end {
            return maps[i].is_patch_stubs;
        }
        i = i + 1;
    }
    false
}

/// Where `needle` first occurs in `haystack` at or after `from`.
pub open spec fn occurs_at(haystack: Seq<u8>, needle: Seq<u8>, at: int) -> bool {
    0 <= at && at + needle.len() <= haystack.len() && haystack.subrange(
        at,
        at + needle.len(),
    ) == needle
}

/// The first place at which `needle` occurs in `haystack`, if it occurs.
pub fn find(haystack: &Vec<u8>, needle: &Vec<u8>) -> (r: Option<usize>)
    ensures
        match r {
            Some(at) => occurs_at(haystack@, needle@, at as int) && forall|k: int|
                0 <= k < at ==> !occurs_at(haystack@, needle@, k),
            None => forall|k: int| !occurs_at(haystack@, needle@, k),
        },
{
    if needle.len() > haystack.len() {
        return None;
    }
    let last: usize = haystack.len() - needle.len();
    let mut at: usize = 0;
    while at <= last
        invariant
            at <= last + 1,
            last == haystack@.len() - needle@.len(),
            haystack.len() <= usize::MAX,
            forall|k: int| 0 <= k < at ==> !occurs_at(haystack@, needle@, k),
        decreases last + 1 - at,
    {
        let mut j: usize = 0;
        while j < needle.len() && haystack[at + j] == needle[j]
            invariant
                j <= needle@.len(),
                at + needle@.len() <= haystack@.len(),
                haystack.len() <= usize::MAX,
                forall|k: int| 0 <= k < j ==> haystack@[at + k] == #[trigger] needle@[k],
            decreases needle@.len() - j,
        {
            j = j + 1;
        }
        if j == needle.len() {
            assert(haystack@.subrange(at as int, at + needle@.len()) =~= needle@);
            return Some(at);
        }
        if at == last {
            assert(!occurs_at(haystack@, needle@, at as int)) by {
                if occurs_at(haystack@, needle@, at as int) {
                    assert(haystack@.subrange(at as int, at + needle@.len())[j as int]
                        == needle@[j as int]);
                }
            }
            return None;
        }
        assert(!occurs_at(haystack@, needle@, at as int)) by {
            if occurs_at(haystack@, needle@, at as int) {
                assert(haystack@.subrange(at as int, at + needle@.len())[j as int]
                    == needle@[j as int]);
            }
        }
        at = at + 1;
    }
    None
}

/// The bytes that answer a request to read `len` bytes at `addr`: what can
/// be read from `addr` on, then zeros for the rest.
pub open spec fn memory_reply(m: MemImage, addr: u64, len: usize) -> Seq<u8> {
    let readable = mem_readable_prefix(m, addr as int, len as nat);
    Seq::new(
        len as nat,
        |i: int|
            if i < readable {
                m.bytes[addr + i]
            } else {
                0u8
            },
    )
}

/// Answer a request to read memory: the bytes that can be read, zeros for
/// what cannot.
pub fn read_memory_for_reply(mem: &TraceeMemory, addr: u64, len: usize) -> (r:
    Vec<u8>)
    ensures
        r@ == memory_reply(mem@, addr, len),
{
    let mut out = mem.read_bytes_fallible(addr, len);
    let ghost readable = out@.len();
    let ghost got = out@;
    let mut i: usize = out.len();
    proof {
        lemma_readable_prefix_bound(mem@, addr as int, len as nat);
    }
    while i < len
        invariant
            readable <= i <= len,
            out@.len() == i,
            readable == mem_readable_prefix(mem@, addr as int, len as nat),
            got == mem_read(mem@, addr as int, readable),
            forall|k: int|
                0 <= k < i ==> #[trigger] out@[k] == if k < readable {
                    got[k]
                } else {
                    0u8
                },
        decreases len - i,
    {
        out.push(0u8);
        i = i + 1;
    }
    assert(out@ =~= memory_reply(mem@, addr, len));
    out
}

/// No more bytes are readable than were asked for.
pub proof fn lemma_readable_prefix_bound(m: MemImage, addr: int, len: nat)
    ensures
        mem_readable_prefix(m, addr, len) <= len,
    decreases len,
{
    if len > 0 && m.mapped.contains(addr) {
        lemma_readable_prefix_bound(m, addr + 1, (len - 1) as nat);
    }
}

/// A range of addresses, from `start` up to but not including `end`.
#[derive(Clone, Copy, Debug, PartialEq, Eq, Structural)]
pub struct MemoryRange {
    pub start: u64,
    pub end: u64,
}

impl MemoryRange {
    /// The range from `start` to `end`; empty if `end` lies before `start`.
    pub open spec fn spanning(start: u64, end: u64) -> MemoryRange {
        MemoryRange {
            start,
            end: if end < start {
                start
            } else {
                end
            },
        }
    }

    /// The range from `start` to `end`; empty if `end` lies before `start`.
    pub fn from_range(start: u64, end: u64) -> (r: MemoryRange)
        ensures
            r == Self::spanning(start, end),
    {
        MemoryRange {
            start,
            end: if end < start {
                start
            } else {
                end
            },
        }
    }

    /// How many addresses the range holds.
    pub open spec fn size_spec(self) -> int {
        if self.end < self.start {
            0
        } else {
            self.end - self.start
        }
    }

    /// How many addresses the range holds.
    pub fn size(&self) -> (r: u64)
        ensures
            r == self.size_spec(),
    {
        if self.end < self.start {
            0
        } else {
            self.end - self.start
        }
    }

    /// The addresses that both ranges hold.
    pub open spec fn intersect_spec(self, other: MemoryRange) -> MemoryRange {
        let s = if self.start > other.start {
            self.start
        } else {
            other.start
        };
        let e = if self.end < other.end {
            self.end
        } else {
            other.end
        };
        Self::spanning(s, e)
    }

    /// The addresses that both ranges hold.
    pub fn intersect(&self, other: MemoryRange) -> (r: MemoryRange)
        ensures
            r == self.intersect_spec(other),
    {
        let s: u64 = if self.start > other.start {
            self.start
        } else {
            other.start
        };
        let e: u64 = if self.end < other.end {
            self.end
        } else {
            other.end
        };
        MemoryRange::from_range(s, e)
    }
}

/// The first place at which `needle` occurs in `haystack`.
pub open spec fn first_occurrence(haystack: Seq<u8>, needle: Seq<u8>) -> Option<int> {
    if exists|k: int| occurs_at(haystack, needle, k) {
        Some(
            choose|k: int|
                occurs_at(haystack, needle, k) && forall|j: int|
                    0 <= j < k ==> !occurs_at(haystack, needle, j),
        )
    } else {
        None
    }
}

/// The first occurrence is the one that nothing precedes.
pub proof fn lemma_first_occurrence(haystack: Seq<u8>, needle: Seq<u8>, at: int)
    requires
        occurs_at(haystack, needle, at),
        forall|j: int| 0 <= j < at ==> !occurs_at(haystack, needle, j),
    ensures
        first_occurrence(haystack, needle) == Some(at),
{
    let k = choose|k: int|
        occurs_at(haystack, needle, k) && forall|j: int|
            0 <= j < k ==> !occurs_at(haystack, needle, j);
    if k < at {
        assert(!occurs_at(haystack, needle, k));
    } else if at < k {
        assert(!occurs_at(haystack, needle, at));
    }
}

/// How many bytes are read at once in a search: a page, and as many more
/// as a match can reach into the next page.
pub open spec fn chunk_size(needle_len: int) -> int {
    PAGE_SIZE + needle_len - 1
}

/// Where `needle` is found when one chunk is read at `start`, of a range
/// that ends at `end`: the first place in what can be read of the chunk.
pub open spec fn chunk_match(
    m: MemImage,
    start: u64,
    end: u64,
    needle: Seq<u8>,
) -> Option<int> {
    let size = end - start;
    let want = if chunk_size(needle.len() as int) < size {
        chunk_size(needle.len() as int)
    } else {
        size
    };
    let nread = mem_readable_prefix(m, start as int, want as nat);
    if nread >= needle.len() {
        match first_occurrence(mem_read(m, start as int, nread), needle) {
            Some(off) => Some(start + off),
            None => None,
        }
    } else {
        None
    }
}

/// Where the next chunk of a range starts: at the next page, or at the end
/// of the range if that comes first.
pub open spec fn next_chunk(start: u64, end: u64) -> u64 {
    let next_page = start - start % (PAGE_SIZE as u64)
        + PAGE_SIZE;
    if end < next_page {
        end
    } else {
        next_page as u64
    }
}

/// Where `needle` is found in the range from `start` to `end`, read chunk by
/// chunk, each chunk from the start of a page (the first from `start`).
pub open spec fn range_match(
    m: MemImage,
    start: u64,
    end: u64,
    needle: Seq<u8>,
) -> Option<int>
    decreases end - start,
{
    if end - start < needle.len() || needle.len() == 0 {
        None
    } else {
        match chunk_match(m, start, end, needle) {
            Some(a) => Some(a),
            None => range_match(m, next_chunk(start, end), end, needle),
        }
    }
}

/// The part of mapping `map` that is searched: the mapping, and as far
/// behind it as a match that starts in it can reach, within `where_`.
pub open spec fn searched_range(map: Mapping, where_: MemoryRange, needle_len: int) -> MemoryRange {
    MemoryRange::spanning(map.start, (map.end + (needle_len - 1)) as u64).intersect_spec(where_)
}

/// Where `needle` is found in the first `n` of `maps`, within `where_`: in
/// the first mapping in which it is found.
pub open spec fn maps_match(
    m: MemImage,
    maps: Seq<Mapping>,
    where_: MemoryRange,
    needle: Seq<u8>,
    n: int,
) -> Option<int>
    decreases n,
{
    if n <= 0 {
        None
    } else {
        match maps_match(m, maps, where_, needle, n - 1) {
            Some(a) => Some(a),
            None => {
                let r = searched_range(maps[n - 1], where_, needle.len() as int);
                range_match(m, r.start, r.end, needle)
            },
        }
    }
}

/// Search the debuggee's mappings for `find_s`, within `where_`. Memory is
/// read page by page, and past the end of each page as far as a match can
/// reach, so that a match across a page boundary is found, and a page that
/// cannot be read hides only itself. Returns the address of the first match
/// in the first mapping that has one.
pub fn search_memory(
    mem: &TraceeMemory,
    maps: &Vec<Mapping>,
    where_: MemoryRange,
    find_s: &Vec<u8>,
) -> (r: Option<u64>)
    requires
        find_s@.len() > 0,
        find_s@.len() + PAGE_SIZE - 1 <= usize::MAX,
        forall|i: int|
            0 <= i < maps@.len() ==> (#[trigger] maps@[i]).end + find_s@.len() - 1 <= u64::MAX,
    ensures
        match r {
            Some(a) => maps_match(mem@, maps@, where_, find_s@, maps@.len() as int) == Some(
                a as int,
            ),
            None => maps_match(mem@, maps@, where_, find_s@, maps@.len() as int) is None,
        },
{
    let len: u64 = find_s.len() as u64;
    let page: u64 = PAGE_SIZE as u64;
    let chunk: u64 = page + (len - 1);
    let mut i: usize = 0;
    while i < maps.len()
        invariant
            i <= maps@.len(),
            len == find_s@.len(),
            0 < len,
            len + PAGE_SIZE - 1 <= usize::MAX,
            page == PAGE_SIZE,
            chunk == chunk_size(len as int),
            forall|k: int|
                0 <= k < maps@.len() ==> (#[trigger] maps@[k]).end + find_s@.len() - 1
                    <= u64::MAX,
            maps_match(mem@, maps@, where_, find_s@, i as int) is None,
        decreases maps@.len() - i,
    {
        let map: Mapping = maps[i];
        let mut r = MemoryRange::from_range(map.start, map.end + (len - 1)).intersect(where_);
        let ghost whole = r;
        assert(whole == searched_range(maps@[i as int], where_, len as int));
        while r.size() >= len
            invariant
                r.start <= r.end,
                r.end == whole.end,
                i < maps@.len(),
                whole == searched_range(maps@[i as int], where_, len as int),
                maps_match(mem@, maps@, where_, find_s@, i as int) is None,
                len == find_s@.len(),
                0 < len,
                len + PAGE_SIZE - 1 <= usize::MAX,
                page == PAGE_SIZE,
                chunk == chunk_size(len as int),
                range_match(mem@, whole.start, whole.end, find_s@) == range_match(
                    mem@,
                    r.start,
                    r.end,
                    find_s@,
                ),
            decreases r.end - r.start,
        {
            let size: u64 = r.size();
            let l: u64 = if chunk < size {
                chunk
            } else {
                size
            };
            let got = mem.read_bytes_fallible(r.start, l as usize);
            let ghost here = range_match(mem@, r.start, r.end, find_s@);
            let ghost this_chunk = chunk_match(mem@, r.start, r.end, find_s@);
            assert(here == match this_chunk {
                Some(a) => Some(a),
                None => range_match(mem@, next_chunk(r.start, r.end), r.end, find_s@),
            });
            assert(got@.len() == mem_readable_prefix(
                mem@,
                r.start as int,
                l as nat,
            ));
            if got.len() >= find_s.len() {
                match find(&got, find_s) {
                    Some(off) => {
                        proof {
                            lemma_first_occurrence(got@, find_s@, off as int);
                            lemma_readable_prefix_bound(mem@, r.start as int, l as nat);
                            assert(this_chunk == Some(r.start + off));
                            lemma_found_in_later_maps(
                                mem@,
                                maps@,
                                where_,
                                find_s@,
                                i as int,
                                maps@.len() as int,
                                r.start + off,
                            );
                        }
                        return Some(r.start + off as u64);
                    },
                    None => {
                        proof {
                            if first_occurrence(got@, find_s@) is Some {
                                let k = choose|k: int| occurs_at(got@, find_s@, k);
                                assert(!occurs_at(got@, find_s@, k));
                            }
                            assert(this_chunk is None);
                        }
                    },
                }
            }
            let next_page: u64 = r.start - r.start % page;
            let next: u64 = if r.end - next_page <= page {
                r.end
            } else {
                next_page + page
            };
            assert(next == next_chunk(r.start, r.end));
            r = MemoryRange::from_range(next, r.end);
        }
        i = i + 1;
    }
    None
}

/// A match in one mapping is the match of the whole search if no mapping
/// before it has one.
pub proof fn lemma_found_in_later_maps(
    m: MemImage,
    maps: Seq<Mapping>,
    where_: MemoryRange,
    needle: Seq<u8>,
    i: int,
    n: int,
    a: int,
)
    requires
        0 <= i < n <= maps.len(),
        maps_match(m, maps, where_, needle, i) is None,
        ({
            let r = searched_range(maps[i], where_, needle.len() as int);
            range_match(m, r.start, r.end, needle) == Some(a)
        }),
    ensures
        maps_match(m, maps, where_, needle, n) == Some(a),
    decreases n - i,
{
    if n > i + 1 {
        lemma_found_in_later_maps(m, maps, where_, needle, i, n - 1, a);
    }
}

/// `at` is the first place at which `needle` occurs in `haystack`.
pub open spec fn is_first_occurrence(haystack: Seq<u8>, needle: Seq<u8>, at: int) -> bool {
    occurs_at(haystack, needle, at) && forall|j: int|
        0 <= j < at ==> !occurs_at(haystack, needle, j)
}

/// Where the needle occurs, it occurs a first time, at or before.
proof fn lemma_least_occurrence(haystack: Seq<u8>, needle: Seq<u8>, k: int)
    requires
        occurs_at(haystack, needle, k),
    ensures
        exists|m: int| 0 <= m <= k && is_first_occurrence(haystack, needle, m),
    decreases k,
{
    if exists|j: int| 0 <= j < k && occurs_at(haystack, needle, j) {
        let j = choose|j: int| 0 <= j < k && occurs_at(haystack, needle, j);
        lemma_least_occurrence(haystack, needle, j);
        let m = choose|m: int| 0 <= m <= j && is_first_occurrence(haystack, needle, m);
        assert(0 <= m <= k && is_first_occurrence(haystack, needle, m));
    } else {
        assert(is_first_occurrence(haystack, needle, k));
    }
}

/// The first occurrence, where there is one, is an occurrence.
proof fn lemma_first_occurrence_occurs(haystack: Seq<u8>, needle: Seq<u8>)
    requires
        first_occurrence(haystack, needle) is Some,
    ensures
        occurs_at(haystack, needle, first_occurrence(haystack, needle)->Some_0),
{
    let k = choose|k: int| occurs_at(haystack, needle, k);
    lemma_least_occurrence(haystack, needle, k);
    let m = choose|m: int| 0 <= m <= k && is_first_occurrence(haystack, needle, m);
    assert(occurs_at(haystack, needle, m) && forall|j: int|
        0 <= j < m ==> !occurs_at(haystack, needle, j));
}

/// A chunk's match lies in what was read of the chunk, and holds the
/// needle.
proof fn lemma_chunk_match_sound(
    m: MemImage,
    start: u64,
    end: u64,
    needle: Seq<u8>,
)
    requires
        start <= end,
        needle.len() > 0,
        chunk_match(m, start, end, needle) is Some,
    ensures
        ({
            let a = chunk_match(m, start, end, needle)->Some_0;
            &&& start <= a
            &&& a + needle.len() <= end
            &&& a + needle.len() <= start + chunk_size(needle.len() as int)
            &&& mem_mapped(m, a, needle.len() as int)
            &&& mem_mapped(m, start as int, a + needle.len() - start)
            &&& mem_read(m, a, needle.len()) == needle
        }),
{
    let size = end - start;
    let want = if chunk_size(needle.len() as int) < size {
        chunk_size(needle.len() as int)
    } else {
        size
    };
    let nread = mem_readable_prefix(m, start as int, want as nat);
    let got = mem_read(m, start as int, nread);
    lemma_readable_prefix_bound(m, start as int, want as nat);
    lemma_readable_prefix_mapped(m, start as int, want as nat);
    lemma_first_occurrence_occurs(got, needle);
    let off = first_occurrence(got, needle)->Some_0;
    let a = start + off;
    assert(chunk_match(m, start, end, needle) == Some(a));
    assert(0 <= off && off + needle.len() <= nread);
    lemma_found_bytes(m, start as int, nread, needle, off);
    lemma_mapped_part(m, start as int, nread as int, a + needle.len() - start);
}

/// A part of a mapped range that begins where the range does is mapped.
proof fn lemma_mapped_part(m: MemImage, addr: int, len: int, part: int)
    requires
        mem_mapped(m, addr, len),
        part <= len,
    ensures
        mem_mapped(m, addr, part),
{
}

/// What occurs in the bytes read from `start` lies in memory at its place.
proof fn lemma_found_bytes(
    m: MemImage,
    start: int,
    nread: nat,
    needle: Seq<u8>,
    off: int,
)
    requires
        mem_mapped(m, start, nread as int),
        occurs_at(mem_read(m, start, nread), needle, off),
    ensures
        mem_mapped(m, start + off, needle.len() as int),
        mem_read(m, start + off, needle.len()) == needle,
{
    let got = mem_read(m, start, nread);
    let a = start + off;
    assert forall|x: int| a <= x < a + needle.len() implies #[trigger] m.mapped.contains(x) by {}
    assert(mem_read(m, a, needle.len()) =~= got.subrange(
        off,
        off + needle.len(),
    ));
}

/// What can be read from an address on is mapped.
pub proof fn lemma_readable_prefix_mapped(m: MemImage, addr: int, len: nat)
    ensures
        mem_mapped(
            m,
            addr,
            mem_readable_prefix(m, addr, len) as int,
        ),
    decreases len,
{
    if len > 0 && m.mapped.contains(addr) {
        lemma_readable_prefix_mapped(m, addr + 1, (len - 1) as nat);
        let n = mem_readable_prefix(m, addr, len);
        assert forall|a: int| addr <= a < addr + n implies #[trigger] m.mapped.contains(a) by {
            if a > addr {
                assert(addr + 1 <= a < addr + 1 + mem_readable_prefix(
                    m,
                    addr + 1,
                    (len - 1) as nat,
                ));
            }
        }
    }
}

proof fn lemma_range_match_sound(
    m: MemImage,
    start: u64,
    end: u64,
    needle: Seq<u8>,
)
    requires
        start <= end,
        range_match(m, start, end, needle) is Some,
    ensures
        ({
            let a = range_match(m, start, end, needle)->Some_0;
            &&& start <= a
            &&& a + needle.len() <= end
            &&& mem_mapped(m, a, needle.len() as int)
            &&& mem_read(m, a, needle.len()) == needle
        }),
    decreases end - start,
{
    if !(end - start < needle.len() || needle.len() == 0) {
        if chunk_match(m, start, end, needle) is Some {
            lemma_chunk_match_sound(m, start, end, needle);
        } else {
            lemma_range_match_sound(m, next_chunk(start, end), end, needle);
        }
    }
}

/// What a search finds is there: the address that a search gives lies in
/// the range that was to be searched, all of the match is mapped memory that
/// lies in that range, and the memory holds what was searched for.
pub proof fn law_search_finds_what_is_there(
    m: MemImage,
    maps: Seq<Mapping>,
    where_: MemoryRange,
    needle: Seq<u8>,
    n: int,
)
    requires
        0 <= n <= maps.len(),
        maps_match(m, maps, where_, needle, n) is Some,
    ensures
        ({
            let a = maps_match(m, maps, where_, needle, n)->Some_0;
            &&& where_.start <= a
            &&& a + needle.len() <= where_.end
            &&& mem_mapped(m, a, needle.len() as int)
            &&& mem_read(m, a, needle.len()) == needle
        }),
    decreases n,
{
    if n > 0 {
        if maps_match(m, maps, where_, needle, n - 1) is Some {
            law_search_finds_what_is_there(m, maps, where_, needle, n - 1);
        } else {
            let r = searched_range(maps[n - 1], where_, needle.len() as int);
            lemma_range_match_sound(m, r.start, r.end, needle);
        }
    }
}

/// A search of the range from `start` on reads from `start`, and then from
/// each page boundary behind it: `c` is such a place.
pub open spec fn is_chunk_start(start: int, c: int) -> bool {
    c == start || (start < c && c % (PAGE_SIZE as int) == 0)
}

/// A search of the range from `start` to `end` that reads from `c` finds
/// `needle` at `a`: the needle lies at `a`, within the range and within a
/// chunk from `c`, and memory can be read all the way from `c` to its end.
pub open spec fn is_found_from(
    m: MemImage,
    start: int,
    end: int,
    needle: Seq<u8>,
    c: int,
    a: int,
) -> bool {
    &&& is_chunk_start(start, c)
    &&& c <= a
    &&& a + needle.len() <= end
    &&& a + needle.len() <= c + chunk_size(needle.len() as int)
    &&& mem_mapped(m, c, a + needle.len() - c)
    &&& mem_read(m, a, needle.len()) == needle
}

/// A search of the range from `start` to `end` can find `needle` at `a`:
/// it finds it there when it reads from `start` or from some page boundary
/// behind it.
pub open spec fn is_findable(m: MemImage, start: int, end: int, needle: Seq<u8>, a: int) -> bool {
    exists|c: int| is_found_from(m, start, end, needle, c, a)
}

/// The search can find `needle` at `a` in the part of `map` that is
/// searched.
pub open spec fn is_findable_in(
    m: MemImage,
    map: Mapping,
    where_: MemoryRange,
    needle: Seq<u8>,
    a: int,
) -> bool {
    let r = searched_range(map, where_, needle.len() as int);
    is_findable(m, r.start as int, r.end as int, needle, a)
}

/// `a` is the first place at which the search finds `needle`: mapping `i`
/// is the first in which it can be found at all, and `a` is the lowest
/// address at which it can be found there.
pub open spec fn is_first_found(
    m: MemImage,
    maps: Seq<Mapping>,
    where_: MemoryRange,
    needle: Seq<u8>,
    i: int,
    a: int,
) -> bool {
    &&& forall|j: int, b: int|
        0 <= j < i ==> !#[trigger] is_findable_in(m, maps[j], where_, needle, b)
    &&& is_findable_in(m, maps[i], where_, needle, a)
    &&& forall|b: int| #[trigger] is_findable_in(m, maps[i], where_, needle, b) ==> a <= b
}

/// As many bytes can be read as are mapped.
proof fn lemma_readable_prefix_covers(m: MemImage, addr: int, len: nat, k: int)
    requires
        0 <= k <= len,
        mem_mapped(m, addr, k),
    ensures
        mem_readable_prefix(m, addr, len) >= k,
    decreases len,
{
    if k > 0 {
        assert(m.mapped.contains(addr));
        assert forall|a: int| addr + 1 <= a < addr + 1 + (k - 1) implies #[trigger] m.mapped.contains(
            a,
        ) by {}
        lemma_readable_prefix_covers(m, addr + 1, (len - 1) as nat, k - 1);
    }
}

/// The first occurrence, where the needle occurs at all, is an occurrence
/// that no other precedes.
proof fn lemma_first_occurrence_is_first(haystack: Seq<u8>, needle: Seq<u8>, k: int)
    requires
        occurs_at(haystack, needle, k),
    ensures
        first_occurrence(haystack, needle) is Some,
        is_first_occurrence(haystack, needle, first_occurrence(haystack, needle)->Some_0),
        first_occurrence(haystack, needle)->Some_0 <= k,
{
    lemma_least_occurrence(haystack, needle, k);
    let w = choose|w: int| 0 <= w <= k && is_first_occurrence(haystack, needle, w);
    lemma_first_occurrence(haystack, needle, w);
}

/// Where `needle` is found when memory is read from a chunk's start, the
/// chunk gives that address or a lower one.
proof fn lemma_chunk_finds(m: MemImage, start: u64, end: u64, needle: Seq<u8>, b: int)
    requires
        start <= end,
        needle.len() > 0,
        is_found_from(m, start as int, end as int, needle, start as int, b),
    ensures
        chunk_match(m, start, end, needle) is Some,
        chunk_match(m, start, end, needle)->Some_0 <= b,
{
    let size = end - start;
    let want = if chunk_size(needle.len() as int) < size {
        chunk_size(needle.len() as int)
    } else {
        size
    };
    let nread = mem_readable_prefix(m, start as int, want as nat);
    let got = mem_read(m, start as int, nread);
    lemma_readable_prefix_bound(m, start as int, want as nat);
    let k = b + needle.len() - start;
    lemma_readable_prefix_covers(m, start as int, want as nat, k);
    assert(got.subrange(b - start, b - start + needle.len()) =~= mem_read(m, b, needle.len()));
    assert(occurs_at(got, needle, b - start));
    lemma_first_occurrence_is_first(got, needle, b - start);
}

/// The address that a chunk gives is one at which `needle` is found when
/// memory is read from the chunk's start.
proof fn lemma_chunk_match_is_found(m: MemImage, start: u64, end: u64, needle: Seq<u8>)
    requires
        start <= end,
        needle.len() > 0,
        chunk_match(m, start, end, needle) is Some,
    ensures
        is_found_from(
            m,
            start as int,
            end as int,
            needle,
            start as int,
            chunk_match(m, start, end, needle)->Some_0,
        ),
{
    lemma_chunk_match_sound(m, start, end, needle);
}

/// What one chunk gives is the lowest address at which `needle` is found
/// when memory is read from the chunk's start.
proof fn lemma_chunk_match_first(m: MemImage, start: u64, end: u64, needle: Seq<u8>)
    requires
        start <= end,
        needle.len() > 0,
    ensures
        match chunk_match(m, start, end, needle) {
            Some(a) => is_found_from(m, start as int, end as int, needle, start as int, a)
                && forall|b: int| #[trigger]
                is_found_from(m, start as int, end as int, needle, start as int, b) ==> a <= b,
            None => forall|b: int|
                !#[trigger] is_found_from(m, start as int, end as int, needle, start as int, b),
        },
{
    assert forall|b: int| #[trigger]
        is_found_from(m, start as int, end as int, needle, start as int, b) implies chunk_match(
        m,
        start,
        end,
        needle,
    ) is Some && chunk_match(m, start, end, needle)->Some_0 <= b by {
        lemma_chunk_finds(m, start, end, needle, b);
    }
    if chunk_match(m, start, end, needle) is Some {
        lemma_chunk_match_is_found(m, start, end, needle);
    }
}

/// What the search of a range gives is the lowest address at which
/// `needle` can be found in it, and it gives none only if there is none.
pub proof fn lemma_range_match_first(m: MemImage, start: u64, end: u64, needle: Seq<u8>)
    requires
        start <= end,
        needle.len() > 0,
    ensures
        match range_match(m, start, end, needle) {
            Some(a) => is_findable(m, start as int, end as int, needle, a) && forall|b: int| #[trigger]
                is_findable(m, start as int, end as int, needle, b) ==> a <= b,
            None => forall|b: int|
                !#[trigger] is_findable(m, start as int, end as int, needle, b),
        },
    decreases end - start,
{
    let s = start as int;
    let e = end as int;
    let len = needle.len() as int;
    if e - s < len {
        assert forall|b: int| !#[trigger] is_findable(m, s, e, needle, b) by {
            if is_findable(m, s, e, needle, b) {
                let c = choose|c: int| is_found_from(m, s, e, needle, c, b);
                assert(false);
            }
        }
    } else {
        lemma_chunk_match_first(m, start, end, needle);
        let p = next_chunk(start, end);
        let boundary = s - s % (PAGE_SIZE as int) + PAGE_SIZE;
        assert(s < boundary && boundary % (PAGE_SIZE as int) == 0);
        match chunk_match(m, start, end, needle) {
            Some(a) => {
                assert(is_found_from(m, s, e, needle, s, a));
                assert forall|b: int| #[trigger] is_findable(m, s, e, needle, b) implies a
                    <= b by {
                    let c = choose|c: int| is_found_from(m, s, e, needle, c, b);
                    if c != s && b < a {
                        assert forall|x: int| s <= x < s + (b + len - s) implies #[trigger] m.mapped.contains(
                            x,
                        ) by {
                            assert(s <= x < s + (a + len - s));
                        }
                        assert(is_found_from(m, s, e, needle, s, b));
                    }
                }
            },
            None => {
                lemma_range_match_first(m, p, end, needle);
                let q = p as int;
                assert forall|c: int, b: int| #[trigger]
                    is_found_from(m, q, e, needle, c, b) implies is_found_from(
                    m,
                    s,
                    e,
                    needle,
                    c,
                    b,
                ) by {}
                assert forall|c: int, b: int| #[trigger]
                    is_found_from(m, s, e, needle, c, b) implies is_found_from(
                    m,
                    q,
                    e,
                    needle,
                    c,
                    b,
                ) by {
                    if c != s {
                        lemma_next_boundary(s, c);
                    }
                }
                assert forall|b: int| #[trigger]
                    is_findable(m, s, e, needle, b) == is_findable(m, q, e, needle, b) by {
                    if is_findable(m, s, e, needle, b) {
                        let c = choose|c: int| is_found_from(m, s, e, needle, c, b);
                        assert(is_found_from(m, q, e, needle, c, b));
                    }
                    if is_findable(m, q, e, needle, b) {
                        let c = choose|c: int| is_found_from(m, q, e, needle, c, b);
                        assert(is_found_from(m, s, e, needle, c, b));
                    }
                }
            },
        }
    }
}

/// The page boundary right behind `s` is the first one behind it.
proof fn lemma_next_boundary(s: int, c: int)
    requires
        0 <= s < c,
        c % (PAGE_SIZE as int) == 0,
    ensures
        s - s % (PAGE_SIZE as int) + PAGE_SIZE <= c,
{
    let page = PAGE_SIZE as int;
    vstd::arithmetic::div_mod::lemma_fundamental_div_mod(s, page);
    vstd::arithmetic::div_mod::lemma_fundamental_div_mod(c, page);
    let qs = s / page;
    let qc = c / page;
    if qc <= qs {
        assert(page * qc <= page * qs) by (nonlinear_arith)
            requires
                qc <= qs,
                page > 0,
        ;
    } else {
        assert(page * qc >= page * (qs + 1)) by (nonlinear_arith)
            requires
                qc >= qs + 1,
                page > 0,
        ;
        assert(page * (qs + 1) == page * qs + page) by (nonlinear_arith);
    }
}

/// What a search gives is the first place at which it can find what was
/// searched for: it lies in the first mapping that has such a place within
/// the range to be searched, at the lowest address of that mapping at which
/// the bytes can be read from the start of their page and are what was
/// searched for. A search gives nothing only if there is no such place.
pub proof fn law_search_finds_the_first(
    m: MemImage,
    maps: Seq<Mapping>,
    where_: MemoryRange,
    needle: Seq<u8>,
    n: int,
)
    requires
        0 <= n <= maps.len(),
        needle.len() > 0,
    ensures
        match maps_match(m, maps, where_, needle, n) {
            Some(a) => exists|i: int|
                0 <= i < n && #[trigger] is_first_found(m, maps, where_, needle, i, a),
            None => forall|j: int, b: int|
                0 <= j < n ==> !#[trigger] is_findable_in(m, maps[j], where_, needle, b),
        },
    decreases n,
{
    if n > 0 {
        law_search_finds_the_first(m, maps, where_, needle, n - 1);
        match maps_match(m, maps, where_, needle, n - 1) {
            Some(a) => {
                let i = choose|i: int|
                    0 <= i < n - 1 && #[trigger] is_first_found(m, maps, where_, needle, i, a);
                assert(0 <= i < n && is_first_found(m, maps, where_, needle, i, a));
            },
            None => {
                let r = searched_range(maps[n - 1], where_, needle.len() as int);
                lemma_range_match_first(m, r.start, r.end, needle);
                match range_match(m, r.start, r.end, needle) {
                    Some(a) => {
                        assert(is_first_found(m, maps, where_, needle, n - 1, a));
                    },
                    None => {
                        assert forall|j: int, b: int| 0 <= j < n implies !#[trigger] is_findable_in(
                            m,
                            maps[j],
                            where_,
                            needle,
                            b,
                        ) by {
                            if j == n - 1 {
                                assert(!is_findable(m, r.start as int, r.end as int, needle, b));
                            }
                        }
                    },
                }
            },
        }
    }
}

} // verus!
