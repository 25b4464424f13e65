//! Linear memory: a zero-initialised byte array that grows by whole pages, with
//! bounds-checked little-endian loads and stores.
use vstd::prelude::*;
use crate::numeric::{
    wrap32, wrap64, unsigned32, unsigned64, lemma_cast32, lemma_cast64, lemma_wrap32_of_unsigned,
    lemma_wrap64_of_unsigned,
};
use crate::runtime_error::{HostError, RuntimeError};

verus! {

/// Size of one WebAssembly page in bytes.
pub const WASM_PAGE_SIZE: usize = 65_536;

/// The largest number of pages that a 32-bit linear memory can have.
pub const MAX_MEMORY_PAGES: u32 = 65_536;

/// `256^n`.
pub open spec fn pow256(n: nat) -> nat
    decreases n,
{
    if n == 0 { 1 } else { 256 * pow256((n - 1) as nat) }
}

/// The little-endian value of a byte sequence.
pub open spec fn le(b: Seq<u8>) -> nat
    decreases b.len(),
{
    if b.len() == 0 { 0 } else { b[0] as nat + 256 * le(b.drop_first()) }
}

/// Byte `j` of the little-endian encoding of `x`.
pub open spec fn byte_of(x: nat, j: nat) -> u8 {
    ((x / pow256(j)) % 256) as u8
}

/// The `w` low-order bytes of `x`, least significant first.
pub open spec fn le_bytes(x: nat, w: nat) -> Seq<u8> {
    Seq::new(w, |j: int| byte_of(x, j as nat))
}

/// `n` zero bytes.
pub open spec fn zeros(n: nat) -> Seq<u8> {
    Seq::new(n, |i: int| 0u8)
}

/// Number of bytes in `pages` pages, when that fits in `usize`.
pub open spec fn spec_pages_to_bytes(pages: u32) -> Option<usize> {
    if pages * WASM_PAGE_SIZE <= usize::MAX {
        Some((pages * WASM_PAGE_SIZE) as usize)
    } else {
        None
    }
}

pub fn pages_to_bytes(pages: u32) -> (r: Option<usize>)
    ensures
        r == spec_pages_to_bytes(pages),
{
    let bytes: u64 = (pages as u64) * 65_536u64;
    if bytes <= usize::MAX as u64 {
        Some(bytes as usize)
    } else {
        None
    }
}

pub proof fn lemma_pow256_facts()
    ensures
        pow256(1) == 0x100,
        pow256(2) == 0x1_0000,
        pow256(3) == 0x100_0000,
        pow256(4) == 0x1_0000_0000,
        pow256(7) == 0x100_0000_0000_0000,
        pow256(8) == 0x1_0000_0000_0000_0000,
{
    reveal_with_fuel(pow256, 9);
}

pub proof fn lemma_pow256_positive(n: nat)
    ensures
        pow256(n) >= 1,
    decreases n,
{
    if n > 0 {
        lemma_pow256_positive((n - 1) as nat);
    }
}

pub proof fn lemma_pow256_monotone(n: nat, m: nat)
    requires
        n <= m,
    ensures
        pow256(n) <= pow256(m),
    decreases m,
{
    lemma_pow256_positive(m);
    if n < m {
        lemma_pow256_monotone(n, (m - 1) as nat);
    }
}

proof fn lemma_le_bound(b: Seq<u8>)
    ensures
        le(b) < pow256(b.len()),
    decreases b.len(),
{
    if b.len() > 0 {
        lemma_le_bound(b.drop_first());
    }
}

/// Reading back the `w` low bytes of `x` gives `x` modulo `256^w`.
pub proof fn lemma_le_of_le_bytes(x: nat, w: nat)
    ensures
        le(le_bytes(x, w)) == x % pow256(w),
    decreases w,
{
    lemma_pow256_positive(w);
    if w == 0 {
        assert(le(le_bytes(x, w)) == 0);
    } else {
        let rest = le_bytes(x / 256, (w - 1) as nat);
        assert forall|j: int| 0 <= j < w - 1 implies #[trigger] le_bytes(x, w).drop_first()[j] == rest[j] by {
            lemma_pow256_positive(j as nat);
            vstd::arithmetic::div_mod::lemma_div_denominator(x as int, 256, pow256(j as nat) as int);
        }
        assert(le_bytes(x, w).drop_first() =~= rest);
        lemma_le_of_le_bytes(x / 256, (w - 1) as nat);
        lemma_pow256_positive((w - 1) as nat);
        vstd::arithmetic::div_mod::lemma_mod_breakdown(x as int, 256, pow256((w - 1) as nat) as int);
        assert(pow256(0) == 1);
        assert(x / 1 == x);
        assert(le_bytes(x, w)[0] == x % 256);
        assert(le(le_bytes(x, w)) == le_bytes(x, w)[0] + 256 * le(le_bytes(x, w).drop_first()));
    }
}

/// Checked range of a host access: `width` bytes from `address`.
pub open spec fn spec_host_range(len: nat, address: u32, width: usize) -> Result<(usize, usize), HostError> {
    if address + width > len {
        Err(HostError::MemoryOutOfBounds { address: address as u64, width })
    } else {
        Ok((address as usize, (address + width) as usize))
    }
}

/// Checked range of an instruction access: `width` bytes from the unsigned address
/// plus the static displacement.
pub open spec fn spec_access_range(len: nat, address: i32, displacement: u32, width: usize) -> Result<
    (usize, usize),
    RuntimeError,
> {
    let effective = unsigned32(address) + displacement;
    if effective + width > len {
        Err(RuntimeError::MemoryOutOfBounds { address: effective as u64, width })
    } else {
        Ok((effective as usize, (effective + width) as usize))
    }
}


/// The value `width` bytes from the effective address would load, read little-endian
/// and then given its type by `f`; or the out-of-bounds trap.
pub open spec fn spec_load<T>(
    mem: Seq<u8>,
    address: i32,
    displacement: u32,
    width: usize,
    f: spec_fn(nat) -> T,
) -> Result<T, RuntimeError> {
    match spec_access_range(mem.len(), address, displacement, width) {
        Err(e) => Err(e),
        Ok((s, e)) => Ok(f(le(mem.subrange(s as int, e as int)))),
    }
}

/// The memory after writing the `width` low bytes of `x` at the effective address;
/// or the out-of-bounds trap.
pub open spec fn spec_store(mem: Seq<u8>, address: i32, displacement: u32, width: usize, x: nat) -> Result<
    Seq<u8>,
    RuntimeError,
> {
    match spec_access_range(mem.len(), address, displacement, width) {
        Err(e) => Err(e),
        Ok((s, e)) => Ok(mem.subrange(0, s as int) + le_bytes(x, width as nat) + mem.subrange(
            e as int,
            mem.len() as int,
        )),
    }
}

/// Sign extension of the low `8 * n` bits.
pub open spec fn sext(raw: nat, n: nat) -> int {
    if raw < pow256(n) / 2 { raw as int } else { raw - pow256(n) }
}


/// Whether `length` bytes from `start` lie inside a memory of `len` bytes.
pub open spec fn bulk_in_bounds(len: nat, start: u32, length: u32) -> bool {
    start as int + length as int <= len
}

/// `memory.fill`: `length` copies of `value` from `destination` on; out of bounds, nothing
/// is written.
pub open spec fn spec_fill(mem: Seq<u8>, destination: u32, value: u8, length: u32) -> Result<Seq<u8>, RuntimeError> {
    if !bulk_in_bounds(mem.len(), destination, length) {
        Err(RuntimeError::MemoryOutOfBounds { address: destination as u64, width: length as usize })
    } else {
        Ok(
            mem.subrange(0, destination as int) + Seq::new(length as nat, |i: int| value) + mem.subrange(
                destination + length,
                mem.len() as int,
            ),
        )
    }
}

/// `memory.copy`: the `length` bytes at `source`, as they were before the copy, written
/// from `destination` on (the ranges may overlap); if either range is out of bounds,
/// the destination's first, nothing is written.
pub open spec fn spec_copy(mem: Seq<u8>, destination: u32, source: u32, length: u32) -> Result<Seq<u8>, RuntimeError> {
    if !bulk_in_bounds(mem.len(), destination, length) {
        Err(RuntimeError::MemoryOutOfBounds { address: destination as u64, width: length as usize })
    } else if !bulk_in_bounds(mem.len(), source, length) {
        Err(RuntimeError::MemoryOutOfBounds { address: source as u64, width: length as usize })
    } else {
        Ok(
            mem.subrange(0, destination as int) + mem.subrange(source as int, source + length) + mem.subrange(
                destination + length,
                mem.len() as int,
            ),
        )
    }
}

/// `memory.fill` succeeds exactly when its range lies inside memory; then every byte of the
/// range holds the value, every other byte is unchanged and the length is kept.
pub proof fn law_fill_bytes(mem: Seq<u8>, destination: u32, value: u8, length: u32)
    ensures
        spec_fill(mem, destination, value, length) is Ok <==> destination + length <= mem.len(),
        spec_fill(mem, destination, value, length) matches Ok(m) ==> {
            &&& m.len() == mem.len()
            &&& forall|j: int| destination <= j < destination + length ==> #[trigger] m[j] == value
            &&& forall|j: int| 0 <= j < mem.len() && !(destination <= j < destination + length) ==> #[trigger] m[j]
                == mem[j]
        },
{
    if destination + length <= mem.len() {
        let m = spec_fill(mem, destination, value, length)->Ok_0;
        assert forall|j: int| 0 <= j < mem.len() && !(destination <= j < destination + length) implies #[trigger] m[j]
            == mem[j] by {
            if j >= destination + length {
                assert(m[j] == mem.subrange(destination + length, mem.len() as int)[j - destination - length]);
            }
        }
    }
}

/// `memory.copy` succeeds exactly when both ranges lie inside memory; then the destination
/// range holds what the source range held before the copy (overlapping ranges included),
/// every other byte is unchanged and the length is kept.
pub proof fn law_copy_bytes(mem: Seq<u8>, destination: u32, source: u32, length: u32)
    ensures
        spec_copy(mem, destination, source, length) is Ok <==> (destination + length <= mem.len() && source + length
            <= mem.len()),
        spec_copy(mem, destination, source, length) matches Ok(m) ==> {
            &&& m.len() == mem.len()
            &&& forall|i: int| 0 <= i < length ==> #[trigger] m[destination + i] == mem[source + i]
            &&& forall|j: int| 0 <= j < mem.len() && !(destination <= j < destination + length) ==> #[trigger] m[j]
                == mem[j]
        },
{
    if destination + length <= mem.len() && source + length <= mem.len() {
        let m = spec_copy(mem, destination, source, length)->Ok_0;
        assert forall|i: int| 0 <= i < length implies #[trigger] m[destination + i] == mem[source + i] by {
            assert(m[destination + i] == mem.subrange(source as int, source + length)[i]);
        }
        assert forall|j: int| 0 <= j < mem.len() && !(destination <= j < destination + length) implies #[trigger] m[j]
            == mem[j] by {
            if j >= destination + length {
                assert(m[j] == mem.subrange(destination + length, mem.len() as int)[j - destination - length]);
            }
        }
    }
}

impl LinearMemory {
    /// Writes `length` copies of `value` from `destination` on, after checking the range.
    pub fn fill(&mut self, destination: u32, value: u8, length: u32) -> (r: Result<(), RuntimeError>)
        requires
            old(self).wf(),
        ensures
            final(self).wf(),
            final(self).spec_max_pages() == old(self).spec_max_pages(),
            match spec_fill(old(self)@, destination, value, length) {
                Ok(m) => r is Ok && final(self)@ == m,
                Err(e) => r == Err::<(), RuntimeError>(e) && final(self)@ == old(self)@,
            },
    {
        let len = self.bytes.len();
        if destination as u64 + length as u64 > len as u64 {
            return Err(RuntimeError::MemoryOutOfBounds { address: destination as u64, width: length as usize });
        }
        let start = destination as usize;
        let end = start + length as usize;
        let mut i = start;
        while i < end
            invariant
                start <= i <= end <= self@.len(),
                end == start + length,
                self@.len() == old(self)@.len(),
                self.spec_max_pages() == old(self).spec_max_pages(),
                forall|j: int| 0 <= j < start ==> #[trigger] self@[j] == old(self)@[j],
                forall|j: int| i <= j < self@.len() ==> #[trigger] self@[j] == old(self)@[j],
                forall|j: int| start <= j < i ==> #[trigger] self@[j] == value,
            decreases end - i,
        {
            self.bytes.set(i, value);
            i = i + 1;
        }
        assert(self@ =~= old(self)@.subrange(0, start as int) + Seq::new(length as nat, |k: int| value)
            + old(self)@.subrange(end as int, old(self)@.len() as int));
        Ok(())
    }

    /// Writes `source[offset..offset + length]` from `destination` on, after checking the
    /// destination range.
    pub fn copy_in(&mut self, destination: u32, source: &[u8], offset: usize, length: usize) -> (r: Result<
        (),
        RuntimeError,
    >)
        requires
            old(self).wf(),
            offset + length <= source@.len(),
            length <= u32::MAX,
        ensures
            final(self).wf(),
            final(self).spec_max_pages() == old(self).spec_max_pages(),
            destination + length > old(self)@.len() ==> r == Err::<(), RuntimeError>(
                RuntimeError::MemoryOutOfBounds { address: destination as u64, width: length },
            ) && final(self)@ == old(self)@,
            destination + length <= old(self)@.len() ==> r is Ok && final(self)@ == old(self)@.subrange(
                0,
                destination as int,
            ) + source@.subrange(offset as int, offset + length) + old(self)@.subrange(
                destination + length,
                old(self)@.len() as int,
            ),
    {
        let len = self.bytes.len();
        if destination as u64 + length as u64 > len as u64 {
            return Err(RuntimeError::MemoryOutOfBounds { address: destination as u64, width: length });
        }
        let start = destination as usize;
        let source_len = source.len();
        let mut i: usize = 0;
        while i < length
            invariant
                i <= length,
                start + length <= self@.len(),
                self@.len() == len,
                source@.len() == source_len,
                offset + length <= source@.len(),
                self@.len() == old(self)@.len(),
                self.spec_max_pages() == old(self).spec_max_pages(),
                forall|j: int| 0 <= j < start ==> #[trigger] self@[j] == old(self)@[j],
                forall|j: int| start + i <= j < self@.len() ==> #[trigger] self@[j] == old(self)@[j],
                forall|j: int| start <= j < start + i ==> #[trigger] self@[j] == source@[offset + j - start],
            decreases length - i,
        {
            self.bytes.set(start + i, source[offset + i]);
            i = i + 1;
        }
        assert(self@ =~= old(self)@.subrange(0, start as int) + source@.subrange(offset as int, offset + length)
            + old(self)@.subrange(start + length, old(self)@.len() as int));
        Ok(())
    }

    /// Copies the `length` bytes at `source` to `destination`, as if through a buffer, after
    /// checking both ranges.
    pub fn copy_within(&mut self, destination: u32, source: u32, length: u32) -> (r: Result<(), RuntimeError>)
        requires
            old(self).wf(),
        ensures
            final(self).wf(),
            final(self).spec_max_pages() == old(self).spec_max_pages(),
            match spec_copy(old(self)@, destination, source, length) {
                Ok(m) => r is Ok && final(self)@ == m,
                Err(e) => r == Err::<(), RuntimeError>(e) && final(self)@ == old(self)@,
            },
    {
        let len = self.bytes.len();
        if destination as u64 + length as u64 > len as u64 {
            return Err(RuntimeError::MemoryOutOfBounds { address: destination as u64, width: length as usize });
        }
        if source as u64 + length as u64 > len as u64 {
            return Err(RuntimeError::MemoryOutOfBounds { address: source as u64, width: length as usize });
        }
        let from = source as usize;
        let start = destination as usize;
        let n = length as usize;
        let mut buffer: Vec<u8> = Vec::new();
        let mut k: usize = 0;
        while k < n
            invariant
                k <= n,
                from + n <= self@.len(),
                self@.len() == len,
                self@ == old(self)@,
                buffer@ == old(self)@.subrange(from as int, from + k),
            decreases n - k,
        {
            buffer.push(self.bytes[from + k]);
            k = k + 1;
            assert(buffer@ =~= old(self)@.subrange(from as int, from + k));
        }
        let mut i: usize = 0;
        while i < n
            invariant
                i <= n,
                start + n <= self@.len(),
                self@.len() == len,
                buffer@.len() == n,
                buffer@ == old(self)@.subrange(from as int, from + n),
                self@.len() == old(self)@.len(),
                self.spec_max_pages() == old(self).spec_max_pages(),
                forall|j: int| 0 <= j < start ==> #[trigger] self@[j] == old(self)@[j],
                forall|j: int| start + i <= j < self@.len() ==> #[trigger] self@[j] == old(self)@[j],
                forall|j: int| start <= j < start + i ==> #[trigger] self@[j] == buffer@[j - start],
            decreases n - i,
        {
            self.bytes.set(start + i, buffer[i]);
            i = i + 1;
        }
        assert(self@ =~= old(self)@.subrange(0, start as int) + old(self)@.subrange(from as int, from + n)
            + old(self)@.subrange(start + n, old(self)@.len() as int));
        Ok(())
    }
}

/// A well-formed memory is a whole number of pages: its length is its page count times the
/// page size. `new` and `grow` keep memories well formed, a successful `grow` adds exactly
/// the pages asked for and never passes the maximum, and stores keep the length.
pub proof fn law_memory_whole_pages(m: LinearMemory)
    requires
        m.wf(),
    ensures
        m@.len() == m.spec_size_pages() * WASM_PAGE_SIZE,
        m.spec_size_pages() <= MAX_MEMORY_PAGES,
{
    assert(m@.len() == (m@.len() / (WASM_PAGE_SIZE as nat)) * WASM_PAGE_SIZE + m@.len() % (WASM_PAGE_SIZE as nat))
        by (nonlinear_arith);
}

/// A load of the width just stored, at the same address, reads the stored value
/// modulo `256^width`; a store changes neither the length of memory nor, outside the
/// stored range, any byte.
pub proof fn law_load_after_store(mem: Seq<u8>, address: i32, displacement: u32, width: usize, x: nat)
    requires
        mem.len() <= usize::MAX,
        spec_store(mem, address, displacement, width, x) is Ok,
    ensures
        ({
            let m = spec_store(mem, address, displacement, width, x)->Ok_0;
            let (s, e) = spec_access_range(mem.len(), address, displacement, width)->Ok_0;
            &&& m.len() == mem.len()
            &&& forall|j: int| 0 <= j < mem.len() && !(s <= j < e) ==> #[trigger] m[j] == mem[j]
            &&& spec_load(m, address, displacement, width, |raw: nat| raw) == Ok::<nat, RuntimeError>(
                x % pow256(width as nat),
            )
        }),
{
    let m = spec_store(mem, address, displacement, width, x)->Ok_0;
    let (s, e) = spec_access_range(mem.len(), address, displacement, width)->Ok_0;
    assert(m.subrange(s as int, e as int) =~= le_bytes(x, width as nat));
    lemma_le_of_le_bytes(x, width as nat);
}

/// What the host writes into memory it reads back from the same place: a write in range
/// keeps the memory's length, so the same range is still in bounds, and holds the written
/// bytes there.
pub proof fn law_host_write_then_read(mem: Seq<u8>, address: u32, bytes: Seq<u8>)
    requires
        mem.len() <= usize::MAX,
        bytes.len() <= usize::MAX,
        spec_host_range(mem.len(), address, bytes.len() as usize) is Ok,
    ensures
        ({
            let (s, e) = spec_host_range(mem.len(), address, bytes.len() as usize)->Ok_0;
            let written = mem.subrange(0, s as int) + bytes + mem.subrange(e as int, mem.len() as int);
            &&& written.len() == mem.len()
            &&& spec_host_range(written.len(), address, bytes.len() as usize) == Ok::<(usize, usize), HostError>(
                (s, e),
            )
            &&& written.subrange(s as int, e as int) == bytes
        }),
{
    let (s, e) = spec_host_range(mem.len(), address, bytes.len() as usize)->Ok_0;
    let written = mem.subrange(0, s as int) + bytes + mem.subrange(e as int, mem.len() as int);
    assert(written.subrange(s as int, e as int) =~= bytes);
}

/// Storing an `i32` and loading an `i32` from the same place gives the value back.
pub proof fn law_i32_store_load(mem: Seq<u8>, address: i32, displacement: u32, value: i32)
    requires
        mem.len() <= usize::MAX,
        spec_store(mem, address, displacement, 4, unsigned32(value) as nat) is Ok,
    ensures
        spec_load(
            spec_store(mem, address, displacement, 4, unsigned32(value) as nat)->Ok_0,
            address,
            displacement,
            4,
            |raw: nat| wrap32(raw as int),
        ) == Ok::<i32, RuntimeError>(value),
{
    law_load_after_store(mem, address, displacement, 4, unsigned32(value) as nat);
    lemma_pow256_facts();
    lemma_cast32(value, 0);
    lemma_wrap32_of_unsigned(value as u32);
}

/// Storing an `i64` and loading an `i64` from the same place gives the value back.
pub proof fn law_i64_store_load(mem: Seq<u8>, address: i32, displacement: u32, value: i64)
    requires
        mem.len() <= usize::MAX,
        spec_store(mem, address, displacement, 8, unsigned64(value) as nat) is Ok,
    ensures
        spec_load(
            spec_store(mem, address, displacement, 8, unsigned64(value) as nat)->Ok_0,
            address,
            displacement,
            8,
            |raw: nat| wrap64(raw as int),
        ) == Ok::<i64, RuntimeError>(value),
{
    law_load_after_store(mem, address, displacement, 8, unsigned64(value) as nat);
    lemma_pow256_facts();
    lemma_cast64(value, 0);
    lemma_wrap64_of_unsigned(value as u64);
}

/// A linear memory: its bytes, whose length is always a whole number of pages, and the
/// page count that growing may not pass.
#[derive(Debug, Clone)]
pub struct LinearMemory {
    bytes: Vec<u8>,
    max_pages: u32,
}

impl View for LinearMemory {
    type V = Seq<u8>;

    closed spec fn view(&self) -> Seq<u8> {
        self.bytes@
    }
}

impl LinearMemory {
    /// The page count that `grow` may not pass.
    pub closed spec fn spec_max_pages(&self) -> u32 {
        self.max_pages
    }

    pub open spec fn spec_size_pages(&self) -> nat {
        self@.len() / (WASM_PAGE_SIZE as nat)
    }

    pub open spec fn wf(&self) -> bool {
        &&& self@.len() % (WASM_PAGE_SIZE as nat) == 0
        &&& self.spec_size_pages() <= MAX_MEMORY_PAGES
        &&& self.spec_max_pages() <= MAX_MEMORY_PAGES
    }

    /// A memory of `min_pages` zero pages that may grow up to the smaller of the
    /// declared maximum (or the format's limit) and the runtime cap.
    pub fn new(min_pages: u32, declared_max: Option<u32>, runtime_max: u32) -> (r: Result<
        LinearMemory,
        RuntimeError,
    >)
        ensures
            ({
                let cap = if runtime_max < MAX_MEMORY_PAGES { runtime_max } else { MAX_MEMORY_PAGES };
                let declared = match declared_max {
                    Some(m) => m,
                    None => MAX_MEMORY_PAGES,
                };
                &&& min_pages > cap ==> r == Err::<LinearMemory, RuntimeError>(
                    RuntimeError::MemoryLimitExceeded { minimum: min_pages, limit: cap },
                )
                &&& min_pages <= cap ==> match r {
                    Ok(m) => {
                        &&& m.wf()
                        &&& m@ == zeros((min_pages * WASM_PAGE_SIZE) as nat)
                        &&& m.spec_max_pages() == if declared < cap { declared } else { cap }
                    },
                    Err(e) => e == RuntimeError::MemoryAllocationFailed { pages: min_pages },
                }
                &&& min_pages == 0 ==> r is Ok
            }),
    {
        let runtime_max = if runtime_max < MAX_MEMORY_PAGES { runtime_max } else { MAX_MEMORY_PAGES };
        if min_pages > runtime_max {
            return Err(RuntimeError::MemoryLimitExceeded { minimum: min_pages, limit: runtime_max });
        }
        let declared = match declared_max {
            Some(m) => m,
            None => MAX_MEMORY_PAGES,
        };
        let max_pages = if declared < runtime_max { declared } else { runtime_max };
        let byte_len = match pages_to_bytes(min_pages) {
            Some(n) => n,
            None => return Err(RuntimeError::MemoryAllocationFailed { pages: min_pages }),
        };
        let mut bytes: Vec<u8> = Vec::new();
        if byte_len > 0 && bytes.try_reserve(byte_len).is_err() {
            return Err(RuntimeError::MemoryAllocationFailed { pages: min_pages });
        }
        bytes.resize(byte_len, 0);
        let m = LinearMemory { bytes, max_pages };
        assert(m@ =~= zeros((min_pages * WASM_PAGE_SIZE) as nat));
        Ok(m)
    }

    pub fn size_pages(&self) -> (n: u32)
        requires
            self.wf(),
        ensures
            n == self.spec_size_pages(),
    {
        (self.bytes.len() / WASM_PAGE_SIZE) as u32
    }

    pub fn bytes(&self) -> (b: &[u8])
        ensures
            b@ == self@,
    {
        self.bytes.as_slice()
    }

    /// Grows by `delta_pages` zero pages and answers the previous page count, or answers
    /// -1 and changes nothing. Passing the maximum always fails; an allocation the
    /// machine cannot make fails too. Growing by nothing within the maximum allocates
    /// nothing and always answers the page count.
    pub fn grow(&mut self, delta_pages: u32) -> (r: i32)
        requires
            old(self).wf(),
        ensures
            final(self).wf(),
            final(self).spec_max_pages() == old(self).spec_max_pages(),
            old(self).spec_size_pages() + delta_pages > old(self).spec_max_pages() ==> r == -1,
            delta_pages == 0 && old(self).spec_size_pages() <= old(self).spec_max_pages() ==> r
                == old(self).spec_size_pages(),
            r == -1 ==> final(self)@ == old(self)@,
            r != -1 ==> {
                &&& r == old(self).spec_size_pages()
                &&& final(self)@ == old(self)@ + zeros((delta_pages * WASM_PAGE_SIZE) as nat)
                &&& final(self).spec_size_pages() == old(self).spec_size_pages() + delta_pages
                &&& final(self).spec_size_pages() <= final(self).spec_max_pages()
            },
    {
        let old_pages = self.size_pages();
        let new_pages = match old_pages.checked_add(delta_pages) {
            Some(n) => n,
            None => return -1,
        };
        if new_pages > self.max_pages {
            return -1;
        }
        proof {
            if delta_pages == 0 {
                let len = self.bytes@.len();
                assert(len == self.bytes.len());
                assert(len <= usize::MAX);
                assert(new_pages * WASM_PAGE_SIZE == len) by (nonlinear_arith)
                    requires
                        new_pages == old_pages,
                        old_pages == len / WASM_PAGE_SIZE as nat,
                        len % WASM_PAGE_SIZE as nat == 0,
                ;
            }
        }
        let new_len = match pages_to_bytes(new_pages) {
            Some(n) => n,
            None => return -1,
        };
        let old_len = self.bytes.len();
        assert(new_len == old_len + delta_pages * WASM_PAGE_SIZE) by (nonlinear_arith)
            requires
                new_len == new_pages * WASM_PAGE_SIZE,
                new_pages == old_pages + delta_pages,
                old_len == old_pages * WASM_PAGE_SIZE,
                old_len % WASM_PAGE_SIZE == 0,
                old_pages == old_len / WASM_PAGE_SIZE,
        ;
        if new_len > old_len {
            let additional = new_len - old_len;
            if self.bytes.try_reserve(additional).is_err() {
                return -1;
            }
            self.bytes.resize(new_len, 0);
        }
        assert(self@ =~= old(self)@ + zeros((delta_pages * WASM_PAGE_SIZE) as nat));
        assert(self@.len() % (WASM_PAGE_SIZE as nat) == 0) by (nonlinear_arith)
            requires
                self@.len() == new_pages * WASM_PAGE_SIZE,
        ;
        assert(self.spec_size_pages() == new_pages) by (nonlinear_arith)
            requires
                self@.len() == new_pages * WASM_PAGE_SIZE,
        ;
        old_pages as i32
    }

    /// The byte range of a host access, or the out-of-bounds error naming it.
    pub fn checked_host_range(&self, address: u32, width: usize) -> (r: Result<(usize, usize), HostError>)
        ensures
            r == spec_host_range(self@.len(), address, width),
            r matches Ok((s, e)) ==> s == address && e == s + width && e <= self@.len(),
    {
        let start = address as u64;
        assert(width as u64 == width);
        assert(self@.len() == self.bytes.len());
        let end = match start.checked_add(width as u64) {
            Some(e) => e,
            None => return Err(HostError::MemoryOutOfBounds { address: start, width }),
        };
        if end > self.bytes.len() as u64 {
            return Err(HostError::MemoryOutOfBounds { address: start, width });
        }
        Ok((start as usize, end as usize))
    }

    /// The byte range of an instruction's access, or the out-of-bounds trap naming it.
    pub fn checked_range(&self, address: i32, displacement: u32, width: usize) -> (r: Result<
        (usize, usize),
        RuntimeError,
    >)
        ensures
            r == spec_access_range(self@.len(), address, displacement, width),
            r matches Ok((s, e)) ==> s == unsigned32(address) + displacement && e == s + width && e
                <= self@.len(),
    {
        proof {
            lemma_cast32(address, 0);
        }
        let effective = (address as u32) as u64 + displacement as u64;
        assert(width as u64 == width);
        assert(self@.len() == self.bytes.len());
        let end = match effective.checked_add(width as u64) {
            Some(e) => e,
            None => return Err(RuntimeError::MemoryOutOfBounds { address: effective, width }),
        };
        if end > self.bytes.len() as u64 {
            return Err(RuntimeError::MemoryOutOfBounds { address: effective, width });
        }
        Ok((effective as usize, end as usize))
    }

    /// The little-endian value of the `end - start` bytes from `start`.
    fn read_le(&self, start: usize, end: usize) -> (v: u64)
        requires
            start <= end <= self@.len(),
            end - start <= 8,
        ensures
            v as nat == le(self@.subrange(start as int, end as int)),
    {
        proof {
            lemma_le_bound(self@.subrange(start as int, end as int));
            lemma_pow256_facts();
            lemma_pow256_monotone((end - start) as nat, 8);
        }
        let mut v: u64 = 0;
        let mut i = end;
        while i > start
            invariant
                start <= i <= end <= self@.len(),
                end - start <= 8,
                v as nat == le(self@.subrange(i as int, end as int)),
                le(self@.subrange(start as int, end as int)) < 0x1_0000_0000_0000_0000,
            decreases i,
        {
            i = i - 1;
            let ghost tail = self@.subrange(i as int, end as int);
            assert(tail.drop_first() =~= self@.subrange(i + 1, end as int));
            proof {
                lemma_pow256_facts();
                lemma_le_bound(tail);
                lemma_pow256_monotone((end - i) as nat, 8);
                assert(le(tail) == tail[0] + 256 * le(tail.drop_first()));
            }
            v = self.bytes[i] as u64 + 256 * v;
        }
        v
    }

    /// Writes the `end - start` low bytes of `x`, least significant first, from `start`.
    fn write_le(&mut self, start: usize, end: usize, x: u64)
        requires
            start <= end <= old(self)@.len(),
        ensures
            final(self).spec_max_pages() == old(self).spec_max_pages(),
            final(self)@ == old(self)@.subrange(0, start as int) + le_bytes(x as nat, (end - start) as nat)
                + old(self)@.subrange(end as int, old(self)@.len() as int),
    {
        let mut y = x;
        let mut i = start;
        assert(pow256(0) == 1);
        assert(x as nat / 1 == x as nat);
        while i < end
            invariant
                start <= i <= end <= self@.len(),
                self@.len() == old(self)@.len(),
                self.spec_max_pages() == old(self).spec_max_pages(),
                y as nat == x as nat / pow256((i - start) as nat),
                forall|j: int| 0 <= j < start ==> #[trigger] self@[j] == old(self)@[j],
                forall|j: int| end <= j < self@.len() ==> #[trigger] self@[j] == old(self)@[j],
                forall|j: int| start <= j < i ==> #[trigger] self@[j] == byte_of(x as nat, (j - start) as nat),
            decreases end - i,
        {
            self.bytes.set(i, (y % 256) as u8);
            proof {
                lemma_pow256_positive((i - start) as nat);
                vstd::arithmetic::div_mod::lemma_div_denominator(x as int, pow256((i - start) as nat) as int, 256);
                assert(pow256((i + 1 - start) as nat) == pow256((i - start) as nat) * 256);
            }
            y = y / 256;
            i = i + 1;
        }
        assert(self@ =~= old(self)@.subrange(0, start as int) + le_bytes(x as nat, (end - start) as nat)
            + old(self)@.subrange(end as int, old(self)@.len() as int));
    }

    pub fn load_i32(&self, address: i32, displacement: u32) -> (r: Result<i32, RuntimeError>)
        requires
            self.wf(),
        ensures
            r == spec_load(self@, address, displacement, 4, |raw: nat| wrap32(raw as int)),
    {
        let (start, end) = self.checked_range(address, displacement, 4)?;
        let raw = self.read_le(start, end);
        proof {
            lemma_le_bound(self@.subrange(start as int, end as int));
            lemma_pow256_facts();
        }
        proof { lemma_wrap32_of_unsigned(raw as u32); }
        Ok((raw as u32) as i32)
    }

    pub fn load_i64(&self, address: i32, displacement: u32) -> (r: Result<i64, RuntimeError>)
        requires
            self.wf(),
        ensures
            r == spec_load(self@, address, displacement, 8, |raw: nat| wrap64(raw as int)),
    {
        let (start, end) = self.checked_range(address, displacement, 8)?;
        let raw = self.read_le(start, end);
        proof {
            lemma_le_bound(self@.subrange(start as int, end as int));
            lemma_pow256_facts();
        }
        proof { lemma_wrap64_of_unsigned(raw); }
        Ok(raw as i64)
    }

    pub fn load_f32(&self, address: i32, displacement: u32) -> (r: Result<u32, RuntimeError>)
        requires
            self.wf(),
        ensures
            r == spec_load(self@, address, displacement, 4, |raw: nat| raw as u32),
    {
        let (start, end) = self.checked_range(address, displacement, 4)?;
        let raw = self.read_le(start, end);
        proof {
            lemma_le_bound(self@.subrange(start as int, end as int));
            lemma_pow256_facts();
        }
        Ok(raw as u32)
    }

    pub fn load_f64(&self, address: i32, displacement: u32) -> (r: Result<u64, RuntimeError>)
        requires
            self.wf(),
        ensures
            r == spec_load(self@, address, displacement, 8, |raw: nat| raw as u64),
    {
        let (start, end) = self.checked_range(address, displacement, 8)?;
        let raw = self.read_le(start, end);
        proof {
            lemma_le_bound(self@.subrange(start as int, end as int));
            lemma_pow256_facts();
        }
        Ok(raw)
    }

    pub fn load_i8_s(&self, address: i32, displacement: u32) -> (r: Result<i32, RuntimeError>)
        requires
            self.wf(),
        ensures
            r == spec_load(self@, address, displacement, 1, |raw: nat| sext(raw, 1) as i32),
    {
        let (start, end) = self.checked_range(address, displacement, 1)?;
        let raw = self.read_le(start, end);
        proof {
            lemma_le_bound(self@.subrange(start as int, end as int));
            lemma_pow256_facts();
        }
        if raw < 128 { Ok(raw as i32) } else { Ok(raw as i32 - 256) }
    }

    pub fn load_i8_u(&self, address: i32, displacement: u32) -> (r: Result<i32, RuntimeError>)
        requires
            self.wf(),
        ensures
            r == spec_load(self@, address, displacement, 1, |raw: nat| raw as i32),
    {
        let (start, end) = self.checked_range(address, displacement, 1)?;
        let raw = self.read_le(start, end);
        proof {
            lemma_le_bound(self@.subrange(start as int, end as int));
            lemma_pow256_facts();
        }
        Ok(raw as i32)
    }

    pub fn load_i16_s(&self, address: i32, displacement: u32) -> (r: Result<i32, RuntimeError>)
        requires
            self.wf(),
        ensures
            r == spec_load(self@, address, displacement, 2, |raw: nat| sext(raw, 2) as i32),
    {
        let (start, end) = self.checked_range(address, displacement, 2)?;
        let raw = self.read_le(start, end);
        proof {
            lemma_le_bound(self@.subrange(start as int, end as int));
            lemma_pow256_facts();
        }
        if raw < 0x8000 { Ok(raw as i32) } else { Ok(raw as i32 - 0x1_0000) }
    }

    pub fn load_i16_u(&self, address: i32, displacement: u32) -> (r: Result<i32, RuntimeError>)
        requires
            self.wf(),
        ensures
            r == spec_load(self@, address, displacement, 2, |raw: nat| raw as i32),
    {
        let (start, end) = self.checked_range(address, displacement, 2)?;
        let raw = self.read_le(start, end);
        proof {
            lemma_le_bound(self@.subrange(start as int, end as int));
            lemma_pow256_facts();
        }
        Ok(raw as i32)
    }

    pub fn load_i64_8_s(&self, address: i32, displacement: u32) -> (r: Result<i64, RuntimeError>)
        requires
            self.wf(),
        ensures
            r == spec_load(self@, address, displacement, 1, |raw: nat| sext(raw, 1) as i64),
    {
        let (start, end) = self.checked_range(address, displacement, 1)?;
        let raw = self.read_le(start, end);
        proof {
            lemma_le_bound(self@.subrange(start as int, end as int));
            lemma_pow256_facts();
        }
        if raw < 128 { Ok(raw as i64) } else { Ok(raw as i64 - 256) }
    }

    pub fn load_i64_8_u(&self, address: i32, displacement: u32) -> (r: Result<i64, RuntimeError>)
        requires
            self.wf(),
        ensures
            r == spec_load(self@, address, displacement, 1, |raw: nat| raw as i64),
    {
        let (start, end) = self.checked_range(address, displacement, 1)?;
        let raw = self.read_le(start, end);
        proof {
            lemma_le_bound(self@.subrange(start as int, end as int));
            lemma_pow256_facts();
        }
        Ok(raw as i64)
    }

    pub fn load_i64_16_s(&self, address: i32, displacement: u32) -> (r: Result<i64, RuntimeError>)
        requires
            self.wf(),
        ensures
            r == spec_load(self@, address, displacement, 2, |raw: nat| sext(raw, 2) as i64),
    {
        let (start, end) = self.checked_range(address, displacement, 2)?;
        let raw = self.read_le(start, end);
        proof {
            lemma_le_bound(self@.subrange(start as int, end as int));
            lemma_pow256_facts();
        }
        if raw < 0x8000 { Ok(raw as i64) } else { Ok(raw as i64 - 0x1_0000) }
    }

    pub fn load_i64_16_u(&self, address: i32, displacement: u32) -> (r: Result<i64, RuntimeError>)
        requires
            self.wf(),
        ensures
            r == spec_load(self@, address, displacement, 2, |raw: nat| raw as i64),
    {
        let (start, end) = self.checked_range(address, displacement, 2)?;
        let raw = self.read_le(start, end);
        proof {
            lemma_le_bound(self@.subrange(start as int, end as int));
            lemma_pow256_facts();
        }
        Ok(raw as i64)
    }

    pub fn load_i64_32_s(&self, address: i32, displacement: u32) -> (r: Result<i64, RuntimeError>)
        requires
            self.wf(),
        ensures
            r == spec_load(self@, address, displacement, 4, |raw: nat| sext(raw, 4) as i64),
    {
        let (start, end) = self.checked_range(address, displacement, 4)?;
        let raw = self.read_le(start, end);
        proof {
            lemma_le_bound(self@.subrange(start as int, end as int));
            lemma_pow256_facts();
        }
        if raw < 0x8000_0000 { Ok(raw as i64) } else { Ok(raw as i64 - 0x1_0000_0000) }
    }

    pub fn load_i64_32_u(&self, address: i32, displacement: u32) -> (r: Result<i64, RuntimeError>)
        requires
            self.wf(),
        ensures
            r == spec_load(self@, address, displacement, 4, |raw: nat| raw as i64),
    {
        let (start, end) = self.checked_range(address, displacement, 4)?;
        let raw = self.read_le(start, end);
        proof {
            lemma_le_bound(self@.subrange(start as int, end as int));
            lemma_pow256_facts();
        }
        Ok(raw as i64)
    }

    pub fn store_i32(&mut self, address: i32, displacement: u32, value: i32) -> (r: Result<(), RuntimeError>)
        requires
            old(self).wf(),
        ensures
            final(self).wf(),
            final(self).spec_max_pages() == old(self).spec_max_pages(),
            match spec_store(old(self)@, address, displacement, 4, unsigned32(value) as nat) {
                Ok(m) => r is Ok && final(self)@ == m,
                Err(e) => r == Err::<(), RuntimeError>(e) && final(self)@ == old(self)@,
            },
    {
        let (start, end) = self.checked_range(address, displacement, 4)?;
        proof {
            lemma_cast32(value, 0);
        }
        self.write_le(start, end, (value as u32) as u64);
        assert(final(self)@.len() == old(self)@.len());
        Ok(())
    }

    pub fn store_i8(&mut self, address: i32, displacement: u32, value: i32) -> (r: Result<(), RuntimeError>)
        requires
            old(self).wf(),
        ensures
            final(self).wf(),
            final(self).spec_max_pages() == old(self).spec_max_pages(),
            match spec_store(old(self)@, address, displacement, 1, unsigned32(value) as nat) {
                Ok(m) => r is Ok && final(self)@ == m,
                Err(e) => r == Err::<(), RuntimeError>(e) && final(self)@ == old(self)@,
            },
    {
        let (start, end) = self.checked_range(address, displacement, 1)?;
        proof {
            lemma_cast32(value, 0);
        }
        self.write_le(start, end, (value as u32) as u64);
        assert(final(self)@.len() == old(self)@.len());
        Ok(())
    }

    pub fn store_i16(&mut self, address: i32, displacement: u32, value: i32) -> (r: Result<(), RuntimeError>)
        requires
            old(self).wf(),
        ensures
            final(self).wf(),
            final(self).spec_max_pages() == old(self).spec_max_pages(),
            match spec_store(old(self)@, address, displacement, 2, unsigned32(value) as nat) {
                Ok(m) => r is Ok && final(self)@ == m,
                Err(e) => r == Err::<(), RuntimeError>(e) && final(self)@ == old(self)@,
            },
    {
        let (start, end) = self.checked_range(address, displacement, 2)?;
        proof {
            lemma_cast32(value, 0);
        }
        self.write_le(start, end, (value as u32) as u64);
        assert(final(self)@.len() == old(self)@.len());
        Ok(())
    }

    pub fn store_i64(&mut self, address: i32, displacement: u32, value: i64) -> (r: Result<(), RuntimeError>)
        requires
            old(self).wf(),
        ensures
            final(self).wf(),
            final(self).spec_max_pages() == old(self).spec_max_pages(),
            match spec_store(old(self)@, address, displacement, 8, unsigned64(value) as nat) {
                Ok(m) => r is Ok && final(self)@ == m,
                Err(e) => r == Err::<(), RuntimeError>(e) && final(self)@ == old(self)@,
            },
    {
        let (start, end) = self.checked_range(address, displacement, 8)?;
        proof {
            lemma_cast64(value, 0);
        }
        self.write_le(start, end, value as u64);
        assert(final(self)@.len() == old(self)@.len());
        Ok(())
    }

    pub fn store_i64_8(&mut self, address: i32, displacement: u32, value: i64) -> (r: Result<(), RuntimeError>)
        requires
            old(self).wf(),
        ensures
            final(self).wf(),
            final(self).spec_max_pages() == old(self).spec_max_pages(),
            match spec_store(old(self)@, address, displacement, 1, unsigned64(value) as nat) {
                Ok(m) => r is Ok && final(self)@ == m,
                Err(e) => r == Err::<(), RuntimeError>(e) && final(self)@ == old(self)@,
            },
    {
        let (start, end) = self.checked_range(address, displacement, 1)?;
        proof {
            lemma_cast64(value, 0);
        }
        self.write_le(start, end, value as u64);
        assert(final(self)@.len() == old(self)@.len());
        Ok(())
    }

    pub fn store_i64_16(&mut self, address: i32, displacement: u32, value: i64) -> (r: Result<(), RuntimeError>)
        requires
            old(self).wf(),
        ensures
            final(self).wf(),
            final(self).spec_max_pages() == old(self).spec_max_pages(),
            match spec_store(old(self)@, address, displacement, 2, unsigned64(value) as nat) {
                Ok(m) => r is Ok && final(self)@ == m,
                Err(e) => r == Err::<(), RuntimeError>(e) && final(self)@ == old(self)@,
            },
    {
        let (start, end) = self.checked_range(address, displacement, 2)?;
        proof {
            lemma_cast64(value, 0);
        }
        self.write_le(start, end, value as u64);
        assert(final(self)@.len() == old(self)@.len());
        Ok(())
    }

    pub fn store_i64_32(&mut self, address: i32, displacement: u32, value: i64) -> (r: Result<(), RuntimeError>)
        requires
            old(self).wf(),
        ensures
            final(self).wf(),
            final(self).spec_max_pages() == old(self).spec_max_pages(),
            match spec_store(old(self)@, address, displacement, 4, unsigned64(value) as nat) {
                Ok(m) => r is Ok && final(self)@ == m,
                Err(e) => r == Err::<(), RuntimeError>(e) && final(self)@ == old(self)@,
            },
    {
        let (start, end) = self.checked_range(address, displacement, 4)?;
        proof {
            lemma_cast64(value, 0);
        }
        self.write_le(start, end, value as u64);
        assert(final(self)@.len() == old(self)@.len());
        Ok(())
    }

    pub fn store_f32(&mut self, address: i32, displacement: u32, value: u32) -> (r: Result<(), RuntimeError>)
        requires
            old(self).wf(),
        ensures
            final(self).wf(),
            final(self).spec_max_pages() == old(self).spec_max_pages(),
            match spec_store(old(self)@, address, displacement, 4, value as nat) {
                Ok(m) => r is Ok && final(self)@ == m,
                Err(e) => r == Err::<(), RuntimeError>(e) && final(self)@ == old(self)@,
            },
    {
        let (start, end) = self.checked_range(address, displacement, 4)?;
        proof {
            
        }
        self.write_le(start, end, value as u64);
        assert(final(self)@.len() == old(self)@.len());
        Ok(())
    }

    pub fn store_f64(&mut self, address: i32, displacement: u32, value: u64) -> (r: Result<(), RuntimeError>)
        requires
            old(self).wf(),
        ensures
            final(self).wf(),
            final(self).spec_max_pages() == old(self).spec_max_pages(),
            match spec_store(old(self)@, address, displacement, 8, value as nat) {
                Ok(m) => r is Ok && final(self)@ == m,
                Err(e) => r == Err::<(), RuntimeError>(e) && final(self)@ == old(self)@,
            },
    {
        let (start, end) = self.checked_range(address, displacement, 8)?;
        proof {
            
        }
        self.write_le(start, end, value);
        assert(final(self)@.len() == old(self)@.len());
        Ok(())
    }

    /// A copy of the bytes in `[start, end)`.
    pub fn read_range(&self, start: usize, end: usize) -> (v: Vec<u8>)
        requires
            start <= end <= self@.len(),
        ensures
            v@ == self@.subrange(start as int, end as int),
    {
        let mut v: Vec<u8> = Vec::new();
        let mut i = start;
        while i < end
            invariant
                start <= i <= end <= self@.len(),
                v@ == self@.subrange(start as int, i as int),
            decreases end - i,
        {
            v.push(self.bytes[i]);
            i = i + 1;
            assert(v@ =~= self@.subrange(start as int, i as int));
        }
        v
    }

    /// Overwrites the bytes from `start` with `data`.
    pub fn write_range(&mut self, start: usize, data: &[u8])
        requires
            start + data@.len() <= old(self)@.len(),
        ensures
            final(self).spec_max_pages() == old(self).spec_max_pages(),
            final(self)@ == old(self)@.subrange(0, start as int) + data@ + old(self)@.subrange(
                start + data@.len(),
                old(self)@.len() as int,
            ),
    {
        let mut i: usize = 0;
        assert(self@.len() == self.bytes.len());
        while i < data.len()
            invariant
                start + data@.len() <= self@.len(),
                self@.len() <= usize::MAX,
                self@.len() == old(self)@.len(),
                self.spec_max_pages() == old(self).spec_max_pages(),
                i <= data@.len(),
                forall|j: int| 0 <= j < start ==> #[trigger] self@[j] == old(self)@[j],
                forall|j: int| start + data@.len() <= j < self@.len() ==> #[trigger] self@[j] == old(self)@[j],
                forall|j: int| start <= j < start + i ==> #[trigger] self@[j] == data@[j - start],
                forall|j: int| start + i <= j < start + data@.len() ==> #[trigger] self@[j] == old(self)@[j],
            decreases data@.len() - i,
        {
            self.bytes.set(start + i, data[i]);
            i = i + 1;
        }
        assert(self@ =~= old(self)@.subrange(0, start as int) + data@ + old(self)@.subrange(
            start + data@.len(),
            old(self)@.len() as int,
        ));
    }
}

} // verus!
