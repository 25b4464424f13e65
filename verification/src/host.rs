//! The objects a host shares with an instance: globals, tables, memories, the
//! capability-checked view of memory that host callbacks get, and the registry that
//! names them.
use vstd::prelude::*;
use crate::memory::{
    LinearMemory, MAX_MEMORY_PAGES, WASM_PAGE_SIZE, spec_host_range, zeros,
};
use crate::runtime_error::{HostError, RuntimeError};
use crate::types::ValueType;
use crate::value::Value;

use vstd::string::StringExecFns;
use crate::text::{decimal_chars, render_decimal, value_type_name, render_value_type};

verus! {

/// What a host callback may do with the instance's linear memory.
#[derive(Debug, Clone, Copy, PartialEq, Eq, Structural)]
pub struct HostCapabilities {
    memory_read: bool,
    memory_write: bool,
}

impl HostCapabilities {
    pub closed spec fn can_read(self) -> bool {
        self.memory_read
    }

    pub closed spec fn can_write(self) -> bool {
        self.memory_write
    }

    /// No access to memory.
    pub fn none() -> (c: HostCapabilities)
        ensures
            !c.can_read(),
            !c.can_write(),
    {
        HostCapabilities { memory_read: false, memory_write: false }
    }

    /// Reading memory and its size only.
    pub fn memory_read() -> (c: HostCapabilities)
        ensures
            c.can_read(),
            !c.can_write(),
    {
        HostCapabilities { memory_read: true, memory_write: false }
    }

    /// Reading and writing memory.
    pub fn memory_read_write() -> (c: HostCapabilities)
        ensures
            c.can_read(),
            c.can_write(),
    {
        HostCapabilities { memory_read: true, memory_write: true }
    }

    fn allows_read(self) -> (b: bool)
        ensures
            b == self.can_read(),
    {
        self.memory_read
    }

    fn allows_write(self) -> (b: bool)
        ensures
            b == self.can_write(),
    {
        self.memory_write
    }
}

#[derive(Debug, Clone, PartialEq, Eq)]
#[allow(inconsistent_fields)]
pub enum GlobalHandleError {
    Immutable,
    TypeMismatch { expected: ValueType, actual: ValueType },
}

/// A global variable: its current value, its fixed type and whether it may be set.
#[derive(Debug, Clone)]
pub struct GlobalHandle {
    value: Value,
    value_type: ValueType,
    mutable: bool,
}

impl GlobalHandle {
    pub closed spec fn spec_value(&self) -> Value {
        self.value
    }

    pub closed spec fn spec_type(&self) -> ValueType {
        self.value_type
    }

    pub closed spec fn spec_mutable(&self) -> bool {
        self.mutable
    }

    /// The value always has the global's type.
    pub open spec fn wf(&self) -> bool {
        self.spec_value().spec_value_type() == self.spec_type()
    }

    /// A global that keeps `value` for ever.
    pub fn immutable(value: Value) -> (g: GlobalHandle)
        ensures
            g.wf(),
            g.spec_value() == value,
            g.spec_type() == value.spec_value_type(),
            !g.spec_mutable(),
    {
        GlobalHandle::new(value, false)
    }

    /// A global that starts at `value` and may be set to values of its type.
    pub fn mutable(value: Value) -> (g: GlobalHandle)
        ensures
            g.wf(),
            g.spec_value() == value,
            g.spec_type() == value.spec_value_type(),
            g.spec_mutable(),
    {
        GlobalHandle::new(value, true)
    }

    pub fn new(value: Value, mutable: bool) -> (g: GlobalHandle)
        ensures
            g.wf(),
            g.spec_value() == value,
            g.spec_type() == value.spec_value_type(),
            g.spec_mutable() == mutable,
    {
        GlobalHandle { value, value_type: value.value_type(), mutable }
    }

    pub fn value_type(&self) -> (t: ValueType)
        ensures
            t == self.spec_type(),
    {
        self.value_type
    }

    pub fn is_mutable(&self) -> (b: bool)
        ensures
            b == self.spec_mutable(),
    {
        self.mutable
    }

    pub fn get(&self) -> (v: Value)
        ensures
            v == self.spec_value(),
    {
        self.value
    }

    /// Replaces the value. An immutable global, or a value of another type, is refused
    /// and leaves the global as it was.
    pub fn set(&mut self, value: Value) -> (r: Result<(), GlobalHandleError>)
        ensures
            final(self).spec_type() == old(self).spec_type(),
            final(self).spec_mutable() == old(self).spec_mutable(),
            !old(self).spec_mutable() ==> r == Err::<(), GlobalHandleError>(GlobalHandleError::Immutable),
            old(self).spec_mutable() && value.spec_value_type() != old(self).spec_type() ==> r
                == Err::<(), GlobalHandleError>(
                GlobalHandleError::TypeMismatch {
                    expected: old(self).spec_type(),
                    actual: value.spec_value_type(),
                },
            ),
            r is Ok <==> old(self).spec_mutable() && value.spec_value_type() == old(self).spec_type(),
            r is Ok ==> final(self).spec_value() == value,
            r is Err ==> final(self).spec_value() == old(self).spec_value(),
            old(self).wf() ==> final(self).wf(),
    {
        if !self.mutable {
            return Err(GlobalHandleError::Immutable);
        }
        let actual = value.value_type();
        if actual != self.value_type {
            return Err(GlobalHandleError::TypeMismatch { expected: self.value_type, actual });
        }
        self.value = value;
        Ok(())
    }
}

/// A reference to a function of one instance, as a table stores it. `owner` names the
/// instance; names of instances are never reused while any of them is alive.
#[derive(Debug, Clone, Copy, PartialEq, Eq, Structural)]
pub struct FunctionRef {
    pub owner: u64,
    pub function_index: u32,
}

#[derive(Debug, Clone, PartialEq, Eq)]
pub enum TableHandleError {
    InvalidLimits { minimum: u32, maximum: u32 },
    AllocationFailed { elements: u32 },
    OutOfBounds { index: u32, length: u32 },
    ForeignFunctionReference { index: u32 },
    AlreadyBound,
}

/// A table of function references, with the instance it is bound to, if any.
#[derive(Debug, Clone)]
pub struct TableHandle {
    slots: Vec<Option<FunctionRef>>,
    maximum: Option<u32>,
    owner: Option<u64>,
}

impl View for TableHandle {
    type V = Seq<Option<FunctionRef>>;

    closed spec fn view(&self) -> Seq<Option<FunctionRef>> {
        self.slots@
    }
}

impl TableHandle {
    pub closed spec fn spec_maximum(&self) -> Option<u32> {
        self.maximum
    }

    pub closed spec fn spec_owner(&self) -> Option<u64> {
        self.owner
    }

    pub open spec fn wf(&self) -> bool {
        self@.len() <= u32::MAX
    }

    /// A table of `minimum` empty slots. A maximum below the minimum is refused; an
    /// allocation the machine cannot make fails.
    pub fn new(minimum: u32, maximum: Option<u32>) -> (r: Result<TableHandle, TableHandleError>)
        ensures
            (maximum matches Some(m) && minimum > m) ==> r == Err::<TableHandle, TableHandleError>(
                TableHandleError::InvalidLimits { minimum, maximum: maximum->Some_0 },
            ),
            !(maximum matches Some(m) && minimum > m) ==> match r {
                Ok(t) => {
                    &&& t.wf()
                    &&& t@ == Seq::new(minimum as nat, |i: int| None::<FunctionRef>)
                    &&& t.spec_maximum() == maximum
                    &&& t.spec_owner() is None
                },
                Err(e) => e == TableHandleError::AllocationFailed { elements: minimum },
            },
            minimum == 0 ==> r is Ok,
    {
        if let Some(maximum) = maximum {
            if minimum > maximum {
                return Err(TableHandleError::InvalidLimits { minimum, maximum });
            }
        }
        let length = minimum as usize;
        let mut slots: Vec<Option<FunctionRef>> = Vec::new();
        if length > 0 && slots.try_reserve(length).is_err() {
            return Err(TableHandleError::AllocationFailed { elements: minimum });
        }
        let mut i: usize = 0;
        while i < length
            invariant
                i <= length,
                slots@ == Seq::new(i as nat, |j: int| None::<FunctionRef>),
            decreases length - i,
        {
            slots.push(None);
            i = i + 1;
            assert(slots@ =~= Seq::new(i as nat, |j: int| None::<FunctionRef>));
        }
        Ok(TableHandle { slots, maximum, owner: None })
    }

    pub fn len(&self) -> (n: u32)
        requires
            self.wf(),
        ensures
            n == self@.len(),
    {
        self.slots.len() as u32
    }

    /// Appends `delta` slots holding `init` and answers the previous length, or answers
    /// none and changes nothing. Growth past the maximum, or past the `u32` range, always
    /// fails; an allocation the machine cannot make fails too.
    pub fn grow(&mut self, delta: u32, init: Option<FunctionRef>) -> (r: Option<u32>)
        requires
            old(self).wf(),
        ensures
            final(self).wf(),
            final(self).spec_maximum() == old(self).spec_maximum(),
            final(self).spec_owner() == old(self).spec_owner(),
            (old(self)@.len() + delta > u32::MAX || (old(self).spec_maximum() matches Some(m) && old(self)@.len()
                + delta > m)) ==> r is None,
            delta == 0 && !(old(self).spec_maximum() matches Some(m) && old(self)@.len() > m) ==> r
                == Some(old(self)@.len() as u32),
            r is None ==> final(self)@ == old(self)@,
            r matches Some(n) ==> n == old(self)@.len() && final(self)@ == old(self)@ + Seq::new(
                delta as nat,
                |i: int| init,
            ),
    {
        let length = self.slots.len() as u32;
        let new_length = match length.checked_add(delta) {
            Some(n) => n,
            None => return None,
        };
        if let Some(m) = self.maximum {
            if new_length > m {
                return None;
            }
        }
        if delta > 0 && self.slots.try_reserve(delta as usize).is_err() {
            return None;
        }
        let ghost before = self.slots@;
        let mut i: u32 = 0;
        while i < delta
            invariant
                i <= delta,
                self.slots@ == before + Seq::new(i as nat, |k: int| init),
                before == old(self)@,
                before.len() == length,
                length + delta <= u32::MAX,
                self.maximum == old(self).maximum,
                self.owner == old(self).owner,
            decreases delta - i,
        {
            self.slots.push(init);
            i = i + 1;
            assert(self.slots@ =~= before + Seq::new(i as nat, |k: int| init));
        }
        Some(length)
    }

    /// Stores references to `owner`'s functions `indices[offset..offset + length]` from slot
    /// `destination` on and answers true, or answers false and changes nothing where those
    /// slots are not all in the table.
    pub fn init_from(&mut self, destination: u32, indices: &[u32], offset: usize, length: usize, owner: u64) -> (ok:
        bool)
        requires
            old(self).wf(),
            offset + length <= indices@.len(),
            length <= u32::MAX,
        ensures
            final(self).wf(),
            final(self).spec_maximum() == old(self).spec_maximum(),
            final(self).spec_owner() == old(self).spec_owner(),
            ok == (destination + length <= old(self)@.len()),
            ok ==> final(self)@ == old(self)@.subrange(0, destination as int) + Seq::new(
                length as nat,
                |i: int| Some(FunctionRef { owner, function_index: indices@[offset + i] }),
            ) + old(self)@.subrange(destination + length, old(self)@.len() as int),
            !ok ==> final(self)@ == old(self)@,
    {
        let len = self.slots.len();
        if destination as u64 + length as u64 > len as u64 {
            return false;
        }
        let start = destination as usize;
        let indices_len = indices.len();
        let mut i: usize = 0;
        while i < length
            invariant
                i <= length,
                start + length <= self@.len(),
                self@.len() == len,
                indices@.len() == indices_len,
                offset + length <= indices@.len(),
                self@.len() == old(self)@.len(),
                self.maximum == old(self).maximum,
                self.owner == old(self).owner,
                forall|j: int| 0 <= j < start ==> #[trigger] self@[j] == old(self)@[j],
                forall|j: int| start + i <= j < self@.len() ==> #[trigger] self@[j] == old(self)@[j],
                forall|j: int| start <= j < start + i ==> #[trigger] self@[j] == Some(
                    FunctionRef { owner, function_index: indices@[offset + j - start] },
                ),
            decreases length - i,
        {
            self.slots.set(start + i, Some(FunctionRef { owner, function_index: indices[offset + i] }));
            i = i + 1;
        }
        assert(self@ =~= old(self)@.subrange(0, start as int) + Seq::new(
            length as nat,
            |k: int| Some(FunctionRef { owner, function_index: indices@[offset + k] }),
        ) + old(self)@.subrange(start + length, old(self)@.len() as int));
        true
    }

    /// Stores `value` in the `length` slots from `start` on and answers true, or answers
    /// false and changes nothing where those slots are not all in the table.
    pub fn fill(&mut self, start: u32, value: Option<FunctionRef>, length: u32) -> (ok: bool)
        requires
            old(self).wf(),
        ensures
            final(self).wf(),
            final(self).spec_maximum() == old(self).spec_maximum(),
            final(self).spec_owner() == old(self).spec_owner(),
            ok == (start + length <= old(self)@.len()),
            ok ==> final(self)@ == old(self)@.subrange(0, start as int) + Seq::new(length as nat, |i: int| value)
                + old(self)@.subrange(start + length, old(self)@.len() as int),
            !ok ==> final(self)@ == old(self)@,
    {
        let len = self.slots.len();
        if start as u64 + length as u64 > len as u64 {
            return false;
        }
        let first = start as usize;
        let end = first + length as usize;
        let mut i = first;
        while i < end
            invariant
                first <= i <= end <= self@.len(),
                end == first + length,
                self@.len() == old(self)@.len(),
                self.maximum == old(self).maximum,
                self.owner == old(self).owner,
                forall|j: int| 0 <= j < first ==> #[trigger] self@[j] == old(self)@[j],
                forall|j: int| i <= j < self@.len() ==> #[trigger] self@[j] == old(self)@[j],
                forall|j: int| first <= j < i ==> #[trigger] self@[j] == value,
            decreases end - i,
        {
            self.slots.set(i, value);
            i = i + 1;
        }
        assert(self@ =~= old(self)@.subrange(0, first as int) + Seq::new(length as nat, |k: int| value)
            + old(self)@.subrange(end as int, old(self)@.len() as int));
        true
    }

    /// Copies the `length` slots at `source` to `destination`, as if through a buffer, and
    /// answers true, or answers false and changes nothing where either range is not all in
    /// the table.
    pub fn copy_within(&mut self, destination: u32, source: u32, length: u32) -> (ok: bool)
        requires
            old(self).wf(),
        ensures
            final(self).wf(),
            final(self).spec_maximum() == old(self).spec_maximum(),
            final(self).spec_owner() == old(self).spec_owner(),
            ok == (destination + length <= old(self)@.len() && source + length <= old(self)@.len()),
            ok ==> final(self)@ == old(self)@.subrange(0, destination as int) + old(self)@.subrange(
                source as int,
                source + length,
            ) + old(self)@.subrange(destination + length, old(self)@.len() as int),
            !ok ==> final(self)@ == old(self)@,
    {
        let len = self.slots.len();
        if destination as u64 + length as u64 > len as u64 || source as u64 + length as u64 > len as u64 {
            return false;
        }
        let from = source as usize;
        let start = destination as usize;
        let n = length as usize;
        let mut buffer: Vec<Option<FunctionRef>> = Vec::new();
        let mut k: usize = 0;
        while k < n
            invariant
                k <= n,
                from + n <= self@.len(),
                self@.len() == len,
                self@ == old(self)@,
                buffer@ == old(self)@.subrange(from as int, from + k),
            decreases n - k,
        {
            buffer.push(self.slots[from + k]);
            k = k + 1;
            assert(buffer@ =~= old(self)@.subrange(from as int, from + k));
        }
        let mut i: usize = 0;
        while i < n
            invariant
                i <= n,
                start + n <= self@.len(),
                self@.len() == len,
                buffer@.len() == n,
                buffer@ == old(self)@.subrange(from as int, from + n),
                self@.len() == old(self)@.len(),
                self.maximum == old(self).maximum,
                self.owner == old(self).owner,
                forall|j: int| 0 <= j < start ==> #[trigger] self@[j] == old(self)@[j],
                forall|j: int| start + i <= j < self@.len() ==> #[trigger] self@[j] == old(self)@[j],
                forall|j: int| start <= j < start + i ==> #[trigger] self@[j] == buffer@[j - start],
            decreases n - i,
        {
            self.slots.set(start + i, buffer[i]);
            i = i + 1;
        }
        assert(self@ =~= old(self)@.subrange(0, start as int) + old(self)@.subrange(from as int, from + n)
            + old(self)@.subrange(start + n, old(self)@.len() as int));
        true
    }

    pub fn is_empty(&self) -> (b: bool)
        ensures
            b == (self@.len() == 0),
    {
        self.slots.len() == 0
    }

    pub fn maximum(&self) -> (m: Option<u32>)
        ensures
            m == self.spec_maximum(),
    {
        self.maximum
    }

    pub fn get(&self, index: u32) -> (r: Result<Option<FunctionRef>, TableHandleError>)
        requires
            self.wf(),
        ensures
            index < self@.len() ==> r == Ok::<Option<FunctionRef>, TableHandleError>(self@[index as int]),
            index >= self@.len() ==> r == Err::<Option<FunctionRef>, TableHandleError>(
                TableHandleError::OutOfBounds { index, length: self@.len() as u32 },
            ),
    {
        if (index as usize) < self.slots.len() {
            Ok(self.slots[index as usize])
        } else {
            Err(TableHandleError::OutOfBounds { index, length: self.len() })
        }
    }

    pub fn set(&mut self, index: u32, function: Option<FunctionRef>) -> (r: Result<(), TableHandleError>)
        requires
            old(self).wf(),
        ensures
            final(self).wf(),
            final(self).spec_maximum() == old(self).spec_maximum(),
            final(self).spec_owner() == old(self).spec_owner(),
            index < old(self)@.len() ==> r is Ok && final(self)@ == old(self)@.update(index as int, function),
            index >= old(self)@.len() ==> r == Err::<(), TableHandleError>(
                TableHandleError::OutOfBounds { index, length: old(self)@.len() as u32 },
            ) && final(self)@ == old(self)@,
    {
        let length = self.len();
        if (index as usize) < self.slots.len() {
            self.slots.set(index as usize, function);
            Ok(())
        } else {
            Err(TableHandleError::OutOfBounds { index, length })
        }
    }

    /// Binds the table to instance `owner`. A table bound to another instance is refused.
    pub fn bind(&mut self, owner: u64) -> (r: Result<(), TableHandleError>)
        ensures
            final(self)@ == old(self)@,
            final(self).spec_maximum() == old(self).spec_maximum(),
            (old(self).spec_owner() matches Some(o) && o != owner) ==> r == Err::<(), TableHandleError>(
                TableHandleError::AlreadyBound,
            ) && final(self).spec_owner() == old(self).spec_owner(),
            !(old(self).spec_owner() matches Some(o) && o != owner) ==> r is Ok && final(self).spec_owner()
                == Some(owner),
    {
        match self.owner {
            Some(existing) => {
                if existing != owner {
                    return Err(TableHandleError::AlreadyBound);
                }
                Ok(())
            },
            None => {
                self.owner = Some(owner);
                Ok(())
            },
        }
    }

    /// Unbinds the table from instance `owner`, which no longer exists.
    pub fn release(&mut self, owner: u64)
        ensures
            final(self)@ == old(self)@,
            final(self).spec_maximum() == old(self).spec_maximum(),
            final(self).spec_owner() == if old(self).spec_owner() == Some(owner) {
                None
            } else {
                old(self).spec_owner()
            },
    {
        if self.owner == Some(owner) {
            self.owner = None;
        }
    }

    /// Binds the table to `owner` and stores in slot `index` a reference to that
    /// instance's function `function_index`.
    pub fn set_for_instance(&mut self, index: u32, function_index: u32, owner: u64) -> (r: Result<
        (),
        TableHandleError,
    >)
        requires
            old(self).wf(),
        ensures
            final(self).wf(),
            final(self).spec_maximum() == old(self).spec_maximum(),
            (old(self).spec_owner() matches Some(o) && o != owner) ==> r == Err::<(), TableHandleError>(
                TableHandleError::AlreadyBound,
            ) && final(self)@ == old(self)@,
            !(old(self).spec_owner() matches Some(o) && o != owner) ==> {
                &&& final(self).spec_owner() == Some(owner)
                &&& index < old(self)@.len() ==> r is Ok && final(self)@ == old(self)@.update(
                    index as int,
                    Some(FunctionRef { owner, function_index }),
                )
                &&& index >= old(self)@.len() ==> r == Err::<(), TableHandleError>(
                    TableHandleError::OutOfBounds { index, length: old(self)@.len() as u32 },
                ) && final(self)@ == old(self)@
            },
    {
        self.bind(owner)?;
        self.set(index, Some(FunctionRef { owner, function_index }))
    }

    /// The function index in slot `index`, which must be empty or belong to `owner`.
    pub fn function_index_for_instance(&self, index: u32, owner: u64) -> (r: Result<
        Option<u32>,
        TableHandleError,
    >)
        requires
            self.wf(),
        ensures
            index >= self@.len() ==> r == Err::<Option<u32>, TableHandleError>(
                TableHandleError::OutOfBounds { index, length: self@.len() as u32 },
            ),
            index < self@.len() ==> r == match self@[index as int] {
                None => Ok::<Option<u32>, TableHandleError>(None),
                Some(f) => if f.owner == owner {
                    Ok(Some(f.function_index))
                } else {
                    Err(TableHandleError::ForeignFunctionReference { index })
                },
            },
    {
        let function = match self.get(index)? {
            None => return Ok(None),
            Some(f) => f,
        };
        if function.owner != owner {
            return Err(TableHandleError::ForeignFunctionReference { index });
        }
        Ok(Some(function.function_index))
    }
}

#[derive(Debug, Clone, PartialEq, Eq)]
pub enum MemoryHandleError {
    InvalidLimits { minimum: u32, maximum: u32 },
    LimitExceeded { pages: u32, limit: u32 },
    AllocationFailed { pages: u32 },
    OutOfBounds { address: u64, width: usize },
}

/// A memory created by the host, with the limits it was created with.
#[derive(Debug, Clone)]
pub struct MemoryHandle {
    memory: LinearMemory,
    minimum: u32,
    maximum: Option<u32>,
}

impl View for MemoryHandle {
    type V = Seq<u8>;

    closed spec fn view(&self) -> Seq<u8> {
        self.memory@
    }
}

impl MemoryHandle {
    pub closed spec fn spec_memory(&self) -> LinearMemory {
        self.memory
    }

    pub closed spec fn spec_minimum(&self) -> u32 {
        self.minimum
    }

    pub closed spec fn spec_maximum(&self) -> Option<u32> {
        self.maximum
    }

    pub open spec fn wf(&self) -> bool {
        &&& self.spec_memory().wf()
        &&& self@ == self.spec_memory()@
    }

    /// A memory of `minimum` zero pages. Inconsistent limits and limits past the format's
    /// page limit are refused; an allocation the machine cannot make fails.
    pub fn new(minimum: u32, maximum: Option<u32>) -> (r: Result<MemoryHandle, MemoryHandleError>)
        ensures
            (maximum matches Some(m) && minimum > m) ==> r == Err::<MemoryHandle, MemoryHandleError>(
                MemoryHandleError::InvalidLimits { minimum, maximum: maximum->Some_0 },
            ),
            (maximum matches Some(m) && minimum <= m && m > MAX_MEMORY_PAGES) ==> r == Err::<
                MemoryHandle,
                MemoryHandleError,
            >(MemoryHandleError::LimitExceeded { pages: maximum->Some_0, limit: MAX_MEMORY_PAGES }),
            (!(maximum matches Some(m) && (minimum > m || m > MAX_MEMORY_PAGES)) && minimum
                > MAX_MEMORY_PAGES) ==> r == Err::<MemoryHandle, MemoryHandleError>(
                MemoryHandleError::LimitExceeded { pages: minimum, limit: MAX_MEMORY_PAGES },
            ),
            (!(maximum matches Some(m) && (minimum > m || m > MAX_MEMORY_PAGES)) && minimum
                <= MAX_MEMORY_PAGES) ==> match r {
                Ok(h) => {
                    &&& h.wf()
                    &&& h@ == zeros((minimum * WASM_PAGE_SIZE) as nat)
                    &&& h.spec_minimum() == minimum
                    &&& h.spec_maximum() == maximum
                    &&& h.spec_memory().spec_max_pages() == match maximum {
                        Some(m) => m,
                        None => MAX_MEMORY_PAGES,
                    }
                },
                Err(e) => e == MemoryHandleError::AllocationFailed { pages: minimum },
            },
            (!(maximum matches Some(m) && (minimum > m || m > MAX_MEMORY_PAGES)) && minimum == 0)
                ==> r is Ok,
    {
        if let Some(maximum) = maximum {
            if minimum > maximum {
                return Err(MemoryHandleError::InvalidLimits { minimum, maximum });
            }
            if maximum > MAX_MEMORY_PAGES {
                return Err(MemoryHandleError::LimitExceeded { pages: maximum, limit: MAX_MEMORY_PAGES });
            }
        }
        if minimum > MAX_MEMORY_PAGES {
            return Err(MemoryHandleError::LimitExceeded { pages: minimum, limit: MAX_MEMORY_PAGES });
        }
        match LinearMemory::new(minimum, maximum, MAX_MEMORY_PAGES) {
            Ok(memory) => Ok(MemoryHandle { memory, minimum, maximum }),
            Err(_) => Err(MemoryHandleError::AllocationFailed { pages: minimum }),
        }
    }

    pub fn minimum(&self) -> (m: u32)
        ensures
            m == self.spec_minimum(),
    {
        self.minimum
    }

    pub fn maximum(&self) -> (m: Option<u32>)
        ensures
            m == self.spec_maximum(),
    {
        self.maximum
    }

    pub fn size_pages(&self) -> (n: u32)
        requires
            self.wf(),
        ensures
            n == self.spec_memory().spec_size_pages(),
    {
        self.memory.size_pages()
    }

    /// The underlying linear memory.
    pub fn memory(&self) -> (m: &LinearMemory)
        ensures
            *m == self.spec_memory(),
    {
        &self.memory
    }

    /// Puts `memory` in place of the underlying linear memory and hands back the old one.
    pub fn replace_memory(&mut self, memory: LinearMemory) -> (previous: LinearMemory)
        ensures
            previous == old(self).spec_memory(),
            final(self).spec_memory() == memory,
            final(self)@ == memory@,
            final(self).spec_minimum() == old(self).spec_minimum(),
            final(self).spec_maximum() == old(self).spec_maximum(),
    {
        let mut previous = memory;
        std::mem::swap(&mut self.memory, &mut previous);
        previous
    }

    /// `length` bytes from `address`, or the out-of-bounds error.
    pub fn read(&self, address: u32, length: usize) -> (r: Result<Vec<u8>, MemoryHandleError>)
        requires
            self.wf(),
        ensures
            match spec_host_range(self@.len(), address, length) {
                Ok((s, e)) => r matches Ok(v) && v@ == self@.subrange(s as int, e as int),
                Err(_) => r == Err::<Vec<u8>, MemoryHandleError>(
                    MemoryHandleError::OutOfBounds { address: address as u64, width: length },
                ),
            },
    {
        match self.memory.checked_host_range(address, length) {
            Ok((start, end)) => Ok(self.memory.read_range(start, end)),
            Err(_) => Err(MemoryHandleError::OutOfBounds { address: address as u64, width: length }),
        }
    }

    /// Writes `bytes` at `address`, or changes nothing and reports the out-of-bounds error.
    pub fn write(&mut self, address: u32, bytes: &[u8]) -> (r: Result<(), MemoryHandleError>)
        requires
            old(self).wf(),
        ensures
            final(self).wf(),
            final(self).spec_minimum() == old(self).spec_minimum(),
            final(self).spec_maximum() == old(self).spec_maximum(),
            match spec_host_range(old(self)@.len(), address, bytes@.len() as usize) {
                Ok((s, e)) => r is Ok && final(self)@ == old(self)@.subrange(0, s as int) + bytes@
                    + old(self)@.subrange(e as int, old(self)@.len() as int),
                Err(_) => r == Err::<(), MemoryHandleError>(
                    MemoryHandleError::OutOfBounds { address: address as u64, width: bytes@.len() as usize },
                ) && final(self)@ == old(self)@,
            },
    {
        match self.memory.checked_host_range(address, bytes.len()) {
            Ok((start, _)) => {
                self.memory.write_range(start, bytes);
                Ok(())
            },
            Err(_) => Err(MemoryHandleError::OutOfBounds { address: address as u64, width: bytes.len() }),
        }
    }

    /// Grows the memory as `LinearMemory::grow` does.
    pub fn grow(&mut self, delta_pages: u32) -> (r: i32)
        requires
            old(self).wf(),
        ensures
            final(self).wf(),
            final(self).spec_minimum() == old(self).spec_minimum(),
            final(self).spec_maximum() == old(self).spec_maximum(),
            final(self).spec_memory().spec_max_pages() == old(self).spec_memory().spec_max_pages(),
            old(self).spec_memory().spec_size_pages() + delta_pages > old(
                self,
            ).spec_memory().spec_max_pages() ==> r == -1,
            delta_pages == 0 && old(self).spec_memory().spec_size_pages() <= old(
                self,
            ).spec_memory().spec_max_pages() ==> r == old(self).spec_memory().spec_size_pages(),
            r == -1 ==> final(self)@ == old(self)@,
            r != -1 ==> r == old(self).spec_memory().spec_size_pages() && final(self)@ == old(self)@ + zeros(
                (delta_pages * WASM_PAGE_SIZE) as nat,
            ),
    {
        self.memory.grow(delta_pages)
    }
}


/// The view of the instance that a host callback gets: the instance's linear memory,
/// if it has one, behind the capabilities the callback was registered with.
pub struct HostContext {
    memory: Option<LinearMemory>,
    capabilities: HostCapabilities,
}

impl HostContext {
    pub closed spec fn spec_memory(&self) -> Option<LinearMemory> {
        self.memory
    }

    pub closed spec fn spec_capabilities(&self) -> HostCapabilities {
        self.capabilities
    }

    pub open spec fn wf(&self) -> bool {
        self.spec_memory() matches Some(m) ==> m.wf()
    }

    pub fn new(memory: Option<LinearMemory>, capabilities: HostCapabilities) -> (c: HostContext)
        ensures
            c.spec_memory() == memory,
            c.spec_capabilities() == capabilities,
    {
        HostContext { memory, capabilities }
    }

    /// Hands the memory back to the instance once the callback is done.
    pub fn into_memory(self) -> (m: Option<LinearMemory>)
        ensures
            m == self.spec_memory(),
    {
        self.memory
    }

    pub fn memory_size_pages(&self) -> (r: Result<u32, HostError>)
        requires
            self.wf(),
        ensures
            !self.spec_capabilities().can_read() ==> r == Err::<u32, HostError>(
                HostError::CapabilityDenied("memory.read"),
            ),
            self.spec_capabilities().can_read() ==> r == match self.spec_memory() {
                None => Err::<u32, HostError>(HostError::MemoryUnavailable),
                Some(m) => Ok(m.spec_size_pages() as u32),
            },
    {
        if !self.capabilities.allows_read() {
            return Err(HostError::CapabilityDenied("memory.read"));
        }
        match &self.memory {
            None => Err(HostError::MemoryUnavailable),
            Some(memory) => Ok(memory.size_pages()),
        }
    }

    pub fn read_memory(&self, address: u32, length: usize) -> (r: Result<Vec<u8>, HostError>)
        requires
            self.wf(),
        ensures
            !self.spec_capabilities().can_read() ==> r == Err::<Vec<u8>, HostError>(
                HostError::CapabilityDenied("memory.read"),
            ),
            self.spec_capabilities().can_read() ==> match self.spec_memory() {
                None => r == Err::<Vec<u8>, HostError>(HostError::MemoryUnavailable),
                Some(m) => match spec_host_range(m@.len(), address, length) {
                    Ok((s, e)) => r matches Ok(v) && v@ == m@.subrange(s as int, e as int),
                    Err(e) => r == Err::<Vec<u8>, HostError>(e),
                },
            },
    {
        if !self.capabilities.allows_read() {
            return Err(HostError::CapabilityDenied("memory.read"));
        }
        match &self.memory {
            None => Err(HostError::MemoryUnavailable),
            Some(memory) => {
                let (start, end) = memory.checked_host_range(address, length)?;
                Ok(memory.read_range(start, end))
            },
        }
    }

    pub fn write_memory(&mut self, address: u32, bytes: &[u8]) -> (r: Result<(), HostError>)
        requires
            old(self).wf(),
        ensures
            final(self).wf(),
            final(self).spec_capabilities() == old(self).spec_capabilities(),
            final(self).spec_memory() is Some == old(self).spec_memory() is Some,
            !old(self).spec_capabilities().can_write() ==> r == Err::<(), HostError>(
                HostError::CapabilityDenied("memory.write"),
            ) && final(self).spec_memory() == old(self).spec_memory(),
            old(self).spec_capabilities().can_write() ==> match old(self).spec_memory() {
                None => r == Err::<(), HostError>(HostError::MemoryUnavailable),
                Some(m) => {
                    let m2 = final(self).spec_memory()->Some_0;
                    &&& m2.spec_max_pages() == m.spec_max_pages()
                    &&& match spec_host_range(m@.len(), address, bytes@.len() as usize) {
                        Ok((s, e)) => r is Ok && m2@ == m@.subrange(0, s as int) + bytes@ + m@.subrange(
                            e as int,
                            m@.len() as int,
                        ),
                        Err(e) => r == Err::<(), HostError>(e) && m2@ == m@,
                    }
                },
            },
    {
        if !self.capabilities.allows_write() {
            return Err(HostError::CapabilityDenied("memory.write"));
        }
        match &mut self.memory {
            None => Err(HostError::MemoryUnavailable),
            Some(memory) => {
                let (start, _end) = memory.checked_host_range(address, bytes.len())?;
                memory.write_range(start, bytes);
                assert(memory@.len() % (WASM_PAGE_SIZE as nat) == 0);
                Ok(())
            },
        }
    }
}

#[derive(Debug, Clone, PartialEq, Eq)]
pub enum HostRegistryError {
    DuplicateFunction { module: String, name: String },
    DuplicateGlobal { module: String, name: String },
    DuplicateTable { module: String, name: String },
    DuplicateMemory { module: String, name: String },
    UnsupportedSignature,
}

/// A registered host function: its import name, its signature and its capabilities.
#[derive(Debug, Clone)]
pub struct HostFunctionEntry {
    pub module: String,
    pub name: String,
    pub params: Vec<ValueType>,
    pub results: Vec<ValueType>,
    pub capabilities: HostCapabilities,
}

/// A registered host global: its import name, type and mutability.
#[derive(Debug, Clone)]
pub struct HostGlobalEntry {
    pub module: String,
    pub name: String,
    pub value_type: ValueType,
    pub mutable: bool,
}

/// A registered host table: its import name, current length and maximum.
#[derive(Debug, Clone)]
pub struct HostTableEntry {
    pub module: String,
    pub name: String,
    pub length: u32,
    pub maximum: Option<u32>,
}

/// A registered host memory: its import name, limits and current size.
#[derive(Debug, Clone)]
pub struct HostMemoryEntry {
    pub module: String,
    pub name: String,
    pub minimum: u32,
    pub maximum: Option<u32>,
    pub size_pages: u32,
}

/// Import names as character sequences.
pub open spec fn key_of(module: String, name: String) -> (Seq<char>, Seq<char>) {
    (module@, name@)
}

pub open spec fn function_keys(v: Seq<HostFunctionEntry>) -> Seq<(Seq<char>, Seq<char>)> {
    v.map_values(|e: HostFunctionEntry| key_of(e.module, e.name))
}

pub open spec fn global_keys(v: Seq<HostGlobalEntry>) -> Seq<(Seq<char>, Seq<char>)> {
    v.map_values(|e: HostGlobalEntry| key_of(e.module, e.name))
}

pub open spec fn table_keys(v: Seq<HostTableEntry>) -> Seq<(Seq<char>, Seq<char>)> {
    v.map_values(|e: HostTableEntry| key_of(e.module, e.name))
}

pub open spec fn memory_keys(v: Seq<HostMemoryEntry>) -> Seq<(Seq<char>, Seq<char>)> {
    v.map_values(|e: HostMemoryEntry| key_of(e.module, e.name))
}

/// No import name occurs twice.
pub open spec fn distinct_keys(keys: Seq<(Seq<char>, Seq<char>)>) -> bool {
    forall|i: int, j: int| 0 <= i < j < keys.len() ==> keys[i] != keys[j]
}

/// What a host offers to import, by kind, each in order of registration. The position
/// of an entry is how the embedder finds the object it describes.
#[derive(Debug, Clone)]
pub struct HostRegistry {
    pub functions: Vec<HostFunctionEntry>,
    pub globals: Vec<HostGlobalEntry>,
    pub tables: Vec<HostTableEntry>,
    pub memories: Vec<HostMemoryEntry>,
}

impl HostRegistry {
    pub open spec fn wf(&self) -> bool {
        &&& distinct_keys(function_keys(self.functions@))
        &&& distinct_keys(global_keys(self.globals@))
        &&& distinct_keys(table_keys(self.tables@))
        &&& distinct_keys(memory_keys(self.memories@))
    }

    pub fn new() -> (r: HostRegistry)
        ensures
            r.wf(),
            r.functions@.len() == 0,
            r.globals@.len() == 0,
            r.tables@.len() == 0,
            r.memories@.len() == 0,
    {
        HostRegistry { functions: Vec::new(), globals: Vec::new(), tables: Vec::new(), memories: Vec::new() }
    }

    /// The position of the function registered as `(module, name)`.
    pub fn find_function(&self, module: &String, name: &String) -> (r: Option<usize>)
        ensures
            r matches Some(i) ==> i < self.functions@.len() && self.functions@[i as int].module@
                == module@ && self.functions@[i as int].name@ == name@,
            r is None ==> forall|i: int| 0 <= i < self.functions@.len() ==> !(
            #[trigger] self.functions@[i].module@ == module@ && self.functions@[i].name@ == name@),
    {
        let mut i: usize = 0;
        while i < self.functions.len()
            invariant
                i <= self.functions@.len(),
                forall|j: int| 0 <= j < i ==> !(#[trigger] self.functions@[j].module@ == module@
                    && self.functions@[j].name@ == name@),
            decreases self.functions@.len() - i,
        {
            if self.functions[i].module == *module && self.functions[i].name == *name {
                return Some(i);
            }
            i = i + 1;
        }
        None
    }

    /// The position of the global registered as `(module, name)`.
    pub fn find_global(&self, module: &String, name: &String) -> (r: Option<usize>)
        ensures
            r matches Some(i) ==> i < self.globals@.len() && self.globals@[i as int].module@
                == module@ && self.globals@[i as int].name@ == name@,
            r is None ==> forall|i: int| 0 <= i < self.globals@.len() ==> !(
            #[trigger] self.globals@[i].module@ == module@ && self.globals@[i].name@ == name@),
    {
        let mut i: usize = 0;
        while i < self.globals.len()
            invariant
                i <= self.globals@.len(),
                forall|j: int| 0 <= j < i ==> !(#[trigger] self.globals@[j].module@ == module@
                    && self.globals@[j].name@ == name@),
            decreases self.globals@.len() - i,
        {
            if self.globals[i].module == *module && self.globals[i].name == *name {
                return Some(i);
            }
            i = i + 1;
        }
        None
    }

    /// The position of the table registered as `(module, name)`.
    pub fn find_table(&self, module: &String, name: &String) -> (r: Option<usize>)
        ensures
            r matches Some(i) ==> i < self.tables@.len() && self.tables@[i as int].module@
                == module@ && self.tables@[i as int].name@ == name@,
            r is None ==> forall|i: int| 0 <= i < self.tables@.len() ==> !(
            #[trigger] self.tables@[i].module@ == module@ && self.tables@[i].name@ == name@),
    {
        let mut i: usize = 0;
        while i < self.tables.len()
            invariant
                i <= self.tables@.len(),
                forall|j: int| 0 <= j < i ==> !(#[trigger] self.tables@[j].module@ == module@
                    && self.tables@[j].name@ == name@),
            decreases self.tables@.len() - i,
        {
            if self.tables[i].module == *module && self.tables[i].name == *name {
                return Some(i);
            }
            i = i + 1;
        }
        None
    }

    /// The position of the memory registered as `(module, name)`.
    pub fn find_memory(&self, module: &String, name: &String) -> (r: Option<usize>)
        ensures
            r matches Some(i) ==> i < self.memories@.len() && self.memories@[i as int].module@
                == module@ && self.memories@[i as int].name@ == name@,
            r is None ==> forall|i: int| 0 <= i < self.memories@.len() ==> !(
            #[trigger] self.memories@[i].module@ == module@ && self.memories@[i].name@ == name@),
    {
        let mut i: usize = 0;
        while i < self.memories.len()
            invariant
                i <= self.memories@.len(),
                forall|j: int| 0 <= j < i ==> !(#[trigger] self.memories@[j].module@ == module@
                    && self.memories@[j].name@ == name@),
            decreases self.memories@.len() - i,
        {
            if self.memories[i].module == *module && self.memories[i].name == *name {
                return Some(i);
            }
            i = i + 1;
        }
        None
    }

    /// Registers a host function with at most one result.
    pub fn register(
        &mut self,
        module: String,
        name: String,
        params: Vec<ValueType>,
        results: Vec<ValueType>,
        capabilities: HostCapabilities,
    ) -> (r: Result<(), HostRegistryError>)
        requires
            old(self).wf(),
        ensures
            final(self).wf(),
            results@.len() > 1 ==> r == Err::<(), HostRegistryError>(HostRegistryError::UnsupportedSignature)
                && final(self).functions@ == old(self).functions@,
            results@.len() <= 1 ==> registered_function(*old(self), *final(self), module, name, params, results, capabilities, r),
            final(self).globals@ == old(self).globals@,
            final(self).tables@ == old(self).tables@,
            final(self).memories@ == old(self).memories@,
    {
        if results.len() > 1 {
            return Err(HostRegistryError::UnsupportedSignature);
        }
        self.register_values(module, name, params, results, capabilities)
    }

    /// Registers a host function with any number of results.
    pub fn register_values(
        &mut self,
        module: String,
        name: String,
        params: Vec<ValueType>,
        results: Vec<ValueType>,
        capabilities: HostCapabilities,
    ) -> (r: Result<(), HostRegistryError>)
        requires
            old(self).wf(),
        ensures
            final(self).wf(),
            registered_function(*old(self), *final(self), module, name, params, results, capabilities, r),
            final(self).globals@ == old(self).globals@,
            final(self).tables@ == old(self).tables@,
            final(self).memories@ == old(self).memories@,
    {
        if self.find_function(&module, &name).is_some() {
            return Err(HostRegistryError::DuplicateFunction { module, name });
        }
        let ghost before = function_keys(self.functions@);
        self.functions.push(HostFunctionEntry { module, name, params, results, capabilities });
        assert(function_keys(self.functions@) =~= before.push(key_of(module, name)));
        Ok(())
    }

    /// Registers an immutable global holding `value`.
    pub fn register_immutable_global(&mut self, module: String, name: String, value: Value) -> (r: Result<
        (),
        HostRegistryError,
    >)
        requires
            old(self).wf(),
        ensures
            final(self).wf(),
            registered_global(*old(self), *final(self), module, name, value.spec_value_type(), false, r),
            final(self).functions@ == old(self).functions@,
            final(self).tables@ == old(self).tables@,
            final(self).memories@ == old(self).memories@,
    {
        let global = GlobalHandle::immutable(value);
        self.register_global(module, name, &global)
    }

    /// Registers a global with the type and mutability of `global`.
    pub fn register_global(&mut self, module: String, name: String, global: &GlobalHandle) -> (r: Result<
        (),
        HostRegistryError,
    >)
        requires
            old(self).wf(),
        ensures
            final(self).wf(),
            registered_global(*old(self), *final(self), module, name, global.spec_type(), global.spec_mutable(), r),
            final(self).functions@ == old(self).functions@,
            final(self).tables@ == old(self).tables@,
            final(self).memories@ == old(self).memories@,
    {
        if self.find_global(&module, &name).is_some() {
            return Err(HostRegistryError::DuplicateGlobal { module, name });
        }
        let ghost before = global_keys(self.globals@);
        self.globals.push(
            HostGlobalEntry { module, name, value_type: global.value_type(), mutable: global.is_mutable() },
        );
        assert(global_keys(self.globals@) =~= before.push(key_of(module, name)));
        Ok(())
    }

    /// Registers a table with the current length and maximum of `table`.
    pub fn register_table(&mut self, module: String, name: String, table: &TableHandle) -> (r: Result<
        (),
        HostRegistryError,
    >)
        requires
            old(self).wf(),
            table.wf(),
        ensures
            final(self).wf(),
            final(self).functions@ == old(self).functions@,
            final(self).globals@ == old(self).globals@,
            final(self).memories@ == old(self).memories@,
            exists|i: int| 0 <= i < old(self).tables@.len() && old(self).tables@[i].module@ == module@
                && old(self).tables@[i].name@ == name@ ==> r == Err::<(), HostRegistryError>(
                HostRegistryError::DuplicateTable { module, name },
            ) && final(self).tables@ == old(self).tables@,
            !(exists|i: int| 0 <= i < old(self).tables@.len() && old(self).tables@[i].module@ == module@
                && old(self).tables@[i].name@ == name@) ==> r is Ok && final(self).tables@.len() == old(
                self,
            ).tables@.len() + 1 && final(self).tables@.drop_last() == old(self).tables@ && ({
                let e = final(self).tables@.last();
                &&& e.module == module
                &&& e.name == name
                &&& e.length == table@.len()
                &&& e.maximum == table.spec_maximum()
            }),
    {
        if self.find_table(&module, &name).is_some() {
            return Err(HostRegistryError::DuplicateTable { module, name });
        }
        let ghost before = table_keys(self.tables@);
        self.tables.push(HostTableEntry { module, name, length: table.len(), maximum: table.maximum() });
        assert(table_keys(self.tables@) =~= before.push(key_of(module, name)));
        assert(self.tables@.drop_last() =~= old(self).tables@);
        Ok(())
    }

    /// Registers a memory with the limits and current size of `memory`.
    pub fn register_memory(&mut self, module: String, name: String, memory: &MemoryHandle) -> (r: Result<
        (),
        HostRegistryError,
    >)
        requires
            old(self).wf(),
            memory.wf(),
        ensures
            final(self).wf(),
            final(self).functions@ == old(self).functions@,
            final(self).globals@ == old(self).globals@,
            final(self).tables@ == old(self).tables@,
            exists|i: int| 0 <= i < old(self).memories@.len() && old(self).memories@[i].module@ == module@
                && old(self).memories@[i].name@ == name@ ==> r == Err::<(), HostRegistryError>(
                HostRegistryError::DuplicateMemory { module, name },
            ) && final(self).memories@ == old(self).memories@,
            !(exists|i: int| 0 <= i < old(self).memories@.len() && old(self).memories@[i].module@
                == module@ && old(self).memories@[i].name@ == name@) ==> r is Ok
                && final(self).memories@.len() == old(self).memories@.len() + 1
                && final(self).memories@.drop_last() == old(self).memories@ && ({
                let e = final(self).memories@.last();
                &&& e.module == module
                &&& e.name == name
                &&& e.minimum == memory.spec_minimum()
                &&& e.maximum == memory.spec_maximum()
                &&& e.size_pages == memory.spec_memory().spec_size_pages()
            }),
    {
        if self.find_memory(&module, &name).is_some() {
            return Err(HostRegistryError::DuplicateMemory { module, name });
        }
        let ghost before = memory_keys(self.memories@);
        self.memories.push(
            HostMemoryEntry {
                module,
                name,
                minimum: memory.minimum(),
                maximum: memory.maximum(),
                size_pages: memory.size_pages(),
            },
        );
        assert(memory_keys(self.memories@) =~= before.push(key_of(module, name)));
        assert(self.memories@.drop_last() =~= old(self).memories@);
        Ok(())
    }
}

/// A function registration: refused, and nothing changes, when the name is taken;
/// otherwise appended.
pub open spec fn registered_function(
    before: HostRegistry,
    after: HostRegistry,
    module: String,
    name: String,
    params: Vec<ValueType>,
    results: Vec<ValueType>,
    capabilities: HostCapabilities,
    r: Result<(), HostRegistryError>,
) -> bool {
    let taken = exists|i: int|
        0 <= i < before.functions@.len() && before.functions@[i].module@ == module@
            && before.functions@[i].name@ == name@;
    &&& taken ==> r == Err::<(), HostRegistryError>(HostRegistryError::DuplicateFunction { module, name })
        && after.functions@ == before.functions@
    &&& !taken ==> r is Ok && after.functions@ == before.functions@.push(
        HostFunctionEntry { module, name, params, results, capabilities },
    )
}

/// A global registration: refused, and nothing changes, when the name is taken;
/// otherwise appended.
pub open spec fn registered_global(
    before: HostRegistry,
    after: HostRegistry,
    module: String,
    name: String,
    value_type: ValueType,
    mutable: bool,
    r: Result<(), HostRegistryError>,
) -> bool {
    let taken = exists|i: int|
        0 <= i < before.globals@.len() && before.globals@[i].module@ == module@
            && before.globals@[i].name@ == name@;
    &&& taken ==> r == Err::<(), HostRegistryError>(HostRegistryError::DuplicateGlobal { module, name })
        && after.globals@ == before.globals@
    &&& !taken ==> r is Ok && after.globals@ == before.globals@.push(
        HostGlobalEntry { module, name, value_type, mutable },
    )
}

impl GlobalHandleError {
    /// The message that describes the error.
    pub open spec fn spec_describe(self) -> Seq<char> {
        match self {
            GlobalHandleError::Immutable => "global is immutable"@,
            GlobalHandleError::TypeMismatch { expected, actual } => "global expects "@
                + value_type_name(expected)
                + ", got "@
                + value_type_name(actual),
        }
    }

    /// The message that describes the error.
    pub fn describe(&self) -> (s: String)
        ensures
            s@ == self.spec_describe(),
    {
        match self {
            GlobalHandleError::Immutable => String::from_str("global is immutable"),
            GlobalHandleError::TypeMismatch { expected, actual } => {
                let mut s = String::from_str("global expects ");
                s.append(render_value_type(*expected).as_str());
                s.append(", got ");
                s.append(render_value_type(*actual).as_str());
                s
            },
        }
    }
}

impl TableHandleError {
    /// The message that describes the error.
    pub open spec fn spec_describe(self) -> Seq<char> {
        match self {
            TableHandleError::InvalidLimits { minimum, maximum } => "table minimum "@
                + decimal_chars(minimum as nat)
                + " exceeds declared maximum "@
                + decimal_chars(maximum as nat),
            TableHandleError::AllocationFailed { elements } => "failed to allocate table with "@
                + decimal_chars(elements as nat)
                + " elements"@,
            TableHandleError::OutOfBounds { index, length } => "table element index "@
                + decimal_chars(index as nat)
                + " is out of bounds for length "@
                + decimal_chars(length as nat),
            TableHandleError::ForeignFunctionReference { index } => "table element "@
                + decimal_chars(index as nat)
                + " contains a function reference from another instance"@,
            TableHandleError::AlreadyBound => "table is already bound to a live instance"@,
        }
    }

    /// The message that describes the error.
    pub fn describe(&self) -> (s: String)
        ensures
            s@ == self.spec_describe(),
    {
        match self {
            TableHandleError::InvalidLimits { minimum, maximum } => {
                let mut s = String::from_str("table minimum ");
                s.append(render_decimal(*minimum as u64).as_str());
                s.append(" exceeds declared maximum ");
                s.append(render_decimal(*maximum as u64).as_str());
                s
            },
            TableHandleError::AllocationFailed { elements } => {
                let mut s = String::from_str("failed to allocate table with ");
                s.append(render_decimal(*elements as u64).as_str());
                s.append(" elements");
                s
            },
            TableHandleError::OutOfBounds { index, length } => {
                let mut s = String::from_str("table element index ");
                s.append(render_decimal(*index as u64).as_str());
                s.append(" is out of bounds for length ");
                s.append(render_decimal(*length as u64).as_str());
                s
            },
            TableHandleError::ForeignFunctionReference { index } => {
                let mut s = String::from_str("table element ");
                s.append(render_decimal(*index as u64).as_str());
                s.append(" contains a function reference from another instance");
                s
            },
            TableHandleError::AlreadyBound => String::from_str("table is already bound to a live instance"),
        }
    }
}

impl MemoryHandleError {
    /// The message that describes the error.
    pub open spec fn spec_describe(self) -> Seq<char> {
        match self {
            MemoryHandleError::InvalidLimits { minimum, maximum } => "memory minimum "@
                + decimal_chars(minimum as nat)
                + " exceeds declared maximum "@
                + decimal_chars(maximum as nat),
            MemoryHandleError::LimitExceeded { pages, limit } => "memory limit "@
                + decimal_chars(pages as nat)
                + " pages exceeds WebAssembly limit "@
                + decimal_chars(limit as nat),
            MemoryHandleError::AllocationFailed { pages } => "failed to allocate linear memory with "@
                + decimal_chars(pages as nat)
                + " pages"@,
            MemoryHandleError::OutOfBounds { address, width } => "memory access at byte "@
                + decimal_chars(address as nat)
                + " with width "@
                + decimal_chars(width as nat)
                + " is out of bounds"@,
        }
    }

    /// The message that describes the error.
    pub fn describe(&self) -> (s: String)
        ensures
            s@ == self.spec_describe(),
    {
        match self {
            MemoryHandleError::InvalidLimits { minimum, maximum } => {
                let mut s = String::from_str("memory minimum ");
                s.append(render_decimal(*minimum as u64).as_str());
                s.append(" exceeds declared maximum ");
                s.append(render_decimal(*maximum as u64).as_str());
                s
            },
            MemoryHandleError::LimitExceeded { pages, limit } => {
                let mut s = String::from_str("memory limit ");
                s.append(render_decimal(*pages as u64).as_str());
                s.append(" pages exceeds WebAssembly limit ");
                s.append(render_decimal(*limit as u64).as_str());
                s
            },
            MemoryHandleError::AllocationFailed { pages } => {
                let mut s = String::from_str("failed to allocate linear memory with ");
                s.append(render_decimal(*pages as u64).as_str());
                s.append(" pages");
                s
            },
            MemoryHandleError::OutOfBounds { address, width } => {
                let mut s = String::from_str("memory access at byte ");
                s.append(render_decimal(*address as u64).as_str());
                s.append(" with width ");
                s.append(render_decimal(*width as u64).as_str());
                s.append(" is out of bounds");
                s
            },
        }
    }
}

impl HostRegistryError {
    /// The message that describes the error.
    pub open spec fn spec_describe(self) -> Seq<char> {
        match self {
            HostRegistryError::DuplicateFunction { module, name } => "host function "@
                + module@
                + "."@
                + name@
                + " is already registered"@,
            HostRegistryError::DuplicateGlobal { module, name } => "host global "@
                + module@
                + "."@
                + name@
                + " is already registered"@,
            HostRegistryError::DuplicateTable { module, name } => "host table "@
                + module@
                + "."@
                + name@
                + " is already registered"@,
            HostRegistryError::DuplicateMemory { module, name } => "host memory "@
                + module@
                + "."@
                + name@
                + " is already registered"@,
            HostRegistryError::UnsupportedSignature => "HostRegistry::register supports numeric value types with at most one result; use register_values for multi-result callbacks"@,
        }
    }

    /// The message that describes the error.
    pub fn describe(&self) -> (s: String)
        ensures
            s@ == self.spec_describe(),
    {
        match self {
            HostRegistryError::DuplicateFunction { module, name } => {
                let mut s = String::from_str("host function ");
                s.append(module.as_str());
                s.append(".");
                s.append(name.as_str());
                s.append(" is already registered");
                s
            },
            HostRegistryError::DuplicateGlobal { module, name } => {
                let mut s = String::from_str("host global ");
                s.append(module.as_str());
                s.append(".");
                s.append(name.as_str());
                s.append(" is already registered");
                s
            },
            HostRegistryError::DuplicateTable { module, name } => {
                let mut s = String::from_str("host table ");
                s.append(module.as_str());
                s.append(".");
                s.append(name.as_str());
                s.append(" is already registered");
                s
            },
            HostRegistryError::DuplicateMemory { module, name } => {
                let mut s = String::from_str("host memory ");
                s.append(module.as_str());
                s.append(".");
                s.append(name.as_str());
                s.append(" is already registered");
                s
            },
            HostRegistryError::UnsupportedSignature => String::from_str("HostRegistry::register supports numeric value types with at most one result; use register_values for multi-result callbacks"),
        }
    }
}

} // verus!
