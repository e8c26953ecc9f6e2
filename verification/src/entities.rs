//! The entities that a store holds: globals, tables, memories and
//! callables, each with the invariant that its operations keep.

use vstd::prelude::*;
use crate::error::Error;
use crate::error::Trap;
use crate::types::Func;
use crate::types::FuncType;
use crate::types::FuncTypeView;
use crate::types::FuncView;
use crate::types::GlobalType;
use crate::types::MemType;
use crate::types::TableType;
use crate::types::ValType;

verus! {

/// A value on the stack or in a global. A float is held by its bits.
#[derive(Clone, Copy, Debug, PartialEq, Eq)]
pub enum StackEntry {
    I32Entry(i32),
    I64Entry(i64),
    F32Entry(u32),
    F64Entry(u64),
}

impl StackEntry {
    /// The kind of the value.
    pub open spec fn kind(self) -> ValType {
        match self {
            StackEntry::I32Entry(_) => ValType::I32,
            StackEntry::I64Entry(_) => ValType::I64,
            StackEntry::F32Entry(_) => ValType::F32,
            StackEntry::F64Entry(_) => ValType::F64,
        }
    }

    /// The kind of the value.
    pub fn val_type(&self) -> (t: ValType)
        ensures
            t == self.kind(),
    {
        match self {
            StackEntry::I32Entry(_) => ValType::I32,
            StackEntry::I64Entry(_) => ValType::I64,
            StackEntry::F32Entry(_) => ValType::F32,
            StackEntry::F64Entry(_) => ValType::F64,
        }
    }
}

/// Whether two value kinds are the same.
pub fn same_val_type(a: ValType, b: ValType) -> (r: bool)
    ensures
        r == (a == b),
{
    match (a, b) {
        (ValType::I32, ValType::I32) => true,
        (ValType::I64, ValType::I64) => true,
        (ValType::F32, ValType::F32) => true,
        (ValType::F64, ValType::F64) => true,
        _ => false,
    }
}

/// The value stack that an interpreter runs on.
#[derive(Debug)]
pub struct Stack {
    pub entries: Vec<StackEntry>,
}

impl View for Stack {
    type V = Seq<StackEntry>;

    open spec fn view(&self) -> Seq<StackEntry> {
        self.entries@
    }
}

impl Stack {
    /// An empty stack.
    pub fn new() -> (r: Self)
        ensures
            r@ == Seq::<StackEntry>::empty(),
    {
        Stack { entries: Vec::new() }
    }

    /// Puts a value on top.
    pub fn push(&mut self, entry: StackEntry)
        ensures
            final(self)@ == old(self)@.push(entry),
    {
        self.entries.push(entry);
    }

    /// Takes the top value off, if there is one.
    pub fn pop(&mut self) -> (r: Option<StackEntry>)
        ensures
            old(self)@.len() == 0 ==> r is None && final(self)@ == old(self)@,
            old(self)@.len() > 0 ==> r == Some(old(self)@.last()),
            old(self)@.len() > 0 ==> final(self)@ == old(self)@.drop_last(),
    {
        self.entries.pop()
    }

    /// The number of values on the stack.
    pub fn len(&self) -> (n: usize)
        ensures
            n == self@.len(),
    {
        self.entries.len()
    }
}

/// A global: its type and its current value.
#[derive(Clone, Copy, Debug, PartialEq, Eq)]
pub struct Global {
    pub global_type: GlobalType,
    pub value: StackEntry,
}

impl DeepView for Global {
    type V = Global;

    open spec fn deep_view(&self) -> Global {
        *self
    }
}

impl Global {
    /// The value has the declared kind.
    pub open spec fn wf(&self) -> bool {
        self.value.kind() == self.global_type.val_type
    }

    /// A global of the given type and value, if the value has the
    /// declared kind.
    pub fn new(global_type: GlobalType, value: StackEntry) -> (r: Result<Global, Error>)
        ensures
            value.kind() == global_type.val_type ==> r == Ok::<Global, Error>(
                Global { global_type, value },
            ),
            value.kind() != global_type.val_type ==> r == Err::<Global, Error>(Error::TypeMismatch),
    {
        if same_val_type(value.val_type(), global_type.val_type) {
            Ok(Global { global_type, value })
        } else {
            Err(Error::TypeMismatch)
        }
    }

    /// The current value.
    pub fn get(&self) -> (v: StackEntry)
        ensures
            v == self.value,
    {
        self.value
    }

    /// Replaces the value by one of the same kind. Whether the global may
    /// be written at all is for the interpreter to enforce.
    pub fn set(&mut self, value: StackEntry) -> (r: Result<(), Error>)
        ensures
            final(self).global_type == old(self).global_type,
            value.kind() == old(self).global_type.val_type ==> r is Ok && final(self).value
                == value,
            value.kind() != old(self).global_type.val_type ==> r == Err::<(), Error>(
                Error::TypeMismatch,
            ) && final(self).value == old(self).value,
    {
        if same_val_type(value.val_type(), self.global_type.val_type) {
            self.value = value;
            Ok(())
        } else {
            Err(Error::TypeMismatch)
        }
    }
}

/// A table of function references. A reference is the index of a function
/// in the store that holds the table; an empty entry is `None`.
#[derive(Debug, PartialEq, Eq)]
pub struct Table {
    pub table_type: TableType,
    pub entries: Vec<Option<usize>>,
}

/// The mathematical value of a `Table`.
#[verifier::ext_equal]
pub struct TableView {
    pub table_type: TableType,
    pub entries: Seq<Option<usize>>,
}

impl View for Table {
    type V = TableView;

    open spec fn view(&self) -> TableView {
        TableView { table_type: self.table_type, entries: self.entries@ }
    }
}

impl DeepView for Table {
    type V = TableView;

    open spec fn deep_view(&self) -> TableView {
        self@
    }
}

impl TableView {
    /// The table of a type as it is first made: `min` empty entries.
    pub open spec fn fresh(table_type: TableType) -> TableView {
        TableView {
            table_type,
            entries: Seq::new(table_type.min as nat, |i: int| None::<usize>),
        }
    }

    /// The table with `refs` written from `offset` on.
    pub open spec fn with_entries(self, offset: int, refs: Seq<usize>) -> TableView {
        TableView {
            table_type: self.table_type,
            entries: Seq::new(
                self.entries.len(),
                |i: int|
                    if offset <= i < offset + refs.len() {
                        Some(refs[i - offset])
                    } else {
                        self.entries[i]
                    },
            ),
        }
    }
}

impl Table {
    /// A table of `min` empty entries.
    pub fn new(table_type: TableType) -> (r: Self)
        ensures
            r@ == TableView::fresh(table_type),
    {
        let mut entries: Vec<Option<usize>> = Vec::new();
        let mut i: u32 = 0;
        while i < table_type.min
            invariant
                i <= table_type.min,
                entries@ == Seq::new(i as nat, |k: int| None::<usize>),
            decreases table_type.min - i,
        {
            entries.push(None);
            i += 1;
        }
        Table { table_type, entries }
    }

    /// The number of entries.
    pub fn size(&self) -> (n: usize)
        ensures
            n == self@.entries.len(),
    {
        self.entries.len()
    }

    /// The entry at `i`, or a trap where the table has none.
    pub fn get(&self, i: usize) -> (r: Result<Option<usize>, Error>)
        ensures
            i < self@.entries.len() ==> r == Ok::<Option<usize>, Error>(self@.entries[i as int]),
            i >= self@.entries.len() ==> r == Err::<Option<usize>, Error>(
                Error::Trap(Trap::TableOutOfBounds),
            ),
    {
        if i < self.entries.len() {
            Ok(self.entries[i])
        } else {
            Err(Error::Trap(Trap::TableOutOfBounds))
        }
    }

    /// Writes `refs` into the entries from `offset` on. A write that does
    /// not fit in the table traps and leaves the table as it was.
    pub fn set_entries(&mut self, offset: usize, refs: &Vec<usize>) -> (r: Result<(), Error>)
        ensures
            offset + refs@.len() <= old(self)@.entries.len() ==> r is Ok,
            offset + refs@.len() <= old(self)@.entries.len() ==> final(self)@
                == old(self)@.with_entries(offset as int, refs@),
            offset + refs@.len() > old(self)@.entries.len() ==> r == Err::<(), Error>(
                Error::Trap(Trap::TableOutOfBounds),
            ) && final(self)@ == old(self)@,
    {
        if offset > self.entries.len() || refs.len() > self.entries.len() - offset {
            return Err(Error::Trap(Trap::TableOutOfBounds));
        }
        let mut i: usize = 0;
        while i < refs.len()
            invariant
                i <= refs@.len(),
                offset + refs@.len() <= self.entries@.len() <= usize::MAX,
                self.table_type == old(self).table_type,
                self.entries@.len() == old(self).entries@.len(),
                self@ == old(self)@.with_entries(offset as int, refs@.subrange(0, i as int)),
            decreases refs@.len() - i,
        {
            self.entries.set(offset + i, Some(refs[i]));
            i += 1;
        }
        assert(refs@.subrange(0, refs@.len() as int) =~= refs@);
        Ok(())
    }
}

/// The number of bytes in a page of memory.
pub const PAGE_SIZE: usize = 65536;

/// The most pages that a memory can have.
pub const MAX_PAGES: u32 = 65536;

/// A linear memory.
#[derive(Debug, PartialEq, Eq)]
pub struct Memory {
    pub mem_type: MemType,
    pub data: Vec<u8>,
}

/// The mathematical value of a `Memory`.
#[verifier::ext_equal]
pub struct MemoryView {
    pub mem_type: MemType,
    pub data: Seq<u8>,
}

impl View for Memory {
    type V = MemoryView;

    open spec fn view(&self) -> MemoryView {
        MemoryView { mem_type: self.mem_type, data: self.data@ }
    }
}

impl DeepView for Memory {
    type V = MemoryView;

    open spec fn deep_view(&self) -> MemoryView {
        self@
    }
}

/// Whether a memory of this type can be made on this machine: its first
/// size in bytes is one that `usize` holds.
pub open spec fn addressable(mem_type: MemType) -> bool {
    mem_type.min * PAGE_SIZE <= usize::MAX
}

impl MemoryView {
    /// The memory of a type as it is first made: `min` pages of zeros.
    pub open spec fn fresh(mem_type: MemType) -> MemoryView {
        MemoryView { mem_type, data: Seq::new((mem_type.min * PAGE_SIZE) as nat, |i: int| 0u8) }
    }

    /// The memory with `bytes` written from `offset` on.
    pub open spec fn with_data(self, offset: int, bytes: Seq<u8>) -> MemoryView {
        MemoryView {
            mem_type: self.mem_type,
            data: Seq::new(
                self.data.len(),
                |i: int|
                    if offset <= i < offset + bytes.len() {
                        bytes[i - offset]
                    } else {
                        self.data[i]
                    },
            ),
        }
    }

    /// The size in whole pages.
    pub open spec fn pages(self) -> int {
        self.data.len() as int / PAGE_SIZE as int
    }

    /// Whether the memory can grow by `delta` pages: the new size is at
    /// most the maximum of its type, at most 65 536 pages, and one that
    /// `usize` holds.
    pub open spec fn can_grow(self, delta: u32) -> bool {
        &&& self.pages() + delta <= MAX_PAGES
        &&& self.mem_type.max matches Some(max) ==> self.pages() + delta <= max
        &&& self.data.len() + delta * PAGE_SIZE <= usize::MAX
    }

    /// The memory with `delta` pages of zeros behind its bytes.
    pub open spec fn grown(self, delta: u32) -> MemoryView {
        MemoryView {
            mem_type: self.mem_type,
            data: self.data + Seq::new((delta * PAGE_SIZE) as nat, |i: int| 0u8),
        }
    }
}

/// The four bytes of `v`, least significant first.
pub open spec fn le_bytes_u32(v: u32) -> Seq<u8> {
    seq![
        (v % 0x100) as u8,
        (v / 0x100 % 0x100) as u8,
        (v / 0x1_0000 % 0x100) as u8,
        (v / 0x100_0000) as u8,
    ]
}

/// The number that four bytes spell, least significant first.
pub open spec fn le_value_u32(b: Seq<u8>) -> u32 {
    (b[0] + 0x100 * b[1] + 0x1_0000 * b[2] + 0x100_0000 * b[3]) as u32
}

/// The eight bytes of `v`, least significant first.
pub open spec fn le_bytes_u64(v: u64) -> Seq<u8> {
    le_bytes_u32((v % 0x1_0000_0000) as u32) + le_bytes_u32((v / 0x1_0000_0000) as u32)
}

/// The number that eight bytes spell, least significant first.
pub open spec fn le_value_u64(b: Seq<u8>) -> u64 {
    (le_value_u32(b.subrange(0, 4)) + 0x1_0000_0000 * le_value_u32(b.subrange(4, 8))) as u64
}

/// The four bytes of a number spell the number.
pub proof fn lemma_le_u32_round_trip(v: u32)
    ensures
        le_bytes_u32(v).len() == 4,
        le_value_u32(le_bytes_u32(v)) == v,
{
}

/// The eight bytes of a number spell the number.
pub proof fn lemma_le_u64_round_trip(v: u64)
    ensures
        le_bytes_u64(v).len() == 8,
        le_value_u64(le_bytes_u64(v)) == v,
{
    let low = (v % 0x1_0000_0000) as u32;
    let high = (v / 0x1_0000_0000) as u32;
    lemma_le_u32_round_trip(low);
    lemma_le_u32_round_trip(high);
    assert(le_bytes_u64(v).subrange(0, 4) =~= le_bytes_u32(low));
    assert(le_bytes_u64(v).subrange(4, 8) =~= le_bytes_u32(high));
}

/// The unsigned number with the bits of `i`.
pub open spec fn unsigned_32(i: i32) -> u32 {
    if i >= 0 {
        i as u32
    } else {
        (i + 0x1_0000_0000) as u32
    }
}

/// The signed number with the bits of `u`.
pub open spec fn signed_32(u: u32) -> i32 {
    if u < 0x8000_0000 {
        u as i32
    } else {
        (u - 0x1_0000_0000) as i32
    }
}

/// The unsigned number with the bits of `i`.
pub open spec fn unsigned_64(i: i64) -> u64 {
    if i >= 0 {
        i as u64
    } else {
        (i + 0x1_0000_0000_0000_0000) as u64
    }
}

/// The signed number with the bits of `u`.
pub open spec fn signed_64(u: u64) -> i64 {
    if u < 0x8000_0000_0000_0000 {
        u as i64
    } else {
        (u - 0x1_0000_0000_0000_0000) as i64
    }
}

/// The number of bytes that a value of a kind takes in memory.
pub open spec fn width(val_type: ValType) -> nat {
    match val_type {
        ValType::I32 => 4,
        ValType::I64 => 8,
        ValType::F32 => 4,
        ValType::F64 => 8,
    }
}

/// The bytes of a value in memory: its bits, least significant byte first.
pub open spec fn entry_bytes(entry: StackEntry) -> Seq<u8> {
    match entry {
        StackEntry::I32Entry(i) => le_bytes_u32(unsigned_32(i)),
        StackEntry::I64Entry(i) => le_bytes_u64(unsigned_64(i)),
        StackEntry::F32Entry(bits) => le_bytes_u32(bits),
        StackEntry::F64Entry(bits) => le_bytes_u64(bits),
    }
}

/// The value of a kind that bytes in memory spell.
pub open spec fn entry_of(val_type: ValType, bytes: Seq<u8>) -> StackEntry {
    match val_type {
        ValType::I32 => StackEntry::I32Entry(signed_32(le_value_u32(bytes))),
        ValType::I64 => StackEntry::I64Entry(signed_64(le_value_u64(bytes))),
        ValType::F32 => StackEntry::F32Entry(le_value_u32(bytes)),
        ValType::F64 => StackEntry::F64Entry(le_value_u64(bytes)),
    }
}

/// A value that was stored is the value that is loaded, as its kind, from
/// the place it was stored at.
pub proof fn law_load_after_store_entry(m: MemoryView, offset: int, entry: StackEntry)
    requires
        0 <= offset,
        offset + width(entry.kind()) <= m.data.len(),
    ensures
        entry_bytes(entry).len() == width(entry.kind()),
        entry_of(
            entry.kind(),
            m.with_data(offset, entry_bytes(entry)).data.subrange(
                offset,
                offset + width(entry.kind()),
            ),
        ) == entry,
{
    let bytes = entry_bytes(entry);
    match entry {
        StackEntry::I32Entry(i) => {
            lemma_le_u32_round_trip(unsigned_32(i));
        },
        StackEntry::I64Entry(i) => {
            lemma_le_u64_round_trip(unsigned_64(i));
        },
        StackEntry::F32Entry(bits) => {
            lemma_le_u32_round_trip(bits);
        },
        StackEntry::F64Entry(bits) => {
            lemma_le_u64_round_trip(bits);
        },
    }
    assert(m.with_data(offset, bytes).data.subrange(offset, offset + bytes.len()) =~= bytes);
}

/// A number that was stored is the number that is loaded from the place
/// it was stored at.
pub proof fn law_load_after_store(m: MemoryView, offset: int, small: u32, large: u64)
    requires
        0 <= offset,
    ensures
        offset + 4 <= m.data.len() ==> le_value_u32(
            m.with_data(offset, le_bytes_u32(small)).data.subrange(offset, offset + 4),
        ) == small,
        offset + 8 <= m.data.len() ==> le_value_u64(
            m.with_data(offset, le_bytes_u64(large)).data.subrange(offset, offset + 8),
        ) == large,
{
    lemma_le_u32_round_trip(small);
    lemma_le_u64_round_trip(large);
    if offset + 4 <= m.data.len() {
        assert(m.with_data(offset, le_bytes_u32(small)).data.subrange(offset, offset + 4)
            =~= le_bytes_u32(small));
    }
    if offset + 8 <= m.data.len() {
        assert(m.with_data(offset, le_bytes_u64(large)).data.subrange(offset, offset + 8)
            =~= le_bytes_u64(large));
    }
}

impl Memory {
    /// Whether a memory of this type can be made on this machine.
    pub fn is_addressable(mem_type: MemType) -> (r: bool)
        ensures
            r == addressable(mem_type),
    {
        mem_type.min as u64 * PAGE_SIZE as u64 <= usize::MAX as u64
    }

    /// A memory of `min` pages, every byte zero.
    pub fn new(mem_type: MemType) -> (r: Self)
        requires
            addressable(mem_type),
        ensures
            r@ == MemoryView::fresh(mem_type),
    {
        let size: usize = mem_type.min as usize * PAGE_SIZE;
        let data: Vec<u8> = vec![0u8; size];
        assert(data@ =~= Seq::new(size as nat, |i: int| 0u8));
        Memory { mem_type, data }
    }

    /// The size in whole pages.
    pub fn size_pages(&self) -> (n: usize)
        ensures
            n == self@.pages(),
    {
        self.data.len() / PAGE_SIZE
    }

    /// Copies `bytes` into the memory from `offset` on. A write that does
    /// not fit in the memory traps and leaves the memory as it was.
    pub fn set_data(&mut self, offset: usize, bytes: &Vec<u8>) -> (r: Result<(), Error>)
        ensures
            offset + bytes@.len() <= old(self)@.data.len() ==> r is Ok,
            offset + bytes@.len() <= old(self)@.data.len() ==> final(self)@
                == old(self)@.with_data(offset as int, bytes@),
            offset + bytes@.len() > old(self)@.data.len() ==> r == Err::<(), Error>(
                Error::Trap(Trap::MemoryOutOfBounds),
            ) && final(self)@ == old(self)@,
    {
        if offset > self.data.len() || bytes.len() > self.data.len() - offset {
            return Err(Error::Trap(Trap::MemoryOutOfBounds));
        }
        let mut i: usize = 0;
        while i < bytes.len()
            invariant
                i <= bytes@.len(),
                offset + bytes@.len() <= self.data@.len() <= usize::MAX,
                self.mem_type == old(self).mem_type,
                self.data@.len() == old(self).data@.len(),
                self@ == old(self)@.with_data(offset as int, bytes@.subrange(0, i as int)),
            decreases bytes@.len() - i,
        {
            self.data.set(offset + i, bytes[i]);
            i += 1;
        }
        assert(bytes@.subrange(0, bytes@.len() as int) =~= bytes@);
        Ok(())
    }

    /// Grows the memory by `delta_pages` pages of zeros and returns the
    /// size before, in pages; or leaves it as it is where it cannot grow.
    pub fn grow(&mut self, delta_pages: u32) -> (r: Option<usize>)
        ensures
            old(self)@.can_grow(delta_pages) ==> r == Some(old(self)@.pages() as usize),
            old(self)@.can_grow(delta_pages) ==> final(self)@ == old(self)@.grown(delta_pages),
            !old(self)@.can_grow(delta_pages) ==> r is None && final(self)@ == old(self)@,
    {
        let pages = self.data.len() / PAGE_SIZE;
        let delta = delta_pages as usize;
        if pages > MAX_PAGES as usize || delta > MAX_PAGES as usize - pages {
            return None;
        }
        match self.mem_type.max {
            Some(max) => {
                if pages + delta > max as usize {
                    return None;
                }
            },
            None => {},
        }
        let wanted: u64 = delta_pages as u64 * PAGE_SIZE as u64;
        if wanted > (usize::MAX - self.data.len()) as u64 {
            return None;
        }
        let more: usize = wanted as usize;
        let ghost before = self.data@;
        let size = self.data.len() + more;
        self.data.resize(size, 0u8);
        assert(self.data@ =~= before + Seq::new(more as nat, |i: int| 0u8));
        Some(pages)
    }

    /// The four bytes at `offset` as a number, least significant first.
    pub fn load_u32(&self, offset: usize) -> (r: Result<u32, Error>)
        ensures
            offset + 4 <= self@.data.len() ==> r == Ok::<u32, Error>(
                le_value_u32(self@.data.subrange(offset as int, offset + 4)),
            ),
            offset + 4 > self@.data.len() ==> r == Err::<u32, Error>(
                Error::Trap(Trap::MemoryOutOfBounds),
            ),
    {
        if offset > self.data.len() || 4 > self.data.len() - offset {
            return Err(Error::Trap(Trap::MemoryOutOfBounds));
        }
        let b0 = self.data[offset] as u32;
        let b1 = self.data[offset + 1] as u32;
        let b2 = self.data[offset + 2] as u32;
        let b3 = self.data[offset + 3] as u32;
        Ok(b0 + 0x100 * b1 + 0x1_0000 * b2 + 0x100_0000 * b3)
    }

    /// Writes the four bytes of `value` at `offset`, least significant
    /// first.
    pub fn store_u32(&mut self, offset: usize, value: u32) -> (r: Result<(), Error>)
        ensures
            offset + 4 <= old(self)@.data.len() ==> r is Ok,
            offset + 4 <= old(self)@.data.len() ==> final(self)@ == old(self)@.with_data(
                offset as int,
                le_bytes_u32(value),
            ),
            offset + 4 > old(self)@.data.len() ==> r == Err::<(), Error>(
                Error::Trap(Trap::MemoryOutOfBounds),
            ) && final(self)@ == old(self)@,
    {
        let mut bytes: Vec<u8> = Vec::new();
        bytes.push((value % 0x100) as u8);
        bytes.push((value / 0x100 % 0x100) as u8);
        bytes.push((value / 0x1_0000 % 0x100) as u8);
        bytes.push((value / 0x100_0000) as u8);
        assert(bytes@ =~= le_bytes_u32(value));
        self.set_data(offset, &bytes)
    }

    /// The eight bytes at `offset` as a number, least significant first.
    pub fn load_u64(&self, offset: usize) -> (r: Result<u64, Error>)
        ensures
            offset + 8 <= self@.data.len() ==> r == Ok::<u64, Error>(
                le_value_u64(self@.data.subrange(offset as int, offset + 8)),
            ),
            offset + 8 > self@.data.len() ==> r == Err::<u64, Error>(
                Error::Trap(Trap::MemoryOutOfBounds),
            ),
    {
        if offset > self.data.len() || 8 > self.data.len() - offset {
            return Err(Error::Trap(Trap::MemoryOutOfBounds));
        }
        let ghost whole = self@.data.subrange(offset as int, offset + 8);
        assert(whole.subrange(0, 4) =~= self@.data.subrange(offset as int, offset + 4));
        assert(whole.subrange(4, 8) =~= self@.data.subrange(offset + 4, offset + 8));
        let low = self.load_u32(offset)?;
        let high = self.load_u32(offset + 4)?;
        Ok(low as u64 + 0x1_0000_0000 * (high as u64))
    }

    /// Writes the eight bytes of `value` at `offset`, least significant
    /// first.
    pub fn store_u64(&mut self, offset: usize, value: u64) -> (r: Result<(), Error>)
        ensures
            offset + 8 <= old(self)@.data.len() ==> r is Ok,
            offset + 8 <= old(self)@.data.len() ==> final(self)@ == old(self)@.with_data(
                offset as int,
                le_bytes_u64(value),
            ),
            offset + 8 > old(self)@.data.len() ==> r == Err::<(), Error>(
                Error::Trap(Trap::MemoryOutOfBounds),
            ) && final(self)@ == old(self)@,
    {
        let low = (value % 0x1_0000_0000) as u32;
        let high = (value / 0x1_0000_0000) as u32;
        let mut bytes: Vec<u8> = Vec::new();
        bytes.push((low % 0x100) as u8);
        bytes.push((low / 0x100 % 0x100) as u8);
        bytes.push((low / 0x1_0000 % 0x100) as u8);
        bytes.push((low / 0x100_0000) as u8);
        bytes.push((high % 0x100) as u8);
        bytes.push((high / 0x100 % 0x100) as u8);
        bytes.push((high / 0x1_0000 % 0x100) as u8);
        bytes.push((high / 0x100_0000) as u8);
        assert(bytes@ =~= le_bytes_u64(value));
        self.set_data(offset, &bytes)
    }

    /// The value of a kind at `offset`, or a trap where the memory ends
    /// before its last byte.
    pub fn load(&self, offset: usize, val_type: ValType) -> (r: Result<StackEntry, Error>)
        ensures
            offset + width(val_type) <= self@.data.len() ==> r == Ok::<StackEntry, Error>(
                entry_of(val_type, self@.data.subrange(offset as int, offset + width(val_type))),
            ),
            offset + width(val_type) > self@.data.len() ==> r == Err::<StackEntry, Error>(
                Error::Trap(Trap::MemoryOutOfBounds),
            ),
    {
        match val_type {
            ValType::I32 => {
                let u = self.load_u32(offset)?;
                let i = if u < 0x8000_0000 {
                    u as i32
                } else {
                    (u as i64 - 0x1_0000_0000) as i32
                };
                Ok(StackEntry::I32Entry(i))
            },
            ValType::I64 => {
                let u = self.load_u64(offset)?;
                let i = if u < 0x8000_0000_0000_0000 {
                    u as i64
                } else {
                    (u as i128 - 0x1_0000_0000_0000_0000) as i64
                };
                Ok(StackEntry::I64Entry(i))
            },
            ValType::F32 => Ok(StackEntry::F32Entry(self.load_u32(offset)?)),
            ValType::F64 => Ok(StackEntry::F64Entry(self.load_u64(offset)?)),
        }
    }

    /// Writes a value at `offset`, or traps where the memory ends before
    /// its last byte and leaves the memory as it was.
    pub fn store(&mut self, offset: usize, entry: StackEntry) -> (r: Result<(), Error>)
        ensures
            offset + width(entry.kind()) <= old(self)@.data.len() ==> r is Ok,
            offset + width(entry.kind()) <= old(self)@.data.len() ==> final(self)@
                == old(self)@.with_data(offset as int, entry_bytes(entry)),
            offset + width(entry.kind()) > old(self)@.data.len() ==> r == Err::<(), Error>(
                Error::Trap(Trap::MemoryOutOfBounds),
            ) && final(self)@ == old(self)@,
    {
        match entry {
            StackEntry::I32Entry(i) => {
                let u = if i >= 0 {
                    i as u32
                } else {
                    (i as i64 + 0x1_0000_0000) as u32
                };
                self.store_u32(offset, u)
            },
            StackEntry::I64Entry(i) => {
                let u = if i >= 0 {
                    i as u64
                } else {
                    (i as i128 + 0x1_0000_0000_0000_0000) as u64
                };
                self.store_u64(offset, u)
            },
            StackEntry::F32Entry(bits) => self.store_u32(offset, bits),
            StackEntry::F64Entry(bits) => self.store_u64(offset, bits),
        }
    }

    /// The `len` bytes from `offset` on, or a trap where the memory ends
    /// before them.
    pub fn read(&self, offset: usize, len: usize) -> (r: Result<Vec<u8>, Error>)
        ensures
            offset + len <= self@.data.len() ==> (r matches Ok(v) && v@ == self@.data.subrange(
                offset as int,
                offset + len,
            )),
            offset + len > self@.data.len() ==> (r matches Err(e) && e == Error::Trap(
                Trap::MemoryOutOfBounds,
            )),
    {
        if offset > self.data.len() || len > self.data.len() - offset {
            return Err(Error::Trap(Trap::MemoryOutOfBounds));
        }
        let part = vstd::slice::slice_subrange(self.data.as_slice(), offset, offset + len);
        Ok(vstd::slice::slice_to_vec(part))
    }
}

/// A function that the host supplies; `id` is the host's name for it.
#[derive(Debug, PartialEq, Eq)]
pub struct HostCallable {
    pub func_type: FuncType,
    pub id: u64,
}

/// A function defined in a module: its signature and its body.
#[derive(Debug, PartialEq, Eq)]
pub struct WasmExprCallable {
    pub func_type: FuncType,
    pub func: Func,
}

impl WasmExprCallable {
    /// A callable of the given signature and body.
    pub fn new(func_type: FuncType, func: Func) -> (r: Self)
        ensures
            r.func_type == func_type,
            r.func == func,
    {
        WasmExprCallable { func_type, func }
    }
}

/// Something that can be called through the store.
#[derive(Debug, PartialEq, Eq)]
pub enum Callable {
    Host(HostCallable),
    Wasm(WasmExprCallable),
}

/// The mathematical value of a `Callable`.
#[verifier::ext_equal]
pub enum CallableView {
    Host { func_type: FuncTypeView, id: u64 },
    Wasm { func_type: FuncTypeView, func: FuncView },
}

impl View for Callable {
    type V = CallableView;

    open spec fn view(&self) -> CallableView {
        match self {
            Callable::Host(h) => CallableView::Host { func_type: h.func_type@, id: h.id },
            Callable::Wasm(w) => CallableView::Wasm { func_type: w.func_type@, func: w.func@ },
        }
    }
}

impl DeepView for Callable {
    type V = CallableView;

    open spec fn deep_view(&self) -> CallableView {
        self@
    }
}

impl CallableView {
    /// The signature of the callable.
    pub open spec fn signature(self) -> FuncTypeView {
        match self {
            CallableView::Host { func_type, .. } => func_type,
            CallableView::Wasm { func_type, .. } => func_type,
        }
    }
}

impl Callable {
    /// The signature of the callable.
    pub fn func_type(&self) -> (t: &FuncType)
        ensures
            t@ == self@.signature(),
    {
        match self {
            Callable::Host(h) => &h.func_type,
            Callable::Wasm(w) => &w.func_type,
        }
    }
}

} // verus!
