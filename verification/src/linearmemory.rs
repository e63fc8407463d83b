//! Flat tables for registers and word-addressed memory, and the memory that combines them.
use vstd::prelude::*;

use crate::register::NUM_REGISTERS;

verus! {

/// The size of the guest's address space in bytes.
pub const MAX_MEMORY: usize = 0x1000_0000;

/// The number of words in the guest's address space.
pub const MAX_WORD_COUNT: usize = MAX_MEMORY / 4;

/// The number of occupied slots of a table.
pub open spec fn count_some<T>(s: Seq<Option<T>>) -> nat
    decreases s.len(),
{
    if s.len() == 0 {
        0
    } else {
        count_some(s.drop_last()) + if s.last() is Some { 1nat } else { 0nat }
    }
}

/// The byte addresses of the occupied slots of a word table, in increasing slot order.
pub open spec fn occupied_addresses<T>(s: Seq<Option<T>>) -> Seq<u32>
    decreases s.len(),
{
    if s.len() == 0 {
        Seq::empty()
    } else {
        let rest = occupied_addresses(s.drop_last());
        if s.last() is Some {
            rest.push((((s.len() - 1) * 4) % 0x1_0000_0000) as u32)
        } else {
            rest
        }
    }
}

/// Fills a table with `n` empty slots.
fn empty_table<T>(n: usize) -> (r: Vec<Option<T>>)
    ensures
        r@.len() == n,
        forall|i: int| 0 <= i < n ==> r@[i] is None,
{
    let mut v: Vec<Option<T>> = Vec::with_capacity(n);
    let mut i: usize = 0;
    while i < n
        invariant
            i <= n,
            v@.len() == i,
            forall|j: int| 0 <= j < i ==> v@[j] is None,
        decreases n - i,
    {
        v.push(None);
        i = i + 1;
    }
    v
}

/// Empties every slot of a table.
fn clear_table<T>(v: &mut Vec<Option<T>>)
    ensures
        final(v)@.len() == old(v)@.len(),
        forall|i: int| 0 <= i < final(v)@.len() ==> final(v)@[i] is None,
{
    let mut i: usize = 0;
    let n = v.len();
    while i < n
        invariant
            i <= n,
            v@.len() == n,
            forall|j: int| 0 <= j < i ==> v@[j] is None,
        decreases n - i,
    {
        v.set(i, None);
        i = i + 1;
    }
}

/// An array of `NUM_REGISTERS` register slots.
pub struct Registers<T: Copy> {
    pub registers: Vec<Option<T>>,
}

impl<T: Copy> View for Registers<T> {
    type V = Seq<Option<T>>;

    open spec fn view(&self) -> Seq<Option<T>> {
        self.registers@
    }
}

impl<T: Copy> Default for Registers<T> {
    /// All registers empty.
    fn default() -> (r: Self)
        ensures
            r@.len() == NUM_REGISTERS,
            forall|i: int| 0 <= i < NUM_REGISTERS ==> r@[i] is None,
    {
        Registers { registers: empty_table(NUM_REGISTERS) }
    }
}

impl<T: Copy> Registers<T> {

    /// Sets the register at `addr` to `value` unless it already holds a value.
    pub fn or_insert(&mut self, addr: u32, value: T)
        requires
            addr < old(self)@.len(),
        ensures
            final(self)@ == (if old(self)@[addr as int] is None {
                old(self)@.update(addr as int, Some(value))
            } else {
                old(self)@
            }),
    {
        let idx = addr as usize;
        if self.registers[idx].is_none() {
            self.registers.set(idx, Some(value));
        }
    }

    /// Inserts a value into the registers, returning the previous one.
    pub fn insert(&mut self, addr: u32, value: T) -> (r: Option<T>)
        requires
            addr < old(self)@.len(),
        ensures
            r == old(self)@[addr as int],
            final(self)@ == old(self)@.update(addr as int, Some(value)),
    {
        let idx = addr as usize;
        let prev = self.registers[idx];
        self.registers.set(idx, Some(value));
        prev
    }

    /// Inserts a value and returns a mutable reference to it.
    pub fn insert_mut(&mut self, addr: u32, value: T) -> (r: &mut T)
        requires
            addr < old(self)@.len(),
        ensures
            *r == value,
            final(self)@ == old(self)@.update(addr as int, Some(*final(r))),
    {
        let idx = addr as usize;
        self.registers.set(idx, Some(value));
        self.registers[idx].as_mut().unwrap()
    }

    /// Removes a value from the registers, returning it.
    pub fn remove(&mut self, addr: u32) -> (r: Option<T>)
        requires
            addr < old(self)@.len(),
        ensures
            r == old(self)@[addr as int],
            final(self)@ == old(self)@.update(addr as int, None),
    {
        let idx = addr as usize;
        let prev = self.registers[idx];
        self.registers.set(idx, None);
        prev
    }

    /// The value at the given address, if there is one.
    pub fn get(&self, addr: u32) -> (r: Option<&T>)
        requires
            addr < self@.len(),
        ensures
            match r {
                Some(v) => self@[addr as int] == Some(*v),
                None => self@[addr as int] is None,
            },
    {
        self.registers[addr as usize].as_ref()
    }

    /// A mutable reference to the value at the given address, if there is one.
    pub fn get_mut(&mut self, addr: u32) -> (r: Option<&mut T>)
        requires
            addr < old(self)@.len(),
        ensures
            match r {
                Some(v) => old(self)@[addr as int] == Some(*v) && final(self)@ == old(self)@.update(
                    addr as int,
                    Some(*final(v)),
                ),
                None => old(self)@[addr as int] is None && final(self)@ == old(self)@,
            },
    {
        self.registers[addr as usize].as_mut()
    }

    /// Empties all registers.
    pub fn clear(&mut self)
        ensures
            final(self)@.len() == old(self)@.len(),
            forall|i: int| 0 <= i < final(self)@.len() ==> final(self)@[i] is None,
    {
        clear_table(&mut self.registers);
    }
}

/// Word-addressed memory: one slot per aligned word, indexed by `addr / 4`.
pub struct WordMemory<V: Copy> {
    pub unit_table: Vec<Option<V>>,
}

impl<V: Copy> View for WordMemory<V> {
    type V = Seq<Option<V>>;

    open spec fn view(&self) -> Seq<Option<V>> {
        self.unit_table@
    }
}

/// The slot of the word that holds byte address `addr`.
pub open spec fn word_slot(addr: u32) -> int {
    addr as int / 4
}

impl<V: Copy> Default for WordMemory<V> {
    /// A table with `MAX_WORD_COUNT` empty slots.
    fn default() -> (r: Self)
        ensures
            r@.len() == MAX_WORD_COUNT,
            forall|i: int| 0 <= i < MAX_WORD_COUNT ==> r@[i] is None,
    {
        WordMemory { unit_table: empty_table(MAX_WORD_COUNT) }
    }
}

impl<V: Copy> WordMemory<V> {
    /// A table with `MAX_WORD_COUNT` empty slots.
    pub fn new_preallocated() -> (r: Self)
        ensures
            r@.len() == MAX_WORD_COUNT,
            forall|i: int| 0 <= i < MAX_WORD_COUNT ==> r@[i] is None,
    {
        WordMemory { unit_table: empty_table(MAX_WORD_COUNT) }
    }

    /// The value of the word holding `addr`, if there is one.
    pub fn get(&self, addr: u32) -> (r: Option<&V>)
        requires
            word_slot(addr) < self@.len(),
        ensures
            match r {
                Some(v) => self@[word_slot(addr)] == Some(*v),
                None => self@[word_slot(addr)] is None,
            },
    {
        self.unit_table[(addr / 4) as usize].as_ref()
    }

    /// A mutable reference to the word holding `addr`, if there is one.
    pub fn get_mut(&mut self, addr: u32) -> (r: Option<&mut V>)
        requires
            word_slot(addr) < old(self)@.len(),
        ensures
            match r {
                Some(v) => old(self)@[word_slot(addr)] == Some(*v) && final(self)@ == old(self)@.update(
                    word_slot(addr),
                    Some(*final(v)),
                ),
                None => old(self)@[word_slot(addr)] is None && final(self)@ == old(self)@,
            },
    {
        self.unit_table[(addr / 4) as usize].as_mut()
    }

    /// Sets the word holding `addr`, returning its previous value.
    pub fn insert(&mut self, addr: u32, value: V) -> (r: Option<V>)
        requires
            word_slot(addr) < old(self)@.len(),
        ensures
            r == old(self)@[word_slot(addr)],
            final(self)@ == old(self)@.update(word_slot(addr), Some(value)),
    {
        let idx = (addr / 4) as usize;
        let prev = self.unit_table[idx];
        self.unit_table.set(idx, Some(value));
        prev
    }

    /// Sets the word holding `addr` to `value`. Returns the previous value, if any.
    pub fn insert_mut(&mut self, addr: u32, value: V) -> (r: Option<V>)
        requires
            word_slot(addr) < old(self)@.len(),
        ensures
            r == old(self)@[word_slot(addr)],
            final(self)@ == old(self)@.update(word_slot(addr), Some(value)),
    {
        let idx = (addr / 4) as usize;
        let prev = self.unit_table[idx];
        self.unit_table.set(idx, Some(value));
        prev
    }

    /// Empties the word holding `addr`, returning its previous value.
    pub fn remove(&mut self, addr: u32) -> (r: Option<V>)
        requires
            word_slot(addr) < old(self)@.len(),
        ensures
            r == old(self)@[word_slot(addr)],
            final(self)@ == old(self)@.update(word_slot(addr), None),
    {
        let idx = (addr / 4) as usize;
        let prev = self.unit_table[idx];
        self.unit_table.set(idx, None);
        prev
    }

    /// Sets the word holding `addr` unless it already holds a value.
    pub fn or_insert(&mut self, addr: u32, value: V)
        requires
            word_slot(addr) < old(self)@.len(),
        ensures
            final(self)@ == (if old(self)@[word_slot(addr)] is None {
                old(self)@.update(word_slot(addr), Some(value))
            } else {
                old(self)@
            }),
    {
        let idx = (addr / 4) as usize;
        if self.unit_table[idx].is_none() {
            self.unit_table.set(idx, Some(value));
        }
    }

    /// The byte addresses of the occupied words, in increasing order.
    pub fn keys(&self) -> (r: Vec<u32>)
        ensures
            r@ == occupied_addresses(self@),
    {
        let mut keys: Vec<u32> = Vec::new();
        let n = self.unit_table.len();
        let mut i: usize = 0;
        while i < n
            invariant
                i <= n,
                n == self@.len(),
                keys@ == occupied_addresses(self@.take(i as int)),
            decreases n - i,
        {
            assert(self@.take(i + 1).drop_last() =~= self@.take(i as int));
            if self.unit_table[i].is_some() {
                let k = ((i % 0x4000_0000) * 4) as u32;
                assert(k == (((i as int) * 4) % 0x1_0000_0000) as u32) by (nonlinear_arith)
                    requires
                        k == (((i as int) % 0x4000_0000) * 4),
                ;
                keys.push(k);
            }
            i = i + 1;
        }
        assert(self@.take(n as int) =~= self@);
        keys
    }

    /// The exact number of occupied words.
    pub fn exact_len(&self) -> (r: usize)
        ensures
            r == count_some(self@),
    {
        let n = self.unit_table.len();
        let mut count: usize = 0;
        let mut i: usize = 0;
        while i < n
            invariant
                i <= n,
                n == self@.len(),
                count == count_some(self@.take(i as int)),
                count <= i,
            decreases n - i,
        {
            assert(self@.take(i + 1).drop_last() =~= self@.take(i as int));
            if self.unit_table[i].is_some() {
                count = count + 1;
            }
            i = i + 1;
        }
        assert(self@.take(n as int) =~= self@);
        count
    }

    /// The number of occupied words (computed exactly).
    pub fn estimate_len(&self) -> (r: usize)
        ensures
            r == count_some(self@),
    {
        self.exact_len()
    }

    /// Empties every word.
    pub fn clear(&mut self)
        ensures
            final(self)@.len() == old(self)@.len(),
            forall|i: int| 0 <= i < final(self)@.len() ==> final(self)@[i] is None,
    {
        clear_table(&mut self.unit_table);
    }
}

/// Registers and word memory together: addresses below `NUM_REGISTERS` are registers, the
/// others are memory words.
pub struct Memory<T: Copy> {
    pub registers: Registers<T>,
    pub unit_table: WordMemory<T>,
}

/// Whether `addr` is in range of the tables of a memory.
pub open spec fn addressable<T: Copy>(m: Memory<T>, addr: u32) -> bool {
    if addr < NUM_REGISTERS {
        addr < m.registers@.len()
    } else {
        word_slot(addr) < m.unit_table@.len()
    }
}

impl<T: Copy + Default> Default for Memory<T> {
    /// A memory with empty registers and an empty word table.
    fn default() -> (r: Self)
        ensures
            r.registers@.len() == NUM_REGISTERS,
            r.unit_table@.len() == MAX_WORD_COUNT,
            forall|a: u32| addressable(r, a) ==> r.spec_get(a) is None,
    {
        Memory { registers: Registers::default(), unit_table: WordMemory::default() }
    }
}

impl<T: Copy> Memory<T> {
    /// The value a memory holds at `addr`.
    pub open spec fn spec_get(self, addr: u32) -> Option<T> {
        if addr < NUM_REGISTERS {
            self.registers@[addr as int]
        } else {
            self.unit_table@[word_slot(addr)]
        }
    }

    /// Whether two addresses name the same slot.
    pub open spec fn same_slot(a: u32, b: u32) -> bool {
        if a < NUM_REGISTERS || b < NUM_REGISTERS {
            a == b
        } else {
            word_slot(a) == word_slot(b)
        }
    }

    /// A memory with empty registers and a preallocated, empty word table.
    pub fn new_preallocated() -> (r: Self)
        ensures
            r.registers@.len() == NUM_REGISTERS,
            r.unit_table@.len() == MAX_WORD_COUNT,
            forall|a: u32| addressable(r, a) ==> r.spec_get(a) is None,
    {
        Memory { registers: Registers::default(), unit_table: WordMemory::new_preallocated() }
    }

    /// Inserts a value into the memory, returning the previous one.
    pub fn insert(&mut self, addr: u32, value: T) -> (r: Option<T>)
        requires
            addressable(*old(self), addr),
        ensures
            r == old(self).spec_get(addr),
            final(self).registers@.len() == old(self).registers@.len(),
            final(self).unit_table@.len() == old(self).unit_table@.len(),
            final(self).spec_get(addr) == Some(value),
            forall|a: u32| addressable(*old(self), a) && !Self::same_slot(a, addr) ==> #[trigger] final(self).spec_get(a) == old(self).spec_get(a),
    {
        if addr < NUM_REGISTERS as u32 {
            self.registers.insert(addr, value)
        } else {
            self.unit_table.insert(addr, value)
        }
    }

    /// The value at `addr`, if there is one.
    pub fn get(&self, addr: u32) -> (r: Option<&T>)
        requires
            addressable(*self, addr),
        ensures
            match r {
                Some(v) => self.spec_get(addr) == Some(*v),
                None => self.spec_get(addr) is None,
            },
    {
        if addr < NUM_REGISTERS as u32 {
            self.registers.get(addr)
        } else {
            self.unit_table.get(addr)
        }
    }

    /// Removes the value at `addr`, returning it.
    pub fn remove(&mut self, addr: u32) -> (r: Option<T>)
        requires
            addressable(*old(self), addr),
        ensures
            r == old(self).spec_get(addr),
            final(self).registers@.len() == old(self).registers@.len(),
            final(self).unit_table@.len() == old(self).unit_table@.len(),
            final(self).spec_get(addr) is None,
            forall|a: u32| addressable(*old(self), a) && !Self::same_slot(a, addr) ==> #[trigger] final(self).spec_get(a) == old(self).spec_get(a),
    {
        if addr < NUM_REGISTERS as u32 {
            self.registers.remove(addr)
        } else {
            self.unit_table.remove(addr)
        }
    }

    /// Empties the registers and the memory words.
    pub fn clear(&mut self)
        ensures
            final(self).registers@.len() == old(self).registers@.len(),
            final(self).unit_table@.len() == old(self).unit_table@.len(),
            forall|a: u32| addressable(*final(self), a) ==> final(self).spec_get(a) is None,
    {
        self.registers.clear();
        self.unit_table.clear();
    }
}

} // verus!

verus! {

/// An operation that changes a memory.
pub enum MemoryOp<T> {
    Insert(u32, T),
    Remove(u32),
    Clear,
}

/// Whether `op` changes the slot of `addr`.
pub open spec fn touches<T: Copy>(op: MemoryOp<T>, addr: u32) -> bool {
    match op {
        MemoryOp::Insert(a, _) => Memory::<T>::same_slot(a, addr),
        MemoryOp::Remove(a) => Memory::<T>::same_slot(a, addr),
        MemoryOp::Clear => true,
    }
}

/// Whether `m1` is what `op` makes of `m0`, as `Memory::insert`, `Memory::remove` and
/// `Memory::clear` state it.
pub open spec fn op_step<T: Copy>(m0: Memory<T>, op: MemoryOp<T>, m1: Memory<T>) -> bool {
    &&& m1.registers@.len() == m0.registers@.len()
    &&& m1.unit_table@.len() == m0.unit_table@.len()
    &&& match op {
        MemoryOp::Insert(a, v) => {
            &&& addressable(m0, a)
            &&& m1.spec_get(a) == Some(v)
            &&& forall|b: u32| addressable(m0, b) && !Memory::<T>::same_slot(b, a) ==> #[trigger] m1.spec_get(b) == m0.spec_get(b)
        },
        MemoryOp::Remove(a) => {
            &&& addressable(m0, a)
            &&& m1.spec_get(a) is None
            &&& forall|b: u32| addressable(m0, b) && !Memory::<T>::same_slot(b, a) ==> #[trigger] m1.spec_get(b) == m0.spec_get(b)
        },
        MemoryOp::Clear => forall|b: u32| addressable(m1, b) ==> m1.spec_get(b) is None,
    }
}

/// Whether `ms` are the memories a run of `ops` goes through.
pub open spec fn op_run<T: Copy>(ms: Seq<Memory<T>>, ops: Seq<MemoryOp<T>>) -> bool {
    &&& ms.len() == ops.len() + 1
    &&& forall|i: int| 0 <= i < ops.len() ==> op_step(#[trigger] ms[i], ops[i], ms[i + 1])
}

/// Operations that leave the slot of an address alone leave its value as it was.
pub proof fn lemma_untouched_slot_kept<T: Copy>(ms: Seq<Memory<T>>, ops: Seq<MemoryOp<T>>, addr: u32)
    requires
        op_run(ms, ops),
        addressable(ms[0], addr),
        forall|i: int| 0 <= i < ops.len() ==> !touches(#[trigger] ops[i], addr),
    ensures
        addressable(ms.last(), addr),
        ms.last().spec_get(addr) == ms[0].spec_get(addr),
    decreases ops.len(),
{
    if ops.len() > 0 {
        let n = ops.len() - 1;
        lemma_untouched_slot_kept(ms.drop_last(), ops.drop_last(), addr);
        assert(op_step(ms[n], ops[n], ms[n + 1]));
        assert(!touches(ops[n], addr));
        assert(ms.drop_last().last() == ms[n]);
    }
}

/// A value inserted at an address is read back after any operations that leave its slot
/// alone.
pub proof fn lemma_get_after_insert<T: Copy>(ms: Seq<Memory<T>>, ops: Seq<MemoryOp<T>>, addr: u32, value: T)
    requires
        op_run(ms, ops),
        ops.len() >= 1,
        ops[0] == MemoryOp::Insert(addr, value),
        forall|i: int| 1 <= i < ops.len() ==> !touches(#[trigger] ops[i], addr),
    ensures
        ms.last().spec_get(addr) == Some(value),
{
    assert(op_step(ms[0], ops[0], ms[1]));
    let rest_ms = ms.subrange(1, ms.len() as int);
    let rest_ops = ops.subrange(1, ops.len() as int);
    assert forall|i: int| 0 <= i < rest_ops.len() implies op_step(#[trigger] rest_ms[i], rest_ops[i], rest_ms[i + 1]) by {
        assert(op_step(ms[i + 1], ops[i + 1], ms[i + 2]));
    }
    assert forall|i: int| 0 <= i < rest_ops.len() implies !touches(#[trigger] rest_ops[i], addr) by {
        assert(!touches(ops[i + 1], addr));
    }
    lemma_untouched_slot_kept(rest_ms, rest_ops, addr);
}

/// A value inserted at an address, followed by operations that leave its slot alone, is what
/// removing the address returns (`Memory::remove` returns the value before); afterwards the
/// slot is empty.
pub proof fn lemma_remove_after_insert<T: Copy>(ms: Seq<Memory<T>>, ops: Seq<MemoryOp<T>>, addr: u32, value: T)
    requires
        op_run(ms, ops),
        ops.len() >= 2,
        ops[0] == MemoryOp::Insert(addr, value),
        ops.last() == MemoryOp::<T>::Remove(addr),
        forall|i: int| 1 <= i < ops.len() - 1 ==> !touches(#[trigger] ops[i], addr),
    ensures
        ms[ops.len() - 1].spec_get(addr) == Some(value),
        ms.last().spec_get(addr) is None,
{
    let n = ops.len() - 1;
    let pre_ms = ms.subrange(0, n + 1);
    let pre_ops = ops.subrange(0, n);
    assert forall|i: int| 0 <= i < pre_ops.len() implies op_step(#[trigger] pre_ms[i], pre_ops[i], pre_ms[i + 1]) by {
        assert(op_step(ms[i], ops[i], ms[i + 1]));
    }
    assert forall|i: int| 1 <= i < pre_ops.len() implies !touches(#[trigger] pre_ops[i], addr) by {
        assert(!touches(ops[i], addr));
    }
    lemma_get_after_insert(pre_ms, pre_ops, addr, value);
    assert(op_step(ms[n], ops[n], ms[n + 1]));
}

} // verus!

verus! {

/// Whether `op` changes the word slot of `addr` in a word table.
pub open spec fn touches_word<V>(op: MemoryOp<V>, addr: u32) -> bool {
    match op {
        MemoryOp::Insert(a, _) => word_slot(a) == word_slot(addr),
        MemoryOp::Remove(a) => word_slot(a) == word_slot(addr),
        MemoryOp::Clear => true,
    }
}

/// Whether the word table `w1` is what `op` makes of `w0`, as `WordMemory::insert`,
/// `WordMemory::remove` and `WordMemory::clear` state it.
pub open spec fn word_step<V>(w0: Seq<Option<V>>, op: MemoryOp<V>, w1: Seq<Option<V>>) -> bool {
    match op {
        MemoryOp::Insert(a, v) => word_slot(a) < w0.len() && w1 == w0.update(word_slot(a), Some(v)),
        MemoryOp::Remove(a) => word_slot(a) < w0.len() && w1 == w0.update(word_slot(a), None),
        MemoryOp::Clear => w1.len() == w0.len() && forall|i: int| 0 <= i < w1.len() ==> w1[i] is None,
    }
}

/// Whether the word tables `ws` are those a run of `ops` goes through.
pub open spec fn word_run<V>(ws: Seq<Seq<Option<V>>>, ops: Seq<MemoryOp<V>>) -> bool {
    &&& ws.len() == ops.len() + 1
    &&& forall|i: int| 0 <= i < ops.len() ==> word_step(#[trigger] ws[i], ops[i], ws[i + 1])
}

/// In a word table, operations that leave the slot of an address alone leave its value and the
/// table's size as they were.
pub proof fn lemma_word_untouched_slot_kept<V>(ws: Seq<Seq<Option<V>>>, ops: Seq<MemoryOp<V>>, addr: u32)
    requires
        word_run(ws, ops),
        word_slot(addr) < ws[0].len(),
        forall|i: int| 0 <= i < ops.len() ==> !touches_word(#[trigger] ops[i], addr),
    ensures
        ws.last().len() == ws[0].len(),
        ws.last()[word_slot(addr)] == ws[0][word_slot(addr)],
    decreases ops.len(),
{
    if ops.len() > 0 {
        let n = ops.len() - 1;
        lemma_word_untouched_slot_kept(ws.drop_last(), ops.drop_last(), addr);
        assert(word_step(ws[n], ops[n], ws[n + 1]));
        assert(!touches_word(ops[n], addr));
        assert(ws.drop_last().last() == ws[n]);
    }
}

/// In a word table, a value inserted at an address and followed by operations that leave its
/// slot alone is what removing the address returns (`WordMemory::remove` returns the slot's
/// value before); afterwards the slot is empty, and removing again returns nothing.
pub proof fn lemma_word_remove_after_insert<V>(ws: Seq<Seq<Option<V>>>, ops: Seq<MemoryOp<V>>, addr: u32, value: V)
    requires
        word_run(ws, ops),
        ops.len() >= 2,
        ops[0] == MemoryOp::Insert(addr, value),
        ops.last() == MemoryOp::<V>::Remove(addr),
        forall|i: int| 1 <= i < ops.len() - 1 ==> !touches_word(#[trigger] ops[i], addr),
    ensures
        ws[ops.len() - 1][word_slot(addr)] == Some(value),
        ws.last()[word_slot(addr)] is None,
{
    let n = ops.len() - 1;
    assert(word_step(ws[0], ops[0], ws[1]));
    let mid_ws = ws.subrange(1, n + 1);
    let mid_ops = ops.subrange(1, n);
    assert forall|i: int| 0 <= i < mid_ops.len() implies word_step(#[trigger] mid_ws[i], mid_ops[i], mid_ws[i + 1]) by {
        assert(word_step(ws[i + 1], ops[i + 1], ws[i + 2]));
    }
    assert forall|i: int| 0 <= i < mid_ops.len() implies !touches_word(#[trigger] mid_ops[i], addr) by {
        assert(!touches_word(ops[i + 1], addr));
    }
    lemma_word_untouched_slot_kept(mid_ws, mid_ops, addr);
    assert(mid_ws.last() == ws[n]);
    assert(word_step(ws[n], ops[n], ws[n + 1]));
}

} // verus!
