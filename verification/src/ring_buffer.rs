use vstd::prelude::*;

verus! {

/// Slot that `offset` names for a buffer whose write slot is `front`:
/// the Euclidean remainder of `front + offset` by the capacity.
pub open spec fn slot_index(front: int, capacity: int, offset: int) -> int {
    (front + offset) % capacity
}

/// Reading at offset 0 right after an insert gives back the inserted
/// value: the write slot is the slot of offset 0.
pub proof fn law_insert_then_read<T>(contents: Seq<T>, front: nat, capacity: nat, elem: T)
    requires
        contents.len() == capacity,
        front < capacity,
    ensures
        contents.update(front as int, elem)[slot_index(front as int, capacity as int, 0)] == elem,
{
    vstd::arithmetic::div_mod::lemma_small_mod(front, capacity);
    assert(slot_index(front as int, capacity as int, 0) == front);
}

/// After the write slot advances by one, the value that was at offset `k`
/// is found at offset `k - 1`: the ring moves one step back in time.
pub proof fn law_progress_shifts_offsets(front: nat, capacity: nat, offset: int)
    requires
        front < capacity,
    ensures
        slot_index((front as int + 1) % (capacity as int), capacity as int, offset - 1) == slot_index(
            front as int,
            capacity as int,
            offset,
        ),
{
    vstd::arithmetic::div_mod::lemma_add_mod_noop_right(offset - 1, front as int + 1, capacity as int);
}

/// A fixed-capacity ring of values with a moving write slot (`front`).
/// Offsets are relative to the write slot: offset 0 is the slot last
/// written, negative offsets reach back in time.
#[derive(Clone, Debug)]
pub struct PrimitiveRingBuffer<T: Clone> {
    inner: Vec<T>,
    capacity: usize,
    front: usize,
}

impl<T: Clone> PrimitiveRingBuffer<T> {
    /// The ring holds exactly `capacity` slots and the write slot is one of them.
    pub closed spec fn well_formed(self) -> bool {
        &&& self.inner.len() == self.capacity
        &&& self.capacity == 0 ==> self.front == 0
        &&& self.capacity > 0 ==> self.front < self.capacity
    }

    /// The stored values, slot by slot.
    pub closed spec fn contents(self) -> Seq<T> {
        self.inner@
    }

    /// Number of slots.
    pub closed spec fn spec_capacity(self) -> nat {
        self.capacity as nat
    }

    /// The slot that the next `insert` writes.
    pub closed spec fn spec_front(self) -> nat {
        self.front as nat
    }

    /// The value a read at `offset` finds.
    pub open spec fn value_at(self, offset: int) -> T {
        self.contents()[slot_index(self.spec_front() as int, self.spec_capacity() as int, offset)]
    }

    /// What well-formedness says in terms of the public views.
    pub proof fn lemma_well_formed(&self)
        requires
            self.well_formed(),
        ensures
            self.contents().len() == self.spec_capacity(),
            self.spec_capacity() == 0 ==> self.spec_front() == 0,
            self.spec_capacity() > 0 ==> self.spec_front() < self.spec_capacity(),
    {
    }

    /// A buffer of `capacity` slots, each a clone of `default_elem`, whose
    /// write slot is the last one.
    pub fn new(default_elem: T, capacity: usize) -> (r: Self)
        ensures
            r.well_formed(),
            r.spec_capacity() == capacity,
            r.contents().len() == capacity,
            forall|i: int| 0 <= i < capacity ==> cloned(default_elem, #[trigger] r.contents()[i]),
            r.spec_front() == if capacity == 0 { 0 } else { capacity - 1 },
    {
        let mut inner: Vec<T> = Vec::new();
        let mut i: usize = 0;
        while i < capacity
            invariant
                i <= capacity,
                inner.len() == i,
                forall|j: int| 0 <= j < i ==> cloned(default_elem, #[trigger] inner@[j]),
            decreases capacity - i,
        {
            let elem = default_elem.clone();
            inner.push(elem);
            i = i + 1;
        }
        PrimitiveRingBuffer { inner, capacity, front: capacity.saturating_sub(1) }
    }

    /// A clone of the value `offset` slots away from the write slot,
    /// counting around the ring.
    pub fn get_from_offset(&self, offset: i32) -> (r: T)
        requires
            self.well_formed(),
            self.spec_capacity() > 0,
            self.spec_capacity() <= i32::MAX,
            i32::MIN <= self.spec_front() + offset <= i32::MAX,
        ensures
            cloned(
                self.contents()[slot_index(
                    self.spec_front() as int,
                    self.spec_capacity() as int,
                    offset as int,
                )],
                r,
            ),
    {
        let cap: u64 = self.capacity as u64;
        let sum: i64 = self.front as i64 + offset as i64;
        let m: u64 = if sum >= 0 {
            let n: u64 = sum as u64;
            proof {
                vstd::arithmetic::div_mod::lemma_fundamental_div_mod(n as int, cap as int);
                vstd::arithmetic::div_mod::lemma_fundamental_div_mod_converse(
                    sum as int, cap as int, n as int / cap as int, n as int % cap as int);
            }
            n % cap
        } else {
            let n: u64 = (0 - sum) as u64;
            let r: u64 = n % cap;
            proof {
                vstd::arithmetic::div_mod::lemma_fundamental_div_mod(n as int, cap as int);
                let q: int = n as int / cap as int;
                if r == 0 {
                    assert(sum as int == (-q) * cap + 0) by (nonlinear_arith)
                        requires sum == -(n as int), n as int == cap * q + r, r == 0;
                    vstd::arithmetic::div_mod::lemma_fundamental_div_mod_converse(
                        sum as int, cap as int, -q, 0);
                } else {
                    assert(sum as int == (-q - 1) * cap + (cap - r)) by (nonlinear_arith)
                        requires sum == -(n as int), n as int == cap * q + r;
                    vstd::arithmetic::div_mod::lemma_fundamental_div_mod_converse(
                        sum as int, cap as int, -q - 1, cap - r);
                }
            }
            if r == 0 { 0 } else { cap - r }
        };
        proof {
            assert(m == slot_index(self.front as int, self.capacity as int, offset as int));
        }
        let idx: usize = m as usize;
        self.inner[idx].clone()
    }

    /// Overwrite the write slot with `elem`.
    pub fn insert(&mut self, elem: T)
        requires
            old(self).well_formed(),
            old(self).spec_capacity() > 0,
        ensures
            final(self).well_formed(),
            final(self).contents() == old(self).contents().update(
                old(self).spec_front() as int,
                elem,
            ),
            final(self).spec_front() == old(self).spec_front(),
            final(self).spec_capacity() == old(self).spec_capacity(),
    {
        let f = self.front;
        self.inner.set(f, elem);
    }

    /// Advance the write slot by one, wrapping around the ring.
    pub fn progress(&mut self)
        requires
            old(self).well_formed(),
            old(self).spec_capacity() > 0,
        ensures
            final(self).well_formed(),
            final(self).contents() == old(self).contents(),
            final(self).spec_capacity() == old(self).spec_capacity(),
            final(self).spec_front() == (old(self).spec_front() + 1) % old(self).spec_capacity(),
    {
        self.front = (self.front + 1) % self.capacity;
    }
}

/// The write slot after `n` advances of one slot each.
pub open spec fn advanced(front: nat, capacity: nat, n: nat) -> nat
    decreases n,
{
    if n == 0 {
        front
    } else {
        (advanced(front, capacity, (n - 1) as nat) + 1) % capacity
    }
}

/// Reads repeat every `capacity` offsets.
pub proof fn law_read_period<T: Clone>(b: PrimitiveRingBuffer<T>, offset: int)
    requires
        b.well_formed(),
        b.spec_capacity() > 0,
    ensures
        b.value_at(offset + b.spec_capacity()) == b.value_at(offset),
        b.value_at(offset - b.spec_capacity()) == b.value_at(offset),
{
    let c = b.spec_capacity() as int;
    let f = b.spec_front() as int;
    vstd::arithmetic::div_mod::lemma_mod_add_multiples_vanish(f + offset, c);
    vstd::arithmetic::div_mod::lemma_mod_sub_multiples_vanish(f + offset, c);
    assert(f + (offset + c) == c + (f + offset));
    assert(f + (offset - c) == -c + (f + offset));
}

/// After `progress`, every read finds what the read one offset further
/// found before: `before` and `after` as `progress` relates them.
pub proof fn law_progress_shifts_reads<T: Clone>(
    before: PrimitiveRingBuffer<T>,
    after: PrimitiveRingBuffer<T>,
    offset: int,
)
    requires
        before.well_formed(),
        before.spec_capacity() > 0,
        after.contents() == before.contents(),
        after.spec_capacity() == before.spec_capacity(),
        after.spec_front() == (before.spec_front() + 1) % before.spec_capacity(),
    ensures
        after.value_at(offset) == before.value_at(offset + 1),
{
    law_progress_shifts_offsets(before.spec_front(), before.spec_capacity(), offset + 1);
}

/// After `n` advances of the write slot, the slot of offset `k` is the one
/// that offset `k + n` named before; after `capacity` advances the write
/// slot is back where it was.
pub proof fn law_advances(front: nat, capacity: nat, n: nat, offset: int)
    requires
        front < capacity,
    ensures
        advanced(front, capacity, n) < capacity,
        slot_index(advanced(front, capacity, n) as int, capacity as int, offset) == slot_index(
            front as int,
            capacity as int,
            offset + n,
        ),
        advanced(front, capacity, capacity) == front,
    decreases n,
{
    lemma_advances_step(front, capacity, n, offset);
    lemma_advances_step(front, capacity, capacity, 0);
    vstd::arithmetic::div_mod::lemma_mod_add_multiples_vanish(front as int, capacity as int);
    vstd::arithmetic::div_mod::lemma_small_mod(front, capacity);
    vstd::arithmetic::div_mod::lemma_small_mod(advanced(front, capacity, capacity), capacity);
}

proof fn lemma_advances_step(front: nat, capacity: nat, n: nat, offset: int)
    requires
        front < capacity,
    ensures
        advanced(front, capacity, n) < capacity,
        slot_index(advanced(front, capacity, n) as int, capacity as int, offset) == slot_index(
            front as int,
            capacity as int,
            offset + n,
        ),
    decreases n,
{
    if n > 0 {
        lemma_advances_step(front, capacity, (n - 1) as nat, offset + 1);
        let prev = advanced(front, capacity, (n - 1) as nat);
        law_progress_shifts_offsets(prev, capacity, offset + 1);
        assert(offset + n == (offset + 1) + (n - 1));
    }
}

/// After `progress` and then `insert(elem)`, offset 0 reads `elem` and,
/// with at least two slots, offset -1 reads what offset 0 read before: a
/// window over the latest inserts.
pub proof fn law_sliding_window<T: Clone>(
    before: PrimitiveRingBuffer<T>,
    mid: PrimitiveRingBuffer<T>,
    after: PrimitiveRingBuffer<T>,
    elem: T,
)
    requires
        before.well_formed(),
        before.spec_capacity() >= 2,
        mid.contents() == before.contents(),
        mid.spec_capacity() == before.spec_capacity(),
        mid.spec_front() == (before.spec_front() + 1) % before.spec_capacity(),
        after.contents() == mid.contents().update(mid.spec_front() as int, elem),
        after.spec_front() == mid.spec_front(),
        after.spec_capacity() == mid.spec_capacity(),
    ensures
        after.value_at(0) == elem,
        after.value_at(-1) == before.value_at(0),
{
    let c = before.spec_capacity();
    let f = before.spec_front();
    before.lemma_well_formed();
    let g = mid.spec_front();
    assert(g < c);
    vstd::arithmetic::div_mod::lemma_small_mod(g, c);
    law_progress_shifts_offsets(f, c, 0);
    assert(slot_index(g as int, c as int, -1) == slot_index(f as int, c as int, 0));
    vstd::arithmetic::div_mod::lemma_small_mod(f, c);
    assert(slot_index(g as int, c as int, -1) == f);
    if f + 1 < c {
        vstd::arithmetic::div_mod::lemma_small_mod((f + 1) as nat, c);
    } else {
        vstd::arithmetic::div_mod::lemma_mod_self_0(c as int);
    }
    assert(g != f);
}

/// After `insert(elem)`, every offset that is a multiple of the capacity
/// reads `elem`: `before` and `after` as `insert` relates them.
pub proof fn law_insert_then_read_every_turn<T: Clone>(
    before: PrimitiveRingBuffer<T>,
    after: PrimitiveRingBuffer<T>,
    elem: T,
    turns: int,
)
    requires
        before.well_formed(),
        before.spec_capacity() > 0,
        after.contents() == before.contents().update(before.spec_front() as int, elem),
        after.spec_front() == before.spec_front(),
        after.spec_capacity() == before.spec_capacity(),
    ensures
        after.value_at(turns * before.spec_capacity()) == elem,
{
    let c = before.spec_capacity() as int;
    let f = before.spec_front() as int;
    before.lemma_well_formed();
    vstd::arithmetic::div_mod::lemma_mod_multiples_vanish(turns, f, c);
    assert(f + turns * c == c * turns + f) by (nonlinear_arith);
    vstd::arithmetic::div_mod::lemma_small_mod(f as nat, c as nat);
}

} // verus!
