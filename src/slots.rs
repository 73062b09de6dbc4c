use crate::address::Address;
use vstd::prelude::*;

verus! {

/// One allocated slot: its address, the bump byte its address was derived
/// with, the bytes it was allocated (discriminator included) and the record
/// it holds.
pub struct Account<T> {
    pub address: Address,
    pub bump: u8,
    pub space: usize,
    pub data: T,
}

/// No two slots share an address.
pub open spec fn addresses_unique<T>(s: Seq<Account<T>>) -> bool {
    forall|i: int, j: int|
        0 <= i < s.len() && 0 <= j < s.len() && i != j ==> #[trigger] s[i].address@
            != #[trigger] s[j].address@
}

/// Some slot lives at address `k`.
pub open spec fn holds<T>(s: Seq<Account<T>>, k: Seq<u8>) -> bool {
    exists|i: int| 0 <= i < s.len() && #[trigger] s[i].address@ == k
}

/// The index of the slot at address `k` (meaningful where one is held).
pub open spec fn index_of<T>(s: Seq<Account<T>>, k: Seq<u8>) -> int {
    choose|i: int| 0 <= i < s.len() && #[trigger] s[i].address@ == k
}

/// The slot at address `k`, if any.
pub open spec fn slot_at<T>(s: Seq<Account<T>>, k: Seq<u8>) -> Option<Account<T>> {
    if holds(s, k) {
        Some(s[index_of(s, k)])
    } else {
        None
    }
}

/// With unique addresses, the slot at an index is the one its address names.
pub proof fn lemma_slot_at_index<T>(s: Seq<Account<T>>, i: int)
    requires
        addresses_unique(s),
        0 <= i < s.len(),
    ensures
        holds(s, s[i].address@),
        index_of(s, s[i].address@) == i,
        slot_at(s, s[i].address@) == Some(s[i]),
{
    assert(holds(s, s[i].address@));
}

/// Allocating at a free address keeps addresses unique, and the new slot
/// is the one its address names.
pub proof fn lemma_push_unique<T>(s: Seq<Account<T>>, a: Account<T>)
    requires
        addresses_unique(s),
        !holds(s, a.address@),
    ensures
        addresses_unique(s.push(a)),
        slot_at(s.push(a), a.address@) == Some(a),
{
    let t = s.push(a);
    assert forall|i: int, j: int|
        0 <= i < t.len() && 0 <= j < t.len() && i != j implies #[trigger] t[i].address@
            != #[trigger] t[j].address@ by {
        if i < s.len() {
            assert(t[i] == s[i]);
        }
        if j < s.len() {
            assert(t[j] == s[j]);
        }
    }
    lemma_slot_at_index(t, s.len() as int);
}

/// Allocating at a free address leaves every other address as it was.
pub proof fn lemma_push_keeps_others<T>(s: Seq<Account<T>>, a: Account<T>, k: Seq<u8>)
    requires
        addresses_unique(s),
        !holds(s, a.address@),
        k != a.address@,
    ensures
        slot_at(s.push(a), k) == slot_at(s, k),
{
    lemma_push_unique(s, a);
    let t = s.push(a);
    if holds(s, k) {
        let j = index_of(s, k);
        lemma_slot_at_index(s, j);
        assert(t[j] == s[j]);
        lemma_slot_at_index(t, j);
    } else {
        assert forall|i: int| 0 <= i < t.len() implies #[trigger] t[i].address@ != k by {
            if i < s.len() {
                assert(t[i] == s[i]);
            }
        }
    }
}

/// Overwriting a slot with one at the same address keeps addresses unique.
pub proof fn lemma_update_unique<T>(s: Seq<Account<T>>, i: int, a: Account<T>)
    requires
        addresses_unique(s),
        0 <= i < s.len(),
        s[i].address@ == a.address@,
    ensures
        addresses_unique(s.update(i, a)),
        slot_at(s.update(i, a), a.address@) == Some(a),
{
    let t = s.update(i, a);
    assert forall|x: int, y: int|
        0 <= x < t.len() && 0 <= y < t.len() && x != y implies #[trigger] t[x].address@
            != #[trigger] t[y].address@ by {
        assert(t[x].address@ == s[x].address@);
        assert(t[y].address@ == s[y].address@);
    }
    lemma_slot_at_index(t, i);
}

/// Deallocating a slot keeps addresses unique and frees its address.
pub proof fn lemma_remove_unique<T>(s: Seq<Account<T>>, i: int)
    requires
        addresses_unique(s),
        0 <= i < s.len(),
    ensures
        addresses_unique(s.remove(i)),
        !holds(s.remove(i), s[i].address@),
{
    let t = s.remove(i);
    assert forall|x: int, y: int|
        0 <= x < t.len() && 0 <= y < t.len() && x != y implies #[trigger] t[x].address@
            != #[trigger] t[y].address@ by {
        let ox = if x < i { x } else { x + 1 };
        let oy = if y < i { y } else { y + 1 };
        assert(t[x] == s[ox]);
        assert(t[y] == s[oy]);
    }
    assert forall|x: int| 0 <= x < t.len() implies #[trigger] t[x].address@ != s[i].address@ by {
        let ox = if x < i { x } else { x + 1 };
        assert(t[x] == s[ox]);
    }
}

/// The allocated slots of one record type, one per address.
pub struct SlotTable<T> {
    slots: Vec<Account<T>>,
}

impl<T> View for SlotTable<T> {
    type V = Seq<Account<T>>;

    closed spec fn view(&self) -> Seq<Account<T>> {
        self.slots@
    }
}

impl<T> SlotTable<T> {
    pub open spec fn wf(&self) -> bool {
        addresses_unique(self@)
    }

    /// A table with no slot allocated.
    pub fn new() -> (r: SlotTable<T>)
        ensures
            r@ == Seq::<Account<T>>::empty(),
            r.wf(),
    {
        SlotTable { slots: Vec::new() }
    }

    pub fn len(&self) -> (r: usize)
        ensures
            r == self@.len(),
    {
        self.slots.len()
    }

    /// The index of the slot at `address`, if one is allocated.
    pub fn find(&self, address: &Address) -> (r: Option<usize>)
        ensures
            r is None <==> !holds(self@, address@),
            r matches Some(i) ==> i < self@.len() && self@[i as int].address@ == address@,
    {
        let mut i: usize = 0;
        while i < self.slots.len()
            invariant
                i <= self@.len(),
                self@ == self.slots@,
                forall|j: int| 0 <= j < i ==> self@[j].address@ != address@,
            decreases self@.len() - i,
        {
            if self.slots[i].address.same_as(address) {
                return Some(i);
            }
            i = i + 1;
        }
        None
    }

    /// The slot at index `i`.
    pub fn at(&self, i: usize) -> (r: &Account<T>)
        requires
            i < self@.len(),
        ensures
            *r == self@[i as int],
    {
        &self.slots[i]
    }

    /// The slot at `address`, if one is allocated.
    pub fn get(&self, address: &Address) -> (r: Option<&Account<T>>)
        requires
            self.wf(),
        ensures
            r is None <==> !holds(self@, address@),
            r matches Some(a) ==> slot_at(self@, address@) == Some(*a),
    {
        match self.find(address) {
            Some(i) => {
                proof {
                    lemma_slot_at_index(self@, i as int);
                }
                Some(&self.slots[i])
            },
            None => None,
        }
    }

    /// Allocates a new slot at a free address.
    pub fn insert(&mut self, account: Account<T>)
        requires
            old(self).wf(),
            !holds(old(self)@, account.address@),
        ensures
            final(self)@ == old(self)@.push(account),
            final(self).wf(),
    {
        proof {
            lemma_push_unique(self@, account);
        }
        self.slots.push(account);
    }

    /// Overwrites the slot at index `i` with one at the same address.
    pub fn replace(&mut self, i: usize, account: Account<T>)
        requires
            old(self).wf(),
            i < old(self)@.len(),
            old(self)@[i as int].address@ == account.address@,
        ensures
            final(self)@ == old(self)@.update(i as int, account),
            final(self).wf(),
    {
        proof {
            lemma_update_unique(self@, i as int, account);
        }
        self.slots.set(i, account);
    }

    /// Deallocates the slot at index `i`, handing it back.
    pub fn remove(&mut self, i: usize) -> (r: Account<T>)
        requires
            old(self).wf(),
            i < old(self)@.len(),
        ensures
            r == old(self)@[i as int],
            final(self)@ == old(self)@.remove(i as int),
            final(self).wf(),
    {
        proof {
            lemma_remove_unique(self@, i as int);
        }
        self.slots.remove(i)
    }
}

/// Resizes a slot's bytes to `new_len`. Bytes below both lengths are kept;
/// bytes that growth exposes read zero, so nothing stored earlier leaks.
/// The tables here record a slot's size and its typed record, not its
/// bytes: this is the step that a host holding the bytes applies when an
/// update sets a slot's size again.
pub fn realloc_zeroed(data: &mut Vec<u8>, new_len: usize)
    ensures
        final(data)@.len() == new_len,
        forall|i: int|
            0 <= i < new_len && i < old(data)@.len() ==> #[trigger] final(data)@[i] == old(data)@[i],
        forall|i: int| old(data)@.len() <= i < new_len ==> #[trigger] final(data)@[i] == 0,
{
    data.truncate(new_len);
    while data.len() < new_len
        invariant
            data@.len() <= new_len,
            forall|i: int|
                0 <= i < data@.len() && i < old(data)@.len() ==> #[trigger] data@[i] == old(data)@[i],
            forall|i: int| old(data)@.len() <= i < data@.len() ==> #[trigger] data@[i] == 0,
            new_len <= old(data)@.len() ==> data@.len() == new_len,
            new_len > old(data)@.len() ==> data@.len() >= old(data)@.len(),
        decreases new_len - data@.len(),
    {
        data.push(0);
    }
}

} // verus!
