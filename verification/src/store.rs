use vstd::prelude::*;
use crate::types::Holder;
use ic_stable_structures::memory_manager::{MemoryId, MemoryManager, VirtualMemory};
use ic_stable_structures::DefaultMemoryImpl;

verus! {

/// The memory manager of ic-stable-structures, which parts one memory into
/// separate memories by id.
#[verifier::external_body]
pub struct Manager {
    inner: MemoryManager<DefaultMemoryImpl>,
}

/// The persistent tree of one owner, kept by ic-stable-structures.
#[verifier::external_body]
pub struct Region {
    tree: ic_stable_structures::BTreeMap<u64, u128, VirtualMemory<DefaultMemoryImpl>>,
}

/// The persistent single value of one owner, kept by ic-stable-structures.
#[verifier::external_body]
pub struct CellRegion {
    cell: ic_stable_structures::Cell<u128, VirtualMemory<DefaultMemoryImpl>>,
}

/// What a region holds.
pub uninterp spec fn region_entries(r: Region) -> Map<u64, u128>;

/// The map without entries.
pub open spec fn no_entries() -> Map<u64, u128> {
    Map::empty()
}

/// What a cell holds.
pub uninterp spec fn cell_value(c: CellRegion) -> u128;

/// `MemoryManager::init` of ic-stable-structures over the default memory:
/// a fresh memory on a host, the one stable memory in a canister.
#[verifier::external_body]
fn manager_open() -> (m: Manager) {
    Manager { inner: MemoryManager::init(DefaultMemoryImpl::default()) }
}

/// `MemoryManager::get` and `BTreeMap::new` of ic-stable-structures: a new,
/// empty tree in the memory with this id, in place of what that memory held.
/// The id 255 is reserved and makes `MemoryId::new` panic.
#[verifier::external_body]
fn region_open(manager: &Manager, memory_id: u8) -> (r: Region)
    requires
        memory_id < 255,
    ensures
        region_entries(r) == no_entries(),
{
    Region { tree: ic_stable_structures::BTreeMap::new(manager.inner.get(MemoryId::new(memory_id))) }
}

/// `BTreeMap::get` of ic-stable-structures: the value stored under `key`, if
/// there is one.
#[verifier::external_body]
fn region_get(r: &Region, key: u64) -> (v: Option<u128>)
    ensures
        v == if region_entries(*r).contains_key(key) {
            Some(region_entries(*r)[key])
        } else {
            None::<u128>
        },
{
    r.tree.get(&key)
}

/// `BTreeMap::insert` of ic-stable-structures: stores `value` under `key`
/// and returns what was stored there before, if anything was. Keys and
/// values have a fixed size, so the size limits of the tree are always met;
/// a memory that cannot grow makes the call panic.
#[verifier::external_body]
fn region_insert(r: &mut Region, key: u64, value: u128) -> (prev: Option<u128>)
    ensures
        region_entries(*final(r)) == region_entries(*old(r)).insert(key, value),
        prev == if region_entries(*old(r)).contains_key(key) {
            Some(region_entries(*old(r))[key])
        } else {
            None::<u128>
        },
{
    r.tree.insert(key, value)
}

/// `BTreeMap::remove` of ic-stable-structures: removes `key` and returns
/// what was stored under it, if anything was.
#[verifier::external_body]
fn region_remove(r: &mut Region, key: u64) -> (prev: Option<u128>)
    ensures
        region_entries(*final(r)) == region_entries(*old(r)).remove(key),
        prev == if region_entries(*old(r)).contains_key(key) {
            Some(region_entries(*old(r))[key])
        } else {
            None::<u128>
        },
{
    r.tree.remove(&key)
}

/// `BTreeMap::iter` of ic-stable-structures: every entry, sorted by key.
#[verifier::external_body]
fn region_list(r: &Region) -> (v: Vec<(u64, u128)>)
    ensures
        is_listing(v@, region_entries(*r)),
{
    r.tree.iter().map(|e| e.into_pair()).collect()
}

/// `MemoryManager::get` and `Cell::new` of ic-stable-structures: a new cell
/// in the memory with this id, holding `value`, in place of what that memory
/// held. A memory that cannot grow makes the call panic.
#[verifier::external_body]
fn cell_open(manager: &Manager, memory_id: u8, value: u128) -> (c: CellRegion)
    requires
        memory_id < 255,
    ensures
        cell_value(c) == value,
{
    CellRegion { cell: ic_stable_structures::Cell::new(manager.inner.get(MemoryId::new(memory_id)), value) }
}

/// `Cell::get` of ic-stable-structures: the value that the cell holds.
#[verifier::external_body]
fn cell_read(c: &CellRegion) -> (v: u128)
    ensures
        v == cell_value(*c),
{
    *c.cell.get()
}

/// `Cell::set` of ic-stable-structures: writes `value` to the memory; the
/// cell then holds it.
#[verifier::external_body]
fn cell_write(c: &mut CellRegion, value: u128)
    ensures
        cell_value(*final(c)) == value,
{
    c.cell.set(value);
}

/// Why a write was refused.
#[derive(Clone, Copy, Debug, PartialEq, Eq, Structural)]
pub enum StoreError {
    /// Every memory id is taken: no region can be opened for a new owner.
    NoRegionLeft,
}

/// The memory that the stores of one process keep their regions in. Each
/// region that is opened gets a memory id of its own, so no two regions
/// share memory. In a canister the manager maps the one stable memory: open
/// one store memory for the whole process.
pub struct StoreMemory {
    manager: Manager,
    next_id: u8,
}

impl StoreMemory {
    /// How many regions can still be opened.
    pub closed spec fn left(&self) -> nat {
        (255 - self.next_id) as nat
    }

    pub fn new() -> (r: Self)
        ensures
            r.left() == 255,
    {
        StoreMemory { manager: manager_open(), next_id: 0 }
    }

    /// How many regions can still be opened.
    pub fn regions_left(&self) -> (r: u8)
        ensures
            r == self.left(),
    {
        255 - self.next_id
    }

    /// Takes the next memory id.
    fn take_id(&mut self) -> (id: u8)
        requires
            old(self).left() > 0,
        ensures
            id < 255,
            final(self).left() == old(self).left() - 1,
    {
        let id: u8 = self.next_id;
        self.next_id = id + 1;
        id
    }
}

/// Whether `s` lists exactly the entries of `m`, by rising key.
pub open spec fn is_listing(s: Seq<(u64, u128)>, m: Map<u64, u128>) -> bool {
    &&& forall|i: int, j: int| 0 <= i < j < s.len() ==> s[i].0 < s[j].0
    &&& forall|i: int| 0 <= i < s.len() ==> m.contains_pair(#[trigger] s[i].0, s[i].1)
    &&& forall|k: u64| m.contains_key(k) ==> exists|i: int| 0 <= i < s.len() && (#[trigger] s[i]).0 == k
}

/// The part of `s` that starts at `offset` and has at most `limit` items.
pub open spec fn page<T>(s: Seq<T>, offset: nat, limit: nat) -> Seq<T> {
    let lo = if offset < s.len() {
        offset
    } else {
        s.len()
    };
    let hi = if offset + limit < s.len() {
        offset + limit
    } else {
        s.len()
    };
    s.subrange(lo as int, hi as int)
}

/// What is kept for `owner`, if anything is.
pub open spec fn slot<T>(s: Seq<(Holder, T)>, owner: Holder) -> Option<T>
    decreases s.len(),
{
    if s.len() == 0 {
        None
    } else if s.last().0 == owner {
        Some(s.last().1)
    } else {
        slot(s.drop_last(), owner)
    }
}

/// No owner has two slots.
pub open spec fn owners_distinct<T>(s: Seq<(Holder, T)>) -> bool {
    forall|i: int, j: int| 0 <= i < j < s.len() ==> s[i].0 != s[j].0
}

proof fn lemma_slot_absent<T>(s: Seq<(Holder, T)>, owner: Holder)
    requires
        forall|i: int| 0 <= i < s.len() ==> s[i].0 != owner,
    ensures
        slot(s, owner).is_none(),
    decreases s.len(),
{
    if s.len() > 0 {
        lemma_slot_absent(s.drop_last(), owner);
    }
}

proof fn lemma_slot_at<T>(s: Seq<(Holder, T)>, i: int)
    requires
        owners_distinct(s),
        0 <= i < s.len(),
    ensures
        slot(s, s[i].0) == Some(s[i].1),
    decreases s.len(),
{
    if i < s.len() - 1 {
        lemma_slot_at(s.drop_last(), i);
    }
}

proof fn lemma_slot_update<T>(s: Seq<(Holder, T)>, i: int, t: T, owner: Holder)
    requires
        owners_distinct(s),
        0 <= i < s.len(),
    ensures
        owners_distinct(s.update(i, (s[i].0, t))),
        slot(s.update(i, (s[i].0, t)), owner) == if owner == s[i].0 {
            Some(t)
        } else {
            slot(s, owner)
        },
    decreases s.len(),
{
    let u = s.update(i, (s[i].0, t));
    if i < s.len() - 1 {
        assert(u.drop_last() =~= s.drop_last().update(i, (s[i].0, t)));
        lemma_slot_update(s.drop_last(), i, t, owner);
    } else {
        assert(u.drop_last() =~= s.drop_last());
    }
}

/// A copy of the part of `v` that starts at `offset` and has at most `limit`
/// items.
pub fn page_of(v: &Vec<(u64, u128)>, offset: usize, limit: usize) -> (r: Vec<(u64, u128)>)
    ensures
        r@ == page(v@, offset as nat, limit as nat),
{
    let n: usize = v.len();
    let lo: usize = if offset < n { offset } else { n };
    let hi: usize = if limit < n - lo { lo + limit } else { n };
    let mut out: Vec<(u64, u128)> = Vec::new();
    let mut i: usize = lo;
    while i < hi
        invariant
            lo <= i <= hi <= n,
            n == v@.len(),
            out@ == v@.subrange(lo as int, i as int),
        decreases hi - i,
    {
        out.push(v[i]);
        proof {
            assert(v@.subrange(lo as int, i + 1) =~= v@.subrange(lo as int, i as int).push(v@[i as int]));
        }
        i = i + 1;
    }
    out
}

/// A persistent map from small keys to values for each owner. The region of
/// an owner is opened, empty, when that owner first writes.
pub struct StableBTreeMap {
    pub regions: Vec<(Holder, Region)>,
}

impl StableBTreeMap {
    pub open spec fn wf(&self) -> bool {
        owners_distinct(self.regions@)
    }

    /// Whether `owner` has written before.
    pub open spec fn has_region(&self, owner: Holder) -> bool {
        slot(self.regions@, owner).is_some()
    }

    /// What the map holds for `owner`: nothing before the first write.
    pub open spec fn entries(&self, owner: Holder) -> Map<u64, u128> {
        match slot(self.regions@, owner) {
            Some(r) => region_entries(r),
            None => Map::empty(),
        }
    }

    pub fn new() -> (r: Self)
        ensures
            r.wf(),
            forall|owner: Holder| !r.has_region(owner),
    {
        StableBTreeMap { regions: Vec::new() }
    }

    fn find(&self, owner: Holder) -> (r: Option<usize>)
        requires
            self.wf(),
        ensures
            match r {
                Some(i) => i < self.regions@.len() && self.regions@[i as int].0 == owner && slot(
                    self.regions@,
                    owner,
                ) == Some(self.regions@[i as int].1),
                None => slot(self.regions@, owner).is_none(),
            },
    {
        let mut i: usize = 0;
        while i < self.regions.len()
            invariant
                i <= self.regions@.len(),
                owners_distinct(self.regions@),
                forall|j: int| 0 <= j < i ==> self.regions@[j].0 != owner,
            decreases self.regions@.len() - i,
        {
            if self.regions[i].0 == owner {
                proof {
                    lemma_slot_at(self.regions@, i as int);
                }
                return Some(i);
            }
            i = i + 1;
        }
        proof {
            lemma_slot_absent(self.regions@, owner);
        }
        None
    }

    /// The value that `owner` stored under `key`, if any.
    pub fn get(&self, owner: Holder, key: u64) -> (r: Option<u128>)
        requires
            self.wf(),
        ensures
            r == if self.entries(owner).contains_key(key) {
                Some(self.entries(owner)[key])
            } else {
                None::<u128>
            },
    {
        match self.find(owner) {
            Some(i) => region_get(&self.regions[i].1, key),
            None => None,
        }
    }

    /// Stores `value` under `key` for `owner`, in place of what was there;
    /// every other key of that owner, and every other owner, reads as
    /// before. The first write of an owner opens its region in `memory`. It
    /// is refused, and nothing changes, exactly when no region is left.
    pub fn insert(&mut self, memory: &mut StoreMemory, owner: Holder, key: u64, value: u128) -> (r:
        Result<(), StoreError>)
        requires
            old(self).wf(),
        ensures
            !old(self).has_region(owner) && old(memory).left() == 0 ==> r == Err::<(), StoreError>(
                StoreError::NoRegionLeft,
            ) && *final(self) == *old(self) && *final(memory) == *old(memory),
            old(self).has_region(owner) || old(memory).left() > 0 ==> {
                &&& r.is_ok()
                &&& final(self).wf()
                &&& final(self).has_region(owner)
                &&& final(self).entries(owner) == old(self).entries(owner).insert(key, value)
                &&& final(memory).left() == if old(self).has_region(owner) {
                    old(memory).left()
                } else {
                    (old(memory).left() - 1) as nat
                }
                &&& forall|other: Holder|
                    other != owner ==> final(self).entries(other) == old(self).entries(other)
                        && final(self).has_region(other) == old(self).has_region(other)
            },
    {
        match self.find(owner) {
            Some(i) => {
                let (h, mut region) = self.regions.remove(i);
                let prev = region_insert(&mut region, key, value);
                proof {
                    assert forall|other: Holder|
                        slot(old(self).regions@.update(i as int, (h, region)), other) == if other == h {
                            Some(region)
                        } else {
                            slot(old(self).regions@, other)
                        } by {
                        lemma_slot_update(old(self).regions@, i as int, region, other);
                    }
                    lemma_slot_update(old(self).regions@, i as int, region, owner);
                    assert(old(self).regions@.remove(i as int).insert(i as int, (h, region)) =~= old(self).regions@.update(
                        i as int,
                        (h, region),
                    ));
                }
                self.regions.insert(i, (h, region));
                Ok(())
            },
            None => {
                if memory.regions_left() == 0 {
                    return Err(StoreError::NoRegionLeft);
                }
                let id: u8 = memory.take_id();
                let mut region = region_open(&memory.manager, id);
                let prev = region_insert(&mut region, key, value);
                proof {
                    assert(self.regions@.push((owner, region)).drop_last() =~= self.regions@);
                    assert forall|i: int| 0 <= i < self.regions@.len() implies self.regions@[i].0
                        != owner by {
                        if self.regions@[i].0 == owner {
                            lemma_slot_at(self.regions@, i);
                        }
                    }
                }
                self.regions.push((owner, region));
                Ok(())
            },
        }
    }

    /// Removes what `owner` stored under `key` and returns it, if there was
    /// anything. Other owners see no change.
    pub fn remove(&mut self, owner: Holder, key: u64) -> (r: Option<u128>)
        requires
            old(self).wf(),
        ensures
            final(self).wf(),
            r == if old(self).entries(owner).contains_key(key) {
                Some(old(self).entries(owner)[key])
            } else {
                None::<u128>
            },
            final(self).entries(owner) == old(self).entries(owner).remove(key),
            forall|other: Holder|
                final(self).has_region(other) == old(self).has_region(other) && (other != owner
                    ==> final(self).entries(other) == old(self).entries(other)),
    {
        match self.find(owner) {
            Some(i) => {
                let (h, mut region) = self.regions.remove(i);
                let prev = region_remove(&mut region, key);
                proof {
                    assert forall|other: Holder|
                        slot(old(self).regions@.update(i as int, (h, region)), other) == if other == h {
                            Some(region)
                        } else {
                            slot(old(self).regions@, other)
                        } by {
                        lemma_slot_update(old(self).regions@, i as int, region, other);
                    }
                    lemma_slot_update(old(self).regions@, i as int, region, owner);
                    assert(old(self).regions@.remove(i as int).insert(i as int, (h, region)) =~= old(self).regions@.update(
                        i as int,
                        (h, region),
                    ));
                }
                self.regions.insert(i, (h, region));
                prev
            },
            None => {
                proof {
                    assert(self.entries(owner).remove(key) =~= self.entries(owner));
                }
                None
            },
        }
    }

    /// A page of what `owner` stored: the entries by rising key, from the
    /// one at position `offset` on, `limit` of them at most.
    pub fn list(&self, owner: Holder, offset: usize, limit: usize) -> (r: Vec<(u64, u128)>)
        requires
            self.wf(),
        ensures
            exists|all: Seq<(u64, u128)>| #[trigger]
                is_listing(all, self.entries(owner)) && r@ == page(all, offset as nat, limit as nat),
    {
        match self.find(owner) {
            Some(i) => {
                let all = region_list(&self.regions[i].1);
                let out = page_of(&all, offset, limit);
                proof {
                    assert(is_listing(all@, self.entries(owner)));
                }
                out
            },
            None => {
                let out: Vec<(u64, u128)> = Vec::new();
                proof {
                    let none = Seq::<(u64, u128)>::empty();
                    assert(is_listing(none, self.entries(owner)));
                    assert(out@ =~= page(none, offset as nat, limit as nat));
                }
                out
            },
        }
    }
}

/// A persistent single value for each owner, with a default for owners that
/// never wrote. The cell of an owner is opened when that owner first writes.
pub struct StableCell {
    pub cells: Vec<(Holder, CellRegion)>,
    pub default_value: u128,
}

impl StableCell {
    pub open spec fn wf(&self) -> bool {
        owners_distinct(self.cells@)
    }

    /// Whether `owner` has written before.
    pub open spec fn has_cell(&self, owner: Holder) -> bool {
        slot(self.cells@, owner).is_some()
    }

    /// The value of `owner`: what its cell holds, and the default before the
    /// first write.
    pub open spec fn value_of(&self, owner: Holder) -> u128 {
        match slot(self.cells@, owner) {
            Some(c) => cell_value(c),
            None => self.default_value,
        }
    }

    pub fn new(default_value: u128) -> (r: Self)
        ensures
            r.wf(),
            r.default_value == default_value,
            forall|owner: Holder| !r.has_cell(owner) && r.value_of(owner) == default_value,
    {
        StableCell { cells: Vec::new(), default_value }
    }

    fn find(&self, owner: Holder) -> (r: Option<usize>)
        requires
            self.wf(),
        ensures
            match r {
                Some(i) => i < self.cells@.len() && self.cells@[i as int].0 == owner && slot(
                    self.cells@,
                    owner,
                ) == Some(self.cells@[i as int].1),
                None => slot(self.cells@, owner).is_none(),
            },
    {
        let mut i: usize = 0;
        while i < self.cells.len()
            invariant
                i <= self.cells@.len(),
                owners_distinct(self.cells@),
                forall|j: int| 0 <= j < i ==> self.cells@[j].0 != owner,
            decreases self.cells@.len() - i,
        {
            if self.cells[i].0 == owner {
                proof {
                    lemma_slot_at(self.cells@, i as int);
                }
                return Some(i);
            }
            i = i + 1;
        }
        proof {
            lemma_slot_absent(self.cells@, owner);
        }
        None
    }

    /// The value of `owner`, read from its cell, or the default if it never
    /// wrote.
    pub fn get(&self, owner: Holder) -> (r: u128)
        requires
            self.wf(),
        ensures
            r == self.value_of(owner),
    {
        match self.find(owner) {
            Some(i) => cell_read(&self.cells[i].1),
            None => self.default_value,
        }
    }

    /// Writes `value` to the cell of `owner`; other owners see no change.
    /// The first write of an owner opens its cell in `memory`. It is
    /// refused, and nothing changes, exactly when no region is left.
    pub fn set(&mut self, memory: &mut StoreMemory, owner: Holder, value: u128) -> (r: Result<
        (),
        StoreError,
    >)
        requires
            old(self).wf(),
        ensures
            !old(self).has_cell(owner) && old(memory).left() == 0 ==> r == Err::<(), StoreError>(
                StoreError::NoRegionLeft,
            ) && *final(self) == *old(self) && *final(memory) == *old(memory),
            old(self).has_cell(owner) || old(memory).left() > 0 ==> {
                &&& r.is_ok()
                &&& final(self).wf()
                &&& final(self).default_value == old(self).default_value
                &&& final(self).has_cell(owner)
                &&& final(self).value_of(owner) == value
                &&& final(memory).left() == if old(self).has_cell(owner) {
                    old(memory).left()
                } else {
                    (old(memory).left() - 1) as nat
                }
                &&& forall|other: Holder|
                    other != owner ==> final(self).value_of(other) == old(self).value_of(other)
                        && final(self).has_cell(other) == old(self).has_cell(other)
            },
    {
        match self.find(owner) {
            Some(i) => {
                let (h, mut cell) = self.cells.remove(i);
                cell_write(&mut cell, value);
                proof {
                    assert forall|other: Holder|
                        slot(old(self).cells@.update(i as int, (h, cell)), other) == if other == h {
                            Some(cell)
                        } else {
                            slot(old(self).cells@, other)
                        } by {
                        lemma_slot_update(old(self).cells@, i as int, cell, other);
                    }
                    lemma_slot_update(old(self).cells@, i as int, cell, owner);
                    assert(old(self).cells@.remove(i as int).insert(i as int, (h, cell)) =~= old(self).cells@.update(
                        i as int,
                        (h, cell),
                    ));
                }
                self.cells.insert(i, (h, cell));
                Ok(())
            },
            None => {
                if memory.regions_left() == 0 {
                    return Err(StoreError::NoRegionLeft);
                }
                let id: u8 = memory.take_id();
                let cell = cell_open(&memory.manager, id, value);
                proof {
                    assert(self.cells@.push((owner, cell)).drop_last() =~= self.cells@);
                    assert forall|i: int| 0 <= i < self.cells@.len() implies self.cells@[i].0 != owner by {
                        if self.cells@[i].0 == owner {
                            lemma_slot_at(self.cells@, i);
                        }
                    }
                }
                self.cells.push((owner, cell));
                Ok(())
            },
        }
    }
}

} // verus!
