//! Register and memory maps: association lists whose views are
//! mathematical maps. A lookup of an absent key is an explicit,
//! documented zero default, not an incidental fallback.

use vstd::prelude::*;
use crate::text::str_eq;

verus! {

/// The value a register map yields for `k`: the stored value, or zero for
/// an absent key.
pub open spec fn reg_read(m: Map<Seq<char>, i64>, k: Seq<char>) -> i64 {
    if m.dom().contains(k) {
        m[k]
    } else {
        0
    }
}

/// The map denoted by an entry list; an earlier entry shadows a later one
/// with the same name.
spec fn reg_entries_map(es: Seq<(String, i64)>) -> Map<Seq<char>, i64>
    decreases es.len(),
{
    if es.len() == 0 {
        Map::empty()
    } else {
        reg_entries_map(es.drop_first()).insert(es[0].0@, es[0].1)
    }
}

/// A mapping from register names to 64-bit signed values.
#[derive(Debug)]
pub struct RegisterMap {
    entries: Vec<(String, i64)>,
}

/// If `j` is the first entry named `k`, the map holds `k` with that
/// entry's value.
proof fn lemma_reg_first_match(es: Seq<(String, i64)>, j: int, k: Seq<char>)
    requires
        0 <= j < es.len(),
        es[j].0@ == k,
        forall|l: int| 0 <= l < j ==> #[trigger] es[l].0@ != k,
    ensures
        reg_entries_map(es).dom().contains(k),
        reg_entries_map(es)[k] == es[j].1,
    decreases es.len(),
{
    if j > 0 {
        lemma_reg_first_match(es.drop_first(), j - 1, k);
    }
}

/// If no entry is named `k`, the map does not hold `k`.
proof fn lemma_reg_no_match(es: Seq<(String, i64)>, k: Seq<char>)
    requires
        forall|l: int| 0 <= l < es.len() ==> #[trigger] es[l].0@ != k,
    ensures
        !reg_entries_map(es).dom().contains(k),
    decreases es.len(),
{
    if es.len() > 0 {
        lemma_reg_no_match(es.drop_first(), k);
    }
}

/// Overwriting the first entry named `k` updates the map at `k` alone.
proof fn lemma_reg_update(es: Seq<(String, i64)>, j: int, e: (String, i64))
    requires
        0 <= j < es.len(),
        es[j].0@ == e.0@,
        forall|l: int| 0 <= l < j ==> #[trigger] es[l].0@ != e.0@,
    ensures
        reg_entries_map(es.update(j, e)) == reg_entries_map(es).insert(e.0@, e.1),
    decreases es.len(),
{
    let post = es.update(j, e);
    if j == 0 {
        assert(post.drop_first() =~= es.drop_first());
        assert(reg_entries_map(post) =~= reg_entries_map(es).insert(e.0@, e.1));
    } else {
        assert(post.drop_first() =~= es.drop_first().update(j - 1, e));
        lemma_reg_update(es.drop_first(), j - 1, e);
        assert(reg_entries_map(post) =~= reg_entries_map(es).insert(e.0@, e.1));
    }
}

/// Appending an entry with a fresh name inserts it into the map.
proof fn lemma_reg_push(es: Seq<(String, i64)>, e: (String, i64))
    requires
        forall|l: int| 0 <= l < es.len() ==> #[trigger] es[l].0@ != e.0@,
    ensures
        reg_entries_map(es.push(e)) == reg_entries_map(es).insert(e.0@, e.1),
    decreases es.len(),
{
    if es.len() == 0 {
        assert(es.push(e).drop_first() =~= Seq::<(String, i64)>::empty());
        assert(reg_entries_map(es.push(e).drop_first()) =~= Map::<Seq<char>, i64>::empty());
        assert(reg_entries_map(es.push(e)) =~= reg_entries_map(es).insert(e.0@, e.1));
    } else {
        assert(es.push(e).drop_first() =~= es.drop_first().push(e));
        lemma_reg_push(es.drop_first(), e);
        assert(reg_entries_map(es.push(e)) =~= reg_entries_map(es).insert(e.0@, e.1));
    }
}

impl View for RegisterMap {
    type V = Map<Seq<char>, i64>;

    closed spec fn view(&self) -> Map<Seq<char>, i64> {
        reg_entries_map(self.entries@)
    }
}

impl RegisterMap {
    /// The empty register map.
    pub fn new() -> (r: RegisterMap)
        ensures
            r@ == Map::<Seq<char>, i64>::empty(),
    {
        RegisterMap { entries: Vec::new() }
    }

    /// The stored value of the register named `name`, if present.
    pub fn get(&self, name: &str) -> (r: Option<i64>)
        ensures
            r is Some <==> self@.dom().contains(name@),
            r matches Some(v) ==> self@[name@] == v,
    {
        let n = self.entries.len();
        for j in 0..n
            invariant
                n == self.entries@.len(),
                forall|l: int| 0 <= l < j ==> #[trigger] self.entries@[l].0@ != name@,
        {
            if str_eq(self.entries[j].0.as_str(), name) {
                proof {
                    lemma_reg_first_match(self.entries@, j as int, name@);
                }
                return Some(self.entries[j].1);
            }
        }
        proof {
            lemma_reg_no_match(self.entries@, name@);
        }
        None
    }

    /// The value of the register named `name`; an absent register reads
    /// as zero.
    pub fn read(&self, name: &str) -> (r: i64)
        ensures
            r == reg_read(self@, name@),
    {
        match self.get(name) {
            Some(v) => v,
            None => 0,
        }
    }

    /// Sets the register named `name` to `v`.
    pub fn write(&mut self, name: &str, v: i64)
        ensures
            final(self)@ == old(self)@.insert(name@, v),
    {
        let n = self.entries.len();
        for j in 0..n
            invariant
                n == self.entries@.len(),
                self.entries@ == old(self).entries@,
                forall|l: int| 0 <= l < j ==> #[trigger] self.entries@[l].0@ != name@,
        {
            if str_eq(self.entries[j].0.as_str(), name) {
                let key = self.entries[j].0.clone();
                let ghost pre = self.entries@;
                self.entries.set(j, (key, v));
                proof {
                    lemma_reg_update(pre, j as int, (key, v));
                }
                return ;
            }
        }
        let ghost pre = self.entries@;
        self.entries.push((name.to_owned(), v));
        proof {
            lemma_reg_push(pre, self.entries@.last());
        }
    }

    /// An exact copy, denoting the same map.
    pub fn duplicate(&self) -> (r: RegisterMap)
        ensures
            r@ == self@,
    {
        let mut entries: Vec<(String, i64)> = Vec::new();
        let n = self.entries.len();
        for j in 0..n
            invariant
                n == self.entries@.len(),
                entries@ == self.entries@.take(j as int),
        {
            let ghost pre = entries@;
            entries.push((self.entries[j].0.clone(), self.entries[j].1));
            proof {
                assert(entries@ =~= self.entries@.take(j + 1));
            }
        }
        proof {
            assert(self.entries@.take(n as int) =~= self.entries@);
        }
        RegisterMap { entries }
    }
}

/// The map denoted by an address/value entry list; an earlier entry
/// shadows a later one with the same address.
spec fn mem_entries_map(es: Seq<(u64, i64)>) -> Map<u64, i64>
    decreases es.len(),
{
    if es.len() == 0 {
        Map::empty()
    } else {
        mem_entries_map(es.drop_first()).insert(es[0].0, es[0].1)
    }
}

/// A mapping from 64-bit addresses to 64-bit signed values.
#[derive(Debug)]
pub struct MemoryMap {
    entries: Vec<(u64, i64)>,
}

proof fn lemma_mem_first_match(es: Seq<(u64, i64)>, j: int, k: u64)
    requires
        0 <= j < es.len(),
        es[j].0 == k,
        forall|l: int| 0 <= l < j ==> #[trigger] es[l].0 != k,
    ensures
        mem_entries_map(es).dom().contains(k),
        mem_entries_map(es)[k] == es[j].1,
    decreases es.len(),
{
    if j > 0 {
        lemma_mem_first_match(es.drop_first(), j - 1, k);
    }
}

proof fn lemma_mem_no_match(es: Seq<(u64, i64)>, k: u64)
    requires
        forall|l: int| 0 <= l < es.len() ==> #[trigger] es[l].0 != k,
    ensures
        !mem_entries_map(es).dom().contains(k),
    decreases es.len(),
{
    if es.len() > 0 {
        lemma_mem_no_match(es.drop_first(), k);
    }
}

proof fn lemma_mem_update(es: Seq<(u64, i64)>, j: int, e: (u64, i64))
    requires
        0 <= j < es.len(),
        es[j].0 == e.0,
        forall|l: int| 0 <= l < j ==> #[trigger] es[l].0 != e.0,
    ensures
        mem_entries_map(es.update(j, e)) == mem_entries_map(es).insert(e.0, e.1),
    decreases es.len(),
{
    let post = es.update(j, e);
    if j == 0 {
        assert(post.drop_first() =~= es.drop_first());
        assert(mem_entries_map(post) =~= mem_entries_map(es).insert(e.0, e.1));
    } else {
        assert(post.drop_first() =~= es.drop_first().update(j - 1, e));
        lemma_mem_update(es.drop_first(), j - 1, e);
        assert(mem_entries_map(post) =~= mem_entries_map(es).insert(e.0, e.1));
    }
}

proof fn lemma_mem_push(es: Seq<(u64, i64)>, e: (u64, i64))
    requires
        forall|l: int| 0 <= l < es.len() ==> #[trigger] es[l].0 != e.0,
    ensures
        mem_entries_map(es.push(e)) == mem_entries_map(es).insert(e.0, e.1),
    decreases es.len(),
{
    if es.len() == 0 {
        assert(es.push(e).drop_first() =~= Seq::<(u64, i64)>::empty());
        assert(mem_entries_map(es.push(e).drop_first()) =~= Map::<u64, i64>::empty());
        assert(mem_entries_map(es.push(e)) =~= mem_entries_map(es).insert(e.0, e.1));
    } else {
        assert(es.push(e).drop_first() =~= es.drop_first().push(e));
        lemma_mem_push(es.drop_first(), e);
        assert(mem_entries_map(es.push(e)) =~= mem_entries_map(es).insert(e.0, e.1));
    }
}

impl View for MemoryMap {
    type V = Map<u64, i64>;

    closed spec fn view(&self) -> Map<u64, i64> {
        mem_entries_map(self.entries@)
    }
}

impl MemoryMap {
    /// The empty memory map.
    pub fn new() -> (r: MemoryMap)
        ensures
            r@ == Map::<u64, i64>::empty(),
    {
        MemoryMap { entries: Vec::new() }
    }

    /// The stored value at address `addr`, if present.
    pub fn get(&self, addr: u64) -> (r: Option<i64>)
        ensures
            r is Some <==> self@.dom().contains(addr),
            r matches Some(v) ==> self@[addr] == v,
    {
        let n = self.entries.len();
        for j in 0..n
            invariant
                n == self.entries@.len(),
                forall|l: int| 0 <= l < j ==> #[trigger] self.entries@[l].0 != addr,
        {
            if self.entries[j].0 == addr {
                proof {
                    lemma_mem_first_match(self.entries@, j as int, addr);
                }
                return Some(self.entries[j].1);
            }
        }
        proof {
            lemma_mem_no_match(self.entries@, addr);
        }
        None
    }

    /// Stores `v` at address `addr`.
    pub fn write(&mut self, addr: u64, v: i64)
        ensures
            final(self)@ == old(self)@.insert(addr, v),
    {
        let n = self.entries.len();
        for j in 0..n
            invariant
                n == self.entries@.len(),
                self.entries@ == old(self).entries@,
                forall|l: int| 0 <= l < j ==> #[trigger] self.entries@[l].0 != addr,
        {
            if self.entries[j].0 == addr {
                let ghost pre = self.entries@;
                self.entries.set(j, (addr, v));
                proof {
                    lemma_mem_update(pre, j as int, (addr, v));
                }
                return ;
            }
        }
        let ghost pre = self.entries@;
        self.entries.push((addr, v));
        proof {
            lemma_mem_push(pre, self.entries@.last());
        }
    }

    /// An exact copy, denoting the same map.
    pub fn duplicate(&self) -> (r: MemoryMap)
        ensures
            r@ == self@,
    {
        let mut entries: Vec<(u64, i64)> = Vec::new();
        let n = self.entries.len();
        for j in 0..n
            invariant
                n == self.entries@.len(),
                entries@ == self.entries@.take(j as int),
        {
            entries.push((self.entries[j].0, self.entries[j].1));
            proof {
                assert(entries@ =~= self.entries@.take(j + 1));
            }
        }
        proof {
            assert(self.entries@.take(n as int) =~= self.entries@);
        }
        MemoryMap { entries }
    }
}

} // verus!
