//! Bookkeeping for running terminal tests side by side: the pool of
//! terminals handed out by size (which one is reused, when a new one is
//! made, when the caller must wait), its statistics, and the per-test
//! context of port numbers and metadata.

use vstd::prelude::*;
use crate::error::TermTestError;
use crate::ipc::duration_from_secs;
use crate::text::{decimal, push_decimal};
use std::collections::HashMap;

verus! {

/// A unique identifier for a terminal in the pool.
#[derive(Debug, Clone, Copy, PartialEq, Eq, Hash, Structural)]
pub struct TerminalId(usize);

impl TerminalId {
    /// The number of the identifier.
    pub closed spec fn value(self) -> usize {
        self.0
    }

    /// The identifier with the given number.
    pub(crate) fn new(id: usize) -> (t: TerminalId)
        ensures
            t.value() == id,
    {
        TerminalId(id)
    }

    /// The numeric value of this identifier.
    pub fn as_usize(&self) -> (n: usize)
        ensures
            n == self.value(),
    {
        self.0
    }
}

/// Configuration of the terminal pool.
#[derive(Debug, Clone, Copy)]
pub struct PoolConfig {
    /// Maximum number of concurrent terminals.
    pub max_terminals: usize,
    /// Timeout for acquiring a terminal.
    pub acquire_timeout: std::time::Duration,
    /// Default terminal width.
    pub default_width: u16,
    /// Default terminal height.
    pub default_height: u16,
}

impl Default for PoolConfig {
    fn default() -> (c: PoolConfig)
        ensures
            c.max_terminals == 16,
            c.acquire_timeout == duration_from_secs(30),
            c.default_width == 80,
            c.default_height == 24,
    {
        PoolConfig {
            max_terminals: 16,
            acquire_timeout: std::time::Duration::from_secs(30),
            default_width: 80,
            default_height: 24,
        }
    }
}

impl PoolConfig {
    /// The default configuration: 16 terminals, 30 seconds, 80x24.
    pub fn new() -> (c: PoolConfig)
        ensures
            c.max_terminals == 16,
            c.acquire_timeout == duration_from_secs(30),
            c.default_width == 80,
            c.default_height == 24,
    {
        PoolConfig::default()
    }

    /// Sets the maximum number of concurrent terminals.
    pub fn with_max_terminals(self, max: usize) -> (c: PoolConfig)
        ensures
            c == (PoolConfig { max_terminals: max, ..self }),
    {
        PoolConfig { max_terminals: max, ..self }
    }

    /// Sets the timeout for acquiring a terminal.
    pub fn with_acquire_timeout(self, timeout: std::time::Duration) -> (c: PoolConfig)
        ensures
            c == (PoolConfig { acquire_timeout: timeout, ..self }),
    {
        PoolConfig { acquire_timeout: timeout, ..self }
    }

    /// Sets the default terminal dimensions.
    pub fn with_default_size(self, width: u16, height: u16) -> (c: PoolConfig)
        ensures
            c == (PoolConfig { default_width: width, default_height: height, ..self }),
    {
        PoolConfig { default_width: width, default_height: height, ..self }
    }
}

/// Statistics of the terminal pool.
#[derive(Debug, Clone, Copy, PartialEq, Eq, Structural)]
pub struct PoolStats {
    /// Total terminals in the pool.
    pub total: usize,
    /// Terminals currently in use.
    pub in_use: usize,
    /// Terminals available for use.
    pub available: usize,
    /// Maximum pool capacity.
    pub max_capacity: usize,
}

/// `Pool Stats: <in use>/<total> in use, <available> available (max: <capacity>)`.
pub open spec fn stats_text(s: PoolStats) -> Seq<char> {
    "Pool Stats: "@ + decimal(s.in_use as nat) + "/"@ + decimal(s.total as nat) + " in use, "@
        + decimal(s.available as nat) + " available (max: "@ + decimal(s.max_capacity as nat) + ")"@
}

impl PoolStats {
    /// A one-line summary of the statistics.
    pub fn summary(&self) -> (r: String)
        ensures
            r@ == stats_text(*self),
    {
        let mut r = String::new();
        r.append("Pool Stats: ");
        push_decimal(&mut r, self.in_use as u64);
        r.append("/");
        push_decimal(&mut r, self.total as u64);
        r.append(" in use, ");
        push_decimal(&mut r, self.available as u64);
        r.append(" available (max: ");
        push_decimal(&mut r, self.max_capacity as u64);
        r.append(")");
        r
    }
}

/// A terminal handed out by the pool.
#[derive(Debug)]
pub struct IsolatedTerminal {
    id: TerminalId,
    width: u16,
    height: u16,
}

impl IsolatedTerminal {
    /// The handle of terminal `id` of the given size.
    pub fn new(id: TerminalId, width: u16, height: u16) -> (t: IsolatedTerminal)
        ensures
            t.id_view() == id,
            t.size_view() == (width, height),
    {
        IsolatedTerminal { id, width, height }
    }

    /// The identifier.
    pub closed spec fn id_view(&self) -> TerminalId {
        self.id
    }

    /// The size (width, height).
    pub closed spec fn size_view(&self) -> (u16, u16) {
        (self.width, self.height)
    }

    /// The terminal's identifier.
    pub fn id(&self) -> (r: TerminalId)
        ensures
            r == self.id_view(),
    {
        self.id
    }

    /// The terminal's size as (width, height).
    pub fn size(&self) -> (r: (u16, u16))
        ensures
            r == self.size_view(),
    {
        (self.width, self.height)
    }
}

/// A terminal of the pool as the pool keeps account of it.
#[derive(Debug, Clone, Copy, PartialEq, Eq, Structural)]
pub struct PoolEntry {
    /// The terminal's identifier.
    pub id: TerminalId,
    /// Terminal width.
    pub width: u16,
    /// Terminal height.
    pub height: u16,
    /// Whether the terminal is handed out.
    pub in_use: bool,
}

/// What a request for a terminal comes to.
#[derive(Debug, Clone, Copy, PartialEq, Eq, Structural)]
pub enum AcquireStep {
    /// A free terminal of the size was handed out again.
    Reused(TerminalId),
    /// A new terminal with this identifier must be made and then recorded
    /// with `record_new`.
    Create(TerminalId),
    /// The pool is at capacity: wait and ask again.
    Full,
}

/// The keys of the entries in use among those below `n`.
pub open spec fn in_use_below(m: Map<usize, PoolEntry>, n: int) -> Set<usize> {
    m.dom().filter(|k: usize| k < n && m[k].in_use)
}

/// The number of entries in use.
pub open spec fn count_in_use(m: Map<usize, PoolEntry>) -> nat {
    m.dom().filter(|k: usize| m[k].in_use).len()
}

/// The accounts of the terminal pool: the terminals keyed by their
/// identifiers' numbers, all below the next one to be given.
pub struct PoolState {
    entries: HashMap<usize, PoolEntry>,
    next_id: usize,
    max_terminals: usize,
}

/// An entry that can be handed out for a request of this size.
pub open spec fn reusable(e: PoolEntry, width: u16, height: u16) -> bool {
    !e.in_use && e.width == width && e.height == height
}

/// Some entry can be handed out for a request of this size.
pub open spec fn can_reuse(m: Map<usize, PoolEntry>, width: u16, height: u16) -> bool {
    exists|k: usize| m.contains_key(k) && reusable(#[trigger] m[k], width, height)
}

impl PoolState {
    /// The entries, keyed by their identifiers' numbers.
    pub closed spec fn entries_view(&self) -> Map<usize, PoolEntry> {
        self.entries@
    }

    /// The identifier the next new terminal gets.
    pub closed spec fn next_id_view(&self) -> usize {
        self.next_id
    }

    /// The capacity.
    pub closed spec fn capacity(&self) -> usize {
        self.max_terminals
    }

    /// Each entry is keyed by its identifier's number, which is below the
    /// next one, and the pool holds no more terminals than its capacity.
    pub closed spec fn wf(&self) -> bool {
        &&& forall|k: usize| #[trigger] self.entries@.contains_key(k) ==> self.entries@[k].id.value() == k && k
            < self.next_id
        &&& self.entries@.dom().len() <= self.max_terminals
    }

    /// An empty pool of the given capacity.
    pub fn new(max_terminals: usize) -> (p: PoolState)
        ensures
            p.wf(),
            p.entries_view() == Map::<usize, PoolEntry>::empty(),
            p.next_id_view() == 0,
            p.capacity() == max_terminals,
    {
        broadcast use vstd::std_specs::hash::group_hash_axioms;
        let p = PoolState { entries: HashMap::new(), next_id: 0, max_terminals };
        assert(p.entries@.dom() =~= Set::<usize>::empty());
        p
    }

    /// The identifier the next new terminal gets.
    pub fn next_id(&self) -> (r: usize)
        ensures
            r == self.next_id_view(),
    {
        self.next_id
    }

    /// Answers a request for a terminal of the given size: a free terminal of
    /// that size is marked in use and handed out again; else, below
    /// capacity, a new identifier is given out; else the pool is full.
    pub fn acquire_step(&mut self, width: u16, height: u16) -> (r: AcquireStep)
        requires
            old(self).wf(),
            old(self).next_id_view() < usize::MAX,
        ensures
            final(self).wf(),
            final(self).capacity() == old(self).capacity(),
            r is Reused <==> can_reuse(old(self).entries_view(), width, height),
            match r {
                AcquireStep::Reused(id) => old(self).entries_view().contains_key(id.value())
                    && reusable(old(self).entries_view()[id.value()], width, height)
                    && old(self).entries_view()[id.value()].id == id && final(self).entries_view()
                    == old(self).entries_view().insert(
                    id.value(),
                    PoolEntry { in_use: true, ..old(self).entries_view()[id.value()] },
                ) && final(self).next_id_view() == old(self).next_id_view(),
                AcquireStep::Create(id) => !can_reuse(old(self).entries_view(), width, height)
                    && old(self).entries_view().dom().len() < old(self).capacity() && id.value()
                    == old(self).next_id_view() && final(self).next_id_view() == old(self).next_id_view()
                    + 1 && final(self).entries_view() == old(self).entries_view(),
                AcquireStep::Full => !can_reuse(old(self).entries_view(), width, height)
                    && old(self).entries_view().dom().len() >= old(self).capacity() && *final(self)
                    == *old(self),
            },
    {
        broadcast use vstd::std_specs::hash::group_hash_axioms;
        let mut k: usize = 0;
        while k < self.next_id
            invariant
                *self == *old(self),
                old(self).wf(),
                k <= self.next_id,
                forall|j: usize| j < k && #[trigger] self.entries@.contains_key(j) ==> !reusable(
                    self.entries@[j],
                    width,
                    height,
                ),
            decreases self.next_id - k,
        {
            match self.entries.get(&k) {
                Some(e) => {
                    let e = *e;
                    if !e.in_use && e.width == width && e.height == height {
                        self.entries.insert(k, PoolEntry { in_use: true, ..e });
                        assert(self.entries@.dom() =~= old(self).entries@.dom());
                        assert forall|j: usize| #[trigger] self.entries@.contains_key(j) implies self.entries@[j].id.value()
                            == j && j < self.next_id by {
                            assert(old(self).entries@.contains_key(j));
                        }
                        return AcquireStep::Reused(e.id);
                    }
                },
                None => {},
            }
            k = k + 1;
        }
        assert(!can_reuse(self.entries@, width, height)) by {
            assert forall|j: usize| #[trigger] self.entries@.contains_key(j) implies !reusable(
                self.entries@[j],
                width,
                height,
            ) by {
                assert(j < self.next_id);
            }
        }
        if self.entries.len() < self.max_terminals {
            let id = TerminalId::new(self.next_id);
            self.next_id = self.next_id + 1;
            return AcquireStep::Create(id);
        }
        AcquireStep::Full
    }

    /// Records a terminal made for a `Create` answer, in use.
    pub fn record_new(&mut self, id: TerminalId, width: u16, height: u16)
        requires
            old(self).wf(),
            id.value() < old(self).next_id_view(),
            !old(self).entries_view().contains_key(id.value()),
            old(self).entries_view().dom().len() < old(self).capacity(),
        ensures
            final(self).wf(),
            final(self).entries_view() == old(self).entries_view().insert(
                id.value(),
                PoolEntry { id, width, height, in_use: true },
            ),
            final(self).next_id_view() == old(self).next_id_view(),
            final(self).capacity() == old(self).capacity(),
    {
        broadcast use vstd::std_specs::hash::group_hash_axioms;
        self.entries.insert(id.0, PoolEntry { id, width, height, in_use: true });
        assert(self.entries@.dom() =~= old(self).entries@.dom().insert(id.0));
    }

    /// Marks terminal `id` free again; an error when the pool has no such terminal.
    pub fn release(&mut self, id: TerminalId) -> (r: Result<(), TermTestError>)
        requires
            old(self).wf(),
        ensures
            final(self).wf(),
            final(self).next_id_view() == old(self).next_id_view(),
            final(self).capacity() == old(self).capacity(),
            r is Ok <==> old(self).entries_view().contains_key(id.value()),
            r is Ok ==> final(self).entries_view() == old(self).entries_view().insert(
                id.value(),
                PoolEntry { in_use: false, ..old(self).entries_view()[id.value()] },
            ),
            r is Err ==> *final(self) == *old(self),
            r matches Err(e) ==> (e matches TermTestError::Pty(m) && m@ == "Terminal ID TerminalId("@ + decimal(
                id.value() as nat,
            ) + ") not found in pool"@),
    {
        broadcast use vstd::std_specs::hash::group_hash_axioms;
        match self.entries.get(&id.0) {
            Some(e) => {
                let e = *e;
                self.entries.insert(id.0, PoolEntry { in_use: false, ..e });
                assert(self.entries@.dom() =~= old(self).entries@.dom());
                assert forall|j: usize| #[trigger] self.entries@.contains_key(j) implies self.entries@[j].id.value()
                    == j && j < self.next_id by {
                    assert(old(self).entries@.contains_key(j));
                }
                Ok(())
            },
            None => {
                let mut m = String::new();
                m.append("Terminal ID TerminalId(");
                push_decimal(&mut m, id.0 as u64);
                m.append(") not found in pool");
                Err(TermTestError::Pty(m))
            },
        }
    }

    /// Counts of the pool: total, in use, available and capacity.
    pub fn stats(&self) -> (s: PoolStats)
        requires
            self.wf(),
        ensures
            s.total == self.entries_view().dom().len(),
            s.in_use == count_in_use(self.entries_view()),
            s.in_use <= s.total,
            s.available == s.total - s.in_use,
            s.max_capacity == self.capacity(),
    {
        broadcast use vstd::std_specs::hash::group_hash_axioms;
        let ghost m = self.entries@;
        let mut in_use: usize = 0;
        let mut k: usize = 0;
        assert(in_use_below(m, 0) =~= Set::<usize>::empty());
        while k < self.next_id
            invariant
                m == self.entries@,
                self.wf(),
                k <= self.next_id,
                m.dom().finite(),
                in_use == in_use_below(m, k as int).len(),
                in_use <= k,
            decreases self.next_id - k,
        {
            let ghost before = in_use_below(m, k as int);
            proof {
                vstd::set_lib::lemma_len_subset(before, m.dom());
            }
            match self.entries.get(&k) {
                Some(e) => {
                    if e.in_use {
                        assert(in_use_below(m, k + 1) =~= before.insert(k));
                        in_use = in_use + 1;
                    } else {
                        assert(in_use_below(m, k + 1) =~= before);
                    }
                },
                None => {
                    assert(in_use_below(m, k + 1) =~= before);
                },
            }
            k = k + 1;
        }
        assert(in_use_below(m, k as int) =~= m.dom().filter(|j: usize| m[j].in_use));
        proof {
            vstd::set_lib::lemma_len_subset(m.dom().filter(|j: usize| m[j].in_use), m.dom());
        }
        let total = self.entries.len();
        PoolStats { total, in_use, available: total - in_use, max_capacity: self.max_terminals }
    }

    /// Forgets every terminal.
    pub fn clear(&mut self)
        requires
            old(self).wf(),
        ensures
            final(self).wf(),
            final(self).entries_view() == Map::<usize, PoolEntry>::empty(),
            final(self).next_id_view() == old(self).next_id_view(),
            final(self).capacity() == old(self).capacity(),
    {
        broadcast use vstd::std_specs::hash::group_hash_axioms;
        self.entries.clear();
        assert(self.entries@.dom() =~= Set::<usize>::empty());
    }
}

/// The metadata value stored for `key`, if any.
pub open spec fn lookup(es: Seq<(Seq<char>, Seq<char>)>, key: Seq<char>) -> Option<Seq<char>>
    decreases es.len(),
{
    if es.len() == 0 {
        None
    } else if es.last().0 == key {
        Some(es.last().1)
    } else {
        lookup(es.drop_last(), key)
    }
}

/// Per-test context: port numbers handed out from 20000 up to 60000 and
/// then again from 20000, and string metadata.
#[derive(Debug)]
pub struct TestContext {
    next_port: u16,
    metadata: Vec<(String, String)>,
}

impl TestContext {
    /// The next port lies in the range, and each key is stored once.
    pub closed spec fn wf(&self) -> bool {
        &&& 20000 <= self.next_port <= 60000
        &&& forall|i: int, j: int| 0 <= i < j < self.metadata@.len() ==> (#[trigger] self.metadata@[i]).0@
            != (#[trigger] self.metadata@[j]).0@
    }

    /// The port the next allocation returns.
    pub closed spec fn next_port_view(&self) -> u16 {
        self.next_port
    }

    /// The metadata entries as (key, value) texts.
    pub closed spec fn entries_view(&self) -> Seq<(Seq<char>, Seq<char>)> {
        self.metadata@.map_values(|e: (String, String)| (e.0@, e.1@))
    }

    /// The metadata as a map from key to value.
    pub open spec fn metadata_view(&self) -> Map<Seq<char>, Seq<char>> {
        Map::new(
            |k: Seq<char>| lookup(self.entries_view(), k) is Some,
            |k: Seq<char>| lookup(self.entries_view(), k)->Some_0,
        )
    }

    /// A context with port 20000 next and no metadata.
    pub fn new() -> (c: TestContext)
        ensures
            c.wf(),
            c.next_port_view() == 20000,
            c.metadata_view() == Map::<Seq<char>, Seq<char>>::empty(),
    {
        let c = TestContext { next_port: 20000, metadata: Vec::new() };
        assert(c.metadata_view() =~= Map::<Seq<char>, Seq<char>>::empty());
        c
    }

    /// Hands out the next port: the ports run from 20000 to 60000 and then
    /// start again at 20000.
    pub fn allocate_port(&mut self) -> (port: u16)
        requires
            old(self).wf(),
        ensures
            final(self).wf(),
            port == old(self).next_port_view(),
            20000 <= port <= 60000,
            final(self).next_port_view() == port_after(port),
            final(self).metadata_view() == old(self).metadata_view(),
    {
        let port = self.next_port;
        let mut next = port.wrapping_add(1);
        if next > 60000 {
            next = 20000;
        }
        self.next_port = next;
        port
    }

    /// Where `key` is stored, if anywhere.
    fn find(&self, key: &str) -> (r: Option<usize>)
        requires
            self.wf(),
        ensures
            r is None ==> forall|i: int| 0 <= i < self.metadata@.len() ==> (#[trigger] self.metadata@[i]).0@ != key@,
            r matches Some(i) ==> i < self.metadata@.len() && self.metadata@[i as int].0@ == key@,
    {
        let k = String::from_str(key);
        let mut i: usize = 0;
        while i < self.metadata.len()
            invariant
                i <= self.metadata@.len(),
                k@ == key@,
                forall|m: int| 0 <= m < i ==> (#[trigger] self.metadata@[m]).0@ != key@,
            decreases self.metadata@.len() - i,
        {
            if self.metadata[i].0 == k {
                return Some(i);
            }
            i = i + 1;
        }
        None
    }

    /// Stores `value` under `key`, replacing what was there.
    pub fn set_metadata(&mut self, key: &str, value: &str)
        requires
            old(self).wf(),
        ensures
            final(self).wf(),
            final(self).metadata_view() == old(self).metadata_view().insert(key@, value@),
            final(self).next_port_view() == old(self).next_port_view(),
    {
        let ghost before = self.entries_view();
        proof {
            self.lemma_entries_distinct();
        }
        let entry = (String::from_str(key), String::from_str(value));
        match self.find(key) {
            Some(i) => {
                self.metadata.set(i, entry);
                proof {
                    let after = self.entries_view();
                    assert(after =~= before.update(i as int, (key@, value@)));
                    assert(forall|a: int| 0 <= a < after.len() ==> (#[trigger] after[a]).0 == before[a].0);
                    assert forall|a: int, b: int| 0 <= a < b < self.metadata@.len() implies (
                    #[trigger] self.metadata@[a]).0@ != (#[trigger] self.metadata@[b]).0@ by {
                        assert(after[a].0 == before[a].0);
                        assert(after[b].0 == before[b].0);
                    }
                    assert forall|k: Seq<char>| #[trigger] lookup(after, k) == (if k == key@ {
                        Some(value@)
                    } else {
                        lookup(before, k)
                    }) by {
                        if k == key@ {
                            lemma_lookup_unique(after, i as int);
                        } else {
                            lemma_lookup_other(before, i as int, (key@, value@), k);
                        }
                    }
                }
            },
            None => {
                self.metadata.push(entry);
                proof {
                    let after = self.entries_view();
                    assert(after =~= before.push((key@, value@)));
                    assert(after.drop_last() =~= before);
                    assert forall|a: int, b: int| 0 <= a < b < self.metadata@.len() implies (
                    #[trigger] self.metadata@[a]).0@ != (#[trigger] self.metadata@[b]).0@ by {
                        if b == self.metadata@.len() - 1 {
                            assert(self.metadata@[a] == old(self).metadata@[a]);
                        } else {
                            assert(self.metadata@[a] == old(self).metadata@[a]);
                            assert(self.metadata@[b] == old(self).metadata@[b]);
                        }
                    }
                    assert forall|k: Seq<char>| #[trigger] lookup(after, k) == (if k == key@ {
                        Some(value@)
                    } else {
                        lookup(before, k)
                    }) by {}
                }
            },
        }
        assert(self.metadata_view() =~= old(self).metadata_view().insert(key@, value@));
    }

    /// The value stored under `key`, if any.
    pub fn get_metadata(&self, key: &str) -> (r: Option<String>)
        requires
            self.wf(),
        ensures
            r is Some <==> self.metadata_view().dom().contains(key@),
            r matches Some(v) ==> v@ == self.metadata_view()[key@],
    {
        proof {
            self.lemma_entries_distinct();
        }
        match self.find(key) {
            Some(i) => {
                proof {
                    assert(self.entries_view()[i as int].0 == key@);
                    lemma_lookup_unique(self.entries_view(), i as int);
                }
                Some(self.metadata[i].1.clone())
            },
            None => {
                proof {
                    assert forall|m: int| 0 <= m < self.entries_view().len() implies (
                    #[trigger] self.entries_view()[m]).0 != key@ by {
                        assert(self.entries_view()[m].0 == self.metadata@[m].0@);
                    }
                    lemma_lookup_absent(self.entries_view(), key@);
                }
                None
            },
        }
    }

    /// Removes what is stored under `key`.
    pub fn remove_metadata(&mut self, key: &str)
        requires
            old(self).wf(),
        ensures
            final(self).wf(),
            final(self).metadata_view() == old(self).metadata_view().remove(key@),
            final(self).next_port_view() == old(self).next_port_view(),
    {
        let ghost before = self.entries_view();
        proof {
            self.lemma_entries_distinct();
        }
        match self.find(key) {
            Some(i) => {
                let ghost old_meta = self.metadata@;
                self.metadata.remove(i);
                proof {
                    let after = self.entries_view();
                    assert(after =~= before.remove(i as int));
                    assert forall|a: int, b: int| 0 <= a < b < self.metadata@.len() implies (
                    #[trigger] self.metadata@[a]).0@ != (#[trigger] self.metadata@[b]).0@ by {
                        let a2 = if a < i { a } else { a + 1 };
                        let b2 = if b < i { b } else { b + 1 };
                        assert(self.metadata@[a] == old_meta[a2]);
                        assert(self.metadata@[b] == old_meta[b2]);
                    }
                    assert(before[i as int].0 == key@);
                    assert forall|k: Seq<char>| #[trigger] lookup(after, k) == (if k == key@ {
                        None
                    } else {
                        lookup(before, k)
                    }) by {
                        lemma_lookup_remove(before, i as int, k);
                    }
                }
            },
            None => {
                proof {
                    assert forall|m: int| 0 <= m < before.len() implies (#[trigger] before[m]).0 != key@ by {
                        assert(before[m].0 == self.metadata@[m].0@);
                    }
                    lemma_lookup_absent(before, key@);
                }
            },
        }
        assert(self.metadata_view() =~= old(self).metadata_view().remove(key@));
    }

    /// Removes all metadata.
    pub fn clear_metadata(&mut self)
        requires
            old(self).wf(),
        ensures
            final(self).wf(),
            final(self).metadata_view() == Map::<Seq<char>, Seq<char>>::empty(),
            final(self).next_port_view() == old(self).next_port_view(),
    {
        self.metadata.clear();
        assert(self.metadata_view() =~= Map::<Seq<char>, Seq<char>>::empty());
    }

    /// Distinct stored keys give distinct entry keys.
    proof fn lemma_entries_distinct(&self)
        requires
            self.wf(),
        ensures
            forall|a: int, b: int| 0 <= a < b < self.entries_view().len() ==> (#[trigger] self.entries_view()[a]).0
                != (#[trigger] self.entries_view()[b]).0,
    {
        assert forall|a: int, b: int| 0 <= a < b < self.entries_view().len() implies (
        #[trigger] self.entries_view()[a]).0 != (#[trigger] self.entries_view()[b]).0 by {
            assert(self.entries_view()[a].0 == self.metadata@[a].0@);
            assert(self.entries_view()[b].0 == self.metadata@[b].0@);
        }
    }
}

impl Default for TestContext {
    fn default() -> (c: TestContext)
        ensures
            c.wf(),
            c.next_port_view() == 20000,
            c.metadata_view() == Map::<Seq<char>, Seq<char>>::empty(),
    {
        TestContext::new()
    }
}

impl Clone for TestContext {
    fn clone(&self) -> (c: TestContext)
        ensures
            self.wf() ==> c.wf(),
            c.next_port_view() == self.next_port_view(),
            c.metadata_view() == self.metadata_view(),
    {
        let mut metadata: Vec<(String, String)> = Vec::new();
        let mut i: usize = 0;
        while i < self.metadata.len()
            invariant
                i <= self.metadata@.len(),
                metadata@.len() == i,
                forall|k: int| 0 <= k < i ==> (#[trigger] metadata@[k]).0@ == self.metadata@[k].0@
                    && metadata@[k].1@ == self.metadata@[k].1@,
            decreases self.metadata@.len() - i,
        {
            metadata.push((self.metadata[i].0.clone(), self.metadata[i].1.clone()));
            i = i + 1;
        }
        let c = TestContext { next_port: self.next_port, metadata };
        assert(c.entries_view() =~= self.entries_view());
        c
    }
}

/// Looking a key up finds the entry that holds it when keys are distinct.
proof fn lemma_lookup_unique(es: Seq<(Seq<char>, Seq<char>)>, i: int)
    requires
        0 <= i < es.len(),
        forall|a: int, b: int| 0 <= a < b < es.len() ==> (#[trigger] es[a]).0 != (#[trigger] es[b]).0,
    ensures
        lookup(es, es[i].0) == Some(es[i].1),
    decreases es.len(),
{
    if i < es.len() - 1 {
        assert(es.drop_last()[i] == es[i]);
        assert(es[i].0 != es[es.len() - 1].0);
        lemma_lookup_unique(es.drop_last(), i);
    }
}

/// A key held by no entry is not found.
proof fn lemma_lookup_absent(es: Seq<(Seq<char>, Seq<char>)>, k: Seq<char>)
    requires
        forall|m: int| 0 <= m < es.len() ==> (#[trigger] es[m]).0 != k,
    ensures
        lookup(es, k) is None,
    decreases es.len(),
{
    if es.len() > 0 {
        assert(es[es.len() - 1].0 != k);
        assert forall|m: int| 0 <= m < es.drop_last().len() implies (#[trigger] es.drop_last()[m]).0 != k by {
            assert(es.drop_last()[m] == es[m]);
        }
        lemma_lookup_absent(es.drop_last(), k);
    }
}

/// Removing entry `i` forgets its key and keeps the others, when keys are
/// distinct.
proof fn lemma_lookup_remove(es: Seq<(Seq<char>, Seq<char>)>, i: int, k: Seq<char>)
    requires
        0 <= i < es.len(),
        forall|a: int, b: int| 0 <= a < b < es.len() ==> (#[trigger] es[a]).0 != (#[trigger] es[b]).0,
    ensures
        lookup(es.remove(i), k) == if k == es[i].0 {
            None
        } else {
            lookup(es, k)
        },
    decreases es.len(),
{
    if i == es.len() - 1 {
        assert(es.remove(i) =~= es.drop_last());
        if k == es[i].0 {
            assert forall|m: int| 0 <= m < es.drop_last().len() implies (#[trigger] es.drop_last()[m]).0 != k by {
                assert(es.drop_last()[m] == es[m]);
            }
            lemma_lookup_absent(es.drop_last(), k);
        }
    } else {
        assert(es.remove(i).drop_last() =~= es.drop_last().remove(i));
        assert(es.remove(i).last() == es.last());
        assert forall|a: int, b: int| 0 <= a < b < es.drop_last().len() implies (
        #[trigger] es.drop_last()[a]).0 != (#[trigger] es.drop_last()[b]).0 by {
            assert(es.drop_last()[a] == es[a]);
            assert(es.drop_last()[b] == es[b]);
        }
        assert(es.drop_last()[i] == es[i]);
        lemma_lookup_remove(es.drop_last(), i, k);
        if k == es[i].0 {
            assert(es.last().0 != k);
        }
    }
}

/// Replacing entry `i` does not change the lookup of a key that neither the
/// old nor the new entry holds.
proof fn lemma_lookup_other(es: Seq<(Seq<char>, Seq<char>)>, i: int, e: (Seq<char>, Seq<char>), k: Seq<char>)
    requires
        0 <= i < es.len(),
        es[i].0 != k,
        e.0 != k,
    ensures
        lookup(es.update(i, e), k) == lookup(es, k),
    decreases es.len(),
{
    if i == es.len() - 1 {
        assert(es.update(i, e).drop_last() =~= es.drop_last());
    } else {
        assert(es.update(i, e).drop_last() =~= es.drop_last().update(i, e));
        lemma_lookup_other(es.drop_last(), i, e, k);
    }
}

/// A released terminal can be handed out again for its size: after a
/// release marks the terminal keyed `k` free, a request of that size
/// reuses a terminal.
pub proof fn law_released_is_reused(before: Map<usize, PoolEntry>, k: usize)
    requires
        before.contains_key(k),
    ensures
        can_reuse(
            before.insert(k, PoolEntry { in_use: false, ..before[k] }),
            before[k].width,
            before[k].height,
        ),
{
    let after = before.insert(k, PoolEntry { in_use: false, ..before[k] });
    assert(after.contains_key(k));
    assert(reusable(after[k], before[k].width, before[k].height));
}

/// The pool never holds more terminals than its capacity, and each
/// terminal is kept under its own identifier, so no two share one.
pub proof fn law_pool_within_capacity(p: PoolState)
    requires
        p.wf(),
    ensures
        p.entries_view().dom().len() <= p.capacity(),
        forall|k: usize| #[trigger] p.entries_view().contains_key(k) ==> p.entries_view()[k].id.value() == k,
{
}

/// The port handed out after `p`.
pub open spec fn port_after(p: u16) -> u16 {
    if p == 60000 {
        20000
    } else {
        (p + 1) as u16
    }
}

/// The port handed out `k` allocations after `p`.
pub open spec fn port_iter(p: u16, k: nat) -> u16
    decreases k,
{
    if k == 0 {
        p
    } else {
        port_after(port_iter(p, (k - 1) as nat))
    }
}

/// Ports cycle through 20000..=60000 in order.
proof fn lemma_port_iter(p: u16, k: nat)
    requires
        20000 <= p <= 60000,
    ensures
        port_iter(p, k) == 20000 + (p - 20000 + k) % 40001,
    decreases k,
{
    if k > 0 {
        lemma_port_iter(p, (k - 1) as nat);
        let q = port_iter(p, (k - 1) as nat);
        let a = (p - 20000 + k - 1) as int;
        assert(q == 20000 + a % 40001);
        assert(a % 40001 == 40000 ==> (a + 1) % 40001 == 0) by (nonlinear_arith)
            requires
                a >= 0,
        ;
        assert(a % 40001 < 40000 ==> (a + 1) % 40001 == a % 40001 + 1) by (nonlinear_arith)
            requires
                a >= 0,
        ;
    }
}

/// Ports stay in 20000..=60000, and a port comes back only after 40001
/// allocations: any fewer consecutive allocations give distinct ports.
pub proof fn law_ports_distinct(p: u16, j: nat, k: nat)
    requires
        20000 <= p <= 60000,
        j < k < j + 40001,
    ensures
        20000 <= port_iter(p, k) <= 60000,
        port_iter(p, j) != port_iter(p, k),
{
    lemma_port_iter(p, j);
    lemma_port_iter(p, k);
    let a = (p - 20000 + j) as int;
    let b = (p - 20000 + k) as int;
    assert(a % 40001 != b % 40001) by (nonlinear_arith)
        requires
            0 <= a < b < a + 40001,
    ;
}

/// Reading metadata gives back what was last stored under the key; storing
/// or removing under one key leaves the other keys as they were; a removed
/// key reads as absent.
pub proof fn law_metadata_read_after_write(
    m: Map<Seq<char>, Seq<char>>,
    key: Seq<char>,
    value: Seq<char>,
    other: Seq<char>,
)
    requires
        other != key,
    ensures
        m.insert(key, value).dom().contains(key),
        m.insert(key, value)[key] == value,
        m.insert(key, value).dom().contains(other) == m.dom().contains(other),
        m.dom().contains(other) ==> m.insert(key, value)[other] == m[other],
        !m.remove(key).dom().contains(key),
        m.remove(key).dom().contains(other) == m.dom().contains(other),
{
}

} // verus!
