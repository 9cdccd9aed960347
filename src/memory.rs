use std::collections::HashMap;
use vstd::prelude::*;

verus! {

broadcast use vstd::std_specs::hash::group_hash_axioms;

/// The state of one memory word: its value and the shard and clock of its last access.
#[derive(Clone, Copy, Debug, PartialEq, Eq, Structural)]
pub struct MemoryRecord {
    pub shard: u32,
    pub timestamp: u32,
    pub value: u32,
}

/// What one read of a word observed.
#[derive(Clone, Copy, Debug, PartialEq, Eq, Structural)]
pub struct MemoryReadRecord {
    pub value: u32,
    pub shard: u32,
    pub timestamp: u32,
    pub prev_shard: u32,
    pub prev_timestamp: u32,
}

/// What one write of a word replaced and stored.
#[derive(Clone, Copy, Debug, PartialEq, Eq, Structural)]
pub struct MemoryWriteRecord {
    pub value: u32,
    pub shard: u32,
    pub timestamp: u32,
    pub prev_value: u32,
    pub prev_shard: u32,
    pub prev_timestamp: u32,
}

/// The first and the last access of one address within the current scope.
#[derive(Clone, Copy, Debug, PartialEq, Eq, Structural)]
pub struct MemoryLocalEvent {
    pub addr: u32,
    pub initial_mem_access: MemoryRecord,
    pub final_mem_access: MemoryRecord,
}

/// The per-syscall handle into the running machine: clock, identifiers, memory,
/// the pending local-access log and the list of entries forwarded to the trace.
pub struct SyscallContext {
    pub clk: u32,
    pub shard: u32,
    pub channel: u8,
    pub syscall_lookup_id: u128,
    pub memory: HashMap<u32, MemoryRecord>,
    pub local_memory_access: HashMap<u32, MemoryLocalEvent>,
    pub forwarded_local_memory_access: Vec<MemoryLocalEvent>,
}

/// The record of a word that was never accessed.
pub open spec fn untouched_record() -> MemoryRecord {
    MemoryRecord { shard: 0, timestamp: 0, value: 0 }
}

/// The state of address `a` in memory `m`.
pub open spec fn record_at(m: Map<u32, MemoryRecord>, a: u32) -> MemoryRecord {
    if m.contains_key(a) {
        m[a]
    } else {
        untouched_record()
    }
}

/// The address of the `i`-th word of the span that starts at `base`.
pub open spec fn addr_of(base: u32, i: int) -> u32 {
    (base + 4 * i) as u32
}

/// A span of `n` words at `base` lies inside the 32-bit address space.
pub open spec fn span_fits(base: u32, n: int) -> bool {
    0 <= n && base + 4 * n <= 0x1_0000_0000
}

/// Address `a` is one of the `n` words of the span at `base`.
pub open spec fn in_span(a: u32, base: u32, n: int) -> bool {
    base <= a && a < base + 4 * n && (a - base) % 4 == 0
}

pub open spec fn span_set(base: u32, n: int) -> Set<u32> {
    Set::new(|a: u32| in_span(a, base, n))
}

/// The values held by the `n` words at `base`.
pub open spec fn span_values(m: Map<u32, MemoryRecord>, base: u32, n: int) -> Seq<u32> {
    Seq::new(n as nat, |i: int| record_at(m, addr_of(base, i)).value)
}

/// The entries of `log` for the words of the span, in address order, skipping absent ones.
pub open spec fn stale_entries(log: Map<u32, MemoryLocalEvent>, base: u32, n: int) -> Seq<
    MemoryLocalEvent,
>
    decreases n,
{
    if n <= 0 {
        seq![]
    } else if log.contains_key(addr_of(base, n - 1)) {
        stale_entries(log, base, n - 1).push(log[addr_of(base, n - 1)])
    } else {
        stale_entries(log, base, n - 1)
    }
}

/// Memory after the span is accessed at (`shard`, `clk`) and given the values `vals`.
pub open spec fn after_access(
    m: Map<u32, MemoryRecord>,
    base: u32,
    vals: Seq<u32>,
    shard: u32,
    clk: u32,
) -> Map<u32, MemoryRecord> {
    Map::new(
        |a: u32| m.contains_key(a) || in_span(a, base, vals.len() as int),
        |a: u32|
            if in_span(a, base, vals.len() as int) {
                MemoryRecord { shard, timestamp: clk, value: vals[(a - base) / 4] }
            } else {
                m[a]
            },
    )
}

pub open spec fn read_record(prev: MemoryRecord, shard: u32, clk: u32) -> MemoryReadRecord {
    MemoryReadRecord {
        value: prev.value,
        shard,
        timestamp: clk,
        prev_shard: prev.shard,
        prev_timestamp: prev.timestamp,
    }
}

pub open spec fn write_record(prev: MemoryRecord, value: u32, shard: u32, clk: u32) -> MemoryWriteRecord {
    MemoryWriteRecord {
        value,
        shard,
        timestamp: clk,
        prev_value: prev.value,
        prev_shard: prev.shard,
        prev_timestamp: prev.timestamp,
    }
}

/// The read records of the span, in address order.
pub open spec fn read_records(m: Map<u32, MemoryRecord>, base: u32, n: int, shard: u32, clk: u32) -> Seq<
    MemoryReadRecord,
> {
    Seq::new(n as nat, |i: int| read_record(record_at(m, addr_of(base, i)), shard, clk))
}

/// The write records of the span, in address order.
pub open spec fn write_records(
    m: Map<u32, MemoryRecord>,
    base: u32,
    vals: Seq<u32>,
    shard: u32,
    clk: u32,
) -> Seq<MemoryWriteRecord> {
    Seq::new(vals.len(), |i: int| write_record(record_at(m, addr_of(base, i)), vals[i], shard, clk))
}

/// The fresh local-access entries of one access of the span, in address order.
pub open spec fn fresh_entries(
    m: Map<u32, MemoryRecord>,
    base: u32,
    vals: Seq<u32>,
    shard: u32,
    clk: u32,
) -> Seq<MemoryLocalEvent> {
    Seq::new(
        vals.len(),
        |i: int|
            MemoryLocalEvent {
                addr: addr_of(base, i),
                initial_mem_access: record_at(m, addr_of(base, i)),
                final_mem_access: MemoryRecord { shard, timestamp: clk, value: vals[i] },
            },
    )
}

/// The fresh local-access entries of one access of the span, keyed by address.
pub open spec fn fresh_map(
    m: Map<u32, MemoryRecord>,
    base: u32,
    vals: Seq<u32>,
    shard: u32,
    clk: u32,
) -> Map<u32, MemoryLocalEvent> {
    Map::new(
        |a: u32| in_span(a, base, vals.len() as int),
        |a: u32| fresh_entries(m, base, vals, shard, clk)[(a - base) / 4],
    )
}

/// The log holds no entry for any word of the span.
pub open spec fn span_unlogged(log: Map<u32, MemoryLocalEvent>, base: u32, n: int) -> bool {
    forall|a: u32| #[trigger] log.contains_key(a) ==> !in_span(a, base, n)
}

pub proof fn lemma_addr_of_in_span(base: u32, n: int, i: int)
    requires
        span_fits(base, n),
        0 <= i < n,
    ensures
        in_span(addr_of(base, i), base, n),
        (addr_of(base, i) - base) / 4 == i,
        addr_of(base, i) == base + 4 * i,
{
}

pub proof fn lemma_span_prefix(a: u32, base: u32, i: int)
    requires
        0 <= i,
        span_fits(base, i + 1),
    ensures
        in_span(a, base, i + 1) <==> (in_span(a, base, i) || a == addr_of(base, i)),
{
}

/// One access of a span creates exactly one local-access entry for each of its words and
/// none for any other address.
pub proof fn lemma_fresh_entries_one_per_word(
    m: Map<u32, MemoryRecord>,
    base: u32,
    vals: Seq<u32>,
    shard: u32,
    clk: u32,
    a: u32,
)
    requires
        span_fits(base, vals.len() as int),
    ensures
        in_span(a, base, vals.len() as int) ==> exists|i: int|
            0 <= i < vals.len() && #[trigger] fresh_entries(m, base, vals, shard, clk)[i].addr == a,
        forall|i: int, j: int|
            0 <= i < vals.len() && 0 <= j < vals.len() && #[trigger] fresh_entries(
                m,
                base,
                vals,
                shard,
                clk,
            )[i].addr == a && #[trigger] fresh_entries(m, base, vals, shard, clk)[j].addr == a ==> i
                == j,
        !in_span(a, base, vals.len() as int) ==> forall|i: int|
            0 <= i < vals.len() ==> #[trigger] fresh_entries(m, base, vals, shard, clk)[i].addr != a,
{
    let n = vals.len() as int;
    let fe = fresh_entries(m, base, vals, shard, clk);
    if in_span(a, base, n) {
        let i = (a - base) / 4;
        lemma_addr_of_in_span(base, n, i);
        assert(fe[i].addr == a);
    }
    assert forall|i: int, j: int|
        0 <= i < n && 0 <= j < n && #[trigger] fe[i].addr == a && #[trigger] fe[j].addr == a implies i
        == j by {
        lemma_addr_of_in_span(base, n, i);
        lemma_addr_of_in_span(base, n, j);
    }
    assert forall|i: int| 0 <= i < n implies #[trigger] fe[i].addr != a || in_span(a, base, n) by {
        lemma_addr_of_in_span(base, n, i);
    }
}

/// `e` is the log's entry for one of the `n` words of the span at `base`.
pub open spec fn logged_in_span(log: Map<u32, MemoryLocalEvent>, base: u32, n: int, e: MemoryLocalEvent) -> bool {
    exists|i: int| 0 <= i < n && log.contains_key(#[trigger] addr_of(base, i)) && e == log[addr_of(base, i)]
}

/// The entries forwarded for a span are the log's entries for the span's words: each one
/// forwarded came from a word of the span, and each word of the span that had an entry
/// has it forwarded.
pub proof fn lemma_stale_entries_from_log(log: Map<u32, MemoryLocalEvent>, base: u32, n: int)
    requires
        span_fits(base, n),
    ensures
        stale_entries(log, base, n).len() <= n,
        forall|k: int|
            0 <= k < stale_entries(log, base, n).len() ==> logged_in_span(
                log,
                base,
                n,
                #[trigger] stale_entries(log, base, n)[k],
            ),
        forall|i: int|
            0 <= i < n && log.contains_key(#[trigger] addr_of(base, i)) ==> stale_entries(
                log,
                base,
                n,
            ).contains(log[addr_of(base, i)]),
    decreases n,
{
    if n > 0 {
        lemma_stale_entries_from_log(log, base, n - 1);
        let prev = stale_entries(log, base, n - 1);
        let cur = stale_entries(log, base, n);
        let a = addr_of(base, n - 1);
        assert forall|k: int| 0 <= k < cur.len() implies logged_in_span(log, base, n, #[trigger] cur[k]) by {
            if k < prev.len() {
                assert(cur[k] == prev[k]);
                assert(logged_in_span(log, base, n - 1, prev[k]));
                let i = choose|i: int|
                    0 <= i < n - 1 && log.contains_key(#[trigger] addr_of(base, i)) && prev[k]
                        == log[addr_of(base, i)];
                assert(0 <= i < n && log.contains_key(addr_of(base, i)) && cur[k] == log[addr_of(
                    base,
                    i,
                )]);
            } else {
                assert(cur != prev);
                assert(log.contains_key(a));
                assert(cur == prev.push(log[a]));
                assert(k == prev.len());
                assert(0 <= n - 1 < n && log.contains_key(addr_of(base, n - 1)) && cur[k] == log[addr_of(
                    base,
                    n - 1,
                )]);
            }
        }
        assert forall|i: int| 0 <= i < n && log.contains_key(#[trigger] addr_of(base, i)) implies cur.contains(
            log[addr_of(base, i)],
        ) by {
            if i < n - 1 {
                let k = choose|k: int| 0 <= k < prev.len() && prev[k] == log[addr_of(base, i)];
                assert(cur[k] == prev[k]);
            } else {
                assert(cur[cur.len() - 1] == log[a]);
            }
        }
    }
}

impl SyscallContext {
    /// The state of address `a` in this context's memory.
    pub fn record_of(&self, a: u32) -> (r: MemoryRecord)
        ensures
            r == record_at(self.memory@, a),
    {
        match self.memory.get(&a) {
            Some(r) => *r,
            None => MemoryRecord { shard: 0, timestamp: 0, value: 0 },
        }
    }

    /// The values of the `n` words at `base`, read without leaving any record.
    pub fn slice_values(&self, base: u32, n: usize) -> (r: Vec<u32>)
        requires
            span_fits(base, n as int),
        ensures
            r@ == span_values(self.memory@, base, n as int),
    {
        let mut out: Vec<u32> = Vec::new();
        let mut i: usize = 0;
        while i < n
            invariant
                i <= n,
                span_fits(base, n as int),
                out@ == span_values(self.memory@, base, i as int),
            decreases n - i,
        {
            let addr: u32 = base + (i as u32) * 4;
            let rec = self.record_of(addr);
            out.push(rec.value);
            i = i + 1;
            assert(out@ =~= span_values(self.memory@, base, i as int));
        }
        out
    }

    /// Moves every pending local-access entry of the span to the forwarded list,
    /// in address order.
    pub fn forward_stale(&mut self, base: u32, n: usize)
        requires
            span_fits(base, n as int),
        ensures
            final(self).local_memory_access@ == old(self).local_memory_access@.remove_keys(
                span_set(base, n as int),
            ),
            final(self).forwarded_local_memory_access@ == old(
                self,
            ).forwarded_local_memory_access@ + stale_entries(
                old(self).local_memory_access@,
                base,
                n as int,
            ),
            final(self).memory@ == old(self).memory@,
            final(self).clk == old(self).clk,
            final(self).shard == old(self).shard,
            final(self).channel == old(self).channel,
            final(self).syscall_lookup_id == old(self).syscall_lookup_id,
    {
        let ghost log0 = self.local_memory_access@;
        let ghost fwd0 = self.forwarded_local_memory_access@;
        let mut i: usize = 0;
        while i < n
            invariant
                i <= n,
                span_fits(base, n as int),
                self.local_memory_access@ == log0.remove_keys(span_set(base, i as int)),
                self.forwarded_local_memory_access@ == fwd0 + stale_entries(log0, base, i as int),
                self.memory@ == old(self).memory@,
                self.clk == old(self).clk,
                self.shard == old(self).shard,
                self.channel == old(self).channel,
                self.syscall_lookup_id == old(self).syscall_lookup_id,
            decreases n - i,
        {
            let addr: u32 = base + (i as u32) * 4;
            proof {
                lemma_addr_of_in_span(base, n as int, i as int);
                assert(!in_span(addr, base, i as int));
            }
            let pending = self.local_memory_access.remove(&addr);
            if let Some(entry) = pending {
                self.forwarded_local_memory_access.push(entry);
            }
            proof {
                assert forall|a: u32| #[trigger] span_set(base, i + 1).contains(a) <==> (span_set(
                    base,
                    i as int,
                ).contains(a) || a == addr) by {
                    lemma_span_prefix(a, base, i as int);
                }
                assert(self.local_memory_access@ =~= log0.remove_keys(span_set(base, i + 1)));
                assert(self.forwarded_local_memory_access@ =~= fwd0 + stale_entries(
                    log0,
                    base,
                    i + 1,
                ));
            }
            i = i + 1;
        }
    }

    /// Accesses one word at the current shard and clock, storing `value`, and logs the
    /// access as a fresh local-access entry. Returns the word's previous state.
    fn touch(&mut self, addr: u32, value: u32) -> (prev: MemoryRecord)
        requires
            !old(self).local_memory_access@.contains_key(addr),
        ensures
            prev == record_at(old(self).memory@, addr),
            final(self).memory@ == old(self).memory@.insert(
                addr,
                MemoryRecord { shard: old(self).shard, timestamp: old(self).clk, value },
            ),
            final(self).local_memory_access@ == old(self).local_memory_access@.insert(
                addr,
                MemoryLocalEvent {
                    addr,
                    initial_mem_access: prev,
                    final_mem_access: MemoryRecord {
                        shard: old(self).shard,
                        timestamp: old(self).clk,
                        value,
                    },
                },
            ),
            final(self).forwarded_local_memory_access@ == old(self).forwarded_local_memory_access@,
            final(self).clk == old(self).clk,
            final(self).shard == old(self).shard,
            final(self).channel == old(self).channel,
            final(self).syscall_lookup_id == old(self).syscall_lookup_id,
    {
        let prev = self.record_of(addr);
        let next = MemoryRecord { shard: self.shard, timestamp: self.clk, value };
        self.memory.insert(addr, next);
        self.local_memory_access.insert(
            addr,
            MemoryLocalEvent { addr, initial_mem_access: prev, final_mem_access: next },
        );
        prev
    }

    /// Accesses the span at `base` word by word, storing `vals`, and returns the
    /// previous state of each word.
    fn touch_span(&mut self, base: u32, vals: &Vec<u32>) -> (prevs: Vec<MemoryRecord>)
        requires
            span_fits(base, vals@.len() as int),
            span_unlogged(old(self).local_memory_access@, base, vals@.len() as int),
        ensures
            prevs@ == Seq::new(
                vals@.len(),
                |i: int| record_at(old(self).memory@, addr_of(base, i)),
            ),
            final(self).memory@ == after_access(
                old(self).memory@,
                base,
                vals@,
                old(self).shard,
                old(self).clk,
            ),
            final(self).local_memory_access@ == old(self).local_memory_access@.union_prefer_right(
                fresh_map(old(self).memory@, base, vals@, old(self).shard, old(self).clk),
            ),
            final(self).forwarded_local_memory_access@ == old(self).forwarded_local_memory_access@,
            final(self).clk == old(self).clk,
            final(self).shard == old(self).shard,
            final(self).channel == old(self).channel,
            final(self).syscall_lookup_id == old(self).syscall_lookup_id,
    {
        let ghost m0 = self.memory@;
        let ghost log0 = self.local_memory_access@;
        let ghost shard = self.shard;
        let ghost clk = self.clk;
        let n = vals.len();
        let mut prevs: Vec<MemoryRecord> = Vec::new();
        let mut i: usize = 0;
        while i < n
            invariant
                i <= n,
                n == vals@.len(),
                span_fits(base, n as int),
                span_unlogged(log0, base, n as int),
                prevs@ == Seq::new(i as nat, |k: int| record_at(m0, addr_of(base, k))),
                self.memory@ == after_access(m0, base, vals@.subrange(0, i as int), shard, clk),
                self.local_memory_access@ == log0.union_prefer_right(
                    fresh_map(m0, base, vals@.subrange(0, i as int), shard, clk),
                ),
                self.forwarded_local_memory_access@ == old(self).forwarded_local_memory_access@,
                self.clk == clk,
                self.shard == shard,
                self.channel == old(self).channel,
                self.syscall_lookup_id == old(self).syscall_lookup_id,
            decreases n - i,
        {
            let addr: u32 = base + (i as u32) * 4;
            proof {
                lemma_addr_of_in_span(base, n as int, i as int);
                assert(!in_span(addr, base, i as int));
                assert(record_at(self.memory@, addr) == record_at(m0, addr));
            }
            let prev = self.touch(addr, vals[i]);
            prevs.push(prev);
            proof {
                let pre = vals@.subrange(0, i as int);
                let post = vals@.subrange(0, i + 1);
                assert forall|a: u32| #[trigger] in_span(a, base, i + 1) <==> (in_span(
                    a,
                    base,
                    i as int,
                ) || a == addr) by {
                    lemma_span_prefix(a, base, i as int);
                }
                assert forall|a: u32| in_span(a, base, i as int) implies #[trigger] post[(a - base)
                    / 4] == pre[(a - base) / 4] by {}
                assert(self.memory@ =~= after_access(m0, base, post, shard, clk));
                assert(self.local_memory_access@ =~= log0.union_prefer_right(
                    fresh_map(m0, base, post, shard, clk),
                ));
                assert(prevs@ =~= Seq::new((i + 1) as nat, |k: int| record_at(m0, addr_of(base, k))));
            }
            i = i + 1;
        }
        proof {
            assert(vals@.subrange(0, n as int) =~= vals@);
        }
        prevs
    }

    /// Removes the log entry of every word of the span and appends them, in address
    /// order, to `locals`.
    fn drain_span(&mut self, base: u32, n: usize, locals: &mut Vec<MemoryLocalEvent>)
        requires
            span_fits(base, n as int),
            forall|i: int|
                0 <= i < n ==> old(self).local_memory_access@.contains_key(
                    #[trigger] addr_of(base, i),
                ),
        ensures
            final(locals)@ == old(locals)@ + Seq::new(
                n as nat,
                |i: int| old(self).local_memory_access@[addr_of(base, i)],
            ),
            final(self).local_memory_access@ == old(self).local_memory_access@.remove_keys(
                span_set(base, n as int),
            ),
            final(self).memory@ == old(self).memory@,
            final(self).forwarded_local_memory_access@ == old(self).forwarded_local_memory_access@,
            final(self).clk == old(self).clk,
            final(self).shard == old(self).shard,
            final(self).channel == old(self).channel,
            final(self).syscall_lookup_id == old(self).syscall_lookup_id,
    {
        let ghost log0 = self.local_memory_access@;
        let ghost l0 = locals@;
        let mut i: usize = 0;
        while i < n
            invariant
                i <= n,
                span_fits(base, n as int),
                forall|k: int| 0 <= k < n ==> log0.contains_key(#[trigger] addr_of(base, k)),
                self.local_memory_access@ == log0.remove_keys(span_set(base, i as int)),
                locals@ == l0 + Seq::new(i as nat, |k: int| log0[addr_of(base, k)]),
                self.memory@ == old(self).memory@,
                self.forwarded_local_memory_access@ == old(self).forwarded_local_memory_access@,
                self.clk == old(self).clk,
                self.shard == old(self).shard,
                self.channel == old(self).channel,
                self.syscall_lookup_id == old(self).syscall_lookup_id,
            decreases n - i,
        {
            let addr: u32 = base + (i as u32) * 4;
            proof {
                lemma_addr_of_in_span(base, n as int, i as int);
                assert(!in_span(addr, base, i as int));
                assert(log0.contains_key(addr_of(base, i as int)));
            }
            let entry = self.local_memory_access.remove(&addr);
            if let Some(e) = entry {
                locals.push(e);
            }
            proof {
                assert forall|a: u32| #[trigger] span_set(base, i + 1).contains(a) <==> (span_set(
                    base,
                    i as int,
                ).contains(a) || a == addr) by {
                    lemma_span_prefix(a, base, i as int);
                }
                assert(self.local_memory_access@ =~= log0.remove_keys(span_set(base, i + 1)));
                assert(locals@ =~= l0 + Seq::new((i + 1) as nat, |k: int| log0[addr_of(base, k)]));
            }
            i = i + 1;
        }
    }

    /// Reads the `n` words at `base`: first forwards the pending log entries of the span,
    /// then reads each word at the current shard and clock, then moves the log entries
    /// that the reads created, in address order, to `locals`.
    pub fn read_span(&mut self, base: u32, n: usize, locals: &mut Vec<MemoryLocalEvent>) -> (r: (
        Vec<MemoryReadRecord>,
        Vec<u32>,
    ))
        requires
            span_fits(base, n as int),
        ensures
            r.0@ == read_records(old(self).memory@, base, n as int, old(self).shard, old(self).clk),
            r.1@ == span_values(old(self).memory@, base, n as int),
            final(self).memory@ == after_access(
                old(self).memory@,
                base,
                span_values(old(self).memory@, base, n as int),
                old(self).shard,
                old(self).clk,
            ),
            final(locals)@ == old(locals)@ + fresh_entries(
                old(self).memory@,
                base,
                span_values(old(self).memory@, base, n as int),
                old(self).shard,
                old(self).clk,
            ),
            final(self).local_memory_access@ == old(self).local_memory_access@.remove_keys(
                span_set(base, n as int),
            ),
            final(self).forwarded_local_memory_access@ == old(
                self,
            ).forwarded_local_memory_access@ + stale_entries(old(self).local_memory_access@, base, n as int),
            final(self).clk == old(self).clk,
            final(self).shard == old(self).shard,
            final(self).channel == old(self).channel,
            final(self).syscall_lookup_id == old(self).syscall_lookup_id,
    {
        let ghost m0 = self.memory@;
        let ghost log0 = self.local_memory_access@;
        self.forward_stale(base, n);
        let ghost log1 = self.local_memory_access@;
        let vals = self.slice_values(base, n);
        let prevs = self.touch_span(base, &vals);
        let ghost log2 = self.local_memory_access@;
        proof {
            assert forall|i: int| 0 <= i < n implies log2.contains_key(#[trigger] addr_of(base, i)) by {
                lemma_addr_of_in_span(base, n as int, i);
            }
        }
        self.drain_span(base, n, locals);
        let mut records: Vec<MemoryReadRecord> = Vec::new();
        let mut i: usize = 0;
        while i < n
            invariant
                i <= n,
                prevs@.len() == n,
                forall|k: int| 0 <= k < n ==> prevs@[k] == record_at(m0, #[trigger] addr_of(base, k)),
                records@ == read_records(m0, base, i as int, self.shard, self.clk),
            decreases n - i,
        {
            let prev = prevs[i];
            records.push(
                MemoryReadRecord {
                    value: prev.value,
                    shard: self.shard,
                    timestamp: self.clk,
                    prev_shard: prev.shard,
                    prev_timestamp: prev.timestamp,
                },
            );
            i = i + 1;
            proof {
                assert(records@ =~= read_records(m0, base, i as int, self.shard, self.clk));
            }
        }
        proof {
            let fresh = fresh_entries(m0, base, vals@, old(self).shard, old(self).clk);
            assert forall|i: int| 0 <= i < n implies #[trigger] log2[addr_of(base, i)] == fresh[i] by {
                lemma_addr_of_in_span(base, n as int, i);
            }
            assert(Seq::new(n as nat, |i: int| log2[addr_of(base, i)]) =~= fresh);
            assert(self.local_memory_access@ =~= log1);
            assert(log1 =~= log0.remove_keys(span_set(base, n as int)));
        }
        (records, vals)
    }

    /// Writes `vals` to the words at `base`: first forwards the pending log entries of the
    /// span, then writes each word at the current shard and clock, then moves the log
    /// entries that the writes created, in address order, to `locals`.
    pub fn write_span(&mut self, base: u32, vals: &Vec<u32>, locals: &mut Vec<MemoryLocalEvent>) -> (r:
        Vec<MemoryWriteRecord>)
        requires
            span_fits(base, vals@.len() as int),
        ensures
            r@ == write_records(old(self).memory@, base, vals@, old(self).shard, old(self).clk),
            final(self).memory@ == after_access(
                old(self).memory@,
                base,
                vals@,
                old(self).shard,
                old(self).clk,
            ),
            final(locals)@ == old(locals)@ + fresh_entries(
                old(self).memory@,
                base,
                vals@,
                old(self).shard,
                old(self).clk,
            ),
            final(self).local_memory_access@ == old(self).local_memory_access@.remove_keys(
                span_set(base, vals@.len() as int),
            ),
            final(self).forwarded_local_memory_access@ == old(
                self,
            ).forwarded_local_memory_access@ + stale_entries(old(self).local_memory_access@, base, vals@.len() as int),
            final(self).clk == old(self).clk,
            final(self).shard == old(self).shard,
            final(self).channel == old(self).channel,
            final(self).syscall_lookup_id == old(self).syscall_lookup_id,
    {
        let ghost m0 = self.memory@;
        let ghost log0 = self.local_memory_access@;
        let n = vals.len();
        self.forward_stale(base, n);
        let ghost log1 = self.local_memory_access@;
        let prevs = self.touch_span(base, vals);
        let ghost log2 = self.local_memory_access@;
        proof {
            assert forall|i: int| 0 <= i < n implies log2.contains_key(#[trigger] addr_of(base, i)) by {
                lemma_addr_of_in_span(base, n as int, i);
            }
        }
        self.drain_span(base, n, locals);
        let mut records: Vec<MemoryWriteRecord> = Vec::new();
        let mut i: usize = 0;
        while i < n
            invariant
                i <= n,
                n == vals@.len(),
                prevs@.len() == n,
                forall|k: int| 0 <= k < n ==> prevs@[k] == record_at(m0, #[trigger] addr_of(base, k)),
                records@ == write_records(m0, base, vals@.subrange(0, i as int), self.shard, self.clk),
            decreases n - i,
        {
            let prev = prevs[i];
            records.push(
                MemoryWriteRecord {
                    value: vals[i],
                    shard: self.shard,
                    timestamp: self.clk,
                    prev_value: prev.value,
                    prev_shard: prev.shard,
                    prev_timestamp: prev.timestamp,
                },
            );
            i = i + 1;
            proof {
                assert(records@ =~= write_records(m0, base, vals@.subrange(0, i as int), self.shard, self.clk));
            }
        }
        proof {
            assert(vals@.subrange(0, n as int) =~= vals@);
            let fresh = fresh_entries(m0, base, vals@, old(self).shard, old(self).clk);
            assert forall|i: int| 0 <= i < n implies #[trigger] log2[addr_of(base, i)] == fresh[i] by {
                lemma_addr_of_in_span(base, n as int, i);
            }
            assert(Seq::new(n as nat, |i: int| log2[addr_of(base, i)]) =~= fresh);
            assert(self.local_memory_access@ =~= log1);
            assert(log1 =~= log0.remove_keys(span_set(base, n as int)));
        }
        records
    }
}

} // verus!
