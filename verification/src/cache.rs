//! The schema cache and the bounded retry of a metadata fetch.
//!
//! The cache keeps one table's metadata per keyspace and table name, for as
//! long as it lives. Looking a table up is a sequence of steps that the caller
//! carries out: a cached table is delivered at once; otherwise the metadata is
//! fetched, after the pause that the retry policy sets for that attempt, until
//! a fetch succeeds or the attempts are used up.

use crate::db::{DescribeTable, TableSchema};
use crate::text::str_eq;
use vstd::prelude::*;
use vstd::string::*;

verus! {

/// One cached table.
#[derive(Debug, Clone, PartialEq)]
pub struct CacheEntry {
    keyspace: String,
    table: String,
    schema: DescribeTable,
}

/// The cache of table metadata, by keyspace and table name.
#[derive(Debug, Clone, PartialEq)]
pub struct SchemaCache {
    entries: Vec<CacheEntry>,
}

/// The key under which a table is cached.
pub type TableKey = (Seq<char>, Seq<char>);

/// The key of an entry.
spec fn key_of(entry: CacheEntry) -> TableKey {
    (entry.keyspace@, entry.table@)
}

/// The position of the first entry with the key, or the number of entries
/// if there is none.
spec fn slot_of(entries: Seq<CacheEntry>, key: TableKey) -> int
    decreases entries.len(),
{
    if entries.len() == 0 {
        0
    } else if key_of(entries[0]) == key {
        0
    } else {
        1 + slot_of(entries.drop_first(), key)
    }
}

proof fn lemma_slot_of(entries: Seq<CacheEntry>, key: TableKey)
    ensures
        0 <= slot_of(entries, key) <= entries.len(),
        slot_of(entries, key) < entries.len() ==> key_of(entries[slot_of(entries, key)]) == key,
        forall|j: int| 0 <= j < slot_of(entries, key) ==> key_of(#[trigger] entries[j]) != key,
    decreases entries.len(),
{
    if entries.len() > 0 && key_of(entries[0]) != key {
        let rest = entries.drop_first();
        lemma_slot_of(rest, key);
        assert forall|j: int| 0 <= j < slot_of(entries, key) implies key_of(#[trigger] entries[j])
            != key by {
            if j > 0 {
                assert(entries[j] == rest[j - 1]);
            }
        }
    }
}

proof fn lemma_slot_found(entries: Seq<CacheEntry>, key: TableKey, at: int)
    requires
        0 <= at <= entries.len(),
        forall|j: int| 0 <= j < at ==> key_of(#[trigger] entries[j]) != key,
        at < entries.len() ==> key_of(entries[at]) == key,
    ensures
        slot_of(entries, key) == at,
{
    lemma_slot_of(entries, key);
    let k = slot_of(entries, key);
    if k < at {
        assert(key_of(entries[k]) != key);
    } else if k > at {
        assert(key_of(entries[at]) != key);
    }
}

/// The tables that a run of entries caches.
spec fn cached(entries: Seq<CacheEntry>) -> Map<TableKey, TableSchema> {
    Map::new(
        |key: TableKey| slot_of(entries, key) < entries.len(),
        |key: TableKey| entries[slot_of(entries, key)].schema@,
    )
}

impl View for SchemaCache {
    type V = Map<TableKey, TableSchema>;

    closed spec fn view(&self) -> Map<TableKey, TableSchema> {
        cached(self.entries@)
    }
}

impl SchemaCache {
    /// An empty cache.
    pub fn new() -> (cache: SchemaCache)
        ensures
            cache@ == Map::<TableKey, TableSchema>::empty(),
    {
        let cache = SchemaCache { entries: Vec::new() };
        assert(cache@ =~= Map::<TableKey, TableSchema>::empty());
        cache
    }

    fn find(&self, keyspace: &str, table: &str) -> (at: usize)
        ensures
            at == slot_of(self.entries@, (keyspace@, table@)),
            at <= self.entries@.len(),
    {
        let mut i: usize = 0;
        while i < self.entries.len()
            invariant
                i <= self.entries.len(),
                forall|j: int|
                    0 <= j < i ==> key_of(#[trigger] self.entries@[j]) != (keyspace@, table@),
            decreases self.entries.len() - i,
        {
            let entry = &self.entries[i];
            if str_eq(entry.keyspace.as_str(), keyspace) && str_eq(entry.table.as_str(), table) {
                proof {
                    lemma_slot_found(self.entries@, (keyspace@, table@), i as int);
                }
                return i;
            }
            i += 1;
        }
        proof {
            lemma_slot_found(self.entries@, (keyspace@, table@), i as int);
        }
        i
    }

    /// Looks a table up; a cached table is returned as a copy.
    pub fn get(&self, keyspace: &str, table: &str) -> (found: Option<DescribeTable>)
        ensures
            match found {
                Some(schema) => self@.contains_key((keyspace@, table@)) && schema@ == self@[(
                    keyspace@,
                    table@,
                )],
                None => !self@.contains_key((keyspace@, table@)),
            },
    {
        let at = self.find(keyspace, table);
        if at < self.entries.len() {
            Some(self.entries[at].schema.duplicate())
        } else {
            None
        }
    }

    /// Caches a table's metadata, in place of what was cached for it before.
    pub fn insert(&mut self, keyspace: &str, table: &str, schema: DescribeTable)
        ensures
            final(self)@ == old(self)@.insert((keyspace@, table@), schema@),
    {
        let at = self.find(keyspace, table);
        let ghost before = self.entries@;
        let ghost key = (keyspace@, table@);
        let ghost value = schema@;
        let entry = CacheEntry { keyspace: keyspace.to_owned(), table: table.to_owned(), schema };
        if at < self.entries.len() {
            self.entries.set(at, entry);
        } else {
            self.entries.push(entry);
        }
        proof {
            let after = self.entries@;
            lemma_slot_of(before, key);
            assert forall|other: TableKey| #[trigger] slot_of(after, other) == (if other == key {
                at as int
            } else if slot_of(before, other) < before.len() {
                slot_of(before, other)
            } else {
                after.len() as int
            }) by {
                lemma_slot_of(before, other);
                let s = slot_of(before, other);
                if other == key {
                    assert forall|j: int| 0 <= j < at implies key_of(#[trigger] after[j])
                        != other by {
                        assert(after[j] == before[j]);
                    }
                    lemma_slot_found(after, other, at as int);
                } else if s < before.len() {
                    assert forall|j: int| 0 <= j < s implies key_of(#[trigger] after[j])
                        != other by {
                        if j != at {
                            assert(after[j] == before[j]);
                        }
                    }
                    assert(after[s] == before[s]);
                    lemma_slot_found(after, other, s);
                } else {
                    assert forall|j: int| 0 <= j < after.len() implies key_of(
                        #[trigger] after[j],
                    ) != other by {
                        if j != at {
                            assert(after[j] == before[j]);
                        }
                    }
                    lemma_slot_found(after, other, after.len() as int);
                }
            }
            assert(cached(after) =~= cached(before).insert(key, value)) by {
                assert forall|other: TableKey| cached(after).contains_key(other) == cached(
                    before,
                ).insert(key, value).contains_key(other) by {
                    lemma_slot_of(before, other);
                }
                assert forall|other: TableKey| cached(after).contains_key(other) implies cached(
                    after,
                )[other] == cached(before).insert(key, value)[other] by {
                    lemma_slot_of(before, other);
                    if other != key {
                        assert(after[slot_of(before, other)] == before[slot_of(before, other)]);
                    }
                }
            }
        }
    }
}

/// The pauses before the attempts of a metadata fetch, one per attempt: as
/// many attempts are made as there are pauses.
#[derive(Debug, Clone, PartialEq)]
pub struct RetryPolicy {
    pub delays_ms: Vec<u64>,
}

/// The pauses of the standard policy: three attempts, the first at once, the
/// second after 50 ms, the third after 150 ms.
pub open spec fn standard_delays() -> Seq<u64> {
    seq![0u64, 50u64, 150u64]
}

impl RetryPolicy {
    /// The standard policy.
    pub fn standard() -> (policy: RetryPolicy)
        ensures
            policy.delays_ms@ == standard_delays(),
    {
        let mut delays_ms: Vec<u64> = Vec::new();
        delays_ms.push(0);
        delays_ms.push(50);
        delays_ms.push(150);
        assert(delays_ms@ =~= standard_delays());
        RetryPolicy { delays_ms }
    }

    /// The number of attempts the policy allows.
    pub fn max_attempts(&self) -> (n: usize)
        ensures
            n == self.delays_ms@.len(),
    {
        self.delays_ms.len()
    }
}

/// What the caller does next in a lookup.
#[derive(Debug, Clone, PartialEq)]
pub enum SchemaStep {
    /// The lookup is over: this is the table's metadata.
    Deliver(DescribeTable),
    /// Wait for `delay_ms`, fetch the metadata, and report the outcome as
    /// attempt number `attempt`, counted from zero.
    Fetch { attempt: usize, delay_ms: u64 },
    /// The lookup is over: it failed, for this reason.
    Fail(String),
}

/// The mathematical value of a [`SchemaStep`].
pub enum Step {
    Deliver(TableSchema),
    Fetch { attempt: nat, delay_ms: u64 },
    Fail(Seq<char>),
}

impl View for SchemaStep {
    type V = Step;

    open spec fn view(&self) -> Step {
        match self {
            SchemaStep::Deliver(schema) => Step::Deliver(schema@),
            SchemaStep::Fetch { attempt, delay_ms } => Step::Fetch {
                attempt: *attempt as nat,
                delay_ms: *delay_ms,
            },
            SchemaStep::Fail(reason) => Step::Fail(reason@),
        }
    }
}

/// The outcome of one fetch: the metadata, or the reason for the failure.
pub open spec fn outcome_view(outcome: Result<DescribeTable, String>) -> Result<
    TableSchema,
    Seq<char>,
> {
    match outcome {
        Ok(schema) => Ok(schema@),
        Err(reason) => Err(reason@),
    }
}

/// The first step of a lookup: a cached table is delivered; otherwise the
/// first attempt is made, if the policy allows any.
pub open spec fn first_step(cache: Map<TableKey, TableSchema>, delays: Seq<u64>, key: TableKey) -> Step {
    if cache.contains_key(key) {
        Step::Deliver(cache[key])
    } else if delays.len() > 0 {
        Step::Fetch { attempt: 0, delay_ms: delays[0] }
    } else {
        Step::Fail("unknown schema error"@)
    }
}

/// The step after attempt number `attempt` has ended: fetched metadata is
/// delivered; after a failure the next attempt is made if the policy allows
/// one more, else the lookup fails for the reason of this last failure.
pub open spec fn next_step(delays: Seq<u64>, attempt: nat, outcome: Result<TableSchema, Seq<char>>) -> Step {
    match outcome {
        Ok(schema) => Step::Deliver(schema),
        Err(reason) => if attempt + 1 < delays.len() {
            Step::Fetch { attempt: attempt + 1, delay_ms: delays[attempt as int + 1] }
        } else {
            Step::Fail(reason)
        },
    }
}

/// The cache after attempt has ended: fetched metadata is cached, a failure
/// changes nothing.
pub open spec fn cache_after(
    cache: Map<TableKey, TableSchema>,
    key: TableKey,
    outcome: Result<TableSchema, Seq<char>>,
) -> Map<TableKey, TableSchema> {
    match outcome {
        Ok(schema) => cache.insert(key, schema),
        Err(_) => cache,
    }
}

/// Starts a lookup of a table's metadata.
pub fn begin_lookup(cache: &SchemaCache, policy: &RetryPolicy, keyspace: &str, table: &str) -> (step:
    SchemaStep)
    ensures
        step@ == first_step(cache@, policy.delays_ms@, (keyspace@, table@)),
{
    match cache.get(keyspace, table) {
        Some(schema) => SchemaStep::Deliver(schema),
        None => if policy.delays_ms.len() > 0 {
            SchemaStep::Fetch { attempt: 0, delay_ms: policy.delays_ms[0] }
        } else {
            SchemaStep::Fail(String::from_str("unknown schema error"))
        },
    }
}

/// Continues a lookup after attempt number `attempt` has ended with
/// `outcome`.
pub fn after_fetch(
    cache: &mut SchemaCache,
    policy: &RetryPolicy,
    keyspace: &str,
    table: &str,
    attempt: usize,
    outcome: Result<DescribeTable, String>,
) -> (step: SchemaStep)
    ensures
        step@ == next_step(policy.delays_ms@, attempt as nat, outcome_view(outcome)),
        final(cache)@ == cache_after(old(cache)@, (keyspace@, table@), outcome_view(outcome)),
{
    match outcome {
        Ok(schema) => {
            let copy = schema.duplicate();
            cache.insert(keyspace, table, schema);
            SchemaStep::Deliver(copy)
        },
        Err(reason) => {
            let attempts = policy.delays_ms.len();
            if attempts > 0 && attempt < attempts - 1 {
                SchemaStep::Fetch { attempt: attempt + 1, delay_ms: policy.delays_ms[attempt + 1] }
            } else {
                SchemaStep::Fail(reason)
            }
        },
    }
}

/// Once a table's metadata has been fetched and cached, a lookup of that
/// table delivers the same metadata and asks for no fetch; and a lookup that
/// delivers from the cache leaves the cache as it was, so that the next one
/// delivers the same again.
pub proof fn lemma_lookup_idempotent(
    cache: Map<TableKey, TableSchema>,
    delays: Seq<u64>,
    key: TableKey,
    attempt: nat,
    schema: TableSchema,
)
    ensures
        next_step(delays, attempt, Ok(schema)) == Step::Deliver(schema),
        first_step(cache_after(cache, key, Ok(schema)), delays, key) == Step::Deliver(schema),
        cache.contains_key(key) ==> first_step(cache, delays, key) == Step::Deliver(cache[key]),
{
}

/// A lookup makes no more attempts than the policy has pauses: an attempt is
/// only ever asked for with a number below that count, each failure asks for
/// the attempt with the next number or ends the lookup, and the lookup that
/// fails reports the reason of its last failure.
pub proof fn lemma_attempts_bounded(
    cache: Map<TableKey, TableSchema>,
    delays: Seq<u64>,
    key: TableKey,
    attempt: nat,
    reason: Seq<char>,
)
    ensures
        first_step(cache, delays, key) matches Step::Fetch { attempt: a, delay_ms: d } ==> a == 0
            && a < delays.len() && d == delays[0],
        next_step(delays, attempt, Err(reason)) matches Step::Fetch { attempt: a, delay_ms: d }
            ==> a == attempt + 1 && a < delays.len() && d == delays[a as int],
        attempt + 1 >= delays.len() ==> next_step(delays, attempt, Err(reason)) == Step::Fail(
            reason,
        ),
{
}

/// How a lookup that is at attempt number `attempt` ends, given the outcomes
/// of the fetches from that attempt on, in order; `None` while the outcomes
/// given do not yet end it.
pub open spec fn lookup_end(
    delays: Seq<u64>,
    attempt: nat,
    outcomes: Seq<Result<TableSchema, Seq<char>>>,
) -> Option<Step>
    decreases outcomes.len(),
{
    if outcomes.len() == 0 {
        None
    } else {
        match next_step(delays, attempt, outcomes[0]) {
            Step::Fetch { attempt: next, .. } => lookup_end(delays, next, outcomes.drop_first()),
            end => Some(end),
        }
    }
}

/// A lookup ends with the first fetch that succeeds, delivering what it
/// fetched, provided that the policy allows that many attempts; and it ends
/// with the last attempt that the policy allows if that fails too, failing
/// for the reason of that last failure. It never waits for more outcomes
/// than the policy allows attempts.
pub proof fn lemma_lookup_ends(
    delays: Seq<u64>,
    attempt: nat,
    outcomes: Seq<Result<TableSchema, Seq<char>>>,
    last: int,
)
    requires
        0 <= last < outcomes.len(),
        attempt + last < delays.len(),
        forall|k: int| 0 <= k < last ==> (#[trigger] outcomes[k]) is Err,
        outcomes[last] is Ok || attempt + last + 1 == delays.len(),
    ensures
        lookup_end(delays, attempt, outcomes) == Some(
            match outcomes[last] {
                Ok(schema) => Step::Deliver(schema),
                Err(reason) => Step::Fail(reason),
            },
        ),
    decreases last,
{
    if last > 0 {
        assert(outcomes[0] is Err);
        let rest = outcomes.drop_first();
        assert forall|k: int| 0 <= k < last - 1 implies (#[trigger] rest[k]) is Err by {
            assert(rest[k] == outcomes[k + 1]);
        }
        assert(rest[last - 1] == outcomes[last]);
        lemma_lookup_ends(delays, attempt + 1, rest, last - 1);
    }
}

} // verus!
