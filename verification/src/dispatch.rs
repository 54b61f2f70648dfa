//! The dispatcher: admits the download list into a bounded worker pool in
//! declaration order, aggregates per-item outcomes, commits each fetched
//! item under its batch key, and writes the readiness sentinel only when
//! every item of the batch succeeded.

use vstd::prelude::*;

use crate::batch::{
    lemma_marker_key_is_no_object_key, object_key, spec_marker_key, spec_object_key, BatchInfo,
};
use crate::errors::{FetchError, ItemError};
use crate::resolver::DownloadItem;
use crate::storage::{mark_batch_ready, spec_mark_ready, Storage};

verus! {

/// Concurrency limit used when the configuration does not set one: it
/// bounds simultaneous outbound connections and in-memory buffers.
pub const DEFAULT_CONCURRENT_REQUESTS: usize = 4;

/// Fixed configuration of the dispatcher, shared read-only by every task.
pub struct DispatcherConfig {
    pub bucket_name: String,
    pub default_concurrent_requests: usize,
    pub default_chunk_size: usize,
}

/// The recorded outcome of one item: its name, and either success or the
/// failure that is reported without cancelling the item's siblings.
pub struct ItemResult {
    pub name: String,
    pub outcome: Result<(), ItemError>,
}

/// Whether every item of the batch succeeded: only then may the readiness
/// sentinel be written.
pub open spec fn all_succeeded(rs: Seq<ItemResult>) -> bool {
    forall|i: int| 0 <= i < rs.len() ==> (#[trigger] rs[i]).outcome is Ok
}

/// Decides whether a batch may be marked ready: true exactly when every
/// item's result is a success.
pub fn batch_is_ready(results: &Vec<ItemResult>) -> (r: bool)
    ensures
        r == all_succeeded(results@),
{
    let n = results.len();
    let mut k: usize = 0;
    while k < n
        invariant
            k <= n,
            n == results@.len(),
            forall|i: int| 0 <= i < k ==> (#[trigger] results@[i]).outcome is Ok,
        decreases n - k,
    {
        match &results[k].outcome {
            Ok(_) => {
            },
            Err(_) => {
                return false;
            },
        }
        k = k + 1;
    }
    true
}

/// The per-item fetch outcomes as the store model sees them: the bytes of
/// each successful download, nothing for a failed one.
pub open spec fn fetched_bytes(fetched: Seq<Result<Vec<u8>, FetchError>>) -> Seq<
    Option<Seq<u8>>,
> {
    fetched.map_values(
        |r: Result<Vec<u8>, FetchError>|
            match r {
                Ok(v) => Some(v@),
                Err(_) => None,
            },
    )
}

/// What committing the first `n` items does to the store: each fetched
/// item's bytes under its object key, in order; failed items write
/// nothing.
pub open spec fn spec_commit_items(
    m: Map<Seq<char>, Seq<u8>>,
    b: BatchInfo,
    names: Seq<Seq<char>>,
    fetched: Seq<Option<Seq<u8>>>,
    n: int,
) -> Map<Seq<char>, Seq<u8>>
    decreases n,
{
    if n <= 0 {
        m
    } else {
        let prev = spec_commit_items(m, b, names, fetched, n - 1);
        match fetched[n - 1] {
            Some(bytes) => prev.insert(spec_object_key(b, names[n - 1]), bytes),
            None => prev,
        }
    }
}

/// The names of a download list.
pub open spec fn item_names(items: Seq<DownloadItem>) -> Seq<Seq<char>> {
    items.map_values(|d: DownloadItem| d.name@)
}

/// What one whole run does to the store: the successful items' objects,
/// and the readiness sentinel if and only if no item failed.
pub open spec fn spec_dispatch(
    m: Map<Seq<char>, Seq<u8>>,
    b: BatchInfo,
    names: Seq<Seq<char>>,
    fetched: Seq<Option<Seq<u8>>>,
) -> Map<Seq<char>, Seq<u8>> {
    let committed = spec_commit_items(m, b, names, fetched, fetched.len() as int);
    if forall|i: int| 0 <= i < fetched.len() ==> (#[trigger] fetched[i]) is Some {
        spec_mark_ready(committed, b)
    } else {
        committed
    }
}

/// The dispatcher of one batch; the network and store clients stay with
/// the caller, which performs each fetch and mirrors each committed write.
pub struct Dispatcher {
    pub config: DispatcherConfig,
}

impl Dispatcher {
    pub fn new(config: DispatcherConfig) -> (r: Dispatcher)
        ensures
            r.config == config,
    {
        Dispatcher { config }
    }

    /// The effective concurrency limit: the requested one, or the
    /// configured default.
    pub fn concurrency_limit(&self, requested: Option<usize>) -> (r: usize)
        ensures
            r == match requested {
                Some(c) => c,
                None => self.config.default_concurrent_requests,
            },
    {
        match requested {
            Some(c) => c,
            None => self.config.default_concurrent_requests,
        }
    }

    /// Stamps the batch identity from the current instant's milliseconds.
    pub fn create_batch_info(&self, now_millis: u64) -> (r: Option<BatchInfo>)
        ensures
            match r {
                Some(b) => now_millis <= crate::batch::MAX_DATE_MILLIS
                    && crate::batch::batch_info_of(b, now_millis),
                None => now_millis > crate::batch::MAX_DATE_MILLIS,
            },
    {
        BatchInfo::from_millis(now_millis)
    }

    /// Commits every fetched item under its batch key and records one
    /// result per item, in order: a success for each stored object, the
    /// fetch failure for each item that got none. A failure never stops
    /// the remaining items.
    pub fn process_downloads(
        &self,
        store: &mut Storage,
        b: &BatchInfo,
        items: &Vec<DownloadItem>,
        fetched: Vec<Result<Vec<u8>, FetchError>>,
    ) -> (results: Vec<ItemResult>)
        requires
            old(store).wf(),
            items@.len() == fetched@.len(),
        ensures
            final(store).wf(),
            results@.len() == items@.len(),
            forall|i: int|
                0 <= i < results@.len() ==> (#[trigger] results@[i]).name@ == items@[i].name@,
            forall|i: int|
                0 <= i < results@.len() ==> match fetched@[i] {
                    Ok(_) => (#[trigger] results@[i]).outcome is Ok,
                    Err(e) => results@[i].outcome == Result::<(), ItemError>::Err(
                        ItemError::Fetch(e),
                    ),
                },
            all_succeeded(results@) <==> (forall|i: int|
                0 <= i < fetched@.len() ==> (#[trigger] fetched_bytes(fetched@)[i]) is Some),
            final(store)@ == spec_commit_items(
                old(store)@,
                *b,
                item_names(items@),
                fetched_bytes(fetched@),
                items@.len() as int,
            ),
    {
        let ghost all_fetched = fetched@;
        let mut rest = fetched;
        let mut results: Vec<ItemResult> = Vec::new();
        let n = items.len();
        let mut k: usize = 0;
        while k < n
            invariant
                k <= n,
                n == items@.len(),
                n == all_fetched.len(),
                rest@ == all_fetched.skip(k as int),
                results@.len() == k,
                store.wf(),
                forall|i: int|
                    0 <= i < k ==> (#[trigger] results@[i]).name@ == items@[i].name@,
                forall|i: int|
                    0 <= i < k ==> match all_fetched[i] {
                        Ok(_) => (#[trigger] results@[i]).outcome is Ok,
                        Err(e) => results@[i].outcome == Result::<(), ItemError>::Err(
                            ItemError::Fetch(e),
                        ),
                    },
                store@ == spec_commit_items(
                    old(store)@,
                    *b,
                    item_names(items@),
                    fetched_bytes(all_fetched),
                    k as int,
                ),
            decreases n - k,
        {
            let ghost pre_rest = rest@;
            let one = rest.remove(0);
            proof {
                assert(rest@ =~= pre_rest.drop_first());
                assert(rest@ =~= all_fetched.skip(k as int + 1));
                assert(one == all_fetched[k as int]);
            }
            match one {
                Ok(bytes) => {
                    let key = object_key(b, items[k].name.as_str());
                    store.put(key, bytes);
                    results.push(ItemResult { name: items[k].name.clone(), outcome: Ok(()) });
                },
                Err(e) => {
                    results.push(
                        ItemResult {
                            name: items[k].name.clone(),
                            outcome: Err(ItemError::Fetch(e)),
                        },
                    );
                },
            }
            proof {
                assert(fetched_bytes(all_fetched)[k as int] == match all_fetched[k as int] {
                    Ok(v) => Some(v@),
                    Err(_) => None::<Seq<u8>>,
                });
                assert(item_names(items@)[k as int] == items@[k as int].name@);
                assert(store@ == spec_commit_items(
                    old(store)@,
                    *b,
                    item_names(items@),
                    fetched_bytes(all_fetched),
                    k as int + 1,
                ));
            }
            k = k + 1;
        }
        proof {
            if all_succeeded(results@) {
                assert forall|i: int| 0 <= i < all_fetched.len() implies (#[trigger] fetched_bytes(
                    all_fetched,
                )[i]) is Some by {
                    assert(results@[i].outcome is Ok);
                    assert(all_fetched[i] is Ok);
                };
            } else {
                let bad = choose|i: int|
                    0 <= i < results@.len() && !((#[trigger] results@[i]).outcome is Ok);
                assert(!(fetched_bytes(all_fetched)[bad] is Some));
            }
        }
        results
    }

    /// Writes the readiness sentinel if and only if every item succeeded:
    /// the one deferred global side effect that gives the batch its
    /// all-or-nothing meaning.
    pub fn finalize_batch(
        &self,
        store: &mut Storage,
        b: &BatchInfo,
        results: &Vec<ItemResult>,
    ) -> (marked: bool)
        requires
            old(store).wf(),
        ensures
            final(store).wf(),
            marked == all_succeeded(results@),
            marked ==> final(store)@ == spec_mark_ready(old(store)@, *b),
            !marked ==> final(store)@ == old(store)@,
    {
        if !batch_is_ready(results) {
            return false;
        }
        mark_batch_ready(store, b);
        true
    }

    /// Runs the storage side of one batch: commits every fetched item,
    /// then writes the sentinel exactly when no item failed.
    pub fn dispatch(
        &self,
        store: &mut Storage,
        b: &BatchInfo,
        items: &Vec<DownloadItem>,
        fetched: Vec<Result<Vec<u8>, FetchError>>,
    ) -> (r: (Vec<ItemResult>, bool))
        requires
            old(store).wf(),
            items@.len() == fetched@.len(),
        ensures
            final(store).wf(),
            r.0@.len() == items@.len(),
            forall|i: int|
                0 <= i < r.0@.len() ==> (#[trigger] r.0@[i]).name@ == items@[i].name@,
            forall|i: int|
                0 <= i < r.0@.len() ==> match fetched@[i] {
                    Ok(_) => (#[trigger] r.0@[i]).outcome is Ok,
                    Err(e) => r.0@[i].outcome == Result::<(), ItemError>::Err(
                        ItemError::Fetch(e),
                    ),
                },
            r.1 == all_succeeded(r.0@),
            final(store)@ == spec_dispatch(
                old(store)@,
                *b,
                item_names(items@),
                fetched_bytes(fetched@),
            ),
    {
        let ghost fetched_snapshot = fetched@;
        let results = self.process_downloads(store, b, items, fetched);
        let marked = self.finalize_batch(store, b, &results);
        proof {
            if marked {
                assert(forall|i: int|
                    0 <= i < fetched_snapshot.len() ==> (#[trigger] fetched_bytes(
                        fetched_snapshot,
                    )[i]) is Some);
            } else {
                let bad = choose|i: int|
                    0 <= i < results@.len() && !((#[trigger] results@[i]).outcome is Ok);
                assert(!(fetched_bytes(fetched_snapshot)[bad] is Some));
            }
        }
        (results, marked)
    }
}

proof fn lemma_commit_items_no_marker(
    m: Map<Seq<char>, Seq<u8>>,
    b: BatchInfo,
    names: Seq<Seq<char>>,
    fetched: Seq<Option<Seq<u8>>>,
    n: int,
)
    ensures
        spec_commit_items(m, b, names, fetched, n).contains_key(spec_marker_key(b))
            == m.contains_key(spec_marker_key(b)),
    decreases n,
{
    if n > 0 {
        lemma_commit_items_no_marker(m, b, names, fetched, n - 1);
        lemma_marker_key_is_no_object_key(b, names[n - 1]);
    }
}

/// Law: batch atomicity, failure side — when at least one item of a batch
/// failed, a store that had no readiness sentinel for the batch still has
/// none after the whole run: committing data objects can never create it,
/// and the sentinel write itself is withheld.
pub proof fn lemma_failed_batch_leaves_no_marker(
    m: Map<Seq<char>, Seq<u8>>,
    b: BatchInfo,
    names: Seq<Seq<char>>,
    fetched: Seq<Option<Seq<u8>>>,
)
    requires
        !m.contains_key(spec_marker_key(b)),
        exists|i: int| 0 <= i < fetched.len() && !((#[trigger] fetched[i]) is Some),
    ensures
        !spec_dispatch(m, b, names, fetched).contains_key(spec_marker_key(b)),
{
    lemma_commit_items_no_marker(m, b, names, fetched, fetched.len() as int);
}

/// Law: batch atomicity, success side — when every item of a batch
/// succeeded, the readiness sentinel exists after the run.
pub proof fn lemma_clean_batch_has_marker(
    m: Map<Seq<char>, Seq<u8>>,
    b: BatchInfo,
    names: Seq<Seq<char>>,
    fetched: Seq<Option<Seq<u8>>>,
)
    requires
        forall|i: int| 0 <= i < fetched.len() ==> (#[trigger] fetched[i]) is Some,
    ensures
        spec_dispatch(m, b, names, fetched).contains_key(spec_marker_key(b)),
{
}

/// Admits the queued items of a batch into at most `limit` concurrently
/// running pipelines: admission is in declaration order, and a completed
/// pipeline frees its slot for the next queued item.
pub struct AdmissionQueue {
    total: usize,
    limit: usize,
    started: usize,
    running: usize,
}

impl AdmissionQueue {
    /// How many items the batch has.
    pub closed spec fn total_spec(self) -> int {
        self.total as int
    }

    /// The bound on concurrently running pipelines.
    pub closed spec fn limit_spec(self) -> int {
        self.limit as int
    }

    /// How many items have been admitted so far.
    pub closed spec fn started_spec(self) -> int {
        self.started as int
    }

    /// How many admitted items have not yet completed.
    pub closed spec fn running_spec(self) -> int {
        self.running as int
    }

    /// At most `limit` pipelines run at once, and no item is admitted
    /// twice.
    pub closed spec fn wf(self) -> bool {
        &&& self.limit > 0
        &&& self.running <= self.limit
        &&& self.running <= self.started
        &&& self.started <= self.total
    }

    pub fn new(total: usize, limit: usize) -> (r: AdmissionQueue)
        requires
            limit > 0,
        ensures
            r.wf(),
            r.total_spec() == total,
            r.limit_spec() == limit,
            r.started_spec() == 0,
            r.running_spec() == 0,
    {
        AdmissionQueue { total, limit, started: 0, running: 0 }
    }

    /// Admits the next queued item, in declaration order, exactly when an
    /// item is left and a slot is free: the admitted item is always the
    /// one with the lowest unstarted index.
    pub fn try_admit(&mut self) -> (r: Option<usize>)
        requires
            old(self).wf(),
        ensures
            final(self).wf(),
            final(self).total_spec() == old(self).total_spec(),
            final(self).limit_spec() == old(self).limit_spec(),
            match r {
                Some(idx) => {
                    &&& old(self).started_spec() < old(self).total_spec()
                    &&& old(self).running_spec() < old(self).limit_spec()
                    &&& idx == old(self).started_spec()
                    &&& final(self).started_spec() == old(self).started_spec() + 1
                    &&& final(self).running_spec() == old(self).running_spec() + 1
                },
                None => {
                    &&& old(self).started_spec() == old(self).total_spec() || old(
                        self,
                    ).running_spec() == old(self).limit_spec()
                    &&& final(self).started_spec() == old(self).started_spec()
                    &&& final(self).running_spec() == old(self).running_spec()
                },
            },
    {
        if self.started < self.total && self.running < self.limit {
            let idx = self.started;
            self.started = self.started + 1;
            self.running = self.running + 1;
            Some(idx)
        } else {
            None
        }
    }

    /// Law: the pool bound holds in every reachable state — never more
    /// than `limit` pipelines run at once, however admissions and
    /// completions interleave.
    pub proof fn lemma_admission_bounded(self)
        requires
            self.wf(),
        ensures
            0 <= self.running_spec() <= self.limit_spec(),
            self.started_spec() <= self.total_spec(),
    {
    }

    /// Returns one admitted pipeline's slot when it completes, whether it
    /// succeeded or failed.
    pub fn on_item_done(&mut self)
        requires
            old(self).wf(),
            old(self).running_spec() > 0,
        ensures
            final(self).wf(),
            final(self).total_spec() == old(self).total_spec(),
            final(self).limit_spec() == old(self).limit_spec(),
            final(self).started_spec() == old(self).started_spec(),
            final(self).running_spec() == old(self).running_spec() - 1,
    {
        self.running = self.running - 1;
    }
}

} // verus!
