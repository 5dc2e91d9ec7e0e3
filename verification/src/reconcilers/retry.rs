//! Retry decisions: which API errors are transient, the per-object backoff
//! of failing reconciles, and the cooldown of writes BIND9 rejected.
//!
//! Times are milliseconds since the Unix epoch; a reading earlier than a
//! recorded time counts as no time elapsed. Delays are whole seconds.

use vstd::prelude::*;
use crate::keyed::{
    first_lookup, is_first_key, lemma_first_key_lookup, lemma_lookup_none, lemma_lookup_push,
    lemma_lookup_remove, lemma_lookup_update, without_key,
};
use crate::text::{copy_string, str_equal, to_owned_string};

verus! {

/// Delay, in seconds, before the first retry of a failing reconcile.
pub const RECONCILE_BACKOFF_INITIAL: u64 = 2;

/// Ceiling, in seconds, of the per-object reconcile backoff.
pub const RECONCILE_BACKOFF_MAX: u64 = 60;

/// Milliseconds an object must go without a failure before its backoff decays.
pub const RECONCILE_BACKOFF_RESET_AFTER_MILLIS: u64 = 300000;

/// Shortest interval, in seconds, between re-attempts of a rejected record
/// write: the requeue interval of a record that is not ready.
pub const REJECTED_WRITE_COOLDOWN: u64 = crate::constants::REQUEUE_WHEN_NOT_READY_SECS;

// ---------------------------------------------------------------------------
// Transient errors
// ---------------------------------------------------------------------------

/// HTTP status codes worth retrying: 429, 500, 502, 503 and 504.
pub open spec fn spec_retryable_http_status(code: u16) -> bool {
    code == 429 || code == 500 || code == 502 || code == 503 || code == 504
}

/// Determine if an HTTP status code indicates a transient error.
pub fn is_retryable_http_status(status: u16) -> (r: bool)
    ensures
        r == spec_retryable_http_status(status),
{
    status == 429 || status == 500 || status == 502 || status == 503 || status == 504
}

/// The kinds of Kubernetes client errors the retry logic tells apart.
#[derive(Debug, PartialEq, Eq, Structural, Clone, Copy)]
pub enum KubeErrorKind {
    /// The API server answered with this HTTP status code.
    Api(u16),
    /// The connection to the API server failed.
    Service,
    /// Any other client error (invalid request, decoding, ...).
    Other,
}

/// Rate limiting (429), server errors (5xx) and connection errors are transient.
pub open spec fn spec_retryable_error(err: KubeErrorKind) -> bool {
    match err {
        KubeErrorKind::Api(code) => code == 429 || (500 <= code < 600),
        KubeErrorKind::Service => true,
        KubeErrorKind::Other => false,
    }
}

/// Determine if a Kubernetes error is transient and worth retrying.
pub fn is_retryable_error(err: &KubeErrorKind) -> (r: bool)
    ensures
        r == spec_retryable_error(*err),
{
    match err {
        KubeErrorKind::Api(code) => *code == 429 || (*code >= 500 && *code < 600),
        KubeErrorKind::Service => true,
        KubeErrorKind::Other => false,
    }
}

/// What a retry loop does after an API call failed.
#[derive(Debug, PartialEq, Eq, Structural, Clone, Copy)]
pub enum RetryDecision {
    /// The error is permanent: fail at once.
    FailNonRetryable,
    /// The time allowed for retries is spent: give up.
    GiveUpElapsed,
    /// Wait this many milliseconds, then call again.
    RetryAfter(u64),
    /// The backoff has no interval left: give up.
    GiveUpExhausted,
}

/// The decision of the retry loop after a failed attempt: permanent errors
/// fail at once; otherwise the loop gives up once `elapsed_ms` reached the
/// limit, waits the next backoff interval if there is one, and gives up when
/// there is none.
pub open spec fn spec_retry_decision(
    err: KubeErrorKind,
    elapsed_ms: u64,
    max_elapsed_ms: Option<u64>,
    next_backoff_ms: Option<u64>,
) -> RetryDecision {
    if !spec_retryable_error(err) {
        RetryDecision::FailNonRetryable
    } else if max_elapsed_ms is Some && elapsed_ms >= max_elapsed_ms->0 {
        RetryDecision::GiveUpElapsed
    } else {
        match next_backoff_ms {
            Some(d) => RetryDecision::RetryAfter(d),
            None => RetryDecision::GiveUpExhausted,
        }
    }
}

/// Decide how a retry loop proceeds after an API call failed with `err`.
pub fn retry_decision(
    err: &KubeErrorKind,
    elapsed_ms: u64,
    max_elapsed_ms: Option<u64>,
    next_backoff_ms: Option<u64>,
) -> (r: RetryDecision)
    ensures
        r == spec_retry_decision(*err, elapsed_ms, max_elapsed_ms, next_backoff_ms),
{
    if !is_retryable_error(err) {
        return RetryDecision::FailNonRetryable;
    }
    if let Some(max_elapsed) = max_elapsed_ms {
        if elapsed_ms >= max_elapsed {
            return RetryDecision::GiveUpElapsed;
        }
    }
    match next_backoff_ms {
        Some(d) => RetryDecision::RetryAfter(d),
        None => RetryDecision::GiveUpExhausted,
    }
}

// ---------------------------------------------------------------------------
// Per-object reconcile backoff
// ---------------------------------------------------------------------------

/// Requeue delay, in seconds, after `failures` earlier consecutive failures:
/// 2 s doubled per failure, capped at 60 s.
pub open spec fn backoff_delay(failures: u32) -> u64 {
    if failures == 0 {
        2
    } else if failures == 1 {
        4
    } else if failures == 2 {
        8
    } else if failures == 3 {
        16
    } else if failures == 4 {
        32
    } else {
        60
    }
}

/// The failure count a new failure at `now` starts from: the recorded count,
/// or zero when there is none or the last failure is at least the reset
/// interval old.
pub open spec fn effective_failures(entry: Option<(u32, u64)>, now: u64) -> u32 {
    match entry {
        Some((count, last)) => if (if now >= last { now - last } else { 0 })
            >= RECONCILE_BACKOFF_RESET_AFTER_MILLIS {
            0
        } else {
            count
        },
        None => 0,
    }
}

/// `n + 1`, saturating at the largest `u32`.
pub open spec fn sat_inc(n: u32) -> u32 {
    if n == u32::MAX {
        n
    } else {
        (n + 1) as u32
    }
}

/// A failure count and last failure time of one object.
pub struct BackoffEntry {
    key: String,
    failures: u32,
    last_failure_ms: u64,
}

/// Consecutive-failure counters, keyed by object identity.
pub struct ReconcileBackoff {
    entries: Vec<BackoffEntry>,
}

impl View for ReconcileBackoff {
    type V = Seq<(Seq<char>, (u32, u64))>;

    closed spec fn view(&self) -> Seq<(Seq<char>, (u32, u64))> {
        Seq::new(
            self.entries@.len(),
            |i: int|
                (
                    self.entries@[i].key@,
                    (self.entries@[i].failures, self.entries@[i].last_failure_ms),
                ),
        )
    }
}

fn find_backoff_index(entries: &Vec<BackoffEntry>, key: &str) -> (r: Option<usize>)
    ensures
        match r {
            Some(i) => i < entries.len() && entries@[i as int].key@ == key@ && forall|j: int|
                0 <= j < i ==> #[trigger] entries@[j].key@ != key@,
            None => forall|j: int| 0 <= j < entries.len() ==> #[trigger] entries@[j].key@ != key@,
        },
{
    for i in 0..entries.len()
        invariant
            forall|j: int| 0 <= j < i ==> #[trigger] entries@[j].key@ != key@,
    {
        if str_equal(entries[i].key.as_str(), key) {
            return Some(i);
        }
    }
    None
}

impl ReconcileBackoff {
    /// An empty table.
    pub fn new() -> (r: Self)
        ensures
            r@ == Seq::<(Seq<char>, (u32, u64))>::empty(),
    {
        let r = ReconcileBackoff { entries: Vec::new() };
        assert(r@ =~= Seq::<(Seq<char>, (u32, u64))>::empty());
        r
    }
}

/// Returns how long, in seconds, to wait before retrying a failed reconcile
/// of `key` that failed at `now_ms`, and counts the failure.
///
/// Doubles on each consecutive failure, capped at [`RECONCILE_BACKOFF_MAX`],
/// and decays back to [`RECONCILE_BACKOFF_INITIAL`] once the object has gone
/// the reset interval without failing. Other objects' counters are untouched.
pub fn reconcile_error_backoff_at(table: &mut ReconcileBackoff, key: &str, now_ms: u64) -> (r: u64)
    ensures
        ({
            let f = effective_failures(first_lookup(old(table)@, key@), now_ms);
            &&& r == backoff_delay(f)
            &&& first_lookup(final(table)@, key@) == Some((sat_inc(f), now_ms))
            &&& forall|k: Seq<char>| k != key@ ==> #[trigger] first_lookup(final(table)@, k) == first_lookup(old(table)@, k)
        }),
{
    let ghost before = table@;
    let ghost f = effective_failures(first_lookup(before, key@), now_ms);
    let idx = find_backoff_index(&table.entries, key);
    let count: u32 = match idx {
        Some(i) => {
            proof {
                assert(is_first_key(before, key@, i as int));
                lemma_first_key_lookup(before, key@, i as int);
            }
            let e = &table.entries[i];
            let since = if now_ms >= e.last_failure_ms {
                now_ms - e.last_failure_ms
            } else {
                0
            };
            if since >= RECONCILE_BACKOFF_RESET_AFTER_MILLIS {
                0
            } else {
                e.failures
            }
        },
        None => {
            proof {
                lemma_lookup_none(before, key@);
            }
            0
        },
    };
    assert(count == f);
    let delay: u64 = if count == 0 {
        2
    } else if count == 1 {
        4
    } else if count == 2 {
        8
    } else if count == 3 {
        16
    } else if count == 4 {
        32
    } else {
        60
    };
    let next: u32 = if count == u32::MAX {
        count
    } else {
        count + 1
    };
    match idx {
        Some(i) => {
            let k = copy_string(&table.entries[i].key);
            table.entries.set(i, BackoffEntry { key: k, failures: next, last_failure_ms: now_ms });
            proof {
                assert(table@ =~= before.update(i as int, (key@, (next, now_ms))));
                assert forall|k2: Seq<char>| true implies #[trigger] first_lookup(table@, k2) == if k2
                    == key@ {
                    Some((next, now_ms))
                } else {
                    first_lookup(before, k2)
                } by {
                    lemma_lookup_update(before, key@, i as int, (next, now_ms), k2);
                }
            }
        },
        None => {
            table.entries.push(
                BackoffEntry { key: to_owned_string(key), failures: next, last_failure_ms: now_ms },
            );
            proof {
                assert(table@ =~= before.push((key@, (next, now_ms))));
                assert forall|k2: Seq<char>| true implies #[trigger] first_lookup(table@, k2) == if k2
                    == key@ {
                    Some((next, now_ms))
                } else {
                    first_lookup(before, k2)
                } by {
                    lemma_lookup_push(before, key@, (next, now_ms), k2);
                }
            }
        },
    }
    delay
}

/// Returns how long, in seconds, to wait before retrying a failed reconcile
/// of `key` that failed just now, and counts the failure.
pub fn reconcile_error_backoff(table: &mut ReconcileBackoff, key: &str) -> (r: u64)
    ensures
        exists|now_ms: u64|
            r == backoff_delay(#[trigger] effective_failures(first_lookup(old(table)@, key@), now_ms))
                && first_lookup(final(table)@, key@) == Some(
                (sat_inc(effective_failures(first_lookup(old(table)@, key@), now_ms)), now_ms),
            ),
        forall|k: Seq<char>| k != key@ ==> #[trigger] first_lookup(final(table)@, k) == first_lookup(old(table)@, k),
{
    let now = crate::clock::now_millis();
    reconcile_error_backoff_at(table, key, now)
}

/// Clears the failure counter for `key`, so its next failure requeues promptly.
pub fn reset_reconcile_backoff(table: &mut ReconcileBackoff, key: &str)
    ensures
        first_lookup(final(table)@, key@) is None,
        forall|k: Seq<char>| k != key@ ==> #[trigger] first_lookup(final(table)@, k) == first_lookup(old(table)@, k),
{
    let ghost before = table@;
    let mut kept: Vec<BackoffEntry> = Vec::new();
    let n = table.entries.len();
    for i in 0..n
        invariant
            n == table.entries.len(),
            before == table@,
            Seq::new(
                kept@.len(),
                |j: int| (kept@[j].key@, (kept@[j].failures, kept@[j].last_failure_ms)),
            ) == before.take(i as int).filter(without_key::<(u32, u64)>(key@)),
    {
        let e = &table.entries[i];
        assert(before[i as int] == (e.key@, (e.failures, e.last_failure_ms)));
        assert(before.take(i + 1).drop_last() =~= before.take(i as int));
        reveal_with_fuel(Seq::filter, 1);
        let ghost prev = kept@;
        if !str_equal(e.key.as_str(), key) {
            kept.push(
                BackoffEntry {
                    key: copy_string(&e.key),
                    failures: e.failures,
                    last_failure_ms: e.last_failure_ms,
                },
            );
            assert(Seq::new(
                kept@.len(),
                |j: int| (kept@[j].key@, (kept@[j].failures, kept@[j].last_failure_ms)),
            ) =~= Seq::new(
                prev.len(),
                |j: int| (prev[j].key@, (prev[j].failures, prev[j].last_failure_ms)),
            ).push(before[i as int]));
        }
    }
    assert(before.take(n as int) =~= before);
    table.entries = kept;
    proof {
        assert forall|k2: Seq<char>| true implies #[trigger] first_lookup(table@, k2) == if k2 == key@ {
            None
        } else {
            first_lookup(before, k2)
        } by {
            lemma_lookup_remove(before, key@, k2);
        }
    }
}

// ---------------------------------------------------------------------------
// Rejected-write cooldown
// ---------------------------------------------------------------------------

/// A rejected spec hash of one object and when it was rejected.
pub struct RejectedEntry {
    key: String,
    spec_hash: String,
    rejected_at_ms: u64,
}

/// Rejected writes, keyed by object identity.
pub struct RejectedWrites {
    entries: Vec<RejectedEntry>,
}

impl View for RejectedWrites {
    type V = Seq<(Seq<char>, (Seq<char>, u64))>;

    closed spec fn view(&self) -> Seq<(Seq<char>, (Seq<char>, u64))> {
        Seq::new(
            self.entries@.len(),
            |i: int|
                (self.entries@[i].key@, (self.entries@[i].spec_hash@, self.entries@[i].rejected_at_ms)),
        )
    }
}

/// Whether writing `hash` for `key` is held back at `now`: the identical
/// spec was rejected less than the cooldown ago.
pub open spec fn spec_write_in_cooldown(
    table: Seq<(Seq<char>, (Seq<char>, u64))>,
    key: Seq<char>,
    hash: Seq<char>,
    now: u64,
) -> bool {
    match first_lookup(table, key) {
        Some((h, at)) => h == hash && (if now >= at { now - at } else { 0 }) < REJECTED_WRITE_COOLDOWN
            * 1000,
        None => false,
    }
}

fn find_rejected_index(entries: &Vec<RejectedEntry>, key: &str) -> (r: Option<usize>)
    ensures
        match r {
            Some(i) => i < entries.len() && entries@[i as int].key@ == key@ && forall|j: int|
                0 <= j < i ==> #[trigger] entries@[j].key@ != key@,
            None => forall|j: int| 0 <= j < entries.len() ==> #[trigger] entries@[j].key@ != key@,
        },
{
    for i in 0..entries.len()
        invariant
            forall|j: int| 0 <= j < i ==> #[trigger] entries@[j].key@ != key@,
    {
        if str_equal(entries[i].key.as_str(), key) {
            return Some(i);
        }
    }
    None
}

impl RejectedWrites {
    /// An empty table.
    pub fn new() -> (r: Self)
        ensures
            r@ == Seq::<(Seq<char>, (Seq<char>, u64))>::empty(),
    {
        let r = RejectedWrites { entries: Vec::new() };
        assert(r@ =~= Seq::<(Seq<char>, (Seq<char>, u64))>::empty());
        r
    }
}

/// Record that writing `spec_hash` for `key` was rejected at `now_ms`,
/// replacing any earlier rejection of `key`.
pub fn note_rejected_write_at(table: &mut RejectedWrites, key: &str, spec_hash: &str, now_ms: u64)
    ensures
        first_lookup(final(table)@, key@) == Some((spec_hash@, now_ms)),
        forall|k: Seq<char>| k != key@ ==> #[trigger] first_lookup(final(table)@, k) == first_lookup(old(table)@, k),
{
    let ghost before = table@;
    match find_rejected_index(&table.entries, key) {
        Some(i) => {
            let k = copy_string(&table.entries[i].key);
            table.entries.set(
                i,
                RejectedEntry { key: k, spec_hash: to_owned_string(spec_hash), rejected_at_ms: now_ms },
            );
            proof {
                assert(is_first_key(before, key@, i as int));
                assert(table@ =~= before.update(i as int, (key@, (spec_hash@, now_ms))));
                assert forall|k2: Seq<char>| true implies #[trigger] first_lookup(table@, k2) == if k2
                    == key@ {
                    Some((spec_hash@, now_ms))
                } else {
                    first_lookup(before, k2)
                } by {
                    lemma_lookup_update(before, key@, i as int, (spec_hash@, now_ms), k2);
                }
            }
        },
        None => {
            table.entries.push(
                RejectedEntry {
                    key: to_owned_string(key),
                    spec_hash: to_owned_string(spec_hash),
                    rejected_at_ms: now_ms,
                },
            );
            proof {
                lemma_lookup_none(before, key@);
                assert(table@ =~= before.push((key@, (spec_hash@, now_ms))));
                assert forall|k2: Seq<char>| true implies #[trigger] first_lookup(table@, k2) == if k2
                    == key@ {
                    Some((spec_hash@, now_ms))
                } else {
                    first_lookup(before, k2)
                } by {
                    lemma_lookup_push(before, key@, (spec_hash@, now_ms), k2);
                }
            }
        },
    }
}

/// Record that writing `spec_hash` for `key` was rejected just now.
pub fn note_rejected_write(table: &mut RejectedWrites, key: &str, spec_hash: &str)
    ensures
        exists|now_ms: u64| #[trigger] first_lookup(final(table)@, key@) == Some((spec_hash@, now_ms)),
        forall|k: Seq<char>| k != key@ ==> #[trigger] first_lookup(final(table)@, k) == first_lookup(old(table)@, k),
{
    let now = crate::clock::now_millis();
    note_rejected_write_at(table, key, spec_hash, now);
}

/// Clears any rejection recorded for `key`.
pub fn clear_rejected_write(table: &mut RejectedWrites, key: &str)
    ensures
        first_lookup(final(table)@, key@) is None,
        forall|k: Seq<char>| k != key@ ==> #[trigger] first_lookup(final(table)@, k) == first_lookup(old(table)@, k),
{
    let ghost before = table@;
    let mut kept: Vec<RejectedEntry> = Vec::new();
    let n = table.entries.len();
    for i in 0..n
        invariant
            n == table.entries.len(),
            before == table@,
            Seq::new(kept@.len(), |j: int| (kept@[j].key@, (kept@[j].spec_hash@, kept@[j].rejected_at_ms)))
                == before.take(i as int).filter(without_key::<(Seq<char>, u64)>(key@)),
    {
        let e = &table.entries[i];
        assert(before[i as int] == (e.key@, (e.spec_hash@, e.rejected_at_ms)));
        assert(before.take(i + 1).drop_last() =~= before.take(i as int));
        reveal_with_fuel(Seq::filter, 1);
        let ghost prev = kept@;
        if !str_equal(e.key.as_str(), key) {
            kept.push(
                RejectedEntry {
                    key: copy_string(&e.key),
                    spec_hash: copy_string(&e.spec_hash),
                    rejected_at_ms: e.rejected_at_ms,
                },
            );
            assert(Seq::new(
                kept@.len(),
                |j: int| (kept@[j].key@, (kept@[j].spec_hash@, kept@[j].rejected_at_ms)),
            ) =~= Seq::new(
                prev.len(),
                |j: int| (prev[j].key@, (prev[j].spec_hash@, prev[j].rejected_at_ms)),
            ).push(before[i as int]));
        }
    }
    assert(before.take(n as int) =~= before);
    table.entries = kept;
    proof {
        assert forall|k2: Seq<char>| true implies #[trigger] first_lookup(table@, k2) == if k2 == key@ {
            None
        } else {
            first_lookup(before, k2)
        } by {
            lemma_lookup_remove(before, key@, k2);
        }
    }
}

/// Whether writing `spec_hash` for `key` should be skipped at `now_ms`:
/// only while the identical spec is inside the cooldown of its last
/// rejection. A changed spec is never held back.
pub fn write_in_cooldown_at(table: &RejectedWrites, key: &str, spec_hash: &str, now_ms: u64) -> (r:
    bool)
    ensures
        r == spec_write_in_cooldown(table@, key@, spec_hash@, now_ms),
{
    match find_rejected_index(&table.entries, key) {
        Some(i) => {
            proof {
                assert(is_first_key(table@, key@, i as int));
                lemma_first_key_lookup(table@, key@, i as int);
            }
            let e = &table.entries[i];
            if !str_equal(e.spec_hash.as_str(), spec_hash) {
                return false;
            }
            let since = if now_ms >= e.rejected_at_ms {
                now_ms - e.rejected_at_ms
            } else {
                0
            };
            since < REJECTED_WRITE_COOLDOWN * 1000
        },
        None => {
            proof {
                lemma_lookup_none(table@, key@);
            }
            false
        },
    }
}

/// Whether writing `spec_hash` for `key` should be skipped right now.
pub fn write_in_cooldown(table: &RejectedWrites, key: &str, spec_hash: &str) -> (r: bool)
    ensures
        exists|now_ms: u64| r == #[trigger] spec_write_in_cooldown(table@, key@, spec_hash@, now_ms),
        first_lookup(table@, key@) is None ==> !r,
{
    let now = crate::clock::now_millis();
    write_in_cooldown_at(table, key, spec_hash, now)
}

// ---------------------------------------------------------------------------
// Laws
// ---------------------------------------------------------------------------

/// The reconcile backoff starts at the initial delay, never shrinks as
/// consecutive failures accumulate, never exceeds the ceiling, and reaches it.
pub proof fn lemma_backoff_delay_bounds(n: u32)
    ensures
        RECONCILE_BACKOFF_INITIAL <= backoff_delay(n) <= RECONCILE_BACKOFF_MAX,
        backoff_delay(0) == RECONCILE_BACKOFF_INITIAL,
        backoff_delay(n) <= backoff_delay(sat_inc(n)),
        n >= 5 ==> backoff_delay(n) == RECONCILE_BACKOFF_MAX,
{
}

/// Two failures of the same object, the second within the reset interval
/// of the first, get non-decreasing delays; the second is twice the first
/// until the ceiling.
pub proof fn lemma_consecutive_failures_back_off(
    table: Seq<(Seq<char>, (u32, u64))>,
    key: Seq<char>,
    now1: u64,
    now2: u64,
)
    requires
        now1 <= now2,
        now2 - now1 < RECONCILE_BACKOFF_RESET_AFTER_MILLIS,
    ensures
        ({
            let f1 = effective_failures(first_lookup(table, key), now1);
            let f2 = effective_failures(Some((sat_inc(f1), now1)), now2);
            &&& f2 == sat_inc(f1)
            &&& backoff_delay(f1) <= backoff_delay(f2)
            &&& (backoff_delay(f1) < RECONCILE_BACKOFF_MAX / 2 ==> backoff_delay(f2) == 2 * backoff_delay(f1))
        }),
{
}

/// The `(failures, last failure)` entry of an object after failures at
/// `times`, one call of [`reconcile_error_backoff_at`] each, starting from
/// the entry `start` (`None`: never failed, or reset).
pub open spec fn entry_after_failures(start: Option<(u32, u64)>, times: Seq<u64>) -> Option<(u32, u64)>
    decreases times.len(),
{
    if times.len() == 0 {
        start
    } else {
        let before = entry_after_failures(start, times.drop_last());
        Some((sat_inc(effective_failures(before, times.last())), times.last()))
    }
}

/// The delay, in seconds, returned for the failure at `times[i]` of such a
/// run.
pub open spec fn delay_of_failure(start: Option<(u32, u64)>, times: Seq<u64>, i: int) -> u64 {
    backoff_delay(effective_failures(entry_after_failures(start, times.take(i)), times[i]))
}

/// Each failure comes less than the reset interval after the one before.
pub open spec fn close_failures(times: Seq<u64>) -> bool {
    forall|i: int| 0 < i < times.len() ==> #[trigger] times[i] < times[i - 1] + RECONCILE_BACKOFF_RESET_AFTER_MILLIS
}

/// `n` as a failure count, which stops at the largest `u32`.
pub open spec fn capped_count(n: nat) -> u32 {
    if n >= u32::MAX {
        u32::MAX
    } else {
        n as u32
    }
}

#[verifier::spinoff_prover]
proof fn lemma_entry_after_close_failures(times: Seq<u64>)
    requires
        close_failures(times),
    ensures
        times.len() == 0 ==> entry_after_failures(None, times) is None,
        times.len() > 0 ==> entry_after_failures(None, times) == Some((capped_count(times.len()), times.last())),
    decreases times.len(),
{
    if times.len() > 0 {
        let prev = times.drop_last();
        assert forall|i: int| 0 < i < prev.len() implies #[trigger] prev[i] < prev[i - 1]
            + RECONCILE_BACKOFF_RESET_AFTER_MILLIS by {
            assert(prev[i] == times[i] && prev[i - 1] == times[i - 1]);
        }
        lemma_entry_after_close_failures(prev);
        let e = entry_after_failures(None, prev);
        let f = effective_failures(e, times.last());
        if prev.len() > 0 {
            let n = (times.len() - 1) as int;
            assert(times[n] < times[n - 1] + RECONCILE_BACKOFF_RESET_AFTER_MILLIS);
            assert(prev.last() == times[n - 1]);
            assert(f == capped_count(prev.len()));
        } else {
            assert(f == 0);
        }
        assert(sat_inc(f) == capped_count(times.len()));
        assert(entry_after_failures(None, times) == Some((sat_inc(f), times.last())));
    }
}

/// A run of failures of one object that starts fresh (never failed, or
/// reset) and where each failure follows the one before within the reset
/// interval gets the delays 2, 4, 8, 16, 32, 60, 60, ... seconds: the
/// `i`-th failure waits `backoff_delay(i)` (the count stops growing at the
/// largest `u32`, long after the delay reached its ceiling).
pub proof fn lemma_backoff_run(times: Seq<u64>, i: int)
    requires
        close_failures(times),
        0 <= i < times.len(),
    ensures
        delay_of_failure(None, times, i) == backoff_delay(capped_count(i as nat)),
        entry_after_failures(None, times) == Some((capped_count(times.len()), times.last())),
{
    lemma_entry_after_close_failures(times);
    let prefix = times.take(i);
    assert forall|k: int| 0 < k < prefix.len() implies #[trigger] prefix[k] < prefix[k - 1]
        + RECONCILE_BACKOFF_RESET_AFTER_MILLIS by {
        assert(prefix[k] == times[k] && prefix[k - 1] == times[k - 1]);
    }
    lemma_entry_after_close_failures(prefix);
    if i > 0 {
        assert(prefix.last() == times[i - 1]);
        assert(times[i] < times[i - 1] + RECONCILE_BACKOFF_RESET_AFTER_MILLIS);
    }
}

/// A failure that comes the reset interval or more after the object's
/// previous failure starts over at the initial delay, whatever came before.
pub proof fn lemma_backoff_restarts(start: Option<(u32, u64)>, times: Seq<u64>, i: int)
    requires
        0 < i < times.len(),
        times[i] >= times[i - 1] + RECONCILE_BACKOFF_RESET_AFTER_MILLIS,
    ensures
        delay_of_failure(start, times, i) == RECONCILE_BACKOFF_INITIAL,
{
    let prefix = times.take(i);
    assert(prefix.drop_last() =~= times.take(i - 1));
    assert(prefix.last() == times[i - 1]);
}

/// A rejected write is held back for the whole cooldown and released after
/// it; a different spec, or another object, is never held back by it.
pub proof fn lemma_rejected_write_cooldown(
    table: Seq<(Seq<char>, (Seq<char>, u64))>,
    key: Seq<char>,
    hash: Seq<char>,
    at: u64,
    now: u64,
    other_hash: Seq<char>,
)
    requires
        first_lookup(table, key) == Some((hash, at)),
        at <= now,
    ensures
        spec_write_in_cooldown(table, key, hash, now) <==> now - at < REJECTED_WRITE_COOLDOWN * 1000,
        other_hash != hash ==> !spec_write_in_cooldown(table, key, other_hash, now),
{
}

} // verus!
