//! The decisions of one poll cycle: screening, rate limiting and enqueueing.

use crate::dedup::{keys_after_put, lemma_put_keeps_wf, DedupCache, KeyView};
use crate::model::{HostMeta, Problem};
use crate::rank::{is_ranked_prefix, select_candidates, Candidate};
use crate::text::{replace_all, replaced};
use crate::rate_limit::{acquire_outcome, LeakyBucket};
use async_channel::{Sender, TrySendError};
use vstd::prelude::*;

verus! {

#[verifier::external_type_specification]
#[verifier::external_body]
#[verifier::reject_recursive_types(T)]
pub struct ExSender<T>(Sender<T>);

/// One unit of notification work handed to the delivery side.
#[derive(Debug)]
pub struct NotificationItem {
    pub problem: Problem,
    pub host: Option<HostMeta>,
    pub open_url: Option<String>,
}

/// What a non-blocking enqueue did.
#[derive(Clone, Copy, Debug, PartialEq, Eq, Structural)]
pub enum SendOutcome {
    Sent,
    /// The queue is full; the item was dropped.
    Full,
    /// The queue is closed; shutdown is under way.
    Closed,
}

/// Relies on `async_channel::Sender::try_send`: enqueues without waiting and
/// reports whether the queue took the item, was full or was closed.
#[verifier::external_body]
fn queue_try_send(tx: &Sender<NotificationItem>, item: NotificationItem) -> (r: SendOutcome) {
    match tx.try_send(item) {
        Ok(()) => SendOutcome::Sent,
        Err(TrySendError::Full(_)) => SendOutcome::Full,
        Err(TrySendError::Closed(_)) => SendOutcome::Closed,
    }
}

/// The link opened from a notification: the template with the incident id
/// substituted, or none without a template.
pub fn make_open_url(fmt: Option<&str>, eventid: &str) -> (r: Option<String>)
    ensures
        fmt is None ==> r is None,
        fmt matches Some(f) ==> (r matches Some(u) && u@ == replaced(f@, "{eventid}"@, eventid@)),
{
    proof {
        reveal_strlit("{eventid}");
    }
    match fmt {
        Some(f) => Some(replace_all(f, "{eventid}", eventid)),
        None => None,
    }
}

/// The deduplication key of a problem.
pub open spec fn key_of(p: Problem) -> KeyView {
    (p.event_id@, p.last_change)
}

/// Why a candidate was or was not let through.
#[derive(Clone, Copy, Debug, PartialEq, Eq, Structural)]
pub enum Verdict {
    /// Acknowledged, and acknowledged incidents are not notified.
    SkipAcked,
    /// Its key is already in the deduplication cache.
    Duplicate,
    /// Its key was recorded but the rate limiter refused it.
    RateLimited,
    /// Its key was recorded and the rate limiter let it through.
    Pass,
}

/// Screens one candidate: the acknowledgement policy first, then the
/// deduplication cache (recording the key when new), then the rate limiter.
pub fn screen(
    p: &Problem,
    notify_acked: bool,
    dedup: &mut DedupCache,
    bucket: &mut LeakyBucket,
    now: u64,
) -> (r: Verdict)
    requires
        old(dedup).wf(),
    ensures
        final(dedup).wf(),
        final(dedup).spec_capacity() == old(dedup).spec_capacity(),
        final(bucket).spec_max() == old(bucket).spec_max(),
        final(bucket).spec_window() == old(bucket).spec_window(),
        p.acknowledged && !notify_acked ==> r == Verdict::SkipAcked && *final(dedup) == *old(dedup) && *final(bucket) == *old(bucket),
        !(p.acknowledged && !notify_acked) && old(dedup).spec_keys().contains(key_of(*p)) ==> r == Verdict::Duplicate && *final(dedup) == *old(dedup) && *final(bucket) == *old(bucket),
        !(p.acknowledged && !notify_acked) && !old(dedup).spec_keys().contains(key_of(*p)) ==> {
            &&& final(dedup).spec_keys() == keys_after_put(old(dedup).spec_keys(), old(dedup).spec_capacity(), key_of(*p))
            &&& (r == Verdict::Pass, final(bucket).spec_samples()) == acquire_outcome(
                old(bucket).spec_samples(),
                old(bucket).spec_max(),
                old(bucket).spec_window(),
                now,
            )
            &&& (r == Verdict::Pass || r == Verdict::RateLimited)
        },
        (final(dedup).spec_keys(), final(bucket).spec_samples(), r == Verdict::Pass) == screen_step(
            *p,
            screen_params(notify_acked, old(dedup).spec_capacity(), old(bucket).spec_max(), old(bucket).spec_window(), now),
            old(dedup).spec_keys(),
            old(bucket).spec_samples(),
        ),
{
    if p.acknowledged && !notify_acked {
        return Verdict::SkipAcked;
    }
    if dedup.contains(&p.event_id, p.last_change) {
        return Verdict::Duplicate;
    }
    dedup.insert(p.event_id.clone(), p.last_change);
    if bucket.try_acquire(now) {
        Verdict::Pass
    } else {
        Verdict::RateLimited
    }
}

/// Whether `item` is the notification built for candidate `c` with the
/// link template `fmt`: the candidate's problem and host, and the template
/// with the incident id substituted, or no link without a template.
pub open spec fn is_notification_for(item: NotificationItem, c: Candidate, fmt: Option<&str>) -> bool {
    &&& item.problem == c.problem
    &&& item.host == c.host
    &&& match fmt {
        None => item.open_url is None,
        Some(f) => item.open_url matches Some(u) && u@ == replaced(f@, "{eventid}"@, c.problem.event_id@),
    }
}

/// The notification item for a candidate that passed screening.
pub fn notification_for(c: &Candidate, open_url_fmt: Option<&str>) -> (r: NotificationItem)
    ensures
        is_notification_for(r, *c, open_url_fmt),
{
    let host = match &c.host {
        Some(h) => Some(h.duplicate()),
        None => None,
    };
    NotificationItem {
        problem: c.problem.duplicate(),
        host,
        open_url: make_open_url(open_url_fmt, c.problem.event_id.as_str()),
    }
}

/// What one dispatch pass did.
pub struct DispatchReport {
    /// Positions, in the ranked input, of the items handed to the queue.
    pub attempted: Vec<usize>,
    /// The items handed to the queue, in order.
    pub handed: Ghost<Seq<NotificationItem>>,
    /// What the queue did with each of them.
    pub outcomes: Vec<SendOutcome>,
    /// Positions of the items the queue took, ascending.
    pub queued: Vec<usize>,
    /// Whether the pass stopped early on a closed queue.
    pub closed: bool,
}

/// The cache keys, rate-limiter samples, passed positions and recorded keys
/// after screening a prefix of the candidates.
pub struct ScreenState {
    pub keys: Seq<KeyView>,
    pub samples: Seq<u64>,
    pub passed: Seq<usize>,
    /// Keys put into the cache during the run, in order.
    pub recorded: Seq<KeyView>,
}

/// The fixed inputs of a screening pass.
pub struct ScreenParams {
    pub notify_acked: bool,
    pub capacity: nat,
    pub max: nat,
    pub window: u64,
    pub now: u64,
}

pub open spec fn screen_params(notify_acked: bool, capacity: nat, max: nat, window: u64, now: u64) -> ScreenParams {
    ScreenParams { notify_acked, capacity, max, window, now }
}

/// Screening of one problem (see `screen`): the keys and samples after it,
/// and whether it passed.
pub open spec fn screen_step(p: Problem, sp: ScreenParams, keys: Seq<KeyView>, samples: Seq<u64>) -> (Seq<KeyView>, Seq<u64>, bool) {
    if p.acknowledged && !sp.notify_acked {
        (keys, samples, false)
    } else if keys.contains(key_of(p)) {
        (keys, samples, false)
    } else {
        let (ok, after) = acquire_outcome(samples, sp.max, sp.window, sp.now);
        (keys_after_put(keys, sp.capacity, key_of(p)), after, ok)
    }
}

/// Screening of the first `m` candidates, in order, from `keys` and `samples`.
pub open spec fn screen_run(rows: Seq<Candidate>, sp: ScreenParams, keys: Seq<KeyView>, samples: Seq<u64>, m: int) -> ScreenState
    decreases m,
{
    if m <= 0 {
        ScreenState { keys, samples, passed: Seq::empty(), recorded: Seq::empty() }
    } else {
        let prev = screen_run(rows, sp, keys, samples, m - 1);
        let p = rows[m - 1].problem;
        let (k, s, ok) = screen_step(p, sp, prev.keys, prev.samples);
        let put = !(p.acknowledged && !sp.notify_acked) && !prev.keys.contains(key_of(p));
        ScreenState {
            keys: k,
            samples: s,
            passed: if ok { prev.passed.push((m - 1) as usize) } else { prev.passed },
            recorded: if put { prev.recorded.push(key_of(p)) } else { prev.recorded },
        }
    }
}

/// The positions among `attempted` whose outcome was `Sent`, in order.
pub open spec fn sent_positions(attempted: Seq<usize>, outcomes: Seq<SendOutcome>) -> Seq<usize>
    decreases attempted.len(),
{
    if attempted.len() == 0 || outcomes.len() == 0 {
        Seq::empty()
    } else {
        let prev = sent_positions(attempted.drop_last(), outcomes.drop_last());
        if outcomes.last() == SendOutcome::Sent {
            prev.push(attempted.last())
        } else {
            prev
        }
    }
}

/// How many candidates a pass looked at: all of them, or up to the one the
/// closed queue refused.
pub open spec fn processed(n: nat, r: DispatchReport) -> int {
    if r.closed && r.attempted@.len() > 0 {
        r.attempted@.last() + 1
    } else {
        n as int
    }
}

/// A dispatch pass over `ranked` ended in `r` with cache keys `keys` and
/// limiter samples `samples`, from `keys0` and `samples0`: the state is the
/// screening of the candidates looked at, every candidate that passed was
/// handed to the queue in order, the pass stopped exactly at a `Closed`
/// answer, and the queued positions are those answered `Sent`.
pub open spec fn dispatch_done(
    ranked: Seq<Candidate>,
    sp: ScreenParams,
    keys0: Seq<KeyView>,
    samples0: Seq<u64>,
    r: DispatchReport,
    keys: Seq<KeyView>,
    samples: Seq<u64>,
) -> bool {
    let run = screen_run(ranked, sp, keys0, samples0, processed(ranked.len(), r));
    &&& run.keys == keys
    &&& run.samples == samples
    &&& run.passed == r.attempted@
    &&& r.outcomes@.len() == r.attempted@.len()
    &&& (r.closed <==> (r.outcomes@.len() > 0 && r.outcomes@.last() == SendOutcome::Closed))
    &&& forall|k: int| 0 <= k < r.outcomes@.len() - 1 ==> #[trigger] r.outcomes@[k] != SendOutcome::Closed
    &&& r.queued@ == sent_positions(r.attempted@, r.outcomes@)
}

/// The item handed to the queue at each attempt is the notification built
/// for the candidate attempted there.
pub open spec fn hands_notifications(ranked: Seq<Candidate>, r: DispatchReport, fmt: Option<&str>) -> bool {
    &&& r.handed@.len() == r.attempted@.len()
    &&& forall|k: int| 0 <= k < r.attempted@.len() ==> #[trigger] r.attempted@[k] < ranked.len()
    &&& forall|k: int| 0 <= k < r.handed@.len() ==> is_notification_for(#[trigger] r.handed@[k], ranked[r.attempted@[k] as int], fmt)
}

/// The keys recorded during a pass are the most recent keys of the cache.
pub open spec fn is_recent_suffix(keys: Seq<KeyView>, recent: Seq<KeyView>) -> bool {
    recent.len() <= keys.len() && recent == keys.subrange(keys.len() - recent.len(), keys.len() as int)
}

proof fn lemma_recent_after_put(keys: Seq<KeyView>, cap: nat, k: KeyView, recent: Seq<KeyView>)
    requires
        !keys.contains(k),
        keys.len() <= cap,
        recent.len() < cap,
        is_recent_suffix(keys, recent),
    ensures
        is_recent_suffix(keys_after_put(keys, cap, k), recent.push(k)),
{
    let after = keys_after_put(keys, cap, k);
    if keys.len() == cap {
        assert(after == keys.drop_first().push(k));
        assert(recent.push(k) =~= after.subrange(after.len() - (recent.len() + 1), after.len() as int));
    } else {
        assert(after == keys.push(k));
        assert(recent.push(k) =~= after.subrange(after.len() - (recent.len() + 1), after.len() as int));
    }
}

/// Hands the ranked candidates to the queue in order. Each one is screened
/// (`screen`); one that passes is built into a notification item and
/// enqueued without waiting: a full queue drops it, a closed queue ends the
/// pass. When no more candidates are given than the cache holds, the items
/// queued have pairwise distinct keys, all still in the cache afterwards.
pub fn dispatch(
    ranked: &Vec<Candidate>,
    notify_acked: bool,
    open_url_fmt: Option<&str>,
    dedup: &mut DedupCache,
    bucket: &mut LeakyBucket,
    now: u64,
    tx: &Sender<NotificationItem>,
) -> (r: DispatchReport)
    requires
        old(dedup).wf(),
    ensures
        final(dedup).wf(),
        final(dedup).spec_capacity() == old(dedup).spec_capacity(),
        final(bucket).spec_max() == old(bucket).spec_max(),
        final(bucket).spec_window() == old(bucket).spec_window(),
        dispatch_done(
            ranked@,
            screen_params(notify_acked, old(dedup).spec_capacity(), old(bucket).spec_max(), old(bucket).spec_window(), now),
            old(dedup).spec_keys(),
            old(bucket).spec_samples(),
            r,
            final(dedup).spec_keys(),
            final(bucket).spec_samples(),
        ),
        hands_notifications(ranked@, r, open_url_fmt),
        r.queued@.len() <= ranked@.len(),
        forall|k: int| 0 <= k < r.queued@.len() ==> #[trigger] r.queued@[k] < ranked@.len(),
        forall|a: int, b: int| 0 <= a < b < r.queued@.len() ==> r.queued@[a] < r.queued@[b],
        forall|k: int| 0 <= k < r.queued@.len() ==> {
            let p = ranked@[#[trigger] r.queued@[k] as int].problem;
            !p.acknowledged || notify_acked
        },
        ranked@.len() <= old(dedup).spec_capacity() ==> unique_keys_kept(ranked@, r.queued@, final(dedup).spec_keys()),
{
    let ghost n = ranked@.len();
    let ghost cap = dedup.spec_capacity();
    let ghost sp = screen_params(notify_acked, cap, bucket.spec_max(), bucket.spec_window(), now);
    let ghost keys0 = dedup.spec_keys();
    let ghost samples0 = bucket.spec_samples();
    let ghost mut recent: Seq<KeyView> = Seq::empty();
    let mut attempted: Vec<usize> = Vec::new();
    let ghost mut handed: Seq<NotificationItem> = Seq::empty();
    let mut outcomes: Vec<SendOutcome> = Vec::new();
    let mut queued: Vec<usize> = Vec::new();
    let mut closed = false;
    let mut i: usize = 0;
    proof {
        let keys = dedup.spec_keys();
        assert(recent =~= keys.subrange(keys.len() as int, keys.len() as int));
        assert(sent_positions(attempted@, outcomes@) =~= queued@);
    }
    while i < ranked.len() && !closed
        invariant
            n == ranked@.len(),
            i <= n,
            dedup.wf(),
            dedup.spec_capacity() == cap,
            cap == old(dedup).spec_capacity(),
            sp == screen_params(notify_acked, old(dedup).spec_capacity(), old(bucket).spec_max(), old(bucket).spec_window(), now),
            keys0 == old(dedup).spec_keys(),
            samples0 == old(bucket).spec_samples(),
            bucket.spec_max() == old(bucket).spec_max(),
            bucket.spec_window() == old(bucket).spec_window(),
            screen_run(ranked@, sp, keys0, samples0, i as int).keys == dedup.spec_keys(),
            screen_run(ranked@, sp, keys0, samples0, i as int).samples == bucket.spec_samples(),
            screen_run(ranked@, sp, keys0, samples0, i as int).passed == attempted@,
            outcomes@.len() == attempted@.len(),
            handed.len() == attempted@.len(),
            forall|k: int| 0 <= k < attempted@.len() ==> #[trigger] attempted@[k] < i,
            forall|k: int| 0 <= k < handed.len() ==> is_notification_for(#[trigger] handed[k], ranked@[attempted@[k] as int], open_url_fmt),
            closed <==> (outcomes@.len() > 0 && outcomes@.last() == SendOutcome::Closed),
            forall|k: int| 0 <= k < outcomes@.len() - 1 ==> #[trigger] outcomes@[k] != SendOutcome::Closed,
            closed ==> attempted@.len() > 0 && attempted@.last() + 1 == i,
            queued@ == sent_positions(attempted@, outcomes@),
            recent.len() <= i,
            queued@.len() <= i,
            forall|k: int| 0 <= k < queued@.len() ==> #[trigger] queued@[k] < i,
            forall|a: int, b: int| 0 <= a < b < queued@.len() ==> queued@[a] < queued@[b],
            forall|k: int| 0 <= k < queued@.len() ==> {
                let p = ranked@[#[trigger] queued@[k] as int].problem;
                !p.acknowledged || notify_acked
            },
            n <= cap ==> is_recent_suffix(dedup.spec_keys(), recent),
            forall|k: int| 0 <= k < queued@.len() ==> recent.contains(key_of(ranked@[#[trigger] queued@[k] as int].problem)),
            n <= cap ==> forall|a: int, b: int| 0 <= a < b < queued@.len() ==>
                key_of(ranked@[#[trigger] queued@[a] as int].problem) != key_of(ranked@[#[trigger] queued@[b] as int].problem),
        decreases n - i,
    {
        let c = &ranked[i];
        let ghost keys = dedup.spec_keys();
        let verdict = screen(&c.problem, notify_acked, dedup, bucket, now);
        proof {
            assert(ranked@[i as int].problem == c.problem);
        }
        if verdict == Verdict::Pass || verdict == Verdict::RateLimited {
            proof {
                let k = key_of(c.problem);
                if n <= cap {
                    lemma_recent_after_put(keys, cap, k, recent);
                }
                assert forall|q: int| 0 <= q < queued@.len() implies recent.push(k).contains(key_of(ranked@[#[trigger] queued@[q] as int].problem)) by {
                    let kq = key_of(ranked@[queued@[q] as int].problem);
                    let j = choose|j: int| 0 <= j < recent.len() && recent[j] == kq;
                    assert(recent.push(k)[j] == kq);
                }
                if n <= cap {
                    assert forall|q: int| 0 <= q < queued@.len() implies key_of(ranked@[#[trigger] queued@[q] as int].problem) != k by {
                        let kq = key_of(ranked@[queued@[q] as int].problem);
                        let j = choose|j: int| 0 <= j < recent.len() && recent[j] == kq;
                        assert(keys[keys.len() - recent.len() + j] == kq);
                    }
                }
                recent = recent.push(k);
            }
        }
        if verdict == Verdict::Pass {
            let item = notification_for(c, open_url_fmt);
            let ghost handed_item = item;
            let ghost h0 = handed;
            proof {
                assert(*c == ranked@[i as int]);
                assert(is_notification_for(handed_item, ranked@[i as int], open_url_fmt));
            }
            let outcome = queue_try_send(tx, item);
            proof {
                handed = handed.push(handed_item);
            }
            let ghost att0 = attempted@;
            let ghost out0 = outcomes@;
            attempted.push(i);
            outcomes.push(outcome);
            proof {
                assert forall|k: int| 0 <= k < handed.len() implies is_notification_for(#[trigger] handed[k], ranked@[attempted@[k] as int], open_url_fmt) by {
                    if k < att0.len() {
                        assert(attempted@[k] == att0[k]);
                        assert(handed[k] == h0[k]);
                    } else {
                        assert(handed[k] == handed_item);
                        assert(attempted@[k] == i);
                    }
                }
                assert(attempted@.drop_last() =~= att0);
                assert(outcomes@.drop_last() =~= out0);
                assert forall|k: int| 0 <= k < outcomes@.len() - 1 implies #[trigger] outcomes@[k] != SendOutcome::Closed by {
                    assert(outcomes@[k] == out0[k]);
                    if k == out0.len() - 1 {
                        assert(out0.last() == out0[k]);
                    }
                }
            }
            if outcome == SendOutcome::Sent {
                let ghost before = queued@;
                queued.push(i);
                proof {
                    let k = key_of(c.problem);
                    assert(recent.contains(k)) by {
                        assert(recent[recent.len() - 1] == k);
                    }
                    assert forall|q: int| 0 <= q < queued@.len() implies recent.contains(key_of(ranked@[#[trigger] queued@[q] as int].problem)) by {
                        if q < before.len() {
                            assert(queued@[q] == before[q]);
                        }
                    }
                    assert forall|a: int, b: int| 0 <= a < b < queued@.len() implies queued@[a] < queued@[b] by {
                        if b < before.len() {
                            assert(queued@[a] == before[a] && queued@[b] == before[b]);
                        } else {
                            assert(queued@[a] == before[a]);
                        }
                    }
                    if n <= cap {
                        assert forall|a: int, b: int| 0 <= a < b < queued@.len() implies
                            key_of(ranked@[#[trigger] queued@[a] as int].problem) != key_of(ranked@[#[trigger] queued@[b] as int].problem) by {
                            if b < before.len() {
                                assert(queued@[a] == before[a] && queued@[b] == before[b]);
                            } else {
                                assert(queued@[a] == before[a]);
                            }
                        }
                    }
                }
            } else if outcome == SendOutcome::Closed {
                closed = true;
            }
            proof {
                assert(attempted@.last() == i);
            }
        }
        i += 1;
    }
    let report = DispatchReport { attempted, handed: Ghost(handed), outcomes, queued, closed };
    proof {
        assert(processed(n, report) == i);
        assert(report.handed@ == handed);
        if n <= cap {
            assert forall|q: int| 0 <= q < queued@.len() implies dedup.spec_keys().contains(key_of(ranked@[#[trigger] queued@[q] as int].problem)) by {
                let keys = dedup.spec_keys();
                let kq = key_of(ranked@[queued@[q] as int].problem);
                let j = choose|j: int| 0 <= j < recent.len() && recent[j] == kq;
                assert(keys[keys.len() - recent.len() + j] == kq);
            }
        }
    }
    report
}

proof fn lemma_run_recent(
    rows: Seq<Candidate>,
    sp: ScreenParams,
    keys0: Seq<KeyView>,
    samples0: Seq<u64>,
    m: int,
    recent0: Seq<KeyView>,
)
    requires
        0 <= m <= rows.len(),
        rows.len() <= usize::MAX,
        sp.capacity >= 1,
        keys0.len() <= sp.capacity,
        keys0.no_duplicates(),
        is_recent_suffix(keys0, recent0),
        recent0.len() + m <= sp.capacity,
    ensures
        ({
            let run = screen_run(rows, sp, keys0, samples0, m);
            &&& run.keys.len() <= sp.capacity
            &&& run.keys.no_duplicates()
            &&& run.recorded.len() <= m
            &&& is_recent_suffix(run.keys, recent0 + run.recorded)
            &&& forall|a: int| 0 <= a < run.passed.len() ==> #[trigger] run.passed[a] < m
            &&& forall|a: int| 0 <= a < run.passed.len() ==> run.recorded.contains(key_of(rows[#[trigger] run.passed[a] as int].problem))
            &&& forall|a: int| 0 <= a < run.passed.len() ==> !recent0.contains(key_of(rows[#[trigger] run.passed[a] as int].problem))
            &&& forall|a: int, b: int| 0 <= a < b < run.passed.len() ==>
                key_of(rows[#[trigger] run.passed[a] as int].problem) != key_of(rows[#[trigger] run.passed[b] as int].problem)
        }),
    decreases m,
{
    if m == 0 {
        assert(recent0 + Seq::<KeyView>::empty() =~= recent0);
    } else {
        lemma_run_recent(rows, sp, keys0, samples0, m - 1, recent0);
        let prev = screen_run(rows, sp, keys0, samples0, m - 1);
        let run = screen_run(rows, sp, keys0, samples0, m);
        let p = rows[m - 1].problem;
        let k = key_of(p);
        let put = !(p.acknowledged && !sp.notify_acked) && !prev.keys.contains(k);
        let old_recent = recent0 + prev.recorded;
        if put {
            lemma_put_keeps_wf(prev.keys, sp.capacity, k);
            lemma_recent_after_put(prev.keys, sp.capacity, k, old_recent);
            assert(old_recent.push(k) =~= recent0 + run.recorded);
            // k is new: not among the keys held before it, hence not among the recent ones
            assert forall|j: int| 0 <= j < old_recent.len() implies old_recent[j] != k by {
                assert(prev.keys[prev.keys.len() - old_recent.len() + j] == old_recent[j]);
            }
            assert forall|a: int| 0 <= a < run.passed.len() implies run.recorded.contains(key_of(rows[#[trigger] run.passed[a] as int].problem)) by {
                if a < prev.passed.len() {
                    assert(run.passed[a] == prev.passed[a]);
                    let kq = key_of(rows[prev.passed[a] as int].problem);
                    let j = choose|j: int| 0 <= j < prev.recorded.len() && prev.recorded[j] == kq;
                    assert(run.recorded[j] == kq);
                } else {
                    assert(run.passed[a] == (m - 1) as usize);
                    assert(run.recorded[run.recorded.len() - 1] == k);
                }
            }
            assert forall|a: int| 0 <= a < run.passed.len() implies !recent0.contains(key_of(rows[#[trigger] run.passed[a] as int].problem)) by {
                if a >= prev.passed.len() {
                    assert(run.passed[a] == (m - 1) as usize);
                    if recent0.contains(k) {
                        let j = choose|j: int| 0 <= j < recent0.len() && recent0[j] == k;
                        assert(old_recent[j] == k);
                    }
                } else {
                    assert(run.passed[a] == prev.passed[a]);
                }
            }
            assert forall|a: int, b: int| 0 <= a < b < run.passed.len() implies
                key_of(rows[#[trigger] run.passed[a] as int].problem) != key_of(rows[#[trigger] run.passed[b] as int].problem) by {
                if b >= prev.passed.len() {
                    assert(run.passed[b] == (m - 1) as usize);
                    assert(run.passed[a] == prev.passed[a]);
                    let kq = key_of(rows[prev.passed[a] as int].problem);
                    let j = choose|j: int| 0 <= j < prev.recorded.len() && prev.recorded[j] == kq;
                    assert(old_recent[recent0.len() + j] == kq);
                } else {
                    assert(run.passed[a] == prev.passed[a] && run.passed[b] == prev.passed[b]);
                }
            }
        } else {
            assert(run.passed == prev.passed);
            assert(run.recorded == prev.recorded);
        }
    }
}

/// Deduplication over two consecutive cycles: whether the same incident
/// (same id and last change) shows up twice in one cycle or once in each,
/// at most one of its occurrences passes screening, hence at most one
/// notification is queued for it. This holds when the two cycles together
/// look at no more candidates than the cache holds, so that nothing they
/// record is evicted before the second cycle ends.
pub proof fn lemma_dedup_across_cycles(
    rows1: Seq<Candidate>,
    rows2: Seq<Candidate>,
    sp: ScreenParams,
    keys0: Seq<KeyView>,
    samples0: Seq<u64>,
)
    requires
        sp.capacity >= 1,
        keys0.len() <= sp.capacity,
        keys0.no_duplicates(),
        rows1.len() + rows2.len() <= sp.capacity,
        rows1.len() <= usize::MAX,
        rows2.len() <= usize::MAX,
    ensures
        ({
            let run1 = screen_run(rows1, sp, keys0, samples0, rows1.len() as int);
            let run2 = screen_run(rows2, sp, run1.keys, run1.samples, rows2.len() as int);
            &&& forall|a: int, b: int| 0 <= a < b < run1.passed.len() ==>
                key_of(rows1[#[trigger] run1.passed[a] as int].problem) != key_of(rows1[#[trigger] run1.passed[b] as int].problem)
            &&& forall|a: int, b: int| 0 <= a < b < run2.passed.len() ==>
                key_of(rows2[#[trigger] run2.passed[a] as int].problem) != key_of(rows2[#[trigger] run2.passed[b] as int].problem)
            &&& forall|a: int, b: int| 0 <= a < run1.passed.len() && 0 <= b < run2.passed.len() ==>
                key_of(rows1[#[trigger] run1.passed[a] as int].problem) != key_of(rows2[#[trigger] run2.passed[b] as int].problem)
        }),
{
    let empty = Seq::<KeyView>::empty();
    assert(empty =~= keys0.subrange(keys0.len() as int, keys0.len() as int));
    lemma_run_recent(rows1, sp, keys0, samples0, rows1.len() as int, empty);
    let run1 = screen_run(rows1, sp, keys0, samples0, rows1.len() as int);
    assert(empty + run1.recorded =~= run1.recorded);
    lemma_run_recent(rows2, sp, run1.keys, run1.samples, rows2.len() as int, run1.recorded);
    let run2 = screen_run(rows2, sp, run1.keys, run1.samples, rows2.len() as int);
    assert forall|a: int, b: int| 0 <= a < run1.passed.len() && 0 <= b < run2.passed.len() implies
        key_of(rows1[#[trigger] run1.passed[a] as int].problem) != key_of(rows2[#[trigger] run2.passed[b] as int].problem) by {
        assert(run1.recorded.contains(key_of(rows1[run1.passed[a] as int].problem)));
        assert(!run1.recorded.contains(key_of(rows2[run2.passed[b] as int].problem)));
    }
}

/// How many of the oldest keys have been evicted once `recorded` new keys
/// were put into a cache of `cap` slots that held `held` keys.
pub open spec fn evicted_count(held: nat, recorded: nat, cap: nat) -> int {
    if held + recorded > cap { held + recorded - cap } else { 0 }
}

/// A screening run only ever puts new keys, so the cache afterwards holds
/// the newest `capacity` keys of the old ones followed by those recorded;
/// the run records at most one key per candidate looked at, and at most one
/// rate-limiter call goes with each recorded key.
pub proof fn lemma_run_keys(rows: Seq<Candidate>, sp: ScreenParams, keys0: Seq<KeyView>, samples0: Seq<u64>, m: int)
    requires
        0 <= m <= rows.len(),
        sp.capacity >= 1,
        keys0.len() <= sp.capacity,
        keys0.no_duplicates(),
    ensures
        ({
            let run = screen_run(rows, sp, keys0, samples0, m);
            &&& run.recorded.len() <= m
            &&& run.passed.len() <= run.recorded.len()
            &&& run.keys == (keys0 + run.recorded).subrange(
                evicted_count(keys0.len(), run.recorded.len(), sp.capacity),
                (keys0.len() + run.recorded.len()) as int,
            )
            &&& run.keys.len() <= sp.capacity
            &&& run.keys.no_duplicates()
        }),
    decreases m,
{
    if m == 0 {
        assert((keys0 + Seq::<KeyView>::empty()).subrange(0, keys0.len() as int) =~= keys0);
    } else {
        lemma_run_keys(rows, sp, keys0, samples0, m - 1);
        let prev = screen_run(rows, sp, keys0, samples0, m - 1);
        let run = screen_run(rows, sp, keys0, samples0, m);
        let p = rows[m - 1].problem;
        let k = key_of(p);
        let put = !(p.acknowledged && !sp.notify_acked) && !prev.keys.contains(k);
        if put {
            lemma_put_keeps_wf(prev.keys, sp.capacity, k);
            let all0 = keys0 + prev.recorded;
            let all1 = keys0 + run.recorded;
            assert(all1 =~= all0.push(k));
            let e0 = evicted_count(keys0.len(), prev.recorded.len(), sp.capacity);
            if prev.keys.len() == sp.capacity {
                assert(run.keys =~= all1.subrange(e0 + 1, all1.len() as int));
            } else {
                assert(run.keys =~= all1.subrange(e0, all1.len() as int));
            }
        } else {
            assert(run.recorded == prev.recorded);
        }
    }
}

/// Deduplication against what a cache already holds: a key at position `j`
/// of the cache (oldest first) stays in it through a run that evicts at
/// most `j` keys, so no candidate with that key passes screening, and hence
/// none is queued, in that run.
pub proof fn lemma_cached_key_not_requeued(
    rows: Seq<Candidate>,
    sp: ScreenParams,
    keys0: Seq<KeyView>,
    samples0: Seq<u64>,
    m: int,
    j: int,
)
    requires
        0 <= m <= rows.len(),
        rows.len() <= usize::MAX,
        sp.capacity >= 1,
        keys0.len() <= sp.capacity,
        keys0.no_duplicates(),
        0 <= j < keys0.len(),
        keys0.len() + m <= sp.capacity + j,
    ensures
        ({
            let run = screen_run(rows, sp, keys0, samples0, m);
            &&& run.keys.contains(keys0[j])
            &&& forall|a: int| 0 <= a < run.passed.len() ==> key_of(rows[#[trigger] run.passed[a] as int].problem) != keys0[j]
        }),
    decreases m,
{
    let run = screen_run(rows, sp, keys0, samples0, m);
    lemma_run_keys(rows, sp, keys0, samples0, m);
    let e = evicted_count(keys0.len(), run.recorded.len(), sp.capacity);
    assert(run.keys[j - e] == (keys0 + run.recorded)[j]);
    if m > 0 {
        lemma_cached_key_not_requeued(rows, sp, keys0, samples0, m - 1, j);
        let prev = screen_run(rows, sp, keys0, samples0, m - 1);
        assert forall|a: int| 0 <= a < run.passed.len() implies key_of(rows[#[trigger] run.passed[a] as int].problem) != keys0[j] by {
            if a < prev.passed.len() {
                assert(run.passed[a] == prev.passed[a]);
            } else {
                assert(run.passed[a] == (m - 1) as usize);
            }
        }
    }
}

/// Pairs each problem with the host metadata in the same position; extra
/// entries of the longer list are dropped.
pub fn zip_candidates(problems: &Vec<Problem>, hosts: &Vec<Option<HostMeta>>) -> (r: Vec<Candidate>)
    ensures
        r@.len() == (if problems@.len() < hosts@.len() { problems@.len() } else { hosts@.len() }),
        forall|i: int| 0 <= i < r@.len() ==> #[trigger] r@[i] == (Candidate { problem: problems@[i], host: hosts@[i] }),
{
    let mut out: Vec<Candidate> = Vec::new();
    let mut i: usize = 0;
    while i < problems.len() && i < hosts.len()
        invariant
            i <= problems@.len(),
            i <= hosts@.len(),
            out@.len() == i,
            forall|j: int| 0 <= j < i ==> #[trigger] out@[j] == (Candidate { problem: problems@[j], host: hosts@[j] }),
        decreases problems@.len() - i,
    {
        let host = match &hosts[i] {
            Some(h) => Some(h.duplicate()),
            None => None,
        };
        out.push(Candidate { problem: problems[i].duplicate(), host });
        i += 1;
    }
    out
}

/// What one poll cycle selected and queued.
pub struct CycleOutcome {
    /// The candidates kept after ranking and truncation, in ranking order.
    pub selected: Vec<Candidate>,
    /// What the dispatch pass over `selected` did.
    pub report: DispatchReport,
}

/// The decisions of one poll cycle on fetched problems and their resolved
/// hosts: pair them, rank them, keep at most `max_notif`, then dispatch.
pub fn process_cycle(
    problems: &Vec<Problem>,
    hosts: &Vec<Option<HostMeta>>,
    max_notif: usize,
    notify_acked: bool,
    open_url_fmt: Option<&str>,
    dedup: &mut DedupCache,
    bucket: &mut LeakyBucket,
    now: u64,
    tx: &Sender<NotificationItem>,
) -> (r: CycleOutcome)
    requires
        old(dedup).wf(),
    ensures
        final(dedup).wf(),
        final(dedup).spec_capacity() == old(dedup).spec_capacity(),
        final(bucket).spec_max() == old(bucket).spec_max(),
        final(bucket).spec_window() == old(bucket).spec_window(),
        exists|c: Seq<Candidate>|
            c.len() == (if problems@.len() < hosts@.len() { problems@.len() } else { hosts@.len() })
            && (forall|i: int| 0 <= i < c.len() ==> #[trigger] c[i] == (Candidate { problem: problems@[i], host: hosts@[i] }))
            && is_ranked_prefix(c, r.selected@, max_notif as nat),
        r.selected@.len() <= max_notif,
        dispatch_done(
            r.selected@,
            screen_params(notify_acked, old(dedup).spec_capacity(), old(bucket).spec_max(), old(bucket).spec_window(), now),
            old(dedup).spec_keys(),
            old(bucket).spec_samples(),
            r.report,
            final(dedup).spec_keys(),
            final(bucket).spec_samples(),
        ),
        hands_notifications(r.selected@, r.report, open_url_fmt),
        processed(r.selected@.len(), r.report) <= r.selected@.len(),
        screen_run(
            r.selected@,
            screen_params(notify_acked, old(dedup).spec_capacity(), old(bucket).spec_max(), old(bucket).spec_window(), now),
            old(dedup).spec_keys(),
            old(bucket).spec_samples(),
            processed(r.selected@.len(), r.report),
        ).recorded.len() <= max_notif,
        r.report.queued@.len() <= max_notif,
        forall|k: int| 0 <= k < r.report.queued@.len() ==> #[trigger] r.report.queued@[k] < r.selected@.len(),
        forall|a: int, b: int| 0 <= a < b < r.report.queued@.len() ==> r.report.queued@[a] < r.report.queued@[b],
        forall|k: int| 0 <= k < r.report.queued@.len() ==> {
            let p = r.selected@[#[trigger] r.report.queued@[k] as int].problem;
            !p.acknowledged || notify_acked
        },
        r.selected@.len() <= old(dedup).spec_capacity() ==> unique_keys_kept(r.selected@, r.report.queued@, final(dedup).spec_keys()),
{
    let cands = zip_candidates(problems, hosts);
    let selected = select_candidates(&cands, max_notif);
    let ghost sp = screen_params(notify_acked, dedup.spec_capacity(), bucket.spec_max(), bucket.spec_window(), now);
    let ghost keys0 = dedup.spec_keys();
    let ghost samples0 = bucket.spec_samples();
    let report = dispatch(&selected, notify_acked, open_url_fmt, dedup, bucket, now, tx);
    proof {
        let m = processed(selected@.len(), report);
        if report.closed && report.attempted@.len() > 0 {
            assert(report.attempted@[report.attempted@.len() - 1] < selected@.len());
        }
        lemma_run_keys(selected@, sp, keys0, samples0, m);
    }
    CycleOutcome { selected, report }
}

/// The queued positions have pairwise distinct keys, each held by `keys`.
pub open spec fn unique_keys_kept(ranked: Seq<Candidate>, queued: Seq<usize>, keys: Seq<KeyView>) -> bool {
    &&& forall|a: int, b: int| 0 <= a < b < queued.len() ==>
        key_of(ranked[#[trigger] queued[a] as int].problem) != key_of(ranked[#[trigger] queued[b] as int].problem)
    &&& forall|k: int| 0 <= k < queued.len() ==> keys.contains(key_of(ranked[#[trigger] queued[k] as int].problem))
}

} // verus!
