//! Host metadata and the reassembly of concurrent lookups in input order.

use crate::model::{EventWithHosts, Host, HostMeta};
use vstd::prelude::*;

verus! {

/// Shown when a host has neither a display name nor a key.
pub open spec fn unknown_host_name() -> Seq<char> {
    "<unknown host>"@
}

/// The display name of a host row: its name, else its key, else a
/// placeholder; empty texts are passed over.
pub open spec fn display_name_of(h: Host) -> Seq<char> {
    if h.name is Some && h.name->Some_0@.len() > 0 {
        h.name->Some_0@
    } else if h.host is Some && h.host->Some_0@.len() > 0 {
        h.host->Some_0@
    } else {
        unknown_host_name()
    }
}

impl HostMeta {
    pub fn from_host(h: Host) -> (r: HostMeta)
        ensures
            r.host == h.host,
            r.status == h.status,
            r.display_name@ == display_name_of(h),
            r.display_name@.len() > 0,
    {
        proof {
            reveal_strlit("<unknown host>");
        }
        let name_ok = match &h.name {
            Some(n) => !n.as_str().is_empty(),
            None => false,
        };
        let key_ok = match &h.host {
            Some(k) => !k.as_str().is_empty(),
            None => false,
        };
        let display_name = if name_ok {
            match &h.name {
                Some(n) => n.clone(),
                None => String::from_str("<unknown host>"),
            }
        } else if key_ok {
            match &h.host {
                Some(k) => k.clone(),
                None => String::from_str("<unknown host>"),
            }
        } else {
            String::from_str("<unknown host>")
        };
        HostMeta { host: h.host, display_name, status: h.status }
    }
}

/// The host rows of all events, in order.
pub open spec fn all_hosts(events: Seq<EventWithHosts>) -> Seq<Host>
    decreases events.len(),
{
    if events.len() == 0 {
        Seq::empty()
    } else {
        all_hosts(events.drop_last()) + events.last().hosts@
    }
}

proof fn lemma_all_hosts_push(events: Seq<EventWithHosts>, e: EventWithHosts)
    ensures
        all_hosts(events.push(e)) == all_hosts(events) + e.hosts@,
{
    assert(events.push(e).drop_last() =~= events);
}

impl Host {
    /// A field-by-field copy.
    pub fn duplicate(&self) -> (r: Host)
        ensures
            r == *self,
    {
        let host = match &self.host {
            Some(h) => Some(h.clone()),
            None => None,
        };
        let name = match &self.name {
            Some(n) => Some(n.clone()),
            None => None,
        };
        Host { host, name, status: self.status }
    }
}

/// The metadata of the first host row of an `event.get` answer, if any.
pub fn first_host_meta(events: &Vec<EventWithHosts>) -> (r: Option<HostMeta>)
    ensures
        all_hosts(events@).len() == 0 ==> r is None,
        all_hosts(events@).len() > 0 ==> (r matches Some(m) && {
            let h = all_hosts(events@)[0];
            &&& m.host == h.host
            &&& m.status == h.status
            &&& m.display_name@ == display_name_of(h)
        }),
{
    let mut i: usize = 0;
    while i < events.len()
        invariant
            i <= events@.len(),
            all_hosts(events@.subrange(0, i as int)).len() == 0,
        decreases events@.len() - i,
    {
        proof {
            lemma_all_hosts_push(events@.subrange(0, i as int), events@[i as int]);
            assert(events@.subrange(0, i + 1) =~= events@.subrange(0, i as int).push(events@[i as int]));
        }
        if events[i].hosts.len() > 0 {
            proof {
                lemma_all_hosts_prefix(events@, i as int + 1);
                let pre = all_hosts(events@.subrange(0, i + 1));
                assert(pre =~= events@[i as int].hosts@);
                assert(pre[0] == all_hosts(events@)[0]);
            }
            let h = events[i].hosts[0].duplicate();
            return Some(HostMeta::from_host(h));
        }
        i += 1;
    }
    proof {
        assert(events@.subrange(0, events@.len() as int) =~= events@);
    }
    None
}

proof fn lemma_all_hosts_prefix(events: Seq<EventWithHosts>, k: int)
    requires
        0 <= k <= events.len(),
    ensures
        all_hosts(events.subrange(0, k)).len() <= all_hosts(events).len(),
        forall|j: int| 0 <= j < all_hosts(events.subrange(0, k)).len() ==>
            #[trigger] all_hosts(events.subrange(0, k))[j] == all_hosts(events)[j],
    decreases events.len() - k,
{
    if k < events.len() {
        lemma_all_hosts_prefix(events, k + 1);
        let pre = events.subrange(0, k);
        lemma_all_hosts_push(pre, events[k]);
        assert(events.subrange(0, k + 1) =~= pre.push(events[k]));
        let a = all_hosts(pre);
        let b = all_hosts(events.subrange(0, k + 1));
        assert forall|j: int| 0 <= j < a.len() implies #[trigger] a[j] == all_hosts(events)[j] by {
            assert(a[j] == b[j]);
        }
    } else {
        assert(events.subrange(0, k) =~= events);
    }
}

/// Lookups run with at least one in flight.
pub fn effective_concurrency(concurrency: usize) -> (r: usize)
    ensures
        r >= 1,
        concurrency >= 1 ==> r == concurrency,
        concurrency == 0 ==> r == 1,
{
    if concurrency > 1 { concurrency } else { 1 }
}

/// The result reported last for slot `i` among `done`, or none.
pub open spec fn last_for(done: Seq<(usize, Option<HostMeta>)>, i: int) -> Option<HostMeta>
    decreases done.len(),
{
    if done.len() == 0 {
        None
    } else if done.last().0 == i {
        done.last().1
    } else {
        last_for(done.drop_last(), i)
    }
}

/// Puts lookup results, reported in completion order as (input position,
/// result), back into input order: one slot per input, empty where no
/// result came.
pub fn assemble_in_order(n: usize, done: &Vec<(usize, Option<HostMeta>)>) -> (r: Vec<Option<HostMeta>>)
    ensures
        r@.len() == n,
        forall|i: int| 0 <= i < n ==> #[trigger] r@[i] == last_for(done@, i),
{
    let mut out: Vec<Option<HostMeta>> = Vec::new();
    let mut i: usize = 0;
    while i < n
        invariant
            i <= n,
            out@.len() == i,
            forall|j: int| 0 <= j < i ==> #[trigger] out@[j] == last_for(done@.subrange(0, 0), j),
        decreases n - i,
    {
        out.push(None);
        i += 1;
    }
    let mut k: usize = 0;
    while k < done.len()
        invariant
            k <= done@.len(),
            out@.len() == n,
            forall|j: int| 0 <= j < n ==> #[trigger] out@[j] == last_for(done@.subrange(0, k as int), j),
        decreases done@.len() - k,
    {
        let idx = done[k].0;
        let meta = match &done[k].1 {
            Some(m) => Some(m.duplicate()),
            None => None,
        };
        proof {
            assert(done@.subrange(0, k + 1).drop_last() =~= done@.subrange(0, k as int));
        }
        if idx < n {
            out.set(idx, meta);
        }
        k += 1;
    }
    proof {
        assert(done@.subrange(0, done@.len() as int) =~= done@);
    }
    out
}

/// Whether `done` reports each of the positions `0..n` exactly once.
pub open spec fn reports_each_once(n: nat, done: Seq<(usize, Option<HostMeta>)>) -> bool {
    &&& done.len() == n
    &&& forall|k: int| 0 <= k < done.len() ==> (#[trigger] done[k]).0 < n
    &&& forall|a: int, b: int| 0 <= a < b < done.len() ==> (#[trigger] done[a]).0 != (#[trigger] done[b]).0
}

proof fn lemma_last_for_unique(done: Seq<(usize, Option<HostMeta>)>, k: int)
    requires
        0 <= k < done.len(),
        forall|a: int, b: int| 0 <= a < b < done.len() ==> (#[trigger] done[a]).0 != (#[trigger] done[b]).0,
    ensures
        last_for(done, done[k].0 as int) == done[k].1,
    decreases done.len(),
{
    if k < done.len() - 1 {
        let rest = done.drop_last();
        assert(done.last().0 != done[k].0);
        assert(rest[k] == done[k]);
        assert forall|a: int, b: int| 0 <= a < b < rest.len() implies (#[trigger] rest[a]).0 != (#[trigger] rest[b]).0 by {
            assert(rest[a] == done[a] && rest[b] == done[b]);
        }
        lemma_last_for_unique(rest, k);
    }
}

/// Whatever order lookups complete in, when each input position reports
/// once, the slot of each input holds that input's own result.
pub proof fn lemma_order_preserved(n: nat, done: Seq<(usize, Option<HostMeta>)>)
    requires
        reports_each_once(n, done),
    ensures
        forall|k: int| 0 <= k < done.len() ==> last_for(done, (#[trigger] done[k]).0 as int) == done[k].1,
{
    assert forall|k: int| 0 <= k < done.len() implies last_for(done, (#[trigger] done[k]).0 as int) == done[k].1 by {
        lemma_last_for_unique(done, k);
    }
}

} // verus!
