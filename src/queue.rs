//! The crawl's request queue: one FIFO per host, a crawl-long set of fingerprints for
//! deduplication, and two admission limits on requests in flight, one over all hosts
//! and one per host.
use vstd::prelude::*;
use vstd::string::*;

use std::collections::{HashSet, VecDeque};

use crate::address::{opt_text_view, UrlView};
use crate::request::{fingerprint_of, Request};
use crate::text::same_text;

verus! {

broadcast use vstd::std_specs::hash::group_hash_axioms;

/// The limit on requests in flight over all hosts that `RequestQueue::new` sets.
pub const MAX_PENDING: u32 = 1024;

/// One host's bucket: the URLs of its waiting requests, oldest first, and how many of
/// its requests are in flight.
pub struct BucketView {
    pub host: Option<Seq<char>>,
    pub requests: Seq<UrlView>,
    pub n_pending: nat,
}

/// The state of a request queue.
pub struct QueueView {
    /// Every fingerprint ever admitted.
    pub seen: Set<u64>,
    /// The buckets, in the order in which their hosts first appeared.
    pub buckets: Seq<BucketView>,
    pub n_pending: nat,
    pub max_pending: nat,
    pub max_per_domain: nat,
}

/// The URL of a request that may be absent.
pub open spec fn request_url(r: Option<Request>) -> Option<UrlView> {
    match r {
        Some(r) => Some(r.url@),
        None => None,
    }
}

/// Requests in flight, summed over buckets.
pub open spec fn sum_pending(bs: Seq<BucketView>) -> nat
    decreases bs.len(),
{
    if bs.len() == 0 {
        0
    } else {
        sum_pending(bs.drop_last()) + bs.last().n_pending
    }
}

/// A bucket that holds only requests of its host whose fingerprints were seen, that
/// keeps to the per-host limit, and that is not both drained and idle.
pub open spec fn bucket_wf(b: BucketView, seen: Set<u64>, cap: nat) -> bool {
    &&& b.n_pending <= cap
    &&& b.requests.len() > 0 || b.n_pending > 0
    &&& forall|k: int|
        0 <= k < b.requests.len() ==> (#[trigger] b.requests[k]).host == b.host && seen.contains(
            fingerprint_of(b.requests[k]),
        )
}

/// Whether a bucket may hand out a request now.
pub open spec fn ready(b: BucketView, cap: nat) -> bool {
    b.n_pending < cap && b.requests.len() > 0
}

/// The first bucket at or after `i` that may hand out a request, or -1.
pub open spec fn first_ready_from(bs: Seq<BucketView>, cap: nat, i: int) -> int
    decreases bs.len() - i,
{
    if i < 0 || i >= bs.len() {
        -1
    } else if ready(bs[i], cap) {
        i
    } else {
        first_ready_from(bs, cap, i + 1)
    }
}

/// The index of the bucket of `host`, or -1.
pub open spec fn bucket_index(bs: Seq<BucketView>, host: Option<Seq<char>>) -> int {
    if exists|i: int| 0 <= i < bs.len() && bs[i].host == host {
        choose|i: int| 0 <= i < bs.len() && bs[i].host == host
    } else {
        -1
    }
}

impl QueueView {
    pub open spec fn wf(self) -> bool {
        &&& forall|i: int, j: int|
            0 <= i < j < self.buckets.len() ==> self.buckets[i].host != self.buckets[j].host
        &&& forall|i: int|
            0 <= i < self.buckets.len() ==> bucket_wf(
                #[trigger] self.buckets[i],
                self.seen,
                self.max_per_domain,
            )
        &&& self.n_pending == sum_pending(self.buckets)
        &&& self.n_pending <= self.max_pending
    }

    /// Nothing waits and nothing is in flight.
    pub open spec fn is_empty(self) -> bool {
        self.n_pending == 0 && self.buckets.len() == 0
    }

    /// The queue after `push(r)`: an unseen fingerprint is recorded and the request
    /// joins the back of its host's bucket, which is created at the end if absent; a
    /// seen one leaves the queue as it was.
    pub open spec fn after_push(self, r: UrlView) -> QueueView {
        let fp = fingerprint_of(r);
        if self.seen.contains(fp) {
            self
        } else {
            let i = bucket_index(self.buckets, r.host);
            QueueView {
                seen: self.seen.insert(fp),
                buckets: if i >= 0 {
                    self.buckets.update(
                        i,
                        BucketView { requests: self.buckets[i].requests.push(r), ..self.buckets[i] },
                    )
                } else {
                    self.buckets.push(
                        BucketView { host: r.host, requests: seq![r], n_pending: 0 },
                    )
                },
                ..self
            }
        }
    }

    /// The index of the bucket that `pop` takes from, or -1 when it takes nothing.
    pub open spec fn pop_index(self) -> int {
        if self.n_pending >= self.max_pending {
            -1
        } else {
            first_ready_from(self.buckets, self.max_per_domain, 0)
        }
    }

    /// What `pop` returns.
    pub open spec fn popped(self) -> Option<UrlView> {
        let i = self.pop_index();
        if i < 0 {
            None
        } else {
            Some(self.buckets[i].requests[0])
        }
    }

    /// The queue after `pop`: the first ready bucket loses its oldest request and
    /// counts one more in flight, as does the whole queue.
    pub open spec fn after_pop(self) -> QueueView {
        let i = self.pop_index();
        if i < 0 {
            self
        } else {
            let b = self.buckets[i];
            QueueView {
                buckets: self.buckets.update(
                    i,
                    BucketView {
                        requests: b.requests.drop_first(),
                        n_pending: b.n_pending + 1,
                        ..b
                    },
                ),
                n_pending: self.n_pending + 1,
                ..self
            }
        }
    }

    /// Requests in flight for `host`.
    pub open spec fn pending_for(self, host: Option<Seq<char>>) -> nat {
        let i = bucket_index(self.buckets, host);
        if i < 0 {
            0
        } else {
            self.buckets[i].n_pending
        }
    }

    /// The queue after `decr_pending` for a request of `host`: one fewer in flight for
    /// the host and overall; a bucket left drained and idle is removed.
    pub open spec fn after_decr(self, host: Option<Seq<char>>) -> QueueView {
        let i = bucket_index(self.buckets, host);
        let b = self.buckets[i];
        let nb = BucketView { n_pending: (b.n_pending - 1) as nat, ..b };
        QueueView {
            buckets: if nb.n_pending == 0 && nb.requests.len() == 0 {
                self.buckets.remove(i)
            } else {
                self.buckets.update(i, nb)
            },
            n_pending: (self.n_pending - 1) as nat,
            ..self
        }
    }
}

proof fn lemma_sum_update(bs: Seq<BucketView>, i: int, b: BucketView)
    requires
        0 <= i < bs.len(),
    ensures
        sum_pending(bs.update(i, b)) + bs[i].n_pending == sum_pending(bs) + b.n_pending,
    decreases bs.len(),
{
    if i == bs.len() - 1 {
        assert(bs.update(i, b).drop_last() =~= bs.drop_last());
    } else {
        lemma_sum_update(bs.drop_last(), i, b);
        assert(bs.update(i, b).drop_last() =~= bs.drop_last().update(i, b));
    }
}

proof fn lemma_sum_push(bs: Seq<BucketView>, b: BucketView)
    ensures
        sum_pending(bs.push(b)) == sum_pending(bs) + b.n_pending,
{
    assert(bs.push(b).drop_last() =~= bs);
}

proof fn lemma_sum_remove(bs: Seq<BucketView>, i: int)
    requires
        0 <= i < bs.len(),
    ensures
        sum_pending(bs.remove(i)) + bs[i].n_pending == sum_pending(bs),
    decreases bs.len(),
{
    if i == bs.len() - 1 {
        assert(bs.remove(i) =~= bs.drop_last());
    } else {
        lemma_sum_remove(bs.drop_last(), i);
        assert(bs.remove(i).drop_last() =~= bs.drop_last().remove(i));
    }
}

proof fn lemma_sum_bounds(bs: Seq<BucketView>, i: int)
    requires
        0 <= i < bs.len(),
    ensures
        bs[i].n_pending <= sum_pending(bs),
    decreases bs.len(),
{
    if i < bs.len() - 1 {
        lemma_sum_bounds(bs.drop_last(), i);
    }
}

proof fn lemma_bucket_index(bs: Seq<BucketView>, host: Option<Seq<char>>, i: int)
    requires
        forall|a: int, b: int| 0 <= a < b < bs.len() ==> bs[a].host != bs[b].host,
        0 <= i < bs.len(),
        bs[i].host == host,
    ensures
        bucket_index(bs, host) == i,
{
}

proof fn lemma_first_ready(bs: Seq<BucketView>, cap: nat, i: int)
    requires
        0 <= i,
    ensures
        -1 <= first_ready_from(bs, cap, i) < bs.len(),
        first_ready_from(bs, cap, i) >= 0 ==> i <= first_ready_from(bs, cap, i) && ready(
            bs[first_ready_from(bs, cap, i)],
            cap,
        ),
    decreases bs.len() - i,
{
    if i < bs.len() && !ready(bs[i], cap) {
        lemma_first_ready(bs, cap, i + 1);
    }
}

} // verus!

verus! {

struct DomainQueue {
    host: Option<String>,
    requests: VecDeque<Request>,
    n_pending: u32,
}

impl View for DomainQueue {
    type V = BucketView;

    closed spec fn view(&self) -> BucketView {
        BucketView {
            host: opt_text_view(self.host),
            requests: self.requests@.map_values(|r: Request| r.url@),
            n_pending: self.n_pending as nat,
        }
    }
}

/// The queue of requests still to fetch, with its admission accounting.
pub struct RequestQueue {
    seen_requests: HashSet<u64>,
    deques: Vec<DomainQueue>,
    n_pending: u32,
    max_pending: u32,
    max_per_domain: u32,
}

impl View for RequestQueue {
    type V = QueueView;

    closed spec fn view(&self) -> QueueView {
        QueueView {
            seen: self.seen_requests@,
            buckets: self.deques@.map_values(|d: DomainQueue| d@),
            n_pending: self.n_pending as nat,
            max_pending: self.max_pending as nat,
            max_per_domain: self.max_per_domain as nat,
        }
    }
}

fn same_host(a: &Option<String>, b: &Option<String>) -> (r: bool)
    ensures
        r == (opt_text_view(*a) == opt_text_view(*b)),
{
    match (a, b) {
        (Some(x), Some(y)) => same_text(x.as_str(), y.as_str()),
        (None, None) => true,
        _ => false,
    }
}

/// The bucket key of a request: its URL's host.
fn get_key(request: &Request) -> (r: Option<String>)
    ensures
        opt_text_view(r) == request.url@.host,
{
    match request.url.host_str() {
        Some(h) => Some(String::from_str(h)),
        None => None,
    }
}

impl RequestQueue {
    pub open spec fn wf(&self) -> bool {
        self@.wf()
    }

    /// An empty queue with the given per-host limit and a limit of `MAX_PENDING`
    /// requests in flight overall.
    pub fn new(max_per_domain: u32) -> (r: RequestQueue)
        ensures
            r.wf(),
            r@.seen == Set::<u64>::empty(),
            r@.buckets == Seq::<BucketView>::empty(),
            r@.n_pending == 0,
            r@.max_pending == MAX_PENDING,
            r@.max_per_domain == max_per_domain,
    {
        RequestQueue::with_limits(MAX_PENDING, max_per_domain)
    }

    /// An empty queue with the given limits on requests in flight, overall and per host.
    pub fn with_limits(max_pending: u32, max_per_domain: u32) -> (r: RequestQueue)
        ensures
            r.wf(),
            r@.seen == Set::<u64>::empty(),
            r@.buckets == Seq::<BucketView>::empty(),
            r@.n_pending == 0,
            r@.max_pending == max_pending,
            r@.max_per_domain == max_per_domain,
    {
        let r = RequestQueue {
            seen_requests: HashSet::new(),
            deques: Vec::new(),
            n_pending: 0,
            max_pending,
            max_per_domain,
        };
        assert(r@.buckets =~= Seq::<BucketView>::empty());
        r
    }

    fn find_bucket(&self, host: &Option<String>) -> (r: Option<usize>)
        requires
            self.wf(),
        ensures
            r.is_some() ==> r.unwrap() as int == bucket_index(self@.buckets, opt_text_view(*host))
                && 0 <= r.unwrap() < self@.buckets.len(),
            r.is_none() ==> bucket_index(self@.buckets, opt_text_view(*host)) == -1,
    {
        let mut i: usize = 0;
        while i < self.deques.len()
            invariant
                self.wf(),
                i <= self.deques@.len(),
                forall|j: int| 0 <= j < i ==> self@.buckets[j].host != opt_text_view(*host),
            decreases self.deques@.len() - i,
        {
            if same_host(&self.deques[i].host, host) {
                proof {
                    lemma_bucket_index(self@.buckets, opt_text_view(*host), i as int);
                }
                return Some(i);
            }
            i = i + 1;
        }
        None
    }

    /// Admits a request unless its fingerprint was seen before in this crawl.
    pub fn push(&mut self, request: Request)
        requires
            old(self).wf(),
        ensures
            final(self).wf(),
            final(self)@ == old(self)@.after_push(request.url@),
    {
        let ghost old_view = self@;
        let fingerprint = request.get_fingerprint();
        if self.seen_requests.insert(fingerprint) {
            let host = get_key(&request);
            let found = self.find_bucket(&host);
            let ghost r = request;
            assert(opt_text_view(host) == r.url@.host);
            match found {
                Some(i) => {
                    let mut d = self.deques.remove(i);
                    d.requests.push_back(request);
                    self.deques.insert(i, d);
                    proof {
                        let nb = BucketView {
                            requests: old_view.buckets[i as int].requests.push(r.url@),
                            ..old_view.buckets[i as int]
                        };
                        assert(d@.requests =~= nb.requests);
                        assert(self@.buckets =~= old_view.buckets.update(i as int, nb));
                        lemma_sum_update(old_view.buckets, i as int, nb);
                        assert(bucket_wf(nb, self@.seen, self@.max_per_domain));
                    }
                },
                None => {
                    let mut requests = VecDeque::new();
                    requests.push_back(request);
                    let d = DomainQueue { host, requests, n_pending: 0 };
                    self.deques.push(d);
                    proof {
                        let nb = BucketView { host: r.url@.host, requests: seq![r.url@], n_pending: 0 };
                        assert(d@.requests =~= seq![r.url@]);
                        assert(self@.buckets =~= old_view.buckets.push(nb));
                        lemma_sum_push(old_view.buckets, nb);
                        assert(bucket_wf(nb, self@.seen, self@.max_per_domain));
                    }
                },
            }
            assert(self@.wf());
            assert(self@ == old_view.after_push(r.url@));
        } else {
            assert(self@.seen =~= old_view.seen);
            assert(self@ == old_view.after_push(request.url@));
        }
    }

    fn first_ready(&self) -> (r: Option<usize>)
        requires
            self.wf(),
        ensures
            r.is_some() ==> r.unwrap() as int == first_ready_from(
                self@.buckets,
                self@.max_per_domain,
                0,
            ),
            r.is_none() ==> first_ready_from(self@.buckets, self@.max_per_domain, 0) == -1,
    {
        let mut i: usize = 0;
        while i < self.deques.len()
            invariant
                self.wf(),
                i <= self.deques@.len(),
                first_ready_from(self@.buckets, self@.max_per_domain, 0) == first_ready_from(
                    self@.buckets,
                    self@.max_per_domain,
                    i as int,
                ),
            decreases self.deques@.len() - i,
        {
            let d = &self.deques[i];
            if d.n_pending < self.max_per_domain && d.requests.len() > 0 {
                return Some(i);
            }
            i = i + 1;
        }
        None
    }

    /// Hands out the oldest request of the first bucket, in the order in which hosts
    /// first appeared, that has a request waiting and room under the per-host limit;
    /// nothing when the overall limit is reached or no bucket qualifies.
    pub fn pop(&mut self) -> (r: Option<Request>)
        requires
            old(self).wf(),
        ensures
            final(self).wf(),
            final(self)@ == old(self)@.after_pop(),
            request_url(r) == old(self)@.popped(),
    {
        if self.n_pending >= self.max_pending {
            return None;
        }
        let ghost old_view = self@;
        match self.first_ready() {
            None => None,
            Some(i) => {
                proof {
                    lemma_first_ready(old_view.buckets, old_view.max_per_domain, 0);
                }
                let mut d = self.deques.remove(i);
                let r = d.requests.pop_front();
                d.n_pending = d.n_pending + 1;
                self.deques.insert(i, d);
                self.n_pending = self.n_pending + 1;
                proof {
                    let b = old_view.buckets[i as int];
                    let nb = BucketView {
                        requests: b.requests.drop_first(),
                        n_pending: b.n_pending + 1,
                        ..b
                    };
                    assert(d@.requests =~= nb.requests);
                    assert(self@.buckets =~= old_view.buckets.update(i as int, nb));
                    lemma_sum_update(old_view.buckets, i as int, nb);
                    assert(bucket_wf(b, old_view.seen, old_view.max_per_domain));
                    assert forall|k: int| 0 <= k < nb.requests.len() implies (
                    #[trigger] nb.requests[k]).host == nb.host && old_view.seen.contains(
                        fingerprint_of(nb.requests[k]),
                    ) by {
                        assert(nb.requests[k] == b.requests[k + 1]);
                    }
                    assert(bucket_wf(nb, self@.seen, self@.max_per_domain));
                    assert(self@.wf());
                }
                r
            },
        }
    }

    /// Requests of the host of `request` that are in flight.
    pub fn pending_for(&self, request: &Request) -> (r: u32)
        requires
            self.wf(),
        ensures
            r == self@.pending_for(request.url@.host),
    {
        let host = get_key(request);
        match self.find_bucket(&host) {
            Some(i) => self.deques[i].n_pending,
            None => 0,
        }
    }

    /// Whether nothing waits and nothing is in flight: the crawl is over.
    pub fn is_empty(&self) -> (r: bool)
        ensures
            r == self@.is_empty(),
    {
        self.n_pending == 0 && self.deques.len() == 0
    }

    /// Records that a request handed out by `pop` has completed: one fewer in flight
    /// for its host and overall. A bucket left with nothing waiting and nothing in
    /// flight is removed.
    pub fn decr_pending(&mut self, request: &Request)
        requires
            old(self).wf(),
            old(self)@.pending_for(request.url@.host) > 0,
        ensures
            final(self).wf(),
            final(self)@ == old(self)@.after_decr(request.url@.host),
    {
        let ghost old_view = self@;
        let host = get_key(request);
        let found = self.find_bucket(&host);
        match found {
            None => {
                assert(false);
            },
            Some(i) => {
                proof {
                    lemma_sum_bounds(old_view.buckets, i as int);
                }
                self.n_pending = self.n_pending - 1;
                let mut d = self.deques.remove(i);
                d.n_pending = d.n_pending - 1;
                let ghost b = old_view.buckets[i as int];
                let ghost nb = BucketView { n_pending: (b.n_pending - 1) as nat, ..b };
                assert(d@ == nb);
                if d.n_pending == 0 && d.requests.len() == 0 {
                    proof {
                        assert(self@.buckets =~= old_view.buckets.remove(i as int));
                        lemma_sum_remove(old_view.buckets, i as int);
                        assert forall|x: int, y: int|
                            0 <= x < y < self@.buckets.len() implies self@.buckets[x].host
                            != self@.buckets[y].host by {
                            let x0 = if x < i { x } else { x + 1 };
                            let y0 = if y < i { y } else { y + 1 };
                            assert(self@.buckets[x] == old_view.buckets[x0]);
                            assert(self@.buckets[y] == old_view.buckets[y0]);
                        }
                        assert forall|x: int| 0 <= x < self@.buckets.len() implies bucket_wf(
                            #[trigger] self@.buckets[x],
                            self@.seen,
                            self@.max_per_domain,
                        ) by {
                            let x0 = if x < i { x } else { x + 1 };
                            assert(self@.buckets[x] == old_view.buckets[x0]);
                        }
                        assert(self@.wf());
                    }
                } else {
                    self.deques.insert(i, d);
                    proof {
                        assert(self@.buckets =~= old_view.buckets.update(i as int, nb));
                        lemma_sum_update(old_view.buckets, i as int, nb);
                        assert(bucket_wf(nb, self@.seen, self@.max_per_domain));
                        assert(self@.wf());
                    }
                }
            },
        }
    }
}

} // verus!

verus! {

/// Deduplication: once a request has been pushed, pushing any request with the same
/// fingerprint leaves the queue as it is, so a URL is enqueued at most once per crawl.
pub proof fn lemma_push_dedup(v: QueueView, first: UrlView, second: UrlView)
    requires
        fingerprint_of(first) == fingerprint_of(second),
    ensures
        v.after_push(first).after_push(second) == v.after_push(first),
        v.after_push(first).seen.contains(fingerprint_of(first)),
{
}

/// Admission limits: in every well-formed state no more than `max_pending` requests are
/// in flight overall and no more than `max_per_domain` for any one host, and `pop`
/// hands out nothing once the overall limit is reached.
pub proof fn lemma_within_limits(v: QueueView)
    requires
        v.wf(),
    ensures
        v.n_pending <= v.max_pending,
        forall|i: int| 0 <= i < v.buckets.len() ==> #[trigger] v.buckets[i].n_pending <= v.max_per_domain,
        v.n_pending >= v.max_pending ==> v.popped().is_none() && v.after_pop() == v,
{
    assert forall|i: int| 0 <= i < v.buckets.len() implies #[trigger] v.buckets[i].n_pending
        <= v.max_per_domain by {
        assert(bucket_wf(v.buckets[i], v.seen, v.max_per_domain));
    }
}

/// Emptiness: a well-formed queue is empty exactly when nothing is in flight and no
/// request waits in any bucket; drained, idle buckets are never left behind.
pub proof fn lemma_empty_iff_drained(v: QueueView)
    requires
        v.wf(),
    ensures
        v.is_empty() <==> (v.n_pending == 0 && forall|i: int|
            0 <= i < v.buckets.len() ==> (#[trigger] v.buckets[i]).requests.len() == 0),
{
    if v.n_pending == 0 && v.buckets.len() > 0 && forall|i: int|
        0 <= i < v.buckets.len() ==> (#[trigger] v.buckets[i]).requests.len() == 0 {
        assert(bucket_wf(v.buckets[0], v.seen, v.max_per_domain));
        lemma_sum_bounds(v.buckets, 0);
    }
}

} // verus!
