//! The endpoint table of the store: one row per monitored URL, carrying the
//! current status, the timestamp the endpoint last became `Up`, and the
//! running maximum latency of the current reporting window.

use vstd::prelude::*;
use crate::status::Status;
use crate::text::str_eq;
use crate::url::Url;

verus! {

/// One stored endpoint row.
#[derive(Debug)]
pub struct Endpoint {
    pub url: Url,
    pub status: Status,
    pub uptime_at: Option<u64>,
    pub max_latency: Option<u64>,
    pub created_at: u64,
}

/// Mathematical description of one endpoint row.
pub struct EndpointV {
    pub url: Seq<char>,
    pub status: Status,
    pub uptime_at: Option<u64>,
    pub max_latency: Option<u64>,
    pub created_at: u64,
}

impl View for Endpoint {
    type V = EndpointV;

    open spec fn view(&self) -> EndpointV {
        EndpointV {
            url: self.url@,
            status: self.status,
            uptime_at: self.uptime_at,
            max_latency: self.max_latency,
            created_at: self.created_at,
        }
    }
}

impl Clone for Endpoint {
    /// A field-for-field copy of the row.
    fn clone(&self) -> (r: Self)
        ensures
            r@ == self@,
    {
        Endpoint {
            url: self.url.duplicate(),
            status: self.status,
            uptime_at: self.uptime_at,
            max_latency: self.max_latency,
            created_at: self.created_at,
        }
    }
}

impl EndpointV {
    /// The row invariant: an endpoint has an uptime timestamp exactly while
    /// it is `Up`.
    pub open spec fn inv(self) -> bool {
        (self.status == Status::Up) <==> (self.uptime_at is Some)
    }
}

/// The row a URL is seeded with before its first probe completes.
pub open spec fn spec_pending_row(url: Seq<char>, now: u64) -> EndpointV {
    EndpointV { url, status: Status::Pending, uptime_at: None, max_latency: None, created_at: now }
}

/// The first index whose row carries `url`, searching from `i`; `-1` when
/// there is none.
pub open spec fn spec_find_from(eps: Seq<EndpointV>, url: Seq<char>, i: int) -> int
    decreases eps.len() - i,
{
    if i < 0 || i >= eps.len() {
        -1
    } else if eps[i].url == url {
        i
    } else {
        spec_find_from(eps, url, i + 1)
    }
}

/// The index of the row carrying `url`, or `-1` when no row does.
pub open spec fn spec_find_url(eps: Seq<EndpointV>, url: Seq<char>) -> int {
    spec_find_from(eps, url, 0)
}

/// What `spec_find_url` finds: a well-placed first match, or proof that no
/// row matches.
pub proof fn lemma_find_url(eps: Seq<EndpointV>, url: Seq<char>)
    ensures
        spec_find_url(eps, url) == -1 ==> forall|j: int|
            0 <= j < eps.len() ==> eps[j].url != url,
        spec_find_url(eps, url) != -1 ==> {
            let k = spec_find_url(eps, url);
            &&& 0 <= k < eps.len()
            &&& eps[k].url == url
            &&& forall|j: int| 0 <= j < k ==> eps[j].url != url
        },
{
    lemma_find_from(eps, url, 0);
}

proof fn lemma_find_from(eps: Seq<EndpointV>, url: Seq<char>, i: int)
    requires
        0 <= i,
    ensures
        spec_find_from(eps, url, i) == -1 ==> forall|j: int|
            i <= j < eps.len() ==> eps[j].url != url,
        spec_find_from(eps, url, i) != -1 ==> {
            let k = spec_find_from(eps, url, i);
            &&& i <= k < eps.len()
            &&& eps[k].url == url
            &&& forall|j: int| i <= j < k ==> eps[j].url != url
        },
    decreases eps.len() - i,
{
    if i < eps.len() && eps[i].url != url {
        lemma_find_from(eps, url, i + 1);
    }
}

/// Rows carry pairwise different URLs and each row satisfies its invariant.
pub open spec fn spec_endpoints_wf(eps: Seq<EndpointV>) -> bool {
    &&& forall|i: int, j: int|
        0 <= i < j < eps.len() ==> eps[i].url != eps[j].url
    &&& forall|i: int| 0 <= i < eps.len() ==> #[trigger] eps[i].inv()
}

/// The distinct URLs of a configuration, first occurrence first: the order
/// the endpoint table is seeded in.
pub open spec fn spec_first_occurrences(us: Seq<Seq<char>>) -> Seq<Seq<char>>
    decreases us.len(),
{
    if us.len() == 0 {
        Seq::empty()
    } else {
        let init = spec_first_occurrences(us.drop_last());
        if init.contains(us.last()) {
            init
        } else {
            init.push(us.last())
        }
    }
}

/// First occurrences keep exactly the configured URLs, without repeats.
pub proof fn lemma_first_occurrences(us: Seq<Seq<char>>)
    ensures
        forall|x: Seq<char>|
            #[trigger] spec_first_occurrences(us).contains(x) <==> us.contains(x),
        forall|i: int, j: int|
            0 <= i < j < spec_first_occurrences(us).len() ==> spec_first_occurrences(us)[i]
                != spec_first_occurrences(us)[j],
    decreases us.len(),
{
    if us.len() > 0 {
        lemma_first_occurrences(us.drop_last());
        let init = spec_first_occurrences(us.drop_last());
        let fo = spec_first_occurrences(us);
        assert forall|x: Seq<char>| #[trigger] fo.contains(x) implies us.contains(x) by {
            if init.contains(x) {
                assert(us.drop_last().contains(x));
                let k = choose|k: int| 0 <= k < us.drop_last().len() && us.drop_last()[k] == x;
                assert(us[k] == x);
            } else {
                assert(x == us.last());
                assert(us[us.len() - 1] == x);
            }
        }
        assert forall|x: Seq<char>| us.contains(x) implies #[trigger] fo.contains(x) by {
            let k = choose|k: int| 0 <= k < us.len() && us[k] == x;
            if init.contains(x) {
                let m = choose|m: int| 0 <= m < init.len() && init[m] == x;
                assert(fo[m] == x);
            } else {
                if k < us.len() - 1 {
                    assert(us.drop_last()[k] == x);
                    assert(us.drop_last().contains(x));
                    assert(init.contains(x));
                }
                assert(x == us.last());
                assert(fo[fo.len() - 1] == x);
            }
            assert(fo.contains(x));
        }
    }
}

/// The latency cell after one observation: written only when the observation
/// beats the stored maximum (an absent cell counts as zero).
pub open spec fn spec_latency_update(current: Option<u64>, observed: u64) -> Option<u64> {
    let base = match current {
        Some(v) => v,
        None => 0u64,
    };
    if observed > base {
        Some(observed)
    } else {
        current
    }
}

/// The latency cell after a whole window of observations, applied oldest
/// first.
pub open spec fn spec_apply_latencies(current: Option<u64>, obs: Seq<u64>) -> Option<u64>
    decreases obs.len(),
{
    if obs.len() == 0 {
        current
    } else {
        spec_latency_update(spec_apply_latencies(current, obs.drop_last()), obs.last())
    }
}

/// The largest observation of a window.
pub open spec fn spec_seq_max(obs: Seq<u64>) -> u64
    recommends
        obs.len() > 0,
    decreases obs.len(),
{
    if obs.len() <= 1 {
        obs[0]
    } else {
        let rest = spec_seq_max(obs.drop_last());
        if obs.last() > rest {
            obs.last()
        } else {
            rest
        }
    }
}

/// After a window of observations starting from an empty cell, the cell
/// holds exactly the maximum of the window — except that a window whose
/// observations are all zero leaves the cell empty, since zero never beats
/// the empty cell's baseline.
pub proof fn lemma_window_max(obs: Seq<u64>)
    ensures
        obs.len() == 0 ==> spec_apply_latencies(None, obs) == None::<u64>,
        obs.len() > 0 && spec_seq_max(obs) > 0 ==> spec_apply_latencies(None, obs) == Some(
            spec_seq_max(obs),
        ),
        obs.len() > 0 && spec_seq_max(obs) == 0 ==> spec_apply_latencies(None, obs) == None::<
            u64,
        >,
    decreases obs.len(),
{
    if obs.len() > 0 {
        lemma_window_max(obs.drop_last());
    }
}

/// One observation never shrinks the cell: the stored maximum is monotone
/// within a window.
pub proof fn lemma_latency_update_monotone(current: Option<u64>, observed: u64)
    ensures
        current matches Some(v) ==> spec_latency_update(current, observed) matches Some(w) && w
            >= v,
{
}

/// The endpoint rows after one latency observation for `url`: only the
/// matching row's latency cell can change, and only upward.
pub open spec fn spec_apply_latency(eps: Seq<EndpointV>, url: Seq<char>, latency: u64) -> Seq<
    EndpointV,
> {
    let k = spec_find_url(eps, url);
    if k == -1 {
        eps
    } else {
        eps.update(
            k,
            EndpointV {
                url: eps[k].url,
                status: eps[k].status,
                uptime_at: eps[k].uptime_at,
                max_latency: spec_latency_update(eps[k].max_latency, latency),
                created_at: eps[k].created_at,
            },
        )
    }
}

/// Two tables carrying the same URLs row for row agree on where any URL
/// stands.
pub proof fn lemma_find_url_same_urls(eps1: Seq<EndpointV>, eps2: Seq<EndpointV>, url: Seq<char>)
    requires
        eps1.len() == eps2.len(),
        forall|j: int| 0 <= j < eps1.len() ==> (#[trigger] eps1[j]).url == eps2[j].url,
    ensures
        spec_find_url(eps1, url) == spec_find_url(eps2, url),
{
    lemma_find_from_same_urls(eps1, eps2, url, 0);
}

proof fn lemma_find_from_same_urls(
    eps1: Seq<EndpointV>,
    eps2: Seq<EndpointV>,
    url: Seq<char>,
    i: int,
)
    requires
        eps1.len() == eps2.len(),
        forall|j: int| 0 <= j < eps1.len() ==> (#[trigger] eps1[j]).url == eps2[j].url,
    ensures
        spec_find_from(eps1, url, i) == spec_find_from(eps2, url, i),
    decreases eps1.len() - i,
{
    if 0 <= i < eps1.len() && eps1[i].url != url {
        lemma_find_from_same_urls(eps1, eps2, url, i + 1);
    }
}

/// A latency observation leaves everything but the matching row's latency
/// cell alone: lengths, URLs, statuses and timestamps stay, lookups agree,
/// and a well-formed table stays well formed.
pub proof fn lemma_apply_latency_frame(eps: Seq<EndpointV>, url: Seq<char>, latency: u64)
    ensures
        ({
            let out = spec_apply_latency(eps, url, latency);
            &&& out.len() == eps.len()
            &&& forall|j: int|
                0 <= j < eps.len() ==> (#[trigger] out[j]).url == eps[j].url && out[j].status
                    == eps[j].status && out[j].uptime_at == eps[j].uptime_at && out[j].created_at
                    == eps[j].created_at
            &&& forall|u: Seq<char>|
                #[trigger] spec_find_url(out, u) == spec_find_url(eps, u)
            &&& spec_status_of(out, url) == spec_status_of(eps, url)
            &&& (spec_endpoints_wf(eps) ==> spec_endpoints_wf(out))
        }),
{
    lemma_find_url(eps, url);
    let out = spec_apply_latency(eps, url, latency);
    assert forall|u: Seq<char>| #[trigger] spec_find_url(out, u) == spec_find_url(eps, u) by {
        lemma_find_url_same_urls(out, eps, u);
    }
    if spec_endpoints_wf(eps) {
        assert forall|j: int| 0 <= j < out.len() implies (#[trigger] out[j]).inv() by {
            assert(eps[j].inv());
        }
    }
}

/// The endpoint rows after a successful probe of `url` at `now`: the matching
/// row becomes `Up` with a fresh uptime timestamp; with no matching row the
/// table is untouched.
pub open spec fn spec_mark_up(eps: Seq<EndpointV>, url: Seq<char>, now: u64) -> Seq<EndpointV> {
    let k = spec_find_url(eps, url);
    if k == -1 {
        eps
    } else {
        eps.update(
            k,
            EndpointV {
                url: eps[k].url,
                status: Status::Up,
                uptime_at: Some(now),
                max_latency: eps[k].max_latency,
                created_at: eps[k].created_at,
            },
        )
    }
}

/// The endpoint rows after a failed probe of `url`: the matching row becomes
/// `Down` with its uptime timestamp cleared.
pub open spec fn spec_mark_down(eps: Seq<EndpointV>, url: Seq<char>) -> Seq<EndpointV> {
    let k = spec_find_url(eps, url);
    if k == -1 {
        eps
    } else {
        eps.update(
            k,
            EndpointV {
                url: eps[k].url,
                status: Status::Down,
                uptime_at: None,
                max_latency: eps[k].max_latency,
                created_at: eps[k].created_at,
            },
        )
    }
}

/// The status the monitor sees for `url`: the stored one, or `Pending` when
/// the table does not know the URL yet.
pub open spec fn spec_status_of(eps: Seq<EndpointV>, url: Seq<char>) -> Status {
    let k = spec_find_url(eps, url);
    if k == -1 {
        Status::Pending
    } else {
        eps[k].status
    }
}

/// The table with a row for `url` guaranteed: the lazy creation a lookup
/// performs.
pub open spec fn spec_ensure_row(eps: Seq<EndpointV>, url: Seq<char>, now: u64) -> Seq<EndpointV> {
    if spec_find_url(eps, url) == -1 {
        eps.push(spec_pending_row(url, now))
    } else {
        eps
    }
}

/// Lazy creation keeps the table well formed.
pub proof fn lemma_ensure_row_wf(eps: Seq<EndpointV>, url: Seq<char>, now: u64)
    requires
        spec_endpoints_wf(eps),
    ensures
        spec_endpoints_wf(spec_ensure_row(eps, url, now)),
        spec_find_url(spec_ensure_row(eps, url, now), url) != -1,
        spec_status_of(spec_ensure_row(eps, url, now), url) == spec_status_of(eps, url),
{
    lemma_find_url(eps, url);
    let eps0 = spec_ensure_row(eps, url, now);
    lemma_find_url(eps0, url);
    if spec_find_url(eps, url) == -1 {
        assert(eps0[eps.len() as int].url == url);
        assert(spec_find_url(eps0, url) != -1);
        assert forall|i: int| 0 <= i < eps0.len() implies (#[trigger] eps0[i]).inv() by {
            if i < eps.len() {
                assert(eps[i].inv());
            }
        }
        assert(spec_find_url(eps0, url) == eps.len());
        assert(eps0[spec_find_url(eps0, url)].status == Status::Pending);
    }
}

/// Marking a row up keeps the table well formed.
pub proof fn lemma_mark_up_wf(eps: Seq<EndpointV>, url: Seq<char>, now: u64)
    requires
        spec_endpoints_wf(eps),
    ensures
        spec_endpoints_wf(spec_mark_up(eps, url, now)),
{
    lemma_find_url(eps, url);
    let out = spec_mark_up(eps, url, now);
    assert forall|i: int| 0 <= i < out.len() implies (#[trigger] out[i]).inv() by {
        assert(eps[i].inv());
    }
}

/// Marking a row down keeps the table well formed.
pub proof fn lemma_mark_down_wf(eps: Seq<EndpointV>, url: Seq<char>)
    requires
        spec_endpoints_wf(eps),
    ensures
        spec_endpoints_wf(spec_mark_down(eps, url)),
{
    lemma_find_url(eps, url);
    let out = spec_mark_down(eps, url);
    assert forall|i: int| 0 <= i < out.len() implies (#[trigger] out[i]).inv() by {
        assert(eps[i].inv());
    }
}

/// The endpoint table.
#[derive(Debug)]
pub struct EndpointModel {
    pub rows: Vec<Endpoint>,
}

impl View for EndpointModel {
    type V = Seq<EndpointV>;

    open spec fn view(&self) -> Seq<EndpointV> {
        self.rows@.map_values(|e: Endpoint| e@)
    }
}

/// Finds the row of `url` in a row vector.
fn find_in(rows: &Vec<Endpoint>, url: &str) -> (r: Option<usize>)
    ensures
        match r {
            Some(i) => spec_find_url(rows@.map_values(|e: Endpoint| e@), url@) == i,
            None => spec_find_url(rows@.map_values(|e: Endpoint| e@), url@) == -1,
        },
{
    let ghost eps = rows@.map_values(|e: Endpoint| e@);
    let mut i: usize = 0;
    while i < rows.len()
        invariant
            0 <= i <= rows@.len(),
            eps == rows@.map_values(|e: Endpoint| e@),
            eps.len() == rows@.len(),
            spec_find_from(eps, url@, 0) == spec_find_from(eps, url@, i as int),
            forall|j: int| 0 <= j < i ==> eps[j].url != url@,
        decreases rows@.len() - i,
    {
        if str_eq(rows[i].url.as_str(), url) {
            return Some(i);
        }
        i = i + 1;
    }
    None
}

impl EndpointModel {
    /// Whether the table is well formed.
    pub open spec fn wf(&self) -> bool {
        spec_endpoints_wf(self@)
    }

    /// Seeds the table for a configuration: one `Pending` row per distinct
    /// URL, in first-occurrence order, all created at `now`.
    pub fn new(urls: &Vec<Url>, now: u64) -> (r: EndpointModel)
        ensures
            r@.len() == spec_first_occurrences(urls@.map_values(|u: Url| u@)).len(),
            forall|i: int|
                0 <= i < r@.len() ==> #[trigger] r@[i] == spec_pending_row(
                    spec_first_occurrences(urls@.map_values(|u: Url| u@))[i],
                    now,
                ),
            r.wf(),
    {
        let ghost all = urls@.map_values(|u: Url| u@);
        let mut rows: Vec<Endpoint> = Vec::new();
        let mut i: usize = 0;
        while i < urls.len()
            invariant
                0 <= i <= urls@.len(),
                all == urls@.map_values(|u: Url| u@),
                all.len() == urls@.len(),
                rows@.map_values(|e: Endpoint| e@).len() == spec_first_occurrences(
                    all.take(i as int),
                ).len(),
                forall|k: int|
                    0 <= k < rows@.len() ==> rows@.map_values(|e: Endpoint| e@)[k]
                        == spec_pending_row(
                        #[trigger] spec_first_occurrences(all.take(i as int))[k],
                        now,
                    ),
            decreases urls@.len() - i,
        {
            let ghost prefix = all.take(i as int);
            let ghost eps = rows@.map_values(|e: Endpoint| e@);
            proof {
                assert(all.take(i + 1).drop_last() =~= prefix);
                assert(all.take(i + 1).last() == all[i as int]);
            }
            let found = find_in(&rows, urls[i].as_str());
            proof {
                lemma_find_url(eps, all[i as int]);
                let fo = spec_first_occurrences(prefix);
                assert forall|x: Seq<char>| fo.contains(x) implies exists|j: int|
                    0 <= j < eps.len() && eps[j].url == x by {
                    let m = choose|m: int| 0 <= m < fo.len() && fo[m] == x;
                    assert(eps[m].url == x);
                }
                if found is Some {
                    assert(eps[spec_find_url(eps, all[i as int])].url == all[i as int]);
                    assert(fo[spec_find_url(eps, all[i as int])] == all[i as int]);
                    assert(fo.contains(all[i as int]));
                } else {
                    if fo.contains(all[i as int]) {
                        let m = choose|m: int| 0 <= m < fo.len() && fo[m] == all[i as int];
                        assert(eps[m].url == all[i as int]);
                    }
                }
            }
            if found.is_none() {
                let row = Endpoint {
                    url: urls[i].duplicate(),
                    status: Status::Pending,
                    uptime_at: None,
                    max_latency: None,
                    created_at: now,
                };
                rows.push(row);
                proof {
                    assert(rows@.map_values(|e: Endpoint| e@) =~= eps.push(
                        spec_pending_row(all[i as int], now),
                    ));
                }
            }
            i = i + 1;
        }
        proof {
            assert(all.take(all.len() as int) =~= all);
            lemma_first_occurrences(all);
        }
        let r = EndpointModel { rows };
        proof {
            let fo = spec_first_occurrences(all);
            assert forall|k: int| 0 <= k < r@.len() implies #[trigger] r@[k].inv() by {
                assert(r@[k] == spec_pending_row(fo[k], now));
            }
            assert forall|i1: int, j1: int| 0 <= i1 < j1 < r@.len() implies r@[i1].url
                != r@[j1].url by {
                assert(r@[i1] == spec_pending_row(fo[i1], now));
                assert(r@[j1] == spec_pending_row(fo[j1], now));
            }
        }
        r
    }

    /// The index of the row carrying `url`, if any.
    fn find_index(&self, url: &str) -> (r: Option<usize>)
        ensures
            match r {
                Some(i) => spec_find_url(self@, url@) == i,
                None => spec_find_url(self@, url@) == -1,
            },
    {
        find_in(&self.rows, url)
    }

    /// Hands back a copy of every row, in table order.
    pub fn get_all(&self) -> (r: Vec<Endpoint>)
        ensures
            r@.map_values(|e: Endpoint| e@) =~= self@,
    {
        let mut out: Vec<Endpoint> = Vec::new();
        let mut i: usize = 0;
        while i < self.rows.len()
            invariant
                0 <= i <= self.rows@.len(),
                out@.map_values(|e: Endpoint| e@) =~= self@.take(i as int),
            decreases self.rows@.len() - i,
        {
            let ghost prev = out@.map_values(|e: Endpoint| e@);
            out.push(self.rows[i].clone());
            proof {
                assert(out@.map_values(|e: Endpoint| e@) =~= prev.push(self@[i as int]));
                assert(prev.push(self@[i as int]) =~= self@.take(i + 1));
            }
            i = i + 1;
        }
        proof {
            assert(self@.take(self@.len() as int) =~= self@);
        }
        out
    }

    /// Reads the row of `url`, creating it as `Pending` at `now` when the
    /// table does not know the URL yet.
    pub fn get(&mut self, url: &Url, now: u64) -> (r: Endpoint)
        ensures
            ({
                let k = spec_find_url(old(self)@, url@);
                if k == -1 {
                    &&& final(self)@ =~= old(self)@.push(spec_pending_row(url@, now))
                    &&& r@ == spec_pending_row(url@, now)
                } else {
                    &&& final(self)@ == old(self)@
                    &&& r@ == old(self)@[k]
                }
            }),
    {
        let found = self.find_index(url.as_str());
        match found {
            Some(i) => {
                proof {
                    lemma_find_url(self@, url@);
                }
                self.rows[i].clone()
            },
            None => {
                let row = Endpoint {
                    url: url.duplicate(),
                    status: Status::Pending,
                    uptime_at: None,
                    max_latency: None,
                    created_at: now,
                };
                let copy = row.clone();
                let ghost eps = self@;
                self.rows.push(row);
                proof {
                    assert(final(self)@ =~= eps.push(spec_pending_row(url@, now)));
                }
                copy
            },
        }
    }

    /// The stored maximum latency of `url`, when the table knows the URL.
    pub fn get_max_latency(&self, url: &str) -> (r: Option<u64>)
        ensures
            spec_find_url(self@, url@) != -1 ==> r == self@[spec_find_url(self@, url@)].max_latency,
            spec_find_url(self@, url@) == -1 ==> r == None::<u64>,
    {
        let found = self.find_index(url);
        proof {
            lemma_find_url(self@, url@);
        }
        match found {
            Some(i) => self.rows[i].max_latency,
            None => None,
        }
    }

    /// Writes `latency` as the stored maximum of `url` only when it beats the
    /// stored value; an absent stored value counts as zero.
    pub fn relative_max_latency_update(&mut self, url: &str, latency: u64)
        ensures
            final(self)@ =~= spec_apply_latency(old(self)@, url@, latency),
    {
        let found = self.find_index(url);
        proof {
            lemma_find_url(self@, url@);
        }
        match found {
            Some(i) => {
                let current = match self.rows[i].max_latency {
                    Some(v) => v,
                    None => 0,
                };
                if latency > current {
                    let ghost eps = self@;
                    let row = Endpoint {
                        url: self.rows[i].url.duplicate(),
                        status: self.rows[i].status,
                        uptime_at: self.rows[i].uptime_at,
                        max_latency: Some(latency),
                        created_at: self.rows[i].created_at,
                    };
                    self.rows.set(i, row);
                    proof {
                        assert(final(self)@ =~= eps.update(
                            i as int,
                            EndpointV {
                                url: eps[i as int].url,
                                status: eps[i as int].status,
                                uptime_at: eps[i as int].uptime_at,
                                max_latency: spec_latency_update(eps[i as int].max_latency, latency),
                                created_at: eps[i as int].created_at,
                            },
                        ));
                    }
                } else {
                    proof {
                        assert(final(self)@ =~= old(self)@.update(
                            i as int,
                            EndpointV {
                                url: old(self)@[i as int].url,
                                status: old(self)@[i as int].status,
                                uptime_at: old(self)@[i as int].uptime_at,
                                max_latency: spec_latency_update(
                                    old(self)@[i as int].max_latency,
                                    latency,
                                ),
                                created_at: old(self)@[i as int].created_at,
                            },
                        ));
                    }
                }
            },
            None => {},
        }
    }

    /// Clears the stored maximum latency of `url`, opening a new measurement
    /// window.
    pub fn reset_max_latency(&mut self, url: &str)
        ensures
            ({
                let k = spec_find_url(old(self)@, url@);
                if k == -1 {
                    final(self)@ == old(self)@
                } else {
                    final(self)@ =~= old(self)@.update(
                        k,
                        EndpointV {
                            url: old(self)@[k].url,
                            status: old(self)@[k].status,
                            uptime_at: old(self)@[k].uptime_at,
                            max_latency: None,
                            created_at: old(self)@[k].created_at,
                        },
                    )
                }
            }),
    {
        let found = self.find_index(url);
        proof {
            lemma_find_url(self@, url@);
        }
        match found {
            Some(i) => {
                let ghost eps = self@;
                let row = Endpoint {
                    url: self.rows[i].url.duplicate(),
                    status: self.rows[i].status,
                    uptime_at: self.rows[i].uptime_at,
                    max_latency: None,
                    created_at: self.rows[i].created_at,
                };
                self.rows.set(i, row);
                proof {
                    assert(final(self)@ =~= eps.update(
                        i as int,
                        EndpointV {
                            url: eps[i as int].url,
                            status: eps[i as int].status,
                            uptime_at: eps[i as int].uptime_at,
                            max_latency: None,
                            created_at: eps[i as int].created_at,
                        },
                    ));
                }
            },
            None => {},
        }
    }

    /// Applies `spec_mark_up` to the table: the row of `url` becomes `Up`
    /// with uptime timestamp `now`.
    pub fn mark_up(&mut self, url: &str, now: u64)
        ensures
            final(self)@ =~= spec_mark_up(old(self)@, url@, now),
    {
        let found = self.find_index(url);
        proof {
            lemma_find_url(self@, url@);
        }
        match found {
            Some(i) => {
                let ghost eps = self@;
                let row = Endpoint {
                    url: self.rows[i].url.duplicate(),
                    status: Status::Up,
                    uptime_at: Some(now),
                    max_latency: self.rows[i].max_latency,
                    created_at: self.rows[i].created_at,
                };
                self.rows.set(i, row);
                proof {
                    assert(final(self)@ =~= spec_mark_up(eps, url@, now));
                }
            },
            None => {},
        }
    }

    /// Applies `spec_mark_down` to the table: the row of `url` becomes
    /// `Down` with its uptime timestamp cleared.
    pub fn mark_down(&mut self, url: &str)
        ensures
            final(self)@ =~= spec_mark_down(old(self)@, url@),
    {
        let found = self.find_index(url);
        proof {
            lemma_find_url(self@, url@);
        }
        match found {
            Some(i) => {
                let ghost eps = self@;
                let row = Endpoint {
                    url: self.rows[i].url.duplicate(),
                    status: Status::Down,
                    uptime_at: None,
                    max_latency: self.rows[i].max_latency,
                    created_at: self.rows[i].created_at,
                };
                self.rows.set(i, row);
                proof {
                    assert(final(self)@ =~= spec_mark_down(eps, url@));
                }
            },
            None => {},
        }
    }
}

} // verus!
