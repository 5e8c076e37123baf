//! The incident log: a durable, append-only record of "went down" events.
//! Entries live until a digest has reported them, then the scheduler deletes
//! them by id.

use vstd::prelude::*;
use crate::timefmt::MAX_TIMESTAMP_MS;
use crate::url::Url;

verus! {

/// One recorded "went down" event.
#[derive(Debug)]
pub struct Incident {
    pub id: u64,
    pub url: String,
    pub message: String,
    pub created_at: u64,
}

/// Mathematical description of one incident.
pub struct IncidentV {
    pub id: u64,
    pub url: Seq<char>,
    pub message: Seq<char>,
    pub created_at: u64,
}

impl View for Incident {
    type V = IncidentV;

    open spec fn view(&self) -> IncidentV {
        IncidentV {
            id: self.id,
            url: self.url@,
            message: self.message@,
            created_at: self.created_at,
        }
    }
}

impl Clone for Incident {
    /// A field-for-field copy of the entry.
    fn clone(&self) -> (r: Self)
        ensures
            r@ == self@,
    {
        Incident {
            id: self.id,
            url: self.url.clone(),
            message: self.message.clone(),
            created_at: self.created_at,
        }
    }
}

/// The incident log and the id counter its entries draw from.
#[derive(Debug)]
pub struct IncidentModel {
    pub rows: Vec<Incident>,
    pub next_id: u64,
}

impl View for IncidentModel {
    type V = Seq<IncidentV>;

    open spec fn view(&self) -> Seq<IncidentV> {
        self.rows@.map_values(|inc: Incident| inc@)
    }
}

impl IncidentModel {
    /// Entries carry pairwise different ids below the counter, and
    /// timestamps the report formatter accepts.
    pub open spec fn wf(&self) -> bool {
        &&& forall|i: int| 0 <= i < self@.len() ==> (#[trigger] self@[i]).id < self.next_id
        &&& forall|i: int, j: int| 0 <= i < j < self@.len() ==> self@[i].id != self@[j].id
        &&& forall|i: int|
            0 <= i < self@.len() ==> (#[trigger] self@[i]).created_at <= MAX_TIMESTAMP_MS
    }

    /// An empty log.
    pub fn new() -> (r: IncidentModel)
        ensures
            r@ =~= Seq::<IncidentV>::empty(),
            r.next_id == 0,
            r.wf(),
    {
        IncidentModel { rows: Vec::new(), next_id: 0 }
    }

    /// Hands back a copy of every entry, in log order.
    pub fn get_all(&self) -> (r: Vec<Incident>)
        ensures
            r@.map_values(|inc: Incident| inc@) =~= self@,
    {
        let mut out: Vec<Incident> = Vec::new();
        let mut i: usize = 0;
        while i < self.rows.len()
            invariant
                0 <= i <= self.rows@.len(),
                out@.map_values(|inc: Incident| inc@) =~= self@.take(i as int),
            decreases self.rows@.len() - i,
        {
            let ghost prev = out@.map_values(|inc: Incident| inc@);
            out.push(self.rows[i].clone());
            proof {
                assert(out@.map_values(|inc: Incident| inc@) =~= prev.push(self@[i as int]));
                assert(prev.push(self@[i as int]) =~= self@.take(i + 1));
            }
            i = i + 1;
        }
        proof {
            assert(self@.take(self@.len() as int) =~= self@);
        }
        out
    }

    /// Whether the log holds no entry.
    pub fn is_empty(&self) -> (r: bool)
        ensures
            r == (self@.len() == 0),
    {
        self.rows.len() == 0
    }

    /// Appends one entry under a fresh id.
    pub fn record(&mut self, url: &Url, message: String, now: u64)
        requires
            old(self).wf(),
            old(self).next_id < u64::MAX,
            now <= MAX_TIMESTAMP_MS,
        ensures
            final(self)@ =~= old(self)@.push(
                IncidentV { id: old(self).next_id, url: url@, message: message@, created_at: now },
            ),
            final(self).next_id == old(self).next_id + 1,
            final(self).wf(),
    {
        let entry = Incident {
            id: self.next_id,
            url: url.as_str().to_owned(),
            message,
            created_at: now,
        };
        self.rows.push(entry);
        self.next_id = self.next_id + 1;
    }

    /// Deletes exactly the entries whose id stands in `ids`.
    pub fn delete_many(&mut self, ids: &Vec<u64>)
        requires
            old(self).wf(),
        ensures
            final(self)@ =~= old(self)@.filter(|inc: IncidentV| !ids@.contains(inc.id)),
            final(self).next_id == old(self).next_id,
            final(self).wf(),
    {
        let ghost orig = self@;
        let ghost pred = |inc: IncidentV| !ids@.contains(inc.id);
        let mut out: Vec<Incident> = Vec::new();
        let mut i: usize = 0;
        while i < self.rows.len()
            invariant
                0 <= i <= self.rows@.len(),
                orig == self@,
                pred == (|inc: IncidentV| !ids@.contains(inc.id)),
                out@.map_values(|inc: Incident| inc@) =~= orig.take(i as int).filter(pred),
            decreases self.rows@.len() - i,
        {
            let ghost prev = out@.map_values(|inc: Incident| inc@);
            let keep = !ids_contain(ids, self.rows[i].id);
            proof {
                reveal(Seq::filter);
                assert(orig.take(i + 1).drop_last() =~= orig.take(i as int));
                assert(orig.take(i + 1).last() == orig[i as int]);
            }
            if keep {
                out.push(self.rows[i].clone());
                proof {
                    assert(out@.map_values(|inc: Incident| inc@) =~= prev.push(orig[i as int]));
                }
            }
            i = i + 1;
        }
        proof {
            assert(orig.take(orig.len() as int) =~= orig);
        }
        self.rows = out;
        proof {
            let cur = final(self)@;
            lemma_filter_distinct_ids(orig, pred);
            assert forall|m: int| 0 <= m < cur.len() implies orig.contains(#[trigger] cur[m]) by {
                assert(cur.contains(cur[m]));
                orig.lemma_filter_contains_rev(pred, cur[m]);
            }
            assert forall|m: int| 0 <= m < cur.len() implies (#[trigger] cur[m]).id
                < final(self).next_id && cur[m].created_at <= MAX_TIMESTAMP_MS by {
                let j = choose|j: int| 0 <= j < orig.len() && orig[j] == cur[m];
                assert(orig[j].id < old(self).next_id);
            }
        }
    }
}

/// Whether `x` stands in `ids`.
fn ids_contain(ids: &Vec<u64>, x: u64) -> (r: bool)
    ensures
        r == ids@.contains(x),
{
    let mut i: usize = 0;
    while i < ids.len()
        invariant
            0 <= i <= ids@.len(),
            forall|j: int| 0 <= j < i ==> ids@[j] != x,
        decreases ids@.len() - i,
    {
        if ids[i] == x {
            return true;
        }
        i = i + 1;
    }
    false
}

/// Filtering a log whose ids are pairwise different keeps them pairwise
/// different.
proof fn lemma_filter_distinct_ids(s: Seq<IncidentV>, pred: spec_fn(IncidentV) -> bool)
    requires
        forall|i: int, j: int| 0 <= i < j < s.len() ==> s[i].id != s[j].id,
    ensures
        forall|i: int, j: int|
            0 <= i < j < s.filter(pred).len() ==> s.filter(pred)[i].id != s.filter(pred)[j].id,
    decreases s.len(),
{
    reveal(Seq::filter);
    if s.len() > 0 {
        let init = s.drop_last();
        lemma_filter_distinct_ids(init, pred);
        let fi = init.filter(pred);
        let out = s.filter(pred);
        assert forall|i: int, j: int| 0 <= i < j < out.len() implies out[i].id != out[j].id by {
            if pred(s.last()) && j == out.len() - 1 {
                assert(out[i] == fi[i]);
                assert(fi.contains(fi[i]));
                init.lemma_filter_contains_rev(pred, fi[i]);
                let k = choose|k: int| 0 <= k < init.len() && init[k] == fi[i];
                assert(s[k].id != s[s.len() - 1].id);
            } else {
                assert(out[i] == fi[i] && out[j] == fi[j]);
            }
        }
    }
}

/// A digest that collected every current id leaves the log empty.
pub proof fn lemma_delete_all(incs: Seq<IncidentV>, ids: Seq<u64>)
    requires
        forall|i: int| 0 <= i < incs.len() ==> ids.contains((#[trigger] incs[i]).id),
    ensures
        incs.filter(|inc: IncidentV| !ids.contains(inc.id)) =~= Seq::<IncidentV>::empty(),
    decreases incs.len(),
{
    reveal(Seq::filter);
    if incs.len() > 0 {
        assert(forall|i: int|
            0 <= i < incs.drop_last().len() ==> ids.contains((#[trigger] incs.drop_last()[i]).id));
        lemma_delete_all(incs.drop_last(), ids);
    }
}

} // verus!
