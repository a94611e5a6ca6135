//! Per-directory progress of a watermark removal run, and the events it gives rise to.
use vstd::prelude::*;
use crate::events::{
    RemoveEvent, RemoveWatermarkEndEvent, RemoveWatermarkEndEventPayload, RemoveWatermarkStartEvent,
    RemoveWatermarkStartEventPayload, RemoveWatermarkSuccessEvent, RemoveWatermarkSuccessEventPayload,
};

verus! {

/// The events of `log` that are about directory `d`, in order.
pub open spec fn events_for(log: Seq<RemoveEvent>, d: Seq<char>) -> Seq<RemoveEvent>
    decreases log.len(),
{
    if log.len() == 0 {
        Seq::empty()
    } else if log.last().dir() == d {
        events_for(log.drop_last(), d).push(log.last())
    } else {
        events_for(log.drop_last(), d)
    }
}

/// What an event says, without paths: a start with its total, a success with its count, an
/// error or an end.
#[derive(PartialEq, Eq)]
pub ghost enum EventShape {
    Start(nat),
    Success(nat),
    Error,
    End,
}

pub open spec fn shape(e: RemoveEvent) -> EventShape {
    match e {
        RemoveEvent::Start(s) => EventShape::Start(s.0.total as nat),
        RemoveEvent::Success(s) => EventShape::Success(s.0.current as nat),
        RemoveEvent::Error(_) => EventShape::Error,
        RemoveEvent::End(_) => EventShape::End,
    }
}

/// The shapes of a sequence of events.
pub open spec fn shapes(s: Seq<RemoveEvent>) -> Seq<EventShape> {
    s.map_values(|e: RemoveEvent| shape(e))
}

/// The events of a directory with `total` pages after `current` of them are done: one start,
/// successes counting 1 to `current`, and one end once all are done.
pub open spec fn expected_shapes(total: nat, current: nat) -> Seq<EventShape> {
    seq![EventShape::Start(total)] + Seq::new(current, |i: int| EventShape::Success((i + 1) as nat))
        + if current == total { seq![EventShape::End] } else { Seq::empty() }
}

pub proof fn lemma_events_for_append(a: Seq<RemoveEvent>, b: Seq<RemoveEvent>, d: Seq<char>)
    ensures
        events_for(a + b, d) == events_for(a, d) + events_for(b, d),
    decreases b.len(),
{
    if b.len() == 0 {
        assert(a + b =~= a);
        assert(events_for(a, d) + events_for(b, d) =~= events_for(a, d));
    } else {
        lemma_events_for_append(a, b.drop_last(), d);
        assert((a + b).drop_last() =~= a + b.drop_last());
        assert((a + b).last() == b.last());
        if b.last().dir() == d {
            assert(events_for(a, d) + events_for(b.drop_last(), d).push(b.last())
                =~= (events_for(a, d) + events_for(b.drop_last(), d)).push(b.last()));
        }
    }
}

/// Progress of a removal run: for each directory its path, pages done and pages in all,
/// and the log of every event given so far.
pub struct RemoveProgress {
    pub dirs: Vec<String>,
    pub currents: Vec<u32>,
    pub totals: Vec<u32>,
    pub log: Ghost<Seq<RemoveEvent>>,
}

impl RemoveProgress {
    /// Directories are distinct, no count passes its total, and the log of each directory
    /// is exactly what its counts call for.
    pub open spec fn wf(&self) -> bool {
        &&& self.currents@.len() == self.dirs@.len()
        &&& self.totals@.len() == self.dirs@.len()
        &&& forall|i: int, j: int| 0 <= i < j < self.dirs@.len() ==> #[trigger] self.dirs@[i]@ != #[trigger] self.dirs@[j]@
        &&& forall|i: int| 0 <= i < self.dirs@.len() ==> #[trigger] self.currents@[i] <= self.totals@[i]
        &&& forall|i: int| 0 <= i < self.dirs@.len() ==>
            shapes(#[trigger] events_for(self.log@, self.dirs@[i]@))
                == expected_shapes(self.totals@[i] as nat, self.currents@[i] as nat)
    }

    /// Starts tracking the given directories, each with at least one page; the start events
    /// come back in the same order.
    pub fn new(dirs: Vec<String>, totals: Vec<u32>) -> (r: (RemoveProgress, Vec<RemoveEvent>))
        requires
            dirs@.len() == totals@.len(),
            forall|i: int, j: int| 0 <= i < j < dirs@.len() ==> #[trigger] dirs@[i]@ != #[trigger] dirs@[j]@,
            forall|i: int| 0 <= i < totals@.len() ==> #[trigger] totals@[i] > 0,
        ensures
            r.0.wf(),
            r.0.dirs@ == dirs@,
            r.0.totals@ == totals@,
            forall|i: int| 0 <= i < dirs@.len() ==> #[trigger] r.0.currents@[i] == 0,
            r.0.log@ == r.1@,
            r.1@.len() == dirs@.len(),
            forall|i: int| 0 <= i < dirs@.len() ==>
                (#[trigger] r.1@[i] matches RemoveEvent::Start(s) && s.0.dir_path@ == dirs@[i]@ && s.0.total == totals@[i]),
    {
        let mut events: Vec<RemoveEvent> = Vec::new();
        let mut currents: Vec<u32> = Vec::new();
        let mut i: usize = 0;
        while i < dirs.len()
            invariant
                dirs@.len() == totals@.len(),
                forall|a: int| 0 <= a < totals@.len() ==> #[trigger] totals@[a] > 0,
                forall|a: int, b: int| 0 <= a < b < dirs@.len() ==> #[trigger] dirs@[a]@ != #[trigger] dirs@[b]@,
                i <= dirs@.len(),
                events@.len() == i,
                currents@.len() == i,
                forall|k: int| 0 <= k < i ==> #[trigger] currents@[k] == 0,
                forall|k: int| 0 <= k < i ==>
                    (#[trigger] events@[k] matches RemoveEvent::Start(s) && s.0.dir_path@ == dirs@[k]@ && s.0.total == totals@[k]),
                forall|k: int| 0 <= k < i ==>
                    shapes(#[trigger] events_for(events@, dirs@[k]@))
                        == seq![EventShape::Start(totals@[k] as nat)],
                forall|k: int| i <= k < dirs@.len() ==> #[trigger] events_for(events@, dirs@[k]@) == Seq::<RemoveEvent>::empty(),
            decreases dirs@.len() - i,
        {
            let ev = RemoveEvent::Start(RemoveWatermarkStartEvent(RemoveWatermarkStartEventPayload {
                dir_path: dirs[i].clone(),
                total: totals[i],
            }));
            let ghost before = events@;
            events.push(ev);
            currents.push(0);
            proof {
                assert(events@.drop_last() =~= before);
                assert(events@.last().dir() == dirs@[i as int]@);
                assert(events_for(before, dirs@[i as int]@) == Seq::<RemoveEvent>::empty());
                assert(events_for(events@, dirs@[i as int]@) == events_for(before, dirs@[i as int]@).push(events@.last()));
                assert forall|k: int| 0 <= k < i + 1 implies
                    shapes(#[trigger] events_for(events@, dirs@[k]@))
                        == seq![EventShape::Start(totals@[k] as nat)] by {
                    if k < i {
                        assert(dirs@[k]@ != dirs@[i as int]@);
                        assert(events_for(events@, dirs@[k]@) == events_for(before, dirs@[k]@));
                    } else {
                        assert(events_for(events@, dirs@[k]@) =~= seq![events@[k]]);
                        assert(shapes(seq![events@[k]]) =~= seq![EventShape::Start(totals@[k] as nat)]);
                    }
                }
                assert forall|k: int| i + 1 <= k < dirs@.len() implies #[trigger] events_for(events@, dirs@[k]@) == Seq::<RemoveEvent>::empty() by {
                    assert(dirs@[i as int]@ != dirs@[k]@);
                    assert(events_for(events@, dirs@[k]@) == events_for(before, dirs@[k]@));
                }
            }
            i = i + 1;
        }
        let ghost log = events@;
        let ghost d = dirs@;
        let ghost c = currents@;
        let ghost t = totals@;
        let p = RemoveProgress { dirs, currents, totals, log: Ghost(log) };
        assert(p.dirs@ == d && p.currents@ == c && p.totals@ == t);
        assert forall|k: int| 0 <= k < p.dirs@.len() implies
            shapes(#[trigger] events_for(p.log@, p.dirs@[k]@))
                == expected_shapes(p.totals@[k] as nat, p.currents@[k] as nat) by {
            let tk = t[k] as nat;
            assert(c[k] == 0);
            assert(shapes(events_for(log, d[k]@)) == seq![EventShape::Start(tk)]);
            assert(expected_shapes(tk, 0) =~= seq![EventShape::Start(tk)]);
        }
        (p, events)
    }

    /// Records that one more page of directory `k` is done, written to `img_path`: a success
    /// event with the new count, followed by an end event when that was the last page.
    pub fn record(&mut self, k: usize, img_path: String) -> (r: Vec<RemoveEvent>)
        requires
            old(self).wf(),
            k < old(self).dirs@.len(),
            old(self).currents@[k as int] < old(self).totals@[k as int],
        ensures
            final(self).wf(),
            final(self).dirs@ == old(self).dirs@,
            final(self).totals@ == old(self).totals@,
            final(self).currents@ == old(self).currents@.update(k as int, (old(self).currents@[k as int] + 1) as u32),
            final(self).log@ == old(self).log@ + r@,
            r@.len() == if old(self).currents@[k as int] + 1 == old(self).totals@[k as int] { 2int } else { 1int },
            r@[0] matches RemoveEvent::Success(s) && s.0.dir_path@ == old(self).dirs@[k as int]@
                && s.0.img_path@ == img_path@ && s.0.current == old(self).currents@[k as int] + 1,
            r@.len() == 2 ==> (r@[1] matches RemoveEvent::End(e) && e.0.dir_path@ == old(self).dirs@[k as int]@),
    {
        let current = self.currents[k] + 1;
        let total = self.totals[k];
        self.currents.set(k, current);
        let mut events: Vec<RemoveEvent> = Vec::new();
        events.push(RemoveEvent::Success(RemoveWatermarkSuccessEvent(RemoveWatermarkSuccessEventPayload {
            dir_path: self.dirs[k].clone(),
            img_path,
            current,
        })));
        if current == total {
            events.push(RemoveEvent::End(RemoveWatermarkEndEvent(RemoveWatermarkEndEventPayload {
                dir_path: self.dirs[k].clone(),
            })));
        }
        let ghost d = self.dirs@[k as int]@;
        let ghost old_log = self.log@;
        self.log = Ghost(self.log@ + events@);
        proof {
            assert forall|e: int| 0 <= e < events@.len() implies (#[trigger] events@[e]).dir() == d by {}
            assert forall|i: int| 0 <= i < self.dirs@.len() implies
                shapes(#[trigger] events_for(self.log@, self.dirs@[i]@))
                    == expected_shapes(self.totals@[i] as nat, self.currents@[i] as nat) by {
                lemma_events_for_append(old_log, events@, self.dirs@[i]@);
                lemma_events_for_one_dir(events@, self.dirs@[i]@, d);
                if i == k {
                    let a = events_for(old_log, d);
                    assert(shapes(a + events@) =~= shapes(a) + shapes(events@));
                    let c = old(self).currents@[k as int] as nat;
                    let t = self.totals@[k as int] as nat;
                    assert(expected_shapes(t, c) =~= seq![EventShape::Start(t)] + Seq::new(c, |j: int| EventShape::Success((j + 1) as nat)));
                    if current == total {
                        assert(shapes(events@) =~= seq![EventShape::Success((c + 1) as nat), EventShape::End]);
                    } else {
                        assert(shapes(events@) =~= seq![EventShape::Success((c + 1) as nat)]);
                    }
                    assert(shapes(a + events@) =~= expected_shapes(t, c + 1));
                } else {
                    assert(self.dirs@[i]@ != d);
                    assert(events_for(old_log, self.dirs@[i]@) + Seq::<RemoveEvent>::empty() =~= events_for(old_log, self.dirs@[i]@));
                }
            }
        }
        events
    }
}

/// Events that are all about directory `d2` are all or none of the events about `d`.
pub proof fn lemma_events_for_one_dir(r: Seq<RemoveEvent>, d: Seq<char>, d2: Seq<char>)
    requires
        forall|e: int| 0 <= e < r.len() ==> (#[trigger] r[e]).dir() == d2,
    ensures
        events_for(r, d) == if d == d2 { r } else { Seq::<RemoveEvent>::empty() },
    decreases r.len(),
{
    if r.len() > 0 {
        lemma_events_for_one_dir(r.drop_last(), d, d2);
        assert(r.drop_last().push(r.last()) =~= r);
    }
}

/// Once every page of a directory is done, its events are exactly: one start carrying the
/// page count `n`, then one success for each count from 1 to `n` in order, then one end.
/// Recording a further page of it is not possible, so no event about it follows the end.
pub proof fn lemma_directory_finished(p: RemoveProgress, k: int)
    requires
        p.wf(),
        0 <= k < p.dirs@.len(),
        p.currents@[k] == p.totals@[k],
    ensures
        shapes(events_for(p.log@, p.dirs@[k]@)) == seq![EventShape::Start(p.totals@[k] as nat)]
            + Seq::new(p.totals@[k] as nat, |i: int| EventShape::Success((i + 1) as nat))
            + seq![EventShape::End],
{
    assert(shapes(events_for(p.log@, p.dirs@[k]@)) == expected_shapes(p.totals@[k] as nat, p.currents@[k] as nat));
}

} // verus!
