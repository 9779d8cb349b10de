//! Checkpoint reducer: puts results that arrive out of order back into
//! checkpoint order, groups them into batches, and says when a batch is to
//! be committed and which watermark follows. The caller performs commits
//! and reports watermarks; every decision is made here.

use vstd::prelude::*;
use std::collections::HashMap;

verus! {

broadcast use vstd::std_specs::hash::group_hash_axioms;

/// Abstract state of a reducer.
pub ghost struct ReducerView<R> {
    /// Next checkpoint expected in order.
    pub current: u64,
    /// Results received but not yet taken in order.
    pub unprocessed: Map<u64, R>,
    /// The open batch.
    pub batch: Seq<R>,
    /// Checkpoint number of the open batch's first item: every checkpoint
    /// before it has been committed.
    pub batch_start: u64,
    /// A result taken in order and not yet placed in a batch.
    pub pending: Option<R>,
    /// Whether results are batched and committed (a collaborator exists).
    pub batching: bool,
    /// Every result taken in order so far, by checkpoint number.
    pub delivered: Map<u64, R>,
}

pub struct CheckpointReducer<R> {
    current_checkpoint_number: u64,
    unprocessed: HashMap<u64, R>,
    batch: Vec<R>,
    batch_start: u64,
    pending: Option<R>,
    batching: bool,
    delivered: Ghost<Map<u64, R>>,
}

/// `m` with the pairs of `chunk` inserted in order, a later pair replacing
/// an earlier one with the same checkpoint number.
pub open spec fn insert_all<R>(m: Map<u64, R>, chunk: Seq<(u64, R)>) -> Map<u64, R>
    decreases chunk.len(),
{
    if chunk.len() == 0 {
        m
    } else {
        insert_all(m, chunk.drop_last()).insert(chunk.last().0, chunk.last().1)
    }
}

/// The results delivered for checkpoints `from .. to`, in order.
pub open spec fn delivered_range<R>(delivered: Map<u64, R>, from: u64, to: u64) -> Seq<R> {
    Seq::new((to - from) as nat, |i: int| delivered[(from + i) as u64])
}

impl<R> View for CheckpointReducer<R> {
    type V = ReducerView<R>;

    closed spec fn view(&self) -> ReducerView<R> {
        ReducerView {
            current: self.current_checkpoint_number,
            unprocessed: self.unprocessed@,
            batch: self.batch@,
            batch_start: self.batch_start,
            pending: self.pending,
            batching: self.batching,
            delivered: self.delivered@,
        }
    }
}

/// The reducer's invariant: the open batch, followed by the pending result,
/// holds exactly the results delivered for checkpoints
/// `batch_start .. current`, in checkpoint order; without batching nothing
/// is held.
pub open spec fn well_formed<R>(s: ReducerView<R>) -> bool {
    let held = if s.pending is Some { s.batch.push(s.pending->0) } else { s.batch };
    &&& s.batch_start <= s.current
    &&& held == delivered_range(s.delivered, s.batch_start, s.current)
    &&& forall|n: u64| s.batch_start <= n < s.current ==> #[trigger] s.delivered.contains_key(n)
    &&& !s.batching ==> s.batch.len() == 0 && s.pending is None && s.batch_start == s.current
}

/// One operation of the reducer: either nothing is taken in order, or
/// exactly the result waiting under the expected number is taken and the
/// expected number advances by one.
pub open spec fn step<R>(s: ReducerView<R>, t: ReducerView<R>) -> bool {
    ||| t.current == s.current && t.delivered == s.delivered
    ||| {
        &&& s.current < u64::MAX
        &&& s.unprocessed.contains_key(s.current)
        &&& t.current == s.current + 1
        &&& t.delivered == s.delivered.insert(s.current, s.unprocessed[s.current])
    }
}

impl<R> CheckpointReducer<R> {
    pub closed spec fn wf(&self) -> bool {
        well_formed(self@)
    }

    /// A reducer that expects `start` next; `batching` says whether results
    /// are batched for a collaborator to commit.
    pub fn new(start: u64, batching: bool) -> (r: Self)
        ensures
            r.wf(),
            r@.current == start,
            r@.unprocessed == Map::<u64, R>::empty(),
            r@.batch == Seq::<R>::empty(),
            r@.batch_start == start,
            r@.pending is None,
            r@.batching == batching,
            r@.delivered == Map::<u64, R>::empty(),
    {
        let r = CheckpointReducer {
            current_checkpoint_number: start,
            unprocessed: HashMap::new(),
            batch: Vec::new(),
            batch_start: start,
            pending: None,
            batching,
            delivered: Ghost(Map::empty()),
        };
        assert(delivered_range(r@.delivered, start, start) =~= Seq::<R>::empty());
        r
    }

    /// Next checkpoint number expected in order.
    pub fn current_checkpoint_number(&self) -> (r: u64)
        ensures
            r == self@.current,
    {
        self.current_checkpoint_number
    }

    /// The open batch.
    pub fn batch(&self) -> (r: &Vec<R>)
        ensures
            r@ == self@.batch,
    {
        &self.batch
    }

    /// The result taken in order and not yet placed.
    pub fn pending(&self) -> (r: Option<&R>)
        ensures
            r == match self@.pending { Some(x) => Some(&x), None => None::<&R> },
    {
        match &self.pending {
            Some(x) => Some(x),
            None => None,
        }
    }

    /// Adds a chunk of received (checkpoint number, result) pairs to the
    /// results waiting to be taken in order.
    pub fn absorb(&mut self, chunk: Vec<(u64, R)>)
        requires
            old(self).wf(),
        ensures
            step(old(self)@, final(self)@),
            final(self).wf(),
            final(self)@ == (ReducerView {
                unprocessed: insert_all(old(self)@.unprocessed, chunk@),
                ..old(self)@
            }),
    {
        let ghost start = self.unprocessed@;
        let ghost items = chunk@;
        let mut chunk = chunk;
        let mut rest: Vec<(u64, R)> = Vec::new();
        // Reversed first, so that popping inserts the pairs in arrival order.
        while chunk.len() > 0
            invariant
                items == chunk@ + rest@.reverse(),
            decreases chunk.len(),
        {
            let ghost before = chunk@;
            let ghost before_rest = rest@;
            let p = chunk.pop().unwrap();
            rest.push(p);
            proof {
                assert(before =~= chunk@.push(p));
                assert(rest@.reverse() =~= seq![p] + before_rest.reverse());
                assert(items =~= chunk@ + rest@.reverse());
            }
        }
        assert(rest@.reverse() =~= items);
        let mut done: Ghost<Seq<(u64, R)>> = Ghost(Seq::empty());
        while rest.len() > 0
            invariant
                items == done@ + rest@.reverse(),
                self.unprocessed@ == insert_all(start, done@),
                self.current_checkpoint_number == old(self).current_checkpoint_number,
                self.batch == old(self).batch,
                self.batch_start == old(self).batch_start,
                self.pending == old(self).pending,
                self.batching == old(self).batching,
                self.delivered == old(self).delivered,
            decreases rest.len(),
        {
            let ghost before = rest@;
            let (n, x) = rest.pop().unwrap();
            proof {
                assert(before =~= rest@.push((n, x)));
                assert(before.reverse() =~= seq![(n, x)] + rest@.reverse());
                assert((done@.push((n, x))).drop_last() =~= done@);
            }
            self.unprocessed.insert(n, x);
            proof {
                done@ = done@.push((n, x));
                assert(items =~= done@ + rest@.reverse());
            }
        }
        assert(items =~= done@);
    }

    /// Takes the next result in checkpoint order, if it has arrived: it is
    /// removed from the waiting results and the expected number advances by
    /// one. With batching the result becomes pending, to be placed by
    /// `place`; without, it is dropped and the watermark moves past it.
    /// The last number, `u64::MAX`, is never taken, as its successor would
    /// not fit.
    pub fn take_ready(&mut self) -> (r: bool)
        requires
            old(self).wf(),
            old(self)@.pending is None,
        ensures
            step(old(self)@, final(self)@),
            final(self).wf(),
            r == (old(self)@.unprocessed.contains_key(old(self)@.current) && old(self)@.current < u64::MAX),
            !r ==> final(self)@ == old(self)@,
            r ==> final(self)@ == (ReducerView {
                current: (old(self)@.current + 1) as u64,
                unprocessed: old(self)@.unprocessed.remove(old(self)@.current),
                pending: if old(self)@.batching {
                    Some(old(self)@.unprocessed[old(self)@.current])
                } else {
                    None
                },
                batch_start: if old(self)@.batching {
                    old(self)@.batch_start
                } else {
                    (old(self)@.current + 1) as u64
                },
                delivered: old(self)@.delivered.insert(
                    old(self)@.current,
                    old(self)@.unprocessed[old(self)@.current],
                ),
                ..old(self)@
            }),
    {
        let n = self.current_checkpoint_number;
        if n == u64::MAX {
            return false;
        }
        let ghost o = self@;
        match self.unprocessed.remove(&n) {
            Some(x) => {
                proof {
                    self.delivered@ = self.delivered@.insert(n, x);
                }
                self.current_checkpoint_number = n + 1;
                if self.batching {
                    self.pending = Some(x);
                } else {
                    self.batch_start = n + 1;
                }
                proof {
                    let s = self@;
                    if o.batching {
                        assert(delivered_range(s.delivered, s.batch_start, s.current)
                            =~= delivered_range(o.delivered, o.batch_start, o.current).push(x));
                        assert(s.batch.push(s.pending->0) == delivered_range(s.delivered, s.batch_start, s.current));
                        assert(forall|m: u64| s.batch_start <= m < s.current ==> #[trigger] s.delivered.contains_key(m));
                    } else {
                        assert(s.batch =~= delivered_range(s.delivered, s.batch_start, s.current));
                    }
                }
                true
            },
            None => {
                assert(self.unprocessed@ =~= o.unprocessed);
                assert(self@ == o);
                false
            },
        }
    }

    /// Places the pending result. When `close` holds (the closing policy
    /// asked for the open batch to close before it), the open batch is
    /// handed back for commit with the watermark that follows its commit,
    /// the pending result's checkpoint number, and a new batch starts with
    /// the pending result. Otherwise the result joins the open batch.
    pub fn place(&mut self, close: bool) -> (r: Option<(Vec<R>, u64)>)
        requires
            old(self).wf(),
            old(self)@.pending is Some,
        ensures
            step(old(self)@, final(self)@),
            final(self).wf(),
            close ==> {
                &&& r matches Some((b, w)) && {
                    &&& b@ == old(self)@.batch
                    &&& w == old(self)@.current - 1
                    &&& b@ == delivered_range(old(self)@.delivered, old(self)@.batch_start, w)
                }
                &&& final(self)@ == (ReducerView {
                    batch: seq![old(self)@.pending->0],
                    batch_start: (old(self)@.current - 1) as u64,
                    pending: None,
                    ..old(self)@
                })
            },
            !close ==> {
                &&& r is None
                &&& final(self)@ == (ReducerView {
                    batch: old(self)@.batch.push(old(self)@.pending->0),
                    pending: None,
                    ..old(self)@
                })
            },
    {
        let ghost o = self@;
        let x = self.pending.take().unwrap();
        proof {
            assert(o.batch.push(x).len() == o.current - o.batch_start);
        }
        if close {
            let mut committed: Vec<R> = Vec::new();
            std::mem::swap(&mut committed, &mut self.batch);
            self.batch.push(x);
            let w = self.current_checkpoint_number - 1;
            self.batch_start = w;
            proof {
                assert(committed@ =~= delivered_range(o.delivered, o.batch_start, w)) by {
                    assert(o.batch =~= o.batch.push(x).drop_last());
                }
                assert(delivered_range(o.delivered, w, o.current) =~= seq![x]) by {
                    assert(o.batch.push(x)[o.batch.len() as int] == x);
                }
                assert(self@.batch =~= seq![x]);
            }
            Some((committed, w))
        } else {
            self.batch.push(x);
            None
        }
    }

    /// Closes the open batch when `close` holds (the closing policy asked
    /// for it with no next result): the batch is handed back for commit
    /// with the current checkpoint number as the watermark that follows,
    /// and an empty batch starts.
    pub fn close_batch(&mut self, close: bool) -> (r: Option<(Vec<R>, u64)>)
        requires
            old(self).wf(),
            old(self)@.pending is None,
        ensures
            step(old(self)@, final(self)@),
            final(self).wf(),
            close && old(self)@.batching ==> {
                &&& r matches Some((b, w)) && {
                    &&& b@ == old(self)@.batch
                    &&& w == old(self)@.current
                    &&& b@ == delivered_range(old(self)@.delivered, old(self)@.batch_start, w)
                }
                &&& final(self)@ == (ReducerView {
                    batch: Seq::empty(),
                    batch_start: old(self)@.current,
                    ..old(self)@
                })
            },
            !(close && old(self)@.batching) ==> r is None && final(self)@ == old(self)@,
    {
        if close && self.batching {
            let mut committed: Vec<R> = Vec::new();
            std::mem::swap(&mut committed, &mut self.batch);
            self.batch_start = self.current_checkpoint_number;
            proof {
                assert(delivered_range(self@.delivered, self@.batch_start, self@.current) =~= Seq::<R>::empty());
            }
            Some((committed, self.current_checkpoint_number))
        } else {
            None
        }
    }
}

/// Results enter batches in strict checkpoint order: in every well-formed
/// state the open batch, then the pending result, are the results
/// delivered for `batch_start, batch_start + 1, ..., current - 1`, one
/// each, and every checkpoint before `batch_start` has been handed out for
/// commit.
pub proof fn lemma_batches_in_checkpoint_order<R>(s: ReducerView<R>)
    requires
        well_formed(s),
    ensures
        s.batch.len() + (if s.pending is Some { 1int } else { 0int }) == s.current - s.batch_start,
        forall|i: int| 0 <= i < s.batch.len() ==> #[trigger] s.batch[i] == s.delivered[(s.batch_start + i) as u64],
        s.pending is Some ==> s.pending->0 == s.delivered[(s.current - 1) as u64],
{
    let held = if s.pending is Some { s.batch.push(s.pending->0) } else { s.batch };
    let range = delivered_range(s.delivered, s.batch_start, s.current);
    assert(held == range);
    assert(held.len() == s.current - s.batch_start);
    assert forall|i: int| 0 <= i < s.batch.len() implies #[trigger] s.batch[i] == s.delivered[(s.batch_start + i) as u64] by {
        assert(held[i] == s.batch[i]);
        assert(range[i] == s.delivered[(s.batch_start + i) as u64]);
    }
    if s.pending is Some {
        assert(held[s.batch.len() as int] == s.pending->0);
        assert(range[s.batch.len() as int] == s.delivered[(s.current - 1) as u64]);
    }
}

/// Under a closing policy that closes the open batch as soon as it holds a
/// result, each commit that `place` asks for holds exactly one result, and
/// its watermark is one past the previous commit's watermark (the
/// batch's start), so the watermarks rise strictly, one per checkpoint.
pub proof fn lemma_single_item_batches<R>(s: ReducerView<R>)
    requires
        well_formed(s),
        s.pending is Some,
        s.batch.len() == 1,
    ensures
        s.current - 1 == s.batch_start + 1,
        s.batch == seq![s.delivered[s.batch_start]],
{
    lemma_batches_in_checkpoint_order(s);
    assert(s.batch =~= seq![s.delivered[s.batch_start]]);
}

/// The range of checkpoint numbers `start .. current`.
pub open spec fn taken_range(start: u64, current: u64) -> Set<u64> {
    Set::new(|n: u64| start <= n < current)
}

proof fn lemma_step_takes_next<R>(s: ReducerView<R>, t: ReducerView<R>, start: u64)
    requires
        step(s, t),
        start <= s.current,
        s.delivered.dom() == taken_range(start, s.current),
    ensures
        start <= t.current,
        t.delivered.dom() == taken_range(start, t.current),
        s.delivered.submap_of(t.delivered),
{
    assert(t.delivered.dom() =~= taken_range(start, t.current));
    assert(!s.delivered.contains_key(s.current));
}

/// Over any run of operations from a fresh reducer expecting `start`,
/// results are taken in strict checkpoint order: after each operation the
/// results taken so far are exactly those for `start, start + 1, ...,
/// current - 1`, one per number, and no operation replaces a result
/// already taken.
pub proof fn lemma_run_takes_in_order<R>(trace: Seq<ReducerView<R>>, start: u64)
    requires
        trace.len() > 0,
        trace[0].current == start,
        trace[0].delivered == Map::<u64, R>::empty(),
        forall|i: int| 0 <= i < trace.len() - 1 ==> step(#[trigger] trace[i], trace[i + 1]),
    ensures
        forall|i: int| 0 <= i < trace.len() ==> start <= (#[trigger] trace[i]).current
            && trace[i].delivered.dom() == taken_range(start, trace[i].current),
        forall|i: int| 0 <= i < trace.len() - 1 ==> (#[trigger] trace[i]).delivered.submap_of(
            trace[i + 1].delivered,
        ),
    decreases trace.len(),
{
    if trace.len() == 1 {
        assert(trace[0].delivered.dom() =~= taken_range(start, trace[0].current));
    } else {
        let prefix = trace.drop_last();
        assert forall|i: int| 0 <= i < prefix.len() - 1 implies step(#[trigger] prefix[i], prefix[i + 1]) by {
            assert(step(trace[i], trace[i + 1]));
        }
        lemma_run_takes_in_order(prefix, start);
        let n = trace.len() - 1;
        assert(prefix[n - 1] == trace[n - 1]);
        assert(step(trace[n - 1], trace[n]));
        lemma_step_takes_next(trace[n - 1], trace[n], start);
        assert forall|i: int| 0 <= i < trace.len() implies start <= (#[trigger] trace[i]).current
            && trace[i].delivered.dom() == taken_range(start, trace[i].current) by {
            if i < n {
                assert(prefix[i] == trace[i]);
            }
        }
        assert forall|i: int| 0 <= i < trace.len() - 1 implies (#[trigger] trace[i]).delivered.submap_of(
            trace[i + 1].delivered,
        ) by {
            if i < n - 1 {
                assert(prefix[i] == trace[i] && prefix[i + 1] == trace[i + 1]);
            }
        }
    }
}

} // verus!
