//! A small reliable job-queue core: named queues of encoded jobs, a
//! four-list delivery protocol per queue (pending, recovery, completed,
//! failed), and a registry that fans dispatch, consumption, stats and
//! shutdown out to its queues.

use vstd::prelude::*;

mod error;
mod queue;

verus! {

pub use error::Error;
pub use queue::{
    Job, Keys, Queue, QueueState, Stats, StepOutcome, decoding_of, dispatched_from, encoding_of,
    first_eq_index, lemma_decode_of_encode, lemma_dispatch_invariant, lemma_failed_processing,
    lemma_job_round_trip, lemma_no_entry_lost, lemma_shutdown_stops_consumers,
    lemma_successful_processing, process_transition, sep_position, step_contract,
    stranded_transition, unchanged_lists, uuid_char, valid_job_id,
};

/// The index of the first registered queue whose name matches, if any.
pub open spec fn find_queue<F>(qs: Seq<Queue<F>>, name: Seq<char>) -> Option<int>
    decreases qs.len(),
{
    if qs.len() == 0 {
        None
    } else if qs[0].queues.pending@ == name {
        Some(0int)
    } else {
        match find_queue(qs.drop_first(), name) {
            Some(i) => Some(i + 1),
            None => None,
        }
    }
}

proof fn lemma_find_queue_at<F>(qs: Seq<Queue<F>>, name: Seq<char>, i: int)
    requires
        0 <= i < qs.len(),
        qs[i].queues.pending@ == name,
        forall|j: int| 0 <= j < i ==> qs[j].queues.pending@ != name,
    ensures
        find_queue(qs, name) == Some(i),
    decreases qs.len(),
{
    if i > 0 {
        lemma_find_queue_at(qs.drop_first(), name, i - 1);
    }
}

proof fn lemma_find_queue_absent<F>(qs: Seq<Queue<F>>, name: Seq<char>)
    requires
        forall|j: int| 0 <= j < qs.len() ==> qs[j].queues.pending@ != name,
    ensures
        find_queue(qs, name) is None,
    decreases qs.len(),
{
    if qs.len() > 0 {
        lemma_find_queue_absent(qs.drop_first(), name);
    }
}

/// A just-registered queue: list names derived from the given name, the
/// given handler, four empty lists.
pub open spec fn queue_fresh<F>(q: Queue<F>, name: Seq<char>, handler: F) -> bool {
    &&& q.queues.pending@ == name
    &&& q.queues.recovery@ == name + ".pending"@
    &&& q.queues.completed@ == name + ".completed"@
    &&& q.queues.failed@ == name + ".failed"@
    &&& q.handler() == handler
    &&& q.state.pending@ == Seq::<String>::empty()
    &&& q.state.recovery@ == Seq::<String>::empty()
    &&& q.state.completed@ == Seq::<String>::empty()
    &&& q.state.failed@ == Seq::<String>::empty()
}

/// The registry: all queues of one process, and the shutdown signal their
/// consumers watch.
pub struct Redeez<F> {
    queues: Vec<Queue<F>>,
    shutdown_requested: bool,
}

impl<F> Redeez<F> {
    /// The registered queues, in registration order.
    pub closed spec fn queues(&self) -> Seq<Queue<F>> {
        self.queues@
    }

    /// Whether the stop signal has been broadcast.
    pub closed spec fn shutdown_requested(&self) -> bool {
        self.shutdown_requested
    }

    /// An empty registry with no stop signal pending.
    pub fn new() -> (r: Redeez<F>)
        ensures
            r.queues() == Seq::<Queue<F>>::empty(),
            !r.shutdown_requested(),
    {
        Redeez { queues: Vec::new(), shutdown_requested: false }
    }

    /// Registers a queue under the given name. Re-registering a name
    /// replaces the prior queue: the last registration wins.
    #[verifier::loop_isolation(false)]
    pub fn queue(self, name: &str, handler: F) -> (r: Redeez<F>)
        ensures
            r.shutdown_requested() == self.shutdown_requested(),
            match find_queue(self.queues(), name@) {
                Some(i) => {
                    &&& r.queues().len() == self.queues().len()
                    &&& (forall|k: int|
                        0 <= k < r.queues().len() && k != i ==> r.queues()[k] == self.queues()[k])
                    &&& queue_fresh(r.queues()[i], name@, handler)
                },
                None => {
                    &&& r.queues().len() == self.queues().len() + 1
                    &&& r.queues().drop_last() == self.queues()
                    &&& queue_fresh(r.queues().last(), name@, handler)
                },
            },
    {
        let ghost orig = self;
        let mut me = self;
        let fresh = Queue::new(name, handler);
        let name_s: String = name.to_owned();
        let n = me.queues.len();
        let mut i: usize = 0;
        while i < n
            invariant
                i <= n,
                n == me.queues@.len(),
                name_s@ == name@,
                forall|j: int| 0 <= j < i ==> me.queues@[j].queues.pending@ != name@,
                me == orig,
                queue_fresh(fresh, name@, handler),
            decreases n - i,
        {
            if me.queues[i].queues.pending.eq(&name_s) {
                proof {
                    lemma_find_queue_at(me.queues@, name@, i as int);
                }
                let _ = me.queues.remove(i);
                me.queues.insert(i, fresh);
                proof {
                    assert(me.queues@ =~= orig.queues@.update(i as int, me.queues@[i as int]));
                }
                return me;
            }
            i += 1;
        }
        proof {
            lemma_find_queue_absent(me.queues@, name@);
        }
        me.queues.push(fresh);
        proof {
            assert(me.queues@.drop_last() =~= orig.queues@);
        }
        me
    }

    /// Routes the payload into the queue of the given name as a fresh
    /// job. An unknown name is a no-op: no list changes and no error is
    /// reported.
    pub fn dispatch(&mut self, name: &str, payload: String) -> (r: Result<(), Error>)
        ensures
            r is Ok,
            final(self).shutdown_requested() == old(self).shutdown_requested(),
            match find_queue(old(self).queues(), name@) {
                None => final(self).queues() == old(self).queues(),
                Some(i) => {
                    &&& final(self).queues().len() == old(self).queues().len()
                    &&& (forall|k: int|
                        0 <= k < final(self).queues().len() && k != i ==> final(self).queues()[k]
                            == old(self).queues()[k])
                    &&& final(self).queues()[i].queues == old(self).queues()[i].queues
                    &&& final(self).queues()[i].handler() == old(self).queues()[i].handler()
                    &&& dispatched_from(
                        old(self).queues()[i].state,
                        final(self).queues()[i].state,
                        payload@,
                    )
                },
            },
    {
        let name_s: String = name.to_owned();
        let n = self.queues.len();
        let mut i: usize = 0;
        while i < n
            invariant
                i <= n,
                n == self.queues@.len(),
                name_s@ == name@,
                forall|j: int| 0 <= j < i ==> self.queues@[j].queues.pending@ != name@,
                *self == *old(self),
            decreases n - i,
        {
            if self.queues[i].queues.pending.eq(&name_s) {
                proof {
                    lemma_find_queue_at(self.queues@, name@, i as int);
                }
                let mut q = self.queues.remove(i);
                let _ = q.dispatch(payload);
                self.queues.insert(i, q);
                proof {
                    assert(final(self).queues@ =~= old(self).queues@.update(
                        i as int,
                        final(self).queues@[i as int],
                    ));
                }
                return Ok(());
            }
            i += 1;
        }
        proof {
            lemma_find_queue_absent(self.queues@, name@);
        }
        Ok(())
    }

}

impl<F> Redeez<F> where F: Fn(Job) -> Result<(), Error> {
    /// One turn of the consume loop of the named queue, watching the
    /// registry's stop signal: the verified core of a consumer task. A
    /// name with no registered queue has no consumer, so the turn reports
    /// `Stopped` and touches nothing.
    pub fn consume_step(&mut self, name: &str) -> (r: Result<StepOutcome, Error>)
        requires
            forall|i: int, j: Job|
                0 <= i < old(self).queues().len() ==> #[trigger] call_requires(
                    old(self).queues()[i].handler(),
                    (j,),
                ),
        ensures
            final(self).shutdown_requested() == old(self).shutdown_requested(),
            match find_queue(old(self).queues(), name@) {
                None => r == Ok::<StepOutcome, Error>(StepOutcome::Stopped) && final(self).queues()
                    == old(self).queues(),
                Some(i) => {
                    &&& final(self).queues().len() == old(self).queues().len()
                    &&& (forall|k: int|
                        0 <= k < final(self).queues().len() && k != i ==> final(self).queues()[k]
                            == old(self).queues()[k])
                    &&& step_contract(
                        old(self).queues()[i],
                        final(self).queues()[i],
                        old(self).shutdown_requested(),
                        r,
                    )
                    &&& match r {
                        Ok(StepOutcome::Processed(ok)) => match decoding_of(
                            old(self).queues()[i].state.pending@.last()@,
                        ) {
                            Some(d) => exists|j: Job, hr: Result<(), Error>|
                                j.id@ == d.0 && j.payload@ == d.1 && #[trigger] call_ensures(
                                    old(self).queues()[i].handler(),
                                    (j,),
                                    hr,
                                ) && (ok <==> hr is Ok),
                            None => false,
                        },
                        _ => true,
                    }
                },
            },
    {
        let name_s: String = name.to_owned();
        let n = self.queues.len();
        let mut i: usize = 0;
        while i < n
            invariant
                i <= n,
                n == self.queues@.len(),
                name_s@ == name@,
                forall|j: int| 0 <= j < i ==> self.queues@[j].queues.pending@ != name@,
                *self == *old(self),
                forall|k: int, j: Job|
                    0 <= k < self.queues@.len() ==> #[trigger] call_requires(
                        self.queues@[k].handler(),
                        (j,),
                    ),
            decreases n - i,
        {
            if self.queues[i].queues.pending.eq(&name_s) {
                proof {
                    lemma_find_queue_at(self.queues@, name@, i as int);
                }
                let mut q = self.queues.remove(i);
                let r = q.consume_step(self.shutdown_requested);
                self.queues.insert(i, q);
                proof {
                    assert(final(self).queues@ =~= old(self).queues@.update(
                        i as int,
                        final(self).queues@[i as int],
                    ));
                }
                return r;
            }
            i += 1;
        }
        proof {
            lemma_find_queue_absent(self.queues@, name@);
        }
        Ok(StepOutcome::Stopped)
    }

    /// A snapshot of every queue's four list lengths, one entry per
    /// registered queue, in registration order.
    pub fn stats(&self) -> (r: Result<Vec<(String, Stats)>, Error>)
        ensures
            match r {
                Ok(v) => {
                    &&& v@.len() == self.queues().len()
                    &&& forall|i: int|
                        0 <= i < v@.len() ==> (#[trigger] v@[i]).0@
                            == self.queues()[i].queues.pending@ && v@[i].1
                            == self.queues()[i].state.spec_stats()
                },
                Err(_) => false,
            },
    {
        let mut out: Vec<(String, Stats)> = Vec::new();
        let n = self.queues.len();
        let mut i: usize = 0;
        while i < n
            invariant
                i <= n,
                n == self.queues@.len(),
                out@.len() == i,
                forall|k: int|
                    0 <= k < i ==> (#[trigger] out@[k]).0@ == self.queues@[k].queues.pending@
                        && out@[k].1 == self.queues@[k].state.spec_stats(),
            decreases n - i,
        {
            let name_c = self.queues[i].queues.pending.clone();
            let s = match self.queues[i].stats() {
                Ok(s) => s,
                Err(_) => {
                    return Err(Error::Store);
                },
            };
            out.push((name_c, s));
            i += 1;
        }
        Ok(out)
    }

    /// Broadcasts the stop signal: every consume step from here on
    /// observes it and stops. Fire-and-forget: no consumer is waited for.
    pub fn shutdown(&mut self) -> (r: Result<(), Error>)
        ensures
            r is Ok,
            final(self).shutdown_requested(),
            final(self).queues() == old(self).queues(),
    {
        self.shutdown_requested = true;
        Ok(())
    }
}

} // verus!
