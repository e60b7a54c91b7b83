//! The worker pool: a FIFO job queue, a fixed set of workers, and the
//! bookkeeping that shows each submitted job is claimed by exactly one
//! worker and completed exactly once.

use vstd::multiset::Multiset;
use vstd::prelude::*;

verus! {

/// The lifecycle of one worker: blocked on the queue, executing a claimed
/// job, finished after observing the closed queue, or joined by the owner.
#[derive(Clone, Copy, Debug, PartialEq, Eq, Structural)]
pub enum WorkerState {
    /// Blocked, waiting for the queue to yield a job or report closure.
    Waiting,
    /// Executing the job it claimed.
    Running(u64),
    /// Observed the closed signal; its thread has ended but is not yet joined.
    Terminated,
    /// Its thread handle has been taken and joined.
    Joined,
}

/// What one receive on the shared consumer endpoint yields.
#[derive(Clone, Copy, Debug, PartialEq, Eq, Structural)]
pub enum Message {
    /// The oldest queued job, delivered exclusively to the caller.
    Job(u64),
    /// The producer endpoint is closed and the backlog is drained.
    Closed,
    /// Nothing is queued and the producer endpoint is still open, so a real
    /// worker would stay blocked; the model reports that and changes nothing.
    WouldBlock,
}

/// The multiset a single worker contributes to the running jobs.
pub open spec fn job_of(w: WorkerState) -> Multiset<u64> {
    match w {
        WorkerState::Running(j) => Multiset::empty().insert(j),
        _ => Multiset::empty(),
    }
}

/// All jobs currently being executed, with multiplicity.
pub open spec fn running_jobs_of(ws: Seq<WorkerState>) -> Multiset<u64>
    decreases ws.len(),
{
    if ws.len() == 0 {
        Multiset::empty()
    } else {
        job_of(ws[0]).add(running_jobs_of(ws.drop_first()))
    }
}

/// A fixed-size pool of workers sharing one FIFO job queue.
///
/// `pending` is the queue's backlog, `workers` the state of each worker, and
/// `completed` the jobs that finished, in completion order. The ghost fields
/// record the full history: every job ever submitted and every job ever
/// delivered to a worker, both in order.
pub struct ThreadPool {
    /// One entry per worker, fixed at construction.
    pub workers: Vec<WorkerState>,
    /// Submitted jobs not yet claimed by any worker, oldest first.
    pub pending: Vec<u64>,
    /// Whether the producer endpoint has been closed.
    pub closed: bool,
    /// Jobs that ran to completion, in the order they finished.
    pub completed: Vec<u64>,
    /// Every job ever submitted, in submission order.
    pub submitted: Ghost<Seq<u64>>,
    /// Every job ever handed to a worker, in delivery order.
    pub delivered: Ghost<Seq<u64>>,
}

impl ThreadPool {
    /// The pool's invariant: the history splits into delivered jobs followed
    /// by the backlog, every delivered job is either running or completed,
    /// workers outlive the queue (none terminates while it is open or while
    /// jobs remain), and the pool is never empty of workers.
    pub open spec fn wf(self) -> bool {
        &&& self.workers@.len() > 0
        &&& self.submitted@ == self.delivered@ + self.pending@
        &&& self.delivered@.to_multiset() == running_jobs_of(self.workers@).add(
            self.completed@.to_multiset(),
        )
        &&& !self.closed ==> forall|i: int|
            0 <= i < self.workers@.len() ==> (self.workers@[i] is Waiting || self.workers@[i]
                is Running)
        &&& self.pending@.len() > 0 ==> forall|i: int|
            0 <= i < self.workers@.len() ==> (self.workers@[i] is Waiting || self.workers@[i]
                is Running)
    }

    /// Creates a pool of exactly `size` workers, all immediately waiting on
    /// the empty, open queue. A zero-size pool is a caller error and is
    /// excluded outright.
    pub fn new(size: usize) -> (pool: ThreadPool)
        requires
            size > 0,
        ensures
            pool.wf(),
            pool.workers@.len() == size,
            forall|i: int| 0 <= i < size ==> pool.workers@[i] is Waiting,
            pool.pending@ == Seq::<u64>::empty(),
            !pool.closed,
            pool.completed@ == Seq::<u64>::empty(),
            pool.submitted@ == Seq::<u64>::empty(),
            pool.delivered@ == Seq::<u64>::empty(),
    {
        let mut workers: Vec<WorkerState> = Vec::new();
        let mut i: usize = 0;
        while i < size
            invariant
                i <= size,
                workers@.len() == i,
                forall|k: int| 0 <= k < i ==> workers@[k] is Waiting,
            decreases size - i,
        {
            workers.push(WorkerState::Waiting);
            i = i + 1;
        }
        let pool = ThreadPool {
            workers,
            pending: Vec::new(),
            closed: false,
            completed: Vec::new(),
            submitted: Ghost(Seq::empty()),
            delivered: Ghost(Seq::empty()),
        };
        proof {
            lemma_running_jobs_all_idle(pool.workers@);
            lemma_to_multiset_empty::<u64>();
            assert(pool.submitted@ == pool.delivered@ + pool.pending@);
            assert(pool.delivered@.to_multiset() =~= running_jobs_of(pool.workers@).add(
                pool.completed@.to_multiset(),
            ));
        }
        pool
    }

    /// Submits one job: it joins the back of the queue, eventually to be
    /// claimed by exactly one worker. Submitting after the producer endpoint
    /// was closed is a caller error and is excluded outright.
    pub fn execute(&mut self, job: u64)
        requires
            old(self).wf(),
            !old(self).closed,
        ensures
            final(self).wf(),
            !final(self).closed,
            final(self).pending@ == old(self).pending@.push(job),
            final(self).submitted@ == old(self).submitted@.push(job),
            final(self).workers@ == old(self).workers@,
            final(self).completed@ == old(self).completed@,
            final(self).delivered@ == old(self).delivered@,
    {
        self.pending.push(job);
        proof {
            self.submitted@ = self.submitted@.push(job);
            assert(self.submitted@ =~= self.delivered@ + self.pending@);
        }
    }

    /// Closes the producer endpoint: no further job will ever be submitted,
    /// and each worker, once the backlog is drained, will observe the closed
    /// signal and terminate. Closing an already-closed pool changes nothing.
    pub fn close(&mut self)
        requires
            old(self).wf(),
        ensures
            final(self).wf(),
            final(self).closed,
            final(self).pending@ == old(self).pending@,
            final(self).submitted@ == old(self).submitted@,
            final(self).workers@ == old(self).workers@,
            final(self).completed@ == old(self).completed@,
            final(self).delivered@ == old(self).delivered@,
    {
        self.closed = true;
    }

    /// One receive by worker `w` on the shared consumer endpoint. The oldest
    /// queued job, if any, is delivered to `w` and to no other worker; with
    /// the queue empty, a closed pool yields the closed signal and `w`
    /// terminates, while an open pool leaves `w` blocked and changes nothing.
    pub fn worker_receive(&mut self, w: usize) -> (m: Message)
        requires
            old(self).wf(),
            w < old(self).workers@.len(),
            old(self).workers@[w as int] is Waiting,
        ensures
            final(self).wf(),
            final(self).workers@.len() == old(self).workers@.len(),
            final(self).closed == old(self).closed,
            final(self).submitted@ == old(self).submitted@,
            final(self).completed@ == old(self).completed@,
            match m {
                Message::Job(j) => {
                    &&& old(self).pending@.len() > 0
                    &&& j == old(self).pending@[0]
                    &&& final(self).pending@ == old(self).pending@.drop_first()
                    &&& final(self).workers@ == old(self).workers@.update(
                        w as int,
                        WorkerState::Running(j),
                    )
                    &&& final(self).delivered@ == old(self).delivered@.push(j)
                },
                Message::Closed => {
                    &&& old(self).pending@.len() == 0
                    &&& old(self).closed
                    &&& final(self).pending@ == old(self).pending@
                    &&& final(self).workers@ == old(self).workers@.update(
                        w as int,
                        WorkerState::Terminated,
                    )
                    &&& final(self).delivered@ == old(self).delivered@
                },
                Message::WouldBlock => {
                    &&& old(self).pending@.len() == 0
                    &&& !old(self).closed
                    &&& final(self).pending@ == old(self).pending@
                    &&& final(self).workers@ == old(self).workers@
                    &&& final(self).delivered@ == old(self).delivered@
                },
            },
    {
        if self.pending.len() > 0 {
            let j = self.pending.remove(0);
            self.workers.set(w, WorkerState::Running(j));
            proof {
                broadcast use vstd::seq_lib::group_to_multiset_ensures;

                self.delivered@ = self.delivered@.push(j);
                assert(self.pending@ =~= old(self).pending@.drop_first());
                assert(self.submitted@ =~= self.delivered@ + self.pending@);
                lemma_running_jobs_update(
                    old(self).workers@,
                    w as int,
                    WorkerState::Running(j),
                );
                assert forall|v: u64|
                    self.delivered@.to_multiset().count(v) == running_jobs_of(
                        self.workers@,
                    ).add(self.completed@.to_multiset()).count(v) by {
                    assert(running_jobs_of(self.workers@).add(
                        job_of(old(self).workers@[w as int]),
                    ).count(v) == running_jobs_of(old(self).workers@).add(
                        job_of(WorkerState::Running(j)),
                    ).count(v));
                    assert(self.delivered@.to_multiset() =~= old(
                        self,
                    ).delivered@.to_multiset().insert(j));
                }
                assert(self.delivered@.to_multiset() =~= running_jobs_of(self.workers@).add(
                    self.completed@.to_multiset(),
                ));
            }
            Message::Job(j)
        } else if self.closed {
            self.workers.set(w, WorkerState::Terminated);
            proof {
                lemma_running_jobs_update(
                    old(self).workers@,
                    w as int,
                    WorkerState::Terminated,
                );
                assert forall|v: u64|
                    running_jobs_of(self.workers@).count(v) == running_jobs_of(
                        old(self).workers@,
                    ).count(v) by {
                    assert(running_jobs_of(self.workers@).add(
                        job_of(old(self).workers@[w as int]),
                    ).count(v) == running_jobs_of(old(self).workers@).add(
                        job_of(WorkerState::Terminated),
                    ).count(v));
                }
                assert(running_jobs_of(self.workers@) =~= running_jobs_of(old(self).workers@));
            }
            Message::Closed
        } else {
            Message::WouldBlock
        }
    }

    /// Worker `w` finishes the job it was running: the job is recorded as
    /// completed and `w` goes back to waiting on the queue. Returns the
    /// finished job.
    pub fn worker_finish(&mut self, w: usize) -> (j: u64)
        requires
            old(self).wf(),
            w < old(self).workers@.len(),
            old(self).workers@[w as int] is Running,
        ensures
            final(self).wf(),
            j == old(self).workers@[w as int]->Running_0,
            final(self).workers@ == old(self).workers@.update(w as int, WorkerState::Waiting),
            final(self).completed@ == old(self).completed@.push(j),
            final(self).pending@ == old(self).pending@,
            final(self).submitted@ == old(self).submitted@,
            final(self).delivered@ == old(self).delivered@,
            final(self).closed == old(self).closed,
    {
        let st = self.workers[w];
        let j: u64 = match st {
            WorkerState::Running(jj) => jj,
            _ => 0,
        };
        self.workers.set(w, WorkerState::Waiting);
        self.completed.push(j);
        proof {
            broadcast use vstd::seq_lib::group_to_multiset_ensures;

            lemma_running_jobs_update(old(self).workers@, w as int, WorkerState::Waiting);
            assert forall|v: u64|
                self.delivered@.to_multiset().count(v) == running_jobs_of(self.workers@).add(
                    self.completed@.to_multiset(),
                ).count(v) by {
                assert(running_jobs_of(self.workers@).add(
                    job_of(old(self).workers@[w as int]),
                ).count(v) == running_jobs_of(old(self).workers@).add(
                    job_of(WorkerState::Waiting),
                ).count(v));
                assert(self.completed@.to_multiset() =~= old(
                    self,
                ).completed@.to_multiset().insert(j));
            }
            assert(self.delivered@.to_multiset() =~= running_jobs_of(self.workers@).add(
                self.completed@.to_multiset(),
            ));
        }
        j
    }

    /// Takes and joins worker `w`'s thread once it has terminated; a worker
    /// whose handle was already taken is skipped, so a second join of the
    /// same worker changes nothing.
    pub fn join_worker(&mut self, w: usize)
        requires
            old(self).wf(),
            w < old(self).workers@.len(),
            old(self).workers@[w as int] is Terminated || old(self).workers@[w as int]
                is Joined,
        ensures
            final(self).wf(),
            final(self).workers@ == old(self).workers@.update(w as int, WorkerState::Joined),
            final(self).pending@ == old(self).pending@,
            final(self).submitted@ == old(self).submitted@,
            final(self).completed@ == old(self).completed@,
            final(self).delivered@ == old(self).delivered@,
            final(self).closed == old(self).closed,
    {
        self.workers.set(w, WorkerState::Joined);
        proof {
            lemma_running_jobs_update(old(self).workers@, w as int, WorkerState::Joined);
            assert forall|v: u64|
                running_jobs_of(self.workers@).count(v) == running_jobs_of(
                    old(self).workers@,
                ).count(v) by {
                assert(running_jobs_of(self.workers@).add(
                    job_of(old(self).workers@[w as int]),
                ).count(v) == running_jobs_of(old(self).workers@).add(
                    job_of(WorkerState::Joined),
                ).count(v));
            }
            assert(running_jobs_of(self.workers@) =~= running_jobs_of(old(self).workers@));
        }
    }

    /// Tears the pool down: closes the producer endpoint, lets every worker
    /// finish its current job, drains the whole backlog, then watches each
    /// worker observe the closed signal and joins it. When it returns, every
    /// job ever submitted has completed exactly once, nothing was lost or
    /// duplicated, and no worker is left alive.
    #[verifier::loop_isolation(false)]
    pub fn shutdown(&mut self)
        requires
            old(self).wf(),
        ensures
            final(self).wf(),
            final(self).closed,
            final(self).pending@.len() == 0,
            final(self).workers@.len() == old(self).workers@.len(),
            forall|i: int|
                0 <= i < final(self).workers@.len() ==> final(self).workers@[i] is Joined,
            final(self).submitted@ == old(self).submitted@,
            final(self).completed@.to_multiset() == final(self).submitted@.to_multiset(),
            final(self).completed@.len() == final(self).submitted@.len(),
            old(self).completed@.is_prefix_of(final(self).completed@),
    {
        self.close();
        let count = self.workers.len();
        // Wait for every worker that is mid-job to finish it.
        let mut w: usize = 0;
        while w < count
            invariant
                self.wf(),
                self.closed,
                w <= count,
                count == self.workers@.len(),
                self.workers@.len() == old(self).workers@.len(),
                self.submitted@ == old(self).submitted@,
                old(self).completed@.is_prefix_of(self.completed@),
                forall|i: int| 0 <= i < w ==> !(self.workers@[i] is Running),
            decreases count - w,
        {
            let st = self.workers[w];
            match st {
                WorkerState::Running(_) => {
                    let ghost prev = self.completed@;
                    self.worker_finish(w);
                    proof {
                        lemma_prefix_push(
                            old(self).completed@,
                            prev,
                            self.completed@.last(),
                        );
                    }
                },
                _ => {},
            }
            w = w + 1;
        }
        // Drain the backlog: deliver each remaining job and run it.
        while self.pending.len() > 0
            invariant
                self.wf(),
                self.closed,
                count == self.workers@.len(),
                self.workers@.len() == old(self).workers@.len(),
                self.submitted@ == old(self).submitted@,
                old(self).completed@.is_prefix_of(self.completed@),
                forall|i: int| 0 <= i < self.workers@.len() ==> !(self.workers@[i] is Running),
            decreases self.pending@.len(),
        {
            proof {
                assert(self.workers@[0] is Waiting);
            }
            let _m = self.worker_receive(0);
            let ghost prev = self.completed@;
            self.worker_finish(0);
            proof {
                lemma_prefix_push(old(self).completed@, prev, self.completed@.last());
            }
        }
        // Every worker now observes the closed signal; join each in turn.
        let mut w: usize = 0;
        while w < count
            invariant
                self.wf(),
                self.closed,
                w <= count,
                count == self.workers@.len(),
                self.workers@.len() == old(self).workers@.len(),
                self.pending@.len() == 0,
                self.submitted@ == old(self).submitted@,
                old(self).completed@.is_prefix_of(self.completed@),
                forall|i: int| 0 <= i < self.workers@.len() ==> !(self.workers@[i] is Running),
                forall|i: int| 0 <= i < w ==> self.workers@[i] is Joined,
            decreases count - w,
        {
            let st = self.workers[w];
            match st {
                WorkerState::Waiting => {
                    let _m = self.worker_receive(w);
                    self.join_worker(w);
                },
                _ => {
                    self.join_worker(w);
                },
            }
            w = w + 1;
        }
        proof {
            broadcast use vstd::seq_lib::group_to_multiset_ensures;

            lemma_running_jobs_all_idle(self.workers@);
            assert forall|v: u64|
                self.delivered@.to_multiset().count(v) == self.completed@.to_multiset().count(
                    v,
                ) by {
                assert(Multiset::<u64>::empty().add(self.completed@.to_multiset()).count(v)
                    == self.completed@.to_multiset().count(v));
            }
            assert(self.delivered@.to_multiset() =~= self.completed@.to_multiset());
            assert(self.submitted@ =~= self.delivered@);
            assert(self.completed@.len() == self.completed@.to_multiset().len());
            assert(self.submitted@.len() == self.submitted@.to_multiset().len());
        }
    }
}

/// Every submitted job is accounted for exactly once: however often a job
/// value was submitted, that is exactly how often it is still queued, plus
/// how many workers are running it, plus how often it has completed. No job
/// is duplicated, none is lost, and none is ever held by two workers.
pub proof fn lemma_exactly_once(p: ThreadPool, j: u64)
    requires
        p.wf(),
    ensures
        p.submitted@.to_multiset().count(j) == p.pending@.to_multiset().count(j)
            + running_jobs_of(p.workers@).count(j) + p.completed@.to_multiset().count(j),
{
    vstd::seq_lib::lemma_multiset_commutative(p.delivered@, p.pending@);
    assert(p.submitted@.to_multiset().count(j) == p.delivered@.to_multiset().add(
        p.pending@.to_multiset(),
    ).count(j));
    assert(p.delivered@.to_multiset().count(j) == running_jobs_of(p.workers@).add(
        p.completed@.to_multiset(),
    ).count(j));
}

/// Jobs are delivered in submission order: the delivery history is exactly
/// the oldest part of the submission history, and the backlog is the rest.
pub proof fn lemma_fifo_delivery(p: ThreadPool)
    requires
        p.wf(),
    ensures
        p.delivered@ == p.submitted@.take(p.delivered@.len() as int),
        p.pending@ == p.submitted@.skip(p.delivered@.len() as int),
{
    assert(p.delivered@ =~= p.submitted@.take(p.delivered@.len() as int));
    assert(p.pending@ =~= p.submitted@.skip(p.delivered@.len() as int));
}

/// A prefix of a sequence is still a prefix after the sequence grows at the
/// back.
pub proof fn lemma_prefix_push<A>(p: Seq<A>, s: Seq<A>, x: A)
    requires
        p.is_prefix_of(s),
    ensures
        p.is_prefix_of(s.push(x)),
{
    assert(p =~= s.push(x).subrange(0, p.len() as int));
}

/// Replacing one worker's state exchanges that worker's contribution to the
/// running jobs, and touches nothing else. Stated additively so that no
/// multiset subtraction is needed.
pub proof fn lemma_running_jobs_update(ws: Seq<WorkerState>, i: int, s: WorkerState)
    requires
        0 <= i < ws.len(),
    ensures
        running_jobs_of(ws.update(i, s)).add(job_of(ws[i])) == running_jobs_of(ws).add(job_of(s)),
    decreases ws.len(),
{
    if i == 0 {
        assert(ws.update(0, s).drop_first() =~= ws.drop_first());
        assert(running_jobs_of(ws.update(0, s)).add(job_of(ws[0])) =~= running_jobs_of(ws).add(
            job_of(s),
        ));
    } else {
        let tail = ws.drop_first();
        assert(ws.update(i, s).drop_first() =~= tail.update(i - 1, s));
        lemma_running_jobs_update(tail, i - 1, s);
        assert(tail[i - 1] == ws[i]);
        assert(running_jobs_of(ws.update(i, s)) == job_of(ws[0]).add(
            running_jobs_of(tail.update(i - 1, s)),
        ));
        assert(running_jobs_of(ws) == job_of(ws[0]).add(running_jobs_of(tail)));
        assert forall|v: u64|
            running_jobs_of(ws.update(i, s)).add(job_of(ws[i])).count(v) == running_jobs_of(
                ws,
            ).add(job_of(s)).count(v) by {
            assert(running_jobs_of(tail.update(i - 1, s)).add(job_of(tail[i - 1])).count(v)
                == running_jobs_of(tail).add(job_of(s)).count(v));
        }
        assert(running_jobs_of(ws.update(i, s)).add(job_of(ws[i])) =~= running_jobs_of(ws).add(
            job_of(s),
        ));
    }
}

/// A sequence of workers none of which is running a job contributes no
/// running jobs.
pub proof fn lemma_running_jobs_all_idle(ws: Seq<WorkerState>)
    requires
        forall|i: int| 0 <= i < ws.len() ==> !(ws[i] is Running),
    ensures
        running_jobs_of(ws) == Multiset::<u64>::empty(),
    decreases ws.len(),
{
    if ws.len() > 0 {
        lemma_running_jobs_all_idle(ws.drop_first());
        assert(running_jobs_of(ws) =~= Multiset::<u64>::empty());
    }
}

/// The empty sequence turns into the empty multiset.
pub proof fn lemma_to_multiset_empty<A>()
    ensures
        Seq::<A>::empty().to_multiset() == Multiset::<A>::empty(),
{
    broadcast use vstd::seq_lib::group_to_multiset_ensures;

    assert(Seq::<A>::empty().to_multiset() =~= Multiset::<A>::empty());
}

} // verus!

