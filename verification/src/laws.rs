//! What holds of every pool, whatever the order in which its owner and its
//! workers act.

use crate::message::{JobOutcome, Message};
use crate::model::{active, jobs_of, stop_orders, PoolModel, WorkerModel, WorkerState};
use crate::safety::{
    lemma_acquire_inv, lemma_active_all, lemma_active_bound, lemma_active_none,
    lemma_active_update, lemma_finish_inv, lemma_init_inv, lemma_join_inv, lemma_receive_inv,
    lemma_shutdown_inv, lemma_submit_inv,
};
use crate::trace::{jobs, Dispatch, Event};
use vstd::prelude::*;

verus! {

/// The jobs of a queue with one more message at its back.
proof fn lemma_jobs_of_push<J>(queue: Seq<Message<J>>, message: Message<J>)
    ensures
        jobs_of(queue.push(message)) == match message {
            Message::NewJob(job) => jobs_of(queue).push(job),
            Message::Terminate => jobs_of(queue),
        },
{
    assert(queue.push(message).drop_last() =~= queue);
}

/// The jobs of a queue, split at its front.
proof fn lemma_jobs_of_front<J>(queue: Seq<Message<J>>)
    requires
        queue.len() > 0,
    ensures
        jobs_of(queue) == match queue[0] {
            Message::NewJob(job) => seq![job] + jobs_of(queue.drop_first()),
            Message::Terminate => jobs_of(queue.drop_first()),
        },
    decreases queue.len(),
{
    if queue.len() == 1 {
        assert(queue.drop_last() =~= Seq::<Message<J>>::empty());
        assert(queue.drop_first() =~= Seq::<Message<J>>::empty());
    } else {
        lemma_jobs_of_front(queue.drop_last());
        assert(queue.drop_last().drop_first() =~= queue.drop_first().drop_last());
    }
}

/// Orders to stop add no job to a queue.
proof fn lemma_jobs_of_stop_orders<J>(queue: Seq<Message<J>>, count: nat)
    ensures
        jobs_of(queue + Seq::new(count, |i: int| Message::<J>::Terminate)) == jobs_of(queue),
    decreases count,
{
    if count > 0 {
        let orders = Seq::new(count, |i: int| Message::<J>::Terminate);
        let fewer = Seq::new((count - 1) as nat, |i: int| Message::<J>::Terminate);
        assert((queue + orders).drop_last() =~= queue + fewer);
        lemma_jobs_of_stop_orders(queue, (count - 1) as nat);
    }
}

/// Every step keeps the invariant.
pub proof fn lemma_step_inv<J>(s: PoolModel<J>, event: Event<J>)
    requires
        s.inv(),
    ensures
        s.step(event).inv(),
{
    match event {
        Event::Submit(job) => lemma_submit_inv(s, job),
        Event::Acquire(w) => lemma_acquire_inv(s, w),
        Event::Receive(w) => lemma_receive_inv(s, w),
        Event::Finish(w, outcome) => lemma_finish_inv(s, w, outcome),
        Event::Shutdown => lemma_shutdown_inv(s),
        Event::Join(w) => lemma_join_inv(s, w),
    }
}

/// The invariant holds in every state a pool can reach: whatever its owner
/// and its workers do, and in whatever order, a pool that satisfies the
/// invariant goes on satisfying it.
pub proof fn law_invariant_holds_always<J>(s: PoolModel<J>, events: Seq<Event<J>>)
    requires
        s.inv(),
    ensures
        s.run(events).inv(),
    decreases events.len(),
{
    if events.len() > 0 {
        law_invariant_holds_always(s, events.drop_last());
        lemma_step_inv(s.run(events.drop_last()), events.last());
    }
}

/// A new pool of `size` workers has exactly `size` workers in their loops,
/// each idle with its handle unused, and nothing queued.
pub proof fn law_new_pool_is_live<J>(size: nat)
    requires
        size > 0,
    ensures
        PoolModel::<J>::init(size).inv(),
        PoolModel::<J>::init(size).workers.len() == size,
        active(PoolModel::<J>::init(size).workers) == size,
        forall|w: int|
            0 <= w < size ==> (#[trigger] PoolModel::<J>::init(size).workers[w])
                == WorkerModel::fresh(w as nat),
{
    lemma_init_inv::<J>(size);
}

/// Jobs are neither made nor lost: at any point of any run, the jobs that
/// were queued at the start followed by those accepted since are the jobs
/// handed to workers followed by those still queued. Each accepted job
/// therefore leaves the queue at most once, to one worker, and stays queued
/// until it does.
pub proof fn law_jobs_accounted_for<J>(s: PoolModel<J>, events: Seq<Event<J>>)
    ensures
        jobs_of(s.queue) + s.submitted(events) == jobs(s.dispatched(events)) + jobs_of(
            s.run(events).queue,
        ),
    decreases events.len(),
{
    if events.len() == 0 {
        assert(jobs_of(s.queue) + s.submitted(events) =~= jobs(s.dispatched(events)) + jobs_of(
            s.run(events).queue,
        ));
    } else {
        let earlier = events.drop_last();
        let before = s.run(earlier);
        law_jobs_accounted_for(s, earlier);
        let out = s.dispatched(earlier);
        let queued = jobs_of(before.queue);
        match events.last() {
            Event::Submit(job) => {
                if before.accepting {
                    lemma_jobs_of_push(before.queue, Message::NewJob(job));
                    assert(jobs(out) + queued.push(job) =~= (jobs(out) + queued).push(job));
                }
            },
            Event::Receive(w) => {
                if before.can_receive(w) {
                    lemma_jobs_of_front(before.queue);
                    match before.queue[0] {
                        Message::NewJob(job) => {
                            assert(jobs(out.push(Dispatch { worker: w, job })) =~= jobs(out).push(
                                job,
                            ));
                        },
                        Message::Terminate => {},
                    }
                }
            },
            Event::Shutdown => {
                if before.accepting {
                    lemma_jobs_of_stop_orders(before.queue, before.workers.len());
                }
            },
            Event::Acquire(w) => {},
            Event::Finish(w, outcome) => {},
            Event::Join(w) => {},
        }
    }
}

/// First in, first out, exactly once: in any run of a new pool, the jobs
/// handed to workers are the first of the jobs accepted, in the order of
/// their submission, and the jobs still queued are the rest.
pub proof fn law_first_in_first_out<J>(size: nat, events: Seq<Event<J>>)
    ensures
        ({
            let s = PoolModel::<J>::init(size);
            let handed = jobs(s.dispatched(events));
            &&& handed.len() <= s.submitted(events).len()
            &&& handed == s.submitted(events).subrange(0, handed.len() as int)
            &&& jobs_of(s.run(events).queue) == s.submitted(events).subrange(
                handed.len() as int,
                s.submitted(events).len() as int,
            )
        }),
{
    let s = PoolModel::<J>::init(size);
    law_jobs_accounted_for(s, events);
    let handed = jobs(s.dispatched(events));
    let queued = jobs_of(s.run(events).queue);
    assert((handed + queued).subrange(handed.len() as int, (handed + queued).len() as int)
        =~= queued);
}

/// A queue whose last `owed` messages are the orders to stop, and no others,
/// holds `owed` of them.
proof fn lemma_stop_orders_at_back<J>(queue: Seq<Message<J>>, owed: nat)
    requires
        owed <= queue.len(),
        forall|k: int|
            0 <= k < queue.len() ==> ((#[trigger] queue[k]) is Terminate <==> k >= queue.len()
                - owed),
    ensures
        stop_orders(queue) == owed,
        jobs_of(queue).len() == queue.len() - owed,
    decreases queue.len(),
{
    if queue.len() > 0 {
        let front = queue.drop_last();
        let fewer: nat = if owed > 0 {
            (owed - 1) as nat
        } else {
            0
        };
        assert forall|k: int| 0 <= k < front.len() implies ((#[trigger] front[k]) is Terminate
            <==> k >= front.len() - fewer) by {
            assert(front[k] == queue[k]);
        }
        lemma_stop_orders_at_back(front, fewer);
    }
}

/// Two workers are never inside the exclusive region together: of any two
/// workers that are dispatching, each is the other.
pub proof fn law_one_consumer_at_a_time<J>(s: PoolModel<J>, first: int, second: int)
    requires
        s.inv(),
        s.has_worker(first),
        s.has_worker(second),
        s.workers[first].state is Dispatching,
        s.workers[second].state is Dispatching,
    ensures
        first == second,
        s.consumer == Some(first),
{
}

/// A message goes to one worker only: once a worker has received, the
/// message is gone from the queue, and no other worker can receive until it
/// has entered the exclusive region itself.
pub proof fn law_message_received_once<J>(s: PoolModel<J>, w: int, other: int)
    requires
        s.inv(),
        s.can_receive(w),
    ensures
        s.receive(w).queue == s.queue.drop_first(),
        !s.receive(w).can_receive(other),
        other != w ==> !s.can_receive(other),
{
}

/// The start of shutdown queues exactly one order to stop for each worker,
/// behind every job queued before, and from then on no job is accepted.
pub proof fn law_shutdown_queues_one_order_each<J>(s: PoolModel<J>, job: J)
    requires
        s.inv(),
        s.accepting,
    ensures
        stop_orders(s.queue) == 0,
        stop_orders(s.shutdown().queue) == s.workers.len(),
        active(s.shutdown().workers) == s.workers.len(),
        jobs_of(s.shutdown().queue) == jobs_of(s.queue),
        s.shutdown().queue.subrange(0, s.queue.len() as int) == s.queue,
        s.shutdown().submit(job) == s.shutdown(),
{
    let t = s.shutdown();
    lemma_shutdown_inv(s);
    lemma_stop_orders_at_back(s.queue, 0);
    lemma_stop_orders_at_back(t.queue, s.workers.len());
    lemma_jobs_of_stop_orders(s.queue, s.workers.len());
}

/// After shutdown has begun, the queue holds exactly as many orders to stop
/// as there are workers still in their loops, all of them behind the jobs.
/// So no worker is left waiting for a message that never comes, and once the
/// queue is empty every worker has terminated.
pub proof fn law_one_stop_order_per_live_worker<J>(s: PoolModel<J>)
    requires
        s.inv(),
        !s.accepting,
    ensures
        stop_orders(s.queue) == active(s.workers),
        active(s.workers) > 0 ==> s.queue.len() > 0,
        s.queue.len() == 0 ==> forall|w: int|
            0 <= w < s.workers.len() ==> (#[trigger] s.workers[w]).state is Terminated,
{
    lemma_stop_orders_at_back(s.queue, s.owed());
    lemma_active_none(s.workers);
}

/// No job is left behind: by the time any worker has terminated, every job
/// that was queued has been handed to a worker.
pub proof fn law_jobs_drained_before_exit<J>(s: PoolModel<J>, w: int)
    requires
        s.inv(),
        s.has_worker(w),
        s.workers[w].state is Terminated,
    ensures
        !s.accepting,
        jobs_of(s.queue).len() == 0,
{
    lemma_active_all(s.workers);
    lemma_active_bound(s.workers);
    lemma_stop_orders_at_back(s.queue, s.owed());
}

/// A worker is joined only after it has terminated, and only once. When
/// every worker has been joined, none is left in its loop, the queue is
/// empty and nothing more is accepted: no thread of the pool is left.
pub proof fn law_joined_workers_have_exited<J>(s: PoolModel<J>, w: int)
    requires
        s.inv(),
        s.has_worker(w),
    ensures
        s.workers[w].joined ==> s.workers[w].state is Terminated,
        s.workers[w].joined ==> !s.can_join(w),
        s.can_join(w) ==> s.join(w).workers[w].joined && !s.join(w).can_join(w),
        s.all_joined() ==> active(s.workers) == 0 && s.queue.len() == 0 && !s.accepting,
{
    lemma_active_none(s.workers);
    lemma_active_bound(s.workers);
}

/// A fault costs the pool nothing: the worker whose job faulted is idle
/// again, as after a job that completed, it is still in its loop, and it can
/// take the next message as soon as the exclusive region is free. Only its
/// count of faults tells the two outcomes apart.
pub proof fn law_fault_keeps_worker<J>(s: PoolModel<J>, w: int)
    requires
        s.inv(),
        s.can_finish(w),
    ensures
        s.finish(w, JobOutcome::Faulted).inv(),
        s.finish(w, JobOutcome::Faulted).workers[w].state is Idle,
        s.finish(w, JobOutcome::Faulted).workers[w] == (WorkerModel {
            faults: s.finish(w, JobOutcome::Faulted).workers[w].faults,
            ..s.finish(w, JobOutcome::Completed).workers[w]
        }),
        active(s.finish(w, JobOutcome::Faulted).workers) == active(s.workers),
        s.finish(w, JobOutcome::Faulted).queue == s.queue,
        s.finish(w, JobOutcome::Faulted).accepting == s.accepting,
        s.finish(w, JobOutcome::Faulted).can_acquire(w) == s.consumer is None,
        s.consumer is None && s.queue.len() > 0 ==> s.finish(w, JobOutcome::Faulted).acquire(
            w,
        ).can_receive(w),
{
    lemma_finish_inv(s, w, JobOutcome::Faulted);
    lemma_active_update(s.workers, w, s.workers[w].after_job(JobOutcome::Faulted));
}

/// The moves a worker can make in one step: stay where it is, enter the
/// exclusive region from idle, go on from there to run a job or to
/// terminate, and come back to idle from a job.
pub open spec fn loop_edge(from: WorkerState, to: WorkerState) -> bool {
    ||| from == to
    ||| from is Idle && to is Dispatching
    ||| from is Dispatching && to is Running
    ||| from is Dispatching && to is Terminated
    ||| from is Running && to is Idle
}

/// Every worker follows its loop: a step of the pool moves a worker along
/// one edge of the loop or leaves it where it is. A worker terminates only
/// by receiving an order to stop, and a terminated worker stays terminated.
pub proof fn law_workers_follow_their_loop<J>(s: PoolModel<J>, event: Event<J>, w: int)
    requires
        s.inv(),
        s.has_worker(w),
    ensures
        s.step(event).has_worker(w),
        loop_edge(s.workers[w].state, s.step(event).workers[w].state),
        s.workers[w].state is Terminated ==> s.step(event).workers[w].state is Terminated,
        !(s.workers[w].state is Terminated) && s.step(event).workers[w].state is Terminated ==> {
            &&& event matches Event::Receive(v)
            &&& v == w
            &&& s.can_receive(w)
            &&& s.queue[0] is Terminate
        },
{
}

/// The row of workers is fixed for the pool's whole life, and the pool
/// accepts jobs until shutdown begins: no run changes the number of workers
/// or their ordinals, and a run without the start of shutdown leaves an
/// accepting pool accepting.
pub proof fn law_size_is_fixed<J>(s: PoolModel<J>, events: Seq<Event<J>>)
    requires
        s.inv(),
    ensures
        s.run(events).workers.len() == s.workers.len(),
        forall|w: int|
            0 <= w < s.workers.len() ==> (#[trigger] s.run(events).workers[w]).id == w,
        s.accepting && (forall|k: int| 0 <= k < events.len() ==> !(#[trigger] events[k]
            is Shutdown)) ==> s.run(events).accepting,
    decreases events.len(),
{
    law_invariant_holds_always(s, events);
    if events.len() > 0 {
        law_size_is_fixed(s, events.drop_last());
    }
}

/// Nothing is sent to nobody: once no worker is left in its loop, the pool
/// accepts no job.
pub proof fn law_no_worker_no_job<J>(s: PoolModel<J>, job: J)
    requires
        s.inv(),
        active(s.workers) == 0,
    ensures
        !s.accepting,
        s.submit(job) == s,
{
}

/// Jobs run side by side: a worker that runs a job is outside the exclusive
/// region, so while it runs, an idle worker can enter, receive the next job
/// and run it too.
pub proof fn law_jobs_run_side_by_side<J>(s: PoolModel<J>, busy: int, idle: int)
    requires
        s.inv(),
        s.has_worker(busy),
        s.has_worker(idle),
        s.workers[busy].state is Running,
        s.workers[idle].state is Idle,
        s.consumer is None,
        s.queue.len() > 0,
        s.queue[0] is NewJob,
    ensures
        s.consumer != Some(busy),
        s.can_acquire(idle),
        s.acquire(idle).can_receive(idle),
        s.acquire(idle).receive(idle).workers[idle].state is Running,
        s.acquire(idle).receive(idle).workers[busy].state is Running,
{
}

} // verus!
