use vstd::prelude::*;
use std::collections::VecDeque;

verus! {

/// What the queue hands a worker: a job to run, or the order to stop.
pub enum Message<J> {
    NewJob(J),
    Terminate,
}

/// The job queue that the accept loop feeds and the workers drain. While the
/// server runs it takes jobs; shutdown clears the running flag and queues one
/// `Terminate` per worker behind the jobs already queued, so every queued job
/// is handed out before any worker is told to stop.
pub struct JobQueue<J> {
    messages: VecDeque<Message<J>>,
    running: bool,
    size: usize,
}

/// What a queue holds: its messages in order, the running flag, and the
/// number of workers.
pub struct QueueView<J> {
    pub messages: Seq<Message<J>>,
    pub running: bool,
    pub size: nat,
}

/// `size` stop orders.
pub open spec fn terminates<J>(size: nat) -> Seq<Message<J>> {
    Seq::new(size, |i: int| Message::Terminate)
}

/// A queue that no job stands behind a stop order in, and that holds no
/// stop order while the server runs.
pub open spec fn well_formed<J>(v: QueueView<J>) -> bool {
    &&& v.size > 0
    &&& forall|i: int, j: int|
        0 <= i < j < v.messages.len() && v.messages[i] is Terminate ==> v.messages[j] is Terminate
    &&& v.running ==> forall|i: int| 0 <= i < v.messages.len() ==> v.messages[i] is NewJob
}

/// A running queue for `size` workers, with nothing in it.
pub open spec fn fresh<J>(size: nat) -> QueueView<J> {
    QueueView { messages: Seq::empty(), running: true, size }
}

/// The queue once a job was offered: queued while running, refused after.
pub open spec fn offered<J>(v: QueueView<J>, job: J) -> QueueView<J> {
    if v.running {
        QueueView { messages: v.messages.push(Message::NewJob(job)), ..v }
    } else {
        v
    }
}

/// The queue once every job of `js` was offered, in order.
pub open spec fn offered_all<J>(v: QueueView<J>, js: Seq<J>) -> QueueView<J>
    decreases js.len(),
{
    if js.len() == 0 {
        v
    } else {
        offered(offered_all(v, js.drop_last()), js.last())
    }
}

/// The queue once shutdown began; a second shutdown changes nothing.
pub open spec fn shut<J>(v: QueueView<J>) -> QueueView<J> {
    if v.running {
        QueueView { messages: v.messages + terminates(v.size), running: false, size: v.size }
    } else {
        v
    }
}

/// The jobs among some messages, in order.
pub open spec fn jobs_of<J>(ms: Seq<Message<J>>) -> Seq<J>
    decreases ms.len(),
{
    if ms.len() == 0 {
        Seq::empty()
    } else {
        match ms.last() {
            Message::NewJob(j) => jobs_of(ms.drop_last()).push(j),
            Message::Terminate => jobs_of(ms.drop_last()),
        }
    }
}

/// The number of stop orders among some messages.
pub open spec fn stops_of<J>(ms: Seq<Message<J>>) -> nat
    decreases ms.len(),
{
    if ms.len() == 0 {
        0
    } else {
        match ms.last() {
            Message::NewJob(_) => stops_of(ms.drop_last()),
            Message::Terminate => stops_of(ms.drop_last()) + 1,
        }
    }
}

/// The messages that hand out each job of `js`, in order.
pub open spec fn wrap<J>(js: Seq<J>) -> Seq<Message<J>> {
    js.map_values(|j: J| Message::NewJob(j))
}

proof fn lemma_offered_all<J>(size: nat, js: Seq<J>)
    ensures
        offered_all(fresh::<J>(size), js) == (QueueView { messages: wrap(js), running: true, size }),
    decreases js.len(),
{
    if js.len() > 0 {
        lemma_offered_all(size, js.drop_last());
        assert(wrap(js.drop_last()).push(Message::NewJob(js.last())) =~= wrap(js));
    } else {
        assert(wrap(js) =~= Seq::<Message<J>>::empty());
    }
}

proof fn lemma_behind_stops<J>(ms: Seq<Message<J>>, n: nat)
    ensures
        jobs_of(ms + terminates::<J>(n)) == jobs_of(ms),
        stops_of(ms + terminates::<J>(n)) == stops_of(ms) + n,
    decreases n,
{
    if n == 0 {
        assert(ms + terminates::<J>(0) =~= ms);
    } else {
        lemma_behind_stops(ms, (n - 1) as nat);
        assert((ms + terminates::<J>(n)).drop_last() =~= ms + terminates::<J>((n - 1) as nat));
    }
}

proof fn lemma_wrapped_jobs<J>(js: Seq<J>)
    ensures
        jobs_of(wrap(js)) == js,
        stops_of(wrap(js)) == 0,
    decreases js.len(),
{
    if js.len() > 0 {
        lemma_wrapped_jobs(js.drop_last());
        assert(wrap(js).drop_last() =~= wrap(js.drop_last()));
        assert(jobs_of(wrap(js)) =~= js);
    } else {
        assert(jobs_of(wrap(js)) =~= js);
    }
}

proof fn lemma_only_stops<J>(ms: Seq<Message<J>>)
    requires
        forall|i: int| 0 <= i < ms.len() ==> ms[i] is Terminate,
    ensures
        jobs_of(ms) == Seq::<J>::empty(),
    decreases ms.len(),
{
    if ms.len() > 0 {
        lemma_only_stops(ms.drop_last());
    }
}

/// Offering jobs to a running queue for `size` workers and then shutting it
/// down leaves exactly those jobs, each once and in order, ahead of one stop
/// order per worker: the workers run every job before any of them stops.
pub proof fn pool_liveness<J>(size: nat, js: Seq<J>)
    requires
        size > 0,
    ensures
        shut(offered_all(fresh::<J>(size), js)).messages == wrap(js) + terminates::<J>(size),
        jobs_of(shut(offered_all(fresh::<J>(size), js)).messages) == js,
        stops_of(shut(offered_all(fresh::<J>(size), js)).messages) == size,
{
    lemma_offered_all(size, js);
    lemma_behind_stops(wrap(js), size);
    lemma_wrapped_jobs(js);
}

/// Once shutdown began the queue refuses every job, and keeps every job
/// queued before it; and a worker handed a stop order leaves no job behind.
pub proof fn shutdown_safety<J>(v: QueueView<J>, job: J)
    requires
        well_formed(v),
    ensures
        offered(shut(v), job) == shut(v),
        jobs_of(shut(v).messages) == jobs_of(v.messages),
        v.messages.len() > 0 && v.messages[0] is Terminate ==> jobs_of(v.messages) == Seq::<
            J,
        >::empty(),
{
    if v.running {
        lemma_behind_stops(v.messages, v.size);
    }
    if v.messages.len() > 0 && v.messages[0] is Terminate {
        assert forall|i: int| 0 <= i < v.messages.len() implies v.messages[i] is Terminate by {
            if i > 0 {
                assert(v.messages[0] is Terminate);
            }
        }
        lemma_only_stops(v.messages);
    }
}

impl<J> View for JobQueue<J> {
    type V = QueueView<J>;

    closed spec fn view(&self) -> QueueView<J> {
        QueueView { messages: self.messages@, running: self.running, size: self.size as nat }
    }
}

impl<J> JobQueue<J> {
    /// A running queue for `size` workers.
    pub fn new(size: usize) -> (r: JobQueue<J>)
        requires
            size > 0,
        ensures
            r@ == fresh::<J>(size as nat),
            well_formed(r@),
    {
        let r = JobQueue { messages: VecDeque::new(), running: true, size };
        assert(r@.messages =~= Seq::<Message<J>>::empty());
        r
    }

    /// Whether the queue still takes jobs.
    pub fn is_running(&self) -> (r: bool)
        ensures
            r == self@.running,
    {
        self.running
    }

    /// Offers a job: it is queued, and `true` returned, only while the queue
    /// runs.
    pub fn execute(&mut self, job: J) -> (r: bool)
        requires
            well_formed(old(self)@),
        ensures
            final(self)@ == offered(old(self)@, job),
            r == old(self)@.running,
            well_formed(final(self)@),
    {
        if self.running {
            self.messages.push_back(Message::NewJob(job));
            true
        } else {
            false
        }
    }

    /// Begins shutdown: the queue takes no more jobs, and one stop order per
    /// worker is queued behind the jobs already there.
    pub fn shutdown(&mut self)
        requires
            well_formed(old(self)@),
        ensures
            final(self)@ == shut(old(self)@),
            well_formed(final(self)@),
    {
        let ghost start = self.messages@;
        let was_running = self.running;
        self.running = false;
        if was_running {
            let mut i: usize = 0;
            while i < self.size
                invariant
                    i <= self.size,
                    !self.running,
                    self.size == old(self).size,
                    start == old(self)@.messages,
                    self.messages@ =~= start + terminates::<J>(i as nat),
                decreases self.size - i,
            {
                self.messages.push_back(Message::Terminate);
                i += 1;
            }
            assert(self@ == shut(old(self)@));
            assert forall|a: int, b: int|
                0 <= a < b < self@.messages.len() && self@.messages[a] is Terminate implies self@.messages[b] is Terminate by {
                if a < start.len() {
                    assert(start[a] is NewJob);
                }
            }
        }
    }

    /// Hands out the message at the front of the queue, if there is one.
    pub fn next(&mut self) -> (r: Option<Message<J>>)
        requires
            well_formed(old(self)@),
        ensures
            old(self)@.messages.len() == 0 ==> r is None && final(self)@ == old(self)@,
            old(self)@.messages.len() > 0 ==> r == Some(old(self)@.messages[0]) && final(self)@
                == (QueueView { messages: old(self)@.messages.drop_first(), ..old(self)@ }),
            well_formed(final(self)@),
    {
        let r = self.messages.pop_front();
        assert(self@.messages =~= old(self)@.messages.subrange(1, old(self)@.messages.len() as int)
            || r is None);
        r
    }
}

} // verus!
