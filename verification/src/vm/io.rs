//! The VM's asynchronous I/O: futures submitted to a reactor, and the
//! completions it reports.
use vstd::prelude::*;

use std::collections::{HashMap, VecDeque};
use std::sync::Arc;

verus! {

broadcast use vstd::std_specs::hash::group_hash_axioms;

/// A handle of a socket, file or stream.
pub type IoId = u32;

/// A future's id.
pub type FuId = u64;

#[verifier::external_type_specification]
#[verifier::external_body]
pub struct ExIoError(std::io::Error);

/// What a reactor does for the engine: it takes operations to the OS and
/// reports their completions. Implemented outside this library, by the
/// reactor of each platform.
pub trait Reactor {
    /// That this reactor has been handed `op` under the id `fu_id`.
    spec fn handed(&self, fu_id: FuId, op: IoOp) -> bool;

    /// That this reactor has been asked to wait up to `timeout_ms` for up
    /// to `max_events` completions.
    spec fn asked_to_wait(&self, timeout_ms: i64, max_events: usize) -> bool;

    /// Hands `op` to the OS under the id `fu_id`; a result where the
    /// operation completed at once. Every reactor has then been handed that
    /// operation under that id (what it answers is the OS's to say).
    fn submit(&self, fu_id: FuId, op: &IoOp) -> (r: Result<Option<IoResult>, std::io::Error>)
        ensures
            self.handed(fu_id, *op),
    ;

    /// Up to `max_events` completions, appended to `out`; a negative
    /// `timeout_ms` waits without end. Every reactor has then been asked to
    /// wait with these two values, keeps what `out` held and appends no
    /// more than `max_events` entries (which completions come, and when, is
    /// the OS's to say).
    fn wait(&self, timeout_ms: i64, max_events: usize, out: &mut Vec<(FuId, IoResult)>) -> (r: Result<
        (),
        std::io::Error,
    >)
        ensures
            self.asked_to_wait(timeout_ms, max_events),
            final(out)@.len() <= old(out)@.len() + max_events,
            old(out)@.len() <= final(out)@.len(),
            final(out)@.subrange(0, old(out)@.len() as int) == old(out)@,
    ;

    /// Asks for `fu_id` to be canceled, as far as the OS allows.
    fn cancel(&self, fu_id: FuId) -> Result<(), std::io::Error>;
}

/// The kinds of I/O the VM knows.
#[derive(Debug, Clone, Copy, PartialEq, Eq)]
pub enum IoType {
    Read,
    Write,
    Sleep,
    TcpConnect,
    TcpListen,
    TcpAccept,
    UdpSendTo,
    UdpRecvFrom,
    FileRead,
    FileWrite,
    FileReadAt,
    FileWriteAt,
    FileSync,
    FileStat,
    DirRead,
    StdinRead,
    StdoutWrite,
    StderrWrite,
    Shutdown,
    PipeRead,
    PipeWrite,
    ProcessSpawn,
    ProcessWait,
    TimeNow,
    RandomBytes,
}

/// An operation to submit. A buffer is named by the VM's virtual pointer
/// to it, which the reactor resolves.
#[derive(Debug)]
pub enum IoOp {
    Read { handle: IoId, buf_ptr: u64, len: u64 },
    Write { handle: IoId, buf_ptr: u64, len: u64 },
    Sleep { ms: u64 },
    StdoutWrite { buf_ptr: u64, len: u64 },
    StderrWrite { buf_ptr: u64, len: u64 },
    StdinRead { buf_ptr: u64, len: u64 },
    FileRead { handle: IoId, buf_ptr: u64, len: u64 },
    TcpListen { ip_ptr: u64, port: u16, backlog: u16, flags: u16, family: u8 },
    TcpConnect { ip_ptr: u64, port: u16, flags: u16, family: u8 },
    TcpAccept { listener_handle: u64 },
    Shutdown { handle: u64 },
    RandomBytes { buf_ptr: u64, len: u64 },
    TimeNow,
}

/// The result of a completed operation.
#[derive(Debug, Clone, Copy, PartialEq, Eq)]
pub enum IoResult {
    StreamIo { len: u64, status: i32 },
    NewHandle { handle: IoId, status: i32 },
    SleepDone { status: i32 },
    TimeNow { low: u64, high: u64, status: i32 },
    Simple { status: i32 },
    /// The operation failed: the error's kind (a code above zero), the OS
    /// error number, and whether trying again may succeed.
    Error { kind: u32, raw_os_error: i32, retryable: bool },
}

/// Where a future stands.
pub enum IoFutureState {
    Pending(IoOp),
    Completed(IoResult),
    Canceled,
    Failed(i32),
}

/// The futures of one VM: the next id, the state of each future, and the
/// ids of futures that completed at submission, in order.
pub struct IoEngine<R: Reactor> {
    next_fu: FuId,
    futures: HashMap<FuId, IoFutureState>,
    completed: VecDeque<FuId>,
    reactor: Arc<R>,
}

/// The first of `ev[i..]` whose future the engine knows (or the length).
pub open spec fn first_known(states: Map<FuId, IoFutureState>, ev: Seq<(FuId, IoResult)>, i: int) -> int
    decreases ev.len() - i,
{
    if 0 <= i < ev.len() && !states.contains_key(ev[i].0) {
        first_known(states, ev, i + 1)
    } else {
        i
    }
}

pub proof fn lemma_first_known(states: Map<FuId, IoFutureState>, ev: Seq<(FuId, IoResult)>, i: int)
    requires
        0 <= i <= ev.len(),
    ensures
        i <= first_known(states, ev, i) <= ev.len(),
        first_known(states, ev, i) < ev.len() ==> states.contains_key(
            ev[first_known(states, ev, i)].0,
        ),
    decreases ev.len() - i,
{
    if i < ev.len() && !states.contains_key(ev[i].0) {
        lemma_first_known(states, ev, i + 1);
    }
}

/// The completion at the head of the queue, if its future completed.
pub open spec fn head_result(states: Map<FuId, IoFutureState>, q: Seq<FuId>) -> Option<
    (FuId, IoResult),
> {
    if q.len() > 0 && states.contains_key(q[0]) {
        match states[q[0]] {
            IoFutureState::Completed(r) => Some((q[0], r)),
            _ => None,
        }
    } else {
        None
    }
}

/// After the submission of `op` as `id`: the future pending, or completed
/// with some result and queued.
pub open spec fn submitted<R: Reactor>(new: IoEngine<R>, old: IoEngine<R>, id: FuId, op: IoOp) -> bool {
    ||| (new.states() == old.states().insert(id, IoFutureState::Pending(op)) && new.queue()
        == old.queue())
    ||| exists|res: IoResult|
        new.states() == old.states().insert(id, IoFutureState::Completed(res)) && new.queue()
            == old.queue().push(id)
}

/// The events the engine knows, each completing its future and queued, in
/// order; and their number.
pub open spec fn record_all(
    states: Map<FuId, IoFutureState>,
    queue: Seq<FuId>,
    ev: Seq<(FuId, IoResult)>,
) -> (Map<FuId, IoFutureState>, Seq<FuId>, nat)
    decreases ev.len(),
{
    if ev.len() == 0 {
        (states, queue, 0)
    } else {
        let (s1, q1, n1) = record_all(states, queue, ev.drop_last());
        let (id, res) = ev.last();
        if s1.contains_key(id) {
            (s1.insert(id, IoFutureState::Completed(res)), q1.push(id), n1 + 1)
        } else {
            (s1, q1, n1)
        }
    }
}

/// Recording counts no more events than it is given.
pub proof fn lemma_record_all_count(states: Map<FuId, IoFutureState>, queue: Seq<FuId>, ev: Seq<(FuId, IoResult)>)
    ensures
        record_all(states, queue, ev).2 <= ev.len(),
    decreases ev.len(),
{
    if ev.len() > 0 {
        lemma_record_all_count(states, queue, ev.drop_last());
    }
}

/// What taking the first known of `ev` gives: `x` and the states after.
pub open spec fn took(
    states: Map<FuId, IoFutureState>,
    ev: Seq<(FuId, IoResult)>,
    x: Option<(FuId, IoResult)>,
    after: Map<FuId, IoFutureState>,
) -> bool {
    let k = first_known(states, ev, 0);
    if k < ev.len() {
        &&& x == Some(ev[k])
        &&& after == states.insert(ev[k].0, IoFutureState::Completed(ev[k].1))
    } else {
        &&& x is None
        &&& after == states
    }
}

impl<R: Reactor> IoEngine<R> {
    /// The id the next submission gets.
    pub closed spec fn next_id(&self) -> FuId {
        self.next_fu
    }

    /// The engine has the same reactor as `other`.
    pub closed spec fn same_reactor(&self, other: &Self) -> bool {
        self.reactor == other.reactor
    }

    /// That the engine's reactor has been handed `op` under `fu_id`.
    pub closed spec fn reactor_handed(&self, fu_id: FuId, op: IoOp) -> bool {
        self.reactor.handed(fu_id, op)
    }

    /// That the engine's reactor has been asked to wait up to `timeout_ms`
    /// for up to `max_events` completions.
    pub closed spec fn reactor_asked_to_wait(&self, timeout_ms: i64, max_events: usize) -> bool {
        self.reactor.asked_to_wait(timeout_ms, max_events)
    }

    /// The state of each future.
    pub closed spec fn states(&self) -> Map<FuId, IoFutureState> {
        self.futures@
    }

    /// Ids of futures that completed at submission, not yet taken.
    pub closed spec fn queue(&self) -> Seq<FuId> {
        self.completed@
    }

    /// The id the next submission gets.
    pub fn next_fu_id(&self) -> (r: FuId)
        ensures
            r == self.next_id(),
    {
        self.next_fu
    }

    pub fn new(reactor: Arc<R>) -> (r: Self)
        ensures
            r.next_id() == 1,
            r.states() == Map::<FuId, IoFutureState>::empty(),
            r.queue() == Seq::<FuId>::empty(),
    {
        IoEngine { next_fu: 1, futures: HashMap::new(), completed: VecDeque::new(), reactor }
    }

    fn alloc_fu(&mut self) -> (id: FuId)
        requires
            old(self).next_id() < u64::MAX,
        ensures
            id == old(self).next_id(),
            final(self).next_id() == old(self).next_id() + 1,
            final(self).states() == old(self).states(),
            final(self).queue() == old(self).queue(),
            final(self).same_reactor(old(self)),
    {
        let id = self.next_fu;
        self.next_fu = self.next_fu + 1;
        id
    }

    /// Records the reactor's answer to the submission of `op` as `fu_id`: a
    /// result completes the future and queues it, none leaves it pending.
    pub fn record_submission(&mut self, fu_id: FuId, op: IoOp, answer: Option<IoResult>)
        ensures
            final(self).next_id() == old(self).next_id(),
            forall|id: FuId, o: IoOp| #[trigger] final(self).reactor_handed(id, o) == old(self).reactor_handed(id, o),
            match answer {
                Some(res) => {
                    &&& final(self).states() == old(self).states().insert(
                        fu_id,
                        IoFutureState::Completed(res),
                    )
                    &&& final(self).queue() == old(self).queue().push(fu_id)
                },
                None => {
                    &&& final(self).states() == old(self).states().insert(
                        fu_id,
                        IoFutureState::Pending(op),
                    )
                    &&& final(self).queue() == old(self).queue()
                },
            },
    {
        match answer {
            Some(result) => {
                self.futures.insert(fu_id, IoFutureState::Completed(result));
                self.completed.push_back(fu_id);
            },
            None => {
                self.futures.insert(fu_id, IoFutureState::Pending(op));
            },
        }
    }

    /// Submits `op` under the next id. The reactor decides whether it
    /// completes at once; an error of the reactor is handed back, and the id
    /// stays used.
    pub fn submit_op(&mut self, op: IoOp) -> (r: Result<FuId, std::io::Error>)
        requires
            old(self).next_id() < u64::MAX,
        ensures
            final(self).next_id() == old(self).next_id() + 1,
            submission_step(*final(self), *old(self), old(self).next_id()),
            final(self).reactor_handed(old(self).next_id(), op),
            match r {
                Ok(id) => {
                    &&& id == old(self).next_id()
                    &&& submitted(*final(self), *old(self), id, op)
                },
                Err(_) => {
                    &&& final(self).states() == old(self).states()
                    &&& final(self).queue() == old(self).queue()
                },
            },
    {
        let fu_id = self.alloc_fu();
        let answer = match self.reactor.submit(fu_id, &op) {
            Ok(a) => a,
            Err(e) => return Err(e),
        };
        let ghost s0 = self.states();
        self.record_submission(fu_id, op, answer);
        assert(self.states().dom() =~= s0.dom().insert(fu_id));
        Ok(fu_id)
    }

    /// Takes the head of the queue: its result, if its future completed.
    pub fn pop_completed(&mut self) -> (r: Option<(FuId, IoResult)>)
        ensures
            final(self).same_reactor(old(self)),
            r == head_result(old(self).states(), old(self).queue()),
            final(self).states() == old(self).states(),
            final(self).next_id() == old(self).next_id(),
            final(self).queue() == if old(self).queue().len() > 0 {
                old(self).queue().drop_first()
            } else {
                old(self).queue()
            },
    {
        match self.completed.pop_front() {
            Some(fu_id) => match self.futures.get(&fu_id) {
                Some(IoFutureState::Completed(result)) => Some((fu_id, *result)),
                _ => None,
            },
            None => None,
        }
    }

    /// The first of `events` (completions the reactor reported) whose future
    /// the engine knows: that future completes with it.
    pub fn take_events(&mut self, events: Vec<(FuId, IoResult)>) -> (r: Option<(FuId, IoResult)>)
        ensures
            final(self).same_reactor(old(self)),
            final(self).next_id() == old(self).next_id(),
            final(self).queue() == old(self).queue(),
            ({
                let k = first_known(old(self).states(), events@, 0);
                if k < events@.len() {
                    &&& r == Some(events@[k])
                    &&& final(self).states() == old(self).states().insert(
                        events@[k].0,
                        IoFutureState::Completed(events@[k].1),
                    )
                } else {
                    &&& r is None
                    &&& final(self).states() == old(self).states()
                }
            }),
    {
        let mut i: usize = 0;
        while i < events.len()
            invariant
                i <= events@.len(),
                self.futures@ == old(self).futures@,
                self.completed@ == old(self).completed@,
                self.next_fu == old(self).next_fu,
                self.reactor == old(self).reactor,
                first_known(old(self).states(), events@, 0) == first_known(
                    old(self).states(),
                    events@,
                    i as int,
                ),
            decreases events@.len() - i,
        {
            let (fu_id, result) = events[i];
            if self.futures.contains_key(&fu_id) {
                self.futures.insert(fu_id, IoFutureState::Completed(result));
                return Some((fu_id, result));
            }
            i = i + 1;
        }
        None
    }

    /// Records `events` (completions the reactor reported): each whose
    /// future the engine knows completes it and is queued. Returns how many.
    pub fn record_events(&mut self, events: Vec<(FuId, IoResult)>) -> (n: usize)
        ensures
            final(self).same_reactor(old(self)),
            final(self).next_id() == old(self).next_id(),
            (final(self).states(), final(self).queue(), n as nat) == record_all(
                old(self).states(),
                old(self).queue(),
                events@,
            ),
    {
        let mut n: usize = 0;
        let mut i: usize = 0;
        while i < events.len()
            invariant
                i <= events@.len(),
                n <= i,
                self.next_fu == old(self).next_fu,
                self.reactor == old(self).reactor,
                (self.states(), self.queue(), n as nat) == record_all(
                    old(self).states(),
                    old(self).queue(),
                    events@.subrange(0, i as int),
                ),
            decreases events@.len() - i,
        {
            let (fu_id, result) = events[i];
            proof {
                assert(events@.subrange(0, i + 1).drop_last() =~= events@.subrange(0, i as int));
                assert(events@.subrange(0, i + 1).last() == events@[i as int]);
            }
            if self.futures.contains_key(&fu_id) {
                self.futures.insert(fu_id, IoFutureState::Completed(result));
                self.completed.push_back(fu_id);
                n = n + 1;
            }
            i = i + 1;
        }
        proof {
            assert(events@.subrange(0, i as int) =~= events@);
        }
        n
    }

    /// Waits (up to `timeout_ms`; a negative one waits without end) for up
    /// to `max_events` completions and records them (see `record_events`).
    /// An error of the reactor's wait is handed back.
    pub fn blocking_collect_events(&mut self, timeout_ms: i64, max_events: usize) -> (r: Result<
        usize,
        std::io::Error,
    >)
        ensures
            final(self).next_id() == old(self).next_id(),
            final(self).reactor_asked_to_wait(timeout_ms, max_events),
            match r {
                Ok(n) => n <= max_events && exists|ev: Seq<(FuId, IoResult)>|
                    ev.len() <= max_events && (final(self).states(), final(self).queue(), n as nat)
                        == #[trigger] record_all(old(self).states(), old(self).queue(), ev),
                Err(_) => final(self).states() == old(self).states() && final(self).queue()
                    == old(self).queue(),
            },
    {
        let mut events: Vec<(FuId, IoResult)> = Vec::new();
        match self.reactor.wait(timeout_ms, max_events, &mut events) {
            Ok(()) => {},
            Err(e) => return Err(e),
        }
        let ghost ev = events@;
        let n = self.record_events(events);
        proof {
            lemma_record_all_count(old(self).states(), old(self).queue(), ev);
            assert((self.states(), self.queue(), n as nat) == record_all(
                old(self).states(),
                old(self).queue(),
                ev,
            ));
        }
        Ok(n)
    }

    /// The next completion: the head of the queue if its future completed;
    /// else the reactor waits (up to `timeout_ms`) for at most one event,
    /// which completes its future and is returned if the engine knows it
    /// (see `took`), so no completion it reports is lost. An error of the
    /// reactor's wait is handed back.
    pub fn wait_a_event(&mut self, timeout_ms: i64) -> (r: Result<
        Option<(FuId, IoResult)>,
        std::io::Error,
    >)
        ensures
            final(self).next_id() == old(self).next_id(),
            final(self).queue() == if old(self).queue().len() > 0 {
                old(self).queue().drop_first()
            } else {
                old(self).queue()
            },
            head_result(old(self).states(), old(self).queue()) is Some ==> {
                &&& r == Ok::<Option<(FuId, IoResult)>, std::io::Error>(
                    head_result(old(self).states(), old(self).queue()),
                )
                &&& final(self).states() == old(self).states()
            },
            head_result(old(self).states(), old(self).queue()) is None ==> final(self).reactor_asked_to_wait(
                timeout_ms,
                1,
            ),
            head_result(old(self).states(), old(self).queue()) is None ==> match r {
                Ok(x) => exists|ev: Seq<(FuId, IoResult)>|
                    ev.len() <= 1 && #[trigger] took(old(self).states(), ev, x, final(self).states()),
                Err(_) => final(self).states() == old(self).states(),
            },
    {
        match self.pop_completed() {
            Some(ev) => return Ok(Some(ev)),
            None => {},
        }
        let mut events: Vec<(FuId, IoResult)> = Vec::new();
        match self.reactor.wait(timeout_ms, 1, &mut events) {
            Ok(()) => {},
            Err(e) => return Err(e),
        }
        proof {
            lemma_first_known(self.states(), events@, 0);
        }
        let ghost ev = events@;
        let ghost s0 = self.states();
        let x = self.take_events(events);
        assert(took(s0, ev, x, self.states()));
        Ok(x)
    }
}

/// A submission that the reactor completes at once, on an engine with no
/// queued completion, is the next completion taken.
pub proof fn law_completed_submission_taken_first<R: Reactor>(
    before: IoEngine<R>,
    after: IoEngine<R>,
    id: FuId,
    res: IoResult,
)
    requires
        before.queue().len() == 0,
        after.states() == before.states().insert(id, IoFutureState::Completed(res)),
        after.queue() == before.queue().push(id),
    ensures
        head_result(after.states(), after.queue()) == Some((id, res)),
{
    assert(after.queue()[0] == id);
}

/// Completions are taken in the order they were queued: after the head is
/// taken, the next one is the second queued.
pub proof fn law_queue_order(states: Map<FuId, IoFutureState>, q: Seq<FuId>)
    requires
        q.len() >= 2,
    ensures
        head_result(states, q.drop_first()) == head_result(states, seq![q[1]]),
{
    assert(q.drop_first()[0] == q[1]);
}

/// One submission as `id`: the id is the engine's next, the next id moves
/// on by one, and at most `id` joins the futures.
pub open spec fn submission_step<R: Reactor>(new: IoEngine<R>, old: IoEngine<R>, id: FuId) -> bool {
    &&& id == old.next_id()
    &&& new.next_id() == old.next_id() + 1
    &&& (new.states().dom() == old.states().dom() || new.states().dom() == old.states().dom().insert(id))
}

proof fn lemma_ids_upto<R: Reactor>(es: Seq<IoEngine<R>>, ids: Seq<FuId>, k: int)
    requires
        es.len() == ids.len() + 1,
        0 <= k <= ids.len(),
        es[0].next_id() == 1,
        es[0].states() == Map::<FuId, IoFutureState>::empty(),
        forall|i: int| #![trigger ids[i]] 0 <= i < ids.len() ==> submission_step(es[i + 1], es[i], ids[i]),
    ensures
        es[k].next_id() == k + 1,
        forall|x: FuId| es[k].states().contains_key(x) ==> 1 <= x < k + 1,
        forall|i: int| #![trigger ids[i]] 0 <= i < k ==> ids[i] == i + 1 && !es[i].states().contains_key(ids[i]),
    decreases k,
{
    if k > 0 {
        lemma_ids_upto(es, ids, k - 1);
        assert(submission_step(es[k], es[k - 1], ids[k - 1]));
        assert forall|x: FuId| es[k].states().contains_key(x) implies 1 <= x < k + 1 by {
            assert(es[k].states().dom().contains(x));
        }
    }
}

/// The futures of an engine fresh from `new` get the ids 1, 2, 3, ... in
/// the order of their submissions, and a new id never names a future the
/// engine already has (so 0 never names one).
pub proof fn law_future_ids_count_up<R: Reactor>(es: Seq<IoEngine<R>>, ids: Seq<FuId>)
    requires
        es.len() == ids.len() + 1,
        es[0].next_id() == 1,
        es[0].states() == Map::<FuId, IoFutureState>::empty(),
        forall|i: int| #![trigger ids[i]] 0 <= i < ids.len() ==> submission_step(es[i + 1], es[i], ids[i]),
    ensures
        forall|i: int| #![trigger ids[i]] 0 <= i < ids.len() ==> ids[i] == i + 1 && !es[i].states().contains_key(ids[i]),
{
    lemma_ids_upto(es, ids, ids.len() as int);
}

} // verus!
