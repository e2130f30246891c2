//! One mining worker: a state machine from events to actions. The thread that
//! runs it hashes what it is told to, polls its receiver and reports back.
use crate::block::{
    field_value, read_u64_be, write_be, HEADER_SIZE, NONCE_OFFSET, TIMESTAMP_OFFSET, WORKER_BYTE,
};
use crate::bignum::byte_pow;
use crate::difficulty::{check_difficulty, spec_check_difficulty};
use vstd::prelude::*;

verus! {

/// What the dispatcher broadcasts to every worker.
#[derive(Debug, Clone)]
pub enum ThreadNotification {
    /// A block template (its encoded bytes) and the difficulty it must meet.
    NewJob(Vec<u8>, u64),
    Exit,
}

/// What happened since the worker's last step.
#[derive(Debug, Clone)]
pub enum WorkerEvent {
    /// A notification taken from the worker's receiver.
    Notification(ThreadNotification),
    /// The receiver held nothing; `connected` is the connection flag as read.
    NoNotification { connected: bool },
    /// The digest of the bytes last handed out for hashing, whether a newer
    /// notification is waiting, the connection flag, and the time now (ms).
    Hashed { digest: crate::difficulty::Hash, job_pending: bool, connected: bool, now: u128 },
}

/// What the thread running the worker does next.
#[derive(Debug, Clone)]
pub enum WorkerAction {
    /// Hash these bytes and report the digest.
    Hash(Vec<u8>),
    /// Send this solved block on the solution channel.
    Submit(Vec<u8>),
    /// Pause briefly, then poll the receiver: there is no job and no connection.
    Sleep,
    /// Poll the receiver.
    Poll,
    /// Stop the thread.
    Stop,
}

#[derive(Debug)]
pub enum WorkerState {
    Idle,
    /// A private working copy of the job's block, the job's difficulty, and
    /// the nonce the copy holds.
    Searching { work: Vec<u8>, difficulty: u64, nonce: u64 },
    Exiting,
}

pub ghost enum WorkerStateView {
    Idle,
    Searching { work: Seq<u8>, difficulty: u64, nonce: u64 },
    Exiting,
}

pub ghost enum WorkerActionView {
    Hash(Seq<u8>),
    Submit(Seq<u8>),
    Sleep,
    Poll,
    Stop,
}

impl View for WorkerState {
    type V = WorkerStateView;

    open spec fn view(&self) -> WorkerStateView {
        match self {
            WorkerState::Idle => WorkerStateView::Idle,
            WorkerState::Searching { work, difficulty, nonce } => WorkerStateView::Searching {
                work: work@,
                difficulty: *difficulty,
                nonce: *nonce,
            },
            WorkerState::Exiting => WorkerStateView::Exiting,
        }
    }
}

impl View for WorkerAction {
    type V = WorkerActionView;

    open spec fn view(&self) -> WorkerActionView {
        match self {
            WorkerAction::Hash(b) => WorkerActionView::Hash(b@),
            WorkerAction::Submit(b) => WorkerActionView::Submit(b@),
            WorkerAction::Sleep => WorkerActionView::Sleep,
            WorkerAction::Poll => WorkerActionView::Poll,
            WorkerAction::Stop => WorkerActionView::Stop,
        }
    }
}

/// The job's block with the worker's id in the last extra-nonce byte.
pub open spec fn stamped(template: Seq<u8>, id: u8) -> Seq<u8> {
    template.update(WORKER_BYTE as int, id)
}

/// `next` is `work` with the nonce field holding `nonce` and the timestamp
/// field holding `now`, every other byte kept.
pub open spec fn advanced(work: Seq<u8>, next: Seq<u8>, nonce: u64, now: u128) -> bool {
    &&& next.len() == work.len()
    &&& field_value(next, NONCE_OFFSET as nat, 8) == nonce
    &&& field_value(next, TIMESTAMP_OFFSET as nat, 16) == now
    &&& forall|j: int|
        0 <= j < work.len() && !(TIMESTAMP_OFFSET <= j < NONCE_OFFSET + 8) ==> #[trigger] next[j]
            == work[j]
}

/// One step of worker `id`: from state `s` and event `e` to state `s2` and
/// action `a`.
pub open spec fn step_relation(
    id: u8,
    s: WorkerStateView,
    e: WorkerEvent,
    s2: WorkerStateView,
    a: WorkerActionView,
) -> bool {
    match s {
        WorkerStateView::Exiting => s2 == WorkerStateView::Exiting && a == WorkerActionView::Stop,
        _ => match e {
            WorkerEvent::Notification(ThreadNotification::Exit) => s2 == WorkerStateView::Exiting
                && a == WorkerActionView::Stop,
            WorkerEvent::Notification(ThreadNotification::NewJob(template, difficulty)) => {
                if template@.len() < HEADER_SIZE {
                    s2 == WorkerStateView::Idle && a == WorkerActionView::Poll
                } else {
                    let work = stamped(template@, id);
                    s2 == (WorkerStateView::Searching {
                        work,
                        difficulty,
                        nonce: field_value(template@, NONCE_OFFSET as nat, 8) as u64,
                    }) && a == WorkerActionView::Hash(work)
                }
            },
            WorkerEvent::NoNotification { connected } => match s {
                WorkerStateView::Searching { work, .. } => s2 == s && a == WorkerActionView::Hash(
                    work,
                ),
                _ => s2 == WorkerStateView::Idle && a == (if connected {
                    WorkerActionView::Poll
                } else {
                    WorkerActionView::Sleep
                }),
            },
            WorkerEvent::Hashed { digest, job_pending, connected, now } => match s {
                WorkerStateView::Searching { work, difficulty, nonce } => match spec_check_difficulty(
                    digest,
                    difficulty,
                ) {
                    Err(_) => s2 == WorkerStateView::Idle && a == WorkerActionView::Poll,
                    Ok(true) => s2 == WorkerStateView::Idle && a == WorkerActionView::Submit(work),
                    Ok(false) => if job_pending || !connected {
                        s2 == WorkerStateView::Idle && a == WorkerActionView::Poll
                    } else {
                        let n = if nonce == u64::MAX {
                            0u64
                        } else {
                            (nonce + 1) as u64
                        };
                        match s2 {
                            WorkerStateView::Searching { work: next, difficulty: d2, nonce: n2 } => {
                                &&& advanced(work, next, n, now)
                                &&& d2 == difficulty
                                &&& n2 == n
                                &&& a == WorkerActionView::Hash(next)
                            },
                            _ => false,
                        }
                    },
                },
                _ => s2 == WorkerStateView::Idle && a == WorkerActionView::Poll,
            },
        },
    }
}

/// Worker `id` in state `s` searches only blocks that carry its id.
pub open spec fn state_inv(id: u8, s: WorkerStateView) -> bool {
    match s {
        WorkerStateView::Searching { work, .. } => work.len() >= HEADER_SIZE && work[WORKER_BYTE as int]
            == id,
        _ => true,
    }
}

pub struct MiningWorker {
    pub id: u8,
    pub state: WorkerState,
}

impl MiningWorker {
    pub fn new(id: u8) -> (r: MiningWorker)
        ensures
            r.id == id,
            r.state@ == WorkerStateView::Idle,
    {
        MiningWorker { id, state: WorkerState::Idle }
    }

    pub open spec fn inv(&self) -> bool {
        state_inv(self.id, self.state@)
    }

    /// Takes one event and says what to do next.
    pub fn step(&mut self, event: WorkerEvent) -> (a: WorkerAction)
        requires
            old(self).inv(),
        ensures
            final(self).id == old(self).id,
            final(self).inv(),
            step_relation(old(self).id, old(self).state@, event, final(self).state@, a@),
    {
        let mut state = WorkerState::Idle;
        std::mem::swap(&mut state, &mut self.state);
        if let WorkerState::Exiting = state {
            self.state = WorkerState::Exiting;
            return WorkerAction::Stop;
        }
        match event {
            WorkerEvent::Notification(ThreadNotification::Exit) => {
                self.state = WorkerState::Exiting;
                let a = WorkerAction::Stop;
                a
            },
            WorkerEvent::Notification(ThreadNotification::NewJob(template, difficulty)) => {
                if template.len() < HEADER_SIZE {
                    self.state = WorkerState::Idle;
                    return WorkerAction::Poll;
                }
                let nonce = read_u64_be(&template, NONCE_OFFSET);
                let mut work = template;
                work.set(WORKER_BYTE, self.id);
                let copy = work.clone();
                assert(copy@ =~= work@);
                self.state = WorkerState::Searching { work, difficulty, nonce };
                WorkerAction::Hash(copy)
            },
            WorkerEvent::NoNotification { connected } => {
                match state {
                    WorkerState::Searching { work, difficulty, nonce } => {
                        let copy = work.clone();
                        assert(copy@ =~= work@);
                        self.state = WorkerState::Searching { work, difficulty, nonce };
                        WorkerAction::Hash(copy)
                    },
                    _ => {
                        self.state = WorkerState::Idle;
                        if connected {
                            WorkerAction::Poll
                        } else {
                            WorkerAction::Sleep
                        }
                    },
                }
            },
            WorkerEvent::Hashed { digest, job_pending, connected, now } => {
                match state {
                    WorkerState::Searching { work, difficulty, nonce } => {
                        match check_difficulty(&digest, difficulty) {
                            Err(_) => {
                                self.state = WorkerState::Idle;
                                WorkerAction::Poll
                            },
                            Ok(true) => {
                                self.state = WorkerState::Idle;
                                WorkerAction::Submit(work)
                            },
                            Ok(false) => {
                                if job_pending || !connected {
                                    self.state = WorkerState::Idle;
                                    return WorkerAction::Poll;
                                }
                                let n: u64 = nonce.wrapping_add(1);
                                let mut next = work;
                                proof {
                                    crate::block::lemma_byte_pow_8();
                                    crate::block::lemma_byte_pow_16();
                                }
                                write_be(&mut next, NONCE_OFFSET, 8, n as u128);
                                let ghost mid = next@;
                                write_be(&mut next, TIMESTAMP_OFFSET, 16, now);
                                assert(next@.subrange(24, 32) =~= mid.subrange(24, 32));
                                let copy = next.clone();
                                assert(copy@ =~= next@);
                                assert(advanced(work@, next@, n, now));
                                assert(n == (if nonce == u64::MAX { 0u64 } else { (nonce + 1) as u64 }));
                                self.state = WorkerState::Searching { work: next, difficulty, nonce: n };
                                let a = WorkerAction::Hash(copy);
                                a
                            },
                        }
                    },
                    _ => {
                        self.state = WorkerState::Idle;
                        WorkerAction::Poll
                    },
                }
            },
        }
    }
}

/// Two workers with distinct ids that take the same job search blocks that
/// differ in the worker byte of the extra-nonce.
pub proof fn lemma_same_job_distinct_workers(template: Seq<u8>, id1: u8, id2: u8)
    requires
        template.len() >= HEADER_SIZE,
        id1 != id2,
    ensures
        stamped(template, id1)[WORKER_BYTE as int] == id1,
        stamped(template, id2)[WORKER_BYTE as int] == id2,
        stamped(template, id1) != stamped(template, id2),
{
    assert(stamped(template, id1)[WORKER_BYTE as int] != stamped(template, id2)[WORKER_BYTE as int]);
}

/// Whatever states two workers with distinct ids have reached, the blocks
/// they search differ: each holds its own id in the worker byte.
pub proof fn lemma_searches_never_overlap(id1: u8, s1: WorkerStateView, id2: u8, s2: WorkerStateView)
    requires
        state_inv(id1, s1),
        state_inv(id2, s2),
        id1 != id2,
        s1 is Searching,
        s2 is Searching,
    ensures
        s1->Searching_work != s2->Searching_work,
{
    assert(s1->Searching_work[WORKER_BYTE as int] != s2->Searching_work[WORKER_BYTE as int]);
}

/// Every step keeps the worker's id in the block it searches.
pub proof fn lemma_step_keeps_worker_byte(
    id: u8,
    s: WorkerStateView,
    e: WorkerEvent,
    s2: WorkerStateView,
    a: WorkerActionView,
)
    requires
        state_inv(id, s),
        step_relation(id, s, e, s2, a),
    ensures
        state_inv(id, s2),
{
    if let WorkerStateView::Searching { work, .. } = s2 {
        if let WorkerStateView::Searching { work: w0, .. } = s {
            if let WorkerEvent::Hashed { .. } = e {
                assert(work[WORKER_BYTE as int] == w0[WORKER_BYTE as int]);
            }
        }
    }
}

/// A worker that takes `Exit` stops at once, and a stopped worker stays
/// stopped and hashes nothing more, whatever comes.
pub proof fn lemma_exit_is_final(
    id: u8,
    s: WorkerStateView,
    e: WorkerEvent,
    s2: WorkerStateView,
    a: WorkerActionView,
)
    requires
        step_relation(id, s, e, s2, a),
        s is Exiting || e == WorkerEvent::Notification(ThreadNotification::Exit),
    ensures
        s2 is Exiting,
        a == WorkerActionView::Stop,
{
}

/// A searching worker that sees a notification waiting after a hash leaves
/// its search without submitting, so that its next step takes the
/// notification (an `Exit` included).
pub proof fn lemma_waiting_notification_ends_search(
    id: u8,
    s: WorkerStateView,
    digest: crate::difficulty::Hash,
    connected: bool,
    now: u128,
    s2: WorkerStateView,
    a: WorkerActionView,
)
    requires
        s is Searching,
        step_relation(
            id,
            s,
            WorkerEvent::Hashed { digest, job_pending: true, connected, now },
            s2,
            a,
        ),
    ensures
        s2 is Idle,
        !(a is Hash),
{
}

/// A searching worker whose receiver holds `Exit` is stopped two steps later:
/// it leaves the search after its current hash, then takes `Exit`.
pub proof fn lemma_exit_within_two_steps(
    id: u8,
    s: WorkerStateView,
    digest: crate::difficulty::Hash,
    connected: bool,
    now: u128,
    s1: WorkerStateView,
    a1: WorkerActionView,
    s2: WorkerStateView,
    a2: WorkerActionView,
)
    requires
        s is Searching,
        step_relation(
            id,
            s,
            WorkerEvent::Hashed { digest, job_pending: true, connected, now },
            s1,
            a1,
        ),
        step_relation(id, s1, WorkerEvent::Notification(ThreadNotification::Exit), s2, a2),
    ensures
        !(a1 is Hash),
        s2 is Exiting,
        a2 == WorkerActionView::Stop,
{
    lemma_waiting_notification_ends_search(id, s, digest, connected, now, s1, a1);
    lemma_exit_is_final(id, s1, WorkerEvent::Notification(ThreadNotification::Exit), s2, a2);
}

/// A job of difficulty 1 is solved by its first attempt, whatever the
/// digest: the worker submits the job's block with its id in the worker byte,
/// nonce and timestamp as the job gave them.
pub proof fn lemma_trivial_job_solved_first(
    id: u8,
    s: WorkerStateView,
    template: Vec<u8>,
    digest: crate::difficulty::Hash,
    job_pending: bool,
    connected: bool,
    now: u128,
    s1: WorkerStateView,
    a1: WorkerActionView,
    s2: WorkerStateView,
    a2: WorkerActionView,
)
    requires
        !(s is Exiting),
        template@.len() >= HEADER_SIZE,
        step_relation(
            id,
            s,
            WorkerEvent::Notification(ThreadNotification::NewJob(template, 1)),
            s1,
            a1,
        ),
        step_relation(id, s1, WorkerEvent::Hashed { digest, job_pending, connected, now }, s2, a2),
    ensures
        a1 == WorkerActionView::Hash(stamped(template@, id)),
        a2 == WorkerActionView::Submit(stamped(template@, id)),
        s2 is Idle,
{
    let h = crate::difficulty::hash_value(digest);
    crate::bignum::lemma_be_bound(digest.bytes@);
    assert(crate::difficulty::target_of(1) == byte_pow(32));
    assert(h <= crate::difficulty::target_of(1));
}

} // verus!
