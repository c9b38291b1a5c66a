use vstd::prelude::*;
use crate::error::Error;
use vstd::string::StrSliceExecFns;
use vstd::string::StringExecFns;

verus! {

broadcast use vstd::string::group_string_axioms;

// ---------------------------------------------------------------------------
// The canonical encoding of a job.
//
// A job is stored in the backing lists as one string: the id, one '\n', then
// the payload, uninterpreted. The id never contains '\n', so the first '\n'
// of an encoded job always closes the id; the payload may hold any text.
// ---------------------------------------------------------------------------

/// An id may not contain the separator that closes it in an encoded job.
pub open spec fn valid_job_id(id: Seq<char>) -> bool {
    forall|i: int| 0 <= i < id.len() ==> id[i] != '\n'
}

/// The canonical string form of a job: id, separator, payload.
pub open spec fn encoding_of(id: Seq<char>, payload: Seq<char>) -> Seq<char> {
    id + seq!['\n'] + payload
}

/// The position of the first separator in a string, if any.
pub open spec fn sep_position(s: Seq<char>) -> Option<int>
    decreases s.len(),
{
    if s.len() == 0 {
        None
    } else if s[0] == '\n' {
        Some(0int)
    } else {
        match sep_position(s.drop_first()) {
            Some(i) => Some(i + 1),
            None => None,
        }
    }
}

/// The job a stored string stands for: the text before the first separator
/// is the id, the text after it is the payload. A string without a
/// separator encodes no job.
pub open spec fn decoding_of(s: Seq<char>) -> Option<(Seq<char>, Seq<char>)> {
    match sep_position(s) {
        Some(i) => Some((s.subrange(0, i), s.subrange(i + 1, s.len() as int))),
        None => None,
    }
}

proof fn lemma_sep_position_at(s: Seq<char>, i: int)
    requires
        0 <= i < s.len(),
        s[i] == '\n',
        forall|j: int| 0 <= j < i ==> s[j] != '\n',
    ensures
        sep_position(s) == Some(i),
    decreases s.len(),
{
    if i > 0 {
        lemma_sep_position_at(s.drop_first(), i - 1);
    }
}

proof fn lemma_sep_position_absent(s: Seq<char>)
    requires
        forall|j: int| 0 <= j < s.len() ==> s[j] != '\n',
    ensures
        sep_position(s) is None,
    decreases s.len(),
{
    if s.len() > 0 {
        lemma_sep_position_absent(s.drop_first());
    }
}

/// Decoding inverts encoding: every job with a well-formed id comes back
/// from its canonical string form with the same id and the same payload.
pub proof fn lemma_decode_of_encode(id: Seq<char>, payload: Seq<char>)
    requires
        valid_job_id(id),
    ensures
        decoding_of(encoding_of(id, payload)) == Some((id, payload)),
{
    let s = encoding_of(id, payload);
    assert(s[id.len() as int] == '\n');
    assert(forall|j: int| 0 <= j < id.len() ==> s[j] == id[j]);
    lemma_sep_position_at(s, id.len() as int);
    assert(s.subrange(0, id.len() as int) =~= id);
    assert(s.subrange(id.len() as int + 1, s.len() as int) =~= payload);
}

// ---------------------------------------------------------------------------
// Job
// ---------------------------------------------------------------------------

/// A job to be processed by a queue: a unique id paired with an opaque
/// payload that the core never interprets.
#[derive(Clone, Debug, PartialEq, Eq)]
pub struct Job {
    /// Unique id of the job.
    pub id: String,
    /// Data to be processed by the queue, passed through unchanged.
    pub payload: String,
}

/// Holds of every character of a hyphenated UUID in its lowercase form.
pub open spec fn uuid_char(c: char) -> bool {
    c == '-' || ('0' <= c && c <= '9') || ('a' <= c && c <= 'f')
}

/// Relies on uuid::Uuid::new_v4 and its Display impl: the hyphenated form
/// of a fresh random UUID, 36 characters of lowercase hex digits and '-'.
#[verifier::external_body]
fn fresh_job_id() -> (r: String)
    ensures
        r@.len() == 36,
        forall|i: int| 0 <= i < r@.len() ==> uuid_char(#[trigger] r@[i]),
{
    uuid::Uuid::new_v4().to_string()
}

impl Job {
    /// A job is well formed when its id stays clear of the separator of
    /// the canonical encoding.
    pub open spec fn wf(&self) -> bool {
        valid_job_id(self.id@)
    }

    /// Pairs a payload with a freshly drawn unique id.
    pub fn with_data(payload: String) -> (r: Job)
        ensures
            r.payload == payload,
            r.id@.len() == 36,
            r.wf(),
    {
        let id = fresh_job_id();
        proof {
            assert forall|i: int| 0 <= i < id@.len() implies id@[i] != '\n' by {
                assert(uuid_char(id@[i]));
            }
        }
        Job { id, payload }
    }

    /// The canonical string form of this job, the literal list element
    /// stored in the backing lists.
    pub fn encode(&self) -> (r: String)
        ensures
            r@ == encoding_of(self.id@, self.payload@),
    {
        let mut r = self.id.clone();
        r.append("\n");
        r.append(self.payload.as_str());
        proof {
            reveal_strlit("\n");
            assert(("\n")@ =~= seq!['\n']);
            assert(r@ =~= encoding_of(self.id@, self.payload@));
        }
        r
    }

    /// The inverse of `encode`: reads a job back from its stored form, and
    /// rejects every string that does not encode one.
    pub fn from_string(s: &str) -> (r: Result<Job, Error>)
        ensures
            match r {
                Ok(j) => decoding_of(s@) == Some((j.id@, j.payload@)) && j.wf(),
                Err(e) => e == Error::Encoding && decoding_of(s@) is None,
            },
    {
        let n = s.unicode_len();
        let mut i: usize = 0;
        while i < n
            invariant
                i <= n,
                n == s@.len(),
                forall|j: int| 0 <= j < i ==> s@[j] != '\n',
            decreases n - i,
        {
            if s.get_char(i) == '\n' {
                proof {
                    lemma_sep_position_at(s@, i as int);
                }
                let id = s.substring_char(0, i).to_owned();
                let payload = s.substring_char(i + 1, n).to_owned();
                return Ok(Job { id, payload });
            }
            i += 1;
        }
        proof {
            lemma_sep_position_absent(s@);
        }
        Err(Error::Encoding)
    }
}

/// Round trip for every well-formed job: decoding the canonical string
/// form of a job yields the same id and the same payload.
pub proof fn lemma_job_round_trip(j: Job)
    requires
        j.wf(),
    ensures
        decoding_of(encoding_of(j.id@, j.payload@)) == Some((j.id@, j.payload@)),
{
    lemma_decode_of_encode(j.id@, j.payload@);
}

// ---------------------------------------------------------------------------
// Keys
// ---------------------------------------------------------------------------

/// The four list names a queue of name `Q` works on: jobs wait in `Q`,
/// sit in `Q + ".pending"` while a consumer holds them, and settle in
/// `Q + ".completed"` or `Q + ".failed"`.
#[derive(Clone, Debug)]
pub struct Keys {
    pub failed: String,
    pub pending: String,
    pub recovery: String,
    pub completed: String,
}

impl Keys {
    pub fn new(name: &str) -> (r: Keys)
        ensures
            r.pending@ == name@,
            r.recovery@ == name@ + ".pending"@,
            r.completed@ == name@ + ".completed"@,
            r.failed@ == name@ + ".failed"@,
    {
        let mut failed = name.to_owned();
        failed.append(".failed");
        let mut recovery = name.to_owned();
        recovery.append(".pending");
        let mut completed = name.to_owned();
        completed.append(".completed");
        Keys { pending: name.to_owned(), failed, recovery, completed }
    }
}

// ---------------------------------------------------------------------------
// Stats
// ---------------------------------------------------------------------------

/// A point-in-time snapshot of the four list lengths of one queue.
#[derive(Clone, Copy, Debug, PartialEq, Eq, Structural)]
pub struct Stats {
    /// Number of failed jobs.
    pub failed: usize,
    /// Number of pending jobs.
    pub pending: usize,
    /// Number of completed jobs.
    pub completed: usize,
    /// Number of jobs currently being processed.
    pub processing: usize,
}

// ---------------------------------------------------------------------------
// QueueState: the four lists of one queue
// ---------------------------------------------------------------------------

/// The durable state of one queue: its four lists of stored entries.
/// Index 0 is the head of a list; dispatch pushes at the head and a
/// consumer claims from the tail, so entries leave in arrival order.
pub struct QueueState {
    pub pending: Vec<String>,
    pub recovery: Vec<String>,
    pub completed: Vec<String>,
    pub failed: Vec<String>,
}

impl QueueState {
    pub open spec fn pending_count(self) -> nat {
        self.pending@.len()
    }

    pub open spec fn processing_count(self) -> nat {
        self.recovery@.len()
    }

    pub open spec fn completed_count(self) -> nat {
        self.completed@.len()
    }

    pub open spec fn failed_count(self) -> nat {
        self.failed@.len()
    }

    /// The snapshot the four lists yield.
    pub open spec fn spec_stats(self) -> Stats {
        Stats {
            failed: self.failed@.len() as usize,
            pending: self.pending@.len() as usize,
            completed: self.completed@.len() as usize,
            processing: self.recovery@.len() as usize,
        }
    }

    pub fn new() -> (r: QueueState)
        ensures
            r.pending@ == Seq::<String>::empty(),
            r.recovery@ == Seq::<String>::empty(),
            r.completed@ == Seq::<String>::empty(),
            r.failed@ == Seq::<String>::empty(),
    {
        QueueState { pending: Vec::new(), recovery: Vec::new(), completed: Vec::new(), failed: Vec::new() }
    }
}

/// The four lists hold the same entries in the same order.
pub open spec fn unchanged_lists(pre: QueueState, post: QueueState) -> bool {
    &&& post.pending@ == pre.pending@
    &&& post.recovery@ == pre.recovery@
    &&& post.completed@ == pre.completed@
    &&& post.failed@ == pre.failed@
}

/// How one dispatch changes the four lists: one new entry at the head of
/// the pending list, a validly encoded job carrying the given payload
/// under a well-formed id; the other lists keep their contents.
pub open spec fn dispatched_from(pre: QueueState, post: QueueState, payload: Seq<char>) -> bool {
    &&& post.pending@.len() == pre.pending@.len() + 1
    &&& post.pending@.drop_first() == pre.pending@
    &&& match decoding_of(post.pending@.first()@) {
        Some(d) => d.1 == payload && d.0.len() == 36 && valid_job_id(d.0),
        None => false,
    }
    &&& post.recovery@ == pre.recovery@
    &&& post.completed@ == pre.completed@
    &&& post.failed@ == pre.failed@
}

/// How one fully processed job changes the four lists: the tail entry of
/// the pending list settles at the head of the completed list (on handler
/// success) or of the failed list (on handler failure); the recovery list
/// is passed through and left as it was.
pub open spec fn process_transition(pre: QueueState, post: QueueState, succeeded: bool) -> bool {
    &&& pre.pending@.len() > 0
    &&& post.pending@ == pre.pending@.drop_last()
    &&& post.recovery@ == pre.recovery@
    &&& (succeeded ==> post.completed@ == seq![pre.pending@.last()] + pre.completed@
        && post.failed@ == pre.failed@)
    &&& (!succeeded ==> post.failed@ == seq![pre.pending@.last()] + pre.failed@
        && post.completed@ == pre.completed@)
}

/// How a claim that could not be decoded leaves the four lists: the tail
/// entry of the pending list stays stranded at the head of the recovery
/// list, and nothing settles.
pub open spec fn stranded_transition(pre: QueueState, post: QueueState) -> bool {
    &&& pre.pending@.len() > 0
    &&& post.pending@ == pre.pending@.drop_last()
    &&& post.recovery@ == seq![pre.pending@.last()] + pre.recovery@
    &&& post.completed@ == pre.completed@
    &&& post.failed@ == pre.failed@
}

// ---------------------------------------------------------------------------
// remove-one: the store primitive that closes the in-flight window
// ---------------------------------------------------------------------------

/// The index of the first entry equal to `v`, if any.
pub open spec fn first_eq_index(s: Seq<String>, v: Seq<char>) -> Option<int>
    decreases s.len(),
{
    if s.len() == 0 {
        None
    } else if s[0]@ == v {
        Some(0int)
    } else {
        match first_eq_index(s.drop_first(), v) {
            Some(i) => Some(i + 1),
            None => None,
        }
    }
}

proof fn lemma_first_eq_index_at(s: Seq<String>, v: Seq<char>, i: int)
    requires
        0 <= i < s.len(),
        s[i]@ == v,
        forall|j: int| 0 <= j < i ==> s[j]@ != v,
    ensures
        first_eq_index(s, v) == Some(i),
    decreases s.len(),
{
    if i > 0 {
        lemma_first_eq_index_at(s.drop_first(), v, i - 1);
    }
}

proof fn lemma_first_eq_index_absent(s: Seq<String>, v: Seq<char>)
    requires
        forall|j: int| 0 <= j < s.len() ==> s[j]@ != v,
    ensures
        first_eq_index(s, v) is None,
    decreases s.len(),
{
    if s.len() > 0 {
        lemma_first_eq_index_absent(s.drop_first(), v);
    }
}

/// Removes the first entry equal to `value` from `list`; a no-op when no
/// entry matches.
fn remove_first(list: &mut Vec<String>, value: &String) -> (removed: bool)
    ensures
        match first_eq_index(old(list)@, value@) {
            Some(i) => removed && final(list)@ == old(list)@.remove(i),
            None => !removed && final(list)@ == old(list)@,
        },
{
    let n = list.len();
    let mut i: usize = 0;
    while i < n
        invariant
            i <= n,
            n == list@.len(),
            list@ == old(list)@,
            forall|j: int| 0 <= j < i ==> list@[j]@ != value@,
        decreases n - i,
    {
        if list[i].eq(value) {
            proof {
                lemma_first_eq_index_at(list@, value@, i as int);
            }
            let _ = list.remove(i);
            return true;
        }
        i += 1;
    }
    proof {
        lemma_first_eq_index_absent(list@, value@);
    }
    false
}

// ---------------------------------------------------------------------------
// Queue: one queue's dispatch, consume step and stats
// ---------------------------------------------------------------------------

/// What one turn of the consume loop reports back to its driver.
#[derive(Clone, Copy, Debug, PartialEq, Eq, Structural)]
pub enum StepOutcome {
    /// Shutdown was observed, or no consumer exists: the loop is to exit.
    Stopped,
    /// Nothing was pending within the wait window: the loop polls again.
    Idle,
    /// One job was claimed, handled, and settled; the flag tells whether
    /// the handler succeeded.
    Processed(bool),
}

/// One registered queue: its four list names, the handler that processes
/// its jobs, and the four lists themselves.
pub struct Queue<F> {
    pub queues: Keys,
    pub state: QueueState,
    pub handler: F,
}

/// What one turn of the consume loop does to the lists, stated over the
/// queue before and after the turn, the shutdown signal it saw, and what
/// it reported: a seen shutdown stops the loop and touches nothing; an
/// empty pending list leaves the turn idle; otherwise the tail entry of
/// the pending list is claimed into the recovery list, decoded, handed to
/// the handler, settled into the completed or the failed list by the
/// handler's outcome, and cleared from the recovery list again. An entry
/// that decodes to no job stays stranded in the recovery list and the
/// turn reports the encoding error that ends the loop.
pub open spec fn step_contract<F>(
    pre: Queue<F>,
    post: Queue<F>,
    shutdown: bool,
    r: Result<StepOutcome, Error>,
) -> bool {
    &&& post.queues == pre.queues
    &&& post.handler() == pre.handler()
    &&& match r {
        Ok(StepOutcome::Stopped) => shutdown && unchanged_lists(pre.state, post.state),
        Ok(StepOutcome::Idle) => !shutdown && pre.state.pending@.len() == 0 && unchanged_lists(
            pre.state,
            post.state,
        ),
        Ok(StepOutcome::Processed(ok)) => {
            &&& !shutdown
            &&& process_transition(pre.state, post.state, ok)
            &&& decoding_of(pre.state.pending@.last()@) is Some
        },
        Err(e) => {
            &&& e == Error::Encoding
            &&& !shutdown
            &&& stranded_transition(pre.state, post.state)
            &&& decoding_of(pre.state.pending@.last()@) is None
        },
    }
}

impl<F> Queue<F> {
    /// The handler this queue routes its jobs through.
    pub open spec fn handler(&self) -> F {
        self.handler
    }

    /// A fresh engine for the queue of the given name: derived list
    /// names, the given handler, and four empty lists.
    pub fn new(name: &str, handler: F) -> (r: Queue<F>)
        ensures
            r.queues.pending@ == name@,
            r.queues.recovery@ == name@ + ".pending"@,
            r.queues.completed@ == name@ + ".completed"@,
            r.queues.failed@ == name@ + ".failed"@,
            r.handler() == handler,
            r.state.pending@ == Seq::<String>::empty(),
            r.state.recovery@ == Seq::<String>::empty(),
            r.state.completed@ == Seq::<String>::empty(),
            r.state.failed@ == Seq::<String>::empty(),
    {
        Queue { queues: Keys::new(name), state: QueueState::new(), handler }
    }

    /// Wraps the payload in a fresh job and appends its encoded form at
    /// the head of the pending list.
    pub fn dispatch(&mut self, payload: String) -> (r: Result<Job, Error>)
        ensures
            final(self).queues == old(self).queues,
            final(self).handler() == old(self).handler(),
            match r {
                Ok(j) => {
                    &&& j.wf()
                    &&& j.id@.len() == 36
                    &&& j.payload == payload
                    &&& dispatched_from(old(self).state, final(self).state, payload@)
                    &&& final(self).state.pending@.first()@ == encoding_of(j.id@, j.payload@)
                },
                Err(_) => false,
            },
    {
        let job = Job::with_data(payload);
        let encoded = job.encode();
        self.state.pending.insert(0, encoded);
        proof {
            lemma_decode_of_encode(job.id@, job.payload@);
            assert(final(self).state.pending@.drop_first() =~= old(self).state.pending@);
        }
        Ok(job)
    }

    /// Reads the four list lengths in one pass and returns the snapshot.
    pub fn stats(&self) -> (r: Result<Stats, Error>)
        ensures
            match r {
                Ok(s) => s == self.state.spec_stats(),
                Err(_) => false,
            },
    {
        Ok(
            Stats {
                failed: self.state.failed.len(),
                pending: self.state.pending.len(),
                completed: self.state.completed.len(),
                processing: self.state.recovery.len(),
            },
        )
    }
}

impl<F> Queue<F> where F: Fn(Job) -> Result<(), Error> {
    /// One turn of the consume loop, with `shutdown` telling whether the
    /// stop signal has been observed: the verified core of a consumer.
    pub fn consume_step(&mut self, shutdown: bool) -> (r: Result<StepOutcome, Error>)
        requires
            forall|j: Job| call_requires(old(self).handler(), (j,)),
        ensures
            step_contract(*old(self), *final(self), shutdown, r),
            match r {
                Ok(StepOutcome::Processed(ok)) => match decoding_of(
                    old(self).state.pending@.last()@,
                ) {
                    Some(d) => exists|j: Job, hr: Result<(), Error>|
                        j.id@ == d.0 && j.payload@ == d.1 && #[trigger] call_ensures(
                            old(self).handler(),
                            (j,),
                            hr,
                        ) && (ok <==> hr is Ok),
                    None => false,
                },
                _ => true,
            },
    {
        if shutdown {
            return Ok(StepOutcome::Stopped);
        }
        let claimed = self.state.pending.pop();
        let encoded = match claimed {
            None => {
                return Ok(StepOutcome::Idle);
            },
            Some(e) => e,
        };
        self.state.recovery.insert(0, encoded.clone());
        proof {
            assert(self.state.recovery@ =~= seq![encoded] + old(self).state.recovery@);
        }
        let job = match Job::from_string(encoded.as_str()) {
            Ok(j) => j,
            Err(_) => {
                return Err(Error::Encoding);
            },
        };
        let ghost gjob = job;
        proof {
            assert(self.handler == old(self).handler);
            assert(call_requires(old(self).handler(), (gjob,)));
        }
        let outcome = (self.handler)(job);
        let succeeded = outcome.is_ok();
        if succeeded {
            self.state.completed.insert(0, encoded.clone());
            proof {
                assert(self.state.completed@ =~= seq![encoded] + old(self).state.completed@);
            }
        } else {
            self.state.failed.insert(0, encoded.clone());
            proof {
                assert(self.state.failed@ =~= seq![encoded] + old(self).state.failed@);
            }
        }
        let _ = remove_first(&mut self.state.recovery, &encoded);
        proof {
            let rec = seq![encoded] + old(self).state.recovery@;
            assert(rec[0]@ == encoded@);
            assert(first_eq_index(rec, encoded@) == Some(0int));
            assert(rec.remove(0) =~= old(self).state.recovery@);
            assert(call_ensures(old(self).handler(), (gjob,), outcome));
        }
        Ok(StepOutcome::Processed(succeeded))
    }
}

// ---------------------------------------------------------------------------
// The laws of the delivery protocol
// ---------------------------------------------------------------------------

/// After a dispatch the pending count rises by exactly one and the other
/// three counts keep their values.
pub proof fn lemma_dispatch_invariant(pre: QueueState, post: QueueState, payload: Seq<char>)
    requires
        dispatched_from(pre, post, payload),
    ensures
        post.pending_count() == pre.pending_count() + 1,
        post.processing_count() == pre.processing_count(),
        post.completed_count() == pre.completed_count(),
        post.failed_count() == pre.failed_count(),
{
}

/// A job whose handler succeeded settles in the completed list: the
/// completed count rises by one, the pending count falls by one, and the
/// processing and failed counts keep their values.
pub proof fn lemma_successful_processing(pre: QueueState, post: QueueState)
    requires
        process_transition(pre, post, true),
    ensures
        post.completed_count() == pre.completed_count() + 1,
        post.pending_count() + 1 == pre.pending_count(),
        post.processing_count() == pre.processing_count(),
        post.failed_count() == pre.failed_count(),
{
}

/// Once the stop signal has been observed, a consume turn can only report
/// `Stopped`, and it settles nothing further: all four lists keep their
/// entries.
pub proof fn lemma_shutdown_stops_consumers<F>(
    pre: Queue<F>,
    post: Queue<F>,
    r: Result<StepOutcome, Error>,
)
    requires
        step_contract(pre, post, true, r),
    ensures
        r == Ok::<StepOutcome, Error>(StepOutcome::Stopped),
        unchanged_lists(pre.state, post.state),
{
}

/// A job whose handler failed settles in the failed list: the failed
/// count rises by one, the pending count falls by one, and the processing
/// and completed counts keep their values.
pub proof fn lemma_failed_processing(pre: QueueState, post: QueueState)
    requires
        process_transition(pre, post, false),
    ensures
        post.failed_count() == pre.failed_count() + 1,
        post.pending_count() + 1 == pre.pending_count(),
        post.processing_count() == pre.processing_count(),
        post.completed_count() == pre.completed_count(),
{
}

/// No entry is lost by a consume turn: whatever leaves the pending list
/// either settles in the completed or the failed list, or stays stranded
/// in the recovery list, so the sum of the four counts is conserved.
pub proof fn lemma_no_entry_lost(pre: QueueState, post: QueueState, ok: bool)
    requires
        process_transition(pre, post, ok) || stranded_transition(pre, post),
    ensures
        post.pending_count() + post.processing_count() + post.completed_count()
            + post.failed_count() == pre.pending_count() + pre.processing_count()
            + pre.completed_count() + pre.failed_count(),
{
}

} // verus!
