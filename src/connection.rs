use vstd::prelude::*;
use crate::bus::{PushBus, CursorView, read_result, after_read, after_push, after_close, after_register, released};
use crate::frame::{Frame, FrameView, payload_equal};
use crate::rp1210::{is_success_code, verify_return};

verus! {

/// How long `send` waits for its echo, in milliseconds.
pub const ECHO_TIMEOUT_MS: u64 = 2000;

/// `now + duration`, held at the largest time that a `u64` can hold.
pub open spec fn deadline_of(now: u64, duration: u64) -> u64 {
    if now as int + duration as int > u64::MAX as int {
        u64::MAX
    } else {
        (now + duration) as u64
    }
}

pub fn deadline_after(now: u64, duration: u64) -> (r: u64)
    ensures
        r == deadline_of(now, duration),
{
    now.saturating_add(duration)
}

/// What one step of a deadline-bounded read gives.
pub enum Step<T> {
    /// An item, handed on whatever the time.
    Yield(T),
    /// Nothing yet: read again after a short pause.
    Wait,
    /// The sequence is over.
    Done,
}

/// The step of a deadline-bounded read, in the model: an item is handed on
/// unconditionally; the deadline only ends an idle read.
pub open spec fn bounded_step_spec<V>(read: Option<Option<V>>, now: u64, deadline: u64) -> Step<V> {
    match read {
        None => Step::Done,
        Some(Some(x)) => Step::Yield(x),
        Some(None) => if now > deadline {
            Step::Done
        } else {
            Step::Wait
        },
    }
}

pub fn bounded_step(read: Option<Option<Frame>>, now: u64, deadline: u64) -> (r: Step<Frame>)
    ensures
        match (read, r) {
            (Some(Some(x)), Step::Yield(y)) => y == x,
            (Some(Some(_)), _) => false,
            (_, Step::Yield(_)) => false,
            (None, Step::Done) => true,
            (Some(None), Step::Done) => now > deadline,
            (Some(None), Step::Wait) => now <= deadline,
            (None, Step::Wait) => false,
        },
{
    match read {
        None => Step::Done,
        Some(Some(x)) => Step::Yield(x),
        Some(None) => if now > deadline {
            Step::Done
        } else {
            Step::Wait
        },
    }
}

/// The model of `bounded_step` on the views of frames.
pub open spec fn step_view(s: Step<Frame>) -> Step<FrameView> {
    match s {
        Step::Yield(x) => Step::Yield(x@),
        Step::Wait => Step::Wait,
        Step::Done => Step::Done,
    }
}

/// A released cursor takes none of the frames pushed after it was released,
/// and reads end of stream.
pub proof fn lemma_released_takes_nothing(c: ConnectionView, k: int, polls: Seq<Option<FrameView>>)
    requires
        0 <= k < c.cursors.len(),
    ensures
        ({
            let r = ConnectionView { cursors: c.cursors.update(k, released()), ..c };
            &&& after_polls(r, polls).cursors.len() == c.cursors.len()
            &&& after_polls(r, polls).cursors[k] == released::<FrameView>()
            &&& read_result(after_polls(r, polls).cursors[k]) is None
        }),
    decreases polls.len(),
{
    if polls.len() > 0 {
        lemma_released_takes_nothing(c, k, polls.drop_last());
    }
}

/// Deadline termination: once the deadline has passed, an idle read ends the
/// sequence; before it, an idle read waits; an item is never held back.
pub proof fn lemma_deadline_termination(start: u64, duration: u64, now: u64, x: FrameView)
    ensures
        now > deadline_of(start, duration) ==> bounded_step_spec(
            Some(None::<FrameView>),
            now,
            deadline_of(start, duration),
        ) is Done,
        now <= deadline_of(start, duration) ==> bounded_step_spec(
            Some(None::<FrameView>),
            now,
            deadline_of(start, duration),
        ) is Wait,
        bounded_step_spec(Some(Some(x)), now, deadline_of(start, duration)) == Step::Yield(x),
        start as int + duration as int <= u64::MAX ==> deadline_of(start, duration) == start
            + duration,
{
}

/// A reader of the bus that stops at a deadline.
///
/// Once a step has ended the sequence, `done` is set and every later step
/// ends it again: the sequence does not restart.
pub struct BoundedReader {
    pub cursor: usize,
    pub deadline: u64,
    pub done: bool,
}

/// What one step of the wait for an echo gives.
pub enum EchoStep {
    /// The echo of the sent frame.
    Echoed(Frame),
    /// Nothing matched yet: read again after a short pause.
    Wait,
    /// The deadline passed, or the bus closed, with no echo.
    TimedOut,
}

/// The step of the wait for an echo, in the model: a frame whose payload is
/// the sent payload is the echo; anything else waits, until the deadline.
pub open spec fn echo_step_spec(sent: Seq<u8>, read: Option<Option<FrameView>>, now: u64, deadline: u64) -> Option<Option<FrameView>> {
    match read {
        None => None,
        Some(Some(x)) => if x.payload == sent {
            Some(Some(x))
        } else if now > deadline {
            None
        } else {
            Some(None)
        },
        Some(None) => if now > deadline {
            None
        } else {
            Some(None)
        },
    }
}

/// What the wait for an echo can end in: an echo always carries the sent
/// payload; a frame with the sent payload is never passed over; and while the
/// cursor is open the wait times out only after the deadline.
pub proof fn lemma_echo_outcomes(sent: Seq<u8>, read: Option<Option<FrameView>>, now: u64, deadline: u64)
    ensures
        echo_step_spec(sent, read, now, deadline) matches Some(Some(x)) ==> x.payload == sent,
        read matches Some(Some(x)) && x.payload == sent ==> echo_step_spec(sent, read, now, deadline)
            == read,
        read is Some && echo_step_spec(sent, read, now, deadline) is None ==> now > deadline,
        now <= deadline && read is Some ==> echo_step_spec(sent, read, now, deadline) is Some,
{
}

/// `echo_step_spec` written with `EchoStep`: `None` for `TimedOut`,
/// `Some(None)` for `Wait`, `Some(Some(x))` for the echo `x`.
pub open spec fn echo_view(e: EchoStep) -> Option<Option<FrameView>> {
    match e {
        EchoStep::Echoed(x) => Some(Some(x@)),
        EchoStep::Wait => Some(None),
        EchoStep::TimedOut => None,
    }
}

pub fn echo_step(sent: &Vec<u8>, read: Option<Option<Frame>>, now: u64, deadline: u64) -> (r: EchoStep)
    ensures
        echo_view(r) == echo_step_spec(
            sent@,
            match read {
                None => None,
                Some(None) => Some(None),
                Some(Some(x)) => Some(Some(x@)),
            },
            now,
            deadline,
        ),
        r matches EchoStep::Echoed(y) ==> read == Some(Some(y)),
{
    match read {
        None => EchoStep::TimedOut,
        Some(Some(x)) => {
            if payload_equal(&x.payload, sent) {
                EchoStep::Echoed(x)
            } else if now > deadline {
                EchoStep::TimedOut
            } else {
                EchoStep::Wait
            }
        },
        Some(None) => if now > deadline {
            EchoStep::TimedOut
        } else {
            EchoStep::Wait
        },
    }
}

/// Why a send failed.
#[derive(Debug, PartialEq, Eq, Structural)]
pub enum SendError {
    /// The adapter refused the write, with this return code.
    Transmit(i16),
    /// No echo was seen before the deadline.
    Timeout,
}

/// What the driver's return code for the write means for a send: a code
/// outside 0..=127 fails the send at once, without waiting for an echo.
pub fn transmit_result(code: i16) -> (r: Result<(), SendError>)
    ensures
        is_success_code(code) ==> r is Ok,
        !is_success_code(code) ==> r == Err::<(), SendError>(SendError::Transmit(code)),
{
    match verify_return(code) {
        Ok(_) => Ok(()),
        Err(c) => Err(SendError::Transmit(c)),
    }
}

/// A send in progress: the cursor opened before the write, the sent payload
/// and the deadline for its echo.
pub struct EchoWait {
    pub cursor: usize,
    pub payload: Vec<u8>,
    pub deadline: u64,
}

/// What one poll of the adapter gave the worker.
pub enum PollResult {
    Data(Frame),
    Empty,
    Error(i32),
}

/// What the worker does after a poll.
#[derive(Debug, PartialEq, Eq, Structural)]
pub enum WorkerAction {
    /// The frame went to the bus.
    Pushed,
    /// Nothing was read: yield briefly and poll again.
    Idle,
    /// The adapter reported this error code: back off, then poll again.
    Backoff(i32),
    /// The worker was stopped: leave the loop.
    Exit,
}

/// Why the worker could not start.
#[derive(Debug, PartialEq, Eq, Structural)]
pub enum WorkerError {
    AlreadyRunning,
}

/// Model of a connection: its cursors, whether its worker runs, and the
/// address it sends from.
pub struct ConnectionView {
    pub cursors: Seq<CursorView<FrameView>>,
    pub running: bool,
    pub source_address: u8,
}

/// The connection after the worker handles one poll, in the model: only a
/// frame polled while the worker runs reaches the bus.
pub open spec fn after_poll(c: ConnectionView, polled: Option<FrameView>) -> ConnectionView {
    match polled {
        Some(f) => if c.running {
            ConnectionView { cursors: after_push(c.cursors, f), ..c }
        } else {
            c
        },
        None => c,
    }
}

/// The connection after the worker handles a sequence of polls.
pub open spec fn after_polls(c: ConnectionView, polls: Seq<Option<FrameView>>) -> ConnectionView
    decreases polls.len(),
{
    if polls.len() == 0 {
        c
    } else {
        after_poll(after_polls(c, polls.drop_last()), polls.last())
    }
}

/// The connection after `close`: worker stopped and every cursor closed.
pub open spec fn closed_view(c: ConnectionView) -> ConnectionView {
    ConnectionView { cursors: after_close(c.cursors), running: false, ..c }
}

/// A stopped worker is stopped for good: whatever it polls afterwards, the
/// bus does not change; and after a close every cursor reads end of stream.
pub proof fn lemma_stop_is_terminal(c: ConnectionView, polls: Seq<Option<FrameView>>)
    requires
        !c.running,
    ensures
        after_polls(c, polls) == c,
        after_polls(closed_view(c), polls) == closed_view(c),
        forall|k: int|
            0 <= k < c.cursors.len() ==> #[trigger] read_result(
                after_polls(closed_view(c), polls).cursors[k],
            ) is None,
    decreases polls.len(),
{
    if polls.len() > 0 {
        lemma_stop_is_terminal(c, polls.drop_last());
    }
}

/// Closing a connection twice has the same effect as closing it once.
pub proof fn lemma_connection_close_idempotent(c: ConnectionView)
    ensures
        closed_view(closed_view(c)) == closed_view(c),
{
    crate::bus::lemma_close_idempotent(c.cursors);
}

/// The façade over the bus: reads with or without a deadline, sends that
/// wait for their echo, and the lifecycle of the worker that fills the bus.
pub struct Connection {
    bus: PushBus<Frame>,
    running: bool,
    source_address: u8,
}

impl View for Connection {
    type V = ConnectionView;

    closed spec fn view(&self) -> ConnectionView {
        ConnectionView {
            cursors: self.bus@,
            running: self.running,
            source_address: self.source_address,
        }
    }
}

impl Connection {
    pub fn new(source_address: u8) -> (r: Connection)
        ensures
            r@.cursors == Seq::<CursorView<FrameView>>::empty(),
            !r@.running,
            r@.source_address == source_address,
    {
        Connection { bus: PushBus::new(), running: false, source_address }
    }

    pub fn source_address(&self) -> (r: u8)
        ensures
            r == self@.source_address,
    {
        self.source_address
    }

    pub fn is_running(&self) -> (r: bool)
        ensures
            r == self@.running,
    {
        self.running
    }

    pub fn cursor_count(&self) -> (r: usize)
        ensures
            r == self@.cursors.len(),
    {
        self.bus.cursor_count()
    }

    /// Moves the worker from stopped to running; a second start while it
    /// runs is refused.
    pub fn start(&mut self) -> (r: Result<(), WorkerError>)
        ensures
            old(self)@.running ==> r == Err::<(), WorkerError>(WorkerError::AlreadyRunning)
                && final(self)@ == old(self)@,
            !old(self)@.running ==> r is Ok && final(self)@ == (ConnectionView {
                running: true,
                ..old(self)@
            }),
    {
        if self.running {
            Err(WorkerError::AlreadyRunning)
        } else {
            self.running = true;
            Ok(())
        }
    }

    /// Clears the run flag: the worker leaves its loop at its next step.
    pub fn stop(&mut self)
        ensures
            final(self)@ == (ConnectionView { running: false, ..old(self)@ }),
    {
        self.running = false;
    }

    /// Stops the worker and closes every cursor.
    pub fn close(&mut self)
        ensures
            final(self)@ == closed_view(old(self)@),
    {
        self.running = false;
        self.bus.close();
    }

    /// One step of the worker: a polled frame goes to the bus while the
    /// worker runs; nothing reaches the bus once it is stopped.
    pub fn worker_step(&mut self, polled: PollResult) -> (r: WorkerAction)
        ensures
            !old(self)@.running ==> r == WorkerAction::Exit && final(self)@ == old(self)@,
            old(self)@.running ==> match polled {
                PollResult::Data(f) => r == WorkerAction::Pushed && final(self)@ == after_poll(
                    old(self)@,
                    Some(f@),
                ),
                PollResult::Empty => r == WorkerAction::Idle && final(self)@ == old(self)@,
                PollResult::Error(code) => r == WorkerAction::Backoff(code) && final(self)@
                    == old(self)@,
            },
    {
        if !self.running {
            return WorkerAction::Exit;
        }
        match polled {
            PollResult::Data(f) => {
                self.bus.push(f);
                WorkerAction::Pushed
            },
            PollResult::Empty => WorkerAction::Idle,
            PollResult::Error(code) => WorkerAction::Backoff(code),
        }
    }

    /// Registers a cursor that sees every frame pushed from now on.
    pub fn iter(&mut self) -> (id: usize)
        requires
            old(self)@.cursors.len() < usize::MAX,
        ensures
            id == old(self)@.cursors.len(),
            final(self)@ == (ConnectionView { cursors: after_register(old(self)@.cursors), ..old(self)@ }),
    {
        self.bus.iter()
    }

    /// One read of a cursor; see `PushBus::next`.
    pub fn read(&mut self, cursor: usize) -> (r: Option<Option<Frame>>)
        requires
            cursor < old(self)@.cursors.len(),
        ensures
            read_result(old(self)@.cursors[cursor as int]) == match r {
                None => None,
                Some(None) => Some(None),
                Some(Some(x)) => Some(Some(x@)),
            },
            final(self)@ == (ConnectionView {
                cursors: old(self)@.cursors.update(
                    cursor as int,
                    after_read(old(self)@.cursors[cursor as int]),
                ),
                ..old(self)@
            }),
    {
        self.bus.next(cursor)
    }

    /// Opens a cursor that reads until `duration` after `now`.
    pub fn iter_for(&mut self, now: u64, duration: u64) -> (r: BoundedReader)
        requires
            old(self)@.cursors.len() < usize::MAX,
        ensures
            r.cursor == old(self)@.cursors.len(),
            r.deadline == deadline_of(now, duration),
            !r.done,
            final(self)@ == (ConnectionView { cursors: after_register(old(self)@.cursors), ..old(self)@ }),
    {
        let cursor = self.iter();
        BoundedReader { cursor, deadline: deadline_after(now, duration), done: false }
    }

    /// One step of a deadline-bounded read at time `now`. The step that ends
    /// the sequence releases its cursor; a reader that has ended stays ended.
    pub fn read_for(&mut self, reader: &mut BoundedReader, now: u64) -> (r: Step<Frame>)
        requires
            old(reader).cursor < old(self)@.cursors.len(),
        ensures
            final(reader).cursor == old(reader).cursor,
            final(reader).deadline == old(reader).deadline,
            r is Done ==> final(reader).done,
            old(reader).done ==> r is Done && final(self)@ == old(self)@,
            !old(reader).done ==> step_view(r) == bounded_step_spec(
                read_result(old(self)@.cursors[old(reader).cursor as int]),
                now,
                old(reader).deadline,
            ),
            !old(reader).done ==> final(reader).done == (r is Done),
            !old(reader).done && !(r is Done) ==> final(self)@ == (ConnectionView {
                cursors: old(self)@.cursors.update(
                    old(reader).cursor as int,
                    after_read(old(self)@.cursors[old(reader).cursor as int]),
                ),
                ..old(self)@
            }),
            !old(reader).done && r is Done ==> final(self)@ == (ConnectionView {
                cursors: old(self)@.cursors.update(old(reader).cursor as int, released()),
                ..old(self)@
            }),
    {
        if reader.done {
            return Step::Done;
        }
        let read = self.read(reader.cursor);
        let step = bounded_step(read, now, reader.deadline);
        if let Step::Done = step {
            reader.done = true;
            self.release(reader.cursor);
            assert(self@.cursors =~= old(self)@.cursors.update(old(reader).cursor as int, released()));
        }
        step
    }

    /// Disposes of a cursor: its waiting frames are dropped, it takes no more
    /// frames and reads end of stream.
    pub fn release(&mut self, cursor: usize)
        requires
            cursor < old(self)@.cursors.len(),
        ensures
            final(self)@ == (ConnectionView {
                cursors: old(self)@.cursors.update(cursor as int, released()),
                ..old(self)@
            }),
    {
        self.bus.release(cursor);
    }

    /// First half of a send: opens the cursor that will see the echo, before
    /// anything is written, and sets the deadline for it.
    pub fn begin_send(&mut self, frame: &Frame, now: u64) -> (r: EchoWait)
        requires
            old(self)@.cursors.len() < usize::MAX,
        ensures
            r.cursor == old(self)@.cursors.len(),
            r.payload@ == frame.payload@,
            r.deadline == deadline_of(now, ECHO_TIMEOUT_MS),
            final(self)@ == (ConnectionView { cursors: after_register(old(self)@.cursors), ..old(self)@ }),
    {
        let cursor = self.iter();
        let copy = crate::frame::Duplicate::duplicate(frame);
        EchoWait { cursor, payload: copy.payload, deadline: deadline_after(now, ECHO_TIMEOUT_MS) }
    }

    /// One step of the wait for an echo at time `now`.
    pub fn poll_echo(&mut self, wait: &EchoWait, now: u64) -> (r: EchoStep)
        requires
            wait.cursor < old(self)@.cursors.len(),
        ensures
            echo_view(r) == echo_step_spec(
                wait.payload@,
                read_result(old(self)@.cursors[wait.cursor as int]),
                now,
                wait.deadline,
            ),
            final(self)@ == (ConnectionView {
                cursors: old(self)@.cursors.update(
                    wait.cursor as int,
                    after_read(old(self)@.cursors[wait.cursor as int]),
                ),
                ..old(self)@
            }),
    {
        let read = self.read(wait.cursor);
        echo_step(&wait.payload, read, now, wait.deadline)
    }
}

/// The outcome of a send once the echo step is final: the echo on success,
/// a timeout otherwise; `None` while the wait goes on.
pub fn send_outcome(step: EchoStep) -> (r: Option<Result<Frame, SendError>>)
    ensures
        match step {
            EchoStep::Echoed(x) => r == Some(Ok::<Frame, SendError>(x)),
            EchoStep::Wait => r is None,
            EchoStep::TimedOut => r == Some(Err::<Frame, SendError>(SendError::Timeout)),
        },
{
    match step {
        EchoStep::Echoed(x) => Some(Ok(x)),
        EchoStep::Wait => None,
        EchoStep::TimedOut => Some(Err(SendError::Timeout)),
    }
}

} // verus!
