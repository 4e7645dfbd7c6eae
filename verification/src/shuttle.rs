//! The bidirectional shuttle between the rfcomm tty and the PTY master.
//!
//! The shuttle decides, the program around it polls, reads, writes and reaps:
//! each call of [`Shuttle::step`] takes the answer to the last action and gives
//! the next action.

use vstd::prelude::*;
use crate::buffer::{
    bytes_read, bytes_written, read_meaning, Buffer, Queue, ReadOutcome, ReadResult, WriteOutcome,
};
use crate::errno::{classify, kind_of, ErrorKind};

verus! {

/// How long a poll waits, in milliseconds.
pub const POLL_TIMEOUT_MS: u16 = 1000;

/// A descriptor of the session.
#[derive(Clone, Copy, Debug, PartialEq, Eq, Structural)]
pub enum Endpoint {
    /// The signal descriptor, which tells that a child changed state.
    Signals,
    /// The rfcomm tty: the peer.
    Rfcomm,
    /// The PTY master: the login session.
    Master,
}

/// What a descriptor is polled for.
#[derive(Clone, Copy, Debug, PartialEq, Eq, Structural)]
pub enum Interest {
    Read,
    Write,
}

/// One entry of the poll array.
#[derive(Clone, Copy, Debug, PartialEq, Eq, Structural)]
pub struct PollSlot {
    pub endpoint: Endpoint,
    pub interest: Interest,
}

/// The entries that a poll has besides the signal descriptor.
#[derive(Clone, Copy, Debug, PartialEq, Eq, Structural)]
pub struct PollSet {
    pub rfcomm_read: bool,
    pub master_read: bool,
    pub master_write: bool,
    pub rfcomm_write: bool,
}

/// `slot`, if it is wanted.
pub open spec fn slot_if(wanted: bool, endpoint: Endpoint, interest: Interest) -> Seq<PollSlot> {
    if wanted {
        seq![PollSlot { endpoint, interest }]
    } else {
        Seq::empty()
    }
}

/// 1 or 0.
pub open spec fn count_if(wanted: bool) -> int {
    if wanted {
        1
    } else {
        0
    }
}

impl PollSet {
    /// The poll array: the signal descriptor first, then the entries of the
    /// set in a fixed order.
    pub open spec fn spec_slots(self) -> Seq<PollSlot> {
        slot_if(true, Endpoint::Signals, Interest::Read) + slot_if(
            self.rfcomm_read,
            Endpoint::Rfcomm,
            Interest::Read,
        ) + slot_if(self.master_read, Endpoint::Master, Interest::Read) + slot_if(
            self.master_write,
            Endpoint::Master,
            Interest::Write,
        ) + slot_if(self.rfcomm_write, Endpoint::Rfcomm, Interest::Write)
    }

    /// Position of the rfcomm read entry, if there is one.
    pub open spec fn rfcomm_read_at(self) -> int {
        1
    }

    /// Position of the master read entry, if there is one.
    pub open spec fn master_read_at(self) -> int {
        1 + count_if(self.rfcomm_read)
    }

    /// Position of the master write entry, if there is one.
    pub open spec fn master_write_at(self) -> int {
        1 + count_if(self.rfcomm_read) + count_if(self.master_read)
    }

    /// Position of the rfcomm write entry, if there is one.
    pub open spec fn rfcomm_write_at(self) -> int {
        1 + count_if(self.rfcomm_read) + count_if(self.master_read) + count_if(self.master_write)
    }

    /// The poll array.
    pub fn slots(&self) -> (r: Vec<PollSlot>)
        ensures
            r@ == self.spec_slots(),
    {
        let mut v: Vec<PollSlot> = Vec::new();
        v.push(PollSlot { endpoint: Endpoint::Signals, interest: Interest::Read });
        if self.rfcomm_read {
            v.push(PollSlot { endpoint: Endpoint::Rfcomm, interest: Interest::Read });
        }
        if self.master_read {
            v.push(PollSlot { endpoint: Endpoint::Master, interest: Interest::Read });
        }
        if self.master_write {
            v.push(PollSlot { endpoint: Endpoint::Master, interest: Interest::Write });
        }
        if self.rfcomm_write {
            v.push(PollSlot { endpoint: Endpoint::Rfcomm, interest: Interest::Write });
        }
        assert(v@ =~= self.spec_slots());
        v
    }
}

/// Every entry of the poll array is found again at its position.
pub proof fn law_slots_are_found_again(set: PollSet)
    ensures
        set.spec_slots()[0] == (PollSlot { endpoint: Endpoint::Signals, interest: Interest::Read }),
        set.rfcomm_read ==> set.spec_slots()[set.rfcomm_read_at()] == (PollSlot {
            endpoint: Endpoint::Rfcomm,
            interest: Interest::Read,
        }),
        set.master_read ==> set.spec_slots()[set.master_read_at()] == (PollSlot {
            endpoint: Endpoint::Master,
            interest: Interest::Read,
        }),
        set.master_write ==> set.spec_slots()[set.master_write_at()] == (PollSlot {
            endpoint: Endpoint::Master,
            interest: Interest::Write,
        }),
        set.rfcomm_write ==> set.spec_slots()[set.rfcomm_write_at()] == (PollSlot {
            endpoint: Endpoint::Rfcomm,
            interest: Interest::Write,
        }),
        set.spec_slots().len() == set.rfcomm_write_at() + count_if(set.rfcomm_write),
{
}

/// The conditions in the answer of a poll that the shuttle looks at.
#[derive(Clone, Copy, Debug, PartialEq, Eq, Structural)]
pub struct Revents {
    /// `POLLIN`.
    pub input: bool,
    /// `POLLOUT`.
    pub output: bool,
    /// `POLLERR`.
    pub error: bool,
    /// `POLLHUP`.
    pub hangup: bool,
}

/// The conditions in the flag word `bits`.
pub open spec fn revents_of(bits: i16) -> Revents {
    Revents {
        input: bits & 0x1 == 0x1,
        output: bits & 0x4 == 0x4,
        error: bits & 0x8 == 0x8,
        hangup: bits & 0x10 == 0x10,
    }
}

/// Asks `nix::poll::PollFlags::contains` for four flags.
///
/// Trusted: the flags have the values that libc gives them on Linux (`POLLIN`
/// 0x1, `POLLOUT` 0x4, `POLLERR` 0x8, `POLLHUP` 0x10), and a single flag is
/// contained in a word where its bit is set.
#[verifier::external_body]
fn decode_revents(bits: i16) -> (r: Revents)
    ensures
        r == revents_of(bits),
{
    let flags = nix::poll::PollFlags::from_bits_retain(bits);
    Revents {
        input: flags.contains(nix::poll::PollFlags::POLLIN),
        output: flags.contains(nix::poll::PollFlags::POLLOUT),
        error: flags.contains(nix::poll::PollFlags::POLLERR),
        hangup: flags.contains(nix::poll::PollFlags::POLLHUP),
    }
}

/// There is something to read, if only the end of the input or an error. An
/// answer with unknown flags (`None`) counts as no answer.
pub open spec fn is_readable(answer: Option<i16>) -> bool {
    match answer {
        Some(bits) => {
            let r = revents_of(bits);
            r.input || r.hangup || r.error
        },
        None => false,
    }
}

/// There is input, not merely a hangup or an error.
pub open spec fn has_input(answer: Option<i16>) -> bool {
    match answer {
        Some(bits) => revents_of(bits).input,
        None => false,
    }
}

/// A write would not block.
pub open spec fn is_writable(answer: Option<i16>) -> bool {
    match answer {
        Some(bits) => revents_of(bits).output,
        None => false,
    }
}

fn readable(answer: Option<i16>) -> (r: bool)
    ensures
        r == is_readable(answer),
{
    match answer {
        Some(bits) => {
            let r = decode_revents(bits);
            r.input || r.hangup || r.error
        },
        None => false,
    }
}

fn input(answer: Option<i16>) -> (r: bool)
    ensures
        r == has_input(answer),
{
    match answer {
        Some(bits) => decode_revents(bits).input,
        None => false,
    }
}

fn writable(answer: Option<i16>) -> (r: bool)
    ensures
        r == is_writable(answer),
{
    match answer {
        Some(bits) => decode_revents(bits).output,
        None => false,
    }
}

/// What remains to be done after a poll.
#[derive(Clone, Copy, Debug, PartialEq, Eq, Structural)]
pub struct Ready {
    pub signals: bool,
    pub rfcomm_read: bool,
    pub master_read: bool,
    pub master_write: bool,
    pub rfcomm_write: bool,
}

impl PollSet {
    /// What the answers to the poll array of this set allow.
    pub open spec fn spec_ready(self, answers: Seq<Option<i16>>) -> Ready {
        Ready {
            signals: has_input(answers[0]),
            rfcomm_read: self.rfcomm_read && is_readable(answers[self.rfcomm_read_at()]),
            master_read: self.master_read && is_readable(answers[self.master_read_at()]),
            master_write: self.master_write && is_writable(answers[self.master_write_at()]),
            rfcomm_write: self.rfcomm_write && is_writable(answers[self.rfcomm_write_at()]),
        }
    }

    /// What the answers to the poll array of this set allow.
    pub fn ready(&self, answers: &Vec<Option<i16>>) -> (r: Ready)
        requires
            answers@.len() == self.spec_slots().len(),
        ensures
            r == self.spec_ready(answers@),
    {
        proof {
            law_slots_are_found_again(*self);
        }
        let mut next: usize = 1;
        let signals = input(answers[0]);
        let mut rfcomm_read = false;
        if self.rfcomm_read {
            rfcomm_read = readable(answers[next]);
            next += 1;
        }
        let mut master_read = false;
        if self.master_read {
            master_read = readable(answers[next]);
            next += 1;
        }
        let mut master_write = false;
        if self.master_write {
            master_write = writable(answers[next]);
            next += 1;
        }
        let mut rfcomm_write = false;
        if self.rfcomm_write {
            rfcomm_write = writable(answers[next]);
        }
        Ready { signals, rfcomm_read, master_read, master_write, rfcomm_write }
    }
}

/// What the shuttle waits for.
#[derive(Clone, Copy, Debug, PartialEq, Eq, Structural)]
pub enum Phase {
    /// To be started.
    Starting,
    /// The answer of a poll.
    Polling(PollSet),
    /// Whether the child is gone, after a poll that timed out.
    ReapingAfterTimeout,
    /// Whether the child is gone, after its signal.
    ReapingAfterSignal(Ready),
    /// Bytes of the peer.
    ReadingRfcomm(Ready),
    /// Bytes of the login session.
    ReadingMaster(Ready),
    /// A write to the login session.
    WritingMaster(Ready),
    /// A write to the peer.
    WritingRfcomm,
    /// Nothing: it is over.
    Finished,
}

/// An answer to an action.
#[derive(Debug)]
pub enum Event {
    /// The session begins.
    Start,
    /// The poll failed with this error number.
    PollFailed(i32),
    /// The poll timed out.
    PollTimedOut,
    /// The poll returned, with these answers to its array.
    PollReturned(Vec<Option<i16>>),
    /// Whether this look found the child gone. A later look that finds no
    /// child to reap takes nothing back.
    Reaped(bool),
    /// What was read.
    Read(ReadOutcome),
    /// What was written.
    Wrote(WriteOutcome),
}

/// What is to be done next.
#[derive(Clone, Copy, Debug, PartialEq, Eq, Structural)]
pub enum Action {
    /// Poll the slots of the set for `POLL_TIMEOUT_MS`.
    Poll(PollSet),
    /// Look whether the child is gone, without waiting.
    Reap,
    /// Read the signal descriptor once, then look whether the child is gone.
    TakeSignalAndReap,
    /// Read at most `max` bytes.
    Read { from: Endpoint, max: usize },
    /// Write the pending bytes for this endpoint.
    Write { to: Endpoint },
    /// Send the child a hangup signal, and end with this exit code.
    HangUp(u8),
    /// End with this exit code.
    Exit(u8),
}

/// The state of a shuttle.
#[verifier::ext_equal]
pub struct Session {
    /// From the peer, for the login session.
    pub to_master: Queue,
    /// From the login session, for the peer.
    pub to_rfcomm: Queue,
    pub child_exited: bool,
    pub phase: Phase,
}

impl Session {
    pub open spec fn wf(self) -> bool {
        &&& self.to_master.wf()
        &&& self.to_rfcomm.wf()
        &&& match self.phase {
            Phase::Polling(set) => set == self.wanted(),
            Phase::ReapingAfterSignal(ready) => self.can(ready),
            Phase::ReadingRfcomm(ready) => self.to_master.room() > 0 && self.can_read_master(ready)
                && self.can_write(ready),
            Phase::ReadingMaster(ready) => self.to_rfcomm.room() > 0 && self.can_write(ready),
            Phase::WritingMaster(ready) => self.to_master.has_data() && (ready.rfcomm_write
                ==> self.to_rfcomm.has_data()),
            Phase::WritingRfcomm => self.to_rfcomm.has_data(),
            _ => true,
        }
    }

    pub open spec fn can_read_master(self, ready: Ready) -> bool {
        ready.master_read ==> self.to_rfcomm.has_space()
    }

    pub open spec fn can_write(self, ready: Ready) -> bool {
        &&& ready.master_write ==> self.to_master.has_data()
        &&& ready.rfcomm_write ==> self.to_rfcomm.has_data()
    }

    /// The buffers have the space and the data for what `ready` allows.
    pub open spec fn can(self, ready: Ready) -> bool {
        &&& ready.rfcomm_read ==> self.to_master.has_space()
        &&& self.can_read_master(ready)
        &&& self.can_write(ready)
    }

    pub open spec fn in_phase(self, phase: Phase) -> Session {
        Session { phase, ..self }
    }

    /// The child is gone and every byte has been passed on.
    pub open spec fn drained(self) -> bool {
        self.child_exited && !self.to_master.has_data() && !self.to_rfcomm.has_data()
    }

    /// What to poll for: input where there is space for it (of the peer only
    /// while the child lives), output where there is data.
    pub open spec fn wanted(self) -> PollSet {
        PollSet {
            rfcomm_read: self.to_master.has_space() && !self.child_exited,
            master_read: self.to_rfcomm.has_space(),
            master_write: self.to_master.has_data(),
            rfcomm_write: self.to_rfcomm.has_data(),
        }
    }

    pub open spec fn ends(self, code: u8) -> (Session, Action) {
        (self.in_phase(Phase::Finished), Action::Exit(code))
    }

    /// The beginning of a round.
    pub open spec fn round(self) -> (Session, Action) {
        if self.drained() {
            self.ends(0)
        } else {
            (self.in_phase(Phase::Polling(self.wanted())), Action::Poll(self.wanted()))
        }
    }

    /// The rest of a round, from its last part on.
    pub open spec fn from_write_rfcomm(self, ready: Ready) -> (Session, Action) {
        if ready.rfcomm_write {
            (self.in_phase(Phase::WritingRfcomm), Action::Write { to: Endpoint::Rfcomm })
        } else {
            self.round()
        }
    }

    /// The rest of a round, from the write to the login session on.
    pub open spec fn from_write_master(self, ready: Ready) -> (Session, Action) {
        if ready.master_write {
            (self.in_phase(Phase::WritingMaster(ready)), Action::Write { to: Endpoint::Master })
        } else {
            self.from_write_rfcomm(ready)
        }
    }

    /// The rest of a round, from the read of the login session on.
    pub open spec fn from_read_master(self, ready: Ready) -> (Session, Action) {
        if ready.master_read {
            let to_rfcomm = self.to_rfcomm.compacted();
            (
                Session { to_rfcomm, phase: Phase::ReadingMaster(ready), ..self },
                Action::Read { from: Endpoint::Master, max: to_rfcomm.room() as usize },
            )
        } else {
            self.from_write_master(ready)
        }
    }

    /// The rest of a round, from the read of the peer on.
    pub open spec fn from_read_rfcomm(self, ready: Ready) -> (Session, Action) {
        if ready.rfcomm_read {
            let to_master = self.to_master.compacted();
            (
                Session { to_master, phase: Phase::ReadingRfcomm(ready), ..self },
                Action::Read { from: Endpoint::Rfcomm, max: to_master.room() as usize },
            )
        } else {
            self.from_read_master(ready)
        }
    }

    /// `event` is an answer to what the shuttle waits for. No more bytes can
    /// be read than were asked for, nor written than were pending.
    pub open spec fn awaits(self, event: Event) -> bool {
        match self.phase {
            Phase::Starting => event is Start,
            Phase::Polling(set) => event is PollFailed || event is PollTimedOut || (
            event matches Event::PollReturned(answers) && answers@.len()
                == set.spec_slots().len()),
            Phase::ReapingAfterTimeout => event is Reaped,
            Phase::ReapingAfterSignal(_) => event is Reaped,
            Phase::ReadingRfcomm(_) => event matches Event::Read(outcome) && bytes_read(
                outcome,
            ).len() <= self.to_master.room(),
            Phase::ReadingMaster(_) => event matches Event::Read(outcome) && bytes_read(
                outcome,
            ).len() <= self.to_rfcomm.room(),
            Phase::WritingMaster(_) => event matches Event::Wrote(outcome) && bytes_written(outcome)
                <= self.to_master.bytes.len(),
            Phase::WritingRfcomm => event matches Event::Wrote(outcome) && bytes_written(outcome)
                <= self.to_rfcomm.bytes.len(),
            Phase::Finished => false,
        }
    }

    /// After a poll. One that a signal interrupted is made again.
    pub open spec fn after_poll(self, set: PollSet, event: Event) -> (Session, Action) {
        match event {
            Event::PollFailed(errno) => if kind_of(errno) is Interrupted {
                self.round()
            } else {
                self.ends(1)
            },
            Event::PollTimedOut => if self.child_exited {
                self.round()
            } else {
                (self.in_phase(Phase::ReapingAfterTimeout), Action::Reap)
            },
            Event::PollReturned(answers) => {
                let ready = set.spec_ready(answers@);
                if ready.signals {
                    (
                        self.in_phase(Phase::ReapingAfterSignal(ready)),
                        Action::TakeSignalAndReap,
                    )
                } else {
                    self.from_read_rfcomm(ready)
                }
            },
            _ => arbitrary(),
        }
    }

    /// After a read of the peer: anything but bytes or a read that would block
    /// means that the peer is gone.
    pub open spec fn after_read_rfcomm(self, ready: Ready, outcome: ReadOutcome) -> (
        Session,
        Action,
    ) {
        let s = Session { to_master: self.to_master.extended(bytes_read(outcome)), ..self };
        match read_meaning(outcome) {
            ReadResult::Progress => s.from_read_master(ready),
            ReadResult::WouldBlock => s.from_read_master(ready),
            _ => (s.in_phase(Phase::Finished), Action::HangUp(0)),
        }
    }

    /// After a read of the login session. Its end or an error is final only
    /// once the child is gone, and `EIO` never is: login hangs the slave up and
    /// opens it again.
    pub open spec fn after_read_master(self, ready: Ready, outcome: ReadOutcome) -> (
        Session,
        Action,
    ) {
        let s = Session { to_rfcomm: self.to_rfcomm.extended(bytes_read(outcome)), ..self };
        let over = read_meaning(outcome) is Eof || read_meaning(outcome) is Error;
        if over && self.child_exited {
            s.ends(0)
        } else {
            s.from_write_master(ready)
        }
    }

    /// The next state and the next action.
    pub open spec fn next(self, event: Event) -> (Session, Action)
        recommends
            self.awaits(event),
    {
        match (self.phase, event) {
            (Phase::Starting, Event::Start) => self.round(),
            (Phase::Polling(set), _) => self.after_poll(set, event),
            (Phase::ReapingAfterTimeout, Event::Reaped(gone)) => (Session {
                child_exited: self.child_exited || gone,
                ..self
            }).round(),
            (Phase::ReapingAfterSignal(ready), Event::Reaped(gone)) => (Session {
                child_exited: self.child_exited || gone,
                ..self
            }).from_read_rfcomm(ready),
            (Phase::ReadingRfcomm(ready), Event::Read(outcome)) => self.after_read_rfcomm(
                ready,
                outcome,
            ),
            (Phase::ReadingMaster(ready), Event::Read(outcome)) => self.after_read_master(
                ready,
                outcome,
            ),
            (Phase::WritingMaster(ready), Event::Wrote(outcome)) => (Session {
                to_master: self.to_master.consumed(bytes_written(outcome)),
                ..self
            }).from_write_rfcomm(ready),
            (Phase::WritingRfcomm, Event::Wrote(outcome)) => (Session {
                to_rfcomm: self.to_rfcomm.consumed(bytes_written(outcome)),
                ..self
            }).round(),
            _ => arbitrary(),
        }
    }
}

/// Passes bytes between the peer and the login session, both ways.
pub struct Shuttle {
    rfcomm_to_master: Buffer,
    master_to_rfcomm: Buffer,
    child_exited: bool,
    phase: Phase,
}

impl View for Shuttle {
    type V = Session;

    closed spec fn view(&self) -> Session {
        Session {
            to_master: self.rfcomm_to_master@,
            to_rfcomm: self.master_to_rfcomm@,
            child_exited: self.child_exited,
            phase: self.phase,
        }
    }
}

impl Shuttle {
    pub closed spec fn wf(&self) -> bool {
        &&& self.rfcomm_to_master.wf()
        &&& self.master_to_rfcomm.wf()
        &&& self@.wf()
    }

    /// A well-formed shuttle shows a well-formed session.
    pub proof fn lemma_view_wf(&self)
        requires
            self.wf(),
        ensures
            self@.wf(),
    {
    }

    spec fn buffers_wf(&self) -> bool {
        &&& self.rfcomm_to_master.wf()
        &&& self.master_to_rfcomm.wf()
    }

    /// Well-formed buffers show well-formed queues.
    proof fn lemma_queues_wf(&self)
        requires
            self.buffers_wf(),
        ensures
            self@.to_master.wf(),
            self@.to_rfcomm.wf(),
    {
        self.rfcomm_to_master.lemma_view_wf();
        self.master_to_rfcomm.lemma_view_wf();
    }

    /// A shuttle with nothing to pass on.
    pub fn new() -> (r: Self)
        ensures
            r.wf(),
            r@ == (Session {
                to_master: Queue::empty(),
                to_rfcomm: Queue::empty(),
                child_exited: false,
                phase: Phase::Starting,
            }),
    {
        Shuttle {
            rfcomm_to_master: Buffer::new(),
            master_to_rfcomm: Buffer::new(),
            child_exited: false,
            phase: Phase::Starting,
        }
    }

    /// The bytes that `Action::Write` writes to `to`.
    pub fn pending(&self, to: Endpoint) -> (r: &[u8])
        requires
            self.wf(),
            to is Master || to is Rfcomm,
        ensures
            to is Master ==> r@ == self@.to_master.bytes,
            to is Rfcomm ==> r@ == self@.to_rfcomm.bytes,
    {
        match to {
            Endpoint::Master => self.rfcomm_to_master.pending(),
            _ => self.master_to_rfcomm.pending(),
        }
    }

    fn round(&mut self) -> (action: Action)
        requires
            old(self).buffers_wf(),
        ensures
            final(self).wf(),
            (final(self)@, action) == old(self)@.round(),
    {
        proof {
            self.lemma_queues_wf();
        }
        let set = PollSet {
            rfcomm_read: self.rfcomm_to_master.has_space() && !self.child_exited,
            master_read: self.master_to_rfcomm.has_space(),
            master_write: self.rfcomm_to_master.has_data(),
            rfcomm_write: self.master_to_rfcomm.has_data(),
        };
        if self.child_exited && !self.rfcomm_to_master.has_data()
            && !self.master_to_rfcomm.has_data() {
            self.phase = Phase::Finished;
            return Action::Exit(0);
        }
        self.phase = Phase::Polling(set);
        Action::Poll(set)
    }

    fn from_write_rfcomm(&mut self, ready: Ready) -> (action: Action)
        requires
            old(self).buffers_wf(),
            ready.rfcomm_write ==> old(self)@.to_rfcomm.has_data(),
        ensures
            final(self).wf(),
            (final(self)@, action) == old(self)@.from_write_rfcomm(ready),
    {
        proof {
            self.lemma_queues_wf();
        }
        if ready.rfcomm_write {
            self.phase = Phase::WritingRfcomm;
            return Action::Write { to: Endpoint::Rfcomm };
        }
        self.round()
    }

    fn from_write_master(&mut self, ready: Ready) -> (action: Action)
        requires
            old(self).buffers_wf(),
            old(self)@.can_write(ready),
        ensures
            final(self).wf(),
            (final(self)@, action) == old(self)@.from_write_master(ready),
    {
        proof {
            self.lemma_queues_wf();
        }
        if ready.master_write {
            self.phase = Phase::WritingMaster(ready);
            return Action::Write { to: Endpoint::Master };
        }
        self.from_write_rfcomm(ready)
    }

    fn from_read_master(&mut self, ready: Ready) -> (action: Action)
        requires
            old(self).buffers_wf(),
            old(self)@.can_read_master(ready),
            old(self)@.can_write(ready),
        ensures
            final(self).wf(),
            (final(self)@, action) == old(self)@.from_read_master(ready),
    {
        if ready.master_read {
            let max = self.master_to_rfcomm.make_room();
            self.phase = Phase::ReadingMaster(ready);
            proof {
                self.lemma_queues_wf();
            }
            return Action::Read { from: Endpoint::Master, max };
        }
        self.from_write_master(ready)
    }

    fn from_read_rfcomm(&mut self, ready: Ready) -> (action: Action)
        requires
            old(self).buffers_wf(),
            old(self)@.can(ready),
        ensures
            final(self).wf(),
            (final(self)@, action) == old(self)@.from_read_rfcomm(ready),
    {
        if ready.rfcomm_read {
            let max = self.rfcomm_to_master.make_room();
            self.phase = Phase::ReadingRfcomm(ready);
            proof {
                self.lemma_queues_wf();
            }
            return Action::Read { from: Endpoint::Rfcomm, max };
        }
        self.from_read_master(ready)
    }

    /// Ends the session with an exit code.
    fn end(&mut self, code: u8) -> (action: Action)
        requires
            old(self).buffers_wf(),
        ensures
            final(self).wf(),
            (final(self)@, action) == old(self)@.ends(code),
    {
        proof {
            self.lemma_queues_wf();
        }
        self.phase = Phase::Finished;
        Action::Exit(code)
    }

    fn after_poll(&mut self, set: PollSet, event: Event) -> (action: Action)
        requires
            old(self).wf(),
            old(self)@.phase == Phase::Polling(set),
            old(self)@.awaits(event),
        ensures
            final(self).wf(),
            (final(self)@, action) == old(self)@.after_poll(set, event),
    {
        match event {
            Event::PollFailed(errno) => match classify(errno) {
                ErrorKind::Interrupted => self.round(),
                _ => self.end(1),
            },
            Event::PollTimedOut => {
                if self.child_exited {
                    self.round()
                } else {
                    self.phase = Phase::ReapingAfterTimeout;
                    Action::Reap
                }
            },
            Event::PollReturned(answers) => {
                let ready = set.ready(&answers);
                if ready.signals {
                    self.phase = Phase::ReapingAfterSignal(ready);
                    Action::TakeSignalAndReap
                } else {
                    self.from_read_rfcomm(ready)
                }
            },
            _ => {
                assert(false);
                Action::Reap
            },
        }
    }

    fn after_read_rfcomm(&mut self, ready: Ready, outcome: ReadOutcome) -> (action: Action)
        requires
            old(self).wf(),
            old(self)@.phase == Phase::ReadingRfcomm(ready),
            bytes_read(outcome).len() <= old(self)@.to_master.room(),
        ensures
            final(self).wf(),
            (final(self)@, action) == old(self)@.after_read_rfcomm(ready, outcome),
    {
        match self.rfcomm_to_master.read_from(outcome) {
            ReadResult::Progress | ReadResult::WouldBlock => self.from_read_master(ready),
            _ => {
                self.phase = Phase::Finished;
                proof {
                    self.lemma_queues_wf();
                }
                Action::HangUp(0)
            },
        }
    }

    fn after_read_master(&mut self, ready: Ready, outcome: ReadOutcome) -> (action: Action)
        requires
            old(self).wf(),
            old(self)@.phase == Phase::ReadingMaster(ready),
            bytes_read(outcome).len() <= old(self)@.to_rfcomm.room(),
        ensures
            final(self).wf(),
            (final(self)@, action) == old(self)@.after_read_master(ready, outcome),
    {
        match self.master_to_rfcomm.read_from(outcome) {
            ReadResult::Eof | ReadResult::Error => {
                if self.child_exited {
                    return self.end(0);
                }
            },
            _ => {},
        }
        self.from_write_master(ready)
    }

    /// Takes the answer to the last action (at first `Event::Start`), and says
    /// what to do next.
    pub fn step(&mut self, event: Event) -> (action: Action)
        requires
            old(self).wf(),
            old(self)@.awaits(event),
        ensures
            final(self).wf(),
            (final(self)@, action) == old(self)@.next(event),
    {
        match (self.phase, event) {
            (Phase::Starting, Event::Start) => self.round(),
            (Phase::Polling(set), event) => self.after_poll(set, event),
            (Phase::ReapingAfterTimeout, Event::Reaped(gone)) => {
                self.child_exited = self.child_exited || gone;
                self.round()
            },
            (Phase::ReapingAfterSignal(ready), Event::Reaped(gone)) => {
                self.child_exited = self.child_exited || gone;
                self.from_read_rfcomm(ready)
            },
            (Phase::ReadingRfcomm(ready), Event::Read(outcome)) => self.after_read_rfcomm(
                ready,
                outcome,
            ),
            (Phase::ReadingMaster(ready), Event::Read(outcome)) => self.after_read_master(
                ready,
                outcome,
            ),
            (Phase::WritingMaster(ready), Event::Wrote(outcome)) => {
                self.rfcomm_to_master.write_to(outcome);
                self.from_write_rfcomm(ready)
            },
            (Phase::WritingRfcomm, Event::Wrote(outcome)) => {
                self.master_to_rfcomm.write_to(outcome);
                self.round()
            },
            _ => {
                assert(false);
                Action::Reap
            },
        }
    }
}

} // verus!
