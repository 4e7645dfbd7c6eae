//! What holds of every session, whatever the descriptors do.

use vstd::prelude::*;
use crate::buffer::{
    bytes_read, bytes_written, read_meaning, Queue, ReadOutcome, WriteOutcome, BUF_SIZE,
};
use crate::errno::kind_of;
use crate::shuttle::{
    law_slots_are_found_again, Action, Endpoint, Event, Interest, Phase, PollSet, PollSlot, Ready,
    Session,
};

verus! {

/// The state that a session begins in.
pub open spec fn fresh_session() -> Session {
    Session {
        to_master: Queue::empty(),
        to_rfcomm: Queue::empty(),
        child_exited: false,
        phase: Phase::Starting,
    }
}

/// A session together with all the bytes that went in and came out of it.
#[verifier::ext_equal]
pub struct Ledger {
    pub session: Session,
    /// Read from the peer.
    pub from_rfcomm: Seq<u8>,
    /// Written to the login session.
    pub into_master: Seq<u8>,
    /// Read from the login session.
    pub from_master: Seq<u8>,
    /// Written to the peer.
    pub into_rfcomm: Seq<u8>,
}

impl Ledger {
    /// The books after one more event.
    pub open spec fn next(self, event: Event) -> Ledger {
        let session = self.session.next(event).0;
        match (self.session.phase, event) {
            (Phase::ReadingRfcomm(_), Event::Read(outcome)) => Ledger {
                session,
                from_rfcomm: self.from_rfcomm + bytes_read(outcome),
                ..self
            },
            (Phase::ReadingMaster(_), Event::Read(outcome)) => Ledger {
                session,
                from_master: self.from_master + bytes_read(outcome),
                ..self
            },
            (Phase::WritingMaster(_), Event::Wrote(outcome)) => Ledger {
                session,
                into_master: self.into_master + self.session.to_master.bytes.take(
                    bytes_written(outcome) as int,
                ),
                ..self
            },
            (Phase::WritingRfcomm, Event::Wrote(outcome)) => Ledger {
                session,
                into_rfcomm: self.into_rfcomm + self.session.to_rfcomm.bytes.take(
                    bytes_written(outcome) as int,
                ),
                ..self
            },
            _ => Ledger { session, ..self },
        }
    }

    /// The books after `events`.
    pub open spec fn after(self, events: Seq<Event>) -> Ledger
        decreases events.len(),
    {
        if events.len() == 0 {
            self
        } else {
            self.next(events[0]).after(events.drop_first())
        }
    }

    /// `events` are answers to what the session asks for.
    pub open spec fn answers(self, events: Seq<Event>) -> bool
        decreases events.len(),
    {
        events.len() > 0 ==> self.session.awaits(events[0]) && self.next(events[0]).answers(
            events.drop_first(),
        )
    }

    /// What was read is what was written and, behind it, what still waits.
    pub open spec fn balanced(self) -> bool {
        &&& self.from_rfcomm == self.into_master + self.session.to_master.bytes
        &&& self.from_master == self.into_rfcomm + self.session.to_rfcomm.bytes
    }
}

/// The books of a session that has not begun.
pub open spec fn fresh_ledger() -> Ledger {
    Ledger {
        session: fresh_session(),
        from_rfcomm: Seq::empty(),
        into_master: Seq::empty(),
        from_master: Seq::empty(),
        into_rfcomm: Seq::empty(),
    }
}

proof fn lemma_from_write_master_wf(s: Session, ready: Ready)
    requires
        s.to_master.wf(),
        s.to_rfcomm.wf(),
        s.can_write(ready),
    ensures
        s.from_write_master(ready).0.wf(),
{
}

proof fn lemma_from_read_master_wf(s: Session, ready: Ready)
    requires
        s.to_master.wf(),
        s.to_rfcomm.wf(),
        s.can_read_master(ready),
        s.can_write(ready),
    ensures
        s.from_read_master(ready).0.wf(),
{
    lemma_from_write_master_wf(s, ready);
}

proof fn lemma_rest_of_round_wf(s: Session, ready: Ready)
    requires
        s.to_master.wf(),
        s.to_rfcomm.wf(),
        s.can(ready),
    ensures
        s.from_read_rfcomm(ready).0.wf(),
{
    lemma_from_read_master_wf(s, ready);
}

/// A step leads from a well-formed state to a well-formed state.
pub proof fn law_steps_keep_sessions_well_formed(session: Session, event: Event)
    requires
        session.wf(),
        session.awaits(event),
    ensures
        session.next(event).0.wf(),
{
    match (session.phase, event) {
        (Phase::Polling(set), Event::PollReturned(answers)) => {
            let ready = set.spec_ready(answers@);
            lemma_rest_of_round_wf(session, ready);
        },
        (Phase::ReapingAfterSignal(ready), Event::Reaped(gone)) => {
            lemma_rest_of_round_wf(
                Session { child_exited: session.child_exited || gone, ..session },
                ready,
            );
        },
        (Phase::ReadingRfcomm(ready), Event::Read(outcome)) => {
            let s = Session {
                to_master: session.to_master.extended(bytes_read(outcome)),
                ..session
            };
            lemma_from_read_master_wf(s, ready);
        },
        (Phase::ReadingMaster(ready), Event::Read(outcome)) => {
            let s = Session {
                to_rfcomm: session.to_rfcomm.extended(bytes_read(outcome)),
                ..session
            };
            lemma_from_write_master_wf(s, ready);
        },
        _ => {},
    }
}

proof fn lemma_step_balanced(ledger: Ledger, event: Event)
    requires
        ledger.session.wf(),
        ledger.session.awaits(event),
        ledger.balanced(),
    ensures
        ledger.next(event).balanced(),
{
    let s = ledger.session;
    let after = ledger.next(event);
    match (s.phase, event) {
        (Phase::ReadingRfcomm(_), Event::Read(outcome)) => {
            assert(after.session.to_master.bytes == s.to_master.bytes + bytes_read(outcome));
            assert(after.from_rfcomm =~= after.into_master + after.session.to_master.bytes);
        },
        (Phase::ReadingMaster(_), Event::Read(outcome)) => {
            assert(after.session.to_rfcomm.bytes == s.to_rfcomm.bytes + bytes_read(outcome));
            assert(after.from_master =~= after.into_rfcomm + after.session.to_rfcomm.bytes);
        },
        (Phase::WritingMaster(_), Event::Wrote(outcome)) => {
            let n = bytes_written(outcome) as int;
            assert(after.session.to_master.bytes == s.to_master.bytes.skip(n));
            assert(s.to_master.bytes =~= s.to_master.bytes.take(n) + s.to_master.bytes.skip(n));
            assert(after.from_rfcomm =~= after.into_master + after.session.to_master.bytes);
        },
        (Phase::WritingRfcomm, Event::Wrote(outcome)) => {
            let n = bytes_written(outcome) as int;
            assert(after.session.to_rfcomm.bytes == s.to_rfcomm.bytes.skip(n));
            assert(s.to_rfcomm.bytes =~= s.to_rfcomm.bytes.take(n) + s.to_rfcomm.bytes.skip(n));
            assert(after.from_master =~= after.into_rfcomm + after.session.to_rfcomm.bytes);
        },
        _ => {},
    }
}

proof fn lemma_run_balanced(ledger: Ledger, events: Seq<Event>)
    requires
        ledger.session.wf(),
        ledger.balanced(),
        ledger.answers(events),
    ensures
        ledger.after(events).session.wf(),
        ledger.after(events).balanced(),
    decreases events.len(),
{
    if events.len() > 0 {
        law_steps_keep_sessions_well_formed(ledger.session, events[0]);
        lemma_step_balanced(ledger, events[0]);
        lemma_run_balanced(ledger.next(events[0]), events.drop_first());
    }
}

/// No byte is lost, added, changed or moved: at every moment of every session,
/// what has been read from one side is what has been written to the other
/// side, followed by what still waits in the buffer, of at most `BUF_SIZE` bytes.
pub proof fn law_bytes_pass_unchanged(events: Seq<Event>)
    requires
        fresh_ledger().answers(events),
    ensures
        ({
            let books = fresh_ledger().after(events);
            &&& books.session.wf()
            &&& books.balanced()
            &&& books.into_master.is_prefix_of(books.from_rfcomm)
            &&& books.into_rfcomm.is_prefix_of(books.from_master)
            &&& books.from_rfcomm.len() - books.into_master.len() <= BUF_SIZE
            &&& books.from_master.len() - books.into_rfcomm.len() <= BUF_SIZE
        }),
{
    assert(fresh_ledger().balanced());
    lemma_run_balanced(fresh_ledger(), events);
}

/// A session in which nothing waits has passed on every byte that it read, in
/// both directions.
pub proof fn law_drained_session_passed_everything_on(events: Seq<Event>)
    requires
        fresh_ledger().answers(events),
        fresh_ledger().after(events).session.to_master.bytes.len() == 0,
        fresh_ledger().after(events).session.to_rfcomm.bytes.len() == 0,
    ensures
        ({
            let books = fresh_ledger().after(events);
            &&& books.into_master == books.from_rfcomm
            &&& books.into_rfcomm == books.from_master
        }),
{
    law_bytes_pass_unchanged(events);
    let books = fresh_ledger().after(events);
    assert(books.into_master + books.session.to_master.bytes =~= books.into_master);
    assert(books.into_rfcomm + books.session.to_rfcomm.bytes =~= books.into_rfcomm);
}

/// A session is over exactly when it says so, with exit code 1 only for a poll
/// that failed and was not interrupted, and with 0 otherwise.
pub proof fn law_exit_codes(session: Session, event: Event)
    requires
        session.wf(),
        session.awaits(event),
    ensures
        ({
            let (after, action) = session.next(event);
            &&& after.phase is Finished <==> (action is Exit || action is HangUp)
            &&& action matches Action::Exit(code) ==> code == 0 || code == 1
            &&& action matches Action::HangUp(code) ==> code == 0
            &&& action == Action::Exit(1) <==> (event matches Event::PollFailed(errno) && !(kind_of(
                errno,
            ) is Interrupted))
        }),
{
}

/// The child is sent a hangup exactly when the peer is gone: a read of the
/// rfcomm tty that gave the end of the input or an error other than "would block".
pub proof fn law_child_is_hung_up_when_the_peer_is_gone(session: Session, event: Event)
    requires
        session.wf(),
        session.awaits(event),
    ensures
        session.next(event).1 is HangUp <==> (session.phase is ReadingRfcomm && (
        event matches Event::Read(outcome) && (read_meaning(outcome) is Eof || read_meaning(
            outcome,
        ) is Eio || read_meaning(outcome) is Error))),
{
}

/// Once the child is gone it stays gone, through everything that follows.
pub proof fn law_gone_child_stays_gone(ledger: Ledger, events: Seq<Event>)
    requires
        ledger.session.wf(),
        ledger.session.child_exited,
        ledger.answers(events),
    ensures
        ledger.after(events).session.child_exited,
    decreases events.len(),
{
    if events.len() > 0 {
        law_steps_keep_sessions_well_formed(ledger.session, events[0]);
        law_only_reaping_tells_of_the_child(ledger.session, events[0]);
        law_gone_child_stays_gone(ledger.next(events[0]), events.drop_first());
    }
}

/// Nothing is polled for once the child is gone and every byte has been passed
/// on.
pub proof fn law_drained_session_polls_no_more(session: Session, event: Event)
    requires
        session.wf(),
        session.awaits(event),
        session.next(event).1 is Poll,
    ensures
        ({
            let after = session.next(event).0;
            !after.child_exited || after.to_master.bytes.len() > 0 || after.to_rfcomm.bytes.len()
                > 0
        }),
{
}

/// The hangup of the PTY slave is survived: no answer of the master ends a
/// session while the child lives.
pub proof fn law_session_outlives_vhangup(session: Session, event: Event)
    requires
        session.wf(),
        session.phase is ReadingMaster,
        session.awaits(event),
        !session.child_exited,
    ensures
        !(session.next(event).0.phase is Finished),
{
}

/// `EIO` on the master is passing, the child alive or not, and while the child
/// lives so are the end of the input and any other error: each counts as a
/// read that would block.
pub proof fn law_master_failures_are_passing(
    session: Session,
    outcome: ReadOutcome,
    would_block: ReadOutcome,
)
    requires
        session.wf(),
        session.phase is ReadingMaster,
        session.awaits(Event::Read(outcome)),
        read_meaning(would_block) is WouldBlock,
        read_meaning(outcome) is Eio || (!session.child_exited && !(read_meaning(
            outcome,
        ) is Progress)),
    ensures
        session.next(Event::Read(outcome)) == session.next(Event::Read(would_block)),
{
    assert(bytes_read(outcome) =~= Seq::<u8>::empty());
    assert(bytes_read(would_block) =~= Seq::<u8>::empty());
}

/// Input of the peer is not polled for once the child is gone, every read asks
/// for at least one byte and no more than fit, and every write has something
/// to write.
pub proof fn law_operations_are_useful(session: Session, event: Event)
    requires
        session.wf(),
        session.awaits(event),
    ensures
        ({
            let (after, action) = session.next(event);
            &&& action matches Action::Poll(set) ==> {
                &&& set == after.wanted()
                &&& set.rfcomm_read ==> !after.child_exited
                &&& set.rfcomm_read ==> after.to_master.has_space()
                &&& set.master_read ==> after.to_rfcomm.has_space()
            }
            &&& action matches Action::Read { from, max } ==> {
                &&& 0 < max <= BUF_SIZE
                &&& from is Rfcomm ==> max == after.to_master.room()
                &&& from is Master ==> max == after.to_rfcomm.room()
                &&& from is Rfcomm || from is Master
            }
            &&& action matches Action::Write { to } ==> {
                &&& to is Master ==> after.to_master.has_data()
                &&& to is Rfcomm ==> after.to_rfcomm.has_data()
                &&& to is Rfcomm || to is Master
            }
        }),
{
}

/// No direction stalls: whatever the buffers hold, bytes of the login session
/// are always either read or written on, and so are those of the peer while the
/// child lives.
pub proof fn law_no_direction_stalls(session: Session)
    requires
        session.wf(),
    ensures
        session.wanted().master_read || session.wanted().rfcomm_write,
        session.wanted().rfcomm_read || session.wanted().master_write || session.child_exited,
{
}

/// A session ends with exit code 0 only once the child is gone, and then only
/// with nothing left to pass on, or with the login session at its end or broken.
pub proof fn law_orderly_end(session: Session, event: Event)
    requires
        session.wf(),
        session.awaits(event),
        session.next(event).1 == Action::Exit(0),
    ensures
        session.next(event).0.child_exited,
        (session.next(event).0.to_master.bytes.len() == 0 && session.next(
            event,
        ).0.to_rfcomm.bytes.len() == 0) || (session.phase is ReadingMaster && (
        event matches Event::Read(outcome) && match outcome {
            ReadOutcome::Bytes(bytes) => bytes@.len() == 0,
            ReadOutcome::Failed(errno) => errno != 5 && errno != 11,
        })),
{
}

/// Whether the child is gone is learned from reaping alone, and is never
/// forgotten, whatever a later look gives.
pub proof fn law_only_reaping_tells_of_the_child(session: Session, event: Event)
    requires
        session.wf(),
        session.awaits(event),
    ensures
        session.next(event).0.child_exited == match event {
            Event::Reaped(gone) => session.child_exited || gone,
            _ => session.child_exited,
        },
{
}

impl Session {
    /// What a session does while it is given `events`.
    pub open spec fn does(self, events: Seq<Event>) -> Seq<Action>
        decreases events.len(),
    {
        if events.len() == 0 {
            seq![]
        } else {
            seq![self.next(events[0]).1] + self.next(events[0]).0.does(events.drop_first())
        }
    }

    /// `events` are answers to what the session asks for.
    pub open spec fn takes(self, events: Seq<Event>) -> bool
        decreases events.len(),
    {
        events.len() > 0 ==> self.awaits(events[0]) && self.next(events[0]).0.takes(
            events.drop_first(),
        )
    }
}

proof fn lemma_one_action_each(session: Session, events: Seq<Event>)
    ensures
        session.does(events).len() == events.len(),
    decreases events.len(),
{
    if events.len() > 0 {
        lemma_one_action_each(session.next(events[0]).0, events.drop_first());
    }
}

/// `action` ends a round: another poll begins the next one, or the session is
/// over.
pub open spec fn closes_round(action: Action) -> bool {
    action is Poll || action is Exit || action is HangUp
}

/// The place of an action in the order of a round.
pub open spec fn place(action: Action) -> int {
    match action {
        Action::TakeSignalAndReap => 0,
        Action::Read { from: Endpoint::Rfcomm, max: _ } => 1,
        Action::Read { from: Endpoint::Master, max: _ } => 2,
        Action::Write { to: Endpoint::Master } => 3,
        Action::Write { to: Endpoint::Rfcomm } => 4,
        Action::Poll(_) | Action::Exit(_) | Action::HangUp(_) => 5,
        _ => -1,
    }
}

/// The answers to the poll array of `set` have all bits of `flag` set at the
/// entry for `interest` in `endpoint`.
pub open spec fn reported(
    set: PollSet,
    answers: Seq<Option<i16>>,
    endpoint: Endpoint,
    interest: Interest,
    flag: i16,
) -> bool {
    exists|i: int|
        0 <= i < set.spec_slots().len() && #[trigger] set.spec_slots()[i] == (PollSlot {
            endpoint,
            interest,
        }) && (answers[i] matches Some(bits) && bits & flag == flag)
}

/// Input, an error or a hangup was reported of `endpoint`.
pub open spec fn reported_readable(
    set: PollSet,
    answers: Seq<Option<i16>>,
    endpoint: Endpoint,
) -> bool {
    ||| reported(set, answers, endpoint, Interest::Read, 0x1)
    ||| reported(set, answers, endpoint, Interest::Read, 0x8)
    ||| reported(set, answers, endpoint, Interest::Read, 0x10)
}

/// Something is read from `endpoint`.
pub open spec fn reads_from(actions: Seq<Action>, endpoint: Endpoint) -> bool {
    exists|i: int|
        0 <= i < actions.len() && (#[trigger] actions[i] matches Action::Read { from, max: _ }
            && from == endpoint)
}

spec fn occurs(actions: Seq<Action>, at: int) -> bool {
    exists|i: int| 0 <= i < actions.len() && place(#[trigger] actions[i]) == at
}

proof fn lemma_occurs_cons(head: Action, tail: Seq<Action>, at: int)
    ensures
        occurs(seq![head] + tail, at) <==> place(head) == at || occurs(tail, at),
{
    let all = seq![head] + tail;
    assert(all[0] == head);
    assert forall|i: int| 0 <= i < tail.len() implies #[trigger] tail[i] == all[i + 1] by {}
    if occurs(tail, at) {
        let i = choose|i: int| 0 <= i < tail.len() && place(#[trigger] tail[i]) == at;
        assert(place(all[i + 1]) == at);
    }
    if occurs(all, at) && place(head) != at {
        let i = choose|i: int| 0 <= i < all.len() && place(#[trigger] all[i]) == at;
        assert(tail[i - 1] == all[i]);
    }
}

/// What is still to be done in a round.
spec fn owed(phase: Phase, at: int) -> bool {
    match phase {
        Phase::ReapingAfterSignal(r) => (at == 1 && r.rfcomm_read) || (at == 2 && r.master_read)
            || (at == 3 && r.master_write) || (at == 4 && r.rfcomm_write),
        Phase::ReadingRfcomm(r) => (at == 2 && r.master_read) || (at == 3 && r.master_write) || (at
            == 4 && r.rfcomm_write),
        Phase::ReadingMaster(r) => (at == 3 && r.master_write) || (at == 4 && r.rfcomm_write),
        Phase::WritingMaster(r) => at == 4 && r.rfcomm_write,
        _ => false,
    }
}

spec fn place_of(phase: Phase) -> int {
    match phase {
        Phase::ReapingAfterSignal(_) => 0,
        Phase::ReadingRfcomm(_) => 1,
        Phase::ReadingMaster(_) => 2,
        Phase::WritingMaster(_) => 3,
        Phase::WritingRfcomm => 4,
        Phase::Polling(_) => 5,
        Phase::Finished => 5,
        _ => -1,
    }
}

/// Each of `actions` comes after `from` in the order of a round, and after
/// those before it.
spec fn ordered(actions: Seq<Action>, from: int) -> bool {
    &&& forall|i: int| 0 <= i < actions.len() ==> from < place(#[trigger] actions[i])
    &&& forall|i: int, j: int|
        0 <= i < j < actions.len() ==> place(#[trigger] actions[i]) < place(#[trigger] actions[j])
}

proof fn lemma_ordered_cons(head: Action, tail: Seq<Action>, from: int)
    requires
        from < place(head),
        ordered(tail, place(head)),
    ensures
        ordered(seq![head] + tail, from),
{
    let all = seq![head] + tail;
    assert forall|i: int| 0 <= i < all.len() implies from < place(#[trigger] all[i]) by {
        if i > 0 {
            assert(all[i] == tail[i - 1]);
        }
    }
    assert forall|i: int, j: int| 0 <= i < j < all.len() implies place(#[trigger] all[i]) < place(
        #[trigger] all[j],
    ) by {
        assert(all[j] == tail[j - 1]);
        if i > 0 {
            assert(all[i] == tail[i - 1]);
        }
    }
}

/// A read ended the session in the middle of the round.
pub open spec fn cut_short(events: Seq<Event>, actions: Seq<Action>) -> bool {
    events.last() is Read && !(actions.last() is Poll)
}

/// One step in the middle of a round.
proof fn lemma_step_in_round(session: Session, event: Event)
    requires
        session.wf(),
        session.awaits(event),
        0 <= place_of(session.phase) <= 4,
    ensures
        ({
            let (after, action) = session.next(event);
            &&& after.wf()
            &&& place_of(after.phase) == place(action)
            &&& place_of(session.phase) < place(action)
            &&& closes_round(action) <==> place(action) == 5
            &&& place(action) < 5 ==> owed(session.phase, place(action))
            &&& forall|at: int| #[trigger]
                owed(after.phase, at) ==> owed(session.phase, at)
            &&& forall|at: int| #[trigger]
                owed(session.phase, at) ==> at == place(action) || owed(after.phase, at) || (
                event is Read && (action is Exit || action is HangUp))
            &&& owed(session.phase, 1) ==> place(action) == 1
        }),
{
    law_steps_keep_sessions_well_formed(session, event);
}

proof fn lemma_rest_of_round(session: Session, events: Seq<Event>)
    requires
        session.wf(),
        0 <= place_of(session.phase) <= 4,
        session.takes(events),
        forall|i: int|
            0 <= i < events.len() - 1 ==> !closes_round(#[trigger] session.does(events)[i]),
    ensures
        ({
            let actions = session.does(events);
            &&& actions.len() == events.len()
            &&& ordered(actions, place_of(session.phase))
            &&& forall|at: int| at < 5 && #[trigger] occurs(actions, at) ==> owed(session.phase, at)
            &&& actions.len() > 0 && closes_round(actions.last()) ==> {
                &&& forall|at: int| #[trigger]
                    owed(session.phase, at) ==> occurs(actions, at) || cut_short(events, actions)
                &&& owed(session.phase, 1) ==> occurs(actions, 1)
            }
        }),
    decreases events.len(),
{
    let actions = session.does(events);
    if events.len() > 0 {
        let (after, action) = session.next(events[0]);
        lemma_step_in_round(session, events[0]);
        let rest = events.drop_first();
        let more = after.does(rest);
        lemma_one_action_each(after, rest);
        assert(actions == seq![action] + more);
        assert(actions[0] == action);
        assert forall|at: int| #[trigger]
            occurs(actions, at) <==> place(action) == at || occurs(more, at) by {
            lemma_occurs_cons(action, more, at);
        }
        if rest.len() > 0 {
            assert(!closes_round(actions[0]));
            assert(after.takes(rest));
            assert forall|i: int| 0 <= i < rest.len() - 1 implies !closes_round(
                #[trigger] after.does(rest)[i],
            ) by {
                assert(actions[i + 1] == more[i]);
            }
            lemma_rest_of_round(after, rest);
            lemma_ordered_cons(action, more, place_of(session.phase));
            assert(more.last() == actions.last());
            assert(rest.last() == events.last());
        } else {
            assert(more =~= seq![]);
            lemma_ordered_cons(action, more, place_of(session.phase));
            assert(actions =~= seq![action]);
        }
    }
}

/// What an answer means at the entry that it is for.
proof fn lemma_reported(set: PollSet, answers: Seq<Option<i16>>)
    requires
        answers.len() == set.spec_slots().len(),
    ensures
        ({
            let r = set.spec_ready(answers);
            &&& r.signals <==> reported(set, answers, Endpoint::Signals, Interest::Read, 0x1)
            &&& r.rfcomm_read <==> reported_readable(set, answers, Endpoint::Rfcomm)
            &&& r.master_read <==> reported_readable(set, answers, Endpoint::Master)
            &&& r.master_write <==> reported(
                set,
                answers,
                Endpoint::Master,
                Interest::Write,
                0x4,
            )
            &&& r.rfcomm_write <==> reported(
                set,
                answers,
                Endpoint::Rfcomm,
                Interest::Write,
                0x4,
            )
        }),
{
    law_slots_are_found_again(set);
    let s = set.spec_slots();
    assert(s[0] == (PollSlot { endpoint: Endpoint::Signals, interest: Interest::Read }));
    if set.rfcomm_read {
        assert(s[set.rfcomm_read_at()].endpoint is Rfcomm);
    }
    if set.master_read {
        assert(s[set.master_read_at()].endpoint is Master);
    }
    if set.master_write {
        assert(s[set.master_write_at()].endpoint is Master);
    }
    if set.rfcomm_write {
        assert(s[set.rfcomm_write_at()].endpoint is Rfcomm);
    }
    assert forall|i: int| 0 <= i < s.len() implies (#[trigger] s[i] == (PollSlot {
        endpoint: Endpoint::Signals,
        interest: Interest::Read,
    }) ==> i == 0) && (s[i] == (PollSlot { endpoint: Endpoint::Rfcomm, interest: Interest::Read })
        ==> set.rfcomm_read && i == set.rfcomm_read_at()) && (s[i] == (PollSlot {
        endpoint: Endpoint::Master,
        interest: Interest::Read,
    }) ==> set.master_read && i == set.master_read_at()) && (s[i] == (PollSlot {
        endpoint: Endpoint::Master,
        interest: Interest::Write,
    }) ==> set.master_write && i == set.master_write_at()) && (s[i] == (PollSlot {
        endpoint: Endpoint::Rfcomm,
        interest: Interest::Write,
    }) ==> set.rfcomm_write && i == set.rfcomm_write_at()) by {}
}

/// A round does what its poll allows, once each and in a fixed order: the
/// signal is taken where there is input on the signal descriptor, each side is
/// read where input, an error or a hangup was reported of it, and the bytes
/// that wait for a side are written where it was reported to be writable.
/// Nothing else is done, and nothing of this is left out, unless a read ends
/// the session before the rest.
pub proof fn law_round_does_what_the_poll_allows(
    session: Session,
    set: PollSet,
    answers: Vec<Option<i16>>,
    events: Seq<Event>,
)
    requires
        session.wf(),
        session.phase == Phase::Polling(set),
        events.len() > 0,
        events[0] == Event::PollReturned(answers),
        session.takes(events),
        forall|i: int|
            0 <= i < events.len() - 1 ==> !closes_round(#[trigger] session.does(events)[i]),
    ensures
        ({
            let actions = session.does(events);
            let take = reported(set, answers@, Endpoint::Signals, Interest::Read, 0x1);
            let to_master = reported(set, answers@, Endpoint::Master, Interest::Write, 0x4);
            let to_rfcomm = reported(set, answers@, Endpoint::Rfcomm, Interest::Write, 0x4);
            &&& actions.len() == events.len() <= 6
            &&& forall|i: int, j: int|
                0 <= i < j < actions.len() ==> 0 <= place(#[trigger] actions[i]) < place(
                    #[trigger] actions[j],
                )
            &&& place(actions[0]) >= 0
            &&& actions.contains(Action::TakeSignalAndReap) ==> take
            &&& reads_from(actions, Endpoint::Rfcomm) ==> reported_readable(
                set,
                answers@,
                Endpoint::Rfcomm,
            )
            &&& reads_from(actions, Endpoint::Master) ==> reported_readable(
                set,
                answers@,
                Endpoint::Master,
            )
            &&& actions.contains(Action::Write { to: Endpoint::Master }) ==> to_master
            &&& actions.contains(Action::Write { to: Endpoint::Rfcomm }) ==> to_rfcomm
            &&& closes_round(actions.last()) ==> {
                &&& take ==> actions.contains(Action::TakeSignalAndReap)
                &&& reported_readable(set, answers@, Endpoint::Rfcomm) ==> reads_from(
                    actions,
                    Endpoint::Rfcomm,
                )
                &&& reported_readable(set, answers@, Endpoint::Master) ==> reads_from(
                    actions,
                    Endpoint::Master,
                ) || cut_short(events, actions)
                &&& to_master ==> actions.contains(Action::Write { to: Endpoint::Master })
                    || cut_short(events, actions)
                &&& to_rfcomm ==> actions.contains(Action::Write { to: Endpoint::Rfcomm })
                    || cut_short(events, actions)
            }
        }),
{
    let actions = session.does(events);
    let (after, action) = session.next(events[0]);
    law_steps_keep_sessions_well_formed(session, events[0]);
    lemma_reported(set, answers@);
    let ready = set.spec_ready(answers@);
    let rest = events.drop_first();
    let more = after.does(rest);
    lemma_one_action_each(after, rest);
    assert(actions == seq![action] + more);
    assert(actions[0] == action);
    assert(place_of(after.phase) == place(action));
    assert(0 <= place(action) <= 5);
    assert forall|at: int| #[trigger]
        occurs(actions, at) <==> place(action) == at || occurs(more, at) by {
        lemma_occurs_cons(action, more, at);
    }
    if rest.len() > 0 {
        assert(!closes_round(actions[0]));
        assert forall|i: int| 0 <= i < rest.len() - 1 implies !closes_round(
            #[trigger] after.does(rest)[i],
        ) by {
            assert(actions[i + 1] == more[i]);
        }
        lemma_rest_of_round(after, rest);
        lemma_ordered_cons(action, more, -1);
        assert(more.last() == actions.last());
        assert(rest.last() == events.last());
    } else {
        assert(more =~= seq![]);
        lemma_ordered_cons(action, more, -1);
        assert(actions =~= seq![action]);
    }
    assert(occurs(actions, 0) ==> ready.signals);
    assert(occurs(actions, 1) ==> ready.rfcomm_read);
    assert(occurs(actions, 2) ==> ready.master_read);
    assert(occurs(actions, 3) ==> ready.master_write);
    assert(occurs(actions, 4) ==> ready.rfcomm_write);
    assert(ready.signals ==> occurs(actions, 0));
    if closes_round(actions.last()) {
        assert(owed(after.phase, 1) ==> occurs(actions, 1));
        assert(owed(after.phase, 2) ==> occurs(actions, 2) || cut_short(events, actions));
        assert(owed(after.phase, 3) ==> occurs(actions, 3) || cut_short(events, actions));
        assert(owed(after.phase, 4) ==> occurs(actions, 4) || cut_short(events, actions));
    }
    lemma_occurs_is(actions);
    lemma_round_is_short(actions);
}

proof fn lemma_occurs_is(actions: Seq<Action>)
    ensures
        occurs(actions, 0) <==> actions.contains(Action::TakeSignalAndReap),
        occurs(actions, 1) <==> reads_from(actions, Endpoint::Rfcomm),
        occurs(actions, 2) <==> reads_from(actions, Endpoint::Master),
        occurs(actions, 3) <==> actions.contains(Action::Write { to: Endpoint::Master }),
        occurs(actions, 4) <==> actions.contains(Action::Write { to: Endpoint::Rfcomm }),
{
    if actions.contains(Action::TakeSignalAndReap) {
        let i = actions.index_of(Action::TakeSignalAndReap);
        assert(place(actions[i]) == 0);
    }
    if actions.contains(Action::Write { to: Endpoint::Master }) {
        let i = actions.index_of(Action::Write { to: Endpoint::Master });
        assert(place(actions[i]) == 3);
    }
    if actions.contains(Action::Write { to: Endpoint::Rfcomm }) {
        let i = actions.index_of(Action::Write { to: Endpoint::Rfcomm });
        assert(place(actions[i]) == 4);
    }
    if occurs(actions, 0) {
        let i = choose|i: int| 0 <= i < actions.len() && place(#[trigger] actions[i]) == 0;
        assert(actions[i] == Action::TakeSignalAndReap);
    }
    if occurs(actions, 3) {
        let i = choose|i: int| 0 <= i < actions.len() && place(#[trigger] actions[i]) == 3;
        assert(actions[i] == Action::Write { to: Endpoint::Master });
    }
    if occurs(actions, 4) {
        let i = choose|i: int| 0 <= i < actions.len() && place(#[trigger] actions[i]) == 4;
        assert(actions[i] == Action::Write { to: Endpoint::Rfcomm });
    }
    if occurs(actions, 1) {
        let i = choose|i: int| 0 <= i < actions.len() && place(#[trigger] actions[i]) == 1;
        assert(actions[i] matches Action::Read { from, max: _ } && from == Endpoint::Rfcomm);
    }
    if occurs(actions, 2) {
        let i = choose|i: int| 0 <= i < actions.len() && place(#[trigger] actions[i]) == 2;
        assert(actions[i] matches Action::Read { from, max: _ } && from == Endpoint::Master);
    }
    if reads_from(actions, Endpoint::Rfcomm) {
        let i = choose|i: int|
            0 <= i < actions.len() && (#[trigger] actions[i] matches Action::Read { from, max: _ }
                && from == Endpoint::Rfcomm);
        assert(place(actions[i]) == 1);
    }
    if reads_from(actions, Endpoint::Master) {
        let i = choose|i: int|
            0 <= i < actions.len() && (#[trigger] actions[i] matches Action::Read { from, max: _ }
                && from == Endpoint::Master);
        assert(place(actions[i]) == 2);
    }
}

proof fn lemma_round_is_short(actions: Seq<Action>)
    requires
        ordered(actions, -1),
    ensures
        actions.len() <= 6,
{
    if actions.len() > 6 {
        assert(place(actions[0]) < place(actions[1]) < place(actions[2]) < place(actions[3])
            < place(actions[4]) < place(actions[5]) < place(actions[6]));
    }
}

/// Bytes that wait are passed on as soon as they can be: where bytes wait for a
/// side and the poll reports that side to be writable, the round writes them,
/// unless a read in it ends the session.
pub proof fn law_waiting_bytes_are_written(
    session: Session,
    set: PollSet,
    answers: Vec<Option<i16>>,
    events: Seq<Event>,
    side: Endpoint,
)
    requires
        session.wf(),
        session.phase == Phase::Polling(set),
        events.len() > 0,
        events[0] == Event::PollReturned(answers),
        session.takes(events),
        forall|i: int|
            0 <= i < events.len() - 1 ==> !closes_round(#[trigger] session.does(events)[i]),
        closes_round(session.does(events).last()),
        !cut_short(events, session.does(events)),
        side is Master ==> session.to_master.bytes.len() > 0,
        side is Rfcomm ==> session.to_rfcomm.bytes.len() > 0,
        !(side is Signals),
        forall|i: int|
            0 <= i < set.spec_slots().len() && #[trigger] set.spec_slots()[i] == (PollSlot {
                endpoint: side,
                interest: Interest::Write,
            }) ==> (answers@[i] matches Some(bits) && bits & 0x4 == 0x4),
    ensures
        session.does(events).contains(Action::Write { to: side }),
{
    law_round_does_what_the_poll_allows(session, set, answers, events);
    law_slots_are_found_again(set);
    if side is Master {
        assert(set.spec_slots()[set.master_write_at()] == (PollSlot {
            endpoint: side,
            interest: Interest::Write,
        }));
    } else {
        assert(set.spec_slots()[set.rfcomm_write_at()] == (PollSlot {
            endpoint: side,
            interest: Interest::Write,
        }));
    }
}

/// A poll asks for input where there is space for it (of the peer only while
/// the child lives) and for output where bytes wait, each in an entry of its
/// own behind that of the signal descriptor.
pub proof fn law_polls_for_all_that_can_be_done(session: Session, event: Event)
    requires
        session.wf(),
        session.awaits(event),
        session.next(event).1 is Poll,
    ensures
        ({
            let (after, action) = session.next(event);
            let slots = action->Poll_0.spec_slots();
            let read = Interest::Read;
            let write = Interest::Write;
            &&& slots.no_duplicates()
            &&& slots[0] == (PollSlot { endpoint: Endpoint::Signals, interest: read })
            &&& slots.contains(PollSlot { endpoint: Endpoint::Rfcomm, interest: read }) <==> (
            after.to_master.bytes.len() < 4096 && !after.child_exited)
            &&& slots.contains(PollSlot { endpoint: Endpoint::Master, interest: read })
                <==> after.to_rfcomm.bytes.len() < 4096
            &&& slots.contains(PollSlot { endpoint: Endpoint::Master, interest: write })
                <==> after.to_master.bytes.len() > 0
            &&& slots.contains(PollSlot { endpoint: Endpoint::Rfcomm, interest: write })
                <==> after.to_rfcomm.bytes.len() > 0
            &&& !slots.contains(PollSlot { endpoint: Endpoint::Signals, interest: write })
        }),
{
    let set = session.next(event).1->Poll_0;
    law_operations_are_useful(session, event);
    law_slots_are_found_again(set);
    let slots = set.spec_slots();
    if set.rfcomm_read {
        assert(slots.contains(slots[set.rfcomm_read_at()]));
    }
    if set.master_read {
        assert(slots.contains(slots[set.master_read_at()]));
    }
    if set.master_write {
        assert(slots.contains(slots[set.master_write_at()]));
    }
    if set.rfcomm_write {
        assert(slots.contains(slots[set.rfcomm_write_at()]));
    }
}

/// There can be the answer `answer` to `action`, which leaves the session
/// `after`: no more bytes come than were asked for, and no more are taken than
/// wait.
pub open spec fn can_answer(after: Session, action: Action, answer: Event) -> bool {
    match action {
        Action::Poll(set) => answer is PollFailed || answer is PollTimedOut || (
        answer matches Event::PollReturned(answers) && answers@.len() == set.spec_slots().len()),
        Action::Reap | Action::TakeSignalAndReap => answer is Reaped,
        Action::Read { from: _, max } => answer matches Event::Read(outcome) && (
        outcome matches ReadOutcome::Bytes(bytes) ==> bytes@.len() <= max),
        Action::Write { to } => answer matches Event::Wrote(outcome) && (
        outcome matches WriteOutcome::Written(n) ==> n <= if to is Master {
            after.to_master.bytes.len()
        } else {
            after.to_rfcomm.bytes.len()
        }),
        Action::HangUp(_) | Action::Exit(_) => false,
    }
}

/// `phase` waits for the answer to `action`.
pub open spec fn waits_for(phase: Phase, action: Action) -> bool {
    match action {
        Action::Poll(set) => phase == Phase::Polling(set),
        Action::Reap => phase is ReapingAfterTimeout,
        Action::TakeSignalAndReap => phase is ReapingAfterSignal,
        Action::Read { from, max: _ } => if from is Rfcomm {
            phase is ReadingRfcomm
        } else {
            from is Master && phase is ReadingMaster
        },
        Action::Write { to } => if to is Master {
            phase is WritingMaster
        } else {
            to is Rfcomm && phase is WritingRfcomm
        },
        Action::HangUp(_) | Action::Exit(_) => phase is Finished,
    }
}

proof fn lemma_answers_to(after: Session, action: Action, answer: Event)
    requires
        waits_for(after.phase, action),
        action matches Action::Read { from, max } ==> {
            &&& from is Rfcomm ==> max == after.to_master.room()
            &&& from is Master ==> max == after.to_rfcomm.room()
        },
    ensures
        after.awaits(answer) <==> can_answer(after, action, answer),
{
}

/// A session waits for what it has asked for, and takes every answer that there
/// can be to it.
pub proof fn law_every_answer_is_taken(session: Session, event: Event, answer: Event)
    requires
        session.wf(),
        session.awaits(event),
    ensures
        fresh_session().awaits(answer) <==> answer is Start,
        ({
            let (after, action) = session.next(event);
            after.awaits(answer) <==> can_answer(after, action, answer)
        }),
{
    let (after, action) = session.next(event);
    law_phase_is_what_was_asked_for(session, event);
    law_operations_are_useful(session, event);
    lemma_answers_to(after, action, answer);
}

/// An answer moves the bytes that it tells of and no others: those that were
/// read go behind what waits for the other side, those that were written leave
/// at the front, and nothing else touches what waits.
pub proof fn law_answers_move_their_bytes_only(
    session: Session,
    event: Event,
    answer: Event,
)
    requires
        session.wf(),
        session.awaits(event),
        session.next(event).0.awaits(answer),
    ensures
        ({
            let (before, action) = session.next(event);
            let after = before.next(answer).0;
            let to_master = before.to_master.bytes;
            let to_rfcomm = before.to_rfcomm.bytes;
            match (action, answer) {
                (
                    Action::Read { from: Endpoint::Rfcomm, max: _ },
                    Event::Read(ReadOutcome::Bytes(bytes)),
                ) => after.to_master.bytes == to_master + bytes@ && after.to_rfcomm.bytes
                    == to_rfcomm,
                (
                    Action::Read { from: Endpoint::Master, max: _ },
                    Event::Read(ReadOutcome::Bytes(bytes)),
                ) => after.to_rfcomm.bytes == to_rfcomm + bytes@ && after.to_master.bytes
                    == to_master,
                (
                    Action::Write { to: Endpoint::Master },
                    Event::Wrote(WriteOutcome::Written(n)),
                ) => after.to_master.bytes == to_master.skip(n as int) && after.to_rfcomm.bytes
                    == to_rfcomm,
                (
                    Action::Write { to: Endpoint::Rfcomm },
                    Event::Wrote(WriteOutcome::Written(n)),
                ) => after.to_rfcomm.bytes == to_rfcomm.skip(n as int) && after.to_master.bytes
                    == to_master,
                _ => after.to_master.bytes == to_master && after.to_rfcomm.bytes == to_rfcomm,
            }
        }),
{
    law_steps_keep_sessions_well_formed(session, event);
    law_phase_is_what_was_asked_for(session, event);
    lemma_answer_moves_its_bytes(session.next(event).0, answer);
}

proof fn lemma_answer_moves_its_bytes(before: Session, answer: Event)
    requires
        before.wf(),
        before.awaits(answer),
    ensures
        ({
            let after = before.next(answer).0;
            let master = match (before.phase, answer) {
                (Phase::ReadingRfcomm(_), Event::Read(ReadOutcome::Bytes(bytes))) => {
                    before.to_master.bytes + bytes@
                },
                (Phase::WritingMaster(_), Event::Wrote(WriteOutcome::Written(n))) => {
                    before.to_master.bytes.skip(n as int)
                },
                _ => before.to_master.bytes,
            };
            let rfcomm = match (before.phase, answer) {
                (Phase::ReadingMaster(_), Event::Read(ReadOutcome::Bytes(bytes))) => {
                    before.to_rfcomm.bytes + bytes@
                },
                (Phase::WritingRfcomm, Event::Wrote(WriteOutcome::Written(n))) => {
                    before.to_rfcomm.bytes.skip(n as int)
                },
                _ => before.to_rfcomm.bytes,
            };
            after.to_master.bytes == master && after.to_rfcomm.bytes == rfcomm
        }),
{
    assert(before.to_master.bytes + Seq::<u8>::empty() =~= before.to_master.bytes);
    assert(before.to_rfcomm.bytes + Seq::<u8>::empty() =~= before.to_rfcomm.bytes);
    assert(before.to_master.bytes.skip(0) =~= before.to_master.bytes);
    assert(before.to_rfcomm.bytes.skip(0) =~= before.to_rfcomm.bytes);
}

/// A read asks for all the room behind what waits in the storage of 4096 bytes,
/// and what waits is moved to its front first where there is none.
pub proof fn law_reads_ask_for_the_room_there_is(session: Session, event: Event)
    requires
        session.wf(),
        session.awaits(event),
    ensures
        ({
            let (after, action) = session.next(event);
            action matches Action::Read { from, max } ==> {
                let (was, is) = if from is Rfcomm {
                    (session.to_master, after.to_master)
                } else {
                    (session.to_rfcomm, after.to_rfcomm)
                };
                &&& 0 < max
                &&& is.start + is.bytes.len() + max == 4096
                &&& is.start == was.start || is.start == 0
                &&& is.start != was.start ==> was.start + was.bytes.len() == 4096
            }
        }),
{
}

/// A poll that brings nothing: after one that timed out the session looks at
/// its child while that is not known to be gone, and polls again; one that was
/// interrupted is made again; any other failure ends the session with 1.
pub proof fn law_quiet_polls(session: Session, errno: i32, gone: bool)
    requires
        session.wf(),
        session.phase is Polling,
    ensures
        ({
            let nothing_waits = session.to_master.bytes.len() == 0
                && session.to_rfcomm.bytes.len() == 0;
            let (timed_out, action) = session.next(Event::PollTimedOut);
            let (failed, on_failure) = session.next(Event::PollFailed(errno));
            let looked = timed_out.next(Event::Reaped(gone)).1;
            &&& action is Reap <==> !session.child_exited
            &&& !(action is Reap) ==> action == if nothing_waits {
                Action::Exit(0)
            } else {
                Action::Poll(session.wanted())
            }
            &&& action is Reap ==> (looked == Action::Exit(0) <==> gone && nothing_waits)
            &&& action is Reap ==> (looked is Poll <==> !(gone && nothing_waits))
            &&& on_failure == Action::Exit(1) <==> errno != 4
            &&& on_failure == Action::Exit(0) <==> errno == 4 && session.child_exited
                && nothing_waits
            &&& on_failure is Poll <==> errno == 4 && !(session.child_exited && nothing_waits)
        }),
{
}

/// Once the child is gone, the end of its terminal or an error of it other than
/// `EIO` and "would block" ends the session.
pub proof fn law_end_of_a_gone_login_ends_the_session(session: Session, outcome: ReadOutcome)
    requires
        session.wf(),
        session.phase is ReadingMaster,
        session.child_exited,
        outcome matches ReadOutcome::Bytes(bytes) ==> bytes@.len() == 0,
        outcome matches ReadOutcome::Failed(errno) ==> errno != 5 && errno != 11,
    ensures
        session.next(Event::Read(outcome)).1 == Action::Exit(0),
{
}

/// The peer is gone where a read of it gives no bytes or an error other than
/// "would block": the child is hung up and the session ends with 0. Otherwise
/// a read of the peer ends nothing.
pub proof fn law_lost_peer_ends_the_session(session: Session, outcome: ReadOutcome)
    requires
        session.wf(),
        session.phase is ReadingRfcomm,
        session.awaits(Event::Read(outcome)),
    ensures
        ({
            let lost = match outcome {
                ReadOutcome::Bytes(bytes) => bytes@.len() == 0,
                ReadOutcome::Failed(errno) => errno != 11,
            };
            &&& lost ==> session.next(Event::Read(outcome)).1 == Action::HangUp(0)
            &&& !lost ==> !(session.next(Event::Read(outcome)).1 is HangUp)
        }),
{
}

/// What a session waits for is what it has asked for last.
pub proof fn law_phase_is_what_was_asked_for(session: Session, event: Event)
    requires
        session.wf(),
        session.awaits(event),
    ensures
        waits_for(session.next(event).0.phase, session.next(event).1),
{
}

} // verus!
