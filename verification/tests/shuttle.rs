use bluetooth_getty::buffer::{ReadOutcome, WriteOutcome, BUF_SIZE};
use bluetooth_getty::shuttle::{
    Action, Endpoint, Event, Interest, PollSet, PollSlot, Shuttle, POLL_TIMEOUT_MS,
};

const IDLE: PollSet = PollSet {
    rfcomm_read: true,
    master_read: true,
    master_write: false,
    rfcomm_write: false,
};

fn started() -> Shuttle {
    let mut s = Shuttle::new();
    assert_eq!(s.step(Event::Start), Action::Poll(IDLE));
    s
}

fn returned(bits: &[i16]) -> Event {
    Event::PollReturned(bits.iter().map(|b| Some(*b)).collect())
}

#[test]
fn poll_array_has_a_fixed_order() {
    assert_eq!(POLL_TIMEOUT_MS, 1000);
    let slot = |endpoint, interest| PollSlot { endpoint, interest };
    let all = PollSet {
        rfcomm_read: true,
        master_read: true,
        master_write: true,
        rfcomm_write: true,
    };
    assert_eq!(
        all.slots(),
        [
            slot(Endpoint::Signals, Interest::Read),
            slot(Endpoint::Rfcomm, Interest::Read),
            slot(Endpoint::Master, Interest::Read),
            slot(Endpoint::Master, Interest::Write),
            slot(Endpoint::Rfcomm, Interest::Write),
        ]
    );
    let few = PollSet {
        rfcomm_read: false,
        master_read: true,
        master_write: false,
        rfcomm_write: true,
    };
    assert_eq!(
        few.slots(),
        [
            slot(Endpoint::Signals, Interest::Read),
            slot(Endpoint::Master, Interest::Read),
            slot(Endpoint::Rfcomm, Interest::Write),
        ]
    );
    let ready = few.ready(&vec![
        Some(libc::POLLIN),
        Some(libc::POLLHUP),
        Some(libc::POLLOUT | libc::POLLERR),
    ]);
    assert!(ready.signals && !ready.rfcomm_read && ready.master_read);
    assert!(!ready.master_write && ready.rfcomm_write);
    let ready = few.ready(&vec![
        Some(libc::POLLHUP),
        Some(libc::POLLOUT),
        Some(libc::POLLIN),
    ]);
    assert!(!ready.signals && !ready.master_read && !ready.rfcomm_write);
    let ready = few.ready(&vec![None, Some(libc::POLLERR), None]);
    assert!(!ready.signals && ready.master_read && !ready.rfcomm_write);
}

#[test]
fn bytes_go_both_ways() {
    let mut s = started();
    assert_eq!(
        s.step(returned(&[0, libc::POLLIN, libc::POLLIN])),
        Action::Read { from: Endpoint::Rfcomm, max: BUF_SIZE }
    );
    assert_eq!(
        s.step(Event::Read(ReadOutcome::Bytes(b"root\n".to_vec()))),
        Action::Read { from: Endpoint::Master, max: BUF_SIZE }
    );
    let busy = PollSet {
        rfcomm_read: true,
        master_read: true,
        master_write: true,
        rfcomm_write: true,
    };
    assert_eq!(
        s.step(Event::Read(ReadOutcome::Bytes(b"login: ".to_vec()))),
        Action::Poll(busy)
    );
    assert_eq!(
        s.step(returned(&[0, 0, 0, libc::POLLOUT, libc::POLLOUT])),
        Action::Write { to: Endpoint::Master }
    );
    assert_eq!(s.pending(Endpoint::Master), b"root\n");
    assert_eq!(
        s.step(Event::Wrote(WriteOutcome::Written(5))),
        Action::Write { to: Endpoint::Rfcomm }
    );
    assert_eq!(s.pending(Endpoint::Rfcomm), b"login: ");
    assert_eq!(
        s.step(Event::Wrote(WriteOutcome::Written(3))),
        Action::Poll(PollSet { rfcomm_write: true, ..IDLE })
    );
    assert_eq!(s.pending(Endpoint::Rfcomm), b"in: ");
    assert_eq!(
        s.step(returned(&[0, 0, libc::POLLIN, 0])),
        Action::Read { from: Endpoint::Master, max: BUF_SIZE - 7 }
    );
    assert_eq!(
        s.step(Event::Read(ReadOutcome::Bytes(b"x".to_vec()))),
        Action::Poll(PollSet { rfcomm_write: true, ..IDLE })
    );
    assert_eq!(
        s.step(returned(&[0, 0, 0, libc::POLLOUT])),
        Action::Write { to: Endpoint::Rfcomm }
    );
    assert_eq!(
        s.step(Event::Wrote(WriteOutcome::Failed(libc::EAGAIN))),
        Action::Poll(PollSet { rfcomm_write: true, ..IDLE })
    );
    assert_eq!(s.pending(Endpoint::Rfcomm), b"in: x");
}

#[test]
fn failed_poll_ends_with_one() {
    let mut s = started();
    assert_eq!(s.step(Event::PollFailed(libc::EINTR)), Action::Poll(IDLE));
    assert_eq!(s.step(Event::PollFailed(libc::EINVAL)), Action::Exit(1));
}

#[test]
fn quiet_poll_looks_for_the_child() {
    let mut s = started();
    assert_eq!(s.step(Event::PollTimedOut), Action::Reap);
    assert_eq!(s.step(Event::Reaped(false)), Action::Poll(IDLE));
    assert_eq!(s.step(Event::PollTimedOut), Action::Reap);
    assert_eq!(s.step(Event::Reaped(true)), Action::Exit(0));
}

#[test]
fn rest_is_drained_after_the_child() {
    let mut s = started();
    s.step(returned(&[0, 0, libc::POLLIN]));
    s.step(Event::Read(ReadOutcome::Bytes(b"bye".to_vec())));
    assert_eq!(
        s.step(returned(&[libc::POLLIN, 0, 0, 0])),
        Action::TakeSignalAndReap
    );
    let draining = PollSet {
        rfcomm_read: false,
        master_read: true,
        master_write: false,
        rfcomm_write: true,
    };
    assert_eq!(s.step(Event::Reaped(true)), Action::Poll(draining));
    assert_eq!(s.step(Event::PollTimedOut), Action::Poll(draining));
    assert_eq!(
        s.step(returned(&[0, 0, libc::POLLOUT])),
        Action::Write { to: Endpoint::Rfcomm }
    );
    assert_eq!(
        s.step(Event::Wrote(WriteOutcome::Written(3))),
        Action::Exit(0)
    );
}

#[test]
fn gone_child_is_not_forgotten() {
    let mut s = started();
    s.step(returned(&[0, 0, libc::POLLIN]));
    s.step(Event::Read(ReadOutcome::Bytes(b"bye".to_vec())));
    assert_eq!(s.step(Event::PollTimedOut), Action::Reap);
    assert!(matches!(s.step(Event::Reaped(true)), Action::Poll(_)));
    assert_eq!(
        s.step(returned(&[libc::POLLIN, 0, libc::POLLOUT])),
        Action::TakeSignalAndReap
    );
    assert_eq!(
        s.step(Event::Reaped(false)),
        Action::Write { to: Endpoint::Rfcomm }
    );
    assert_eq!(
        s.step(Event::Wrote(WriteOutcome::Written(3))),
        Action::Exit(0)
    );
}

#[test]
fn lost_peer_hangs_the_child_up() {
    for outcome in [
        ReadOutcome::Bytes(vec![]),
        ReadOutcome::Failed(libc::EIO),
        ReadOutcome::Failed(libc::ENODEV),
    ] {
        let mut s = started();
        s.step(returned(&[0, libc::POLLHUP, 0]));
        assert_eq!(s.step(Event::Read(outcome)), Action::HangUp(0));
    }
    let mut s = started();
    s.step(returned(&[0, libc::POLLIN, 0]));
    assert_eq!(
        s.step(Event::Read(ReadOutcome::Failed(libc::EAGAIN))),
        Action::Poll(IDLE)
    );
}

#[test]
fn vhangup_is_survived() {
    for outcome in [
        ReadOutcome::Bytes(vec![]),
        ReadOutcome::Failed(libc::EIO),
        ReadOutcome::Failed(libc::EBADF),
    ] {
        let mut s = started();
        s.step(returned(&[0, 0, libc::POLLHUP]));
        assert_eq!(s.step(Event::Read(outcome)), Action::Poll(IDLE));
    }
}

#[test]
fn master_is_final_only_without_a_child() {
    let endings = [
        (ReadOutcome::Bytes(vec![]), true),
        (ReadOutcome::Failed(libc::EBADF), true),
        (ReadOutcome::Failed(libc::EIO), false),
    ];
    for (outcome, is_final) in endings {
        let mut s = started();
        s.step(returned(&[0, libc::POLLIN, 0]));
        s.step(Event::Read(ReadOutcome::Bytes(b"x".to_vec())));
        s.step(returned(&[libc::POLLIN, 0, libc::POLLHUP, 0]));
        assert_eq!(
            s.step(Event::Reaped(true)),
            Action::Read { from: Endpoint::Master, max: BUF_SIZE }
        );
        let action = s.step(Event::Read(outcome));
        if is_final {
            assert_eq!(action, Action::Exit(0));
        } else {
            assert!(matches!(action, Action::Poll(_)));
        }
    }
}

#[test]
fn full_buffer_is_not_read_into() {
    let mut s = started();
    s.step(returned(&[0, libc::POLLIN, 0]));
    assert_eq!(
        s.step(Event::Read(ReadOutcome::Bytes(vec![1; BUF_SIZE]))),
        Action::Poll(PollSet {
            rfcomm_read: false,
            master_read: true,
            master_write: true,
            rfcomm_write: false,
        })
    );
}
