use bluetooth_getty::rfcomm::{
    create_tty, device_number, device_path, prime_tty, release_tty, NotBluetooth, PrimeAction,
    PrimeEvent, PrimeTty, RfcommDevReq, SockaddrRc, AF_BLUETOOTH, BTPROTO_RFCOMM, OPEN_ATTEMPTS,
    RETRY_DELAY_MS, RFCOMMCREATEDEV, RFCOMMRELEASEDEV, RFCOMM_HANGUP_NOW, RFCOMM_REUSE_DLC,
};

#[test]
fn rfcomm_dev_req_is_24_bytes() {
    assert_eq!(std::mem::size_of::<RfcommDevReq>(), 24);
}

#[test]
fn numbers_are_those_of_the_kernel() {
    assert_eq!(AF_BLUETOOTH, libc::AF_BLUETOOTH);
    assert_eq!(BTPROTO_RFCOMM, 3);
    assert_eq!(RFCOMM_REUSE_DLC, 0);
    assert_eq!(RFCOMM_HANGUP_NOW, 2);
    assert_eq!(RFCOMMCREATEDEV, (1 << 30) | (4 << 16) | ((b'R' as u32) << 8) | 200);
    assert_eq!(RFCOMMRELEASEDEV, (1 << 30) | (4 << 16) | ((b'R' as u32) << 8) | 201);
    assert_eq!(OPEN_ATTEMPTS, 30);
    assert_eq!(RETRY_DELAY_MS, 50);
}

fn end(family: u16, last: u8, channel: u8) -> SockaddrRc {
    SockaddrRc {
        rc_family: family,
        rc_bdaddr: [1, 2, 3, 4, 5, last],
        rc_channel: channel,
    }
}

#[test]
fn create_request_takes_both_ends() {
    let req = create_tty(&end(31, 6, 9), &end(31, 7, 1)).unwrap();
    assert_eq!(req.dev_id, -1);
    assert_eq!(req.flags, 1);
    assert_eq!(req.src, [1, 2, 3, 4, 5, 6]);
    assert_eq!(req.dst, [1, 2, 3, 4, 5, 7]);
    assert_eq!(req.channel, 1);
    assert_eq!(req.gap, [0, 0]);
    assert_eq!(req.tail, [0, 0, 0]);
}

#[test]
fn other_sockets_are_refused() {
    let e = create_tty(&end(2, 6, 9), &end(31, 7, 1)).unwrap_err();
    assert_eq!(e, NotBluetooth { local: 2, remote: 31 });
    assert_eq!(
        e.message(),
        "socket is not AF_BLUETOOTH (local=2, remote=31)"
    );
    let e = create_tty(&end(31, 6, 9), &SockaddrRc::default()).unwrap_err();
    assert_eq!(
        e.message(),
        "socket is not AF_BLUETOOTH (local=31, remote=0)"
    );
}

#[test]
fn device_number_is_the_low_half() {
    assert_eq!(device_number(7), 7);
    assert_eq!(device_number(-1), -1);
    assert_eq!(device_number(65536 + 5), 5);
    assert_eq!(device_number(40000), 40000i32 as i16);
}

#[test]
fn release_request_hangs_up_now() {
    let req = release_tty(4);
    assert_eq!(req.dev_id, 4);
    assert_eq!(req.flags, 4);
    assert_eq!(req.src, [0; 6]);
    assert_eq!(req.dst, [0; 6]);
    assert_eq!(req.channel, 0);
}

#[test]
fn device_paths() {
    assert_eq!(device_path(0), "/dev/rfcomm0");
    assert_eq!(device_path(12), "/dev/rfcomm12");
    assert_eq!(device_path(-1), "/dev/rfcomm-1");
    assert_eq!(device_path(i16::MAX), format!("/dev/rfcomm{}", i16::MAX));
    assert_eq!(device_path(i16::MIN), format!("/dev/rfcomm{}", i16::MIN));
    assert!(!device_path(30).contains('\0'));
}

fn started(dev_num: i16) -> PrimeTty {
    let mut p = prime_tty(dev_num);
    assert_eq!(p.step(PrimeEvent::Start), PrimeAction::Open);
    p
}

#[test]
fn priming_sets_clocal() {
    let mut p = started(3);
    assert_eq!(p.path(), "/dev/rfcomm3");
    assert_eq!(p.step(PrimeEvent::Opened(8)), PrimeAction::GetSettings(8));
    assert_eq!(
        p.step(PrimeEvent::GotFlags(0xbd)),
        PrimeAction::SetSettings {
            fd: 8,
            c_cflag: 0xbd | libc::CLOCAL
        }
    );
    assert_eq!(p.step(PrimeEvent::FlagsSet), PrimeAction::Done(8));
}

#[test]
fn missing_node_is_opened_thirty_times() {
    let mut p = started(0);
    let transient = [libc::ENOENT, libc::ENODEV, libc::EACCES];
    let mut opens = 1;
    let mut pauses = 0;
    let mut last;
    loop {
        last = transient[opens % 3];
        assert_eq!(p.step(PrimeEvent::OpenFailed(last)), PrimeAction::Pause);
        pauses += 1;
        match p.step(PrimeEvent::Paused) {
            PrimeAction::Open => opens += 1,
            other => {
                assert_eq!(other, PrimeAction::Fail { errno: last, close: None });
                break;
            }
        }
    }
    assert_eq!(opens, 30);
    assert_eq!(pauses, 30);
}

#[test]
fn late_node_is_used() {
    let mut p = started(0);
    assert_eq!(
        p.step(PrimeEvent::OpenFailed(libc::ENOENT)),
        PrimeAction::Pause
    );
    assert_eq!(p.step(PrimeEvent::Paused), PrimeAction::Open);
    assert_eq!(p.step(PrimeEvent::Opened(5)), PrimeAction::GetSettings(5));
}

#[test]
fn other_open_errors_end_at_once() {
    for errno in [libc::EIO, libc::EBUSY, libc::EINTR, libc::EAGAIN, libc::EPERM] {
        let mut p = started(0);
        assert_eq!(
            p.step(PrimeEvent::OpenFailed(errno)),
            PrimeAction::Fail { errno, close: None }
        );
    }
}

#[test]
fn failed_settings_close_the_node() {
    let mut p = started(0);
    p.step(PrimeEvent::Opened(5));
    assert_eq!(
        p.step(PrimeEvent::GetFailed(25)),
        PrimeAction::Fail { errno: 25, close: Some(5) }
    );
    let mut p = started(0);
    p.step(PrimeEvent::Opened(5));
    p.step(PrimeEvent::GotFlags(0));
    assert_eq!(
        p.step(PrimeEvent::SetFailed(5)),
        PrimeAction::Fail { errno: 5, close: Some(5) }
    );
}
