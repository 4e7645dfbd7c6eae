use bluetooth_getty::session_proxy::{
    argument_error, closes_slave, exec_error, exec_plan, exit_code, run, set_nonblock, try_reap,
    NoCommand, ProxyEnd, ProxyRun, RunAction, RunEvent, TermSettings, WaitOutcome, WindowSize, CHILD_FAILURE,
    ECHO, O_NONBLOCK,
};

fn settings() -> TermSettings {
    TermSettings {
        c_iflag: libc::ICRNL | libc::IXON,
        c_oflag: libc::OPOST,
        c_cflag: libc::CS7 | libc::CREAD | libc::CLOCAL,
        c_lflag: libc::ECHO | libc::ICANON | libc::ISIG | libc::IEXTEN,
        c_line: 0,
        c_cc: [3; 32],
        c_ispeed: 13,
        c_ospeed: 13,
    }
}

fn started() -> ProxyRun {
    let mut p = run(&["agetty".to_string()]).unwrap();
    assert!(matches!(p.step(RunEvent::Start), RunAction::BlockSigchld));
    p
}

#[test]
fn command_is_needed() {
    assert_eq!(run(&[]).err(), Some(NoCommand));
    assert_eq!(NoCommand.message(), "session-proxy: no command specified");
    assert!(run(&["agetty".to_string()]).is_ok());
}

#[test]
fn whole_run() {
    let mut p = started();
    assert!(matches!(p.step(RunEvent::Done), RunAction::IgnoreSighup));
    assert!(matches!(p.step(RunEvent::Done), RunAction::OpenSignals));
    assert!(matches!(p.step(RunEvent::Done), RunAction::ReadSettings));
    assert!(matches!(
        p.step(RunEvent::Settings(settings())),
        RunAction::ReadWindow
    ));
    match p.step(RunEvent::Failed(libc::ENOTTY)) {
        RunAction::OpenPty(t, w) => {
            assert_eq!((w.ws_row, w.ws_col, w.ws_xpixel, w.ws_ypixel), (0, 0, 0, 0));
            assert_eq!(t.c_lflag, settings().c_lflag);
            assert_eq!(t.c_iflag, settings().c_iflag);
        }
        _ => panic!(),
    }
    match p.step(RunEvent::Done) {
        RunAction::SetRaw(t) => {
            assert_eq!(ECHO, libc::ECHO);
            assert_eq!(t.c_lflag & (libc::ECHO | libc::ICANON | libc::ISIG), 0);
            assert_eq!(t.c_iflag & (libc::ICRNL | libc::IXON), 0);
            assert_eq!(t.c_oflag & libc::OPOST, 0);
            assert_eq!(t.c_cflag & libc::CSIZE, libc::CS8);
            assert_eq!(t.c_cflag & libc::CLOCAL, libc::CLOCAL);
            assert_eq!((t.c_ispeed, t.c_ospeed), (13, 13));
        }
        _ => panic!(),
    }
    assert!(matches!(p.step(RunEvent::Done), RunAction::Fork));
    assert!(matches!(
        p.step(RunEvent::Done),
        RunAction::GetFlags(ProxyEnd::Rfcomm)
    ));
    match p.step(RunEvent::Flags(libc::O_RDWR)) {
        RunAction::SetFlags(ProxyEnd::Rfcomm, flags) => {
            assert_eq!(flags, libc::O_RDWR | libc::O_NONBLOCK);
        }
        _ => panic!(),
    }
    assert!(matches!(
        p.step(RunEvent::Done),
        RunAction::GetFlags(ProxyEnd::Master)
    ));
    match p.step(RunEvent::Flags(libc::O_RDWR | libc::O_APPEND)) {
        RunAction::SetFlags(ProxyEnd::Master, flags) => {
            assert_eq!(flags, libc::O_RDWR | libc::O_APPEND | libc::O_NONBLOCK);
        }
        _ => panic!(),
    }
    assert!(matches!(p.step(RunEvent::Done), RunAction::Shuttle));
    assert!(matches!(p.step(RunEvent::Shuttled(1)), RunAction::Reap));
    assert!(matches!(
        p.step(RunEvent::Waited(WaitOutcome::StillAlive)),
        RunAction::TerminateAndWait
    ));
    assert!(matches!(
        p.step(RunEvent::Waited(WaitOutcome::Failed)),
        RunAction::Exit(1)
    ));
}

#[test]
fn window_size_is_passed_on() {
    let mut p = started();
    p.step(RunEvent::Done);
    p.step(RunEvent::Done);
    p.step(RunEvent::Done);
    p.step(RunEvent::Settings(settings()));
    let size = WindowSize {
        ws_row: 24,
        ws_col: 80,
        ws_xpixel: 1,
        ws_ypixel: 2,
    };
    match p.step(RunEvent::Window(size)) {
        RunAction::OpenPty(_, w) => assert_eq!(w, size),
        _ => panic!(),
    }
}

#[test]
fn command_is_executed_as_given() {
    let cmd = ["agetty".to_string(), "-".to_string(), "\u{e9}".to_string()];
    let plan = exec_plan(&cmd).unwrap();
    assert_eq!(plan.file, "agetty");
    assert_eq!(plan.argv, cmd);
    let cmd = [
        "agetty".to_string(),
        "a\0b".to_string(),
        "\0".to_string(),
    ];
    assert_eq!(exec_plan(&cmd).err(), Some(1));
    assert_eq!(exec_plan(&["\0".to_string()]).err(), Some(0));
}

#[test]
fn failed_step_ends_the_run() {
    let mut p = started();
    p.step(RunEvent::Done);
    assert!(matches!(p.step(RunEvent::Failed(22)), RunAction::Fail(22)));
}

#[test]
fn exit_codes() {
    assert_eq!(exit_code(WaitOutcome::Exited(3), 1), 3);
    assert_eq!(exit_code(WaitOutcome::Exited(256 + 4), 1), 4);
    assert_eq!(exit_code(WaitOutcome::Signaled(libc::SIGHUP), 0), 129);
    assert_eq!(exit_code(WaitOutcome::Signaled(libc::SIGTERM), 0), 143);
    assert_eq!(exit_code(WaitOutcome::Signaled(130), 0), 2);
    assert_eq!(exit_code(WaitOutcome::Changed, 1), 1);
    assert_eq!(exit_code(WaitOutcome::StillAlive, 0), 0);
    assert_eq!(exit_code(WaitOutcome::Failed, 1), 1);
}

#[test]
fn reaping() {
    assert!(try_reap(WaitOutcome::Exited(0)));
    assert!(try_reap(WaitOutcome::Signaled(9)));
    assert!(try_reap(WaitOutcome::Changed));
    assert!(!try_reap(WaitOutcome::StillAlive));
    assert!(!try_reap(WaitOutcome::Failed));
}

#[test]
fn descriptors_become_nonblocking() {
    assert_eq!(O_NONBLOCK, libc::O_NONBLOCK);
    let flags = libc::O_RDWR | libc::O_APPEND;
    assert_eq!(set_nonblock(flags), flags | libc::O_NONBLOCK);
    assert_eq!(
        set_nonblock(flags | libc::O_NONBLOCK),
        flags | libc::O_NONBLOCK
    );
    assert_eq!(
        set_nonblock(i32::MIN),
        libc::O_NONBLOCK,
        "an unknown flag is dropped"
    );
}

#[test]
fn child_side() {
    assert_eq!(CHILD_FAILURE, 127);
    assert!(closes_slave(3));
    assert!(!closes_slave(2));
    assert!(!closes_slave(0));
    assert_eq!(
        argument_error("nul byte found in provided data at position: 1"),
        "session-proxy: invalid command argument: nul byte found in provided data at position: 1\n"
    );
    assert_eq!(
        exec_error("\"agetty\"", "ENOENT: No such file or directory"),
        "session-proxy: exec \"agetty\": ENOENT: No such file or directory\n"
    );
}
