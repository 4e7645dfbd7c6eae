//! PTY proxy for rfcomm tty sessions.
//!
//! The proxy sits between the rfcomm tty (its standard input) and the command
//! that runs the login, usually agetty. It gives the command a PTY of its own
//! and passes bytes between the PTY master and the rfcomm tty, so that the
//! hangup that login does hits the PTY slave only.

use vstd::prelude::*;
use vstd::string::*;

verus! {

/// Exit code of the child where the command cannot be run.
pub const CHILD_FAILURE: i32 = 127;

/// Highest of the three standard descriptors.
pub const STDERR_FILENO: i32 = 2;

/// Terminal settings, as `struct termios` of the GNU C library holds them.
#[derive(Clone, Copy, Debug)]
pub struct TermSettings {
    pub c_iflag: u32,
    pub c_oflag: u32,
    pub c_cflag: u32,
    pub c_lflag: u32,
    pub c_line: u8,
    pub c_cc: [u8; 32],
    pub c_ispeed: u32,
    pub c_ospeed: u32,
}

/// Size of a terminal window.
#[derive(Clone, Copy, Debug, PartialEq, Eq, Structural)]
pub struct WindowSize {
    pub ws_row: u16,
    pub ws_col: u16,
    pub ws_xpixel: u16,
    pub ws_ypixel: u16,
}

/// The size of a window that has none.
pub open spec fn no_window() -> WindowSize {
    WindowSize { ws_row: 0, ws_col: 0, ws_xpixel: 0, ws_ypixel: 0 }
}

/// What `nix::sys::termios::cfmakeraw` makes of terminal settings.
pub uninterp spec fn raw_settings(before: TermSettings) -> TermSettings;

/// Local flag `ECHO`.
pub const ECHO: u32 = 0x8;

/// With the local flags `c_lflag` a terminal neither edits lines nor makes
/// signals of characters: `ISIG` and `ICANON` are off. These are the two bits
/// 0x3, and on PowerPC the two bits 0x180.
pub open spec fn is_uncooked(c_lflag: u32) -> bool {
    c_lflag & 0x3 == 0 || c_lflag & 0x180 == 0
}

/// Calls `nix::sys::termios::cfmakeraw`.
///
/// Trusted: the result depends on the settings alone; in it echoing is
/// disabled, and so are the special processing of input, signals among it, and
/// the gathering of lines. What else the C library changes is left unsaid.
#[verifier::external_body]
fn make_raw(before: &TermSettings) -> (r: TermSettings)
    ensures
        r == raw_settings(*before),
        r.c_lflag & ECHO == 0,
        is_uncooked(r.c_lflag),
{
    let TermSettings { c_iflag, c_oflag, c_cflag, c_lflag, c_line, c_cc, c_ispeed, c_ospeed } =
        *before;
    let mut termios = nix::sys::termios::Termios::from(
        libc::termios { c_iflag, c_oflag, c_cflag, c_lflag, c_line, c_cc, c_ispeed, c_ospeed },
    );
    nix::sys::termios::cfmakeraw(&mut termios);
    let libc::termios { c_iflag, c_oflag, c_cflag, c_lflag, c_line, c_cc, c_ispeed, c_ospeed } =
        libc::termios::from(termios);
    TermSettings { c_iflag, c_oflag, c_cflag, c_lflag, c_line, c_cc, c_ispeed, c_ospeed }
}

/// The status flags in the word `flags` that `nix::fcntl::OFlag` knows.
pub uninterp spec fn known_status_flags(flags: i32) -> i32;

/// Calls `nix::fcntl::OFlag::from_bits_truncate`.
///
/// Trusted: the result depends on the word alone, and no flag is added to it.
#[verifier::external_body]
fn truncate_status_flags(flags: i32) -> (r: i32)
    ensures
        r == known_status_flags(flags),
        r & flags == r,
{
    nix::fcntl::OFlag::from_bits_truncate(flags).bits()
}

/// Status flag `O_NONBLOCK`.
pub const O_NONBLOCK: i32 = 0x800;

/// `nix::fcntl::OFlag::O_NONBLOCK`.
///
/// Trusted: libc gives it the value 0x800 on every Linux target whose
/// `struct termios` has the fields of [`TermSettings`]. (MIPS and SPARC, where
/// the value is another, are not among them.)
#[verifier::external_body]
fn nonblock() -> (r: i32)
    ensures
        r == O_NONBLOCK,
{
    nix::fcntl::OFlag::O_NONBLOCK.bits()
}

/// The status flags that make a descriptor with the flags `flags` nonblocking.
pub fn set_nonblock(flags: i32) -> (r: i32)
    ensures
        r == known_status_flags(flags) | O_NONBLOCK,
        r & O_NONBLOCK == O_NONBLOCK,
{
    let known = truncate_status_flags(flags);
    let bit = nonblock();
    assert((known | 0x800i32) & 0x800i32 == 0x800i32) by (bit_vector);
    known | bit
}

/// A proxy was asked for without a command to run.
#[derive(Clone, Copy, Debug, PartialEq, Eq, Structural)]
pub struct NoCommand;

impl NoCommand {
    pub fn message(&self) -> (r: String)
        ensures
            r@ == "session-proxy: no command specified"@,
    {
        "session-proxy: no command specified".to_owned()
    }
}

/// What waiting for the child gave.
#[derive(Clone, Copy, Debug, PartialEq, Eq, Structural)]
pub enum WaitOutcome {
    /// It has not changed state.
    StillAlive,
    /// It exited with this code.
    Exited(i32),
    /// This signal killed it.
    Signaled(i32),
    /// It changed state in another way.
    Changed,
    /// There was nothing to wait for, or the wait failed.
    Failed,
}

/// The child has changed state: it is taken for gone.
pub fn try_reap(outcome: WaitOutcome) -> (gone: bool)
    ensures
        gone <==> !(outcome is StillAlive) && !(outcome is Failed),
{
    match outcome {
        WaitOutcome::StillAlive | WaitOutcome::Failed => false,
        _ => true,
    }
}

/// The exit code of the proxy, where the child ended with `outcome` and the
/// shuttle with `shuttle_code`: the low byte of the child's own code, or 128
/// and the low byte of the number of the signal that killed it, modulo 256.
pub open spec fn exit_code_of(outcome: WaitOutcome, shuttle_code: u8) -> int {
    match outcome {
        WaitOutcome::Exited(code) => code as int % 256,
        WaitOutcome::Signaled(signal) => (128 + signal) % 256,
        _ => shuttle_code as int,
    }
}

fn low_byte(n: i32) -> (r: u8)
    ensures
        r == n as int % 256,
{
    let r: u8 = #[verifier::truncate] (n as u8);
    assert((n - r) % 256 == 0) by (bit_vector)
        requires
            r == n as u8,
    ;
    r
}

/// The exit code of the proxy.
pub fn exit_code(outcome: WaitOutcome, shuttle_code: u8) -> (r: u8)
    ensures
        r == exit_code_of(outcome, shuttle_code),
{
    match outcome {
        WaitOutcome::Exited(code) => low_byte(code),
        WaitOutcome::Signaled(signal) => 128u8.wrapping_add(low_byte(signal)),
        _ => shuttle_code,
    }
}

/// A descriptor that a proxy passes bytes through.
#[derive(Clone, Copy, Debug, PartialEq, Eq, Structural)]
pub enum ProxyEnd {
    /// The rfcomm tty.
    Rfcomm,
    /// The PTY master.
    Master,
}

/// Where a proxy stands: what it has asked for last.
#[derive(Clone, Copy, Debug)]
pub enum RunPhase {
    Starting,
    BlockingSigchld,
    IgnoringSighup,
    OpeningSignals,
    ReadingSettings,
    ReadingWindow(TermSettings),
    OpeningPty(TermSettings),
    SettingRaw,
    Forking,
    ReadingFlags(ProxyEnd),
    WritingFlags(ProxyEnd),
    Shuttling,
    Reaping(u8),
    Terminating(u8),
    Finished,
}

/// An answer of the operating system.
#[derive(Clone, Copy, Debug)]
pub enum RunEvent {
    /// The proxy begins.
    Start,
    /// It was done.
    Done,
    /// It failed with this error number.
    Failed(i32),
    /// The terminal settings that were read.
    Settings(TermSettings),
    /// The window size that was read.
    Window(WindowSize),
    /// The status flags that were read.
    Flags(i32),
    /// The shuttle ended with this exit code.
    Shuttled(u8),
    /// What waiting for the child gave.
    Waited(WaitOutcome),
}

/// What is to be done next.
#[derive(Clone, Copy, Debug)]
pub enum RunAction {
    /// Block the child signal, so that it can be received by descriptor.
    BlockSigchld,
    /// Ignore hangup signals: those of the rfcomm tty are not to kill the proxy.
    IgnoreSighup,
    /// Open a nonblocking descriptor for the child signal.
    OpenSignals,
    /// Read the terminal settings of the rfcomm tty.
    ReadSettings,
    /// Read its window size.
    ReadWindow,
    /// Open a PTY pair with these settings and this window size.
    OpenPty(TermSettings, WindowSize),
    /// Give the rfcomm tty these settings at once.
    SetRaw(TermSettings),
    /// Fork the child that runs the command on the slave, and close the slave.
    Fork,
    /// Read the status flags of a descriptor.
    GetFlags(ProxyEnd),
    /// Give a descriptor these status flags.
    SetFlags(ProxyEnd, i32),
    /// Run the shuttle.
    Shuttle,
    /// Look at the child, without waiting.
    Reap,
    /// Send the child a termination signal, and wait for it.
    TerminateAndWait,
    /// End with this exit code.
    Exit(u8),
    /// End with this error.
    Fail(i32),
}

/// `event` is an answer to what `phase` asked for.
pub open spec fn run_awaits(phase: RunPhase, event: RunEvent) -> bool {
    match phase {
        RunPhase::Starting => event is Start,
        RunPhase::ReadingSettings => event is Settings || event is Failed,
        RunPhase::ReadingWindow(_) => event is Window || event is Failed,
        RunPhase::ReadingFlags(_) => event is Flags || event is Failed,
        RunPhase::Shuttling => event is Shuttled,
        RunPhase::Reaping(_) => event is Waited,
        RunPhase::Terminating(_) => event is Waited,
        RunPhase::Finished => false,
        _ => event is Done || event is Failed,
    }
}

/// The next phase and the next action. A step that fails ends the proxy with
/// that error, but for the window size: one that cannot be read is all zero.
pub open spec fn run_next(phase: RunPhase, event: RunEvent) -> (RunPhase, RunAction)
    recommends
        run_awaits(phase, event),
{
    match (phase, event) {
        (RunPhase::ReadingWindow(t), RunEvent::Window(w)) => (
            RunPhase::OpeningPty(t),
            RunAction::OpenPty(t, w),
        ),
        (RunPhase::ReadingWindow(t), _) => (
            RunPhase::OpeningPty(t),
            RunAction::OpenPty(t, no_window()),
        ),
        (_, RunEvent::Failed(errno)) => (RunPhase::Finished, RunAction::Fail(errno)),
        (RunPhase::Starting, _) => (RunPhase::BlockingSigchld, RunAction::BlockSigchld),
        (RunPhase::BlockingSigchld, _) => (RunPhase::IgnoringSighup, RunAction::IgnoreSighup),
        (RunPhase::IgnoringSighup, _) => (RunPhase::OpeningSignals, RunAction::OpenSignals),
        (RunPhase::OpeningSignals, _) => (RunPhase::ReadingSettings, RunAction::ReadSettings),
        (RunPhase::ReadingSettings, RunEvent::Settings(t)) => (
            RunPhase::ReadingWindow(t),
            RunAction::ReadWindow,
        ),
        (RunPhase::OpeningPty(t), _) => (
            RunPhase::SettingRaw,
            RunAction::SetRaw(raw_settings(t)),
        ),
        (RunPhase::SettingRaw, _) => (RunPhase::Forking, RunAction::Fork),
        (RunPhase::Forking, _) => (
            RunPhase::ReadingFlags(ProxyEnd::Rfcomm),
            RunAction::GetFlags(ProxyEnd::Rfcomm),
        ),
        (RunPhase::ReadingFlags(end), RunEvent::Flags(flags)) => (
            RunPhase::WritingFlags(end),
            RunAction::SetFlags(end, known_status_flags(flags) | O_NONBLOCK),
        ),
        (RunPhase::WritingFlags(ProxyEnd::Rfcomm), _) => (
            RunPhase::ReadingFlags(ProxyEnd::Master),
            RunAction::GetFlags(ProxyEnd::Master),
        ),
        (RunPhase::WritingFlags(ProxyEnd::Master), _) => (RunPhase::Shuttling, RunAction::Shuttle),
        (RunPhase::Shuttling, RunEvent::Shuttled(code)) => (
            RunPhase::Reaping(code),
            RunAction::Reap,
        ),
        (RunPhase::Reaping(code), RunEvent::Waited(outcome)) => if outcome is StillAlive
            || outcome is Failed {
            (RunPhase::Terminating(code), RunAction::TerminateAndWait)
        } else {
            (RunPhase::Finished, RunAction::Exit(exit_code_of(outcome, code) as u8))
        },
        (RunPhase::Terminating(code), RunEvent::Waited(outcome)) => (
            RunPhase::Finished,
            RunAction::Exit(exit_code_of(outcome, code) as u8),
        ),
        _ => arbitrary(),
    }
}

/// A proxy for one session.
pub struct ProxyRun {
    phase: RunPhase,
}

impl View for ProxyRun {
    type V = RunPhase;

    closed spec fn view(&self) -> RunPhase {
        self.phase
    }
}

/// A proxy for the command `child_cmd`, to be started.
pub fn run(child_cmd: &[String]) -> (r: Result<ProxyRun, NoCommand>)
    ensures
        r is Ok <==> child_cmd@.len() > 0,
        r matches Ok(proxy) ==> proxy@ is Starting,
{
    if child_cmd.is_empty() {
        return Err(NoCommand);
    }
    Ok(ProxyRun { phase: RunPhase::Starting })
}

impl ProxyRun {
    /// Takes the answer to the last action (at first `RunEvent::Start`), and
    /// says what to do next. The rfcomm tty never gets settings that echo, edit
    /// lines or make signals.
    pub fn step(&mut self, event: RunEvent) -> (action: RunAction)
        requires
            run_awaits(old(self)@, event),
        ensures
            action matches RunAction::SetRaw(settings) ==> settings.c_lflag & ECHO == 0
                && is_uncooked(settings.c_lflag),
            (final(self)@, action) == run_next(old(self)@, event),
    {
        let (phase, action) = match (self.phase, event) {
            (RunPhase::ReadingWindow(t), RunEvent::Window(w)) => (
                RunPhase::OpeningPty(t),
                RunAction::OpenPty(t, w),
            ),
            (RunPhase::ReadingWindow(t), _) => (
                RunPhase::OpeningPty(t),
                RunAction::OpenPty(
                    t,
                    WindowSize { ws_row: 0, ws_col: 0, ws_xpixel: 0, ws_ypixel: 0 },
                ),
            ),
            (_, RunEvent::Failed(errno)) => (RunPhase::Finished, RunAction::Fail(errno)),
            (RunPhase::Starting, _) => (RunPhase::BlockingSigchld, RunAction::BlockSigchld),
            (RunPhase::BlockingSigchld, _) => (RunPhase::IgnoringSighup, RunAction::IgnoreSighup),
            (RunPhase::IgnoringSighup, _) => (RunPhase::OpeningSignals, RunAction::OpenSignals),
            (RunPhase::OpeningSignals, _) => (RunPhase::ReadingSettings, RunAction::ReadSettings),
            (RunPhase::ReadingSettings, RunEvent::Settings(t)) => (
                RunPhase::ReadingWindow(t),
                RunAction::ReadWindow,
            ),
            (RunPhase::OpeningPty(t), _) => (
                RunPhase::SettingRaw,
                RunAction::SetRaw(make_raw(&t)),
            ),
            (RunPhase::SettingRaw, _) => (RunPhase::Forking, RunAction::Fork),
            (RunPhase::Forking, _) => (
                RunPhase::ReadingFlags(ProxyEnd::Rfcomm),
                RunAction::GetFlags(ProxyEnd::Rfcomm),
            ),
            (RunPhase::ReadingFlags(end), RunEvent::Flags(flags)) => (
                RunPhase::WritingFlags(end),
                RunAction::SetFlags(end, set_nonblock(flags)),
            ),
            (RunPhase::WritingFlags(ProxyEnd::Rfcomm), _) => (
                RunPhase::ReadingFlags(ProxyEnd::Master),
                RunAction::GetFlags(ProxyEnd::Master),
            ),
            (RunPhase::WritingFlags(ProxyEnd::Master), _) => (
                RunPhase::Shuttling,
                RunAction::Shuttle,
            ),
            (RunPhase::Shuttling, RunEvent::Shuttled(code)) => (
                RunPhase::Reaping(code),
                RunAction::Reap,
            ),
            (RunPhase::Reaping(code), RunEvent::Waited(outcome)) => if try_reap(outcome) {
                (RunPhase::Finished, RunAction::Exit(exit_code(outcome, code)))
            } else {
                (RunPhase::Terminating(code), RunAction::TerminateAndWait)
            },
            (RunPhase::Terminating(code), RunEvent::Waited(outcome)) => (
                RunPhase::Finished,
                RunAction::Exit(exit_code(outcome, code)),
            ),
            _ => {
                assert(false);
                (RunPhase::Finished, RunAction::Reap)
            },
        };
        self.phase = phase;
        action
    }
}

/// In the child, after the slave `fd` has become the three standard
/// descriptors: whether it is closed, because it is none of them itself.
pub fn closes_slave(fd: i32) -> (r: bool)
    ensures
        r == (fd > STDERR_FILENO),
{
    fd > STDERR_FILENO
}

/// What the child executes: the program `file`, found along the search path,
/// with the arguments `argv`.
#[derive(Debug)]
pub struct ExecPlan {
    pub file: String,
    pub argv: Vec<String>,
}

/// `arg` makes a C string.
pub open spec fn has_no_nul(arg: String) -> bool {
    !arg@.contains('\0')
}

fn is_c_string(arg: &String) -> (r: bool)
    ensures
        r == has_no_nul(*arg),
{
    for c in it: arg.as_str().chars()
        invariant
            it.seq() == arg@,
            forall|j: int| 0 <= j < it.index() ==> arg@[j] != '\0',
    {
        if c == '\0' {
            assert(arg@[it.index() as int] == '\0');
            return false;
        }
    }
    true
}

/// In the child: what to execute for the command `child_cmd`, or the position
/// of its first argument that holds a NUL and so makes no C string.
pub fn exec_plan(child_cmd: &[String]) -> (r: Result<ExecPlan, usize>)
    requires
        child_cmd@.len() > 0,
    ensures
        r is Ok <==> forall|i: int| 0 <= i < child_cmd@.len() ==> has_no_nul(#[trigger] child_cmd@[i]),
        r matches Ok(plan) ==> plan.file == child_cmd@[0] && plan.argv@ == child_cmd@,
        r matches Err(at) ==> {
            &&& at < child_cmd@.len()
            &&& !has_no_nul(child_cmd@[at as int])
            &&& forall|i: int| 0 <= i < at ==> has_no_nul(#[trigger] child_cmd@[i])
        },
{
    let mut argv: Vec<String> = Vec::new();
    let n = child_cmd.len();
    let mut i: usize = 0;
    while i < n
        invariant
            n == child_cmd@.len(),
            i <= n,
            argv@ == child_cmd@.take(i as int),
            forall|j: int| 0 <= j < i ==> has_no_nul(#[trigger] child_cmd@[j]),
        decreases n - i,
    {
        if !is_c_string(&child_cmd[i]) {
            return Err(i);
        }
        argv.push(child_cmd[i].clone());
        assert(child_cmd@.take(i as int).push(child_cmd@[i as int]) =~= child_cmd@.take(i + 1));
        i += 1;
    }
    assert(child_cmd@.take(n as int) =~= child_cmd@);
    Ok(ExecPlan { file: child_cmd[0].clone(), argv })
}

/// What the child reports where an argument of the command makes no C string.
pub fn argument_error(reason: &str) -> (r: String)
    ensures
        r@ == "session-proxy: invalid command argument: "@ + reason@ + "\n"@,
{
    let mut s = String::new();
    s.append("session-proxy: invalid command argument: ");
    s.append(reason);
    s.append("\n");
    s
}

/// What the child reports where the command, quoted as `command`, cannot be run.
pub fn exec_error(command: &str, reason: &str) -> (r: String)
    ensures
        r@ == "session-proxy: exec "@ + command@ + ": "@ + reason@ + "\n"@,
{
    let mut s = String::new();
    s.append("session-proxy: exec ");
    s.append(command);
    s.append(": ");
    s.append(reason);
    s.append("\n");
    s
}

/// What a proxy does, beginning in `phase`, while it is given `events`.
pub open spec fn run_actions(phase: RunPhase, events: Seq<RunEvent>) -> Seq<RunAction>
    decreases events.len(),
{
    if events.len() == 0 {
        seq![]
    } else {
        let (next, action) = run_next(phase, events[0]);
        seq![action] + run_actions(next, events.drop_first())
    }
}

/// How many steps a proxy can still make at most.
pub open spec fn steps_left(phase: RunPhase) -> nat {
    match phase {
        RunPhase::Starting => 16,
        RunPhase::BlockingSigchld => 15,
        RunPhase::IgnoringSighup => 14,
        RunPhase::OpeningSignals => 13,
        RunPhase::ReadingSettings => 12,
        RunPhase::ReadingWindow(_) => 11,
        RunPhase::OpeningPty(_) => 10,
        RunPhase::SettingRaw => 9,
        RunPhase::Forking => 8,
        RunPhase::ReadingFlags(ProxyEnd::Rfcomm) => 7,
        RunPhase::WritingFlags(ProxyEnd::Rfcomm) => 6,
        RunPhase::ReadingFlags(ProxyEnd::Master) => 5,
        RunPhase::WritingFlags(ProxyEnd::Master) => 4,
        RunPhase::Shuttling => 3,
        RunPhase::Reaping(_) => 2,
        RunPhase::Terminating(_) => 1,
        RunPhase::Finished => 0,
    }
}

/// Every step brings a proxy nearer to its end, and it ends with an exit code
/// or an error.
pub proof fn law_proxy_ends(phase: RunPhase, event: RunEvent)
    requires
        run_awaits(phase, event),
    ensures
        ({
            let (next, action) = run_next(phase, event);
            &&& steps_left(next) < steps_left(phase)
            &&& next is Finished <==> (action is Exit || action is Fail)
        }),
{
}

/// A failed step ends the proxy with its error, so that nothing is done on top
/// of it; the window size is the one exception.
pub proof fn law_failed_step_ends_proxy(phase: RunPhase, errno: i32)
    requires
        run_awaits(phase, RunEvent::Failed(errno)),
        !(phase is ReadingWindow),
    ensures
        run_next(phase, RunEvent::Failed(errno)) == (RunPhase::Finished, RunAction::Fail(errno)),
{
}

/// The PTY gets the settings and the window size that the rfcomm tty had (no
/// size where it could not be read), and the rfcomm tty then gets those
/// settings made raw.
pub proof fn law_pty_takes_over_settings(settings: TermSettings, window: RunEvent)
    requires
        window is Window || window is Failed,
    ensures
        run_actions(
            RunPhase::ReadingSettings,
            seq![RunEvent::Settings(settings), window, RunEvent::Done],
        ) == seq![
            RunAction::ReadWindow,
            RunAction::OpenPty(
                settings,
                match window {
                    RunEvent::Window(w) => w,
                    _ => no_window(),
                },
            ),
            RunAction::SetRaw(raw_settings(settings)),
        ],
{
    reveal_with_fuel(run_actions, 4);
    let events = seq![RunEvent::Settings(settings), window, RunEvent::Done];
    assert(events.drop_first() =~= seq![window, RunEvent::Done]);
    assert(events.drop_first().drop_first() =~= seq![RunEvent::Done]);
    assert(events.drop_first().drop_first().drop_first() =~= Seq::empty());
}

/// Before bytes are passed on, the rfcomm tty and then the PTY master get the
/// status flags that they had, as far as these are known, with `O_NONBLOCK`.
pub proof fn law_descriptors_become_nonblocking(rfcomm: i32, master: i32)
    ensures
        run_actions(
            RunPhase::Forking,
            seq![
                RunEvent::Done,
                RunEvent::Flags(rfcomm),
                RunEvent::Done,
                RunEvent::Flags(master),
                RunEvent::Done,
            ],
        ) == seq![
            RunAction::GetFlags(ProxyEnd::Rfcomm),
            RunAction::SetFlags(ProxyEnd::Rfcomm, known_status_flags(rfcomm) | O_NONBLOCK),
            RunAction::GetFlags(ProxyEnd::Master),
            RunAction::SetFlags(ProxyEnd::Master, known_status_flags(master) | O_NONBLOCK),
            RunAction::Shuttle,
        ],
{
    reveal_with_fuel(run_actions, 6);
    let e0 = seq![
        RunEvent::Done,
        RunEvent::Flags(rfcomm),
        RunEvent::Done,
        RunEvent::Flags(master),
        RunEvent::Done,
    ];
    let e1 = e0.drop_first();
    let e2 = e1.drop_first();
    let e3 = e2.drop_first();
    let e4 = e3.drop_first();
    assert(e4.drop_first() =~= Seq::empty());
    assert(e1[0] == e0[1] && e2[0] == e0[2] && e3[0] == e0[3] && e4[0] == e0[4]);
}

/// `events` are answers to what a proxy asks for, beginning in `phase`.
pub open spec fn run_answers(phase: RunPhase, events: Seq<RunEvent>) -> bool
    decreases events.len(),
{
    events.len() > 0 ==> run_awaits(phase, events[0]) && run_answers(
        run_next(phase, events[0]).0,
        events.drop_first(),
    )
}

/// Where a proxy stands after `events`, beginning in `phase`.
pub open spec fn run_after(phase: RunPhase, events: Seq<RunEvent>) -> RunPhase
    decreases events.len(),
{
    if events.len() == 0 {
        phase
    } else {
        run_after(run_next(phase, events[0]).0, events.drop_first())
    }
}

/// One event more at the front.
proof fn lemma_run_step(phase: RunPhase, event: RunEvent, rest: Seq<RunEvent>)
    ensures
        run_actions(phase, seq![event] + rest) == seq![run_next(phase, event).1] + run_actions(
            run_next(phase, event).0,
            rest,
        ),
        run_answers(phase, seq![event] + rest) <==> run_awaits(phase, event) && run_answers(
            run_next(phase, event).0,
            rest,
        ),
        run_after(phase, seq![event] + rest) == run_after(run_next(phase, event).0, rest),
{
    let events = seq![event] + rest;
    assert(events[0] == event);
    assert(events.drop_first() =~= rest);
}

/// What is asked of a proxy up to the fork of the child, and what it answers.
proof fn lemma_way_to_the_fork(settings: TermSettings, window: RunEvent, rest: Seq<RunEvent>)
    requires
        window is Window || window is Failed,
    ensures
        ({
            let events = seq![
                RunEvent::Start,
                RunEvent::Done,
                RunEvent::Done,
                RunEvent::Done,
                RunEvent::Settings(settings),
                window,
                RunEvent::Done,
                RunEvent::Done,
            ] + rest;
            let size = match window {
                RunEvent::Window(w) => w,
                _ => WindowSize { ws_row: 0, ws_col: 0, ws_xpixel: 0, ws_ypixel: 0 },
            };
            &&& run_answers(RunPhase::Starting, events) <==> run_answers(RunPhase::Forking, rest)
            &&& run_actions(RunPhase::Starting, events) == seq![
                RunAction::BlockSigchld,
                RunAction::IgnoreSighup,
                RunAction::OpenSignals,
                RunAction::ReadSettings,
                RunAction::ReadWindow,
                RunAction::OpenPty(settings, size),
                RunAction::SetRaw(raw_settings(settings)),
                RunAction::Fork,
            ] + run_actions(RunPhase::Forking, rest)
        }),
{
    let size = match window {
        RunEvent::Window(w) => w,
        _ => WindowSize { ws_row: 0, ws_col: 0, ws_xpixel: 0, ws_ypixel: 0 },
    };
    let e7 = seq![RunEvent::Done] + rest;
    let e6 = seq![RunEvent::Done] + e7;
    let e5 = seq![window] + e6;
    let e4 = seq![RunEvent::Settings(settings)] + e5;
    let e3 = seq![RunEvent::Done] + e4;
    let e2 = seq![RunEvent::Done] + e3;
    let e1 = seq![RunEvent::Done] + e2;
    let e0 = seq![RunEvent::Start] + e1;
    lemma_run_step(RunPhase::SettingRaw, RunEvent::Done, rest);
    lemma_run_step(RunPhase::OpeningPty(settings), RunEvent::Done, e7);
    lemma_run_step(RunPhase::ReadingWindow(settings), window, e6);
    lemma_run_step(RunPhase::ReadingSettings, RunEvent::Settings(settings), e5);
    lemma_run_step(RunPhase::OpeningSignals, RunEvent::Done, e4);
    lemma_run_step(RunPhase::IgnoringSighup, RunEvent::Done, e3);
    lemma_run_step(RunPhase::BlockingSigchld, RunEvent::Done, e2);
    lemma_run_step(RunPhase::Starting, RunEvent::Start, e1);
    let events = seq![
        RunEvent::Start,
        RunEvent::Done,
        RunEvent::Done,
        RunEvent::Done,
        RunEvent::Settings(settings),
        window,
        RunEvent::Done,
        RunEvent::Done,
    ] + rest;
    assert(events =~= e0);
    assert(run_actions(RunPhase::Starting, e0) =~= seq![
        RunAction::BlockSigchld,
        RunAction::IgnoreSighup,
        RunAction::OpenSignals,
        RunAction::ReadSettings,
        RunAction::ReadWindow,
        RunAction::OpenPty(settings, size),
        RunAction::SetRaw(raw_settings(settings)),
        RunAction::Fork,
    ] + run_actions(RunPhase::Forking, rest));
}

/// The way of a proxy in which nothing fails but, perhaps, the reading of the
/// window size, whatever it is answered: the child signal is blocked and
/// hangups are ignored before anything else; the settings and the size that
/// the rfcomm tty had go to the PTY before the tty is made raw, and that is
/// done before the child is forked; both descriptors become nonblocking before
/// bytes are passed on; and after that the child is looked at.
pub proof fn law_proxy_goes_its_way(
    settings: TermSettings,
    window: RunEvent,
    rfcomm: i32,
    master: i32,
    code: u8,
)
    requires
        window is Window || window is Failed,
    ensures
        ({
            let events = seq![
                RunEvent::Start,
                RunEvent::Done,
                RunEvent::Done,
                RunEvent::Done,
                RunEvent::Settings(settings),
                window,
                RunEvent::Done,
                RunEvent::Done,
                RunEvent::Done,
                RunEvent::Flags(rfcomm),
                RunEvent::Done,
                RunEvent::Flags(master),
                RunEvent::Done,
                RunEvent::Shuttled(code),
            ];
            let size = match window {
                RunEvent::Window(w) => w,
                _ => WindowSize { ws_row: 0, ws_col: 0, ws_xpixel: 0, ws_ypixel: 0 },
            };
            &&& run_answers(RunPhase::Starting, events)
            &&& run_actions(RunPhase::Starting, events) == seq![
                RunAction::BlockSigchld,
                RunAction::IgnoreSighup,
                RunAction::OpenSignals,
                RunAction::ReadSettings,
                RunAction::ReadWindow,
                RunAction::OpenPty(settings, size),
                RunAction::SetRaw(raw_settings(settings)),
                RunAction::Fork,
                RunAction::GetFlags(ProxyEnd::Rfcomm),
                RunAction::SetFlags(ProxyEnd::Rfcomm, known_status_flags(rfcomm) | 0x800),
                RunAction::GetFlags(ProxyEnd::Master),
                RunAction::SetFlags(ProxyEnd::Master, known_status_flags(master) | 0x800),
                RunAction::Shuttle,
                RunAction::Reap,
            ]
        }),
{
    let none = Seq::<RunEvent>::empty();
    let e5 = seq![RunEvent::Shuttled(code)] + none;
    let e4 = seq![RunEvent::Done] + e5;
    let e3 = seq![RunEvent::Flags(master)] + e4;
    let e2 = seq![RunEvent::Done] + e3;
    let e1 = seq![RunEvent::Flags(rfcomm)] + e2;
    let e0 = seq![RunEvent::Done] + e1;
    lemma_run_step(RunPhase::Shuttling, RunEvent::Shuttled(code), none);
    lemma_run_step(RunPhase::WritingFlags(ProxyEnd::Master), RunEvent::Done, e5);
    lemma_run_step(RunPhase::ReadingFlags(ProxyEnd::Master), RunEvent::Flags(master), e4);
    lemma_run_step(RunPhase::WritingFlags(ProxyEnd::Rfcomm), RunEvent::Done, e3);
    lemma_run_step(RunPhase::ReadingFlags(ProxyEnd::Rfcomm), RunEvent::Flags(rfcomm), e2);
    lemma_run_step(RunPhase::Forking, RunEvent::Done, e1);
    lemma_way_to_the_fork(settings, window, e0);
    let events = seq![
        RunEvent::Start,
        RunEvent::Done,
        RunEvent::Done,
        RunEvent::Done,
        RunEvent::Settings(settings),
        window,
        RunEvent::Done,
        RunEvent::Done,
        RunEvent::Done,
        RunEvent::Flags(rfcomm),
        RunEvent::Done,
        RunEvent::Flags(master),
        RunEvent::Done,
        RunEvent::Shuttled(code),
    ];
    assert(events =~= seq![
        RunEvent::Start,
        RunEvent::Done,
        RunEvent::Done,
        RunEvent::Done,
        RunEvent::Settings(settings),
        window,
        RunEvent::Done,
        RunEvent::Done,
    ] + e0);
}

proof fn lemma_run_last(phase: RunPhase, events: Seq<RunEvent>)
    requires
        run_answers(phase, events),
        events.len() > 0,
    ensures
        ({
            let before = run_after(phase, events.drop_last());
            &&& run_answers(phase, events.drop_last())
            &&& run_awaits(before, events.last())
            &&& run_after(phase, events) == run_next(before, events.last()).0
            &&& run_actions(phase, events) == run_actions(phase, events.drop_last()).push(
                run_next(before, events.last()).1,
            )
            &&& run_actions(phase, events).len() == events.len()
        }),
    decreases events.len(),
{
    let rest = events.drop_first();
    let next = run_next(phase, events[0]).0;
    reveal_with_fuel(run_after, 2);
    reveal_with_fuel(run_actions, 2);
    if rest.len() == 0 {
        assert(events.drop_last() =~= Seq::empty());
        assert(run_actions(phase, events) =~= seq![run_next(phase, events[0]).1]);
    } else {
        lemma_run_last(next, rest);
        assert(rest.drop_last() =~= events.drop_last().drop_first());
        assert(run_actions(phase, events) =~= run_actions(phase, events.drop_last()).push(
            run_next(run_after(phase, events.drop_last()), events.last()).1,
        ));
    }
}

/// `action` ends the proxy with the code that the end `outcome` of the child
/// gives it: the low byte of the child's own code, or of 128 and the number of
/// the signal that killed it; otherwise the code `shuttled` of the shuttle.
pub open spec fn exits_as_the_child(action: RunAction, outcome: WaitOutcome, shuttled: u8) -> bool {
    action matches RunAction::Exit(code) && match outcome {
        WaitOutcome::Exited(own) => (own - code) % 256 == 0,
        WaitOutcome::Signaled(signal) => (128 + signal - code) % 256 == 0,
        _ => code == shuttled,
    }
}

/// Once the shuttle has ended, with whatever code, the child is made sure of: a
/// look that reports its end ends the proxy with the code of that; one that
/// finds it alive, or fails, has it terminated and waited for, and only that
/// wait ends the proxy.
pub proof fn law_child_is_made_sure_of(
    events: Seq<RunEvent>,
    code: u8,
    look: WaitOutcome,
    wait: WaitOutcome,
)
    requires
        run_answers(RunPhase::Starting, events),
        events.len() > 0,
        events.last() == RunEvent::Shuttled(code),
    ensures
        ({
            let phase = run_after(RunPhase::Starting, events);
            let (next, action) = run_next(phase, RunEvent::Waited(look));
            &&& run_actions(RunPhase::Starting, events).last() is Reap
            &&& run_awaits(phase, RunEvent::Waited(look))
            &&& match look {
                WaitOutcome::StillAlive | WaitOutcome::Failed => {
                    &&& action is TerminateAndWait
                    &&& run_awaits(next, RunEvent::Waited(wait))
                    &&& exits_as_the_child(run_next(next, RunEvent::Waited(wait)).1, wait, code)
                },
                _ => exits_as_the_child(action, look, code),
            }
        }),
{
    lemma_run_last(RunPhase::Starting, events);
}

proof fn lemma_exit_needs_a_wait(phase: RunPhase, events: Seq<RunEvent>)
    requires
        run_answers(phase, events),
        events.len() > 0,
        run_actions(phase, events).last() is Exit,
        !(phase is Terminating) || events.len() > 1,
    ensures
        ({
            let actions = run_actions(phase, events);
            &&& actions.len() == events.len()
            &&& events.last() matches RunEvent::Waited(outcome) && (outcome is Exited
                || outcome is Signaled || outcome is Changed || (actions.len() > 1
                && actions[actions.len() - 2] is TerminateAndWait))
        }),
    decreases events.len(),
{
    lemma_run_last(phase, events);
    let before = run_after(phase, events.drop_last());
    if events.len() > 1 {
        lemma_run_last(phase, events.drop_last());
        let actions = run_actions(phase, events);
        assert(actions[actions.len() - 2] == run_actions(phase, events.drop_last()).last());
        assert(before is Terminating ==> run_actions(
            phase,
            events.drop_last(),
        ).last() is TerminateAndWait);
    } else {
        assert(events.drop_last() =~= Seq::empty());
    }
}

/// No child is left behind: a proxy ends with an exit code only when it has
/// been told of the end of the child, or has sent it a termination signal and
/// waited for it.
pub proof fn law_no_child_is_left_behind(events: Seq<RunEvent>)
    requires
        run_answers(RunPhase::Starting, events),
        events.len() > 0,
        run_actions(RunPhase::Starting, events).last() is Exit,
    ensures
        ({
            let actions = run_actions(RunPhase::Starting, events);
            &&& actions.len() == events.len()
            &&& events.last() matches RunEvent::Waited(outcome) && (outcome is Exited
                || outcome is Signaled || outcome is Changed || (actions.len() > 1
                && actions[actions.len() - 2] is TerminateAndWait))
        }),
{
    lemma_exit_needs_a_wait(RunPhase::Starting, events);
}

/// A proxy fails only with an error that it was told of, and every error that
/// it is told of but that of the window size ends it.
pub proof fn law_proxy_fails_only_as_told(phase: RunPhase, event: RunEvent)
    requires
        run_awaits(phase, event),
    ensures
        ({
            let action = run_next(phase, event).1;
            &&& action matches RunAction::Fail(errno) ==> event == RunEvent::Failed(errno)
            &&& event is Failed && !(phase is ReadingWindow) ==> action is Fail
            &&& phase is ReadingWindow ==> action is OpenPty
        }),
{
}

/// A proxy waits for what it has asked for, and takes every answer that there
/// can be to it.
pub proof fn law_proxy_takes_every_answer(phase: RunPhase, event: RunEvent, answer: RunEvent)
    requires
        run_awaits(phase, event),
    ensures
        run_awaits(RunPhase::Starting, answer) <==> answer is Start,
        ({
            let (next, action) = run_next(phase, event);
            &&& action is ReadWindow <==> next is ReadingWindow
            &&& run_awaits(next, answer) <==> match action {
                RunAction::ReadSettings => answer is Settings || answer is Failed,
                RunAction::ReadWindow => answer is Window || answer is Failed,
                RunAction::GetFlags(_) => answer is Flags || answer is Failed,
                RunAction::Shuttle => answer is Shuttled,
                RunAction::Reap | RunAction::TerminateAndWait => answer is Waited,
                RunAction::Exit(_) | RunAction::Fail(_) => false,
                _ => answer is Done || answer is Failed,
            }
        }),
{
}

} // verus!
