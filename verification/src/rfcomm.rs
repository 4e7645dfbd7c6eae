//! RFCOMM ttys: the requests that create and release them, and the sequence
//! that makes a fresh one usable.
//!
//! Layout and flag numbers follow `struct rfcomm_dev_req` of the kernel.

use vstd::prelude::*;
use vstd::string::*;
use crate::errno::{classify, kind_of, ErrorKind};
use crate::text::{
    decimal, law_decimal_reads_back, lemma_decimal_characters, lemma_decimal_injective, number_of,
    push_decimal,
};

verus! {

/// Address family of Bluetooth sockets.
pub const AF_BLUETOOTH: i32 = 31;

/// Protocol number of RFCOMM sockets.
pub const BTPROTO_RFCOMM: i32 = 3;

/// Bit number (not a mask): wrap a tty around the DLC that the socket owns.
pub const RFCOMM_REUSE_DLC: u32 = 0;

/// Bit number (not a mask): hang the tty up at once.
pub const RFCOMM_HANGUP_NOW: u32 = 2;

/// `_IOW('R', 200, int)`.
pub const RFCOMMCREATEDEV: u32 = 0x400452c8;

/// `_IOW('R', 201, int)`.
pub const RFCOMMRELEASEDEV: u32 = 0x400452c9;

/// How often the device node of a new tty is opened before giving up.
pub const OPEN_ATTEMPTS: u32 = 30;

/// Pause after a failed attempt, in milliseconds.
pub const RETRY_DELAY_MS: u64 = 50;

/// A device request. The fields `gap` and `tail` stand for the alignment gaps
/// of the C struct, so that the size is that of the C struct; the order in
/// memory is left to the compiler.
#[derive(Clone, Copy, Debug)]
pub struct RfcommDevReq {
    pub dev_id: i16,
    pub gap: [u8; 2],
    pub flags: u32,
    pub src: [u8; 6],
    pub dst: [u8; 6],
    pub channel: u8,
    pub tail: [u8; 3],
}

impl RfcommDevReq {
    /// The gaps hold zeros.
    pub open spec fn wf(&self) -> bool {
        &&& self.gap@ == seq![0u8, 0u8]
        &&& self.tail@ == seq![0u8, 0u8, 0u8]
    }
}

/// The all-zero Bluetooth address.
pub open spec fn bdaddr_any() -> Seq<u8> {
    seq![0u8, 0u8, 0u8, 0u8, 0u8, 0u8]
}

impl Default for RfcommDevReq {
    fn default() -> (r: Self)
        ensures
            r.wf(),
            r.dev_id == 0,
            r.flags == 0,
            r.src@ == bdaddr_any(),
            r.dst@ == bdaddr_any(),
            r.channel == 0,
    {
        RfcommDevReq {
            dev_id: 0,
            gap: [0, 0],
            flags: 0,
            src: [0, 0, 0, 0, 0, 0],
            dst: [0, 0, 0, 0, 0, 0],
            channel: 0,
            tail: [0, 0, 0],
        }
    }
}

/// One end of an RFCOMM socket.
#[derive(Clone, Copy, Debug)]
pub struct SockaddrRc {
    pub rc_family: u16,
    pub rc_bdaddr: [u8; 6],
    pub rc_channel: u8,
}

impl Default for SockaddrRc {
    fn default() -> (r: Self)
        ensures
            r.rc_family == 0,
            r.rc_bdaddr@ == bdaddr_any(),
            r.rc_channel == 0,
    {
        SockaddrRc { rc_family: 0, rc_bdaddr: [0, 0, 0, 0, 0, 0], rc_channel: 0 }
    }
}

/// A socket that is not a Bluetooth socket on both ends.
#[derive(Clone, Copy, Debug, PartialEq, Eq, Structural)]
pub struct NotBluetooth {
    pub local: u16,
    pub remote: u16,
}

impl NotBluetooth {
    /// What the daemon reports.
    pub open spec fn spec_message(&self) -> Seq<char> {
        "socket is not AF_BLUETOOTH (local="@ + decimal(self.local as int) + ", remote="@ + decimal(
            self.remote as int,
        ) + ")"@
    }

    pub fn message(&self) -> (r: String)
        ensures
            r@ == self.spec_message(),
    {
        let mut s = String::new();
        s.append("socket is not AF_BLUETOOTH (local=");
        push_decimal(&mut s, self.local as i64);
        s.append(", remote=");
        push_decimal(&mut s, self.remote as i64);
        s.append(")");
        s
    }
}

/// Both ends belong to the Bluetooth address family.
pub open spec fn is_bluetooth_pair(local: SockaddrRc, remote: SockaddrRc) -> bool {
    local.rc_family == AF_BLUETOOTH && remote.rc_family == AF_BLUETOOTH
}

/// A socket is taken for a Bluetooth socket exactly where both of its ends are of
/// the address family 31, whatever their addresses and channels.
pub proof fn law_address_family_decides(local: SockaddrRc, remote: SockaddrRc)
    ensures
        is_bluetooth_pair(local, remote) <==> local.rc_family == 31 && remote.rc_family == 31,
{
}

/// The request that promotes the connected DLC socket between `local` and
/// `remote` into a tty, for `RFCOMMCREATEDEV` on that socket.
///
/// Any free device number is taken (-1), and the DLC of the socket is reused.
/// The device is not released on hangup: the kernel also hangs the tty up
/// when a login session ends, and the peer is to get a fresh prompt then.
pub fn create_tty(local: &SockaddrRc, remote: &SockaddrRc) -> (r: Result<
    RfcommDevReq,
    NotBluetooth,
>)
    ensures
        r is Ok <==> is_bluetooth_pair(*local, *remote),
        r matches Ok(req) ==> {
            &&& req.wf()
            &&& req.dev_id == -1
            &&& req.flags == 1
            &&& req.src == local.rc_bdaddr
            &&& req.dst == remote.rc_bdaddr
            &&& req.channel == remote.rc_channel
        },
        r matches Err(e) ==> e.local == local.rc_family && e.remote == remote.rc_family,
{
    if local.rc_family as i32 != AF_BLUETOOTH || remote.rc_family as i32 != AF_BLUETOOTH {
        return Err(NotBluetooth { local: local.rc_family, remote: remote.rc_family });
    }
    assert(1u32 << 0u32 == 1u32) by (bit_vector);
    Ok(
        RfcommDevReq {
            dev_id: -1,
            gap: [0, 0],
            flags: 1u32 << RFCOMM_REUSE_DLC,
            src: local.rc_bdaddr,
            dst: remote.rc_bdaddr,
            channel: remote.rc_channel,
            tail: [0, 0, 0],
        },
    )
}

/// The device number in what `RFCOMMCREATEDEV` returned: its low 16 bits.
pub fn device_number(ret: i32) -> (r: i16)
    ensures
        (ret - r) % 65536 == 0,
        i16::MIN <= ret <= i16::MAX ==> r == ret,
{
    let r: i16 = #[verifier::truncate] (ret as i16);
    assert((ret - r) % 65536 == 0) by (bit_vector)
        requires
            r == ret as i16,
    ;
    r
}

/// The request that tears the tty `dev_id` down, for `RFCOMMRELEASEDEV` on a
/// fresh control socket.
pub fn release_tty(dev_id: i16) -> (r: RfcommDevReq)
    ensures
        r.wf(),
        r.dev_id == dev_id,
        r.flags == 4,
        r.src@ == bdaddr_any(),
        r.dst@ == bdaddr_any(),
        r.channel == 0,
{
    assert(1u32 << 2u32 == 4u32) by (bit_vector);
    let mut req = RfcommDevReq::default();
    req.dev_id = dev_id;
    req.flags = 1u32 << RFCOMM_HANGUP_NOW;
    req
}

/// Path of the device node of the tty `dev_num`.
pub open spec fn device_path_of(dev_num: i16) -> Seq<char> {
    "/dev/rfcomm"@ + decimal(dev_num as int)
}

/// Path of the device node of the tty `dev_num`.
pub fn device_path(dev_num: i16) -> (r: String)
    ensures
        r@ == device_path_of(dev_num),
{
    let mut s = String::new();
    s.append("/dev/rfcomm");
    push_decimal(&mut s, dev_num as i64);
    s
}

/// A device path holds no NUL, so that it always makes a C string.
pub proof fn law_device_path_has_no_nul(dev_num: i16)
    ensures
        !device_path_of(dev_num).contains('\0'),
{
    reveal_strlit("/dev/rfcomm");
    lemma_decimal_characters(dev_num as int);
    let p = device_path_of(dev_num);
    assert forall|i: int| 0 <= i < p.len() implies p[i] != '\0' by {
        if i >= 11 {
            assert(p[i] == decimal(dev_num as int)[i - 11]);
        }
    }
}

/// Different ttys have different device paths.
pub proof fn law_device_paths_differ(a: i16, b: i16)
    requires
        a != b,
    ensures
        device_path_of(a) != device_path_of(b),
{
    reveal_strlit("/dev/rfcomm");
    if device_path_of(a) == device_path_of(b) {
        assert(device_path_of(a).skip(11) =~= decimal(a as int));
        assert(device_path_of(b).skip(11) =~= decimal(b as int));
        lemma_decimal_injective(a as int, b as int);
    }
}

/// Control flags with `CLOCAL` added, the flag that makes an open ignore the
/// carrier, as `nix::sys::termios::ControlFlags::union` adds it.
pub uninterp spec fn with_clocal(flags: u32) -> u32;

/// Calls `nix::sys::termios::ControlFlags::union` with the flag `CLOCAL`.
///
/// Trusted: the result depends on the flags alone, and is the flags with one
/// more bit set: the value that libc gives `CLOCAL` on the target, 0x8000 on
/// PowerPC and 0x800 on every other Linux target.
#[verifier::external_body]
fn add_clocal(flags: u32) -> (r: u32)
    ensures
        r == with_clocal(flags),
        r == flags | 0x800 || r == flags | 0x8000,
{
    nix::sys::termios::ControlFlags::from_bits_retain(flags).union(
        nix::sys::termios::ControlFlags::CLOCAL,
    ).bits()
}

/// The node may still be missing or not yet accessible: the device manager
/// lags the kernel a little.
pub open spec fn is_transient(errno: i32) -> bool {
    kind_of(errno) is NoEntry || kind_of(errno) is NoDevice || kind_of(errno) is Access
}

/// Where the priming of a tty stands.
#[derive(Clone, Copy, Debug, PartialEq, Eq, Structural)]
pub enum PrimePhase {
    /// To be started.
    Starting,
    /// The node is being opened, after `failed` attempts that failed.
    Opening { failed: u32 },
    /// A pause after the attempt number `failed`, which failed with `errno`.
    Pausing { failed: u32, errno: i32 },
    /// The terminal settings of the open node are being read.
    Reading { fd: i32 },
    /// They are being written back.
    Writing { fd: i32 },
    /// Over.
    Finished,
}

/// What the operating system answered.
#[derive(Clone, Copy, Debug, PartialEq, Eq, Structural)]
pub enum PrimeEvent {
    /// The priming begins.
    Start,
    /// The node is open under this descriptor.
    Opened(i32),
    /// It could not be opened, with this error number.
    OpenFailed(i32),
    /// The pause is over.
    Paused,
    /// The control flags that were read.
    GotFlags(u32),
    /// The settings could not be read.
    GetFailed(i32),
    /// The settings are in force.
    FlagsSet,
    /// The settings could not be written.
    SetFailed(i32),
}

/// What is to be done next.
#[derive(Clone, Copy, Debug, PartialEq, Eq, Structural)]
pub enum PrimeAction {
    /// Open the device node, read and write, without blocking and without
    /// taking it as the controlling terminal.
    Open,
    /// Pause for `RETRY_DELAY_MS`.
    Pause,
    /// Read the terminal settings of the descriptor.
    GetSettings(i32),
    /// Write the settings that were read, with these control flags, at once.
    SetSettings { fd: i32, c_cflag: u32 },
    /// The tty is ready: hand its descriptor over.
    Done(i32),
    /// Close `close`, if there is one, and report the error number.
    Fail { errno: i32, close: Option<i32> },
}

/// `event` is an answer to what `phase` waits for.
pub open spec fn prime_awaits(phase: PrimePhase, event: PrimeEvent) -> bool {
    match phase {
        PrimePhase::Starting => event is Start,
        PrimePhase::Opening { .. } => event is Opened || event is OpenFailed,
        PrimePhase::Pausing { .. } => event is Paused,
        PrimePhase::Reading { .. } => event is GotFlags || event is GetFailed,
        PrimePhase::Writing { .. } => event is FlagsSet || event is SetFailed,
        PrimePhase::Finished => false,
    }
}

/// What follows an open that failed for the time number `failed`.
pub open spec fn prime_after_failed_open(failed: u32, errno: i32) -> (PrimePhase, PrimeAction) {
    if is_transient(errno) {
        (PrimePhase::Pausing { failed, errno }, PrimeAction::Pause)
    } else {
        (PrimePhase::Finished, PrimeAction::Fail { errno, close: None })
    }
}

/// The next phase and the next action.
pub open spec fn prime_next(phase: PrimePhase, event: PrimeEvent) -> (
    PrimePhase,
    PrimeAction,
)
    recommends
        prime_awaits(phase, event),
{
    match (phase, event) {
        (PrimePhase::Starting, PrimeEvent::Start) => (
            PrimePhase::Opening { failed: 0 },
            PrimeAction::Open,
        ),
        (PrimePhase::Opening { .. }, PrimeEvent::Opened(fd)) => (
            PrimePhase::Reading { fd },
            PrimeAction::GetSettings(fd),
        ),
        (PrimePhase::Opening { failed }, PrimeEvent::OpenFailed(errno)) => prime_after_failed_open(
            (failed + 1) as u32,
            errno,
        ),
        (PrimePhase::Pausing { failed, errno }, PrimeEvent::Paused) => if failed < OPEN_ATTEMPTS {
            (PrimePhase::Opening { failed }, PrimeAction::Open)
        } else {
            (PrimePhase::Finished, PrimeAction::Fail { errno, close: None })
        },
        (PrimePhase::Reading { fd }, PrimeEvent::GotFlags(c_cflag)) => (
            PrimePhase::Writing { fd },
            PrimeAction::SetSettings { fd, c_cflag: with_clocal(c_cflag) },
        ),
        (PrimePhase::Reading { fd }, PrimeEvent::GetFailed(errno)) => (
            PrimePhase::Finished,
            PrimeAction::Fail { errno, close: Some(fd) },
        ),
        (PrimePhase::Writing { fd }, PrimeEvent::FlagsSet) => (
            PrimePhase::Finished,
            PrimeAction::Done(fd),
        ),
        (PrimePhase::Writing { fd }, PrimeEvent::SetFailed(errno)) => (
            PrimePhase::Finished,
            PrimeAction::Fail { errno, close: Some(fd) },
        ),
        _ => arbitrary(),
    }
}

/// Opens the node of a fresh tty and makes it ignore the carrier.
///
/// The descriptor that comes out must stay open as long as the session lives:
/// the driver closes the connection when its last holder goes away.
pub struct PrimeTty {
    dev_num: i16,
    phase: PrimePhase,
}

impl View for PrimeTty {
    type V = PrimePhase;

    closed spec fn view(&self) -> PrimePhase {
        self.phase
    }
}

impl PrimeTty {
    /// The number of the tty.
    pub closed spec fn dev_num(&self) -> i16 {
        self.dev_num
    }

    /// Path of the node that `PrimeAction::Open` opens.
    pub fn path(&self) -> (r: String)
        ensures
            r@ == device_path_of(self.dev_num()),
    {
        device_path(self.dev_num)
    }

    /// Not more attempts have failed than are made.
    pub open spec fn wf(&self) -> bool {
        prime_wf(self@)
    }

    /// Takes the answer to the last action (at first `PrimeEvent::Start`), and
    /// says what to do next.
    pub fn step(&mut self, event: PrimeEvent) -> (action: PrimeAction)
        requires
            old(self).wf(),
            prime_awaits(old(self)@, event),
        ensures
            final(self).wf(),
            final(self).dev_num() == old(self).dev_num(),
            (final(self)@, action) == prime_next(old(self)@, event),
            action matches PrimeAction::SetSettings { fd: _, c_cflag } ==> c_cflag
                == event->GotFlags_0 | 0x800 || c_cflag == event->GotFlags_0 | 0x8000,
    {
        let (phase, action) = match (self.phase, event) {
            (PrimePhase::Starting, PrimeEvent::Start) => (
                PrimePhase::Opening { failed: 0 },
                PrimeAction::Open,
            ),
            (PrimePhase::Opening { .. }, PrimeEvent::Opened(fd)) => (
                PrimePhase::Reading { fd },
                PrimeAction::GetSettings(fd),
            ),
            (PrimePhase::Opening { failed }, PrimeEvent::OpenFailed(errno)) => match classify(
                errno,
            ) {
                ErrorKind::NoEntry | ErrorKind::NoDevice | ErrorKind::Access => (
                    PrimePhase::Pausing { failed: failed + 1, errno },
                    PrimeAction::Pause,
                ),
                _ => (PrimePhase::Finished, PrimeAction::Fail { errno, close: None }),
            },
            (PrimePhase::Pausing { failed, errno }, PrimeEvent::Paused) => if failed
                < OPEN_ATTEMPTS {
                (PrimePhase::Opening { failed }, PrimeAction::Open)
            } else {
                (PrimePhase::Finished, PrimeAction::Fail { errno, close: None })
            },
            (PrimePhase::Reading { fd }, PrimeEvent::GotFlags(c_cflag)) => (
                PrimePhase::Writing { fd },
                PrimeAction::SetSettings { fd, c_cflag: add_clocal(c_cflag) },
            ),
            (PrimePhase::Reading { fd }, PrimeEvent::GetFailed(errno)) => (
                PrimePhase::Finished,
                PrimeAction::Fail { errno, close: Some(fd) },
            ),
            (PrimePhase::Writing { fd }, PrimeEvent::FlagsSet) => (
                PrimePhase::Finished,
                PrimeAction::Done(fd),
            ),
            (PrimePhase::Writing { fd }, PrimeEvent::SetFailed(errno)) => (
                PrimePhase::Finished,
                PrimeAction::Fail { errno, close: Some(fd) },
            ),
            _ => {
                assert(false);
                (PrimePhase::Finished, PrimeAction::Open)
            },
        };
        self.phase = phase;
        action
    }
}

/// A phase that can be reached: fewer than `OPEN_ATTEMPTS` opens have failed
/// before another one is made.
pub open spec fn prime_wf(phase: PrimePhase) -> bool {
    match phase {
        PrimePhase::Opening { failed } => failed < OPEN_ATTEMPTS,
        PrimePhase::Pausing { failed, .. } => 1 <= failed <= OPEN_ATTEMPTS,
        _ => true,
    }
}

/// The priming of the tty `dev_num`, to be started.
pub fn prime_tty(dev_num: i16) -> (r: PrimeTty)
    ensures
        r.wf(),
        r.dev_num() == dev_num,
        r@ is Starting,
{
    PrimeTty { dev_num, phase: PrimePhase::Starting }
}

/// `events` are answers to what the priming asks for, beginning in `phase`.
pub open spec fn prime_answers(phase: PrimePhase, events: Seq<PrimeEvent>) -> bool
    decreases events.len(),
{
    events.len() > 0 ==> {
        &&& prime_awaits(phase, events[0])
        &&& prime_answers(
            prime_next(phase, events[0]).0,
            events.drop_first())
    }
}

/// What the priming does, beginning in `phase`, while it is given `events`.
pub open spec fn prime_actions(phase: PrimePhase, events: Seq<PrimeEvent>) -> Seq<
    PrimeAction,
>
    decreases events.len(),
{
    if events.len() == 0 {
        seq![]
    } else {
        let (next, action) = prime_next(phase, events[0]);
        seq![action] + prime_actions(next, events.drop_first())
    }
}

/// How often `action` occurs.
pub open spec fn times(actions: Seq<PrimeAction>, action: PrimeAction) -> nat {
    actions.filter(|a: PrimeAction| a == action).len()
}

proof fn lemma_times_cons(head: PrimeAction, tail: Seq<PrimeAction>, action: PrimeAction)
    ensures
        times(seq![head] + tail, action) == times(tail, action) + if head == action {
            1nat
        } else {
            0nat
        },
{
    let p = |a: PrimeAction| a == action;
    Seq::filter_distributes_over_add(seq![head], tail, p);
    assert(seq![head].drop_last() =~= Seq::<PrimeAction>::empty());
    reveal_with_fuel(Seq::filter, 2);
    assert(seq![head].filter(p).len() == if head == action { 1nat } else { 0nat });
    assert((seq![head] + tail).filter(p) == seq![head].filter(p) + tail.filter(p));
}

proof fn lemma_prime_bounded(phase: PrimePhase, events: Seq<PrimeEvent>)
    requires
        prime_wf(phase),
        prime_answers(phase, events),
    ensures
        ({
            let done = prime_actions(phase, events);
            let used = match phase {
                PrimePhase::Starting => 0,
                PrimePhase::Opening { failed } => failed as int + 1,
                PrimePhase::Pausing { failed, .. } => failed as int,
                _ => OPEN_ATTEMPTS as int,
            };
            let paused = match phase {
                PrimePhase::Starting => 0,
                PrimePhase::Opening { failed } => failed as int,
                PrimePhase::Pausing { failed, .. } => failed as int,
                _ => OPEN_ATTEMPTS as int,
            };
            &&& times(done, PrimeAction::Open) + used <= OPEN_ATTEMPTS
            &&& times(done, PrimeAction::Pause) + paused <= OPEN_ATTEMPTS
        }),
    decreases events.len(),
{
    if events.len() == 0 {
        assert(prime_actions(phase, events) =~= Seq::empty());
        reveal_with_fuel(Seq::filter, 1);
    } else {
        let (next, action) = prime_next(phase, events[0]);
        lemma_prime_bounded(next, events.drop_first());
        let rest = prime_actions(next, events.drop_first());
        lemma_times_cons(action, rest, PrimeAction::Open);
        lemma_times_cons(action, rest, PrimeAction::Pause);
    }
}

/// The wait for a device node is bounded: whatever happens, a node is opened
/// at most `OPEN_ATTEMPTS` times, with at most that many pauses.
pub proof fn law_priming_is_bounded(events: Seq<PrimeEvent>)
    requires
        prime_answers(PrimePhase::Starting, events),
    ensures
        times(prime_actions(PrimePhase::Starting, events), PrimeAction::Open) <= OPEN_ATTEMPTS,
        times(prime_actions(PrimePhase::Starting, events), PrimeAction::Pause) <= OPEN_ATTEMPTS,
{
    lemma_prime_bounded(PrimePhase::Starting, events);
}

/// One failed open after the other, each followed by a pause.
pub open spec fn failed_opens(errors: Seq<i32>) -> Seq<PrimeEvent>
    decreases errors.len(),
{
    if errors.len() == 0 {
        seq![]
    } else {
        seq![PrimeEvent::OpenFailed(errors[0]), PrimeEvent::Paused] + failed_opens(
            errors.drop_first(),
        )
    }
}

proof fn lemma_failed_opens(failed: u32, errors: Seq<i32>)
    requires
        failed + errors.len() <= OPEN_ATTEMPTS,
        errors.len() > 0,
        forall|i: int| 0 <= i < errors.len() ==> is_transient(#[trigger] errors[i]),
    ensures
        ({
            let phase = PrimePhase::Opening { failed };
            let actions = prime_actions(phase, failed_opens(errors));
            &&& prime_answers(phase, failed_opens(errors))
            &&& actions.len() > 0
            &&& actions.last() == if failed + errors.len() < OPEN_ATTEMPTS {
                PrimeAction::Open
            } else {
                PrimeAction::Fail { errno: errors.last(), close: None }
            }
        }),
    decreases errors.len(),
{
    let phase = PrimePhase::Opening { failed };
    let events = failed_opens(errors);
    let rest = failed_opens(errors.drop_first());
    let once = (failed + 1) as u32;
    assert(events.drop_first() =~= seq![PrimeEvent::Paused] + rest);
    assert(events.drop_first().drop_first() =~= rest);
    reveal_with_fuel(prime_actions, 3);
    reveal_with_fuel(prime_answers, 3);
    assert(is_transient(errors[0]));
    let after = if once < OPEN_ATTEMPTS {
        PrimePhase::Opening { failed: once }
    } else {
        PrimePhase::Finished
    };
    let second = if once < OPEN_ATTEMPTS {
        PrimeAction::Open
    } else {
        PrimeAction::Fail { errno: errors[0], close: None }
    };
    assert(prime_actions(phase, events) =~= seq![PrimeAction::Pause, second]
        + prime_actions(after, rest));
    if errors.len() > 1 {
        lemma_failed_opens(once, errors.drop_first());
        assert(errors.drop_first().last() == errors.last());
    } else {
        assert(rest =~= Seq::empty());
    }
}

/// A node that is merely late is opened again, until it has been missing
/// `OPEN_ATTEMPTS` times: then the last error is reported.
pub proof fn law_late_node_is_waited_for(errors: Seq<i32>)
    requires
        0 < errors.len() <= OPEN_ATTEMPTS,
        forall|i: int| 0 <= i < errors.len() ==> is_transient(#[trigger] errors[i]),
    ensures
        ({
            let events = seq![PrimeEvent::Start] + failed_opens(errors);
            let actions = prime_actions(PrimePhase::Starting, events);
            &&& prime_answers(PrimePhase::Starting, events)
            &&& actions.len() > 0
            &&& actions.last() == if errors.len() < OPEN_ATTEMPTS {
                PrimeAction::Open
            } else {
                PrimeAction::Fail { errno: errors.last(), close: None }
            }
        }),
{
    lemma_failed_opens(0, errors);
    let events = seq![PrimeEvent::Start] + failed_opens(errors);
    assert(events.drop_first() =~= failed_opens(errors));
    let first = PrimePhase::Opening { failed: 0 };
    assert(prime_actions(PrimePhase::Starting, events) =~= seq![PrimeAction::Open]
        + prime_actions(first, failed_opens(errors)));
}

/// The descriptor that is open in `phase`.
pub open spec fn prime_holds(phase: PrimePhase) -> Option<i32> {
    match phase {
        PrimePhase::Reading { fd } => Some(fd),
        PrimePhase::Writing { fd } => Some(fd),
        _ => None,
    }
}

/// No descriptor leaks: where the priming ends, the descriptor that is open is
/// either handed over or closed, and where it goes on it is still held.
pub proof fn law_priming_leaks_nothing(phase: PrimePhase, event: PrimeEvent)
    requires
        prime_awaits(phase, event),
    ensures
        ({
            let (next, action) = prime_next(phase, event);
            let open = match event {
                PrimeEvent::Opened(fd) => Some(fd),
                _ => prime_holds(phase),
            };
            &&& next is Finished <==> (action is Done || action is Fail)
            &&& action matches PrimeAction::Done(fd) ==> open == Some(fd)
            &&& action matches PrimeAction::Fail { errno: _, close } ==> open == close
            &&& !(next is Finished) ==> prime_holds(next) == open
        }),
{
}

/// A tty is handed over only after the control flags that were read have been
/// written back with `CLOCAL` added.
pub proof fn law_primed_tty_ignores_carrier(phase: PrimePhase, event: PrimeEvent)
    requires
        prime_awaits(phase, event),
    ensures
        ({
            let (next, action) = prime_next(phase, event);
            &&& action is Done ==> phase is Writing && event is FlagsSet
            &&& next is Writing ==> {
                &&& phase is Reading
                &&& event is GotFlags
                &&& action == PrimeAction::SetSettings {
                    fd: phase->Reading_fd,
                    c_cflag: with_clocal(event->GotFlags_0),
                }
            }
        }),
{
}

/// Where the priming stands after `events`, beginning in `phase`.
pub open spec fn prime_after(phase: PrimePhase, events: Seq<PrimeEvent>) -> PrimePhase
    decreases events.len(),
{
    if events.len() == 0 {
        phase
    } else {
        prime_after(prime_next(phase, events[0]).0, events.drop_first())
    }
}

/// One pause and one more open after the other.
pub open spec fn retries(n: nat) -> Seq<PrimeAction>
    decreases n,
{
    if n == 0 {
        seq![]
    } else {
        seq![PrimeAction::Pause, PrimeAction::Open] + retries((n - 1) as nat)
    }
}

proof fn lemma_prime_step(phase: PrimePhase, event: PrimeEvent, rest: Seq<PrimeEvent>)
    ensures
        prime_actions(phase, seq![event] + rest) == seq![prime_next(phase, event).1]
            + prime_actions(prime_next(phase, event).0, rest),
        prime_answers(phase, seq![event] + rest) <==> prime_awaits(phase, event) && prime_answers(
            prime_next(phase, event).0,
            rest,
        ),
{
    let events = seq![event] + rest;
    assert(events[0] == event);
    assert(events.drop_first() =~= rest);
}

/// The error number of a node that may only be late: `ENOENT`, `EACCES` or
/// `ENODEV`.
pub open spec fn may_be_late(errno: i32) -> bool {
    errno == 2 || errno == 13 || errno == 19
}

proof fn lemma_retries(failed: u32, errors: Seq<i32>, rest: Seq<PrimeEvent>)
    requires
        failed + errors.len() < 30,
        forall|i: int| 0 <= i < errors.len() ==> may_be_late(#[trigger] errors[i]),
    ensures
        ({
            let events = failed_opens(errors) + rest;
            let at = PrimePhase::Opening { failed };
            let then = PrimePhase::Opening { failed: (failed + errors.len()) as u32 };
            &&& prime_answers(at, events) <==> prime_answers(then, rest)
            &&& prime_actions(at, events) == retries(errors.len()) + prime_actions(then, rest)
        }),
    decreases errors.len(),
{
    let events = failed_opens(errors) + rest;
    let at = PrimePhase::Opening { failed };
    let then = PrimePhase::Opening { failed: (failed + errors.len()) as u32 };
    if errors.len() == 0 {
        assert(events =~= rest);
        assert(prime_actions(at, events) =~= retries(0) + prime_actions(then, rest));
    } else {
        let once = (failed + 1) as u32;
        let less = errors.drop_first();
        let e2 = failed_opens(less) + rest;
        let e1 = seq![PrimeEvent::Paused] + e2;
        assert(events =~= seq![PrimeEvent::OpenFailed(errors[0])] + e1);
        assert(may_be_late(errors[0]));
        lemma_prime_step(at, PrimeEvent::OpenFailed(errors[0]), e1);
        lemma_prime_step(
            PrimePhase::Pausing { failed: once, errno: errors[0] },
            PrimeEvent::Paused,
            e2,
        );
        assert forall|i: int| 0 <= i < less.len() implies may_be_late(#[trigger] less[i]) by {
            assert(less[i] == errors[i + 1]);
        }
        lemma_retries(once, less, rest);
        assert(prime_actions(at, events) =~= retries(errors.len()) + prime_actions(then, rest));
    }
}

/// A priming for which the node appears in time and in which nothing fails
/// after that succeeds, whatever the descriptor, and whatever control flags the
/// tty has: these are written back with `CLOCAL` added, and the descriptor is
/// handed over.
pub proof fn law_priming_succeeds(errors: Seq<i32>, fd: i32, c_cflag: u32)
    requires
        errors.len() < 30,
        forall|i: int| 0 <= i < errors.len() ==> may_be_late(#[trigger] errors[i]),
    ensures
        ({
            let events = seq![PrimeEvent::Start] + (failed_opens(errors) + seq![
                PrimeEvent::Opened(fd),
                PrimeEvent::GotFlags(c_cflag),
                PrimeEvent::FlagsSet,
            ]);
            &&& prime_answers(PrimePhase::Starting, events)
            &&& prime_actions(PrimePhase::Starting, events) == seq![PrimeAction::Open] + (retries(
                errors.len(),
            ) + seq![
                PrimeAction::GetSettings(fd),
                PrimeAction::SetSettings { fd, c_cflag: with_clocal(c_cflag) },
                PrimeAction::Done(fd),
            ])
        }),
{
    let none = Seq::<PrimeEvent>::empty();
    let e2 = seq![PrimeEvent::FlagsSet] + none;
    let e1 = seq![PrimeEvent::GotFlags(c_cflag)] + e2;
    let e0 = seq![PrimeEvent::Opened(fd)] + e1;
    let then = PrimePhase::Opening { failed: errors.len() as u32 };
    lemma_prime_step(PrimePhase::Writing { fd }, PrimeEvent::FlagsSet, none);
    lemma_prime_step(PrimePhase::Reading { fd }, PrimeEvent::GotFlags(c_cflag), e2);
    lemma_prime_step(then, PrimeEvent::Opened(fd), e1);
    lemma_retries(0, errors, e0);
    lemma_prime_step(PrimePhase::Starting, PrimeEvent::Start, failed_opens(errors) + e0);
    assert(e0 =~= seq![
        PrimeEvent::Opened(fd),
        PrimeEvent::GotFlags(c_cflag),
        PrimeEvent::FlagsSet,
    ]);
    assert(prime_actions(then, e0) =~= seq![
        PrimeAction::GetSettings(fd),
        PrimeAction::SetSettings { fd, c_cflag: with_clocal(c_cflag) },
        PrimeAction::Done(fd),
    ]);
}

/// A node that is late for the last time fails the priming with its last error,
/// after a last pause.
pub proof fn law_waiting_comes_to_an_end(errors: Seq<i32>, last: i32)
    requires
        errors.len() == 29,
        forall|i: int| 0 <= i < errors.len() ==> may_be_late(#[trigger] errors[i]),
        may_be_late(last),
    ensures
        ({
            let events = seq![PrimeEvent::Start] + (failed_opens(errors) + seq![
                PrimeEvent::OpenFailed(last),
                PrimeEvent::Paused,
            ]);
            &&& prime_answers(PrimePhase::Starting, events)
            &&& prime_actions(PrimePhase::Starting, events) == seq![PrimeAction::Open] + (retries(
                29,
            ) + seq![PrimeAction::Pause, PrimeAction::Fail { errno: last, close: None }])
        }),
{
    let none = Seq::<PrimeEvent>::empty();
    let e1 = seq![PrimeEvent::Paused] + none;
    let e0 = seq![PrimeEvent::OpenFailed(last)] + e1;
    let then = PrimePhase::Opening { failed: 29 };
    lemma_prime_step(PrimePhase::Pausing { failed: 30, errno: last }, PrimeEvent::Paused, none);
    lemma_prime_step(then, PrimeEvent::OpenFailed(last), e1);
    lemma_retries(0, errors, e0);
    lemma_prime_step(PrimePhase::Starting, PrimeEvent::Start, failed_opens(errors) + e0);
    assert(e0 =~= seq![PrimeEvent::OpenFailed(last), PrimeEvent::Paused]);
    assert(prime_actions(then, e0) =~= seq![
        PrimeAction::Pause,
        PrimeAction::Fail { errno: last, close: None },
    ]);
}

/// Any other error of an open, and any error of what follows it, fails the
/// priming at once, with that error, and the descriptor closed if one is open.
pub proof fn law_errors_fail_the_priming(errors: Seq<i32>, fd: i32, c_cflag: u32, errno: i32)
    requires
        errors.len() < 30,
        forall|i: int| 0 <= i < errors.len() ==> may_be_late(#[trigger] errors[i]),
    ensures
        ({
            let start = PrimePhase::Starting;
            let late = failed_opens(errors);
            let begin = seq![PrimeEvent::Start];
            let unopened = begin + (late + seq![PrimeEvent::OpenFailed(errno)]);
            let unread = begin + (late + seq![
                PrimeEvent::Opened(fd),
                PrimeEvent::GetFailed(errno),
            ]);
            let unset = begin + (late + seq![
                PrimeEvent::Opened(fd),
                PrimeEvent::GotFlags(c_cflag),
                PrimeEvent::SetFailed(errno),
            ]);
            &&& prime_answers(start, unopened)
            &&& !may_be_late(errno) ==> prime_actions(start, unopened).last()
                == PrimeAction::Fail { errno, close: None }
            &&& prime_answers(start, unread)
            &&& prime_actions(start, unread).last() == PrimeAction::Fail { errno, close: Some(fd) }
            &&& prime_answers(start, unset)
            &&& prime_actions(start, unset).last() == PrimeAction::Fail { errno, close: Some(fd) }
        }),
{
    let none = Seq::<PrimeEvent>::empty();
    let start = PrimePhase::Starting;
    let late = failed_opens(errors);
    let then = PrimePhase::Opening { failed: errors.len() as u32 };

    let a0 = seq![PrimeEvent::OpenFailed(errno)] + none;
    assert(a0 =~= seq![PrimeEvent::OpenFailed(errno)]);
    lemma_prime_step(then, PrimeEvent::OpenFailed(errno), none);
    lemma_retries(0, errors, a0);
    lemma_prime_step(start, PrimeEvent::Start, late + a0);

    let b1 = seq![PrimeEvent::GetFailed(errno)] + none;
    let b0 = seq![PrimeEvent::Opened(fd)] + b1;
    assert(b0 =~= seq![PrimeEvent::Opened(fd), PrimeEvent::GetFailed(errno)]);
    lemma_prime_step(PrimePhase::Reading { fd }, PrimeEvent::GetFailed(errno), none);
    lemma_prime_step(then, PrimeEvent::Opened(fd), b1);
    lemma_retries(0, errors, b0);
    lemma_prime_step(start, PrimeEvent::Start, late + b0);

    let c2 = seq![PrimeEvent::SetFailed(errno)] + none;
    let c1 = seq![PrimeEvent::GotFlags(c_cflag)] + c2;
    let c0 = seq![PrimeEvent::Opened(fd)] + c1;
    assert(c0 =~= seq![
        PrimeEvent::Opened(fd),
        PrimeEvent::GotFlags(c_cflag),
        PrimeEvent::SetFailed(errno),
    ]);
    lemma_prime_step(PrimePhase::Writing { fd }, PrimeEvent::SetFailed(errno), none);
    lemma_prime_step(PrimePhase::Reading { fd }, PrimeEvent::GotFlags(c_cflag), c2);
    lemma_prime_step(then, PrimeEvent::Opened(fd), c1);
    lemma_retries(0, errors, c0);
    lemma_prime_step(start, PrimeEvent::Start, late + c0);
}

proof fn lemma_prime_last(phase: PrimePhase, events: Seq<PrimeEvent>)
    requires
        prime_answers(phase, events),
        events.len() > 0,
    ensures
        ({
            let before = prime_after(phase, events.drop_last());
            &&& prime_answers(phase, events.drop_last())
            &&& prime_awaits(before, events.last())
            &&& prime_after(phase, events) == prime_next(before, events.last()).0
            &&& prime_actions(phase, events).len() == events.len()
            &&& prime_actions(phase, events).last() == prime_next(before, events.last()).1
        }),
    decreases events.len(),
{
    let rest = events.drop_first();
    let next = prime_next(phase, events[0]).0;
    reveal_with_fuel(prime_after, 2);
    reveal_with_fuel(prime_actions, 2);
    if rest.len() == 0 {
        assert(events.drop_last() =~= Seq::empty());
        assert(prime_actions(phase, events) =~= seq![prime_next(phase, events[0]).1]);
    } else {
        lemma_prime_last(next, rest);
        assert(rest.drop_last() =~= events.drop_last().drop_first());
        assert(prime_actions(phase, events).last() == prime_actions(next, rest).last());
    }
}

/// A priming fails only with an error that it was told of: the failure that it
/// was told of last, which was either just now or, of an open, before the pause
/// that is just over.
pub proof fn law_priming_fails_only_as_told(events: Seq<PrimeEvent>, errno: i32, close: Option<i32>)
    requires
        prime_answers(PrimePhase::Starting, events),
        events.len() > 0,
        prime_actions(PrimePhase::Starting, events).last() == (PrimeAction::Fail { errno, close }),
    ensures
        events.len() > 1,
        ({
            let told = if events.last() is Paused {
                events[events.len() - 2]
            } else {
                events.last()
            };
            match told {
                PrimeEvent::OpenFailed(e) => e == errno && close is None,
                PrimeEvent::GetFailed(e) => e == errno,
                PrimeEvent::SetFailed(e) => e == errno,
                _ => false,
            }
        }),
{
    let start = PrimePhase::Starting;
    lemma_prime_last(start, events);
    if events.len() > 1 {
        lemma_prime_last(start, events.drop_last());
        assert(events.drop_last().last() == events[events.len() - 2]);
    } else {
        assert(events.drop_last() =~= Seq::empty());
    }
}

/// A descriptor is handed over only where it was opened, its settings were read
/// and they were then written back, one right after the other.
pub proof fn law_only_a_primed_tty_is_handed_over(events: Seq<PrimeEvent>, fd: i32)
    requires
        prime_answers(PrimePhase::Starting, events),
        events.len() > 0,
        prime_actions(PrimePhase::Starting, events).last() == PrimeAction::Done(fd),
    ensures
        events.len() > 3,
        events[events.len() - 3] == PrimeEvent::Opened(fd),
        events[events.len() - 2] is GotFlags,
        events.last() is FlagsSet,
{
    let start = PrimePhase::Starting;
    lemma_prime_last(start, events);
    let e1 = events.drop_last();
    let e2 = e1.drop_last();
    let e3 = e2.drop_last();
    if events.len() > 1 {
        lemma_prime_last(start, e1);
        assert(e1.last() == events[events.len() - 2]);
        if events.len() > 2 {
            lemma_prime_last(start, e2);
            assert(e2.last() == events[events.len() - 3]);
            if events.len() == 3 {
                assert(e3 =~= Seq::empty());
            }
        } else {
            assert(e2 =~= Seq::empty());
        }
    } else {
        assert(e1 =~= Seq::empty());
    }
}

/// The priming waits for what it has asked for, and takes every answer that
/// there can be to it.
pub proof fn law_priming_takes_every_answer(
    phase: PrimePhase,
    event: PrimeEvent,
    answer: PrimeEvent,
)
    requires
        prime_awaits(phase, event),
    ensures
        prime_awaits(PrimePhase::Starting, answer) <==> answer is Start,
        ({
            let (next, action) = prime_next(phase, event);
            prime_awaits(next, answer) <==> match action {
                PrimeAction::Open => answer is Opened || answer is OpenFailed,
                PrimeAction::Pause => answer is Paused,
                PrimeAction::GetSettings(_) => answer is GotFlags || answer is GetFailed,
                PrimeAction::SetSettings { .. } => answer is FlagsSet || answer is SetFailed,
                PrimeAction::Done(_) | PrimeAction::Fail { .. } => false,
            }
        }),
{
}

/// A device path is `/dev/rfcomm` and the number of the tty, which reads back
/// as that number.
pub proof fn law_device_path_tells_the_number(dev_num: i16)
    ensures
        ({
            let path = device_path_of(dev_num);
            &&& path.len() > 11
            &&& path.take(11) == seq!['/', 'd', 'e', 'v', '/', 'r', 'f', 'c', 'o', 'm', 'm']
            &&& number_of(path.skip(11)) == dev_num
        }),
{
    reveal_strlit("/dev/rfcomm");
    let path = device_path_of(dev_num);
    law_decimal_reads_back(dev_num as int);
    assert(path.skip(11) =~= decimal(dev_num as int));
    assert(path.take(11) =~= seq!['/', 'd', 'e', 'v', '/', 'r', 'f', 'c', 'o', 'm', 'm']);
}

/// The message of a refused socket begins and ends as it should, and tells both
/// address families, the local one first.
pub proof fn law_refusal_tells_the_families(e: NotBluetooth)
    ensures
        ({
            let text = e.spec_message();
            let n = decimal(e.local as int).len() as int;
            let m = decimal(e.remote as int).len() as int;
            &&& text.len() == 34 + n + 9 + m + 1
            &&& text.take(34) == "socket is not AF_BLUETOOTH (local="@
            &&& number_of(text.subrange(34, 34 + n)) == e.local
            &&& text.subrange(34 + n, 43 + n) == ", remote="@
            &&& number_of(text.subrange(43 + n, 43 + n + m)) == e.remote
            &&& text.last() == ')'
        }),
{
    reveal_strlit("socket is not AF_BLUETOOTH (local=");
    reveal_strlit(", remote=");
    reveal_strlit(")");
    law_decimal_reads_back(e.local as int);
    law_decimal_reads_back(e.remote as int);
    let text = e.spec_message();
    let n = decimal(e.local as int).len() as int;
    let m = decimal(e.remote as int).len() as int;
    assert(text.take(34) =~= "socket is not AF_BLUETOOTH (local="@);
    assert(text.subrange(34, 34 + n) =~= decimal(e.local as int));
    assert(text.subrange(34 + n, 43 + n) =~= ", remote="@);
    assert(text.subrange(43 + n, 43 + n + m) =~= decimal(e.remote as int));
}

} // verus!
