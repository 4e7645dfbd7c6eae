//! The sessions of the profile: which device has one, and what happens when a
//! device connects, disconnects or its login session ends.

use vstd::hash_map::StringHashMap;
use vstd::prelude::*;
use vstd::string::*;
use crate::rfcomm::{bdaddr_any, release_tty, RfcommDevReq};
use crate::systemd::{start_getty, unit_name, unit_name_for, UnitCall, UnitMethod};

verus! {

/// A live session. The `id` tells it from earlier and later sessions of the
/// same device.
#[derive(Clone, Copy, Debug, PartialEq, Eq, Structural)]
pub struct SessionEntry {
    pub id: u64,
    pub dev_num: i16,
}

/// The state of a profile.
#[verifier::ext_equal]
pub struct Registry {
    pub unit_template: Seq<char>,
    /// The live session of each device.
    pub sessions: Map<Seq<char>, SessionEntry>,
    /// The identifier of the next session.
    pub next_id: u64,
}

impl Registry {
    /// The session of `device`, if it has one.
    pub open spec fn session(self, device: Seq<char>) -> Option<SessionEntry> {
        if self.sessions.contains_key(device) {
            Some(self.sessions[device])
        } else {
            None
        }
    }

    /// Without the session of `device`.
    pub open spec fn evicted(self, device: Seq<char>) -> Registry {
        Registry { sessions: self.sessions.remove(device), ..self }
    }

    /// With the next identifier taken. Identifiers start over after the last one.
    pub open spec fn allocated(self) -> Registry {
        Registry {
            next_id: if self.next_id == u64::MAX {
                0
            } else {
                (self.next_id + 1) as u64
            },
            ..self
        }
    }

    /// With a new session of `device` on the tty `dev_num`.
    pub open spec fn registered(self, device: Seq<char>, dev_num: i16) -> Registry {
        Registry {
            sessions: self.sessions.insert(
                device,
                SessionEntry { id: self.next_id, dev_num },
            ),
            ..self.allocated()
        }
    }

    /// After the session `id` of `device` has ended.
    pub open spec fn cleaned_up(self, device: Seq<char>, id: u64) -> Registry {
        match self.session(device) {
            Some(entry) => if entry.id == id {
                self.evicted(device)
            } else {
                self
            },
            None => self,
        }
    }

    /// No live session has an identifier that is still to be given.
    pub open spec fn ids_are_past(self) -> bool {
        forall|device: Seq<char>|
            #[trigger] self.sessions.contains_key(device) ==> self.sessions[device].id
                < self.next_id
    }
}

/// The server side of `org.bluez.Profile1`.
pub struct Profile {
    unit_template: String,
    sessions: StringHashMap<SessionEntry>,
    next_id: u64,
}

impl View for Profile {
    type V = Registry;

    closed spec fn view(&self) -> Registry {
        Registry {
            unit_template: self.unit_template@,
            sessions: self.sessions@,
            next_id: self.next_id,
        }
    }
}

impl Profile {
    /// A profile without sessions.
    pub fn new(unit_template: String) -> (r: Self)
        ensures
            r@ == (Registry {
                unit_template: unit_template@,
                sessions: Map::empty(),
                next_id: 1,
            }),
    {
        Profile { unit_template, sessions: StringHashMap::new(), next_id: 1 }
    }

    /// Takes a session identifier.
    pub fn allocate_id(&mut self) -> (id: u64)
        ensures
            id == old(self)@.next_id,
            final(self)@ == old(self)@.allocated(),
    {
        let id = self.next_id;
        self.next_id = id.wrapping_add(1);
        id
    }

    /// The session of `device_key`, if it has one.
    pub fn session(&self, device_key: &str) -> (r: Option<SessionEntry>)
        ensures
            r == self@.session(device_key@),
    {
        match self.sessions.get(device_key) {
            Some(entry) => Some(*entry),
            None => None,
        }
    }

    /// Removes the session of `device_key`, if it has one, and gives it back,
    /// so that its watcher can be told to tear it down.
    pub fn evict_existing(&mut self, device_key: &str) -> (stale: Option<SessionEntry>)
        ensures
            stale == old(self)@.session(device_key@),
            final(self)@ == old(self)@.evicted(device_key@),
    {
        let stale = self.session(device_key);
        self.sessions.remove(device_key);
        stale
    }

    /// Registers a live session, and gives the watcher that is to run for it,
    /// and the session that it replaces if there is one: the watcher of that
    /// is to be told to tear it down.
    pub fn register_session(&mut self, device_key: String, dev_num: i16) -> (r: (
        SessionWatcher,
        Option<SessionEntry>,
    ))
        ensures
            final(self)@ == old(self)@.registered(device_key@, dev_num),
            r.0.is_for(old(self)@, device_key@, dev_num),
            r.1 == old(self)@.session(device_key@),
    {
        let replaced = self.session(device_key.as_str());
        let id = self.allocate_id();
        self.sessions.insert(device_key.clone(), SessionEntry { id, dev_num });
        let watcher = SessionWatcher {
            unit_name: unit_name_for(self.unit_template.as_str(), dev_num),
            id,
            dev_num,
            device_key,
        };
        (watcher, replaced)
    }
}

/// What the task that watches a session knows of it. When the unit is no
/// longer active, when it cannot be watched, or when the session is cancelled,
/// the task goes on with [`SessionWatcher::run`].
#[derive(Debug)]
pub struct SessionWatcher {
    pub unit_name: String,
    pub id: u64,
    pub dev_num: i16,
    pub device_key: String,
}

/// Why a watcher stops to wait.
#[derive(Clone, Copy, Debug, PartialEq, Eq, Structural)]
pub enum WatchEnd {
    /// The unit is no longer active.
    UnitInactive,
    /// The unit could not be watched.
    WaitFailed,
    /// The session was cancelled.
    Cancelled,
}

impl SessionWatcher {
    /// The watcher of the session that `registry` registers next, for `device`
    /// on the tty `dev_num`.
    pub open spec fn is_for(&self, registry: Registry, device: Seq<char>, dev_num: i16) -> bool {
        &&& self.unit_name@ == unit_name(registry.unit_template, dev_num)
        &&& self.id == registry.next_id
        &&& self.dev_num == dev_num
        &&& self.device_key@ == device
    }

    /// Whatever ended the wait, the session is torn down.
    pub fn run(self, end: WatchEnd) -> (r: Teardown)
        ensures
            r.watcher() == self,
            r.phase() is Starting,
    {
        match end {
            WatchEnd::UnitInactive | WatchEnd::WaitFailed | WatchEnd::Cancelled => self.cleanup(),
        }
    }

    /// Starts to tear the session down.
    pub fn cleanup(self) -> (r: Teardown)
        ensures
            r.watcher() == self,
            r.phase() is Starting,
    {
        Teardown { watcher: self, phase: TeardownPhase::Starting }
    }
}

/// Where the end of a session stands.
#[derive(Clone, Copy, Debug, PartialEq, Eq, Structural)]
pub enum TeardownPhase {
    /// To be started.
    Starting,
    /// The tty is being released.
    Releasing,
    /// Its descriptor is being closed.
    Closing,
    Finished,
}

/// An answer to an action.
#[derive(Clone, Copy, Debug, PartialEq, Eq, Structural)]
pub enum TeardownEvent {
    Start,
    /// The tty was released, or it was not.
    Released(bool),
    /// The descriptor of the tty is closed.
    Closed,
}

/// What is to be done next.
#[derive(Clone, Copy, Debug)]
pub enum TeardownAction {
    /// Issue this release request.
    Release(RfcommDevReq),
    /// Close the descriptor of the tty.
    CloseTty,
    /// Nothing: the session is gone.
    Done,
}

/// `event` is an answer to what `phase` waits for.
pub open spec fn teardown_awaits(phase: TeardownPhase, event: TeardownEvent) -> bool {
    match phase {
        TeardownPhase::Starting => event is Start,
        TeardownPhase::Releasing => event is Released,
        TeardownPhase::Closing => event is Closed,
        TeardownPhase::Finished => false,
    }
}

/// The phase that follows.
pub open spec fn teardown_phase(phase: TeardownPhase) -> TeardownPhase {
    match phase {
        TeardownPhase::Starting => TeardownPhase::Releasing,
        TeardownPhase::Releasing => TeardownPhase::Closing,
        _ => TeardownPhase::Finished,
    }
}

/// The sessions that follow: the entry goes last, and only if it is still that
/// of the session.
pub open spec fn teardown_registry(
    registry: Registry,
    device: Seq<char>,
    id: u64,
    phase: TeardownPhase,
) -> Registry {
    match phase {
        TeardownPhase::Closing => registry.cleaned_up(device, id),
        _ => registry,
    }
}

/// `action` is what follows in `phase`: the release of the tty, then the close
/// of its descriptor, whether or not it could be released.
pub open spec fn teardown_does(dev_num: i16, phase: TeardownPhase, action: TeardownAction) -> bool {
    match phase {
        TeardownPhase::Starting => action matches TeardownAction::Release(request)
            && is_release_of(request, dev_num),
        TeardownPhase::Releasing => action is CloseTty,
        _ => action is Done,
    }
}

/// A session that is being torn down.
pub struct Teardown {
    watcher: SessionWatcher,
    phase: TeardownPhase,
}

impl Teardown {
    pub closed spec fn watcher(&self) -> SessionWatcher {
        self.watcher
    }

    pub closed spec fn phase(&self) -> TeardownPhase {
        self.phase
    }

    /// The identifier of the session.
    pub fn id(&self) -> (r: u64)
        ensures
            r == self.watcher().id,
    {
        self.watcher.id
    }

    /// Takes the answer to the last action (at first `TeardownEvent::Start`),
    /// and says what to do next.
    pub fn step(&mut self, event: TeardownEvent, profile: &mut Profile) -> (action: TeardownAction)
        requires
            teardown_awaits(old(self).phase(), event),
        ensures
            final(self).watcher() == old(self).watcher(),
            final(self).phase() == teardown_phase(old(self).phase()),
            final(profile)@ == teardown_registry(
                old(profile)@,
                old(self).watcher().device_key@,
                old(self).watcher().id,
                old(self).phase(),
            ),
            teardown_does(old(self).watcher().dev_num, old(self).phase(), action),
    {
        match self.phase {
            TeardownPhase::Starting => {
                self.phase = TeardownPhase::Releasing;
                TeardownAction::Release(release_tty(self.watcher.dev_num))
            },
            TeardownPhase::Releasing => {
                self.phase = TeardownPhase::Closing;
                TeardownAction::CloseTty
            },
            _ => {
                self.phase = TeardownPhase::Finished;
                profile.forget(self.watcher.device_key.as_str(), self.watcher.id);
                TeardownAction::Done
            },
        }
    }
}

impl Profile {
    /// Removes the session `id` of `device_key`, if it is still the current one.
    fn forget(&mut self, device_key: &str, id: u64)
        ensures
            final(self)@ == old(self)@.cleaned_up(device_key@, id),
    {
        match self.session(device_key) {
            Some(entry) => {
                if entry.id == id {
                    self.sessions.remove(device_key);
                }
            },
            None => {},
        }
    }
}

/// `request` releases the tty `dev_num` and hangs it up at once.
pub open spec fn is_release_of(request: RfcommDevReq, dev_num: i16) -> bool {
    &&& request.wf()
    &&& request.dev_id == dev_num
    &&& request.flags == 4
    &&& request.src@ == bdaddr_any()
    &&& request.dst@ == bdaddr_any()
    &&& request.channel == 0
}

/// Where the handling of a new connection stands.
#[derive(Clone, Copy, Debug, PartialEq, Eq, Structural)]
pub enum ConnectPhase {
    /// To be started.
    New,
    /// The tty is being created.
    Creating,
    /// The tty with this number is being primed.
    Priming(i16),
    /// Its getty is being started.
    Starting(i16),
    Finished,
}

/// An answer to an action.
#[derive(Debug)]
pub enum ConnectEvent {
    /// The connection has come in.
    Start,
    /// The tty with this number was created.
    Created(i16),
    /// It was not, for this reason.
    CreateFailed(String),
    /// The tty is ready, its descriptor held, and the connection socket closed.
    Primed,
    /// It is not, for this reason.
    PrimeFailed(String),
    /// The start of the getty was dispatched.
    Started,
    /// It was not, for this reason.
    StartFailed(String),
}

/// What is to be done next.
#[derive(Debug)]
pub enum ConnectAction {
    /// Create a tty from the connection socket.
    CreateTty,
    /// Prime the tty with this number.
    Prime(i16),
    /// Cancel the watcher of the stale session if there was one, and make the
    /// call.
    Start { stale: Option<SessionEntry>, call: UnitCall },
    /// Cancel the watcher of the replaced session if there was one, and spawn
    /// the new watcher; the connection is accepted.
    Watch { watcher: SessionWatcher, replaced: Option<SessionEntry> },
    /// Release the tty, if there is one, close its descriptor, and answer with
    /// this message.
    Refuse { release: Option<RfcommDevReq>, message: String },
}

/// `event` is an answer to what `phase` waits for.
pub open spec fn connect_awaits(phase: ConnectPhase, event: ConnectEvent) -> bool {
    match phase {
        ConnectPhase::New => event is Start,
        ConnectPhase::Creating => event is Created || event is CreateFailed,
        ConnectPhase::Priming(_) => event is Primed || event is PrimeFailed,
        ConnectPhase::Starting(_) => event is Started || event is StartFailed,
        ConnectPhase::Finished => false,
    }
}

/// The phase that follows.
pub open spec fn connect_phase(phase: ConnectPhase, event: ConnectEvent) -> ConnectPhase {
    match (phase, event) {
        (_, ConnectEvent::Start) => ConnectPhase::Creating,
        (_, ConnectEvent::Created(dev_num)) => ConnectPhase::Priming(dev_num),
        (ConnectPhase::Priming(dev_num), ConnectEvent::Primed) => ConnectPhase::Starting(dev_num),
        _ => ConnectPhase::Finished,
    }
}

/// The sessions that follow: a stale session of the device goes as soon as the
/// new tty is ready, and the new one is registered once its getty was started.
pub open spec fn connect_registry(
    registry: Registry,
    device: Seq<char>,
    phase: ConnectPhase,
    event: ConnectEvent,
) -> Registry {
    match (phase, event) {
        (ConnectPhase::Priming(_), ConnectEvent::Primed) => registry.evicted(device),
        (ConnectPhase::Starting(dev_num), ConnectEvent::Started) => registry.registered(
            device,
            dev_num,
        ),
        _ => registry,
    }
}

/// `action` is what follows `event` in `phase`. A failure is reported under
/// the name of the step that failed, and the tty is released if there is one.
pub open spec fn connect_does(
    registry: Registry,
    device: Seq<char>,
    phase: ConnectPhase,
    event: ConnectEvent,
    action: ConnectAction,
) -> bool {
    match (phase, event) {
        (_, ConnectEvent::Start) => action is CreateTty,
        (_, ConnectEvent::Created(dev_num)) => action == ConnectAction::Prime(dev_num),
        (_, ConnectEvent::CreateFailed(reason)) => {
            &&& action matches ConnectAction::Refuse { release, message }
            &&& release is None
            &&& message@ == "RFCOMMCREATEDEV: "@ + reason@
        },
        (ConnectPhase::Priming(dev_num), ConnectEvent::Primed) => {
            &&& action matches ConnectAction::Start { stale, call }
            &&& stale == registry.session(device)
            &&& call.is_for(UnitMethod::StartUnit, registry.unit_template, dev_num)
        },
        (ConnectPhase::Priming(dev_num), ConnectEvent::PrimeFailed(reason)) => {
            &&& action matches ConnectAction::Refuse { release: Some(request), message }
            &&& is_release_of(request, dev_num)
            &&& message@ == "prime_tty: "@ + reason@
        },
        (ConnectPhase::Starting(dev_num), ConnectEvent::Started) => {
            &&& action matches ConnectAction::Watch { watcher, replaced }
            &&& watcher.is_for(registry, device, dev_num)
            &&& replaced == registry.session(device)
        },
        (ConnectPhase::Starting(dev_num), ConnectEvent::StartFailed(reason)) => {
            &&& action matches ConnectAction::Refuse { release: Some(request), message }
            &&& is_release_of(request, dev_num)
            &&& message@ == "StartUnit: "@ + reason@
        },
        _ => false,
    }
}

/// A connection that is being accepted.
pub struct NewConnection {
    device_key: String,
    phase: ConnectPhase,
}

impl NewConnection {
    pub closed spec fn device(&self) -> Seq<char> {
        self.device_key@
    }

    pub closed spec fn phase(&self) -> ConnectPhase {
        self.phase
    }

    pub fn new(device_key: String) -> (r: Self)
        ensures
            r.device() == device_key@,
            r.phase() is New,
    {
        NewConnection { device_key, phase: ConnectPhase::New }
    }
}

fn message(step: &str, reason: &String) -> (r: String)
    ensures
        r@ == step@ + reason@,
{
    let mut s = String::new();
    s.append(step);
    s.append(reason.as_str());
    s
}

impl Profile {
    /// Takes the answer to the last action for the connection `conn` (at first
    /// `ConnectEvent::Start`), and says what to do next.
    pub fn handle_new_connection(
        &mut self,
        conn: &mut NewConnection,
        event: ConnectEvent,
    ) -> (action: ConnectAction)
        requires
            connect_awaits(old(conn).phase(), event),
        ensures
            final(conn).device() == old(conn).device(),
            final(conn).phase() == connect_phase(old(conn).phase(), event),
            final(self)@ == connect_registry(
                old(self)@,
                old(conn).device(),
                old(conn).phase(),
                event,
            ),
            connect_does(old(self)@, old(conn).device(), old(conn).phase(), event, action),
    {
        match (conn.phase, event) {
            (ConnectPhase::New, ConnectEvent::Start) => {
                conn.phase = ConnectPhase::Creating;
                ConnectAction::CreateTty
            },
            (ConnectPhase::Creating, ConnectEvent::Created(dev_num)) => {
                conn.phase = ConnectPhase::Priming(dev_num);
                ConnectAction::Prime(dev_num)
            },
            (ConnectPhase::Creating, ConnectEvent::CreateFailed(reason)) => {
                conn.phase = ConnectPhase::Finished;
                ConnectAction::Refuse {
                    release: None,
                    message: message("RFCOMMCREATEDEV: ", &reason),
                }
            },
            (ConnectPhase::Priming(dev_num), ConnectEvent::Primed) => {
                conn.phase = ConnectPhase::Starting(dev_num);
                let stale = self.evict_existing(conn.device_key.as_str());
                let call = start_getty(self.unit_template.as_str(), dev_num);
                ConnectAction::Start { stale, call }
            },
            (ConnectPhase::Priming(dev_num), ConnectEvent::PrimeFailed(reason)) => {
                conn.phase = ConnectPhase::Finished;
                ConnectAction::Refuse {
                    release: Some(release_tty(dev_num)),
                    message: message("prime_tty: ", &reason),
                }
            },
            (ConnectPhase::Starting(dev_num), ConnectEvent::Started) => {
                conn.phase = ConnectPhase::Finished;
                let key = conn.device_key.clone();
                let (watcher, replaced) = self.register_session(key, dev_num);
                ConnectAction::Watch { watcher, replaced }
            },
            (ConnectPhase::Starting(dev_num), ConnectEvent::StartFailed(reason)) => {
                conn.phase = ConnectPhase::Finished;
                ConnectAction::Refuse {
                    release: Some(release_tty(dev_num)),
                    message: message("StartUnit: ", &reason),
                }
            },
            _ => {
                assert(false);
                ConnectAction::Prime(0)
            },
        }
    }
}

/// Evicting a device twice is the same as evicting it once, and afterwards it
/// has no session.
pub proof fn law_eviction_is_idempotent(registry: Registry, device: Seq<char>)
    ensures
        registry.evicted(device).evicted(device) == registry.evicted(device),
        registry.evicted(device).session(device) is None,
{
    assert(registry.evicted(device).evicted(device) =~= registry.evicted(device));
}

/// What happens to one device leaves the sessions of all others alone.
pub proof fn law_other_devices_are_left_alone(
    registry: Registry,
    device: Seq<char>,
    other: Seq<char>,
    dev_num: i16,
    id: u64,
)
    requires
        device != other,
    ensures
        registry.evicted(device).session(other) == registry.session(other),
        registry.registered(device, dev_num).session(other) == registry.session(other),
        registry.cleaned_up(device, id).session(other) == registry.session(other),
{
}

/// The identifiers of live sessions stay behind the next one through every
/// operation, until the identifiers start over.
pub proof fn law_ids_stay_past(registry: Registry, device: Seq<char>, dev_num: i16, id: u64)
    requires
        registry.ids_are_past(),
    ensures
        registry.evicted(device).ids_are_past(),
        registry.cleaned_up(device, id).ids_are_past(),
        registry.next_id < u64::MAX ==> registry.registered(device, dev_num).ids_are_past(),
{
}

/// A watcher that ends late does no harm: where a session of a device has been
/// evicted and replaced by a new one, the cleanup of the old session leaves
/// the new one in place.
pub proof fn law_late_cleanup_spares_newer_session(
    registry: Registry,
    device: Seq<char>,
    dev_num: i16,
)
    requires
        registry.ids_are_past(),
        registry.session(device) is Some,
    ensures
        ({
            let stale = registry.session(device)->0;
            let replaced = registry.evicted(device).registered(device, dev_num);
            &&& replaced.session(device) == Some(SessionEntry { id: registry.next_id, dev_num })
            &&& replaced.cleaned_up(device, stale.id) == replaced
        }),
{
}

/// Something that happens to the sessions of a profile.
pub enum Change {
    Evicted(Seq<char>),
    Registered(Seq<char>, i16),
    CleanedUp(Seq<char>, u64),
}

impl Registry {
    pub open spec fn changed(self, change: Change) -> Registry {
        match change {
            Change::Evicted(device) => self.evicted(device),
            Change::Registered(device, dev_num) => self.registered(device, dev_num),
            Change::CleanedUp(device, id) => self.cleaned_up(device, id),
        }
    }

    /// After `changes`, one after the other.
    pub open spec fn after(self, changes: Seq<Change>) -> Registry
        decreases changes.len(),
    {
        if changes.len() == 0 {
            self
        } else {
            self.changed(changes[0]).after(changes.drop_first())
        }
    }

    /// `device` has no session, or one with another identifier than `id`.
    pub open spec fn is_not_current(self, device: Seq<char>, id: u64) -> bool {
        match self.session(device) {
            Some(entry) => entry.id != id,
            None => true,
        }
    }
}

/// The cleanup of a session that is no longer current harms none, however much
/// has happened to the sessions in between: once the session `id` of a device
/// has been evicted or replaced it never comes back, and its cleanup changes
/// nothing, until the identifiers start over.
pub proof fn law_cleanup_of_a_past_session_is_harmless(
    registry: Registry,
    device: Seq<char>,
    id: u64,
    changes: Seq<Change>,
)
    requires
        id < registry.next_id,
        registry.is_not_current(device, id),
        registry.next_id + changes.len() <= u64::MAX,
    ensures
        registry.after(changes).is_not_current(device, id),
        registry.after(changes).cleaned_up(device, id) == registry.after(changes),
    decreases changes.len(),
{
    if changes.len() > 0 {
        law_cleanup_of_a_past_session_is_harmless(
            registry.changed(changes[0]),
            device,
            id,
            changes.drop_first(),
        );
    }
}

/// The phases of a teardown after `events`.
pub open spec fn teardown_after(phase: TeardownPhase, events: Seq<TeardownEvent>) -> TeardownPhase
    decreases events.len(),
{
    if events.len() == 0 {
        phase
    } else {
        teardown_after(teardown_phase(phase), events.drop_first())
    }
}

/// `events` are answers to what a teardown asks for, beginning in `phase`.
pub open spec fn teardown_answers(phase: TeardownPhase, events: Seq<TeardownEvent>) -> bool
    decreases events.len(),
{
    events.len() > 0 ==> teardown_awaits(phase, events[0]) && teardown_answers(
        teardown_phase(phase),
        events.drop_first(),
    )
}

/// A teardown releases, closes and forgets once each, in this order, and is
/// over after that, whether or not the tty could be released: the answers that
/// end it are these and no others.
pub proof fn law_teardown_goes_to_its_end(events: Seq<TeardownEvent>)
    requires
        teardown_answers(TeardownPhase::Starting, events),
    ensures
        events.len() <= 3,
        teardown_after(TeardownPhase::Starting, events) is Finished <==> events.len() == 3,
        events.len() == 3 ==> {
            &&& events[0] is Start
            &&& events[1] is Released
            &&& events[2] is Closed
        },
{
    reveal_with_fuel(teardown_answers, 5);
    reveal_with_fuel(teardown_after, 4);
    if events.len() > 3 {
        let e3 = events.drop_first().drop_first().drop_first();
        assert(e3[0] == events[3]);
    }
}

/// A session that is neither evicted nor replaced is gone after its own cleanup.
pub proof fn law_cleanup_ends_own_session(registry: Registry, device: Seq<char>, dev_num: i16)
    ensures
        registry.registered(device, dev_num).cleaned_up(device, registry.next_id).session(
            device,
        ) is None,
{
}

/// A connection is refused after any failure, with the tty released exactly
/// where one had been created, and without a session of its own: nothing new
/// is registered.
pub proof fn law_refused_connection_leaves_nothing(
    registry: Registry,
    device: Seq<char>,
    phase: ConnectPhase,
    event: ConnectEvent,
    action: ConnectAction,
)
    requires
        connect_awaits(phase, event),
        connect_does(registry, device, phase, event, action),
    ensures
        action is Refuse <==> (event is CreateFailed || event is PrimeFailed
            || event is StartFailed),
        action matches ConnectAction::Refuse { release, message: _ } ==> {
            &&& release is Some <==> !(phase is Creating)
            &&& connect_registry(registry, device, phase, event) == registry
            &&& connect_phase(phase, event) is Finished
        },
{
}

/// A connection is accepted once its getty was started, and the session of its
/// device is then the one that its watcher watches.
pub proof fn law_accepted_connection_has_its_session(
    registry: Registry,
    device: Seq<char>,
    phase: ConnectPhase,
    event: ConnectEvent,
    action: ConnectAction,
)
    requires
        connect_awaits(phase, event),
        connect_does(registry, device, phase, event, action),
    ensures
        action is Watch <==> event is Started,
        action matches ConnectAction::Watch { watcher, replaced: _ } ==> connect_registry(
            registry,
            device,
            phase,
            event,
        ).session(device) == Some(SessionEntry { id: watcher.id, dev_num: watcher.dev_num }),
{
}

/// The session that `action` hands out, so that its watcher is told to tear it
/// down.
pub open spec fn handed_out(action: ConnectAction) -> Option<SessionEntry> {
    match action {
        ConnectAction::Start { stale, call: _ } => stale,
        ConnectAction::Watch { watcher: _, replaced } => replaced,
        _ => None,
    }
}

/// No session is forgotten without being torn down: whatever a connection does,
/// and whatever the numbers of the ttys, a session that is then no longer there
/// is the one of the device that connects, and is handed out to be cancelled.
pub proof fn law_no_session_is_forgotten(
    registry: Registry,
    device: Seq<char>,
    phase: ConnectPhase,
    event: ConnectEvent,
    action: ConnectAction,
    other: Seq<char>,
)
    requires
        connect_awaits(phase, event),
        connect_does(registry, device, phase, event, action),
        registry.sessions.contains_key(other),
    ensures
        ({
            let after = connect_registry(registry, device, phase, event).sessions;
            let entry = registry.sessions[other];
            after.contains_key(other) && after[other] == entry || (other == device && handed_out(
                action,
            ) == Some(entry))
        }),
{
}

/// Only the session of the device that connects is handed out to be cancelled,
/// and it has no other session left then than one that is new.
pub proof fn law_only_a_live_session_is_handed_out(
    registry: Registry,
    device: Seq<char>,
    phase: ConnectPhase,
    event: ConnectEvent,
    action: ConnectAction,
)
    requires
        connect_awaits(phase, event),
        connect_does(registry, device, phase, event, action),
    ensures
        ({
            let after = connect_registry(registry, device, phase, event).sessions;
            &&& handed_out(action) matches Some(entry) ==> registry.sessions.contains_key(device)
                && registry.sessions[device] == entry
            &&& action is Start ==> !after.contains_key(device)
            &&& action is Start || action is Watch ==> (handed_out(action) is Some
                <==> registry.sessions.contains_key(device))
        }),
{
}

/// A connection goes on as long as nothing fails, whatever the number of its
/// tty, and a failure is taken at every step after its start.
pub proof fn law_connection_is_followed_to_its_end(dev_num: i16, reason: String)
    ensures
        ({
            let begun = connect_phase(ConnectPhase::New, ConnectEvent::Start);
            let created = connect_phase(begun, ConnectEvent::Created(dev_num));
            let primed = connect_phase(created, ConnectEvent::Primed);
            &&& connect_awaits(ConnectPhase::New, ConnectEvent::Start)
            &&& connect_awaits(begun, ConnectEvent::Created(dev_num))
            &&& connect_awaits(begun, ConnectEvent::CreateFailed(reason))
            &&& connect_awaits(created, ConnectEvent::Primed)
            &&& connect_awaits(created, ConnectEvent::PrimeFailed(reason))
            &&& connect_awaits(primed, ConnectEvent::Started)
            &&& connect_awaits(primed, ConnectEvent::StartFailed(reason))
            &&& connect_phase(primed, ConnectEvent::Started) is Finished
            &&& connect_phase(begun, ConnectEvent::CreateFailed(reason)) is Finished
            &&& connect_phase(created, ConnectEvent::PrimeFailed(reason)) is Finished
            &&& connect_phase(primed, ConnectEvent::StartFailed(reason)) is Finished
        }),
{
}

/// The way of a connection in which nothing fails, whatever happens to the
/// sessions between its steps (`first` to `fourth` are the sessions that each
/// step finds): a tty is created, and it is that tty that is primed, whose
/// getty is started and that the new session is on.
pub proof fn law_connection_goes_its_way(
    device: Seq<char>,
    dev_num: i16,
    first: Registry,
    second: Registry,
    third: Registry,
    fourth: Registry,
    actions: (ConnectAction, ConnectAction, ConnectAction, ConnectAction),
)
    requires
        ({
            let begun = connect_phase(ConnectPhase::New, ConnectEvent::Start);
            let created = connect_phase(begun, ConnectEvent::Created(dev_num));
            let primed = connect_phase(created, ConnectEvent::Primed);
            &&& connect_does(first, device, ConnectPhase::New, ConnectEvent::Start, actions.0)
            &&& connect_does(second, device, begun, ConnectEvent::Created(dev_num), actions.1)
            &&& connect_does(third, device, created, ConnectEvent::Primed, actions.2)
            &&& connect_does(fourth, device, primed, ConnectEvent::Started, actions.3)
        }),
    ensures
        ({
            let begun = connect_phase(ConnectPhase::New, ConnectEvent::Start);
            let created = connect_phase(begun, ConnectEvent::Created(dev_num));
            let primed = connect_phase(created, ConnectEvent::Primed);
            let evicted = connect_registry(third, device, created, ConnectEvent::Primed);
            let accepted = connect_registry(fourth, device, primed, ConnectEvent::Started);
            &&& actions.0 is CreateTty
            &&& actions.1 == ConnectAction::Prime(dev_num)
            &&& connect_registry(first, device, ConnectPhase::New, ConnectEvent::Start) == first
            &&& connect_registry(second, device, begun, ConnectEvent::Created(dev_num)) == second
            &&& actions.2 matches ConnectAction::Start { stale: _, call } && {
                &&& call.method is StartUnit
                &&& call.name@ == unit_name(third.unit_template, dev_num)
                &&& call.mode@ == "replace"@
            }
            &&& evicted.sessions == third.sessions.remove(device)
            &&& evicted.unit_template == third.unit_template
            &&& evicted.next_id == third.next_id
            &&& actions.3 matches ConnectAction::Watch { watcher, replaced: _ } && {
                &&& watcher.unit_name@ == unit_name(fourth.unit_template, dev_num)
                &&& watcher.id == fourth.next_id
                &&& watcher.dev_num == dev_num
                &&& watcher.device_key@ == device
            }
            &&& accepted.sessions == fourth.sessions.insert(
                device,
                SessionEntry { id: fourth.next_id, dev_num },
            )
            &&& accepted.unit_template == fourth.unit_template
            &&& accepted.next_id == (fourth.next_id + 1) % 0x1_0000_0000_0000_0000
        }),
{
}

/// `request` has the kernel release the tty `dev_num`, and hang it up at once.
pub open spec fn releases(request: RfcommDevReq, dev_num: i16) -> bool {
    &&& request.dev_id == dev_num
    &&& request.flags == 4
    &&& request.channel == 0
    &&& forall|i: int| 0 <= i < 6 ==> #[trigger] request.src@[i] == 0
    &&& forall|i: int| 0 <= i < 6 ==> #[trigger] request.dst@[i] == 0
}

/// A connection that fails is answered with the name of the step that failed
/// and the reason of the failure, both as they are; the tty that it had, and
/// no other, is released; and its own session is not there.
pub proof fn law_failure_is_reported_and_undone(
    registry: Registry,
    device: Seq<char>,
    dev_num: i16,
    reason: String,
    actions: (ConnectAction, ConnectAction, ConnectAction),
)
    requires
        ({
            let begun = connect_phase(ConnectPhase::New, ConnectEvent::Start);
            let created = connect_phase(begun, ConnectEvent::Created(dev_num));
            let primed = connect_phase(created, ConnectEvent::Primed);
            let none = ConnectEvent::CreateFailed(reason);
            let dead = ConnectEvent::PrimeFailed(reason);
            let stuck = ConnectEvent::StartFailed(reason);
            &&& connect_does(registry, device, begun, none, actions.0)
            &&& connect_does(registry, device, created, dead, actions.1)
            &&& connect_does(registry, device, primed, stuck, actions.2)
        }),
    ensures
        ({
            let begun = connect_phase(ConnectPhase::New, ConnectEvent::Start);
            let created = connect_phase(begun, ConnectEvent::Created(dev_num));
            let primed = connect_phase(created, ConnectEvent::Primed);
            let none = ConnectEvent::CreateFailed(reason);
            let dead = ConnectEvent::PrimeFailed(reason);
            let stuck = ConnectEvent::StartFailed(reason);
            &&& actions.0 matches ConnectAction::Refuse { release, message } && release is None
                && message@ == "RFCOMMCREATEDEV: "@ + reason@
            &&& actions.1 matches ConnectAction::Refuse { release: Some(request), message }
                && releases(request, dev_num) && message@ == "prime_tty: "@ + reason@
            &&& actions.2 matches ConnectAction::Refuse { release: Some(request), message }
                && releases(request, dev_num) && message@ == "StartUnit: "@ + reason@
            &&& connect_registry(registry, device, begun, none) == registry
            &&& connect_registry(registry, device, created, dead) == registry
            &&& connect_registry(registry, device, primed, stuck) == registry
        }),
{
}

/// A connection waits for what it has asked for, and takes every answer that
/// there can be to it.
pub proof fn law_connection_takes_every_answer(
    registry: Registry,
    device: Seq<char>,
    phase: ConnectPhase,
    event: ConnectEvent,
    action: ConnectAction,
    answer: ConnectEvent,
)
    requires
        connect_awaits(phase, event),
        connect_does(registry, device, phase, event, action),
    ensures
        connect_awaits(ConnectPhase::New, answer) <==> answer is Start,
        connect_awaits(connect_phase(phase, event), answer) <==> match action {
            ConnectAction::CreateTty => answer is Created || answer is CreateFailed,
            ConnectAction::Prime(_) => answer is Primed || answer is PrimeFailed,
            ConnectAction::Start { .. } => answer is Started || answer is StartFailed,
            ConnectAction::Watch { .. } | ConnectAction::Refuse { .. } => false,
        },
{
}

/// A teardown goes on whether or not the tty could be released.
pub proof fn law_teardown_is_followed_to_its_end(released: bool)
    ensures
        ({
            let releasing = teardown_phase(TeardownPhase::Starting);
            let closing = teardown_phase(releasing);
            &&& teardown_awaits(TeardownPhase::Starting, TeardownEvent::Start)
            &&& teardown_awaits(releasing, TeardownEvent::Released(released))
            &&& teardown_awaits(closing, TeardownEvent::Closed)
            &&& teardown_phase(closing) is Finished
        }),
{
}

/// The way of a teardown, whatever happens to the sessions between its steps:
/// the tty of the session is released, then its descriptor closed, and then the
/// session is forgotten, unless the device has another one by then. No other
/// session goes.
pub proof fn law_teardown_goes_its_way(
    dev_num: i16,
    device: Seq<char>,
    id: u64,
    first: Registry,
    second: Registry,
    third: Registry,
    actions: (TeardownAction, TeardownAction, TeardownAction),
    other: Seq<char>,
)
    requires
        ({
            let releasing = teardown_phase(TeardownPhase::Starting);
            let closing = teardown_phase(releasing);
            &&& teardown_does(dev_num, TeardownPhase::Starting, actions.0)
            &&& teardown_does(dev_num, releasing, actions.1)
            &&& teardown_does(dev_num, closing, actions.2)
        }),
    ensures
        ({
            let releasing = teardown_phase(TeardownPhase::Starting);
            let closing = teardown_phase(releasing);
            let after = teardown_registry(third, device, id, closing);
            &&& actions.0 matches TeardownAction::Release(request) && releases(request, dev_num)
            &&& actions.1 is CloseTty
            &&& actions.2 is Done
            &&& teardown_registry(first, device, id, TeardownPhase::Starting) == first
            &&& teardown_registry(second, device, id, releasing) == second
            &&& after.sessions.contains_key(other) <==> third.sessions.contains_key(other) && !(other
                == device && third.sessions[other].id == id)
            &&& after.sessions.contains_key(other) ==> after.sessions[other]
                == third.sessions[other]
            &&& after.unit_template == third.unit_template
            &&& after.next_id == third.next_id
        }),
{
}

/// What each change does to the sessions, seen from any device: the one that
/// connects, disconnects or ends, and every other.
pub proof fn law_changes_touch_one_device(
    registry: Registry,
    device: Seq<char>,
    dev_num: i16,
    id: u64,
    other: Seq<char>,
)
    ensures
        ({
            let had = registry.sessions.contains_key(other);
            let evicted = registry.evicted(device);
            let registered = registry.registered(device, dev_num);
            let cleaned = registry.cleaned_up(device, id);
            &&& registry.session(other) == if had {
                Some(registry.sessions[other])
            } else {
                None
            }
            &&& evicted.sessions.contains_key(other) <==> had && other != device
            &&& registered.sessions.contains_key(other) <==> had || other == device
            &&& cleaned.sessions.contains_key(other) <==> had && !(other == device
                && registry.sessions[other].id == id)
            &&& evicted.sessions.contains_key(other) ==> evicted.sessions[other]
                == registry.sessions[other]
            &&& cleaned.sessions.contains_key(other) ==> cleaned.sessions[other]
                == registry.sessions[other]
            &&& other != device && had ==> registered.sessions[other] == registry.sessions[other]
            &&& registered.sessions[device] == (SessionEntry { id: registry.next_id, dev_num })
            &&& evicted.next_id == registry.next_id && cleaned.next_id == registry.next_id
            &&& registered.next_id == registry.allocated().next_id
            &&& registry.allocated().next_id == (registry.next_id + 1) % 0x1_0000_0000_0000_0000
            &&& registry.allocated().sessions == registry.sessions
            &&& registry.allocated().unit_template == registry.unit_template
            &&& registered.unit_template == registry.unit_template
            &&& evicted.unit_template == registry.unit_template
            &&& cleaned.unit_template == registry.unit_template
        }),
{
}

} // verus!
