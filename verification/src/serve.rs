//! What the daemon registers with bluetoothd.

use vstd::prelude::*;
use vstd::string::*;

verus! {

/// The options of the daemon.
#[derive(Debug)]
pub struct ServeArgs {
    /// Human-readable profile name published in the SDP record.
    pub name: String,
    /// Service UUID to register.
    pub uuid: String,
    /// RFCOMM channel number of the SDP record.
    pub channel: u16,
    /// D-Bus object path of the profile object.
    pub object_path: String,
    /// Systemd unit template prefix. `rfcommN.service` is appended.
    pub unit_template: String,
    /// Well-known bus name to request on the system bus.
    pub bus_name: String,
    /// Require pairing before the channel is accepted.
    pub require_authentication: bool,
    /// Require authorization before the channel is accepted.
    pub require_authorization: bool,
}

impl ServeArgs {
    /// The options of a daemon that was given none.
    pub fn parse_from_serve_defaults() -> (r: Self)
        ensures
            r.name@ == "Bluetooth getty"@,
            r.uuid@ == "00001101-0000-1000-8000-00805f9b34fb"@,
            r.channel == 1,
            r.object_path@ == "/jp/sorah/BluetoothGetty/spp"@,
            r.unit_template@ == "bluetooth-getty-session@"@,
            r.bus_name@ == "jp.sorah.BluetoothGetty"@,
            !r.require_authentication,
            !r.require_authorization,
    {
        ServeArgs {
            name: "Bluetooth getty".to_owned(),
            uuid: "00001101-0000-1000-8000-00805f9b34fb".to_owned(),
            channel: 1,
            object_path: "/jp/sorah/BluetoothGetty/spp".to_owned(),
            unit_template: "bluetooth-getty-session@".to_owned(),
            bus_name: "jp.sorah.BluetoothGetty".to_owned(),
            require_authentication: false,
            require_authorization: false,
        }
    }
}

/// A letter or digit of ASCII, or an underscore.
pub open spec fn is_path_char(c: char) -> bool {
    ('a' <= c && c <= 'z') || ('A' <= c && c <= 'Z') || ('0' <= c && c <= '9') || c == '_'
}

/// A D-Bus object path: a slash alone, or elements of at least one path
/// character, each behind a slash.
pub open spec fn is_object_path(path: Seq<char>) -> bool {
    &&& path.len() > 0
    &&& path[0] == '/'
    &&& forall|i: int| 0 <= i < path.len() ==> (#[trigger] path[i] == '/' || is_path_char(path[i]))
    &&& path.len() > 1 ==> path.last() != '/'
    &&& forall|i: int, j: int|
        0 <= i < j < path.len() && j == i + 1 ==> !(#[trigger] path[i] == '/' && #[trigger] path[j]
            == '/')
}

/// Asks `zbus::zvariant::ObjectPath::try_from`.
///
/// Trusted: it accepts a string exactly where it is an object path by the
/// rules that its source lists: at least one character, the first a slash, no
/// trailing slash but a slash alone, no two slashes in a row, and only ASCII
/// letters, digits, underscores and slashes.
#[verifier::external_body]
fn object_path_is_valid(path: &str) -> (r: bool)
    ensures
        r == is_object_path(path@),
{
    zbus::zvariant::ObjectPath::try_from(path).is_ok()
}

/// A value of the options dictionary.
#[derive(Debug)]
pub enum OptionValue {
    Text(String),
    Number(u16),
    Flag(bool),
}

/// A value of the options dictionary, as a mathematical value.
pub enum OptionModel {
    Text(Seq<char>),
    Number(u16),
    Flag(bool),
}

impl View for OptionValue {
    type V = OptionModel;

    open spec fn view(&self) -> OptionModel {
        match self {
            OptionValue::Text(text) => OptionModel::Text(text@),
            OptionValue::Number(number) => OptionModel::Number(*number),
            OptionValue::Flag(flag) => OptionModel::Flag(*flag),
        }
    }
}

/// An entry of the options dictionary.
#[derive(Debug)]
pub struct ProfileOption {
    pub key: String,
    pub value: OptionValue,
}

impl View for ProfileOption {
    type V = (Seq<char>, OptionModel);

    open spec fn view(&self) -> (Seq<char>, OptionModel) {
        (self.key@, self.value@)
    }
}

/// The call of `RegisterProfile` that `args` ask for.
#[derive(Debug)]
pub struct Registration {
    pub object_path: String,
    pub uuid: String,
    pub options: Vec<ProfileOption>,
}

/// `entry`, if it is wanted.
pub open spec fn option_if(wanted: bool, key: Seq<char>) -> Seq<(Seq<char>, OptionModel)> {
    if wanted {
        seq![(key, OptionModel::Flag(true))]
    } else {
        Seq::empty()
    }
}

/// The options dictionary, as a list of its entries. The SDP record is left to
/// bluetoothd, which makes it from the channel.
pub open spec fn options_for(args: ServeArgs) -> Seq<(Seq<char>, OptionModel)> {
    seq![
        ("Name"@, OptionModel::Text(args.name@)),
        ("Role"@, OptionModel::Text("server"@)),
        ("Channel"@, OptionModel::Number(args.channel)),
    ] + option_if(args.require_authentication, "RequireAuthentication"@) + option_if(
        args.require_authorization,
        "RequireAuthorization"@,
    )
}

/// The entries of a list of options.
pub open spec fn entries(options: Seq<ProfileOption>) -> Seq<(Seq<char>, OptionModel)> {
    options.map_values(|o: ProfileOption| o@)
}

/// The options dictionary of the profile.
pub fn profile_options(args: &ServeArgs) -> (r: Vec<ProfileOption>)
    ensures
        entries(r@) == options_for(*args),
        is_dictionary_of(dictionary(entries(r@)), *args),
{
    proof {
        law_registration_says_what_was_asked_for(*args);
    }
    let mut options: Vec<ProfileOption> = Vec::new();
    options.push(
        ProfileOption { key: "Name".to_owned(), value: OptionValue::Text(args.name.clone()) },
    );
    options.push(
        ProfileOption { key: "Role".to_owned(), value: OptionValue::Text("server".to_owned()) },
    );
    options.push(
        ProfileOption { key: "Channel".to_owned(), value: OptionValue::Number(args.channel) },
    );
    if args.require_authentication {
        options.push(
            ProfileOption {
                key: "RequireAuthentication".to_owned(),
                value: OptionValue::Flag(true),
            },
        );
    }
    if args.require_authorization {
        options.push(
            ProfileOption {
                key: "RequireAuthorization".to_owned(),
                value: OptionValue::Flag(true),
            },
        );
    }
    assert(entries(options@) =~= options_for(*args));
    options
}

/// The object path of the options is none.
#[derive(Clone, Copy, Debug, PartialEq, Eq, Structural)]
pub struct InvalidObjectPath;

/// What the daemon is to register, unless the object path is invalid.
pub fn serve(args: &ServeArgs) -> (r: Result<Registration, InvalidObjectPath>)
    ensures
        r is Ok <==> is_object_path(args.object_path@),
        r matches Ok(call) ==> {
            &&& call.object_path@ == args.object_path@
            &&& call.uuid@ == args.uuid@
            &&& entries(call.options@) == options_for(*args)
            &&& is_dictionary_of(dictionary(entries(call.options@)), *args)
        },
{
    if !object_path_is_valid(args.object_path.as_str()) {
        return Err(InvalidObjectPath);
    }
    Ok(
        Registration {
            object_path: args.object_path.clone(),
            uuid: args.uuid.clone(),
            options: profile_options(args),
        },
    )
}

/// Where a daemon stands: what it has asked for last.
#[derive(Clone, Copy, Debug, PartialEq, Eq, Structural)]
pub enum ServePhase {
    Starting,
    Connecting,
    Registering,
    Waiting,
    Unregistering,
    Finished,
}

/// The beginning, or whether what was asked for was done.
#[derive(Clone, Copy, Debug, PartialEq, Eq, Structural)]
pub enum ServeEvent {
    Start,
    Done,
    Failed,
}

/// What is to be done next.
#[derive(Clone, Copy, Debug, PartialEq, Eq, Structural)]
pub enum ServeAction {
    /// Connect to the bus under the bus name, with the profile at its path.
    Connect,
    /// Register the profile.
    Register,
    /// Wait until the daemon is told to stop.
    Wait,
    /// Unregister the profile.
    Unregister,
    /// End without an error.
    End,
    /// End with the error of what failed last.
    Fail,
}

/// `event` is an answer to what `phase` asked for.
pub open spec fn serve_awaits(phase: ServePhase, event: ServeEvent) -> bool {
    match phase {
        ServePhase::Starting => event is Start,
        ServePhase::Finished => false,
        _ => event is Done || event is Failed,
    }
}

/// The next phase and the next action. A failure ends the daemon, but for one
/// to unregister: that it goes is what matters then.
pub open spec fn serve_next(phase: ServePhase, event: ServeEvent) -> (ServePhase, ServeAction)
    recommends
        serve_awaits(phase, event),
{
    match (phase, event) {
        (ServePhase::Starting, _) => (ServePhase::Connecting, ServeAction::Connect),
        (ServePhase::Unregistering, _) => (ServePhase::Finished, ServeAction::End),
        (_, ServeEvent::Failed) => (ServePhase::Finished, ServeAction::Fail),
        (ServePhase::Connecting, _) => (ServePhase::Registering, ServeAction::Register),
        (ServePhase::Registering, _) => (ServePhase::Waiting, ServeAction::Wait),
        (ServePhase::Waiting, _) => (ServePhase::Unregistering, ServeAction::Unregister),
        (ServePhase::Finished, _) => arbitrary(),
    }
}

/// The life of a daemon.
pub struct ServeRun {
    phase: ServePhase,
}

impl View for ServeRun {
    type V = ServePhase;

    closed spec fn view(&self) -> ServePhase {
        self.phase
    }
}

impl ServeRun {
    pub fn new() -> (r: Self)
        ensures
            r@ is Starting,
    {
        ServeRun { phase: ServePhase::Starting }
    }

    /// Takes the answer to the last action (at first `ServeEvent::Start`), and
    /// says what to do next.
    pub fn step(&mut self, event: ServeEvent) -> (action: ServeAction)
        requires
            serve_awaits(old(self)@, event),
        ensures
            (final(self)@, action) == serve_next(old(self)@, event),
    {
        let (phase, action) = match (self.phase, event) {
            (ServePhase::Starting, _) => (ServePhase::Connecting, ServeAction::Connect),
            (ServePhase::Unregistering, _) => (ServePhase::Finished, ServeAction::End),
            (_, ServeEvent::Failed) => (ServePhase::Finished, ServeAction::Fail),
            (ServePhase::Connecting, _) => (ServePhase::Registering, ServeAction::Register),
            (ServePhase::Registering, _) => (ServePhase::Waiting, ServeAction::Wait),
            _ => (ServePhase::Unregistering, ServeAction::Unregister),
        };
        self.phase = phase;
        action
    }
}

/// A profile that was registered is unregistered when the daemon is told to
/// stop, and the daemon then ends without an error, whatever came of that.
pub proof fn law_stopped_daemon_ends_well(unregistered: ServeEvent)
    requires
        unregistered is Done || unregistered is Failed,
    ensures
        ({
            let (phase, action) = serve_next(ServePhase::Waiting, ServeEvent::Done);
            &&& action is Unregister
            &&& serve_next(phase, unregistered) == (ServePhase::Finished, ServeAction::End)
        }),
{
}

/// A daemon that fails before it is told to stop ends with that failure, and
/// does nothing more.
pub proof fn law_failed_daemon_ends_with_the_failure(phase: ServePhase)
    requires
        serve_awaits(phase, ServeEvent::Failed),
        !(phase is Unregistering),
    ensures
        serve_next(phase, ServeEvent::Failed) == (ServePhase::Finished, ServeAction::Fail),
{
}

/// No key occurs twice in the options, so that they make a dictionary.
pub proof fn law_option_keys_differ(args: ServeArgs, i: int, j: int)
    requires
        0 <= i < j < options_for(args).len(),
    ensures
        options_for(args)[i].0 != options_for(args)[j].0,
{
    reveal_strlit("Name");
    reveal_strlit("Role");
    reveal_strlit("Channel");
    reveal_strlit("RequireAuthentication");
    reveal_strlit("RequireAuthorization");
    assert("Name"@[0] == 'N');
    assert("Role"@[1] == 'o');
    assert("Channel"@[0] == 'C');
    assert("RequireAuthentication"@.len() == 21);
    assert("RequireAuthorization"@.len() == 20);
}

/// Pairing and authorization are asked for only on request, and neither a
/// service record nor a PSM ever is.
pub proof fn law_options_are_those_asked_for(args: ServeArgs)
    ensures
        ({
            let keys = options_for(args).map_values(|e: (Seq<char>, OptionModel)| e.0);
            &&& keys.contains("RequireAuthentication"@) <==> args.require_authentication
            &&& keys.contains("RequireAuthorization"@) <==> args.require_authorization
            &&& !keys.contains("ServiceRecord"@)
            &&& !keys.contains("PSM"@)
        }),
{
    reveal_strlit("Name");
    reveal_strlit("Role");
    reveal_strlit("Channel");
    reveal_strlit("RequireAuthentication");
    reveal_strlit("RequireAuthorization");
    reveal_strlit("ServiceRecord");
    reveal_strlit("PSM");
    assert("Name"@.len() == 4 && "Role"@.len() == 4 && "Channel"@.len() == 7);
    assert("RequireAuthentication"@.len() == 21 && "RequireAuthorization"@.len() == 20);
    assert("ServiceRecord"@.len() == 13 && "PSM"@.len() == 3);
    let keys = options_for(args).map_values(|e: (Seq<char>, OptionModel)| e.0);
    assert(keys[0] == "Name"@ && keys[1] == "Role"@ && keys[2] == "Channel"@);
    if args.require_authentication {
        assert(keys[3] == "RequireAuthentication"@);
    }
    if args.require_authorization {
        let at = if args.require_authentication {
            4int
        } else {
            3int
        };
        assert(keys[at] == "RequireAuthorization"@);
    }
}

/// A list of entries read as a dictionary, in which a later entry for a key
/// takes the place of an earlier one.
pub open spec fn dictionary(list: Seq<(Seq<char>, OptionModel)>) -> Map<Seq<char>, OptionModel>
    decreases list.len(),
{
    if list.len() == 0 {
        Map::empty()
    } else {
        dictionary(list.drop_last()).insert(list.last().0, list.last().1)
    }
}

proof fn lemma_dictionary(list: Seq<(Seq<char>, OptionModel)>)
    requires
        forall|i: int, j: int|
            0 <= i < j < list.len() ==> (#[trigger] list[i]).0 != (#[trigger] list[j]).0,
    ensures
        forall|i: int|
            0 <= i < list.len() ==> dictionary(list).contains_key((#[trigger] list[i]).0)
                && dictionary(list)[list[i].0] == list[i].1,
        forall|key: Seq<char>| #[trigger]
            dictionary(list).contains_key(key) ==> exists|i: int|
                0 <= i < list.len() && (#[trigger] list[i]).0 == key,
    decreases list.len(),
{
    if list.len() > 0 {
        let less = list.drop_last();
        lemma_dictionary(less);
        assert forall|i: int| 0 <= i < list.len() implies dictionary(list).contains_key(
            (#[trigger] list[i]).0,
        ) && dictionary(list)[list[i].0] == list[i].1 by {
            if i < less.len() {
                assert(less[i] == list[i]);
            }
        }
        assert forall|key: Seq<char>| #[trigger] dictionary(list).contains_key(key) implies exists|
            i: int,
        |
            0 <= i < list.len() && (#[trigger] list[i]).0 == key by {
            if key == list.last().0 {
                assert(list[list.len() - 1].0 == key);
            } else {
                assert(dictionary(less).contains_key(key));
                let i = choose|i: int| 0 <= i < less.len() && (#[trigger] less[i]).0 == key;
                assert(list[i].0 == key);
            }
        }
    }
}

/// `d` is the dictionary that a daemon with these options registers: its name
/// and channel are those of the options, its role is that of a server, pairing
/// and authorization are asked for where the options do, and there is nothing
/// else in it.
pub open spec fn is_dictionary_of(d: Map<Seq<char>, OptionModel>, args: ServeArgs) -> bool {
    &&& d.contains_key("Name"@) && d["Name"@] == OptionModel::Text(args.name@)
    &&& d.contains_key("Role"@) && d["Role"@] == OptionModel::Text("server"@)
    &&& d.contains_key("Channel"@) && d["Channel"@] == OptionModel::Number(args.channel)
    &&& d.contains_key("RequireAuthentication"@) <==> args.require_authentication
    &&& args.require_authentication ==> d["RequireAuthentication"@] == OptionModel::Flag(true)
    &&& d.contains_key("RequireAuthorization"@) <==> args.require_authorization
    &&& args.require_authorization ==> d["RequireAuthorization"@] == OptionModel::Flag(true)
    &&& forall|key: Seq<char>| #[trigger]
        d.contains_key(key) ==> key == "Name"@ || key == "Role"@ || key == "Channel"@ || key
            == "RequireAuthentication"@ || key == "RequireAuthorization"@
}

/// The options of a registration, read as a dictionary, say what the options of
/// the daemon say, for all of these.
pub proof fn law_registration_says_what_was_asked_for(args: ServeArgs)
    ensures
        is_dictionary_of(dictionary(options_for(args)), args),
{
    let list = options_for(args);
    assert forall|i: int, j: int| 0 <= i < j < list.len() implies (#[trigger] list[i]).0 != (
    #[trigger] list[j]).0 by {
        law_option_keys_differ(args, i, j);
    }
    lemma_dictionary(list);
    law_options_are_those_asked_for(args);
    let keys = list.map_values(|e: (Seq<char>, OptionModel)| e.0);
    assert(list[0].0 == "Name"@ && list[1].0 == "Role"@ && list[2].0 == "Channel"@);
    let d = dictionary(list);
    if args.require_authentication {
        assert(list[3].0 == "RequireAuthentication"@);
    }
    if args.require_authorization {
        let at = if args.require_authentication {
            4int
        } else {
            3int
        };
        assert(list[at].0 == "RequireAuthorization"@);
    }
    if d.contains_key("RequireAuthentication"@) {
        let i = choose|i: int|
            0 <= i < list.len() && (#[trigger] list[i]).0 == "RequireAuthentication"@;
        assert(keys[i] == "RequireAuthentication"@);
    }
    if d.contains_key("RequireAuthorization"@) {
        let i = choose|i: int|
            0 <= i < list.len() && (#[trigger] list[i]).0 == "RequireAuthorization"@;
        assert(keys[i] == "RequireAuthorization"@);
    }
}

/// The entries of a list of options are its options one by one, and a value
/// stands for what it holds.
pub proof fn law_entries_are_the_options(options: Seq<ProfileOption>, i: int)
    requires
        0 <= i < options.len(),
    ensures
        entries(options).len() == options.len(),
        entries(options)[i].0 == options[i].key@,
        match options[i].value {
            OptionValue::Text(text) => entries(options)[i].1 == OptionModel::Text(text@),
            OptionValue::Number(number) => entries(options)[i].1 == OptionModel::Number(number),
            OptionValue::Flag(flag) => entries(options)[i].1 == OptionModel::Flag(flag),
        },
{
}

/// What a daemon does while it is given `events`, beginning in `phase`.
pub open spec fn serve_actions(phase: ServePhase, events: Seq<ServeEvent>) -> Seq<ServeAction>
    decreases events.len(),
{
    if events.len() == 0 {
        seq![]
    } else {
        let (next, action) = serve_next(phase, events[0]);
        seq![action] + serve_actions(next, events.drop_first())
    }
}

/// `events` are answers to what a daemon asks for, beginning in `phase`.
pub open spec fn serve_answers(phase: ServePhase, events: Seq<ServeEvent>) -> bool
    decreases events.len(),
{
    events.len() > 0 ==> serve_awaits(phase, events[0]) && serve_answers(
        serve_next(phase, events[0]).0,
        events.drop_first(),
    )
}

/// The life of a daemon in which nothing fails but, perhaps, its last step: it
/// connects, registers its profile, waits to be told to stop, unregisters the
/// profile and ends, in this order.
pub proof fn law_daemon_goes_its_way(last: ServeEvent)
    requires
        last is Done || last is Failed,
    ensures
        ({
            let events = seq![
                ServeEvent::Start,
                ServeEvent::Done,
                ServeEvent::Done,
                ServeEvent::Done,
                last,
            ];
            &&& serve_answers(ServePhase::Starting, events)
            &&& serve_actions(ServePhase::Starting, events) == seq![
                ServeAction::Connect,
                ServeAction::Register,
                ServeAction::Wait,
                ServeAction::Unregister,
                ServeAction::End,
            ]
        }),
{
    reveal_with_fuel(serve_actions, 6);
    reveal_with_fuel(serve_answers, 6);
    let e0 = seq![ServeEvent::Start, ServeEvent::Done, ServeEvent::Done, ServeEvent::Done, last];
    let e1 = e0.drop_first();
    let e2 = e1.drop_first();
    let e3 = e2.drop_first();
    let e4 = e3.drop_first();
    assert(e4.drop_first() =~= Seq::empty());
    assert(e1[0] == e0[1] && e2[0] == e0[2] && e3[0] == e0[3] && e4[0] == e0[4]);
}

/// A daemon ends with an error only where it was told of a failure, and takes
/// every answer that there can be to what it has asked for.
pub proof fn law_daemon_takes_every_answer(phase: ServePhase, event: ServeEvent, answer: ServeEvent)
    requires
        serve_awaits(phase, event),
    ensures
        serve_awaits(ServePhase::Starting, answer) <==> answer is Start,
        ({
            let (next, action) = serve_next(phase, event);
            &&& action is Fail ==> event is Failed
            &&& serve_awaits(next, answer) <==> !(action is End) && !(action is Fail) && !(
            answer is Start)
        }),
{
}

/// Below an object path there is one for every element of ASCII letters,
/// digits and underscores; the root is one; and none ends in a slash but that.
pub proof fn law_object_paths_grow(path: Seq<char>, element: Seq<char>)
    requires
        is_object_path(path),
        element.len() > 0,
        forall|i: int|
            0 <= i < element.len() ==> {
                let c = #[trigger] element[i];
                'a' <= c <= 'z' || 'A' <= c <= 'Z' || '0' <= c <= '9' || c == '_'
            },
    ensures
        is_object_path(seq!['/']),
        path == seq!['/'] ==> is_object_path(path + element),
        path != seq!['/'] ==> is_object_path(path.push('/') + element),
        path != seq!['/'] ==> !is_object_path(path.push('/')),
        !is_object_path(Seq::empty()),
        !is_object_path(element),
{
    let root = seq!['/'];
    assert forall|i: int| 0 <= i < element.len() implies is_path_char(#[trigger] element[i])
        && element[i] != '/' by {}
    assert(element[0] != '/');
    if path == root {
        let longer = path + element;
        assert(longer[0] == '/');
        assert forall|i: int| 0 <= i < longer.len() implies (#[trigger] longer[i] == '/'
            || is_path_char(longer[i])) by {
            if i > 0 {
                assert(longer[i] == element[i - 1]);
            }
        }
        assert(longer.last() == element.last());
        assert forall|i: int, j: int| 0 <= i < j < longer.len() && j == i + 1 implies !(
        #[trigger] longer[i] == '/' && #[trigger] longer[j] == '/') by {
            assert(longer[j] == element[j - 1]);
        }
    } else {
        if path.len() == 1 {
            assert(path =~= root);
        }
        let n = path.len() as int;
        let longer = path.push('/') + element;
        assert(longer[0] == path[0]);
        assert(longer.last() == element.last());
        assert(path[n - 1] != '/');
        assert forall|i: int| 0 <= i < longer.len() implies (#[trigger] longer[i] == '/'
            || is_path_char(longer[i])) by {
            if i < n {
                assert(longer[i] == path[i]);
            } else if i > n {
                assert(longer[i] == element[i - n - 1]);
            }
        }
        assert forall|i: int, j: int| 0 <= i < j < longer.len() && j == i + 1 implies !(
        #[trigger] longer[i] == '/' && #[trigger] longer[j] == '/') by {
            if j < n {
                assert(longer[i] == path[i] && longer[j] == path[j]);
            } else if j == n {
                assert(longer[i] == path[n - 1]);
            } else {
                assert(longer[j] == element[j - n - 1]);
            }
        }
    }
}

} // verus!
