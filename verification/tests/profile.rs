use bluetooth_getty::profile::{
    ConnectAction, ConnectEvent, NewConnection, Profile, SessionEntry, Teardown, TeardownAction,
    TeardownEvent, WatchEnd,
};
use bluetooth_getty::systemd::UnitMethod;

const DEVICE: &str = "/org/bluez/hci0/dev_00_11_22_33_44_55";

fn connect(profile: &mut Profile, device: &str, dev_num: i16) -> ConnectAction {
    let mut conn = NewConnection::new(device.to_string());
    assert!(matches!(
        profile.handle_new_connection(&mut conn, ConnectEvent::Start),
        ConnectAction::CreateTty
    ));
    profile.handle_new_connection(&mut conn, ConnectEvent::Created(dev_num));
    profile.handle_new_connection(&mut conn, ConnectEvent::Primed);
    profile.handle_new_connection(&mut conn, ConnectEvent::Started)
}

/// Tears a session down, and gives the number and flags of the release request.
fn tear_down(mut teardown: Teardown, released: bool, profile: &mut Profile) -> (i16, u32) {
    let request = match teardown.step(TeardownEvent::Start, profile) {
        TeardownAction::Release(request) => request,
        _ => panic!(),
    };
    let before = profile.session(DEVICE);
    assert!(matches!(
        teardown.step(TeardownEvent::Released(released), profile),
        TeardownAction::CloseTty
    ));
    assert_eq!(profile.session(DEVICE), before);
    assert!(matches!(
        teardown.step(TeardownEvent::Closed, profile),
        TeardownAction::Done
    ));
    (request.dev_id, request.flags)
}

#[test]
fn ids_count_from_one() {
    let mut p = Profile::new("getty@".to_string());
    assert_eq!(p.allocate_id(), 1);
    assert_eq!(p.allocate_id(), 2);
    assert_eq!(p.session(DEVICE), None);
}

#[test]
fn connection_is_accepted() {
    let mut p = Profile::new("getty@".to_string());
    let mut conn = NewConnection::new(DEVICE.to_string());
    assert!(matches!(
        p.handle_new_connection(&mut conn, ConnectEvent::Start),
        ConnectAction::CreateTty
    ));
    assert!(matches!(
        p.handle_new_connection(&mut conn, ConnectEvent::Created(4)),
        ConnectAction::Prime(4)
    ));
    match p.handle_new_connection(&mut conn, ConnectEvent::Primed) {
        ConnectAction::Start { stale, call } => {
            assert_eq!(stale, None);
            assert_eq!(call.method, UnitMethod::StartUnit);
            assert_eq!(call.name, "getty@rfcomm4.service");
            assert_eq!(call.mode, "replace");
        }
        _ => panic!(),
    }
    match p.handle_new_connection(&mut conn, ConnectEvent::Started) {
        ConnectAction::Watch { watcher, replaced } => {
            assert_eq!(replaced, None);
            assert_eq!(watcher.unit_name, "getty@rfcomm4.service");
            assert_eq!(watcher.id, 1);
            assert_eq!(watcher.dev_num, 4);
            assert_eq!(watcher.device_key, DEVICE);
        }
        _ => panic!(),
    }
    assert_eq!(p.session(DEVICE), Some(SessionEntry { id: 1, dev_num: 4 }));
}

#[test]
fn failures_refuse_the_connection() {
    let mut p = Profile::new("getty@".to_string());
    let refused = |action| match action {
        ConnectAction::Refuse { release, message } => {
            (release.map(|r| (r.dev_id, r.flags)), message)
        }
        _ => panic!(),
    };
    let mut conn = NewConnection::new(DEVICE.to_string());
    assert!(matches!(
        p.handle_new_connection(&mut conn, ConnectEvent::Start),
        ConnectAction::CreateTty
    ));
    let action = p.handle_new_connection(&mut conn, ConnectEvent::CreateFailed("EBUSY".into()));
    assert_eq!(refused(action), (None, "RFCOMMCREATEDEV: EBUSY".to_string()));

    let mut conn = NewConnection::new(DEVICE.to_string());
    assert!(matches!(
        p.handle_new_connection(&mut conn, ConnectEvent::Start),
        ConnectAction::CreateTty
    ));
    p.handle_new_connection(&mut conn, ConnectEvent::Created(2));
    let action = p.handle_new_connection(&mut conn, ConnectEvent::PrimeFailed("late".into()));
    assert_eq!(refused(action), (Some((2, 4)), "prime_tty: late".to_string()));

    let mut conn = NewConnection::new(DEVICE.to_string());
    assert!(matches!(
        p.handle_new_connection(&mut conn, ConnectEvent::Start),
        ConnectAction::CreateTty
    ));
    p.handle_new_connection(&mut conn, ConnectEvent::Created(7));
    p.handle_new_connection(&mut conn, ConnectEvent::Primed);
    let action = p.handle_new_connection(&mut conn, ConnectEvent::StartFailed("no bus".into()));
    assert_eq!(refused(action), (Some((7, 4)), "StartUnit: no bus".to_string()));
    assert_eq!(p.session(DEVICE), None);
}

#[test]
fn reconnect_evicts_the_stale_session() {
    let mut p = Profile::new("getty@".to_string());
    connect(&mut p, DEVICE, 0);
    let mut conn = NewConnection::new(DEVICE.to_string());
    assert!(matches!(
        p.handle_new_connection(&mut conn, ConnectEvent::Start),
        ConnectAction::CreateTty
    ));
    p.handle_new_connection(&mut conn, ConnectEvent::Created(1));
    match p.handle_new_connection(&mut conn, ConnectEvent::Primed) {
        ConnectAction::Start { stale, .. } => {
            assert_eq!(stale, Some(SessionEntry { id: 1, dev_num: 0 }));
        }
        _ => panic!(),
    }
    assert_eq!(p.session(DEVICE), None);
}

#[test]
fn late_cleanup_spares_the_newer_session() {
    let mut p = Profile::new("getty@".to_string());
    let old = match connect(&mut p, DEVICE, 0) {
        ConnectAction::Watch { watcher, .. } => watcher,
        _ => panic!(),
    };
    let new = match connect(&mut p, DEVICE, 1) {
        ConnectAction::Watch { watcher, .. } => watcher,
        _ => panic!(),
    };
    let teardown = old.run(WatchEnd::Cancelled);
    assert_eq!(teardown.id(), 1);
    assert_eq!(tear_down(teardown, true, &mut p), (0, 4));
    assert_eq!(p.session(DEVICE), Some(SessionEntry { id: 2, dev_num: 1 }));
    assert_eq!(
        tear_down(new.run(WatchEnd::UnitInactive), true, &mut p),
        (1, 4)
    );
    assert_eq!(p.session(DEVICE), None);
}

#[test]
fn eviction_is_idempotent_and_local() {
    let mut p = Profile::new("getty@".to_string());
    connect(&mut p, DEVICE, 0);
    connect(&mut p, "/other", 1);
    assert_eq!(
        p.evict_existing(DEVICE),
        Some(SessionEntry { id: 1, dev_num: 0 })
    );
    assert_eq!(p.evict_existing(DEVICE), None);
    assert_eq!(p.session("/other"), Some(SessionEntry { id: 2, dev_num: 1 }));
}

#[test]
fn overtaken_session_is_reported() {
    let mut p = Profile::new("getty@".to_string());
    let (first, replaced) = p.register_session(DEVICE.to_string(), 5);
    assert_eq!((first.id, replaced), (1, None));
    let (second, replaced) = p.register_session(DEVICE.to_string(), 6);
    assert_eq!(second.id, 2);
    assert_eq!(replaced, Some(SessionEntry { id: 1, dev_num: 5 }));
    assert_eq!(
        tear_down(second.run(WatchEnd::WaitFailed), false, &mut p),
        (6, 4)
    );
    assert_eq!(p.session(DEVICE), None);
}
