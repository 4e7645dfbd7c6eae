use bluetooth_getty::serve::{
    profile_options, serve, OptionValue, ServeAction, ServeArgs, ServeEvent, ServeRun,
};
use bluetooth_getty::systemd::{
    is_inactive, observe_unit, start_getty, stop_getty, unit_name_for, UnitMethod, UnitProgress,
};
use bluetooth_getty::text::push_decimal;

#[test]
fn defaults() {
    let args = ServeArgs::parse_from_serve_defaults();
    assert_eq!(args.name, "Bluetooth getty");
    assert_eq!(args.uuid, "00001101-0000-1000-8000-00805f9b34fb");
    assert_eq!(args.channel, 1);
    assert_eq!(args.object_path, "/jp/sorah/BluetoothGetty/spp");
    assert_eq!(args.unit_template, "bluetooth-getty-session@");
    assert_eq!(args.bus_name, "jp.sorah.BluetoothGetty");
    assert!(!args.require_authentication);
    assert!(!args.require_authorization);
}

fn keys(args: &ServeArgs) -> Vec<String> {
    profile_options(args).into_iter().map(|o| o.key).collect()
}

#[test]
fn options() {
    let mut args = ServeArgs::parse_from_serve_defaults();
    args.channel = 22;
    let options = profile_options(&args);
    assert_eq!(keys(&args), ["Name", "Role", "Channel"]);
    assert!(matches!(&options[0].value, OptionValue::Text(t) if t == "Bluetooth getty"));
    assert!(matches!(&options[1].value, OptionValue::Text(t) if t == "server"));
    assert!(matches!(&options[2].value, OptionValue::Number(22)));
    args.require_authorization = true;
    assert_eq!(
        keys(&args),
        ["Name", "Role", "Channel", "RequireAuthorization"]
    );
    args.require_authentication = true;
    assert_eq!(
        keys(&args),
        [
            "Name",
            "Role",
            "Channel",
            "RequireAuthentication",
            "RequireAuthorization"
        ]
    );
    assert!(matches!(
        &profile_options(&args)[4].value,
        OptionValue::Flag(true)
    ));
}

#[test]
fn registration() {
    let mut args = ServeArgs::parse_from_serve_defaults();
    let call = serve(&args).unwrap();
    assert_eq!(call.object_path, args.object_path);
    assert_eq!(call.uuid, args.uuid);
    assert_eq!(call.options.len(), 3);
    for path in ["/", "/Path/t0/0bject", "/a_b"] {
        args.object_path = path.to_string();
        assert!(serve(&args).is_ok(), "{path}");
    }
    for path in ["", "spp", "/a/", "//", "/a//b", "/a.b", "/a-b", "/\u{e9}"] {
        args.object_path = path.to_string();
        assert!(serve(&args).is_err(), "{path}");
    }
}

#[test]
fn units() {
    assert_eq!(
        unit_name_for("bluetooth-getty-session@", 0),
        "bluetooth-getty-session@rfcomm0.service"
    );
    assert_eq!(unit_name_for("serial-getty@", 17), "serial-getty@rfcomm17.service");
    assert_eq!(unit_name_for("", -1), "rfcomm-1.service");
    let call = start_getty("g@", 3);
    assert_eq!(call.method, UnitMethod::StartUnit);
    assert_eq!((call.name.as_str(), call.mode.as_str()), ("g@rfcomm3.service", "replace"));
    let call = stop_getty("g@", 3);
    assert_eq!(call.method, UnitMethod::StopUnit);
    assert_eq!((call.name.as_str(), call.mode.as_str()), ("g@rfcomm3.service", "replace"));
}

#[test]
fn unit_states() {
    assert!(is_inactive(&"inactive".to_string()));
    assert!(is_inactive(&"failed".to_string()));
    for state in ["active", "activating", "deactivating", "reloading", ""] {
        assert!(!is_inactive(&state.to_string()));
    }
}

#[test]
fn unit_ends_only_after_it_ran() {
    let see = |has_run, state: &str| observe_unit(has_run, &state.to_string());
    let progress = |has_run, ended| UnitProgress { has_run, ended };
    assert_eq!(see(false, "inactive"), progress(false, false));
    assert_eq!(see(false, "activating"), progress(true, false));
    assert_eq!(see(true, "active"), progress(true, false));
    assert_eq!(see(true, "failed"), progress(true, true));
}

#[test]
fn daemon_unregisters_and_ends_well() {
    for last in [ServeEvent::Done, ServeEvent::Failed] {
        let mut run = ServeRun::new();
        assert_eq!(run.step(ServeEvent::Start), ServeAction::Connect);
        assert_eq!(run.step(ServeEvent::Done), ServeAction::Register);
        assert_eq!(run.step(ServeEvent::Done), ServeAction::Wait);
        assert_eq!(run.step(ServeEvent::Done), ServeAction::Unregister);
        assert_eq!(run.step(last), ServeAction::End);
    }
}

#[test]
fn daemon_ends_with_its_failure() {
    for steps in 0..3 {
        let mut run = ServeRun::new();
        assert_eq!(run.step(ServeEvent::Start), ServeAction::Connect);
        for _ in 0..steps {
            run.step(ServeEvent::Done);
        }
        assert_eq!(run.step(ServeEvent::Failed), ServeAction::Fail);
    }
}

#[test]
fn decimals() {
    for n in [0, 9, 10, 1234567890, -1, -10, i64::MAX, i64::MIN] {
        let mut s = "n=".to_string();
        push_decimal(&mut s, n);
        assert_eq!(s, format!("n={n}"));
    }
}
