use caseta_leap::codec::parse;
use caseta_leap::device::CasetaLeap;
use caseta_leap::host::{HostCall, Instance};
use caseta_leap::json::{dict1, string, Dict, Json};

fn sent(calls: &[HostCall]) -> Json {
    let [HostCall::Tx { data, .. }] = calls else { panic!("expected one write, got {calls:?}") };
    let line = String::from_utf8(data.clone()).expect("UTF-8");
    parse(line.trim_end()).expect("valid JSON")
}

fn command(msg: &Json) -> &Json {
    msg.get2("Body", "Command").expect("a command")
}

fn value_of(msg: &Json) -> u64 {
    let items = command(msg).get("Parameter").and_then(|p| p.as_array()).expect("a parameter");
    items[0].get("Value").and_then(|v| v.as_u64()).expect("a value")
}

fn dimmed_level(msg: &Json) -> u64 {
    command(msg).get2("DimmedLevelParameters", "Level").and_then(|v| v.as_u64()).expect("a level")
}

fn fade(msg: &Json) -> &str {
    command(msg).get2("DimmedLevelParameters", "FadeTime").and_then(|v| v.as_str()).expect("a fade")
}

fn command_type(msg: &Json) -> &str {
    command(msg).get("CommandType").and_then(|v| v.as_str()).expect("a command type")
}

fn a_zone(zone: &str, kind: Option<&str>) -> Instance {
    let mut inst = Instance { properties: Dict::new(), scratch: Dict::new() };
    inst.properties.insert("Zone", string(zone));
    if let Some(kind) = kind {
        inst.properties.insert("Kind", string(kind));
    }
    inst
}

fn data(text: &str) -> Dict {
    dict1("data", string(text))
}

#[test]
fn a_ramp_reports_nothing_and_stops_where_the_light_actually_got_to() {
    let mut inst = a_zone("/zone/3", None);
    let up = dict1("direction", string("up"));
    let start = CasetaLeap::on_dimmer_command(&mut inst, "ramp_start", &up);
    let msg = sent(&start);
    assert_eq!(dimmed_level(&msg), 100);
    assert_eq!(fade(&msg), "00:00:04");
    assert!(
        !start.iter().any(|c| matches!(c, HostCall::Notify { .. })),
        "a ramp has not arrived anywhere yet, so it reports nothing",
    );
    assert!(
        inst.scratch.get("level").is_none(),
        "and remembers nothing — the bridge is what says where the light is",
    );

    // The bridge reports the light passing 42 on its way up, and the thumb comes off.
    let heard = data("{\"Body\":{\"ZoneStatus\":{\"Zone\":{\"href\":\"/zone/3\"},\"Level\":42}}}\n");
    CasetaLeap::on_dimmer_event(&mut inst, "rx", &heard);
    let stop = sent(&CasetaLeap::on_dimmer_command(&mut inst, "ramp_stop", &Dict::new()));
    assert_eq!(dimmed_level(&stop), 42, "stopping holds it where it got to, not where it was headed");
    assert_eq!(fade(&stop), "00:00:00");
}

#[test]
fn a_ramp_down_goes_almost_to_the_end() {
    let mut inst = a_zone("/zone/3", None);
    let down = dict1("direction", string("down"));
    assert_eq!(dimmed_level(&sent(&CasetaLeap::on_dimmer_command(&mut inst, "ramp_start", &down))), 1);
}

#[test]
fn a_fan_speaks_the_houses_speeds_and_lutrons_on_the_wire() {
    let mut inst = a_zone("/zone/3", Some("fan"));
    let fan_speed = |calls: &[HostCall]| -> String {
        let msg = sent(calls);
        command(&msg)
            .get2("FanSpeedParameters", "FanSpeed")
            .and_then(|v| v.as_str())
            .expect("a speed")
            .to_string()
    };

    let args = dict1("speed", string("medium_high"));
    let calls = CasetaLeap::on_fan_command(&inst, "set_speed", &args);
    assert_eq!(command_type(&sent(&calls)), "GoToFanSpeed");
    assert_eq!(fan_speed(&calls), "MediumHigh");

    // A speed this fan does not have is said out loud, not sent as itself.
    let nonsense = dict1("speed", string("ludicrous"));
    assert!(matches!(
        CasetaLeap::on_fan_command(&inst, "set_speed", &nonsense).as_slice(),
        [HostCall::Log { .. }],
    ));

    // And back: the bridge's spelling becomes the house's, and `Off` is not a speed.
    let status = |speed: &str| {
        data(&format!(
            "{{\"Body\":{{\"ZoneStatus\":{{\"Zone\":{{\"href\":\"/zone/3\"}},\"FanSpeed\":\"{speed}\"}}}}}}\n"
        ))
    };
    let calls = CasetaLeap::on_dimmer_event(&mut inst, "rx", &status("MediumHigh"));
    match calls.as_slice() {
        [HostCall::Notify { name, args, .. }] => {
            assert_eq!(name, "speed_changed");
            assert_eq!(args.get("speed").and_then(|v| v.as_str()), Some("medium_high"));
            assert_eq!(args.get("on").and_then(|v| v.as_bool()), Some(true));
        }
        other => panic!("expected a speed report, got {other:?}"),
    }
    let calls = CasetaLeap::on_dimmer_event(&mut inst, "rx", &status("Off"));
    match calls.as_slice() {
        [HostCall::Notify { args, .. }] => {
            assert_eq!(args.get("on").and_then(|v| v.as_bool()), Some(false));
            assert_eq!(args.get("speed").and_then(|v| v.as_str()), Some("off"));
        }
        other => panic!("expected a stop, got {other:?}"),
    }
    // Turning it back on returns it to the speed somebody chose, not to full.
    assert_eq!(fan_speed(&CasetaLeap::on_fan_command(&inst, "on", &Dict::new())), "MediumHigh");
}

#[test]
fn a_fan_toggles_and_starts_slow() {
    let mut inst = a_zone("/zone/3", Some("fan"));
    let speed = |calls: Vec<HostCall>| -> String {
        let msg = sent(&calls);
        command(&msg).get2("FanSpeedParameters", "FanSpeed").and_then(|v| v.as_str()).expect("a speed").to_string()
    };
    assert_eq!(speed(CasetaLeap::on_fan_command(&inst, "toggle", &Dict::new())), "Low");
    inst.scratch.insert("on", Json::Bool(true));
    assert_eq!(speed(CasetaLeap::on_fan_command(&inst, "toggle", &Dict::new())), "Off");
    assert_eq!(speed(CasetaLeap::on_fan_command(&inst, "off", &Dict::new())), "Off");
    assert!(CasetaLeap::on_fan_command(&inst, "set_speed", &Dict::new()).is_empty());
    assert!(CasetaLeap::on_fan_command(&inst, "dance", &Dict::new()).is_empty());
}

#[test]
fn a_shade_is_driven_by_level_and_stopped_by_its_own_verb() {
    let mut inst = a_zone("/zone/7", Some("shade"));
    let send = |inst: &Instance, cmd: &str, args: &Dict| sent(&CasetaLeap::on_shade_command(inst, cmd, args));

    let open = send(&inst, "open", &Dict::new());
    assert_eq!(command_type(&open), "GoToLevel");
    assert_eq!(value_of(&open), 100);
    assert_eq!(value_of(&send(&inst, "close", &Dict::new())), 0);
    assert_eq!(command_type(&send(&inst, "stop", &Dict::new())), "Stop");

    let tilt = dict1("tilt", Json::Unsigned(40));
    let tilted = send(&inst, "set_tilt", &tilt);
    assert_eq!(command_type(&tilted), "GoToTilt");
    assert_eq!(command(&tilted).get2("TiltParameters", "Tilt").and_then(|v| v.as_u64()), Some(40));

    // And its status is a position, not a brightness.
    let a = data("{\"Body\":{\"ZoneStatus\":{\"Zone\":{\"href\":\"/zone/7\"},\"Level\":60}}}\n");
    match CasetaLeap::on_dimmer_event(&mut inst, "rx", &a).as_slice() {
        [HostCall::Notify { name, args, .. }] => {
            assert_eq!(name, "position_changed");
            assert_eq!(args.get("position").and_then(|v| v.as_u64()), Some(60));
        }
        other => panic!("expected a position, got {other:?}"),
    }
}

#[test]
fn a_shades_percentages_stop_at_a_hundred() {
    let mut inst = a_zone("/zone/7", Some("shade"));
    let far = dict1("position", Json::Unsigned(300));
    assert_eq!(value_of(&sent(&CasetaLeap::on_shade_command(&inst, "set_position", &far))), 100);
    assert!(CasetaLeap::on_shade_command(&inst, "set_position", &Dict::new()).is_empty());
    let both = data(
        "{\"Body\":{\"ZoneStatus\":{\"Zone\":{\"href\":\"/zone/7\"},\"Level\":250,\"Tilt\":101}}}\n",
    );
    match CasetaLeap::on_dimmer_event(&mut inst, "rx", &both).as_slice() {
        [HostCall::Notify { name: tilt, args: slats, .. }, HostCall::Notify { name: level, args: place, .. }] => {
            assert_eq!((tilt.as_str(), level.as_str()), ("tilt_changed", "position_changed"));
            assert_eq!(slats.get("tilt").and_then(|v| v.as_u64()), Some(100));
            assert_eq!(place.get("position").and_then(|v| v.as_u64()), Some(100));
        }
        other => panic!("expected a tilt and a position, got {other:?}"),
    }
    // Said once: the same status again is silent.
    assert!(CasetaLeap::on_dimmer_event(&mut inst, "rx", &both).is_empty());
}

#[test]
fn a_switch_is_sent_a_plain_level_and_toggles_from_what_it_last_reported() {
    let mut inst = a_zone("/zone/9", Some("switch"));

    let on = sent(&CasetaLeap::on_switch_command(&inst, "on"));
    assert_eq!(command_type(&on), "GoToLevel", "no fade on a switch");
    assert_eq!(value_of(&on), 100);

    // The bridge says it is on; a toggle then has to turn it off rather than on again.
    let a = data("{\"Body\":{\"ZoneStatus\":{\"Zone\":{\"href\":\"/zone/9\"},\"Level\":100}}}\n");
    match CasetaLeap::on_dimmer_event(&mut inst, "rx", &a).as_slice() {
        [HostCall::Notify { name, args, .. }] => {
            assert_eq!(name, "switch_changed");
            assert_eq!(args.get("on").and_then(|v| v.as_bool()), Some(true));
        }
        other => panic!("expected a switch report, got {other:?}"),
    }
    let toggled = sent(&CasetaLeap::on_switch_command(&inst, "toggle"));
    assert_eq!(value_of(&toggled), 0, "on, so a toggle is off");
}

#[test]
fn a_switch_that_is_off_toggles_on() {
    let mut inst = a_zone("/zone/9", Some("switch"));
    let off = data("{\"Body\":{\"ZoneStatus\":{\"Zone\":{\"href\":\"/zone/9\"},\"Level\":0}}}\n");
    assert_eq!(CasetaLeap::on_dimmer_event(&mut inst, "rx", &off).len(), 1);
    assert!(CasetaLeap::on_dimmer_event(&mut inst, "rx", &off).is_empty());
    assert_eq!(value_of(&sent(&CasetaLeap::on_switch_command(&inst, "toggle"))), 100);
    assert_eq!(value_of(&sent(&CasetaLeap::on_switch_command(&inst, "off"))), 0);
    assert!(CasetaLeap::on_switch_command(&inst, "set_level").is_empty());
}

#[test]
fn a_light_comes_back_to_its_level() {
    let mut inst = a_zone("/zone/3", Some("light"));
    let level = |calls: &[HostCall]| -> (u64, u64, String) {
        match calls {
            [HostCall::Tx { data, .. }, HostCall::Notify { name, args, .. }] => {
                assert_eq!(name, "level_changed");
                let msg = parse(String::from_utf8(data.clone()).expect("UTF-8").trim_end()).expect("JSON");
                (
                    dimmed_level(&msg),
                    args.get("level").and_then(|v| v.as_u64()).expect("a level"),
                    fade(&msg).to_string(),
                )
            }
            other => panic!("expected a write and a report, got {other:?}"),
        }
    };
    let mut set = dict1("level", Json::Unsigned(30));
    set.insert("ramp_ms", Json::Unsigned(2500));
    let calls = CasetaLeap::on_dimmer_command(&mut inst, "set_level", &set);
    assert_eq!(level(&calls), (30, 30, "00:00:02".to_string()));
    let calls = CasetaLeap::on_dimmer_command(&mut inst, "off", &Dict::new());
    assert_eq!(level(&calls), (0, 0, "00:00:01".to_string()));
    let calls = CasetaLeap::on_dimmer_command(&mut inst, "toggle", &Dict::new());
    assert_eq!(level(&calls), (30, 30, "00:00:01".to_string()));
    inst.properties.insert("Default fade", Json::Unsigned(5));
    let calls = CasetaLeap::on_dimmer_command(&mut inst, "toggle", &Dict::new());
    assert_eq!(level(&calls), (0, 0, "00:00:05".to_string()));
}

#[test]
fn a_light_that_never_said_anything_goes_to_full() {
    let mut inst = a_zone("/zone/3", None);
    let calls = CasetaLeap::on_dimmer_command(&mut inst, "on", &Dict::new());
    assert!(matches!(calls.as_slice(), [HostCall::Tx { .. }, HostCall::Notify { .. }]));
    assert_eq!(inst.scratch.get("level").and_then(|v| v.as_u64()), Some(100));
    assert_eq!(inst.scratch.get("on").and_then(|v| v.as_bool()), Some(true));
    let calls = CasetaLeap::on_dimmer_command(&mut inst, "glow", &Dict::new());
    match calls.as_slice() {
        [HostCall::Log { message }] => assert_eq!(message, "caseta-leap: unhandled `glow`"),
        other => panic!("expected a warning, got {other:?}"),
    }
}

#[test]
fn a_status_is_said_once_and_another_zones_is_nobodys() {
    let mut inst = a_zone("/zone/3", None);
    let mine = data("{\"Body\":{\"ZoneStatus\":{\"Zone\":{\"href\":\"/zone/3\"},\"Level\":120}}}\n");
    match CasetaLeap::on_dimmer_event(&mut inst, "rx", &mine).as_slice() {
        [HostCall::Notify { args, .. }] => {
            assert_eq!(args.get("level").and_then(|v| v.as_u64()), Some(100))
        }
        other => panic!("expected a level, got {other:?}"),
    }
    assert!(CasetaLeap::on_dimmer_event(&mut inst, "rx", &mine).is_empty());
    let theirs = data("{\"Body\":{\"ZoneStatus\":{\"Zone\":{\"href\":\"/zone/4\"},\"Level\":7}}}\n");
    assert!(CasetaLeap::on_dimmer_event(&mut inst, "rx", &theirs).is_empty());
    assert_eq!(inst.scratch.get("level").and_then(|v| v.as_u64()), Some(100));
    assert!(CasetaLeap::on_dimmer_event(&mut inst, "connected", &mine).is_empty());
    assert!(CasetaLeap::on_dimmer_event(&mut inst, "rx", &Dict::new()).is_empty());
}

#[test]
fn two_statuses_in_one_window_are_both_taken_in() {
    let mut inst = a_zone("/zone/3", None);
    let both = data(
        "{\"Body\":{\"ZoneStatus\":{\"Zone\":{\"href\":\"/zone/3\"},\"Level\":10}}}\n{\"Body\":{\"ZoneStatus\":{\"Zone\":{\"href\":\"/zone/3\"},\"Level\":20}}}\n",
    );
    let levels: Vec<Option<u64>> = CasetaLeap::on_dimmer_event(&mut inst, "rx", &both)
        .iter()
        .map(|c| match c {
            HostCall::Notify { args, .. } => args.get("level").and_then(|v| v.as_u64()),
            _ => None,
        })
        .collect();
    assert_eq!(levels, vec![Some(10), Some(20)]);
}

#[test]
fn a_device_without_a_zone_only_complains() {
    let mut bare = Instance { properties: Dict::new(), scratch: Dict::new() };
    let complaint = "caseta-leap: this device has no Zone — adopt it through the bridge's setup flow";
    let check = |calls: Vec<HostCall>| match calls.as_slice() {
        [HostCall::Log { message }] => assert_eq!(message, complaint),
        other => panic!("expected a warning, got {other:?}"),
    };
    check(CasetaLeap::on_dimmer_command(&mut bare, "on", &Dict::new()));
    check(CasetaLeap::on_switch_command(&bare, "on"));
    check(CasetaLeap::on_fan_command(&bare, "on", &Dict::new()));
    check(CasetaLeap::on_shade_command(&bare, "open", &Dict::new()));
}

fn zone_3_at(level: u64) -> Dict {
    data(&format!(
        "{{\"Body\":{{\"ZoneStatus\":{{\"Zone\":{{\"href\":\"/zone/3\"}},\"Level\":{level}}}}}}}\n"
    ))
}

fn levels(calls: &[HostCall]) -> Vec<u64> {
    calls
        .iter()
        .map(|c| match c {
            HostCall::Notify { proxy: 1, name, args } if name == "level_changed" => {
                args.get("level").and_then(|v| v.as_u64()).expect("a level")
            }
            other => panic!("expected a level, got {other:?}"),
        })
        .collect()
}

#[test]
fn a_light_that_comes_back_at_the_wall_is_reported() {
    let mut inst = a_zone("/zone/3", None);
    let on = |inst: &Instance| inst.scratch.get("on").and_then(|v| v.as_bool());
    assert_eq!(levels(&CasetaLeap::on_dimmer_event(&mut inst, "rx", &zone_3_at(42))), vec![42]);
    assert_eq!(levels(&CasetaLeap::on_dimmer_event(&mut inst, "rx", &zone_3_at(0))), vec![0]);
    assert_eq!(on(&inst), Some(false));
    assert_eq!(levels(&CasetaLeap::on_dimmer_event(&mut inst, "rx", &zone_3_at(42))), vec![42]);
    assert_eq!(on(&inst), Some(true));
    assert_eq!(inst.scratch.get("level").and_then(|v| v.as_u64()), Some(42));
}

#[test]
fn a_light_that_is_off_says_so_each_time() {
    let mut inst = a_zone("/zone/3", None);
    assert_eq!(levels(&CasetaLeap::on_dimmer_event(&mut inst, "rx", &zone_3_at(0))), vec![0]);
    assert_eq!(levels(&CasetaLeap::on_dimmer_event(&mut inst, "rx", &zone_3_at(0))), vec![0]);
    // What a command did is known when the bridge confirms it, unless it was to turn off.
    CasetaLeap::on_dimmer_command(&mut inst, "set_level", &dict1("level", Json::Unsigned(30)));
    assert!(CasetaLeap::on_dimmer_event(&mut inst, "rx", &zone_3_at(30)).is_empty());
    CasetaLeap::on_dimmer_command(&mut inst, "off", &Dict::new());
    assert_eq!(levels(&CasetaLeap::on_dimmer_event(&mut inst, "rx", &zone_3_at(0))), vec![0]);
}

#[test]
fn a_level_that_was_noted_is_known() {
    let mut inst = a_zone("/zone/3", None);
    inst.scratch.insert("level", Json::Unsigned(42));
    assert!(CasetaLeap::on_dimmer_event(&mut inst, "rx", &zone_3_at(42)).is_empty());
    assert_eq!(levels(&CasetaLeap::on_dimmer_event(&mut inst, "rx", &zone_3_at(43))), vec![43]);
}

#[test]
fn a_fan_that_remembers_a_speed_says_each_time_that_it_stands_still() {
    let mut inst = a_zone("/zone/3", Some("fan"));
    let status = |speed: &str| {
        data(&format!(
            "{{\"Body\":{{\"ZoneStatus\":{{\"Zone\":{{\"href\":\"/zone/3\"}},\"FanSpeed\":\"{speed}\"}}}}}}\n"
        ))
    };
    let mut said = |speed: &str| CasetaLeap::on_dimmer_event(&mut inst, "rx", &status(speed)).len();
    assert_eq!(said("Off"), 1);
    assert_eq!(said("Off"), 0);
    assert_eq!(said("High"), 1);
    assert_eq!(said("High"), 0);
    assert_eq!(said("Off"), 1);
    assert_eq!(said("Off"), 1);
    assert_eq!(said("High"), 1);
}
