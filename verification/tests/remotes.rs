use caseta_leap::device::CasetaLeap;
use caseta_leap::host::{HostCall, Instance};
use caseta_leap::json::{dict1, string, Dict};
use caseta_leap::remotes::{held_flag, held_note};
use caseta_leap::tables::HOLD_MS;

/// A Pico as it is once adopted: its own href, and the keys the bridge gave it.
fn a_pico() -> Instance {
    let mut inst = Instance { properties: Dict::new(), scratch: Dict::new() };
    inst.properties.insert("Device href", string("/device/6"));
    inst.properties.insert("Button 1 href", string("/button/9"));
    inst.properties.insert("Button 2 href", string("/button/10"));
    inst
}

fn frame(body: &str) -> Dict {
    dict1("data", string(body))
}

fn event(href: &str, what: &str) -> Dict {
    frame(&format!(
        "{{\"Body\":{{\"ButtonStatus\":{{\"Button\":{{\"href\":\"{href}\"}},\"ButtonEvent\":{{\"EventType\":\"{what}\"}}}}}}}}\n"
    ))
}

fn named(calls: &[HostCall]) -> Vec<String> {
    calls
        .iter()
        .filter_map(|c| match c {
            HostCall::Notify { name, .. } => Some(name.clone()),
            _ => None,
        })
        .collect()
}

#[test]
fn a_picos_battery_is_read_from_its_own_status_and_nobody_elses() {
    let mut inst = a_pico();

    let mine = "{\"Body\":{\"DeviceStatus\":{\"Device\":{\"href\":\"/device/6\"},\
                \"BatteryStatus\":{\"LevelState\":\"Low\"}}}}\n";
    let calls = CasetaLeap::on_pico_event(&mut inst, "rx", &frame(mine));
    match calls.as_slice() {
        [HostCall::Notify { name, args, .. }] => {
            assert_eq!(name, "battery_changed");
            assert_eq!(
                args.get("percent").and_then(|v| v.as_u64()),
                Some(10),
                "Low has to read as nearly empty"
            );
        }
        other => panic!("expected one battery notification, got {other:?}"),
    }

    // The Pico in the next room, on the same socket.
    let theirs = "{\"Body\":{\"DeviceStatus\":{\"Device\":{\"href\":\"/device/9\"},\
                  \"BatteryStatus\":{\"LevelState\":\"Low\"}}}}\n";
    assert!(CasetaLeap::on_pico_event(&mut inst, "rx", &frame(theirs)).is_empty());

    // A level this driver does not recognise says nothing rather than inventing a number.
    let odd = "{\"Body\":{\"DeviceStatus\":{\"Device\":{\"href\":\"/device/6\"},\
               \"BatteryStatus\":{\"LevelState\":\"Flurgh\"}}}}\n";
    assert!(CasetaLeap::on_pico_event(&mut inst, "rx", &frame(odd)).is_empty());
}

#[test]
fn a_short_press_is_a_click_and_a_long_one_is_a_hold_then_a_release() {
    let mut inst = a_pico();

    // A press says nothing yet: it starts a clock for that key and waits.
    let started = CasetaLeap::on_pico_event(&mut inst, "rx", &event("/button/10", "Press"));
    assert!(named(&started).is_empty(), "a press is not yet a click");
    match started.as_slice() {
        [HostCall::After { ms, note }] => {
            assert_eq!(*ms, HOLD_MS);
            assert_eq!(note, "held:2", "one clock, named for the key it belongs to");
        }
        other => panic!("expected a wake-up to be asked for, got {other:?}"),
    }

    // Let go before it goes off: a click, and no hold was ever reported.
    let quick = CasetaLeap::on_pico_event(&mut inst, "rx", &event("/button/10", "Release"));
    assert_eq!(named(&quick), vec!["clicked"]);

    // Hold it instead. The wake-up arrives first, so the hold is reported...
    CasetaLeap::on_pico_event(&mut inst, "rx", &event("/button/10", "Press"));
    let woken = dict1("note", string("held:2"));
    assert_eq!(named(&CasetaLeap::on_pico_event(&mut inst, "timer", &woken)), vec!["held"]);

    // ...and letting go ends it rather than counting as a click, which is what makes
    // `held` → ramp and `released` → stop a pair rather than two unrelated rules.
    let ended = CasetaLeap::on_pico_event(&mut inst, "rx", &event("/button/10", "Release"));
    assert_eq!(named(&ended), vec!["released"]);

    // And the next press is a fresh question, not a hold left over.
    CasetaLeap::on_pico_event(&mut inst, "rx", &event("/button/10", "Press"));
    let again = CasetaLeap::on_pico_event(&mut inst, "rx", &event("/button/10", "Release"));
    assert_eq!(named(&again), vec!["clicked"], "the hold flag has to be cleared");

    // Somebody else's Pico on the same connection is still ignored.
    assert!(CasetaLeap::on_pico_event(&mut inst, "rx", &event("/button/99", "Press")).is_empty());
    assert!(CasetaLeap::on_pico_event(&mut inst, "not-rx", &Dict::new()).is_empty());
}

#[test]
fn a_key_says_what_happened_in_words_too() {
    let mut inst = a_pico();
    let calls = CasetaLeap::on_pico_event(&mut inst, "rx", &event("/button/9", "Release"));
    match calls.as_slice() {
        [HostCall::Notify { proxy, name, args }, HostCall::SetState { proxy: shown, key, value }] => {
            assert_eq!((*proxy, *shown), (1, 1));
            assert_eq!(name, "clicked");
            assert_eq!(args.get("key").and_then(|v| v.as_u64()), Some(1));
            assert_eq!(key, "last_action");
            assert_eq!(value.as_str(), Some("key 1 clicked"));
        }
        other => panic!("expected a click, got {other:?}"),
    }
}

#[test]
fn keys_are_held_apart() {
    let mut inst = a_pico();
    let woken = dict1("note", string("held:2"));
    CasetaLeap::on_pico_event(&mut inst, "timer", &woken);
    assert!(held_flag(&inst, 2));
    assert!(!held_flag(&inst, 1));
    assert!(!held_flag(&inst, 22));
    let other = CasetaLeap::on_pico_event(&mut inst, "rx", &event("/button/9", "Release"));
    assert_eq!(named(&other), vec!["clicked"]);
    assert!(held_flag(&inst, 2));
    assert_eq!(held_note(12), "held:12");
    assert_ne!(held_note(1), held_note(11));
}

#[test]
fn only_a_clock_of_its_own_wakes_a_remote() {
    let mut inst = a_pico();
    for odd in ["held:", "held:x", "2", "hold:2", "held:99999999999999999999"] {
        let args = dict1("note", string(odd));
        assert!(CasetaLeap::on_pico_event(&mut inst, "timer", &args).is_empty(), "{odd}");
    }
    assert!(CasetaLeap::on_pico_event(&mut inst, "timer", &Dict::new()).is_empty());
    assert!(!held_flag(&inst, 2));
}

#[test]
fn an_event_that_nobody_knows_yet_is_left_alone() {
    let mut inst = a_pico();
    assert!(CasetaLeap::on_pico_event(&mut inst, "rx", &event("/button/9", "MultiTap")).is_empty());
    assert!(CasetaLeap::on_pico_event(&mut inst, "rx", &frame("{\"Body\":{}}\n")).is_empty());
    assert!(CasetaLeap::on_pico_event(&mut inst, "rx", &Dict::new()).is_empty());
}

#[test]
fn a_wake_up_after_the_release_means_nothing() {
    let mut inst = a_pico();
    let woken = dict1("note", string("held:2"));
    CasetaLeap::on_pico_event(&mut inst, "rx", &event("/button/10", "Press"));
    let quick = CasetaLeap::on_pico_event(&mut inst, "rx", &event("/button/10", "Release"));
    assert_eq!(named(&quick), vec!["clicked"]);
    assert!(CasetaLeap::on_pico_event(&mut inst, "timer", &woken).is_empty());
    assert!(inst.scratch.get("held:2").is_none());

    // The next short press is a click again...
    CasetaLeap::on_pico_event(&mut inst, "rx", &event("/button/10", "Press"));
    let again = CasetaLeap::on_pico_event(&mut inst, "rx", &event("/button/10", "Release"));
    assert_eq!(named(&again), vec!["clicked"]);

    // ...and a long one right after it a hold, though the clock of the click never went off.
    CasetaLeap::on_pico_event(&mut inst, "rx", &event("/button/10", "Press"));
    assert_eq!(named(&CasetaLeap::on_pico_event(&mut inst, "timer", &woken)), vec!["held"]);
    let ended = CasetaLeap::on_pico_event(&mut inst, "rx", &event("/button/10", "Release"));
    assert_eq!(named(&ended), vec!["released"]);
}

#[test]
fn a_click_of_one_key_voids_no_clock_but_its_own() {
    let mut inst = a_pico();
    CasetaLeap::on_pico_event(&mut inst, "rx", &event("/button/10", "Press"));
    CasetaLeap::on_pico_event(&mut inst, "rx", &event("/button/9", "Press"));
    CasetaLeap::on_pico_event(&mut inst, "rx", &event("/button/9", "Release"));
    assert!(CasetaLeap::on_pico_event(&mut inst, "timer", &dict1("note", string("held:1"))).is_empty());
    let held = CasetaLeap::on_pico_event(&mut inst, "timer", &dict1("note", string("held:2")));
    assert_eq!(named(&held), vec!["held"]);
}
