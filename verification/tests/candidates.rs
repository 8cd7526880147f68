use caseta_leap::candidates::{caseta_name, occupancy_candidates, pico_capabilities, pico_keys_of};
use caseta_leap::codec::{parse, print};
use caseta_leap::device::{pico_buttons, CasetaLeap};
use caseta_leap::host::{Candidate, Instance};
use caseta_leap::json::{string, Dict, Json};
use caseta_leap::tables::{
    is_pico, Kind, BRIDGE_ID, DIMMER_ID, FAN_ID, MAX_BUTTONS, OCCUPANCY_ID, PICO_ID, SHADE_ID,
    SWITCH_ID,
};

fn json(text: &str) -> Json {
    parse(text).expect("valid JSON")
}

fn empty() -> Json {
    json("{}")
}

fn text(dict: &Dict, key: &str) -> Option<String> {
    dict.get(key).and_then(|v| v.as_str()).map(str::to_string)
}

#[test]
fn every_pico_device_type_is_recognized_by_its_prefix() {
    assert!(is_pico("Pico2Button"));
    assert!(is_pico("Pico3ButtonRaiseLower"));
    assert!(is_pico("Pico4Button"));
    assert!(!is_pico("WallDimmer"));
    assert!(!is_pico("Dimmed"));
    assert!(!is_pico(""));
}

#[test]
fn a_pico_claims_the_keys_its_model_has_rather_than_every_number_the_bridge_listed() {
    let devices = vec![json(
        "{\"href\": \"/device/8\", \"Name\": \"Pico\", \"FullyQualifiedName\": [\"Kitchen\", \"Pico\"], \
         \"DeviceType\": \"Pico2Button\", \"ButtonGroups\": [{ \"href\": \"/buttongroup/5\" }]}",
    )];
    let buttons = (0..5)
        .map(|n| {
            json(&format!(
                "{{\"href\": \"/button/{}\", \"ButtonNumber\": {n}, \"Name\": \"Button {}\", \
                 \"Parent\": {{ \"href\": \"/buttongroup/5\" }}}}",
                9 + n,
                n + 1
            ))
        })
        .collect::<Vec<_>>();

    let found = CasetaLeap::candidates(&empty(), false, &devices, &buttons);
    let [pico] = found.as_slice() else { panic!("expected one candidate, got {found:?}") };

    assert_eq!(pico.label, "Pico", "the name, which is the leaf of the qualified one");
    assert_eq!(
        pico.room, "Kitchen",
        "and the area it was filed under, offered as the room to adopt it into",
    );
    assert_eq!(pico.capabilities.get("key_count").and_then(|v| v.as_u64()), Some(2));
    assert_eq!(text(&pico.capabilities, "key_labels").as_deref(), Some("On,Off"));
    // On is button 0 and Off is button *2* — not the first two the bridge listed, which is
    // what makes this a table rather than a count.
    assert_eq!(text(&pico.properties, "Button 1 href").as_deref(), Some("/button/9"));
    assert_eq!(text(&pico.properties, "Button 2 href").as_deref(), Some("/button/11"));
    assert!(pico.properties.get("Button 3 href").is_none());
}

#[test]
fn the_room_offered_is_the_innermost_area_or_none_at_all() {
    let buttons = vec![json(
        "{\"href\": \"/button/1\", \"ButtonNumber\": 0, \"Parent\": { \"href\": \"/buttongroup/1\" }}",
    )];
    let of = |fqn: &str| {
        let device = json(&format!(
            "{{\"Name\": \"Pico\", \"FullyQualifiedName\": {fqn}, \"DeviceType\": \"Pico2Button\", \
             \"ButtonGroups\": [{{ \"href\": \"/buttongroup/1\" }}]}}"
        ));
        let found = CasetaLeap::candidates(&empty(), false, &[device], &buttons);
        let [pico] = found.as_slice() else { panic!("expected one candidate") };
        (pico.label.clone(), pico.room.clone())
    };

    assert_eq!(of("[\"Upstairs\", \"Kitchen\", \"Pico\"]"), ("Pico".into(), "Kitchen".into()));
    // Under no area: an answer, and not one to guess past by reaching for the name itself.
    assert_eq!(of("[\"Pico\"]"), ("Pico".into(), String::new()));
}

#[test]
fn a_three_button_raise_lower_pico_is_named_the_way_lutron_engraves_it() {
    let devices = vec![json(
        "{\"href\": \"/device/6\", \"Name\": \"Pico\", \"FullyQualifiedName\": [\"Kitchen\", \"Pico\"], \
         \"DeviceType\": \"Pico3ButtonRaiseLower\", \"ButtonGroups\": [{ \"href\": \"/buttongroup/5\" }]}",
    )];
    let buttons = (0..5)
        .map(|n| {
            json(&format!(
                "{{\"href\": \"/button/{}\", \"ButtonNumber\": {n}, \"Parent\": {{ \"href\": \"/buttongroup/5\" }}}}",
                116 + n
            ))
        })
        .collect::<Vec<_>>();

    let found = CasetaLeap::candidates(&empty(), false, &devices, &buttons);
    let [pico] = found.as_slice() else { panic!("expected one candidate, got {found:?}") };
    assert_eq!(pico.capabilities.get("key_count").and_then(|v| v.as_u64()), Some(5));
    assert_eq!(
        text(&pico.capabilities, "key_labels").as_deref(),
        Some("On,Favorite,Off,Raise,Lower")
    );
    assert_eq!(text(&pico.properties, "Button 5 href").as_deref(), Some("/button/120"));
}

#[test]
fn a_picos_keys_are_its_own_and_a_model_nobody_wrote_down_still_gets_keys() {
    let device = json(
        "{\"DeviceType\": \"PicoSomethingUnheardOf\", \"ButtonGroups\": [{ \"href\": \"/buttongroup/8\" }]}",
    );
    let buttons = vec![
        // Somebody else's remote, on the same bridge-wide list.
        json("{ \"href\": \"/button/50\", \"ButtonNumber\": 0, \"Parent\": { \"href\": \"/buttongroup/9\" } }"),
        json("{ \"href\": \"/button/10\", \"ButtonNumber\": 1, \"Parent\": { \"href\": \"/buttongroup/8\" } }"),
        json("{ \"href\": \"/button/9\", \"ButtonNumber\": 0, \"Parent\": { \"href\": \"/buttongroup/8\" } }"),
    ];

    assert_eq!(
        pico_keys_of(&device, &buttons),
        vec![
            ("/button/9".to_string(), "Button 1".to_string()),
            ("/button/10".to_string(), "Button 2".to_string()),
        ],
        "an unknown model keeps every key the bridge listed, in ButtonNumber order",
    );

    // A device with no button group at all — an occupancy sensor, say — gets nothing to
    // subscribe to rather than a button that belongs to somebody else's remote.
    assert!(pico_keys_of(&json("{ \"DeviceType\": \"Pico2Button\" }"), &buttons).is_empty());
}

#[test]
fn each_leap_device_type_is_adopted_as_the_thing_it_actually_is() {
    let device = |kind: &str| {
        json(&format!(
            "{{\"href\": \"/device/2\", \"Name\": \"Thing\", \"FullyQualifiedName\": [\"Hall\", \"Thing\"], \
             \"DeviceType\": \"{kind}\", \"LocalZones\": [{{ \"href\": \"/zone/3\" }}]}}"
        ))
    };
    let claimed = |kind: &str| {
        let found = CasetaLeap::candidates(&empty(), false, &[device(kind)], &[]);
        let [c] = found.as_slice() else { panic!("{kind} was not adopted at all") };
        (c.driver_id.clone(), c.kind.clone(), text(&c.properties, "Kind").expect("a kind"))
    };
    let thing = |id: &str, proxy: &str, kind: &str| (id.to_string(), proxy.to_string(), kind.to_string());

    assert_eq!(claimed("WallDimmer"), thing(DIMMER_ID, "light", "light"));
    assert_eq!(claimed("SunnataDimmer"), thing(DIMMER_ID, "light", "light"));
    assert_eq!(claimed("WallSwitch"), thing(SWITCH_ID, "switch", "switch"));
    assert_eq!(claimed("PowPakSwitch"), thing(SWITCH_ID, "switch", "switch"));
    assert_eq!(claimed("CasetaFanSpeedController"), thing(FAN_ID, "fan", "fan"));
    assert_eq!(claimed("SerenaRollerShade"), thing(SHADE_ID, "blind", "shade"));

    // Slats or not is the model's business. A roller shade must not offer a tilt control.
    let tilts = |kind: &str| {
        let found = CasetaLeap::candidates(&empty(), false, &[device(kind)], &[]);
        found[0].capabilities.get("supports_tilt").and_then(|v| v.as_bool())
    };
    assert_eq!(tilts("SerenaTiltOnlyWoodBlind"), Some(true));
    assert_eq!(tilts("SerenaRollerShade"), Some(false));

    // Something Lutron has not shipped yet is left alone rather than adopted as a guess.
    assert!(CasetaLeap::candidates(&empty(), false, &[device("FluxCapacitor")], &[]).is_empty());
}

#[test]
fn only_an_area_with_a_sensor_in_it_is_offered_as_one() {
    let areas = vec![
        json("{ \"href\": \"/area/2\", \"Name\": \"Master Bedroom\" }"),
        json("{ \"href\": \"/area/4\", \"Name\": \"Kitchen\" }"),
    ];
    let groups = vec![
        // A slot with nothing in it — what a real bridge is full of.
        json("{ \"href\": \"/occupancygroup/1\", \"AssociatedAreas\": [{ \"Area\": { \"href\": \"/area/2\" } }] }"),
        json(
            "{\"href\": \"/occupancygroup/3\", \
             \"AssociatedAreas\": [{ \"Area\": { \"href\": \"/area/4\" } }], \
             \"AssociatedSensors\": [{ \"OccupancySensor\": { \"href\": \"/device/8\" } }]}",
        ),
    ];

    let found = occupancy_candidates(&areas, &groups);
    let [sensor] = found.as_slice() else { panic!("expected one, got {found:?}") };
    assert_eq!(sensor.label, "Kitchen Occupancy");
    assert_eq!(sensor.room, "Kitchen", "it goes in the room it watches");
    assert_eq!(sensor.driver_id, OCCUPANCY_ID);
    assert_eq!(text(&sensor.properties, "Occupancy href").as_deref(), Some("/occupancygroup/3"));
}

#[test]
fn a_sensor_of_an_area_that_nobody_named_is_still_offered() {
    let groups = vec![
        json("{ \"href\": \"/g/1\", \"AssociatedSensors\": [1], \"AssociatedAreas\": [{ \"Area\": { \"href\": \"/area/9\" } }] }"),
        json("{ \"href\": \"/g/2\", \"AssociatedSensors\": [] }"),
        json("{ \"AssociatedSensors\": [1] }"),
        json("{ \"href\": \"/g/4\", \"AssociatedSensors\": [1] }"),
    ];
    let found = occupancy_candidates(&[], &groups);
    let offered: Vec<(String, String)> = found
        .iter()
        .map(|c| (c.label.clone(), text(&c.properties, "Occupancy href").expect("a group")))
        .collect();
    assert_eq!(
        offered,
        vec![
            ("Occupancy".to_string(), "/g/1".to_string()),
            ("Occupancy".to_string(), "/g/4".to_string()),
        ]
    );
}

#[test]
fn a_name_is_the_leaf_of_the_path_or_the_name_or_a_guess() {
    let named = |device: &str| caseta_name(&json(device));
    let pair = |name: &str, room: &str| (name.to_string(), room.to_string());
    assert_eq!(named("{\"FullyQualifiedName\":[\"Hall\",3,\"Lamp\"],\"Name\":\"x\"}"), pair("Lamp", "Hall"));
    assert_eq!(named("{\"FullyQualifiedName\":[],\"Name\":\"Lamp\"}"), pair("Lamp", ""));
    assert_eq!(named("{\"Name\":7}"), pair("Caséta device", ""));
}

#[test]
fn a_zone_device_without_a_zone_is_nothing_to_command() {
    let bare = vec![json("{\"DeviceType\":\"WallDimmer\",\"LocalZones\":[]}")];
    assert!(CasetaLeap::candidates(&empty(), false, &bare, &[]).is_empty());
    let odd = vec![json("{\"DeviceType\":\"WallDimmer\",\"LocalZones\":{\"0\":{\"href\":\"/zone/1\"}}}")];
    let found = CasetaLeap::candidates(&empty(), false, &odd, &[]);
    assert_eq!(text(&found[0].properties, "Zone").as_deref(), Some("/zone/1"));
    assert_eq!(text(&found[0].properties, "Device href").as_deref(), Some(""));
    assert_eq!(found[0].verified, "found on bridge");
}

#[test]
fn buttons_keep_their_order_where_their_numbers_are_one() {
    let device = json("{\"DeviceType\":\"PicoNew\",\"ButtonGroups\":[{\"href\":\"/g/1\"},{\"href\":\"/g/2\"}]}");
    let button = |href: &str, number: &str, parent: &str| {
        json(&format!(
            "{{\"href\":\"{href}\",\"ButtonNumber\":{number},\"Parent\":{{\"href\":\"{parent}\"}}}}"
        ))
    };
    let buttons = vec![
        button("/b/3", "3", "/g/1"),
        button("/b/1a", "1", "/g/2"),
        button("/b/1b", "1", "/g/1"),
        button("/b/x", "-1", "/g/1"),
        button("/b/0", "0", "/g/1"),
        button("/b/4", "4", "/g/3"),
        button("/b/9", "9", "/g/1"),
        button("/b/8", "8", "/g/1"),
    ];
    let hrefs: Vec<String> = pico_keys_of(&device, &buttons).into_iter().map(|(h, _)| h).collect();
    assert_eq!(hrefs, vec!["/b/0", "/b/1a", "/b/1b", "/b/3", "/b/8"]);
    assert_eq!(hrefs.len(), MAX_BUTTONS);
}

#[test]
fn what_a_remote_claims_is_what_its_labels_say() {
    assert_eq!(
        print(&Json::Object(pico_capabilities(&["On", "Off"]))),
        "{\"has_battery\":true,\"has_hold\":true,\"key_count\":2,\"key_labels\":\"On,Off\"}"
    );
    assert_eq!(
        print(&Json::Object(pico_capabilities(&[]))),
        "{\"has_battery\":true,\"has_hold\":true,\"key_count\":0,\"key_labels\":\"\"}"
    );
}

#[test]
fn a_paired_bridge_comes_first_with_its_identity() {
    let state = json(
        "{\"address\":\"10.0.0.5\",\"cert_pem\":\"CERT\",\"key_pem\":\"KEY\",\"ca_pem\":\"CA\"}",
    );
    let found = CasetaLeap::candidates(&state, true, &[], &[]);
    let [bridge] = found.as_slice() else { panic!("expected the bridge") };
    assert_eq!(bridge.driver_id, BRIDGE_ID);
    assert_eq!(bridge.label, "Caséta Smart Bridge");
    assert_eq!((bridge.room.as_str(), bridge.kind.as_str(), bridge.verified.as_str()), ("", "bridge", "paired"));
    // Browsing later connects with what was written down now.
    let identity = CasetaLeap::bridge_identity(&Json::Object(bridge.properties.clone()));
    assert_eq!(identity, ("10.0.0.5".to_string(), "CERT".to_string(), "KEY".to_string()));
    assert_eq!(text(&bridge.properties, "CA certificate").as_deref(), Some("CA"));
    assert!(CasetaLeap::candidates(&state, false, &[], &[]).is_empty());
}

#[test]
fn what_is_adopted_is_read_back() {
    let adopt = |c: &Candidate| Instance { properties: c.properties.clone(), scratch: Dict::new() };
    let devices = vec![
        json("{\"DeviceType\":\"FanSpeed\",\"LocalZones\":[{\"href\":\"/zone/1\"}]}"),
        json("{\"DeviceType\":\"Pico3Button\",\"ButtonGroups\":[{\"href\":\"/g/1\"}]}"),
    ];
    let buttons: Vec<Json> = (0..5)
        .map(|n| json(&format!("{{\"href\":\"/b/{n}\",\"ButtonNumber\":{n},\"Parent\":{{\"href\":\"/g/1\"}}}}")))
        .collect();
    let found = CasetaLeap::candidates(&empty(), false, &devices, &buttons);
    assert_eq!(found.len(), 2);
    assert!(Kind::of(&adopt(&found[0])) == Kind::Fan);
    assert!(pico_buttons(&adopt(&found[0])).is_empty());
    assert_eq!(found[1].driver_id, PICO_ID);
    assert_eq!(
        pico_buttons(&adopt(&found[1])),
        vec![(1, "/b/0".to_string()), (2, "/b/1".to_string()), (3, "/b/2".to_string())]
    );
    let mut nobody = Instance { properties: Dict::new(), scratch: Dict::new() };
    assert!(Kind::of(&nobody) == Kind::Light);
    nobody.properties.insert("Kind", string("shade"));
    assert!(Kind::of(&nobody) == Kind::Shade);
}

#[test]
fn neither_the_order_of_the_list_nor_other_remotes_change_a_key() {
    let button = |n: u64, group: &str| {
        json(&format!(
            "{{\"href\":\"{group}/b/{n}\",\"ButtonNumber\":{n},\"Parent\":{{\"href\":\"{group}\"}}}}"
        ))
    };
    for model in ["Pico3ButtonRaiseLower", "PicoNew"] {
        let device = json(&format!(
            "{{\"DeviceType\":\"{model}\",\"ButtonGroups\":[{{\"href\":\"/g/1\"}}]}}"
        ));
        let listed: Vec<Json> = [0, 1, 2, 3].iter().map(|n| button(*n, "/g/1")).collect();
        let shuffled: Vec<Json> = [2, 0, 3, 1].iter().map(|n| button(*n, "/g/1")).collect();
        let mixed = vec![
            button(9, "/g/2"),
            button(0, "/g/1"),
            button(1, "/g/1"),
            button(0, "/g/3"),
            button(2, "/g/1"),
            button(3, "/g/1"),
            button(1, "/g/2"),
        ];
        let keys = pico_keys_of(&device, &listed);
        assert_eq!(keys.len(), 4);
        assert_eq!(pico_keys_of(&device, &shuffled), keys);
        assert_eq!(pico_keys_of(&device, &mixed), keys);
    }
}
