use caseta_leap::device::CasetaLeap;
use caseta_leap::framing::leap_answer;
use caseta_leap::host::{HostCall, Instance, SceneOperation, SceneRequest};
use caseta_leap::json::{dict1, string, Dict, Json};

fn device(properties: &[(&str, &str)]) -> Instance {
    let mut inst = Instance { properties: Dict::new(), scratch: Dict::new() };
    for (name, value) in properties {
        inst.properties.insert(name, string(value));
    }
    inst
}

/// What each call comes down to: the notification's name, or the request and its URL.
fn said(calls: &[HostCall]) -> Vec<String> {
    calls
        .iter()
        .map(|c| match c {
            HostCall::Notify { name, .. } => name.clone(),
            HostCall::Tx { data, .. } => {
                let msg = leap_answer(&String::from_utf8(data.clone()).expect("UTF-8"));
                let kind = msg.get("CommuniqueType").and_then(|v| v.as_str()).expect("a kind").to_string();
                let url = msg.get2("Header", "Url").and_then(|v| v.as_str()).expect("a URL").to_string();
                format!("{kind} {url}")
            }
            other => format!("{other:?}"),
        })
        .collect()
}

fn bind(properties: &[(&str, &str)]) -> Vec<String> {
    said(&CasetaLeap::default().on_bind(&mut device(properties)))
}

#[test]
fn each_device_subscribes_to_what_it_has_to_hear() {
    assert_eq!(
        bind(&[("Zone", "/zone/3"), ("Kind", "fan")]),
        vec!["online_changed", "SubscribeRequest /zone/3/status"]
    );
    assert_eq!(
        bind(&[("Device href", "/device/6"), ("Button 1 href", "/button/9"), ("Button 3 href", "/button/11")]),
        vec![
            "online_changed",
            "SubscribeRequest /button/9/status/event",
            "SubscribeRequest /button/11/status/event",
            "ReadRequest /device/6/status",
        ]
    );
    assert_eq!(
        bind(&[("Button 1 href", "/button/9")]),
        vec!["online_changed", "SubscribeRequest /button/9/status/event"]
    );
    assert_eq!(
        bind(&[("Occupancy href", "/occupancygroup/3")]),
        vec!["online_changed", "SubscribeRequest /occupancygroup/status"]
    );
    assert_eq!(
        bind(&[("Client certificate", "CERT")]),
        vec!["online_changed", "ReadRequest /virtualbutton"]
    );
    assert_eq!(bind(&[("Client certificate", "")]), vec!["online_changed"]);
    assert_eq!(bind(&[("Zone", ""), ("Device href", "/device/1")]), vec!["online_changed"]);
}

#[test]
fn binding_says_that_the_device_is_there() {
    match CasetaLeap::default().on_bind(&mut device(&[])).as_slice() {
        [HostCall::Notify { proxy, name, args }] => {
            assert_eq!((*proxy, name.as_str()), (1, "online_changed"));
            assert_eq!(args.get("online").and_then(|v| v.as_bool()), Some(true));
        }
        other => panic!("expected one notification, got {other:?}"),
    }
}

#[test]
fn a_command_goes_to_the_kind_of_zone_that_a_device_is() {
    let on = |kind: &str| {
        let mut inst = device(&[("Zone", "/zone/3"), ("Kind", kind)]);
        let calls = CasetaLeap::default().on_command(&mut inst, 1, "on", &Dict::new());
        match calls.first() {
            Some(HostCall::Tx { data, .. }) => {
                let msg = leap_answer(&String::from_utf8(data.clone()).expect("UTF-8"));
                msg.get3("Body", "Command", "CommandType").and_then(|v| v.as_str()).map(str::to_string)
            }
            _ => None,
        }
    };
    assert_eq!(on("light").as_deref(), Some("GoToDimmedLevel"));
    assert_eq!(on("switch").as_deref(), Some("GoToLevel"));
    assert_eq!(on("fan").as_deref(), Some("GoToFanSpeed"));
    assert_eq!(on("shade"), None);
    assert_eq!(on("something else").as_deref(), Some("GoToDimmedLevel"));
}

#[test]
fn an_event_goes_to_the_device_that_it_is_for() {
    let driver = CasetaLeap::default();
    let frame = |body: &str| dict1("data", string(body));
    let status = frame(
        "{\"Body\":{\"ZoneStatus\":{\"Zone\":{\"href\":\"/zone/3\"},\"Level\":5}}}\n\
         {\"Body\":{\"ButtonStatus\":{\"Button\":{\"href\":\"/button/9\"},\"ButtonEvent\":{\"EventType\":\"Release\"}}}}\n\
         {\"Body\":{\"OccupancyGroupStatus\":{\"OccupancyGroup\":{\"href\":\"/g/3\"},\"OccupancyStatus\":\"Occupied\"}}}\n\
         {\"Body\":{\"VirtualButtons\":[]}}\n",
    );
    let names = |properties: &[(&str, &str)]| {
        let mut inst = device(properties);
        let calls = driver.on_event(&mut inst, 0, "rx", &status);
        calls
            .iter()
            .map(|c| match c {
                HostCall::Notify { name, .. } => name.clone(),
                HostCall::BorrowedScenes { .. } => "scenes".to_string(),
                HostCall::SetState { .. } => "state".to_string(),
                other => format!("{other:?}"),
            })
            .collect::<Vec<_>>()
    };
    assert_eq!(names(&[("Zone", "/zone/3")]), vec!["level_changed"]);
    assert_eq!(names(&[("Button 2 href", "/button/9")]), vec!["clicked", "state"]);
    assert_eq!(names(&[("Occupancy href", "/g/3")]), vec!["detected_changed"]);
    assert_eq!(names(&[("Client certificate", "CERT")]), vec!["scenes"]);
    assert_eq!(names(&[("Zone", "/zone/3"), ("Kind", "switch")]), vec!["switch_changed"]);
}

#[test]
fn an_event_changes_nothing_that_was_written_down() {
    let mut inst = device(&[("Zone", "/zone/3")]);
    let status = dict1("data", string("{\"Body\":{\"ZoneStatus\":{\"Zone\":{\"href\":\"/zone/3\"},\"Level\":5}}}"));
    CasetaLeap::default().on_event(&mut inst, 0, "rx", &status);
    assert_eq!(inst.properties.entries.len(), 1);
    assert_eq!(inst.properties.get("Zone").and_then(|v| v.as_str()), Some("/zone/3"));
    assert_eq!(inst.scratch.get("level").and_then(|v| v.as_u64()), Some(5));
}

#[test]
fn a_scene_of_the_bridge_can_be_recalled_and_nothing_else() {
    let driver = CasetaLeap::default();
    let ask = |operation: SceneOperation, resource: Option<&str>| {
        let request = SceneRequest { operation, resource: resource.map(str::to_string) };
        driver.on_scene(&mut device(&[]), &request)
    };
    let recalled = ask(SceneOperation::Recall, Some("/virtualbutton/1"));
    assert_eq!(said(&recalled.calls), vec!["CreateRequest /virtualbutton/1/commandprocessor"]);
    assert!(recalled.problem.is_none());

    for resource in [Some("/zone/1"), Some("/virtualbutton"), None] {
        let refused = ask(SceneOperation::Recall, resource);
        assert!(refused.calls.is_empty());
        assert_eq!(refused.problem.as_deref(), Some("caseta-leap: not a Caséta scene"));
    }
    let managed = ask(SceneOperation::Manage, Some("/virtualbutton/1"));
    assert!(managed.calls.is_empty());
    assert_eq!(
        managed.problem.as_deref(),
        Some("caseta-leap: Caséta scenes are programmed in the Caséta app and can only be recalled from here")
    );
}

#[test]
fn a_number_is_no_property() {
    let mut inst = device(&[]);
    inst.properties.insert("Zone", Json::Unsigned(3));
    let calls = CasetaLeap::default().on_command(&mut inst, 1, "on", &Dict::new());
    assert!(matches!(calls.as_slice(), [HostCall::Log { .. }]));
}
