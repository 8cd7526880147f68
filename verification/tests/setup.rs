use caseta_leap::codec::{parse, print};
use caseta_leap::device::CasetaLeap;
use caseta_leap::framing::leap_answer;
use caseta_leap::host::{Candidate, Connect, SetupStep};
use caseta_leap::json::{dict1, string, Dict, Json};
use caseta_leap::setup::{field, field_of, mdns_candidates, with_fields, PairingIdentity};
use caseta_leap::tables::{BRIDGE_ID, DIMMER_ID, LEAP_PORT, PAIR_PORT, PAIR_WAIT_SECS, READ_RETRIES};

fn json(text: &str) -> Json {
    parse(text).expect("valid JSON")
}

fn identity() -> PairingIdentity {
    PairingIdentity { cert_pem: "PUBLISHED CERT".to_string(), key_pem: "PUBLISHED KEY".to_string() }
}

fn discover(state: &Json, input: &Dict) -> (SetupStep, Json) {
    CasetaLeap::default().discover(BRIDGE_ID, state, input, &identity())
}

fn received(text: &str) -> Dict {
    let mut input = dict1("received", string(text));
    input.insert("session", Json::Unsigned(7));
    input
}

fn refused(why: &str) -> Dict {
    dict1("error", string(why))
}

fn reason(step: SetupStep) -> String {
    match step {
        SetupStep::Failed { reason } => reason,
        other => panic!("expected a failure, got {other:?}"),
    }
}

fn opened(step: &SetupStep) -> (&Connect, &str) {
    match step {
        SetupStep::Session { session: None, open: Some(connect), send, .. } => (connect, send),
        other => panic!("expected a new connection, got {other:?}"),
    }
}

fn asked(step: &SetupStep) -> String {
    match step {
        SetupStep::Session { session: Some(7), open: None, send, read_ms: 6000, close: false, note } => {
            assert_eq!(note, "list");
            leap_answer(send).get2("Header", "Url").and_then(|v| v.as_str()).expect("a URL").to_string()
        }
        other => panic!("expected a read on the open connection, got {other:?}"),
    }
}

fn found(step: SetupStep) -> Vec<Candidate> {
    match step {
        SetupStep::Done { candidates } => candidates,
        other => panic!("expected the end, got {other:?}"),
    }
}

#[test]
fn an_answer_that_has_not_arrived_yet_is_read_again_rather_than_called_empty() {
    let state = json("{ \"browse\": true, \"stage\": \"listing\", \"tries\": \"0\" }");
    let mut only_noise = Dict::new();
    only_noise.insert("session", Json::Unsigned(7));
    only_noise.insert(
        "received",
        string("{\"CommuniqueType\":\"SubscribeResponse\",\"Header\":{\"StatusCode\":\"204 NoContent\"}}\n"),
    );

    let (step, next) = CasetaLeap::handle_device_list(&state, &only_noise, false);
    match step {
        SetupStep::Session { session, open, send, .. } => {
            assert_eq!(session, Some(7), "the same connection, not a second handshake");
            assert!(open.is_none() && send.is_empty(), "listening again, not asking again");
        }
        other => panic!("expected another read, got {other:?}"),
    }
    assert_eq!(next.get("tries").and_then(|v| v.as_str()), Some("1"));

    // The bridge gets a bounded number of chances, and then this is a failure to report
    // rather than an empty list to draw.
    let spent = json(&format!(
        "{{ \"browse\": true, \"stage\": \"listing\", \"tries\": \"{READ_RETRIES}\" }}"
    ));
    assert!(matches!(
        CasetaLeap::handle_device_list(&spent, &only_noise, false).0,
        SetupStep::Failed { .. }
    ));

    // And a connection that could not be opened is that failure, not an empty house.
    assert!(matches!(
        CasetaLeap::handle_device_list(&state, &refused("connection refused"), false).0,
        SetupStep::Failed { .. }
    ));
}

#[test]
fn a_button_press_is_recognized_only_from_the_bridges_own_push() {
    let pressed = "{\"Body\":{\"Status\":{\"Permissions\":[\"PhysicalAccess\"]}}}\n";
    assert!(CasetaLeap::button_pressed(pressed));

    // Connected but not yet pressed: the bridge chatters, and none of it means go.
    assert!(!CasetaLeap::button_pressed(
        "{\"Body\":{\"Status\":{\"Permissions\":[]}}}\n{\"CommuniqueType\":\"SubscribeResponse\"}\n"
    ));
    assert!(!CasetaLeap::button_pressed(""));
}

#[test]
fn fields_are_merged_into_the_state() {
    let state = json("{\"a\":\"1\",\"b\":[2],\"c\":3}");
    let next = with_fields(&state, &[("a", "x"), ("d", "y"), ("a", "z")]);
    assert_eq!(print(&next), "{\"a\":\"z\",\"b\":[2],\"c\":3,\"d\":\"y\"}");
    assert_eq!(field(&next, "a"), "z");
    assert_eq!(field(&next, "c"), "");
    assert_eq!(field(&next, "e"), "");
    assert_eq!(print(&with_fields(&Json::Null, &[("a", "x")])), "{\"a\":\"x\"}");
    assert_eq!(field_of(&dict1("k", string("v")), "k"), "v");
    assert_eq!(field_of(&Dict::new(), "k"), "");
}

#[test]
fn a_bridge_that_was_found_needs_no_address() {
    let one = json("{\"mdns_candidates\":[{\"name\":\"Bridge\",\"address\":\"10.0.0.5\"},{\"name\":\"nameless\"}]}");
    assert_eq!(mdns_candidates(&one), vec![("Bridge".to_string(), "10.0.0.5".to_string())]);
    let (step, next) = discover(&one, &Dict::new());
    match step {
        SetupStep::MakeIdentity { common_name, note } => {
            assert_eq!((common_name.as_str(), note.as_str()), ("juno", ""))
        }
        other => panic!("expected an identity to be made, got {other:?}"),
    }
    assert_eq!(field(&next, "address"), "10.0.0.5");
    assert_eq!(field(&next, "stage"), "making_identity");

    // What somebody types goes first, without the blanks around it.
    let typed = dict1("Bridge address", string("  10.0.0.9\n"));
    assert_eq!(field(&discover(&one, &typed).1, "address"), "10.0.0.9");
}

#[test]
fn the_form_asks_for_an_address_and_lists_what_was_found() {
    let (step, next) = discover(&Json::Null, &dict1("Bridge address", string("   ")));
    match step {
        SetupStep::Form { title, body, fields } => {
            assert_eq!(title, "Pair a Caséta Smart Bridge");
            assert_eq!(
                body,
                "Enter the bridge's IP address. You'll be asked to press the button on the bridge next."
            );
            assert_eq!(fields.len(), 1);
            assert_eq!(fields[0].name, "Bridge address");
            assert_eq!(fields[0].label, "Bridge IP address");
            assert_eq!(fields[0].kind, "string");
            assert_eq!(fields[0].help, "e.g. 192.168.1.50");
            assert!(fields[0].default.is_none() && fields[0].options.is_empty() && fields[0].required);
        }
        other => panic!("expected a form, got {other:?}"),
    }
    assert!(matches!(next, Json::Null));

    let two = json(
        "{\"mdns_candidates\":[{\"name\":\"A\",\"address\":\"10.0.0.1\"},{\"name\":\"B\",\"address\":\"10.0.0.2\"}]}",
    );
    match discover(&two, &Dict::new()).0 {
        SetupStep::Form { body, fields, .. } => {
            assert_eq!(
                body,
                "Found A (10.0.0.1), B (10.0.0.2) on the network — pick the right one, or type an address. You'll be asked to press the button on the bridge next."
            );
            assert_eq!(fields[0].default.as_ref().and_then(|v| v.as_str()), Some("10.0.0.1"));
        }
        other => panic!("expected a form, got {other:?}"),
    }
}

#[test]
fn pairing_arrives_at_the_device_list() {
    let (_, state) = discover(&json("{}"), &dict1("Bridge address", string("10.0.0.5")));

    let mut made = dict1("key_pem", string("KEY"));
    made.insert("csr_pem", string("CSR"));
    let (step, state) = discover(&state, &made);
    assert!(matches!(step, SetupStep::Instruct { .. }));
    assert_eq!(field(&state, "stage"), "ready_to_pair");

    // Connected with the published identity, and nothing sent yet.
    let (step, state) = discover(&state, &Dict::new());
    let (connect, send) = opened(&step);
    assert_eq!((connect.address.as_str(), connect.port), ("10.0.0.5", PAIR_PORT));
    assert_eq!((connect.cert_pem.as_str(), connect.key_pem.as_str()), ("PUBLISHED CERT", "PUBLISHED KEY"));
    assert_eq!(send, "");

    // Chatter is no press: another second on the same connection.
    let (step, state) = discover(&state, &received("{\"CommuniqueType\":\"SubscribeResponse\"}\n"));
    match step {
        SetupStep::Session { session: Some(7), open: None, send, read_ms: 1000, close: false, .. } => {
            assert_eq!(send, "")
        }
        other => panic!("expected another second, got {other:?}"),
    }
    assert_eq!(field(&state, "waited"), "1");

    // Pressed: the signing request, down the same connection.
    let press = received("{\"Body\":{\"Status\":{\"Permissions\":[\"Public\",\"PhysicalAccess\"]}}}\n");
    let (step, state) = discover(&state, &press);
    match step {
        SetupStep::Session { session: Some(7), open: None, send, read_ms: 6000, close: true, note } => {
            assert_eq!(note, "pair");
            let csr = leap_answer(&send);
            assert_eq!(csr.get3("Body", "Parameters", "CSR").and_then(|v| v.as_str()), Some("CSR"));
        }
        other => panic!("expected the signing request, got {other:?}"),
    }

    // Signed: connected anew with the certificate that the bridge made and the key that is ours.
    let signed = received(
        "{\"Body\":{\"SigningResult\":{\"Certificate\":\"CERT\",\"RootCertificate\":\"ROOT\"}}}\n",
    );
    let (step, state) = discover(&state, &signed);
    let (connect, send) = opened(&step);
    assert_eq!((connect.address.as_str(), connect.port), ("10.0.0.5", LEAP_PORT));
    assert_eq!((connect.cert_pem.as_str(), connect.key_pem.as_str()), ("CERT", "KEY"));
    assert_eq!(leap_answer(send).get2("Header", "Url").and_then(|v| v.as_str()), Some("/device"));
    assert_eq!(field(&state, "stage"), "listing");
    assert_eq!(field(&state, "ca_pem"), "ROOT");
}

#[test]
fn the_wait_for_the_button_ends() {
    let mut state = json("{\"stage\":\"pairing\",\"waited\":\"0\"}");
    let silence = received("");
    for second in 1..=PAIR_WAIT_SECS {
        let (step, next) = discover(&state, &silence);
        assert!(matches!(step, SetupStep::Session { .. }));
        assert_eq!(field(&next, "waited"), second.to_string());
        state = next;
    }
    let (step, next) = discover(&state, &silence);
    match step {
        SetupStep::Instruct { title, body, continue_label } => {
            assert_eq!(title, "No button press");
            assert!(body.starts_with("The bridge did not report a press."));
            assert_eq!(continue_label, "Continue");
        }
        other => panic!("expected an instruction, got {other:?}"),
    }
    assert_eq!(field(&next, "stage"), "ready_to_pair");
}

#[test]
fn pairing_that_goes_wrong_can_be_tried_again() {
    for stage in ["pairing", "pair_sent"] {
        let state = json(&format!("{{\"stage\":\"{stage}\",\"address\":\"10.0.0.5\"}}"));
        let (step, next) = discover(&state, &refused("connection refused"));
        match step {
            SetupStep::Instruct { title, body, .. } => {
                assert_eq!(title, "Not paired yet");
                assert_eq!(
                    body,
                    "connection refused — press the button on the bridge right when you continue (the bridge only recognizes a press while a client is connected and waiting), then continue."
                );
            }
            other => panic!("expected an instruction, got {other:?}"),
        }
        assert_eq!(field(&next, "stage"), "ready_to_pair");
        assert_eq!(field(&next, "address"), "10.0.0.5");
    }
}

#[test]
fn each_failure_of_pairing_has_its_reason() {
    let state = json("{\"stage\":\"making_identity\"}");
    let (step, next) = discover(&state, &Dict::new());
    assert_eq!(reason(step), "could not generate a pairing key");
    assert!(matches!(next, Json::Null));
    let mut half = dict1("key_pem", string("KEY"));
    half.insert("error", string("no entropy"));
    assert_eq!(reason(discover(&state, &half).0), "could not generate a pairing key: no entropy");

    let state = json("{\"stage\":\"pair_sent\"}");
    let odd = received("{\"Body\":{\"SigningResult\":{\"Certificate\":\"CERT\"}}}\n");
    assert_eq!(
        reason(discover(&state, &odd).0),
        "the bridge answered but sent no certificate: {\"Body\":{\"SigningResult\":{\"Certificate\":\"CERT\"}}}"
    );
    assert_eq!(
        reason(discover(&state, &received("")).0),
        "the bridge answered but sent no certificate: null"
    );
}

#[test]
fn listing_arrives_without_remotes() {
    let start = json("{\"browse\":true,\"Address\":\"10.0.0.5\",\"Client certificate\":\"CERT\",\"Client key\":\"KEY\"}");
    let (step, state) = discover(&start, &Dict::new());
    let (connect, _) = opened(&step);
    assert_eq!((connect.address.as_str(), connect.port), ("10.0.0.5", LEAP_PORT));
    assert_eq!((connect.cert_pem.as_str(), connect.key_pem.as_str()), ("CERT", "KEY"));

    let devices = received(
        "{\"Body\":{\"Devices\":[{\"DeviceType\":\"WallDimmer\",\"Name\":\"Lamp\",\"LocalZones\":[{\"href\":\"/zone/1\"}]},{\"DeviceType\":\"SmartBridge\"}]}}\n",
    );
    let (step, state) = discover(&state, &devices);
    assert_eq!(asked(&step), "/area");
    let areas = received("{\"Body\":{\"Areas\":[{\"href\":\"/area/2\",\"Name\":\"Hall\"}]}}\n");
    let (step, state) = discover(&state, &areas);
    assert_eq!(asked(&step), "/occupancygroup");
    let groups = received(
        "{\"Body\":{\"OccupancyGroups\":[{\"href\":\"/g/1\",\"AssociatedSensors\":[{}],\"AssociatedAreas\":[{\"Area\":{\"href\":\"/area/2\"}}]}]}}\n",
    );
    let (step, state) = discover(&state, &groups);
    let labels: Vec<String> = found(step).iter().map(|c| c.label.clone()).collect();
    assert_eq!(labels, vec!["Lamp", "Hall Occupancy"]);
    assert!(matches!(state, Json::Null));
}

#[test]
fn listing_arrives_with_remotes_and_the_bridge_that_was_just_paired() {
    let state = json(
        "{\"stage\":\"listing\",\"tries\":\"0\",\"address\":\"10.0.0.5\",\"cert_pem\":\"CERT\",\"key_pem\":\"KEY\",\"ca_pem\":\"CA\"}",
    );
    let devices = received(
        "{\"Body\":{\"Devices\":[{\"DeviceType\":\"Pico2Button\",\"Name\":\"Remote\",\"ButtonGroups\":[{\"href\":\"/g/1\"}]}]}}\n",
    );
    let (step, state) = discover(&state, &devices);
    assert_eq!(asked(&step), "/button");
    let buttons = received(
        "{\"Body\":{\"Buttons\":[{\"href\":\"/b/2\",\"ButtonNumber\":2,\"Parent\":{\"href\":\"/g/1\"}},{\"href\":\"/b/0\",\"ButtonNumber\":0,\"Parent\":{\"href\":\"/g/1\"}}]}}\n",
    );
    let (step, state) = discover(&state, &buttons);
    assert_eq!(asked(&step), "/area");
    let (step, state) = discover(&state, &received("{\"Body\":{\"Areas\":[]}}\n"));
    assert_eq!(asked(&step), "/occupancygroup");
    let (step, _) = discover(&state, &received("{\"Body\":{\"OccupancyGroups\":[]}}\n"));
    let all = found(step);
    let [bridge, remote] = all.as_slice() else { panic!("expected two, got {all:?}") };
    assert_eq!(bridge.driver_id, BRIDGE_ID);
    assert_eq!(bridge.properties.get("Client key").and_then(|v| v.as_str()), Some("KEY"));
    assert_eq!(remote.properties.get("Button 1 href").and_then(|v| v.as_str()), Some("/b/0"));
    assert_eq!(remote.properties.get("Button 2 href").and_then(|v| v.as_str()), Some("/b/2"));
}

#[test]
fn reading_again_is_bounded() {
    let silence = received("{\"CommuniqueType\":\"SubscribeResponse\"}\n");
    for (stage, why) in [
        ("listing", "the bridge did not answer with its device list"),
        ("listing_buttons", "the bridge did not answer with its buttons"),
        ("listing_areas", "the bridge did not answer with its areas"),
    ] {
        let mut state = json(&format!("{{\"stage\":\"{stage}\",\"tries\":\"0\"}}"));
        for read in 1..=READ_RETRIES {
            let (step, next) = discover(&state, &silence);
            assert!(matches!(step, SetupStep::Session { open: None, read_ms: 2000, .. }));
            assert_eq!(field(&next, "tries"), read.to_string());
            assert_eq!(field(&next, "stage"), stage);
            state = next;
        }
        assert_eq!(reason(discover(&state, &silence).0), why);
    }
}

#[test]
fn each_failure_of_listing_has_its_reason() {
    for (stage, why) in [
        ("listing", "could not read the bridge's device list: gone"),
        ("listing_buttons", "could not read the bridge's buttons: gone"),
        ("listing_areas", "could not read the bridge's areas: gone"),
    ] {
        let state = json(&format!("{{\"stage\":\"{stage}\"}}"));
        assert_eq!(reason(discover(&state, &refused("gone")).0), why);
        let browsing = json(&format!("{{\"stage\":\"{stage}\",\"browse\":true}}"));
        assert_eq!(reason(discover(&browsing, &refused("gone")).0), why);
    }
}

#[test]
fn devices_outlive_a_failed_occupancy_read() {
    let state = |tries: u32| {
        json(&format!(
            "{{\"browse\":true,\"stage\":\"listing_occupancy\",\"tries\":\"{tries}\",\"devices_json\":[{{\"DeviceType\":\"WallSwitch\",\"Name\":\"Porch\",\"LocalZones\":[{{\"href\":\"/zone/1\"}}]}}]}}"
        ))
    };
    let (step, next) = discover(&state(0), &refused("gone"));
    assert!(matches!(step, SetupStep::Session { session: None, open: None, read_ms: 2000, .. }));
    assert_eq!(field(&next, "tries"), "1");
    let all = found(discover(&state(READ_RETRIES), &refused("gone")).0);
    assert_eq!(all.len(), 1);
    assert_eq!(all[0].label, "Porch");
}

#[test]
fn only_a_bridge_is_set_up() {
    let state = json("{\"browse\":true}");
    let (step, next) = CasetaLeap::default().discover(DIMMER_ID, &state, &Dict::new(), &identity());
    assert!(found(step).is_empty());
    assert!(matches!(next, Json::Null));
}

#[test]
fn a_connection_is_known_by_the_low_half_of_its_number() {
    let state = json("{\"stage\":\"listing\"}");
    let mut input = received("");
    input.insert("session", Json::Unsigned(0x1_0000_0009));
    assert!(matches!(discover(&state, &input).0, SetupStep::Session { session: Some(9), .. }));
    input.insert("session", string("7"));
    assert!(matches!(discover(&state, &input).0, SetupStep::Session { session: None, .. }));
}

#[test]
fn a_count_that_is_no_number_is_zero() {
    for (tries, next) in [("nonsense", "1"), ("", "1"), ("+3", "4"), ("-1", "1"), ("4294967296", "1")] {
        let state = json(&format!("{{\"stage\":\"listing\",\"tries\":\"{tries}\"}}"));
        assert_eq!(field(&discover(&state, &received("")).1, "tries"), next);
    }
    let spent = json("{\"stage\":\"listing\",\"tries\":\"4294967295\"}");
    assert!(matches!(discover(&spent, &received("")).0, SetupStep::Failed { .. }));
}
