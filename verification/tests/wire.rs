use caseta_leap::codec::{parse, print};
use caseta_leap::framing::{acknowledges, first_answer, leap_answer, leap_line, leap_objects, tx};
use caseta_leap::host::HostCall;
use caseta_leap::json::{dict1, string, Dict, Json};
use caseta_leap::messages::{
    fade_time, go_to_fan_speed, go_to_level, go_to_plain_level, go_to_tilt, press_virtual_button,
    read_request, read_status, read_virtual_buttons, shade_move, signing_request, stop_fan,
    subscribe, subscribe_button, subscribe_occupancy,
};

fn json(text: &str) -> Json {
    parse(text).expect("valid JSON")
}

fn text_at<'a>(value: &'a Json, path: &[&str]) -> &'a str {
    let mut here = value;
    for name in path {
        here = here.get(name).expect("a member of that name");
    }
    here.as_str().expect("a text")
}

#[test]
fn the_answer_is_picked_out_from_what_the_bridge_volunteered() {
    let stream = "\
{\"CommuniqueType\":\"SubscribeResponse\",\"Body\":{\"noise\":1}}
{\"CommuniqueType\":\"SubscribeResponse\",\"Body\":{\"noise\":2}}
{\"CommuniqueType\":\"ReadResponse\",\"Body\":{\"Devices\":[{\"Name\":\"Kitchen\"}]}}
";
    let answer = leap_answer(stream);
    assert_eq!(text_at(&answer, &["CommuniqueType"]), "ReadResponse");
    let devices = answer.get2("Body", "Devices").and_then(|d| d.as_array()).expect("devices");
    assert_eq!(text_at(&devices[0], &["Name"]), "Kitchen");

    // Nothing but acknowledgements is not an answer, and must not be mistaken for one.
    assert!(matches!(leap_answer("{\"CommuniqueType\":\"SubscribeResponse\"}\n"), Json::Null));
    // A half-written line is normal when a read window closes mid-message.
    assert!(matches!(leap_answer("{\"Communiqu"), Json::Null));
}

#[test]
fn a_message_is_framed_one_json_object_per_line() {
    let url = Json::Object(dict1("Url", string("/device")));
    let line = leap_line(&Json::Object(dict1("Header", url)));
    assert!(line.ends_with('\n'), "the bridge reads by line");
    assert_eq!(line.matches('\n').count(), 1);
    assert_eq!(text_at(&leap_answer(&line), &["Header", "Url"]), "/device");
}

#[test]
fn a_line_break_inside_a_text_is_escaped() {
    let msg = Json::Object(dict1("Name", string("two\nlines\tand a \"quote\"")));
    let line = leap_line(&msg);
    assert_eq!(line, "{\"Name\":\"two\\nlines\\tand a \\\"quote\\\"\"}\n");
    assert_eq!(text_at(&leap_answer(&line), &["Name"]), "two\nlines\tand a \"quote\"");
}

#[test]
fn lines_are_read_apart() {
    let one = "{\"a\":1}\r\n\n  junk\n";
    let two = " {\"b\":[2]} \n{\"half\":";
    let both = format!("{one}{two}");
    let read: Vec<String> = leap_objects(&both).iter().map(print).collect();
    assert_eq!(read, vec!["{\"a\":1}", "{\"b\":[2]}"]);
    assert_eq!(leap_objects(one).len() + leap_objects(two).len(), read.len());
    assert!(leap_objects("").is_empty());
    assert!(leap_objects("\n\n").is_empty());
}

#[test]
fn a_line_that_is_no_object_is_junk() {
    let read: Vec<String> = leap_objects("7\n{\"a\":1}\n{\"b\"").iter().map(print).collect();
    assert_eq!(read, vec!["{\"a\":1}"]);
    for junk in ["7", "null", "true", "\"text\"", "[{\"a\":1}]", "-1.5"] {
        assert!(leap_objects(junk).is_empty(), "{junk}");
        assert_eq!(print(&leap_answer(&format!("{junk}\n{{\"a\":1}}\n"))), "{\"a\":1}");
    }
    assert!(matches!(leap_answer("7\n"), Json::Null));
}

#[test]
fn an_answer_is_found_among_noise() {
    let msg = json("{\"CommuniqueType\":\"ReadResponse\",\"Body\":{\"x\":[-7,0,18446744073709551615,-9223372036854775808]}}");
    let noise = "junk\n{\"CommuniqueType\":\"SubscribeResponse\"}\n3\n";
    let rest = "{\"CommuniqueType\":\"ReadResponse\"}\n{\"half";
    let wire = format!("{noise}{}{rest}", leap_line(&msg));
    assert_eq!(print(&leap_answer(&wire)), print(&msg));
    assert_eq!(
        print(&msg),
        "{\"Body\":{\"x\":[-7,0,18446744073709551615,-9223372036854775808]},\"CommuniqueType\":\"ReadResponse\"}"
    );
}

#[test]
fn a_whole_number_may_carry_a_sign() {
    let signed = Json::Object(dict1("n", Json::Signed(-42)));
    assert_eq!(leap_line(&signed), "{\"n\":-42}\n");
    assert!(matches!(leap_answer("{\"n\":-42}\n").get("n"), Some(Json::Signed(-42))));
    assert_eq!(Json::Signed(-42).as_u64(), None);
    assert_eq!(Json::Signed(42).as_u64(), Some(42));
    assert_eq!(print(&Json::Signed(42).clone()), "42");
    assert_eq!(print(&Json::Signed(i64::MIN)), "-9223372036854775808");
    assert!(matches!(json("-1.5"), Json::Other(_)));
}

#[test]
fn a_conversation_is_read_back() {
    let msgs = vec![read_request("/device"), subscribe("/zone/3"), stop_fan("/zone/4")];
    let wire: String = msgs.iter().map(leap_line).collect();
    let read: Vec<String> = leap_objects(&wire).iter().map(print).collect();
    let sent: Vec<String> = msgs.iter().map(print).collect();
    assert_eq!(read, sent);
}

#[test]
fn acknowledgements_are_read_past() {
    let ack = json("{\"CommuniqueType\":\"SubscribeResponse\"}");
    let reply = json("{\"CommuniqueType\":\"ReadResponse\"}");
    let other = json("[1]");
    assert!(acknowledges(&ack));
    assert!(!acknowledges(&reply));
    assert!(!acknowledges(&other));
    let msgs = vec![ack.clone(), ack.clone(), reply, other];
    assert_eq!(print(&first_answer(&msgs)), "{\"CommuniqueType\":\"ReadResponse\"}");
    assert!(matches!(first_answer(&vec![ack.clone(), ack]), Json::Null));
    assert!(matches!(first_answer(&Vec::new()), Json::Null));
}

#[test]
fn a_message_is_written_to_the_drivers_own_connection() {
    match tx(&read_virtual_buttons()) {
        HostCall::Tx { control, data } => {
            assert_eq!(control, 0);
            assert_eq!(
                String::from_utf8(data).expect("UTF-8"),
                "{\"CommuniqueType\":\"ReadRequest\",\"Header\":{\"Url\":\"/virtualbutton\"}}\n"
            );
        }
        other => panic!("expected a write, got {other:?}"),
    }
}

#[test]
fn what_is_written_is_encoded_as_utf_8() {
    match tx(&read_request("/caséta")) {
        HostCall::Tx { data, .. } => {
            let line = String::from_utf8(data).expect("UTF-8");
            assert_eq!(text_at(&leap_answer(&line), &["Header", "Url"]), "/caséta");
        }
        other => panic!("expected a write, got {other:?}"),
    }
}

#[test]
fn each_request_is_what_the_bridge_expects() {
    assert_eq!(
        print(&read_request("/device")),
        "{\"CommuniqueType\":\"ReadRequest\",\"Header\":{\"Url\":\"/device\"}}"
    );
    assert_eq!(
        print(&read_status("/device/6")),
        "{\"CommuniqueType\":\"ReadRequest\",\"Header\":{\"Url\":\"/device/6/status\"}}"
    );
    assert_eq!(
        print(&subscribe("/zone/3")),
        "{\"CommuniqueType\":\"SubscribeRequest\",\"Header\":{\"Url\":\"/zone/3/status\"}}"
    );
    assert_eq!(
        print(&subscribe_button("/button/9")),
        "{\"CommuniqueType\":\"SubscribeRequest\",\"Header\":{\"Url\":\"/button/9/status/event\"}}"
    );
    assert_eq!(
        print(&subscribe_occupancy()),
        "{\"CommuniqueType\":\"SubscribeRequest\",\"Header\":{\"Url\":\"/occupancygroup/status\"}}"
    );
}

#[test]
fn each_command_is_what_the_bridge_expects() {
    let head = "{\"Body\":{\"Command\":";
    let tail = "},\"CommuniqueType\":\"CreateRequest\",\"Header\":{\"Url\":\"/zone/3/commandprocessor\"}}";
    let whole = |command: &str| format!("{head}{command}{tail}");
    assert_eq!(
        print(&go_to_level("/zone/3", 42, 3661)),
        whole(
            "{\"CommandType\":\"GoToDimmedLevel\",\"DimmedLevelParameters\":{\"FadeTime\":\"01:01:01\",\"Level\":42}}"
        )
    );
    assert_eq!(
        print(&go_to_plain_level("/zone/3", 100)),
        whole("{\"CommandType\":\"GoToLevel\",\"Parameter\":[{\"Type\":\"Level\",\"Value\":100}]}")
    );
    assert_eq!(
        print(&go_to_fan_speed("/zone/3", "high").expect("a speed")),
        whole("{\"CommandType\":\"GoToFanSpeed\",\"FanSpeedParameters\":{\"FanSpeed\":\"High\"}}")
    );
    assert!(go_to_fan_speed("/zone/3", "High").is_none());
    assert_eq!(
        print(&stop_fan("/zone/3")),
        whole("{\"CommandType\":\"GoToFanSpeed\",\"FanSpeedParameters\":{\"FanSpeed\":\"Off\"}}")
    );
    assert_eq!(print(&shade_move("/zone/3", "Stop")), whole("{\"CommandType\":\"Stop\"}"));
    assert_eq!(
        print(&go_to_tilt("/zone/3", 40)),
        whole("{\"CommandType\":\"GoToTilt\",\"TiltParameters\":{\"Tilt\":40}}")
    );
    assert_eq!(
        print(&press_virtual_button("/zone/3")),
        whole("{\"CommandType\":\"PressAndRelease\"}")
    );
}

#[test]
fn the_signing_request_is_what_the_bridge_expects() {
    assert_eq!(
        print(&signing_request("a csr")),
        "{\"Body\":{\"CommandType\":\"CSR\",\"Parameters\":{\"CSR\":\"a csr\",\"DeviceUID\":\"000000000000\",\"DisplayName\":\"Juno\",\"Role\":\"Admin\"}},\"Header\":{\"ClientTag\":\"get-cert\",\"RequestType\":\"Execute\",\"Url\":\"/pair\"}}"
    );
}

#[test]
fn a_fade_is_hours_minutes_and_seconds() {
    assert_eq!(fade_time(0), "00:00:00");
    assert_eq!(fade_time(4), "00:00:04");
    assert_eq!(fade_time(75), "00:01:15");
    assert_eq!(fade_time(3600), "01:00:00");
    assert_eq!(fade_time(360_000), "100:00:00");
}

#[test]
fn json_is_read_and_printed() {
    let source = "{\"text\":\"a\",\"list\":[1,true,null,-2,1.5],\"deep\":{\"x\":{}}}";
    let value = json(source);
    assert_eq!(
        print(&value),
        "{\"deep\":{\"x\":{}},\"list\":[1,true,null,-2,1.5],\"text\":\"a\"}"
    );
    let list = value.get("list").and_then(|v| v.as_array()).expect("a list");
    assert_eq!(list[0].as_u64(), Some(1));
    assert_eq!(list[1].as_bool(), Some(true));
    // A number that is no `u64` is handed on and read as none.
    assert_eq!(list[3].as_u64(), None);
    assert_eq!(list[4].as_u64(), None);
    assert_eq!(print(&list[3].clone()), "-2");
    assert_eq!(print(&value.clone()), print(&value));
    assert!(parse("{\"text\":").is_none());
    assert!(parse("").is_none());
    assert!(parse("1 2").is_none());
    assert_eq!(json("18446744073709551615").as_u64(), Some(u64::MAX));
    assert_eq!(json("18446744073709551616").as_u64(), None);
}

#[test]
fn a_path_step_of_zero_is_the_first_item_or_the_member_of_that_name() {
    let list = json("[7,8]");
    assert_eq!(list.head().and_then(|v| v.as_u64()), Some(7));
    let object = json("{\"0\":9}");
    assert_eq!(object.head().and_then(|v| v.as_u64()), Some(9));
    assert!(json("[]").head().is_none());
    assert!(json("3").head().is_none());
}

#[test]
fn a_later_member_of_one_name_counts() {
    let mut dict = Dict::new();
    dict.insert("a", Json::Unsigned(1));
    dict.insert("b", Json::Unsigned(2));
    dict.insert("a", Json::Unsigned(3));
    assert_eq!(dict.get("a").and_then(|v| v.as_u64()), Some(3));
    dict.remove("a");
    assert!(dict.get("a").is_none());
    assert_eq!(dict.get("b").and_then(|v| v.as_u64()), Some(2));
    let twice = Dict {
        entries: vec![("k".to_string(), Json::Null), ("k".to_string(), Json::Bool(true))],
    };
    assert_eq!(twice.get("k").and_then(|v| v.as_bool()), Some(true));
    assert_eq!(print(&Json::Object(twice)), "{\"k\":true}");
    let thrice = Dict {
        entries: vec![
            ("k".to_string(), Json::Unsigned(1)),
            ("a".to_string(), Json::Unsigned(2)),
            ("k".to_string(), Json::Unsigned(3)),
            ("b".to_string(), Json::Null),
            ("k".to_string(), Json::Unsigned(5)),
            ("a".to_string(), Json::Unsigned(6)),
        ],
    };
    assert_eq!(print(&Json::Object(thrice)), "{\"a\":6,\"b\":null,\"k\":5}");
}
