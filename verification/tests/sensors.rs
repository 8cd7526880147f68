use caseta_leap::device::CasetaLeap;
use caseta_leap::host::HostCall;
use caseta_leap::json::{dict1, string, Dict};

fn frame(body: &str) -> Dict {
    dict1("data", string(body))
}

#[test]
fn occupancy_is_filtered_to_this_area_and_unknown_says_nothing() {
    let status = |group: &str, state: &str| {
        format!(
            "{{\"Body\":{{\"OccupancyGroupStatus\":{{\"OccupancyGroup\":{{\"href\":\"{group}\"}},\
             \"OccupancyStatus\":\"{state}\"}}}}}}\n"
        )
    };

    let calls = CasetaLeap::on_occupancy_event(
        "/occupancygroup/3",
        "rx",
        &frame(&status("/occupancygroup/3", "Occupied")),
    );
    match calls.as_slice() {
        [HostCall::Notify { name, args, .. }] => {
            assert_eq!(name, "detected_changed");
            assert_eq!(args.get("detected").and_then(|v| v.as_bool()), Some(true));
        }
        other => panic!("expected a detection, got {other:?}"),
    }

    // The room next door, on the same bridge-wide feed.
    assert!(CasetaLeap::on_occupancy_event(
        "/occupancygroup/3",
        "rx",
        &frame(&status("/occupancygroup/9", "Occupied")),
    )
    .is_empty());

    // A sensor that has said nothing since the bridge restarted has said nothing. Reporting
    // that as "nobody is here" turns the lights off in a room with somebody in it.
    assert!(CasetaLeap::on_occupancy_event(
        "/occupancygroup/3",
        "rx",
        &frame(&status("/occupancygroup/3", "Unknown")),
    )
    .is_empty());

    // And the whole-list shape, which is what the read at bind answers with.
    let many = "{\"Body\":{\"OccupancyGroupStatuses\":[\
                {\"OccupancyGroup\":{\"href\":\"/occupancygroup/1\"},\"OccupancyStatus\":\"Occupied\"},\
                {\"OccupancyGroup\":{\"href\":\"/occupancygroup/3\"},\"OccupancyStatus\":\"Unoccupied\"}]}}\n";
    match CasetaLeap::on_occupancy_event("/occupancygroup/3", "rx", &frame(many)).as_slice() {
        [HostCall::Notify { args, .. }] => {
            assert_eq!(args.get("detected").and_then(|v| v.as_bool()), Some(false))
        }
        other => panic!("expected one clear for this area only, got {other:?}"),
    }
}

#[test]
fn only_a_programmed_virtual_button_is_offered_as_a_scene() {
    let a = frame(
        "{\"Body\":{\"VirtualButtons\":[\
         {\"href\":\"/virtualbutton/1\",\"Name\":\"Arriving Home\",\"IsProgrammed\":true},\
         {\"href\":\"/virtualbutton/3\",\"Name\":\"Button 3\",\"IsProgrammed\":false}]}}\n",
    );
    match CasetaLeap::on_bridge_event("rx", &a).as_slice() {
        [HostCall::BorrowedScenes { scenes }] => {
            assert_eq!(scenes.len(), 1, "the unprogrammed one is not a scene");
            assert_eq!(scenes[0].title, "Arriving Home");
            assert_eq!(scenes[0].resource, "/virtualbutton/1");
            assert!(scenes[0].steps.is_empty(), "LEAP does not say what it does");
        }
        other => panic!("expected one scene import, got {other:?}"),
    }
}

#[test]
fn a_scene_needs_a_title_and_a_place_and_the_first_list_counts() {
    let a = frame(
        "{\"CommuniqueType\":\"SubscribeResponse\"}\n\
         {\"Body\":{\"VirtualButtons\":[\
         {\"href\":\"/virtualbutton/1\",\"Name\":\"  Movie \\t\",\"IsProgrammed\":true},\
         {\"href\":\"/virtualbutton/2\",\"Name\":\"   \",\"IsProgrammed\":true},\
         {\"Name\":\"Nowhere\",\"IsProgrammed\":true},\
         {\"href\":\"/virtualbutton/4\",\"IsProgrammed\":true}]}}\n\
         {\"Body\":{\"VirtualButtons\":[]}}\n",
    );
    match CasetaLeap::on_bridge_event("rx", &a).as_slice() {
        [HostCall::BorrowedScenes { scenes }] => {
            assert_eq!(scenes.len(), 1);
            assert_eq!(scenes[0].title, "Movie");
        }
        other => panic!("expected one list, got {other:?}"),
    }
    assert!(CasetaLeap::on_bridge_event("timer", &a).is_empty());
    assert!(CasetaLeap::on_bridge_event("rx", &frame("{\"Body\":{}}")).is_empty());
    assert!(CasetaLeap::on_bridge_event("rx", &Dict::new()).is_empty());
}

#[test]
fn one_status_and_a_list_in_one_message_are_both_heard() {
    let both = "{\"Body\":{\"OccupancyGroupStatus\":{\"OccupancyGroup\":{\"href\":\"/g/1\"},\"OccupancyStatus\":\"Unoccupied\"},\
                \"OccupancyGroupStatuses\":[{\"OccupancyGroup\":{\"href\":\"/g/1\"},\"OccupancyStatus\":\"Occupied\"}]}}";
    let said: Vec<Option<bool>> = CasetaLeap::on_occupancy_event("/g/1", "rx", &frame(both))
        .iter()
        .map(|c| match c {
            HostCall::Notify { args, .. } => args.get("detected").and_then(|v| v.as_bool()),
            _ => None,
        })
        .collect();
    assert_eq!(said, vec![Some(false), Some(true)]);
    assert!(CasetaLeap::on_occupancy_event("/g/1", "timer", &frame(both)).is_empty());
}
