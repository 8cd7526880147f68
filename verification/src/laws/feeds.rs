//! Laws of the feeds: which areas are told of, and which scenes are offered, none left out.

use crate::device;
use crate::driver;
use crate::framing;
use crate::host::{
    BorrowedSceneView, HostCallView, InstanceView, SceneOperation, SceneResponseView,
};
use crate::json::{self, JsonView};
use crate::laws::words;
use crate::sensors;
use crate::text;
use vstd::prelude::*;

verus! {

/// Whether a status says that this area is occupied, or that it is not.
pub open spec fn says(status: JsonView, group: Seq<char>, occupied: bool) -> bool {
    &&& status.get2("OccupancyGroup"@, "href"@) == Some(JsonView::Text(group))
    &&& status.get("OccupancyStatus"@) == Some(
        JsonView::Text(
            if occupied {
                "Occupied"@
            } else {
                "Unoccupied"@
            },
        ),
    )
}

/// What the house is told of an area.
pub open spec fn area_told(occupied: bool) -> HostCallView {
    words::told("detected_changed"@, "detected"@, JsonView::Bool(occupied))
}

proof fn lemma_occupancy_words()
    ensures
        "Occupied"@.len() == 8,
        "Unoccupied"@.len() == 10,
{
    reveal_strlit("Occupied");
    reveal_strlit("Unoccupied");
}

/// A status of this area is told of as it says; one that says neither, or of another area, is not.
pub proof fn law_an_area_is_told_as_it_is(group: Seq<char>, status: JsonView)
    ensures
        says(status, group, true) ==> sensors::occupancy_status(group, status) == seq![
            area_told(true),
        ],
        says(status, group, false) ==> sensors::occupancy_status(group, status) == seq![
            area_told(false),
        ],
        !says(status, group, true) && !says(status, group, false) ==> sensors::occupancy_status(
            group,
            status,
        ) == Seq::<HostCallView>::empty(),
{
    lemma_occupancy_words();
}

proof fn lemma_statuses(group: Seq<char>, a: Seq<JsonView>, b: Seq<JsonView>)
    ensures
        sensors::occupancy_statuses(group, a + b) == sensors::occupancy_statuses(group, a)
            + sensors::occupancy_statuses(group, b),
    decreases b.len(),
{
    let first = sensors::occupancy_statuses(group, a);
    if b.len() == 0 {
        assert(a + b =~= a);
        assert(first + Seq::<HostCallView>::empty() =~= first);
    } else {
        lemma_statuses(group, a, b.drop_last());
        assert((a + b).drop_last() =~= a + b.drop_last());
        assert((a + b).last() == b.last());
        let mid = sensors::occupancy_statuses(group, b.drop_last());
        let last = sensors::occupancy_status(group, b.last());
        assert(first + mid + last =~= first + (mid + last));
    }
}

proof fn lemma_messages(group: Seq<char>, a: Seq<JsonView>, b: Seq<JsonView>)
    ensures
        sensors::occupancy_messages(group, a + b) == sensors::occupancy_messages(group, a)
            + sensors::occupancy_messages(group, b),
    decreases b.len(),
{
    let first = sensors::occupancy_messages(group, a);
    if b.len() == 0 {
        assert(a + b =~= a);
        assert(first + Seq::<HostCallView>::empty() =~= first);
    } else {
        lemma_messages(group, a, b.drop_last());
        assert((a + b).drop_last() =~= a + b.drop_last());
        assert((a + b).last() == b.last());
        let mid = sensors::occupancy_messages(group, b.drop_last());
        let last = sensors::occupancy_message(group, b.last());
        assert(first + mid + last =~= first + (mid + last));
    }
}

/// Every status in a message and every message in a window is taken in, in their order: a message
/// is the one status that it carries and then each of its list, and some and then some more are
/// all of them.
pub proof fn law_every_status_of_the_feed_is_taken_in(
    group: Seq<char>,
    status: JsonView,
    msg: JsonView,
    a: Seq<JsonView>,
    b: Seq<JsonView>,
)
    ensures
        sensors::occupancy_statuses(group, seq![status]) == sensors::occupancy_status(
            group,
            status,
        ),
        sensors::occupancy_statuses(group, a + b) == sensors::occupancy_statuses(group, a)
            + sensors::occupancy_statuses(group, b),
        msg.get2("Body"@, "OccupancyGroupStatus"@) == Some(status) && msg.get2(
            "Body"@,
            "OccupancyGroupStatuses"@,
        ) == Some(JsonView::Array(a)) ==> sensors::occupancy_message(group, msg)
            == sensors::occupancy_status(group, status) + sensors::occupancy_statuses(group, a),
        msg.get2("Body"@, "OccupancyGroupStatus"@) == Some(status) && msg.get2(
            "Body"@,
            "OccupancyGroupStatuses"@,
        ) is None ==> sensors::occupancy_message(group, msg) == sensors::occupancy_status(
            group,
            status,
        ),
        msg.get2("Body"@, "OccupancyGroupStatus"@) is None && msg.get2(
            "Body"@,
            "OccupancyGroupStatuses"@,
        ) == Some(JsonView::Array(a)) ==> sensors::occupancy_message(group, msg)
            == sensors::occupancy_statuses(group, a),
        sensors::occupancy_messages(group, seq![msg]) == sensors::occupancy_message(group, msg),
        sensors::occupancy_messages(group, a + b) == sensors::occupancy_messages(group, a)
            + sensors::occupancy_messages(group, b),
{
    let none = Seq::<HostCallView>::empty();
    reveal_with_fuel(sensors::occupancy_statuses, 2);
    reveal_with_fuel(sensors::occupancy_messages, 2);
    assert(seq![status].drop_last() =~= Seq::<JsonView>::empty());
    assert(seq![status].last() == status);
    assert(seq![msg].drop_last() =~= Seq::<JsonView>::empty());
    assert(seq![msg].last() == msg);
    assert(none + sensors::occupancy_status(group, status) =~= sensors::occupancy_status(
        group,
        status,
    ));
    assert(sensors::occupancy_status(group, status) + none =~= sensors::occupancy_status(
        group,
        status,
    ));
    assert(none + sensors::occupancy_statuses(group, a) =~= sensors::occupancy_statuses(group, a));
    assert(none + sensors::occupancy_message(group, msg) =~= sensors::occupancy_message(
        group,
        msg,
    ));
    lemma_statuses(group, a, b);
    lemma_messages(group, a, b);
}

/// Wherever in the list of a message an area's status stands, the house is told of it.
pub proof fn law_no_area_in_the_list_is_missed(
    group: Seq<char>,
    msg: JsonView,
    list: Seq<JsonView>,
    i: int,
    occupied: bool,
)
    requires
        msg.get2("Body"@, "OccupancyGroupStatuses"@) == Some(JsonView::Array(list)),
        0 <= i < list.len(),
        says(list[i], group, occupied),
    ensures
        sensors::occupancy_message(group, msg).contains(area_told(occupied)),
{
    lemma_occupancy_words();
    let head = list.take(i);
    let tail = list.skip(i + 1);
    let one = seq![list[i]];
    assert(list =~= head + one + tail);
    lemma_statuses(group, head + one, tail);
    lemma_statuses(group, head, one);
    law_every_status_of_the_feed_is_taken_in(group, list[i], msg, head, tail);
    law_an_area_is_told_as_it_is(group, list[i]);
    let said = sensors::occupancy_statuses(group, list);
    let k = sensors::occupancy_statuses(group, head).len() as int;
    assert(said[k] == area_told(occupied));
    let first = match msg.get2("Body"@, "OccupancyGroupStatus"@) {
        Some(status) => sensors::occupancy_status(group, status),
        None => Seq::empty(),
    };
    let all = sensors::occupancy_message(group, msg);
    assert(all == first + said);
    assert(all[first.len() + k] == area_told(occupied));
}

/// A sensor hears the feed of its own group, every message of what was received, and nothing else.
pub proof fn law_a_sensor_takes_in_what_it_receives(
    inst: InstanceView,
    group: Seq<char>,
    note: Seq<char>,
    args: Map<Seq<char>, JsonView>,
    received: Seq<char>,
)
    requires
        words::has(inst.properties, "Occupancy href"@, JsonView::Text(group)),
        group.len() > 0,
        device::buttons_of(inst).len() == 0,
    ensures
        words::has(args, "data"@, JsonView::Text(received)) ==> driver::evented(inst, "rx"@, args)
            == (inst, sensors::occupancy_messages(group, framing::messages(received))),
        note != "rx"@ || !words::has_text(args, "data"@) ==> driver::evented(inst, note, args) == (
            inst,
            Seq::<HostCallView>::empty(),
        ),
{
}

/// Whether a virtual button is a scene: somebody programmed it, it has a place, and its name is
/// this one with nothing but blanks around it.
pub open spec fn is_scene(button: JsonView, title: Seq<char>, resource: Seq<char>) -> bool {
    &&& button.get("IsProgrammed"@) == Some(JsonView::Bool(true))
    &&& button.get("href"@) == Some(JsonView::Text(resource))
    &&& button.get("Name"@) matches Some(JsonView::Text(name)) && text::trimmed(name) == title
    &&& title.len() > 0
}

/// A scene that is offered, with nothing claimed of what it does.
pub open spec fn offering(title: Seq<char>, resource: Seq<char>) -> BorrowedSceneView {
    BorrowedSceneView { title, resource, steps: Seq::empty() }
}

proof fn lemma_scenes(a: Seq<JsonView>, b: Seq<JsonView>)
    ensures
        sensors::scenes_of(a + b) == sensors::scenes_of(a) + sensors::scenes_of(b),
    decreases b.len(),
{
    let first = sensors::scenes_of(a);
    if b.len() == 0 {
        assert(a + b =~= a);
        assert(first + Seq::<BorrowedSceneView>::empty() =~= first);
    } else {
        lemma_scenes(a, b.drop_last());
        assert((a + b).drop_last() =~= a + b.drop_last());
        assert((a + b).last() == b.last());
        let mid = sensors::scenes_of(b.drop_last());
        let last = sensors::scene_of(b.last());
        assert(first + mid + last =~= first + (mid + last));
    }
}

/// Every virtual button of the list is looked at, and the scenes stand in its order: the scenes of
/// some and then some more are those of both, and of one button they are that scene or none.
pub proof fn law_scenes_are_those_of_the_list(
    a: Seq<JsonView>,
    b: Seq<JsonView>,
    button: JsonView,
    title: Seq<char>,
    resource: Seq<char>,
)
    ensures
        sensors::scenes_of(Seq::empty()) == Seq::<BorrowedSceneView>::empty(),
        sensors::scenes_of(a + b) == sensors::scenes_of(a) + sensors::scenes_of(b),
        is_scene(button, title, resource) ==> sensors::scenes_of(seq![button]) == seq![
            offering(title, resource),
        ],
        (forall|t: Seq<char>, r: Seq<char>| !#[trigger] is_scene(button, t, r))
            ==> sensors::scenes_of(seq![button]) == Seq::<BorrowedSceneView>::empty(),
{
    reveal_with_fuel(sensors::scenes_of, 2);
    let none = Seq::<BorrowedSceneView>::empty();
    assert(seq![button].drop_last() =~= Seq::<JsonView>::empty());
    assert(seq![button].last() == button);
    assert(none + sensors::scene_of(button) =~= sensors::scene_of(button));
    lemma_scenes(a, b);
    if forall|t: Seq<char>, r: Seq<char>| !#[trigger] is_scene(button, t, r) {
        let t = text::trimmed(json::text_or_empty(button.get("Name"@)));
        let r = json::text_or_empty(button.get("href"@));
        assert(!is_scene(button, t, r));
    }
}

/// No scene is lost: wherever in the list a programmed button with a place and a name stands, its
/// scene is offered, behind as many as the buttons before it make.
pub proof fn law_no_scene_is_lost(
    buttons: Seq<JsonView>,
    j: int,
    title: Seq<char>,
    resource: Seq<char>,
)
    requires
        0 <= j < buttons.len(),
        is_scene(buttons[j], title, resource),
    ensures
        sensors::scenes_of(buttons.take(j)).len() < sensors::scenes_of(buttons).len(),
        sensors::scenes_of(buttons)[sensors::scenes_of(buttons.take(j)).len() as int] == offering(
            title,
            resource,
        ),
        sensors::scenes_of(buttons).contains(offering(title, resource)),
{
    let head = buttons.take(j);
    let one = seq![buttons[j]];
    let tail = buttons.skip(j + 1);
    assert(buttons =~= head + one + tail);
    law_scenes_are_those_of_the_list(head + one, tail, buttons[j], title, resource);
    law_scenes_are_those_of_the_list(head, one, buttons[j], title, resource);
    let k = sensors::scenes_of(head).len() as int;
    assert(sensors::scenes_of(buttons)[k] == offering(title, resource));
}

/// The scenes stand in the order of the list: of two buttons that are scenes, the one that stands
/// first in the list is offered first.
pub proof fn law_scenes_stand_in_the_order_of_the_list(buttons: Seq<JsonView>, i: int, j: int)
    requires
        0 <= i < j <= buttons.len(),
        sensors::scene_of(buttons[i]).len() > 0,
    ensures
        sensors::scenes_of(buttons.take(i)).len() < sensors::scenes_of(buttons.take(j)).len(),
{
    let head = buttons.take(i);
    let one = seq![buttons[i]];
    let rest = buttons.subrange(i + 1, j);
    assert(buttons.take(j) =~= head + one + rest);
    lemma_scenes(head + one, rest);
    lemma_scenes(head, one);
    reveal_with_fuel(sensors::scenes_of, 2);
    assert(one.drop_last() =~= Seq::<JsonView>::empty());
    assert(one.last() == buttons[i]);
}

/// The list of scenes that counts is that of the first message that has one, wherever it stands;
/// without one nothing is offered, and what was offered before stays.
pub proof fn law_the_first_list_of_scenes_counts(
    msgs: Seq<JsonView>,
    k: int,
    buttons: Seq<JsonView>,
)
    requires
        0 <= k <= msgs.len(),
        forall|i: int|
            0 <= i < k ==> !((#[trigger] msgs[i]).get2("Body"@, "VirtualButtons"@) matches Some(
                JsonView::Array(_),
            )),
        k < msgs.len() ==> msgs[k].get2("Body"@, "VirtualButtons"@) == Some(
            JsonView::Array(buttons),
        ),
    ensures
        sensors::bridge_messages(msgs) == if k < msgs.len() {
            seq![HostCallView::BorrowedScenes { scenes: sensors::scenes_of(buttons) }]
        } else {
            Seq::<HostCallView>::empty()
        },
    decreases k,
{
    if k > 0 {
        let rest = msgs.drop_first();
        assert forall|i: int| 0 <= i < k - 1 implies !((#[trigger] rest[i]).get2(
            "Body"@,
            "VirtualButtons"@,
        ) matches Some(JsonView::Array(_))) by {
            assert(rest[i] == msgs[i + 1]);
        }
        if k < msgs.len() {
            assert(rest[k - 1] == msgs[k]);
        }
        law_the_first_list_of_scenes_counts(rest, k - 1, buttons);
    }
}

/// A device that is neither a remote nor a sensor nor a zone is the bridge, and hears of its scenes
/// in whatever it receives.
pub proof fn law_the_bridge_hears_of_its_scenes(
    inst: InstanceView,
    note: Seq<char>,
    args: Map<Seq<char>, JsonView>,
    received: Seq<char>,
)
    requires
        !words::has_href(inst.properties, "Zone"@),
        !words::has_href(inst.properties, "Occupancy href"@),
        device::buttons_of(inst).len() == 0,
    ensures
        words::has(args, "data"@, JsonView::Text(received)) ==> driver::evented(inst, "rx"@, args)
            == (inst, sensors::bridge_messages(framing::messages(received))),
        note != "rx"@ || !words::has_text(args, "data"@) ==> driver::evented(inst, note, args) == (
            inst,
            Seq::<HostCallView>::empty(),
        ),
{
}

/// A scene of the bridge is recalled by pressing the virtual button that it is, and nothing else
/// can be done with it. What is no virtual button is refused, and nothing is sent.
pub proof fn law_a_scene_is_recalled_by_its_button(resource: Seq<char>, any: Option<Seq<char>>)
    ensures
        driver::scene_answer(
            SceneOperation::Recall,
            Some("/virtualbutton/"@ + resource),
        ) == (SceneResponseView {
            calls: seq![
                words::written(
                    words::commanding(
                        "/virtualbutton/"@ + resource,
                        map!["CommandType"@ => JsonView::Text("PressAndRelease"@)],
                    ),
                ),
            ],
            problem: None,
        }),
        !"/virtualbutton/"@.is_prefix_of(resource) ==> driver::scene_answer(
            SceneOperation::Recall,
            Some(resource),
        ) == (SceneResponseView {
            calls: Seq::empty(),
            problem: Some("caseta-leap: not a Caséta scene"@),
        }),
        driver::scene_answer(SceneOperation::Recall, None) == (SceneResponseView {
            calls: Seq::empty(),
            problem: Some("caseta-leap: not a Caséta scene"@),
        }),
        driver::scene_answer(SceneOperation::Manage, any) == (SceneResponseView {
            calls: Seq::empty(),
            problem: Some(
                "caseta-leap: Caséta scenes are programmed in the Caséta app and can only be recalled from here"@,
            ),
        }),
{
    let button = "/virtualbutton/"@;
    assert((button + resource).take(button.len() as int) =~= button);
    assert(button.is_prefix_of(button + resource));
}

/// What every device says when it is bound.
pub open spec fn online_told() -> HostCallView {
    words::told("online_changed"@, "online"@, JsonView::Bool(true))
}

/// A zone that is bound says that it is there and keeps hearing of its zone.
pub proof fn law_a_zone_is_bound_to_its_status(inst: InstanceView, zone: Seq<char>)
    requires
        words::drives(inst, zone),
        !words::has_href(inst.properties, "Occupancy href"@),
        device::buttons_of(inst).len() == 0,
    ensures
        driver::binding_calls(inst) == seq![
            online_told(),
            words::written(words::subscribing(zone + "/status"@)),
        ],
{
    assert(driver::binding_calls(inst) =~= seq![
        online_told(),
        words::written(words::subscribing(zone + "/status"@)),
    ]);
}

/// What the zone of a device, if it has one, makes it do when it is bound.
pub open spec fn zone_bound(inst: InstanceView) -> Seq<HostCallView> {
    if words::has_href(inst.properties, "Zone"@) {
        seq![words::written(words::subscribing(inst.properties["Zone"@]->Text_0 + "/status"@))]
    } else {
        Seq::empty()
    }
}

/// A sensor that is bound keeps hearing of every group; which is its own it tells apart itself.
pub proof fn law_a_sensor_is_bound_to_the_feed(inst: InstanceView)
    requires
        words::has_href(inst.properties, "Occupancy href"@),
    ensures
        driver::binding_calls(inst) == seq![online_told()] + zone_bound(inst) + seq![
            words::written(words::subscribing("/occupancygroup/status"@)),
        ],
{
    assert(driver::binding_calls(inst) =~= seq![online_told()] + zone_bound(inst) + seq![
        words::written(words::subscribing("/occupancygroup/status"@)),
    ]);
}

/// A device of which nothing is written down only says that it is there.
pub proof fn law_an_unwritten_device_is_only_there(inst: InstanceView)
    requires
        !words::has_href(inst.properties, "Client certificate"@),
        !words::has_href(inst.properties, "Zone"@),
        !words::has_href(inst.properties, "Occupancy href"@),
        device::buttons_of(inst).len() == 0,
    ensures
        driver::binding_calls(inst) == seq![online_told()],
{
    assert(driver::binding_calls(inst) =~= seq![online_told()]);
}

/// A bridge that is bound asks for its scenes.
pub proof fn law_a_bridge_is_bound_to_its_scenes(inst: InstanceView)
    requires
        words::has_href(inst.properties, "Client certificate"@),
        !words::has_href(inst.properties, "Zone"@),
        !words::has_href(inst.properties, "Occupancy href"@),
        device::buttons_of(inst).len() == 0,
    ensures
        driver::binding_calls(inst) == seq![
            online_told(),
            words::written(words::reading("/virtualbutton"@)),
        ],
{
    assert(driver::binding_calls(inst) =~= seq![
        online_told(),
        words::written(words::reading("/virtualbutton"@)),
    ]);
}

/// A remote that is bound keeps hearing of each of its keys, in the order of their numbers, and
/// then asks for its battery where it knows its own place.
pub proof fn law_a_remote_is_bound_to_each_key(inst: InstanceView, i: int)
    requires
        !words::has_href(inst.properties, "Occupancy href"@),
        0 <= i < device::buttons_of(inst).len(),
    ensures
        ({
            let calls = driver::binding_calls(inst);
            let first = 1 + zone_bound(inst).len() as int;
            let n = device::buttons_of(inst).len() as int;
            &&& calls.take(first) == seq![online_told()] + zone_bound(inst)
            &&& calls[first + i] == words::written(
                words::subscribing(device::buttons_of(inst)[i].1 + "/status/event"@),
            )
            &&& words::has_href(inst.properties, "Device href"@) ==> calls.len() == first + n + 1
                && calls[first + n] == words::written(
                words::reading(inst.properties["Device href"@]->Text_0 + "/status"@),
            )
            &&& !words::has_href(inst.properties, "Device href"@) ==> calls.len() == first + n
        }),
{
    let buttons = device::buttons_of(inst);
    let keys = driver::key_subscriptions(buttons);
    let calls = driver::binding_calls(inst);
    let start = seq![online_told()] + zone_bound(inst);
    assert(calls =~= start + keys + driver::battery_question(inst));
    assert(calls.take(start.len() as int) =~= start);
    assert(calls[start.len() + i] == keys[i]);
}

} // verus!
