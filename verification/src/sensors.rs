//! The feeds that are not a zone's: an area's occupancy, and the scenes that the bridge holds.

use crate::device::{self, hear, nothing, notify, only, CasetaLeap};
use crate::host::{BorrowedSceneSnapshot, BorrowedSceneView, HostCall, HostCallView};
use crate::json::{self, array_of, dict1, str_of, truth_of, Dict, Json, JsonView};
use crate::text;
use vstd::prelude::*;

verus! {

/// Whether somebody is there, where a status says. `Unknown` is not a clear.
pub open spec fn detected(status: JsonView) -> Option<bool> {
    let word = json::text_of(status.get("OccupancyStatus"@));
    if word == Some("Occupied"@) {
        Some(true)
    } else if word == Some("Unoccupied"@) {
        Some(false)
    } else {
        None
    }
}

/// What one status of the feed says of the group `mine`: nothing, where it is of another.
pub open spec fn occupancy_status(mine: Seq<char>, status: JsonView) -> Seq<HostCallView> {
    if json::text_of(status.get2("OccupancyGroup"@, "href"@)) == Some(mine) {
        match detected(status) {
            Some(there) => seq![
                device::notification("detected_changed"@, map!["detected"@ => JsonView::Bool(there)]),
            ],
            None => Seq::empty(),
        }
    } else {
        Seq::empty()
    }
}

/// What a row of statuses says of the group `mine`.
pub open spec fn occupancy_statuses(mine: Seq<char>, statuses: Seq<JsonView>) -> Seq<HostCallView>
    decreases statuses.len(),
{
    if statuses.len() == 0 {
        Seq::empty()
    } else {
        occupancy_statuses(mine, statuses.drop_last()) + occupancy_status(mine, statuses.last())
    }
}

/// What a message says of the group `mine`. It carries one status, or the whole list, or both.
pub open spec fn occupancy_message(mine: Seq<char>, msg: JsonView) -> Seq<HostCallView> {
    let one = match msg.get2("Body"@, "OccupancyGroupStatus"@) {
        Some(status) => occupancy_status(mine, status),
        None => Seq::empty(),
    };
    one + occupancy_statuses(
        mine,
        json::items_or_empty(msg.get2("Body"@, "OccupancyGroupStatuses"@)),
    )
}

/// What a row of messages says of the group `mine`.
pub open spec fn occupancy_messages(mine: Seq<char>, msgs: Seq<JsonView>) -> Seq<HostCallView>
    decreases msgs.len(),
{
    if msgs.len() == 0 {
        Seq::empty()
    } else {
        occupancy_messages(mine, msgs.drop_last()) + occupancy_message(mine, msgs.last())
    }
}

/// The scene that a virtual button is: one that somebody programmed, with a name and a place.
pub open spec fn scene_of(button: JsonView) -> Seq<BorrowedSceneView> {
    if json::bool_of(button.get("IsProgrammed"@)) == Some(true) {
        match (json::text_of(button.get("Name"@)), json::text_of(button.get("href"@))) {
            (Some(name), Some(resource)) => {
                let title = text::trimmed(name);
                if title.len() > 0 {
                    seq![BorrowedSceneView { title, resource, steps: Seq::empty() }]
                } else {
                    Seq::empty()
                }
            },
            _ => Seq::empty(),
        }
    } else {
        Seq::empty()
    }
}

/// The scenes among some virtual buttons, in their order.
pub open spec fn scenes_of(buttons: Seq<JsonView>) -> Seq<BorrowedSceneView>
    decreases buttons.len(),
{
    if buttons.len() == 0 {
        Seq::empty()
    } else {
        scenes_of(buttons.drop_last()) + scene_of(buttons.last())
    }
}

/// What the bridge says of its scenes: those of the first message that lists them.
pub open spec fn bridge_messages(msgs: Seq<JsonView>) -> Seq<HostCallView>
    decreases msgs.len(),
{
    if msgs.len() == 0 {
        Seq::empty()
    } else {
        match json::items_of(msgs[0].get2("Body"@, "VirtualButtons"@)) {
            Some(buttons) => seq![HostCallView::BorrowedScenes { scenes: scenes_of(buttons) }],
            None => bridge_messages(msgs.drop_first()),
        }
    }
}

fn is_word(v: Option<&Json>, word: &str) -> (r: bool)
    ensures
        r == (json::text_of(v.deep_view()) == Some(word@)),
{
    match str_of(v) {
        Some(s) => text::same(s, word),
        None => false,
    }
}

fn add_occupancy(out: &mut Vec<HostCall>, mine: &str, status: &Json)
    ensures
        final(out).deep_view() == old(out).deep_view() + occupancy_status(mine@, status@),
{
    let ghost before = out.deep_view();
    if !is_word(status.get2("OccupancyGroup", "href"), mine) {
        assert(out.deep_view() =~= before + Seq::<HostCallView>::empty());
        return;
    }
    let there: bool = if is_word(status.get("OccupancyStatus"), "Occupied") {
        true
    } else if is_word(status.get("OccupancyStatus"), "Unoccupied") {
        false
    } else {
        assert(out.deep_view() =~= before + Seq::<HostCallView>::empty());
        return;
    };
    out.push(notify("detected_changed", dict1("detected", Json::Bool(there))));
    assert(out.deep_view() =~= before + occupancy_status(mine@, status@));
}

fn add_occupancies(out: &mut Vec<HostCall>, mine: &str, statuses: &Vec<Json>)
    ensures
        final(out).deep_view() == old(out).deep_view() + occupancy_statuses(
            mine@,
            statuses.deep_view(),
        ),
{
    let ghost before = out.deep_view();
    let ghost all = statuses.deep_view();
    let mut i: usize = 0;
    proof {
        assert(all.take(0) =~= Seq::<JsonView>::empty());
        assert(out.deep_view() =~= before + Seq::<HostCallView>::empty());
    }
    while i < statuses.len()
        invariant
            i <= statuses@.len(),
            all == statuses.deep_view(),
            out.deep_view() == before + occupancy_statuses(mine@, all.take(i as int)),
        decreases statuses@.len() - i,
    {
        let ghost so_far = occupancy_statuses(mine@, all.take(i as int));
        add_occupancy(out, mine, &statuses[i]);
        proof {
            assert(all.take(i + 1).drop_last() =~= all.take(i as int));
            assert(all.take(i + 1).last() == statuses@[i as int]@);
            assert(before + (so_far + occupancy_status(mine@, statuses@[i as int]@)) =~= before
                + so_far + occupancy_status(mine@, statuses@[i as int]@));
        }
        i += 1;
    }
    assert(all.take(i as int) =~= all);
}

/// Take in one message of the feed that carries every area on the bridge.
pub fn on_occupancy_message(mine: &str, msg: &Json) -> (r: Vec<HostCall>)
    ensures
        r.deep_view() == occupancy_message(mine@, msg@),
{
    let mut out = nothing();
    match msg.get2("Body", "OccupancyGroupStatus") {
        Some(status) => add_occupancy(&mut out, mine, status),
        None => {},
    }
    let ghost one = match msg@.get2("Body"@, "OccupancyGroupStatus"@) {
        Some(status) => occupancy_status(mine@, status),
        None => Seq::empty(),
    };
    assert(out.deep_view() =~= one);
    match array_of(msg.get2("Body", "OccupancyGroupStatuses")) {
        Some(statuses) => add_occupancies(&mut out, mine, statuses),
        None => {
            assert(out.deep_view() =~= one + Seq::<HostCallView>::empty());
        },
    }
    out
}

/// Take in some messages of the feed one after the other.
pub fn on_occupancy_messages(mine: &str, msgs: &Vec<Json>) -> (r: Vec<HostCall>)
    ensures
        r.deep_view() == occupancy_messages(mine@, msgs.deep_view()),
{
    let ghost all = msgs.deep_view();
    let mut out = nothing();
    let mut i: usize = 0;
    assert(all.take(0) =~= Seq::<JsonView>::empty());
    while i < msgs.len()
        invariant
            i <= msgs@.len(),
            all == msgs.deep_view(),
            out.deep_view() == occupancy_messages(mine@, all.take(i as int)),
        decreases msgs@.len() - i,
    {
        proof {
            assert(all.take(i + 1).drop_last() =~= all.take(i as int));
            assert(all.take(i + 1).last() == msgs@[i as int]@);
        }
        let more = on_occupancy_message(mine, &msgs[i]);
        device::extend(&mut out, more);
        i += 1;
    }
    assert(all.take(i as int) =~= all);
    out
}

/// The scenes among some virtual buttons. The bridge keeps fifty whether or not anybody has put
/// anything on them.
pub fn programmed_scenes(buttons: &Vec<Json>) -> (r: Vec<BorrowedSceneSnapshot>)
    ensures
        r.deep_view() == scenes_of(buttons.deep_view()),
{
    let ghost all = buttons.deep_view();
    let mut out: Vec<BorrowedSceneSnapshot> = Vec::new();
    let mut i: usize = 0;
    proof {
        assert(all.take(0) =~= Seq::<JsonView>::empty());
        assert(out.deep_view() =~= Seq::<BorrowedSceneView>::empty());
    }
    while i < buttons.len()
        invariant
            i <= buttons@.len(),
            all == buttons.deep_view(),
            out.deep_view() == scenes_of(all.take(i as int)),
        decreases buttons@.len() - i,
    {
        let ghost before = out.deep_view();
        let button = &buttons[i];
        if truth_of(button.get("IsProgrammed")) == Some(true) {
            match (str_of(button.get("Name")), str_of(button.get("href"))) {
                (Some(name), Some(resource)) => {
                    let title = text::trim(name);
                    if !title.is_empty() {
                        let scene = BorrowedSceneSnapshot {
                            title: title.to_owned(),
                            resource: resource.to_owned(),
                            steps: Vec::new(),
                        };
                        assert(scene.steps.deep_view() =~= Seq::<JsonView>::empty());
                        out.push(scene);
                        assert(out.deep_view() =~= before.push(scene.deep_view()));
                    }
                },
                _ => {},
            }
        }
        proof {
            assert(all.take(i + 1).drop_last() =~= all.take(i as int));
            assert(all.take(i + 1).last() == button@);
            assert(out.deep_view() =~= before + scene_of(button@));
        }
        i += 1;
    }
    assert(all.take(i as int) =~= all);
    out
}

/// Take in what the bridge said, up to the first message that lists its scenes.
pub fn on_bridge_messages(msgs: &Vec<Json>) -> (r: Vec<HostCall>)
    ensures
        r.deep_view() == bridge_messages(msgs.deep_view()),
{
    let ghost all = msgs.deep_view();
    let mut i: usize = 0;
    assert(all.skip(0) =~= all);
    while i < msgs.len()
        invariant
            i <= msgs@.len(),
            all == msgs.deep_view(),
            bridge_messages(all) == bridge_messages(all.skip(i as int)),
        decreases msgs@.len() - i,
    {
        assert(all.skip(i as int)[0] == msgs@[i as int]@);
        match array_of(msgs[i].get2("Body", "VirtualButtons")) {
            Some(buttons) => {
                return only(HostCall::BorrowedScenes { scenes: programmed_scenes(buttons) });
            },
            None => {},
        }
        assert(all.skip(i as int).drop_first() =~= all.skip(i + 1));
        i += 1;
    }
    nothing()
}

impl CasetaLeap {
    /// What the bridge itself hears: the list of scenes that it was asked for.
    pub fn on_bridge_event(note: &str, args: &Dict) -> (r: Vec<HostCall>)
        ensures
            r.deep_view() == (match device::heard(note@, args@) {
                Some(msgs) => bridge_messages(msgs),
                None => Seq::empty(),
            }),
    {
        match hear(note, args) {
            Some(msgs) => on_bridge_messages(&msgs),
            None => nothing(),
        }
    }

    /// What an area's occupancy hears: the feed reports every group at once.
    pub fn on_occupancy_event(mine: &str, note: &str, args: &Dict) -> (r: Vec<HostCall>)
        ensures
            r.deep_view() == (match device::heard(note@, args@) {
                Some(msgs) => occupancy_messages(mine@, msgs),
                None => Seq::empty(),
            }),
    {
        match hear(note, args) {
            Some(msgs) => on_occupancy_messages(mine, &msgs),
            None => nothing(),
        }
    }
}

} // verus!
