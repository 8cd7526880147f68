//! Laws of what the house sees: which notifications come from which device, and what a device
//! never changes.

use crate::device;
use crate::driver;
use crate::host::{HostCallView, InstanceView, PROXY};
use crate::json::{self, JsonView};
use crate::remotes;
use crate::sensors;
use crate::tables::{self, Kind};
use crate::text;
use crate::zones;
use vstd::prelude::*;

verus! {

/// The notifications that a zone of this kind may send, besides that it is there.
pub open spec fn zone_says(kind: Kind, name: Seq<char>) -> bool {
    match kind {
        Kind::Light => name == "level_changed"@,
        Kind::Switch => name == "switch_changed"@,
        Kind::Fan => name == "speed_changed"@,
        Kind::Shade => name == "position_changed"@ || name == "tilt_changed"@,
    }
}

/// The notifications that a remote may send, besides that it is there.
pub open spec fn remote_says(name: Seq<char>) -> bool {
    ||| name == "clicked"@
    ||| name == "held"@
    ||| name == "released"@
    ||| name == "battery_changed"@
}

/// The notifications that a device may send on an event: a remote's, a sensor's, a zone's, or
/// none where it is the bridge.
pub open spec fn device_says(inst: InstanceView, name: Seq<char>) -> bool {
    if device::buttons_of(inst).len() > 0 {
        remote_says(name)
    } else if device::group_of(inst) is Some {
        name == "detected_changed"@
    } else if device::zone_of(inst) is Some {
        zone_says(tables::kind_of(inst), name)
    } else {
        false
    }
}

/// Whether each notification among some calls goes to the one proxy and has an allowed name.
pub open spec fn are_allowed(calls: Seq<HostCallView>, allowed: spec_fn(Seq<char>) -> bool) -> bool {
    forall|i: int|
        0 <= i < calls.len() ==> (#[trigger] calls[i] matches HostCallView::Notify { proxy, name, .. }
            ==> proxy == PROXY && allowed(name))
}

proof fn lemma_allowed_together(
    a: Seq<HostCallView>,
    b: Seq<HostCallView>,
    allowed: spec_fn(Seq<char>) -> bool,
)
    requires
        are_allowed(a, allowed),
        are_allowed(b, allowed),
    ensures
        are_allowed(a + b, allowed),
{
    assert forall|i: int| 0 <= i < (a + b).len() implies (#[trigger] (a
        + b)[i] matches HostCallView::Notify { proxy, name, .. } ==> proxy == PROXY && allowed(
        name,
    )) by {
        if i < a.len() {
            assert((a + b)[i] == a[i]);
        } else {
            assert((a + b)[i] == b[i - a.len()]);
        }
    }
}

/// A command changes nothing that was written down of a device, and tells the house only what a
/// zone of its kind may say.
pub proof fn law_a_command_keeps_to_its_kind(
    inst: InstanceView,
    cmd: Seq<char>,
    args: Map<Seq<char>, JsonView>,
)
    ensures
        driver::commanded(inst, cmd, args).0.properties == inst.properties,
        are_allowed(
            driver::commanded(inst, cmd, args).1,
            |name: Seq<char>| zone_says(tables::kind_of(inst), name),
        ),
{
}

/// Nothing but a command to a light changes anything at all.
pub proof fn law_only_a_light_notes_its_commands(
    inst: InstanceView,
    cmd: Seq<char>,
    args: Map<Seq<char>, JsonView>,
)
    requires
        tables::kind_of(inst) != Kind::Light,
    ensures
        driver::commanded(inst, cmd, args).0 == inst,
{
}

proof fn lemma_zone_messages(inst: InstanceView, msgs: Seq<JsonView>)
    ensures
        zones::zone_messages(inst, msgs).0.properties == inst.properties,
        are_allowed(
            zones::zone_messages(inst, msgs).1,
            |name: Seq<char>| zone_says(tables::kind_of(inst), name),
        ),
    decreases msgs.len(),
{
    let allowed = |name: Seq<char>| zone_says(tables::kind_of(inst), name);
    if msgs.len() > 0 {
        lemma_zone_messages(inst, msgs.drop_last());
        let before = zones::zone_messages(inst, msgs.drop_last());
        let after = zones::zone_message(before.0, msgs.last());
        assert(tables::kind_of(before.0) == tables::kind_of(inst));
        assert(are_allowed(after.1, allowed));
        lemma_allowed_together(before.1, after.1, allowed);
    }
}

proof fn lemma_remote_messages(inst: InstanceView, msgs: Seq<JsonView>)
    ensures
        remotes::remote_messages(inst, msgs).0.properties == inst.properties,
        are_allowed(
            remotes::remote_messages(inst, msgs).1,
            |name: Seq<char>| remote_says(name),
        ),
    decreases msgs.len(),
{
    let allowed = |name: Seq<char>| remote_says(name);
    if msgs.len() > 0 {
        lemma_remote_messages(inst, msgs.drop_last());
        let before = remotes::remote_messages(inst, msgs.drop_last());
        let after = remotes::remote_message(before.0, msgs.last());
        assert(are_allowed(after.1, allowed));
        lemma_allowed_together(before.1, after.1, allowed);
    }
}

proof fn lemma_occupancy_statuses(mine: Seq<char>, statuses: Seq<JsonView>)
    ensures
        are_allowed(
            sensors::occupancy_statuses(mine, statuses),
            |name: Seq<char>| name == "detected_changed"@,
        ),
    decreases statuses.len(),
{
    let allowed = |name: Seq<char>| name == "detected_changed"@;
    if statuses.len() > 0 {
        lemma_occupancy_statuses(mine, statuses.drop_last());
        lemma_allowed_together(
            sensors::occupancy_statuses(mine, statuses.drop_last()),
            sensors::occupancy_status(mine, statuses.last()),
            allowed,
        );
    }
}

proof fn lemma_occupancy_messages(mine: Seq<char>, msgs: Seq<JsonView>)
    ensures
        are_allowed(
            sensors::occupancy_messages(mine, msgs),
            |name: Seq<char>| name == "detected_changed"@,
        ),
    decreases msgs.len(),
{
    let allowed = |name: Seq<char>| name == "detected_changed"@;
    if msgs.len() > 0 {
        let msg = msgs.last();
        lemma_occupancy_messages(mine, msgs.drop_last());
        let statuses = json::items_or_empty(
            msg.get2("Body"@, "OccupancyGroupStatuses"@),
        );
        lemma_occupancy_statuses(mine, statuses);
        let one = match msg.get2("Body"@, "OccupancyGroupStatus"@) {
            Some(status) => sensors::occupancy_status(mine, status),
            None => Seq::empty(),
        };
        assert(are_allowed(one, allowed));
        lemma_allowed_together(one, sensors::occupancy_statuses(mine, statuses), allowed);
        lemma_allowed_together(
            sensors::occupancy_messages(mine, msgs.drop_last()),
            sensors::occupancy_message(mine, msg),
            allowed,
        );
    }
}

proof fn lemma_bridge_messages(msgs: Seq<JsonView>, allowed: spec_fn(Seq<char>) -> bool)
    ensures
        are_allowed(sensors::bridge_messages(msgs), allowed),
    decreases msgs.len(),
{
    if msgs.len() > 0 {
        lemma_bridge_messages(msgs.drop_first(), allowed);
    }
}

/// An event changes nothing that was written down of a device, and tells the house only what such
/// a device may say.
pub proof fn law_an_event_keeps_to_its_device(
    inst: InstanceView,
    note: Seq<char>,
    args: Map<Seq<char>, JsonView>,
)
    ensures
        driver::evented(inst, note, args).0.properties == inst.properties,
        are_allowed(
            driver::evented(inst, note, args).1,
            |name: Seq<char>| device_says(inst, name),
        ),
{
    let calls = driver::evented(inst, note, args).1;
    match device::heard(note, args) {
        Some(msgs) => {
            lemma_zone_messages(inst, msgs);
            lemma_remote_messages(inst, msgs);
            if device::group_of(inst) is Some {
                lemma_occupancy_messages(device::group_of(inst)->0, msgs);
            }
            lemma_bridge_messages(msgs, |name: Seq<char>| device_says(inst, name));
        },
        None => {},
    }
    assert forall|i: int| 0 <= i < calls.len() implies (
    #[trigger] calls[i] matches HostCallView::Notify { proxy, name, .. } ==> proxy == PROXY
        && device_says(inst, name)) by {}
}

/// Binding a device tells the house that it is there, and nothing else.
pub proof fn law_binding_says_only_that_it_is_there(inst: InstanceView)
    ensures
        driver::binding_calls(inst)[0] == driver::online(),
        forall|i: int|
            1 <= i < driver::binding_calls(inst).len() ==> !((#[trigger] driver::binding_calls(
                inst,
            )[i]) is Notify),
{
}

/// Whether a status says nothing of an area: it is another's, or neither occupied nor unoccupied.
pub open spec fn is_silent_of(status: JsonView, mine: Seq<char>) -> bool {
    json::text_of(status.get2("OccupancyGroup"@, "href"@)) != Some(mine) || sensors::detected(
        status,
    ) is None
}

/// The feed of other areas says nothing of this one, and neither does a status that is unknown: a
/// message that carries nothing else is silent.
pub proof fn law_an_unknown_area_says_nothing(mine: Seq<char>, msg: JsonView)
    requires
        msg.get2("Body"@, "OccupancyGroupStatus"@) matches Some(status) ==> is_silent_of(
            status,
            mine,
        ),
        forall|i: int|
            0 <= i < json::items_or_empty(msg.get2("Body"@, "OccupancyGroupStatuses"@)).len()
                ==> is_silent_of(
                #[trigger] json::items_or_empty(msg.get2("Body"@, "OccupancyGroupStatuses"@))[i],
                mine,
            ),
    ensures
        sensors::occupancy_message(mine, msg) == Seq::<HostCallView>::empty(),
{
    lemma_silent(mine, json::items_or_empty(msg.get2("Body"@, "OccupancyGroupStatuses"@)));
}

proof fn lemma_silent(mine: Seq<char>, statuses: Seq<JsonView>)
    requires
        forall|i: int| 0 <= i < statuses.len() ==> is_silent_of(#[trigger] statuses[i], mine),
    ensures
        sensors::occupancy_statuses(mine, statuses) == Seq::<HostCallView>::empty(),
    decreases statuses.len(),
{
    if statuses.len() > 0 {
        let sooner = statuses.drop_last();
        assert forall|i: int| 0 <= i < sooner.len() implies is_silent_of(
            #[trigger] sooner[i],
            mine,
        ) by {
            assert(sooner[i] == statuses[i]);
        }
        lemma_silent(mine, sooner);
        assert(statuses[statuses.len() - 1] == statuses.last());
    }
}

/// Whether one of the virtual buttons is programmed, at this place and under this title.
pub open spec fn is_programmed(buttons: Seq<JsonView>, title: Seq<char>, resource: Seq<char>) -> bool {
    exists|j: int|
        0 <= j < buttons.len() && json::bool_of((#[trigger] buttons[j]).get("IsProgrammed"@))
            == Some(true) && json::text_of(buttons[j].get("href"@)) == Some(resource) && (
        json::text_of(buttons[j].get("Name"@)) matches Some(name) && text::trimmed(
            name,
        ) == title)
}

/// Only a virtual button that somebody programmed is a scene, and it has a title. What it does is
/// not claimed to be known.
pub proof fn law_only_a_programmed_button_is_a_scene(buttons: Seq<JsonView>)
    ensures
        sensors::scenes_of(buttons).len() <= buttons.len(),
        forall|i: int|
            0 <= i < sensors::scenes_of(buttons).len() ==> is_programmed(
                buttons,
                (#[trigger] sensors::scenes_of(buttons)[i]).title,
                sensors::scenes_of(buttons)[i].resource,
            ) && sensors::scenes_of(buttons)[i].title.len() > 0 && sensors::scenes_of(
                buttons,
            )[i].steps.len() == 0,
    decreases buttons.len(),
{
    if buttons.len() > 0 {
        let sooner = buttons.drop_last();
        law_only_a_programmed_button_is_a_scene(sooner);
        let before = sensors::scenes_of(sooner);
        let all = sensors::scenes_of(buttons);
        assert forall|i: int| 0 <= i < all.len() implies is_programmed(
            buttons,
            (#[trigger] all[i]).title,
            all[i].resource,
        ) && all[i].title.len() > 0 && all[i].steps.len() == 0 by {
            if i < before.len() {
                assert(all[i] == before[i]);
                let title = before[i].title;
                let resource = before[i].resource;
                let j = choose|j: int|
                    0 <= j < sooner.len() && json::bool_of(
                        (#[trigger] sooner[j]).get("IsProgrammed"@),
                    ) == Some(true) && json::text_of(sooner[j].get("href"@)) == Some(
                        resource,
                    ) && (json::text_of(sooner[j].get("Name"@)) matches Some(name)
                        && text::trimmed(name) == title);
                assert(buttons[j] == sooner[j]);
            } else {
                assert(buttons[buttons.len() - 1] == buttons.last());
            }
        }
    }
}

} // verus!
