//! Laws of what is heard: the status of a zone, whatever its kind, and how a window of messages is
//! taken in.

use crate::device;
use crate::driver;
use crate::framing;
use crate::host::{HostCallView, InstanceView};
use crate::json::JsonView;
use crate::laws::commands;
use crate::laws::words;
use crate::remotes;
use crate::zones;
use vstd::prelude::*;

verus! {

proof fn lemma_kinds_and_notes()
    ensures
        "switch"@.len() == 6,
        "fan"@.len() == 3,
        "shade"@.len() == 5,
        ""@.len() == 0,
        "on"@.len() == 2,
        "tilt"@.len() == 4,
        "level"@.len() == 5,
        "speed"@.len() == 5,
        "level"@[0] == 'l',
        "speed"@[0] == 's',
{
    reveal_strlit("switch");
    reveal_strlit("fan");
    reveal_strlit("shade");
    reveal_strlit("");
    reveal_strlit("on");
    reveal_strlit("tilt");
    reveal_strlit("level");
    reveal_strlit("speed");
}

/// The message that carries the status of a zone.
pub open spec fn carries(msg: JsonView, status: Map<Seq<char>, JsonView>) -> bool {
    &&& msg is Object && msg->Object_0.contains_key("Body"@)
    &&& msg->Object_0["Body"@] is Object
    &&& words::has(msg->Object_0["Body"@]->Object_0, "ZoneStatus"@, JsonView::Object(status))
}

/// Whether a status is of this zone.
pub open spec fn is_of(status: Map<Seq<char>, JsonView>, zone: Seq<char>) -> bool {
    &&& status.contains_key("Zone"@) && status["Zone"@] is Object
    &&& words::has(status["Zone"@]->Object_0, "href"@, JsonView::Text(zone))
}

/// A number as a percentage: itself, but a hundred at most.
pub open spec fn at_most_full(n: u64) -> u64 {
    if n <= 100 {
        n
    } else {
        100
    }
}

/// The level that a light's zone reports reaches the house and the notes: unless that level was
/// noted already and the light was not noted to be off since.
pub proof fn law_a_lights_level_is_told(
    inst: InstanceView,
    zone: Seq<char>,
    msg: JsonView,
    status: Map<Seq<char>, JsonView>,
    level: u64,
)
    requires
        words::is_a_light(inst),
        words::drives(inst, zone),
        carries(msg, status),
        is_of(status, zone),
        words::has(status, "Level"@, JsonView::Unsigned(level)),
    ensures
        ({
            let p = at_most_full(level);
            let known = words::has(inst.scratch, "level"@, JsonView::Unsigned(p)) && !(p > 0
                && words::has(inst.scratch, "on"@, JsonView::Bool(false)));
            zones::zone_message(inst, msg) == if known {
                (inst, Seq::<HostCallView>::empty())
            } else {
                (
                    if p > 0 {
                        words::noting(
                            words::noting(inst, "level"@, JsonView::Unsigned(p)),
                            "on"@,
                            JsonView::Bool(true),
                        )
                    } else {
                        words::noting(inst, "on"@, JsonView::Bool(false))
                    },
                    seq![words::told("level_changed"@, "level"@, JsonView::Unsigned(p))],
                )
            }
        }),
{
    lemma_kinds_and_notes();
}

/// Whether a switch is on reaches the house and the notes, unless it was noted already.
pub proof fn law_a_switchs_state_is_told(
    inst: InstanceView,
    zone: Seq<char>,
    msg: JsonView,
    status: Map<Seq<char>, JsonView>,
    level: u64,
)
    requires
        words::is_a(inst, "switch"@),
        words::drives(inst, zone),
        carries(msg, status),
        is_of(status, zone),
        words::has(status, "Level"@, JsonView::Unsigned(level)),
    ensures
        zones::zone_message(inst, msg) == if words::has(
            inst.scratch,
            "on"@,
            JsonView::Bool(level > 0),
        ) {
            (inst, Seq::<HostCallView>::empty())
        } else {
            (
                words::noting(inst, "on"@, JsonView::Bool(level > 0)),
                seq![words::told("switch_changed"@, "on"@, JsonView::Bool(level > 0))],
            )
        },
{
    lemma_kinds_and_notes();
}

/// The notification of a fan.
pub open spec fn fan_told(speed: Seq<char>, on: bool) -> HostCallView {
    HostCallView::Notify {
        proxy: 1,
        name: "speed_changed"@,
        args: map!["speed"@ => JsonView::Text(speed), "on"@ => JsonView::Bool(on)],
    }
}

/// The speed that a fan runs at reaches the house in the house's word, and the notes, unless it
/// was noted already.
pub proof fn law_a_fans_speed_is_told(
    inst: InstanceView,
    zone: Seq<char>,
    msg: JsonView,
    status: Map<Seq<char>, JsonView>,
    house: Seq<char>,
    leap: Seq<char>,
)
    requires
        words::is_a(inst, "fan"@),
        words::drives(inst, zone),
        carries(msg, status),
        is_of(status, zone),
        commands::is_speed(house, leap),
        words::has(status, "FanSpeed"@, JsonView::Text(leap)),
    ensures
        zones::zone_message(inst, msg) == if words::has(
            inst.scratch,
            "speed"@,
            JsonView::Text(house),
        ) && words::has(inst.scratch, "on"@, JsonView::Bool(true)) {
            (inst, Seq::<HostCallView>::empty())
        } else {
            (
                words::noting(
                    words::noting(inst, "speed"@, JsonView::Text(house)),
                    "on"@,
                    JsonView::Bool(true),
                ),
                seq![fan_told(house, true)],
            )
        },
{
    lemma_kinds_and_notes();
    lemma_leap_speeds();
}

proof fn lemma_leap_speeds()
    ensures
        "Low"@.len() == 3,
        "Medium"@.len() == 6,
        "MediumHigh"@.len() == 10,
        "High"@.len() == 4,
{
    reveal_strlit("Low");
    reveal_strlit("Medium");
    reveal_strlit("MediumHigh");
    reveal_strlit("High");
}

/// A fan that stands still is told of as off; the speed that it ran at stays noted. Only a fan that
/// never ran and is noted to be off is told of no more.
pub proof fn law_a_fans_stop_is_told(
    inst: InstanceView,
    zone: Seq<char>,
    msg: JsonView,
    status: Map<Seq<char>, JsonView>,
    word: Seq<char>,
)
    requires
        words::is_a(inst, "fan"@),
        words::drives(inst, zone),
        carries(msg, status),
        is_of(status, zone),
        words::has(status, "FanSpeed"@, JsonView::Text(word)),
        word != "Low"@ && word != "Medium"@ && word != "MediumHigh"@ && word != "High"@,
    ensures
        zones::zone_message(inst, msg) == if !words::has_text(inst.scratch, "speed"@) && words::has(
            inst.scratch,
            "on"@,
            JsonView::Bool(false),
        ) {
            (inst, Seq::<HostCallView>::empty())
        } else {
            (words::noting(inst, "on"@, JsonView::Bool(false)), seq![fan_told("off"@, false)])
        },
{
    lemma_kinds_and_notes();
}

/// What is noted of one percentage of a shade, and what the house is told of it.
pub open spec fn shade_part(
    inst: InstanceView,
    status: Map<Seq<char>, JsonView>,
    field: Seq<char>,
    note: Seq<char>,
    name: Seq<char>,
    arg: Seq<char>,
) -> (InstanceView, Seq<HostCallView>) {
    if !words::has_number(status, field) {
        (inst, Seq::empty())
    } else {
        let p = JsonView::Unsigned(at_most_full(status[field]->Unsigned_0));
        if words::has(inst.scratch, note, p) {
            (inst, Seq::empty())
        } else {
            (words::noting(inst, note, p), seq![words::told(name, arg, p)])
        }
    }
}

/// The tilt and the position that a shade's zone reports reach the house and the notes, each on
/// its own, unless they were noted already.
pub proof fn law_a_shades_position_is_told(
    inst: InstanceView,
    zone: Seq<char>,
    msg: JsonView,
    status: Map<Seq<char>, JsonView>,
)
    requires
        words::is_a(inst, "shade"@),
        words::drives(inst, zone),
        carries(msg, status),
        is_of(status, zone),
    ensures
        ({
            let slats = shade_part(inst, status, "Tilt"@, "tilt"@, "tilt_changed"@, "tilt"@);
            let place = shade_part(
                slats.0,
                status,
                "Level"@,
                "level"@,
                "position_changed"@,
                "position"@,
            );
            zones::zone_message(inst, msg) == (place.0, slats.1 + place.1)
        }),
{
    lemma_kinds_and_notes();
}

/// A status that does not say what its kind of zone is asked for changes nothing and says nothing:
/// a level for a light and a switch, a speed for a fan. Neither does a message that is no status of
/// the device's own zone.
pub proof fn law_nothing_said_is_nothing_told(
    inst: InstanceView,
    zone: Seq<char>,
    msg: JsonView,
    status: Map<Seq<char>, JsonView>,
)
    requires
        words::drives(inst, zone),
        carries(msg, status),
        !is_of(status, zone) || ((words::is_a_light(inst) || words::is_a(inst, "switch"@))
            && !words::has_number(status, "Level"@)) || (words::is_a(inst, "fan"@)
            && !words::has_text(status, "FanSpeed"@)),
    ensures
        zones::zone_message(inst, msg) == (inst, Seq::<HostCallView>::empty()),
{
    lemma_kinds_and_notes();
}

/// A message without a status of a zone moves no zone.
pub proof fn law_only_a_status_moves_a_zone(inst: InstanceView, msg: JsonView)
    requires
        msg.get2("Body"@, "ZoneStatus"@) is None,
    ensures
        zones::zone_message(inst, msg) == (inst, Seq::<HostCallView>::empty()),
{
}

proof fn lemma_replay(
    inst: InstanceView,
    a: Seq<JsonView>,
    b: Seq<JsonView>,
    step: spec_fn(InstanceView, JsonView) -> (InstanceView, Seq<HostCallView>),
)
    ensures
        device::replay(inst, a + b, step) == ({
            let first = device::replay(inst, a, step);
            let then = device::replay(first.0, b, step);
            (then.0, first.1 + then.1)
        }),
    decreases b.len(),
{
    let first = device::replay(inst, a, step);
    if b.len() == 0 {
        assert(a + b =~= a);
        assert(first.1 + Seq::<HostCallView>::empty() =~= first.1);
    } else {
        let sooner = b.drop_last();
        lemma_replay(inst, a, sooner, step);
        assert((a + b).drop_last() =~= a + sooner);
        assert((a + b).last() == b.last());
        let mid = device::replay(first.0, sooner, step);
        let last = step(mid.0, b.last());
        assert(first.1 + mid.1 + last.1 =~= first.1 + (mid.1 + last.1));
    }
}

proof fn lemma_replay_one(
    inst: InstanceView,
    msg: JsonView,
    step: spec_fn(InstanceView, JsonView) -> (InstanceView, Seq<HostCallView>),
)
    ensures
        device::replay(inst, seq![msg], step) == step(inst, msg),
{
    reveal_with_fuel(device::replay, 2);
    assert(seq![msg].drop_last() =~= Seq::<JsonView>::empty());
    assert(seq![msg].last() == msg);
    let one = step(inst, msg);
    assert(Seq::<HostCallView>::empty() + one.1 =~= one.1);
}

/// Messages are taken in one after the other, each on what the one before left, and what the house
/// is told of each stands in that order. None is passed over: one message is itself, and some and
/// then some more are all of them.
pub proof fn law_messages_are_taken_in_one_by_one(
    inst: InstanceView,
    msg: JsonView,
    a: Seq<JsonView>,
    b: Seq<JsonView>,
)
    ensures
        zones::zone_messages(inst, Seq::empty()) == (inst, Seq::<HostCallView>::empty()),
        zones::zone_messages(inst, seq![msg]) == zones::zone_message(inst, msg),
        zones::zone_messages(inst, a + b) == ({
            let first = zones::zone_messages(inst, a);
            let then = zones::zone_messages(first.0, b);
            (then.0, first.1 + then.1)
        }),
        remotes::remote_messages(inst, Seq::empty()) == (inst, Seq::<HostCallView>::empty()),
        remotes::remote_messages(inst, seq![msg]) == remotes::remote_message(inst, msg),
        remotes::remote_messages(inst, a + b) == ({
            let first = remotes::remote_messages(inst, a);
            let then = remotes::remote_messages(first.0, b);
            (then.0, first.1 + then.1)
        }),
{
    let zone_step = |i: InstanceView, m: JsonView| zones::zone_message(i, m);
    let remote_step = |i: InstanceView, m: JsonView| remotes::remote_message(i, m);
    lemma_replay(inst, a, b, zone_step);
    lemma_replay(inst, a, b, remote_step);
    lemma_replay_one(inst, msg, zone_step);
    lemma_replay_one(inst, msg, remote_step);
}

/// An event is what was received, where it says so: every message in the text that it brings, and
/// for a device that is a zone nothing else.
pub proof fn law_what_is_received_is_taken_in(
    inst: InstanceView,
    zone: Seq<char>,
    note: Seq<char>,
    args: Map<Seq<char>, JsonView>,
    received: Seq<char>,
)
    requires
        words::drives(inst, zone),
        device::buttons_of(inst).len() == 0,
        !words::has_href(inst.properties, "Occupancy href"@),
    ensures
        words::has(args, "data"@, JsonView::Text(received)) ==> driver::evented(inst, "rx"@, args)
            == zones::zone_messages(inst, framing::messages(received)),
        note != "rx"@ || !words::has_text(args, "data"@) ==> driver::evented(inst, note, args) == (
            inst,
            Seq::<HostCallView>::empty(),
        ),
{
}

} // verus!
