//! Laws of the zones: dimmers, switches, fans and shades.

use crate::device;
use crate::driver;
use crate::framing;
use crate::host::{HostCallView, InstanceView};
use crate::json::{self, JsonView};
use crate::laws;
use crate::messages;
use crate::tables::{self, Kind};
use crate::zones;
use vstd::prelude::*;

verus! {

proof fn lemma_notes_are_distinct()
    ensures
        "on"@ != "level"@,
        "on"@ != "speed"@,
        "on"@ != "tilt"@,
        "level"@ != "speed"@,
        "level"@ != "tilt"@,
        "speed"@ != "tilt"@,
{
    reveal_strlit("on");
    reveal_strlit("level");
    reveal_strlit("speed");
    reveal_strlit("tilt");
    assert("on"@.len() == 2);
    assert("level"@.len() == 5);
    assert("speed"@.len() == 5);
    assert("tilt"@.len() == 4);
    assert("level"@[0] == 'l');
    assert("speed"@[0] == 's');
}

proof fn lemma_commands_are_distinct()
    ensures
        "on"@ != "off"@,
        "on"@ != "toggle"@,
        "on"@ != "set_level"@,
        "on"@ != "ramp_start"@,
        "on"@ != "ramp_stop"@,
        "on"@ != "set_speed"@,
        "off"@ != "toggle"@,
        "off"@ != "set_level"@,
        "off"@ != "ramp_start"@,
        "off"@ != "ramp_stop"@,
        "off"@ != "set_speed"@,
        "toggle"@ != "set_level"@,
        "toggle"@ != "ramp_start"@,
        "toggle"@ != "ramp_stop"@,
        "toggle"@ != "set_speed"@,
        "set_level"@ != "ramp_start"@,
        "set_level"@ != "ramp_stop"@,
        "set_level"@ != "set_speed"@,
        "ramp_start"@ != "ramp_stop"@,
        "ramp_start"@ != "set_speed"@,
        "ramp_stop"@ != "set_speed"@,
{
    reveal_strlit("on");
    reveal_strlit("off");
    reveal_strlit("toggle");
    reveal_strlit("set_level");
    reveal_strlit("ramp_start");
    reveal_strlit("ramp_stop");
    reveal_strlit("set_speed");
    assert("on"@.len() == 2);
    assert("off"@.len() == 3);
    assert("toggle"@.len() == 6);
    assert("set_level"@.len() == 9);
    assert("ramp_start"@.len() == 10);
    assert("ramp_stop"@.len() == 9);
    assert("set_speed"@.len() == 9);
    assert("ramp_stop"@[0] == 'r');
    assert("set_level"@[0] == 's');
    assert("set_level"@[4] == 'l');
    assert("set_speed"@[0] == 's');
    assert("set_speed"@[4] == 's');
}

/// Whether a message is the status of a zone.
pub open spec fn is_status_of(msg: JsonView, zone: Seq<char>, status: JsonView) -> bool {
    &&& msg.get2("Body"@, "ZoneStatus"@) == Some(status)
    &&& json::text_or_empty(status.get2("Zone"@, "href"@)) == zone
}

/// A command to a device without a zone is a warning, and changes and sends nothing.
pub proof fn law_a_device_without_a_zone_only_complains(
    inst: InstanceView,
    cmd: Seq<char>,
    args: Map<Seq<char>, JsonView>,
)
    requires
        device::zone_of(inst) is None,
    ensures
        driver::commanded(inst, cmd, args) == (
            inst,
            seq![HostCallView::Log { message: zones::NO_ZONE@ }],
        ),
{
}

/// The status of a zone that is not the device's own changes nothing and says nothing.
pub proof fn law_another_zone_moves_nothing(
    inst: InstanceView,
    msg: JsonView,
    zone: Seq<char>,
    status: JsonView,
)
    requires
        is_status_of(msg, zone, status),
        device::zone_of(inst) != Some(zone),
    ensures
        zones::zone_message(inst, msg) == (inst, Seq::<HostCallView>::empty()),
{
}

/// A ramp has not arrived anywhere: neither its start nor its end notes anything or tells the
/// house anything.
pub proof fn law_a_ramp_says_nothing(
    inst: InstanceView,
    cmd: Seq<char>,
    args: Map<Seq<char>, JsonView>,
)
    requires
        cmd == "ramp_start"@ || cmd == "ramp_stop"@,
    ensures
        zones::light_command(inst, cmd, args).0 == inst,
        forall|i: int|
            0 <= i < zones::light_command(inst, cmd, args).1.len() ==> !((
            #[trigger] zones::light_command(inst, cmd, args).1[i]) is Notify),
{
    lemma_commands_are_distinct();
}

/// Stopping a ramp holds the light where the bridge last said that it was, not where it was
/// headed.
pub proof fn law_a_ramp_stops_where_the_light_got_to(
    inst: InstanceView,
    msg: JsonView,
    zone: Seq<char>,
    status: JsonView,
    level: u64,
    args: Map<Seq<char>, JsonView>,
)
    requires
        tables::kind_of(inst) == Kind::Light,
        device::zone_of(inst) == Some(zone),
        is_status_of(msg, zone, status),
        json::unsigned_of(status.get("Level"@)) == Some(level),
        level > 0,
    ensures
        zones::light_command(zones::zone_message(inst, msg).0, "ramp_stop"@, args).1 == zones::sent(
            messages::dim_view(zone, zones::percentage(level), 0),
        ),
{
    lemma_commands_are_distinct();
    lemma_notes_are_distinct();
}

/// A light that is turned off and on again comes back to the level that it had, whether it is
/// turned on or toggled.
pub proof fn law_a_light_comes_back_to_its_level(
    inst: InstanceView,
    zone: Seq<char>,
    level: u8,
    set: Map<Seq<char>, JsonView>,
    off: Map<Seq<char>, JsonView>,
    on: Map<Seq<char>, JsonView>,
)
    requires
        device::zone_of(inst) == Some(zone),
        level > 0,
        json::unsigned_of(json::find(set, "level"@)) == Some(level as u64),
    ensures
        ({
            let lit = zones::light_command(inst, "set_level"@, set).0;
            let dark = zones::light_command(lit, "off"@, off).0;
            let back = seq![
                framing::transmission(messages::dim_view(zone, level, zones::fade_of(inst, on))),
                zones::level_report(level),
            ];
            &&& zones::light_command(dark, "on"@, on).1 == back
            &&& zones::light_command(dark, "toggle"@, on).1 == back
        }),
{
    lemma_commands_are_distinct();
    lemma_notes_are_distinct();
}

/// A switch toggles from what it last reported: on is turned off, and off is turned on.
pub proof fn law_a_switch_toggles_from_what_it_reported(
    inst: InstanceView,
    msg: JsonView,
    zone: Seq<char>,
    status: JsonView,
    level: u64,
)
    requires
        tables::kind_of(inst) == Kind::Switch,
        device::zone_of(inst) == Some(zone),
        is_status_of(msg, zone, status),
        json::unsigned_of(status.get("Level"@)) == Some(level),
    ensures
        zones::switch_calls(zones::zone_message(inst, msg).0, "toggle"@) == zones::sent(
            messages::level_view(
                zone,
                if level > 0 {
                    0
                } else {
                    100
                },
            ),
        ),
{
    lemma_commands_are_distinct();
    lemma_notes_are_distinct();
}

/// A fan that is turned on after it stopped returns to the speed that it ran at.
pub proof fn law_a_fan_returns_to_its_speed(
    inst: InstanceView,
    zone: Seq<char>,
    ran: JsonView,
    run_status: JsonView,
    stopped: JsonView,
    stop_status: JsonView,
    speed: Seq<char>,
    args: Map<Seq<char>, JsonView>,
)
    requires
        tables::kind_of(inst) == Kind::Fan,
        device::zone_of(inst) == Some(zone),
        is_status_of(ran, zone, run_status),
        json::text_of(run_status.get("FanSpeed"@)) == Some(speed),
        tables::house_speed(speed) is Some,
        is_status_of(stopped, zone, stop_status),
        json::text_of(stop_status.get("FanSpeed"@)) matches Some(word) && tables::house_speed(
            word,
        ) is None,
    ensures
        ({
            let running = zones::zone_message(inst, ran).0;
            let still = zones::zone_message(running, stopped).0;
            zones::fan_calls(still, "on"@, args) == zones::sent(messages::fan_view(zone, speed))
        }),
{
    lemma_commands_are_distinct();
    lemma_notes_are_distinct();
    let house = tables::house_speed(speed)->0;
    laws::tables::law_fan_speeds_translate_both_ways(house, speed);
}

/// What the bridge repeats is said once: the second time, the status changes nothing and says
/// nothing. A light that is off and a fan that is off are the exceptions.
pub proof fn law_a_status_is_said_once(
    inst: InstanceView,
    msg: JsonView,
    zone: Seq<char>,
    status: JsonView,
)
    requires
        device::zone_of(inst) == Some(zone),
        is_status_of(msg, zone, status),
        tables::kind_of(inst) == Kind::Light ==> json::unsigned_of(status.get("Level"@)) != Some(
            0u64,
        ),
        tables::kind_of(inst) == Kind::Fan ==> (json::text_of(
            status.get("FanSpeed"@),
        ) matches Some(word) ==> tables::house_speed(word) is Some),
    ensures
        zones::zone_message(zones::zone_message(inst, msg).0, msg) == (
            zones::zone_message(inst, msg).0,
            Seq::<HostCallView>::empty(),
        ),
{
    lemma_notes_are_distinct();
    assert(Seq::<HostCallView>::empty() + Seq::<HostCallView>::empty() =~= Seq::<
        HostCallView,
    >::empty());
}

/// What holds of the notes of every light: a level is noted only together with whether the light
/// is on, and never as zero.
pub open spec fn has_sound_notes(inst: InstanceView) -> bool {
    zones::noted_level(inst) matches Some(level) ==> level > 0 && json::bool_of(
        json::find(inst.scratch, "on"@),
    ) is Some
}

/// A light has sound notes when it is adopted, and no command and no message takes them away.
pub proof fn law_a_lights_notes_stay_sound(
    inst: InstanceView,
    cmd: Seq<char>,
    args: Map<Seq<char>, JsonView>,
    msg: JsonView,
)
    requires
        tables::kind_of(inst) == Kind::Light,
    ensures
        inst.scratch == Map::<Seq<char>, JsonView>::empty() ==> has_sound_notes(inst),
        has_sound_notes(inst) ==> has_sound_notes(zones::light_command(inst, cmd, args).0),
        has_sound_notes(inst) ==> has_sound_notes(zones::zone_message(inst, msg).0),
{
    lemma_notes_are_distinct();
}

/// The status keeps the house in step with a light whose notes are sound: afterwards the
/// light is noted to be on exactly where its level is not zero, and then at that level. The house
/// is told the level, unless that is what was noted already.
pub proof fn law_a_status_keeps_a_light_in_step(
    inst: InstanceView,
    msg: JsonView,
    zone: Seq<char>,
    status: JsonView,
    level: u64,
)
    requires
        tables::kind_of(inst) == Kind::Light,
        has_sound_notes(inst),
        device::zone_of(inst) == Some(zone),
        is_status_of(msg, zone, status),
        json::unsigned_of(status.get("Level"@)) == Some(level),
    ensures
        zones::noted_on(zones::zone_message(inst, msg).0) == (level > 0),
        level > 0 ==> zones::noted_level(zones::zone_message(inst, msg).0) == Some(
            zones::percentage(level) as u64,
        ),
        zones::zone_message(inst, msg).1 == if level > 0 && zones::noted_on(inst)
            && zones::noted_level(inst) == Some(zones::percentage(level) as u64) {
            Seq::<HostCallView>::empty()
        } else {
            seq![zones::level_report(zones::percentage(level))]
        },
{
    lemma_notes_are_distinct();
}

/// A light that is turned off at the wall and on again is not lost: each time the house is told,
/// though the light comes back to the level that it had.
pub proof fn law_a_light_that_comes_back_is_reported(
    inst: InstanceView,
    zone: Seq<char>,
    lit: JsonView,
    lit_status: JsonView,
    dark: JsonView,
    dark_status: JsonView,
    level: u64,
)
    requires
        tables::kind_of(inst) == Kind::Light,
        device::zone_of(inst) == Some(zone),
        is_status_of(lit, zone, lit_status),
        json::unsigned_of(lit_status.get("Level"@)) == Some(level),
        level > 0,
        is_status_of(dark, zone, dark_status),
        json::unsigned_of(dark_status.get("Level"@)) == Some(0u64),
    ensures
        ({
            let first = zones::zone_message(inst, lit).0;
            let off = zones::zone_message(first, dark);
            let again = zones::zone_message(off.0, lit);
            &&& off.1 == seq![zones::level_report(0)]
            &&& again.1 == seq![zones::level_report(zones::percentage(level))]
            &&& zones::noted_on(again.0)
        }),
{
    lemma_notes_are_distinct();
}

/// A level, a position or a tilt that the house is told on a status is a percentage.
pub proof fn law_a_reported_level_is_a_percentage(inst: InstanceView, msg: JsonView, i: int)
    requires
        0 <= i < zones::zone_message(inst, msg).1.len(),
    ensures
        zones::zone_message(inst, msg).1[i] matches HostCallView::Notify { args, .. } ==> forall|
            key: Seq<char>,
        |
            args.contains_key(key) ==> (#[trigger] args[key] matches JsonView::Unsigned(n) ==> n
                <= 100),
{
}

} // verus!
