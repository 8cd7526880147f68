//! Laws of the commands: what is sent for each, to whom, and what the house is told.

use crate::driver;
use crate::host::{HostCallView, InstanceView};
use crate::json::JsonView;
use crate::laws::words;
use crate::messages;
use crate::text;
use crate::zones;
use vstd::prelude::*;

verus! {

/// What tells the commands apart: a length or a character.
proof fn lemma_commands()
    ensures
        "on"@.len() == 2,
        "off"@.len() == 3,
        "open"@.len() == 4,
        "stop"@.len() == 4,
        "close"@.len() == 5,
        "toggle"@.len() == 6,
        "set_tilt"@.len() == 8,
        "set_level"@.len() == 9,
        "set_speed"@.len() == 9,
        "ramp_stop"@.len() == 9,
        "ramp_start"@.len() == 10,
        "set_position"@.len() == 12,
        "open"@[0] == 'o',
        "stop"@[0] == 's',
        "set_level"@[4] == 'l',
        "set_speed"@[4] == 's',
        "ramp_stop"@[4] == '_',
        "switch"@.len() == 6,
        "fan"@.len() == 3,
        "shade"@.len() == 5,
        ""@.len() == 0,
{
    reveal_strlit("on");
    reveal_strlit("off");
    reveal_strlit("open");
    reveal_strlit("stop");
    reveal_strlit("close");
    reveal_strlit("toggle");
    reveal_strlit("set_tilt");
    reveal_strlit("set_level");
    reveal_strlit("set_speed");
    reveal_strlit("ramp_stop");
    reveal_strlit("ramp_start");
    reveal_strlit("set_position");
    reveal_strlit("switch");
    reveal_strlit("fan");
    reveal_strlit("shade");
    reveal_strlit("");
}

/// A fade is written as hours, minutes and seconds, two digits each.
pub proof fn law_a_fade_is_a_clock(hours: u64, minutes: u64, seconds: u64)
    requires
        hours < 100,
        minutes < 60,
        seconds < 60,
    ensures
        messages::clock((hours * 3600 + minutes * 60 + seconds) as nat) == words::two_digits(
            hours as int,
        ) + seq![':'] + words::two_digits(minutes as int) + seq![':'] + words::two_digits(
            seconds as int,
        ),
{
    let n = (hours * 3600 + minutes * 60 + seconds) as nat;
    assert(n / 3600 == hours && (n % 3600) / 60 == minutes && n % 60 == seconds) by (nonlinear_arith)
        requires
            n == hours * 3600 + minutes * 60 + seconds,
            minutes < 60,
            seconds < 60,
    ;
    reveal_strlit(":");
    assert(":"@ =~= seq![':']);
    lemma_two_places(hours as nat);
    lemma_two_places(minutes as nat);
    lemma_two_places(seconds as nat);
}

proof fn lemma_two_places(n: nat)
    requires
        n < 100,
    ensures
        text::two_places(text::decimal(n)) == words::two_digits(n as int),
{
    reveal_with_fuel(text::decimal, 2);
    assert(text::two_places(text::decimal(n)) =~= words::two_digits(n as int));
}

/// How long a light takes to fade, in seconds: what the command asks for, what was written down
/// for the device, or one.
pub open spec fn fade_seconds(inst: InstanceView, args: Map<Seq<char>, JsonView>) -> nat {
    if words::has_number(args, "ramp_ms"@) {
        (args["ramp_ms"@]->Unsigned_0 / 1000) as nat
    } else if words::has_number(inst.properties, "Default fade"@) {
        inst.properties["Default fade"@]->Unsigned_0 as nat
    } else {
        1
    }
}

/// The brightness that a light was last noted at: the low byte of the number, or full where there
/// is none.
pub open spec fn last_noted(inst: InstanceView) -> int {
    if words::has_number(inst.scratch, "level"@) {
        (inst.scratch["level"@]->Unsigned_0 % 256) as int
    } else {
        100
    }
}

/// Where a command that names or implies a level takes a light.
pub open spec fn is_goal(
    inst: InstanceView,
    cmd: Seq<char>,
    args: Map<Seq<char>, JsonView>,
    level: int,
) -> bool {
    let lit = if last_noted(inst) == 0 {
        100
    } else {
        last_noted(inst)
    };
    ||| cmd == "off"@ && level == 0
    ||| cmd == "on"@ && level == lit
    ||| cmd == "toggle"@ && words::is_on(inst) && level == 0
    ||| cmd == "toggle"@ && !words::is_on(inst) && level == lit
    ||| cmd == "set_level"@ && words::has_number(args, "level"@) && level == args[
        "level"@]->Unsigned_0 % 256
    ||| cmd == "set_level"@ && !words::has_number(args, "level"@) && level == 0
}

/// A light is sent where the command says, whatever was noted of it before: that level and no
/// other is sent to its zone, told the house, and noted.
pub proof fn law_a_light_goes_where_it_is_told(
    inst: InstanceView,
    zone: Seq<char>,
    cmd: Seq<char>,
    args: Map<Seq<char>, JsonView>,
    level: int,
)
    requires
        words::is_a_light(inst),
        words::drives(inst, zone),
        is_goal(inst, cmd, args, level),
    ensures
        0 <= level < 256,
        driver::commanded(inst, cmd, args).1 == seq![
            words::written(
                words::dimming(zone, level, messages::clock(fade_seconds(inst, args))),
            ),
            words::told("level_changed"@, "level"@, JsonView::Unsigned(level as u64)),
        ],
        driver::commanded(inst, cmd, args).0 == if level > 0 {
            words::noting(
                words::noting(inst, "level"@, JsonView::Unsigned(level as u64)),
                "on"@,
                JsonView::Bool(true),
            )
        } else {
            words::noting(inst, "on"@, JsonView::Bool(false))
        },
{
    lemma_commands();
}

/// A light that is set to a level from zero to a hundred goes to exactly that level.
pub proof fn law_a_light_is_set_to_its_level(
    inst: InstanceView,
    zone: Seq<char>,
    args: Map<Seq<char>, JsonView>,
    level: u64,
)
    requires
        words::is_a_light(inst),
        words::drives(inst, zone),
        words::has(args, "level"@, JsonView::Unsigned(level)),
        level <= 100,
    ensures
        driver::commanded(inst, "set_level"@, args).1 == seq![
            words::written(
                words::dimming(zone, level as int, messages::clock(fade_seconds(inst, args))),
            ),
            words::told("level_changed"@, "level"@, JsonView::Unsigned(level)),
        ],
{
    law_a_light_goes_where_it_is_told(inst, zone, "set_level"@, args, level as int);
}

/// Whatever the command, a light is told of at the level that it is sent to, and at no other.
pub proof fn law_the_level_told_is_the_level_sent(
    inst: InstanceView,
    zone: Seq<char>,
    cmd: Seq<char>,
    args: Map<Seq<char>, JsonView>,
    i: int,
)
    requires
        words::is_a_light(inst),
        words::drives(inst, zone),
        0 <= i < driver::commanded(inst, cmd, args).1.len(),
        driver::commanded(inst, cmd, args).1[i] is Notify,
    ensures
        exists|level: int|
            driver::commanded(inst, cmd, args).1 == seq![
                words::written(
                    #[trigger] words::dimming(
                        zone,
                        level,
                        messages::clock(fade_seconds(inst, args)),
                    ),
                ),
                words::told("level_changed"@, "level"@, JsonView::Unsigned(level as u64)),
            ],
{
    lemma_commands();
    let level = zones::light_target(inst, cmd, args)->0 as int;
    assert(is_goal(inst, cmd, args, level));
    law_a_light_goes_where_it_is_told(inst, zone, cmd, args, level);
    assert(driver::commanded(inst, cmd, args).1 == seq![
        words::written(words::dimming(zone, level, messages::clock(fade_seconds(inst, args)))),
        words::told("level_changed"@, "level"@, JsonView::Unsigned(level as u64)),
    ]);
}

/// A ramp fades over four seconds, to full or to the least light there is; its end holds the light
/// at the level that was noted last. Any other command is a warning. None of them notes anything.
pub proof fn law_a_ramp_fades_and_is_held(
    inst: InstanceView,
    zone: Seq<char>,
    cmd: Seq<char>,
    args: Map<Seq<char>, JsonView>,
)
    requires
        words::is_a_light(inst),
        words::drives(inst, zone),
    ensures
        driver::commanded(inst, "ramp_start"@, args) == (
            inst,
            seq![
                words::written(
                    words::dimming(
                        zone,
                        if words::has(args, "direction"@, JsonView::Text("up"@)) {
                            100
                        } else {
                            1
                        },
                        messages::clock(4),
                    ),
                ),
            ],
        ),
        driver::commanded(inst, "ramp_stop"@, args) == (
            inst,
            seq![
                words::written(words::dimming(zone, last_noted(inst), messages::clock(0))),
            ],
        ),
        cmd != "on"@ && cmd != "off"@ && cmd != "toggle"@ && cmd != "set_level"@ && cmd
            != "ramp_start"@ && cmd != "ramp_stop"@ ==> driver::commanded(inst, cmd, args) == (
            inst,
            seq![
                HostCallView::Log { message: "caseta-leap: unhandled `"@ + cmd + "`"@ },
            ],
        ),
{
    lemma_commands();
}

/// A switch is sent a plain level, full or none, and notes nothing: it is what it reports.
pub proof fn law_a_switch_goes_where_it_is_told(
    inst: InstanceView,
    zone: Seq<char>,
    cmd: Seq<char>,
    args: Map<Seq<char>, JsonView>,
)
    requires
        words::is_a(inst, "switch"@),
        words::drives(inst, zone),
    ensures
        driver::commanded(inst, "on"@, args) == (inst, seq![words::written(words::leveling(zone, 100))]),
        driver::commanded(inst, "off"@, args) == (inst, seq![words::written(words::leveling(zone, 0))]),
        driver::commanded(inst, "toggle"@, args) == if words::is_on(inst) {
            driver::commanded(inst, "off"@, args)
        } else {
            driver::commanded(inst, "on"@, args)
        },
        cmd != "on"@ && cmd != "off"@ && cmd != "toggle"@ ==> driver::commanded(inst, cmd, args)
            == (inst, Seq::<HostCallView>::empty()),
{
    lemma_commands();
}

/// The speeds of a fan, in the house's words and in Lutron's.
pub open spec fn is_speed(house: Seq<char>, leap: Seq<char>) -> bool {
    ||| house == "low"@ && leap == "Low"@
    ||| house == "medium"@ && leap == "Medium"@
    ||| house == "medium_high"@ && leap == "MediumHigh"@
    ||| house == "high"@ && leap == "High"@
}

proof fn lemma_speeds()
    ensures
        "low"@.len() == 3,
        "medium"@.len() == 6,
        "medium_high"@.len() == 11,
        "high"@.len() == 4,
        "Low"@.len() == 3,
        "Medium"@.len() == 6,
        "MediumHigh"@.len() == 10,
        "High"@.len() == 4,
{
    reveal_strlit("low");
    reveal_strlit("medium");
    reveal_strlit("medium_high");
    reveal_strlit("high");
    reveal_strlit("Low");
    reveal_strlit("Medium");
    reveal_strlit("MediumHigh");
    reveal_strlit("High");
}

/// A fan is sent the speed that the command names, in Lutron's word for it, whatever it runs at. A
/// word that is no speed is a warning that repeats it.
pub proof fn law_a_fan_runs_at_the_speed_it_is_told(
    inst: InstanceView,
    zone: Seq<char>,
    args: Map<Seq<char>, JsonView>,
    house: Seq<char>,
    leap: Seq<char>,
)
    requires
        words::is_a(inst, "fan"@),
        words::drives(inst, zone),
        words::has(args, "speed"@, JsonView::Text(house)),
    ensures
        is_speed(house, leap) ==> driver::commanded(inst, "set_speed"@, args) == (
            inst,
            seq![words::written(words::spinning(zone, leap))],
        ),
        house != "low"@ && house != "medium"@ && house != "medium_high"@ && house != "high"@
            ==> driver::commanded(inst, "set_speed"@, args) == (
            inst,
            seq![
                HostCallView::Log {
                    message: "caseta-leap: this fan has no speed called `"@ + house + "`"@,
                },
            ],
        ),
{
    lemma_commands();
    lemma_speeds();
}

/// A fan that is turned off is sent a stop. One that is turned on is sent the speed that was noted
/// last, or the slowest where none was. A toggle is one or the other, by whether it runs.
pub proof fn law_a_fan_is_turned_on_and_off(
    inst: InstanceView,
    zone: Seq<char>,
    cmd: Seq<char>,
    args: Map<Seq<char>, JsonView>,
    house: Seq<char>,
    leap: Seq<char>,
)
    requires
        words::is_a(inst, "fan"@),
        words::drives(inst, zone),
    ensures
        driver::commanded(inst, "off"@, args) == (
            inst,
            seq![words::written(words::spinning(zone, "Off"@))],
        ),
        words::has(inst.scratch, "speed"@, JsonView::Text(house)) && is_speed(house, leap)
            ==> driver::commanded(inst, "on"@, args) == (
            inst,
            seq![words::written(words::spinning(zone, leap))],
        ),
        !words::has_text(inst.scratch, "speed"@) ==> driver::commanded(inst, "on"@, args) == (
            inst,
            seq![words::written(words::spinning(zone, "Low"@))],
        ),
        driver::commanded(inst, "toggle"@, args) == if words::is_on(inst) {
            driver::commanded(inst, "off"@, args)
        } else {
            driver::commanded(inst, "on"@, args)
        },
        !words::has_text(args, "speed"@) ==> driver::commanded(inst, "set_speed"@, args) == (
            inst,
            Seq::<HostCallView>::empty(),
        ),
        cmd != "on"@ && cmd != "off"@ && cmd != "toggle"@ && cmd != "set_speed"@
            ==> driver::commanded(inst, cmd, args) == (inst, Seq::<HostCallView>::empty()),
{
    lemma_commands();
    lemma_speeds();
}

/// A shade is sent to the position and the tilt that the command names, a hundred at most, and to
/// the ends of its travel where it opens and closes. It stops by a verb of its own.
pub proof fn law_a_shade_goes_where_it_is_told(
    inst: InstanceView,
    zone: Seq<char>,
    cmd: Seq<char>,
    args: Map<Seq<char>, JsonView>,
    p: u64,
)
    requires
        words::is_a(inst, "shade"@),
        words::drives(inst, zone),
    ensures
        driver::commanded(inst, "open"@, args) == (inst, seq![words::written(words::leveling(zone, 100))]),
        driver::commanded(inst, "close"@, args) == (inst, seq![words::written(words::leveling(zone, 0))]),
        driver::commanded(inst, "stop"@, args) == (
            inst,
            seq![
                words::written(
                    words::commanding(zone, map!["CommandType"@ => JsonView::Text("Stop"@)]),
                ),
            ],
        ),
        words::has(args, "position"@, JsonView::Unsigned(p)) ==> driver::commanded(
            inst,
            "set_position"@,
            args,
        ) == (
            inst,
            seq![
                words::written(
                    words::leveling(
                        zone,
                        if p <= 100 {
                            p as int
                        } else {
                            100
                        },
                    ),
                ),
            ],
        ),
        words::has(args, "tilt"@, JsonView::Unsigned(p)) ==> driver::commanded(
            inst,
            "set_tilt"@,
            args,
        ) == (
            inst,
            seq![
                words::written(
                    words::tilting(
                        zone,
                        if p <= 100 {
                            p as int
                        } else {
                            100
                        },
                    ),
                ),
            ],
        ),
        !words::has_number(args, "position"@) ==> driver::commanded(inst, "set_position"@, args)
            == (inst, Seq::<HostCallView>::empty()),
        !words::has_number(args, "tilt"@) ==> driver::commanded(inst, "set_tilt"@, args) == (
            inst,
            Seq::<HostCallView>::empty(),
        ),
        cmd != "open"@ && cmd != "close"@ && cmd != "stop"@ && cmd != "set_position"@ && cmd
            != "set_tilt"@ ==> driver::commanded(inst, cmd, args) == (
            inst,
            Seq::<HostCallView>::empty(),
        ),
{
    lemma_commands();
}

/// A device that was written down without a zone, or with an empty one, is sent nothing: every
/// command is a warning that says why, and notes nothing.
pub proof fn law_nothing_is_sent_without_a_zone(
    inst: InstanceView,
    cmd: Seq<char>,
    args: Map<Seq<char>, JsonView>,
)
    requires
        !words::has_href(inst.properties, "Zone"@),
    ensures
        driver::commanded(inst, cmd, args) == (
            inst,
            seq![
                HostCallView::Log {
                    message:
                        "caseta-leap: this device has no Zone — adopt it through the bridge's setup flow"@,
                },
            ],
        ),
{
}

} // verus!
