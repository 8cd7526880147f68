//! The live connection of one zone: what a command sends, and the status that keeps the house in
//! step.

use crate::device::{self, extend, hear, nothing, notify, only, warn, zone, CasetaLeap};
use crate::framing::{self, tx};
use crate::host::{HostCall, HostCallView, Instance, InstanceView};
use crate::json::{
    self, dict1, dict2, str_of, str_or_empty, string, truth_of, u64_of, Dict, Json, JsonView,
};
use crate::messages::{
    self, go_to_fan_speed, go_to_level, go_to_plain_level, go_to_tilt, shade_move, stop_fan,
};
use crate::tables::{self, to_house_speed, Kind, RAMP_SECS, SLOWEST};
use crate::text;
use vstd::prelude::*;

verus! {

/// What is said to a command for a device that has no zone.
pub const NO_ZONE: &'static str =
    "caseta-leap: this device has no Zone — adopt it through the bridge's setup flow";

/// The one complaint worth making when a zone device has no zone: it was adopted by hand rather
/// than through the bridge that knows its hrefs.
pub open spec fn unzoned_calls() -> Seq<HostCallView> {
    seq![HostCallView::Log { message: NO_ZONE@ }]
}

/// The complaint of a device without a zone.
pub fn unzoned() -> (r: Vec<HostCall>)
    ensures
        r.deep_view() == unzoned_calls(),
{
    only(warn(NO_ZONE))
}

/// A single message to the bridge.
pub open spec fn sent(msg: JsonView) -> Seq<HostCallView> {
    seq![framing::transmission(msg)]
}

/// Whether the device was last noted to be on.
pub open spec fn noted_on(inst: InstanceView) -> bool {
    json::bool_of(json::find(inst.scratch, "on"@)) == Some(true)
}

/// The level that was last noted, if any.
pub open spec fn noted_level(inst: InstanceView) -> Option<u64> {
    json::unsigned_of(json::find(inst.scratch, "level"@))
}

fn is_noted_on(inst: &Instance) -> (r: bool)
    ensures
        r == noted_on(inst@),
{
    match truth_of(inst.scratch.get("on")) {
        Some(on) => on,
        None => false,
    }
}

/// The least significant byte of a number.
pub open spec fn low_byte(n: u64) -> u8 {
    (n % 256) as u8
}

fn to_low_byte(n: u64) -> (r: u8)
    ensures
        r == low_byte(n),
{
    (n % 256) as u8
}

/// A percentage: the number itself, but no more than a hundred.
pub open spec fn percentage(n: u64) -> u8 {
    if n > 100 {
        100
    } else {
        n as u8
    }
}

fn to_percentage(n: u64) -> (r: u8)
    ensures
        r == percentage(n),
{
    if n > 100 {
        100
    } else {
        n as u8
    }
}

/// What a command leaves a switch at.
pub open spec fn switch_target(inst: InstanceView, cmd: Seq<char>) -> Option<bool> {
    if cmd == "on"@ {
        Some(true)
    } else if cmd == "off"@ {
        Some(false)
    } else if cmd == "toggle"@ {
        Some(!noted_on(inst))
    } else {
        None
    }
}

/// What a command to a switch sends.
pub open spec fn switch_calls(inst: InstanceView, cmd: Seq<char>) -> Seq<HostCallView> {
    match device::zone_of(inst) {
        None => unzoned_calls(),
        Some(z) => match switch_target(inst, cmd) {
            Some(on) => sent(
                messages::level_view(
                    z,
                    if on {
                        100
                    } else {
                        0
                    },
                ),
            ),
            None => Seq::empty(),
        },
    }
}

/// The speed that a fan returns to when it is turned on: the one it last ran at, or the slowest.
pub open spec fn remembered_speed(inst: InstanceView) -> Seq<char> {
    match json::text_of(json::find(inst.scratch, "speed"@)) {
        Some(speed) => speed,
        None => SLOWEST@,
    }
}

/// What turning a fan on sends.
pub open spec fn fan_on_calls(inst: InstanceView, z: Seq<char>) -> Seq<HostCallView> {
    match tables::leap_speed(remembered_speed(inst)) {
        Some(theirs) => sent(messages::fan_view(z, theirs)),
        None => Seq::empty(),
    }
}

/// What a command to a fan sends.
pub open spec fn fan_calls(
    inst: InstanceView,
    cmd: Seq<char>,
    args: Map<Seq<char>, JsonView>,
) -> Seq<HostCallView> {
    match device::zone_of(inst) {
        None => unzoned_calls(),
        Some(z) => {
            if cmd == "off"@ || (cmd == "toggle"@ && noted_on(inst)) {
                sent(messages::fan_view(z, "Off"@))
            } else if cmd == "on"@ || cmd == "toggle"@ {
                fan_on_calls(inst, z)
            } else if cmd == "set_speed"@ {
                match json::text_of(json::find(args, "speed"@)) {
                    None => Seq::empty(),
                    Some(speed) => match tables::leap_speed(speed) {
                        Some(theirs) => sent(messages::fan_view(z, theirs)),
                        None => seq![
                            HostCallView::Log {
                                message: "caseta-leap: this fan has no speed called `"@ + speed
                                    + "`"@,
                            },
                        ],
                    },
                }
            } else {
                Seq::empty()
            }
        },
    }
}

/// What a command to a shade sends. Open and close are the ends of its travel.
pub open spec fn shade_calls(
    inst: InstanceView,
    cmd: Seq<char>,
    args: Map<Seq<char>, JsonView>,
) -> Seq<HostCallView> {
    match device::zone_of(inst) {
        None => unzoned_calls(),
        Some(z) => {
            if cmd == "open"@ {
                sent(messages::level_view(z, 100))
            } else if cmd == "close"@ {
                sent(messages::level_view(z, 0))
            } else if cmd == "stop"@ {
                sent(messages::verb_view(z, "Stop"@))
            } else if cmd == "set_position"@ {
                match json::unsigned_of(json::find(args, "position"@)) {
                    Some(p) => sent(messages::level_view(z, percentage(p))),
                    None => Seq::empty(),
                }
            } else if cmd == "set_tilt"@ {
                match json::unsigned_of(json::find(args, "tilt"@)) {
                    Some(t) => sent(messages::tilt_view(z, percentage(t))),
                    None => Seq::empty(),
                }
            } else {
                Seq::empty()
            }
        },
    }
}

/// How many seconds a light takes to fade: what the command asks for, what was written down for
/// the device, or one.
pub open spec fn fade_of(inst: InstanceView, args: Map<Seq<char>, JsonView>) -> u64 {
    match json::unsigned_of(json::find(args, "ramp_ms"@)) {
        Some(ms) => ms / 1000,
        None => match json::unsigned_of(inst.property("Default fade"@)) {
            Some(secs) => secs,
            None => 1,
        },
    }
}

/// The brightness a light was last noted at, or full.
pub open spec fn last_level(inst: InstanceView) -> u8 {
    match noted_level(inst) {
        Some(n) => low_byte(n),
        None => 100,
    }
}

/// The brightness a light returns to when it is turned on.
pub open spec fn on_level(inst: InstanceView) -> u8 {
    if last_level(inst) == 0 {
        100
    } else {
        last_level(inst)
    }
}

/// What a command leaves a light at, for those that say.
pub open spec fn light_target(
    inst: InstanceView,
    cmd: Seq<char>,
    args: Map<Seq<char>, JsonView>,
) -> Option<u8> {
    if cmd == "on"@ {
        Some(on_level(inst))
    } else if cmd == "off"@ {
        Some(0)
    } else if cmd == "toggle"@ {
        Some(
            if noted_on(inst) {
                0
            } else {
                on_level(inst)
            },
        )
    } else if cmd == "set_level"@ {
        Some(
            match json::unsigned_of(json::find(args, "level"@)) {
                Some(n) => low_byte(n),
                None => 0,
            },
        )
    } else {
        None
    }
}

/// A device that was noted to be on at a level, or off. The level that it was on at is kept while
/// it is off.
pub open spec fn noting_level(inst: InstanceView, level: u8) -> InstanceView {
    let scratch = if level > 0 {
        inst.scratch.insert("level"@, JsonView::Unsigned(level as u64))
    } else {
        inst.scratch
    };
    InstanceView { scratch: scratch.insert("on"@, JsonView::Bool(level > 0)), ..inst }
}

/// The notification of a light's level.
pub open spec fn level_report(level: u8) -> HostCallView {
    device::notification("level_changed"@, map!["level"@ => JsonView::Unsigned(level as u64)])
}

/// What becomes of a light on a command, and what the command sends.
///
/// A ramp fades toward an end of the travel and waits to be stopped: it reports nothing and notes
/// nothing, because it has not arrived anywhere. Stopping holds the light where the bridge last
/// said it was.
pub open spec fn light_command(
    inst: InstanceView,
    cmd: Seq<char>,
    args: Map<Seq<char>, JsonView>,
) -> (InstanceView, Seq<HostCallView>) {
    match device::zone_of(inst) {
        None => (inst, unzoned_calls()),
        Some(z) => match light_target(inst, cmd, args) {
            Some(level) => (
                noting_level(inst, level),
                seq![
                    framing::transmission(messages::dim_view(z, level, fade_of(inst, args))),
                    level_report(level),
                ],
            ),
            None => {
                if cmd == "ramp_start"@ {
                    let up = json::text_of(json::find(args, "direction"@)) == Some("up"@);
                    (
                        inst,
                        sent(
                            messages::dim_view(
                                z,
                                if up {
                                    100
                                } else {
                                    1
                                },
                                RAMP_SECS,
                            ),
                        ),
                    )
                } else if cmd == "ramp_stop"@ {
                    (inst, sent(messages::dim_view(z, last_level(inst), 0)))
                } else {
                    (
                        inst,
                        seq![
                            HostCallView::Log {
                                message: "caseta-leap: unhandled `"@ + cmd + "`"@,
                            },
                        ],
                    )
                }
            },
        },
    }
}

/// Tell the house a light's level.
pub fn report(level: u8) -> (r: HostCall)
    ensures
        r.deep_view() == level_report(level),
{
    notify("level_changed", dict1("level", Json::Unsigned(level as u64)))
}

fn backquoted(before: &str, word: &str) -> (r: String)
    ensures
        r@ == before@ + word@ + "`"@,
{
    let mut r = before.to_owned();
    r.append(word);
    r.append("`");
    r
}

fn note_level(inst: &mut Instance, level: u8)
    ensures
        final(inst)@ == noting_level(old(inst)@, level),
{
    if level > 0 {
        inst.scratch.insert("level", Json::Unsigned(level as u64));
    }
    inst.scratch.insert("on", Json::Bool(level > 0));
}

impl CasetaLeap {
    /// A switched load. There is no dimmer to fade, and the level is the only two values it
    /// holds. A toggle inverts what it was last noted at: the bridge has none of its own.
    pub fn on_switch_command(inst: &Instance, cmd: &str) -> (r: Vec<HostCall>)
        ensures
            r.deep_view() == switch_calls(inst@, cmd@),
    {
        let z = match zone(inst) {
            Some(z) => z,
            None => return unzoned(),
        };
        let on: bool = if text::same(cmd, "on") {
            true
        } else if text::same(cmd, "off") {
            false
        } else if text::same(cmd, "toggle") {
            !is_noted_on(inst)
        } else {
            return nothing();
        };
        let level: u8 = if on {
            100
        } else {
            0
        };
        only(tx(&go_to_plain_level(z.as_str(), level)))
    }

    /// A fan. Stopping is a command and no speed; turning it on returns it to the speed it was
    /// last on.
    pub fn on_fan_command(inst: &Instance, cmd: &str, args: &Dict) -> (r: Vec<HostCall>)
        ensures
            r.deep_view() == fan_calls(inst@, cmd@, args@),
    {
        let z = match zone(inst) {
            Some(z) => z,
            None => return unzoned(),
        };
        let toggle: bool = text::same(cmd, "toggle");
        if text::same(cmd, "off") || (toggle && is_noted_on(inst)) {
            only(tx(&stop_fan(z.as_str())))
        } else if text::same(cmd, "on") || toggle {
            let last = match str_of(inst.scratch.get("speed")) {
                Some(speed) => speed,
                None => SLOWEST,
            };
            match go_to_fan_speed(z.as_str(), last) {
                Some(msg) => only(tx(&msg)),
                None => nothing(),
            }
        } else if text::same(cmd, "set_speed") {
            match str_of(args.get("speed")) {
                None => nothing(),
                Some(speed) => match go_to_fan_speed(z.as_str(), speed) {
                    Some(msg) => only(tx(&msg)),
                    None => {
                        let said = backquoted("caseta-leap: this fan has no speed called `", speed);
                        only(warn(said.as_str()))
                    },
                },
            }
        } else {
            nothing()
        }
    }

    /// A shade. Open and close are the ends of its travel rather than commands of their own;
    /// stopping is the motor's own verb.
    pub fn on_shade_command(inst: &Instance, cmd: &str, args: &Dict) -> (r: Vec<HostCall>)
        ensures
            r.deep_view() == shade_calls(inst@, cmd@, args@),
    {
        let z = match zone(inst) {
            Some(z) => z,
            None => return unzoned(),
        };
        if text::same(cmd, "open") {
            only(tx(&go_to_plain_level(z.as_str(), 100)))
        } else if text::same(cmd, "close") {
            only(tx(&go_to_plain_level(z.as_str(), 0)))
        } else if text::same(cmd, "stop") {
            only(tx(&shade_move(z.as_str(), "Stop")))
        } else if text::same(cmd, "set_position") {
            match u64_of(args.get("position")) {
                Some(p) => only(tx(&go_to_plain_level(z.as_str(), to_percentage(p)))),
                None => nothing(),
            }
        } else if text::same(cmd, "set_tilt") {
            match u64_of(args.get("tilt")) {
                Some(t) => only(tx(&go_to_tilt(z.as_str(), to_percentage(t)))),
                None => nothing(),
            }
        } else {
            nothing()
        }
    }

    /// A dimmed light.
    pub fn on_dimmer_command(inst: &mut Instance, cmd: &str, args: &Dict) -> (r: Vec<HostCall>)
        ensures
            (final(inst)@, r.deep_view()) == light_command(old(inst)@, cmd@, args@),
    {
        let z = match zone(inst) {
            Some(z) => z,
            None => return unzoned(),
        };
        let fade: u64 = match u64_of(args.get("ramp_ms")) {
            Some(ms) => ms / 1000,
            None => match u64_of(inst.property("Default fade")) {
                Some(secs) => secs,
                None => 1,
            },
        };
        let last: u8 = match u64_of(inst.scratch.get("level")) {
            Some(n) => to_low_byte(n),
            None => 100,
        };
        let on_at: u8 = if last == 0 {
            100
        } else {
            last
        };
        let level: u8 = if text::same(cmd, "on") {
            on_at
        } else if text::same(cmd, "off") {
            0
        } else if text::same(cmd, "toggle") {
            if is_noted_on(inst) {
                0
            } else {
                on_at
            }
        } else if text::same(cmd, "set_level") {
            match u64_of(args.get("level")) {
                Some(n) => to_low_byte(n),
                None => 0,
            }
        } else if text::same(cmd, "ramp_start") {
            let up: bool = match str_of(args.get("direction")) {
                Some(direction) => text::same(direction, "up"),
                None => false,
            };
            let end: u8 = if up {
                100
            } else {
                1
            };
            return only(tx(&go_to_level(z.as_str(), end, RAMP_SECS)));
        } else if text::same(cmd, "ramp_stop") {
            return only(tx(&go_to_level(z.as_str(), last, 0)));
        } else {
            let said = backquoted("caseta-leap: unhandled `", cmd);
            return only(warn(said.as_str()));
        };
        note_level(inst, level);
        let calls: Vec<HostCall> = vec![tx(&go_to_level(z.as_str(), level, fade)), report(level)];
        assert(calls.deep_view() =~= light_command(old(inst)@, cmd@, args@).1);
        calls
    }
}

/// Nothing comes of it.
pub open spec fn unmoved(inst: InstanceView) -> (InstanceView, Seq<HostCallView>) {
    (inst, Seq::empty())
}

/// Whether the house knows already what a fan does: the speed that was noted is the one that it
/// runs at, or none was ever noted and it stands still. A fan that stops while a speed is
/// remembered is told of each time.
pub open spec fn knows_speed(inst: InstanceView, ours: Option<Seq<char>>) -> bool {
    &&& json::text_of(json::find(inst.scratch, "speed"@)) == ours
    &&& json::bool_of(json::find(inst.scratch, "on"@)) == Some(ours is Some)
}

/// What becomes of a fan on its zone's status: the speed is a word of Lutron's, and a fan that
/// stops keeps the speed to return to.
pub open spec fn fan_status(inst: InstanceView, status: JsonView) -> (
    InstanceView,
    Seq<HostCallView>,
) {
    match json::text_of(status.get("FanSpeed"@)) {
        None => unmoved(inst),
        Some(theirs) => {
            let ours = tables::house_speed(theirs);
            let running = JsonView::Bool(ours is Some);
            if knows_speed(inst, ours) {
                unmoved(inst)
            } else {
                let scratch = match ours {
                    Some(speed) => inst.scratch.insert("speed"@, JsonView::Text(speed)),
                    None => inst.scratch,
                };
                let said = match ours {
                    Some(speed) => speed,
                    None => "off"@,
                };
                (
                    InstanceView { scratch: scratch.insert("on"@, running), ..inst },
                    seq![
                        device::notification(
                            "speed_changed"@,
                            map!["speed"@ => JsonView::Text(said), "on"@ => running],
                        ),
                    ],
                )
            }
        },
    }
}

/// What becomes of a device when a percentage that it notes under `key` was reported: the house is
/// told as `name` with the argument `arg`, unless it was known already.
pub open spec fn percentage_status(
    inst: InstanceView,
    reported: Option<JsonView>,
    key: Seq<char>,
    name: Seq<char>,
    arg: Seq<char>,
) -> (InstanceView, Seq<HostCallView>) {
    match json::unsigned_of(reported) {
        None => unmoved(inst),
        Some(n) => {
            let p = percentage(n) as u64;
            if json::unsigned_of(json::find(inst.scratch, key)) == Some(p) {
                unmoved(inst)
            } else {
                (
                    InstanceView {
                        scratch: inst.scratch.insert(key, JsonView::Unsigned(p)),
                        ..inst
                    },
                    seq![device::notification(name, map![arg => JsonView::Unsigned(p)])],
                )
            }
        },
    }
}

/// What becomes of a shade on its zone's status: first its slats, then where it is.
pub open spec fn shade_status(inst: InstanceView, status: JsonView) -> (
    InstanceView,
    Seq<HostCallView>,
) {
    let tilted = percentage_status(
        inst,
        status.get("Tilt"@),
        "tilt"@,
        "tilt_changed"@,
        "tilt"@,
    );
    let moved = percentage_status(
        tilted.0,
        status.get("Level"@),
        "level"@,
        "position_changed"@,
        "position"@,
    );
    (moved.0, tilted.1 + moved.1)
}

/// What becomes of a switch on its zone's status.
pub open spec fn switch_status(inst: InstanceView, status: JsonView) -> (
    InstanceView,
    Seq<HostCallView>,
) {
    match json::unsigned_of(status.get("Level"@)) {
        None => unmoved(inst),
        Some(n) => {
            let on = JsonView::Bool(n > 0);
            if json::bool_of(json::find(inst.scratch, "on"@)) == Some(n > 0) {
                unmoved(inst)
            } else {
                (
                    InstanceView { scratch: inst.scratch.insert("on"@, on), ..inst },
                    seq![device::notification("switch_changed"@, map!["on"@ => on])],
                )
            }
        },
    }
}

/// Whether the house knows already that a light is at this level: it is the level that was noted,
/// and the light was not noted to be off since. The level of a light that is off is never noted, so
/// that it is told of each time.
pub open spec fn knows_level(inst: InstanceView, level: u8) -> bool {
    &&& noted_level(inst) == Some(level as u64)
    &&& level > 0 ==> json::bool_of(json::find(inst.scratch, "on"@)) != Some(false)
}

/// What becomes of a light on its zone's status: the house is told, unless it knows already.
pub open spec fn light_status(inst: InstanceView, status: JsonView) -> (
    InstanceView,
    Seq<HostCallView>,
) {
    match json::unsigned_of(status.get("Level"@)) {
        None => unmoved(inst),
        Some(n) => if knows_level(inst, percentage(n)) {
            unmoved(inst)
        } else {
            (noting_level(inst, percentage(n)), seq![level_report(percentage(n))])
        },
    }
}

/// What becomes of a device on its zone's status, by its kind.
pub open spec fn zone_status(inst: InstanceView, status: JsonView) -> (
    InstanceView,
    Seq<HostCallView>,
) {
    match tables::kind_of(inst) {
        Kind::Light => light_status(inst, status),
        Kind::Switch => switch_status(inst, status),
        Kind::Fan => fan_status(inst, status),
        Kind::Shade => shade_status(inst, status),
    }
}

/// What becomes of a device on a message: only the status of its own zone moves it.
pub open spec fn zone_message(inst: InstanceView, msg: JsonView) -> (
    InstanceView,
    Seq<HostCallView>,
) {
    match (device::zone_of(inst), msg.get2("Body"@, "ZoneStatus"@)) {
        (Some(mine), Some(status)) => if json::text_or_empty(status.get2("Zone"@, "href"@))
            == mine {
            zone_status(inst, status)
        } else {
            unmoved(inst)
        },
        _ => unmoved(inst),
    }
}

/// What becomes of a device that takes in some messages one after the other.
pub open spec fn zone_messages(inst: InstanceView, msgs: Seq<JsonView>) -> (
    InstanceView,
    Seq<HostCallView>,
) {
    device::replay(inst, msgs, |i: InstanceView, m: JsonView| zone_message(i, m))
}

/// What becomes of a device on an event.
pub open spec fn zone_event(
    inst: InstanceView,
    note: Seq<char>,
    args: Map<Seq<char>, JsonView>,
) -> (InstanceView, Seq<HostCallView>) {
    match device::heard(note, args) {
        Some(msgs) => zone_messages(inst, msgs),
        None => unmoved(inst),
    }
}

fn same_option(a: Option<&str>, b: Option<&str>) -> (r: bool)
    ensures
        r == (a.deep_view() == b.deep_view()),
{
    match (a, b) {
        (Some(x), Some(y)) => text::same(x, y),
        (None, None) => true,
        _ => false,
    }
}

fn on_fan_status(inst: &mut Instance, status: &Json) -> (r: Vec<HostCall>)
    ensures
        (final(inst)@, r.deep_view()) == fan_status(old(inst)@, status@),
{
    let theirs = match str_of(status.get("FanSpeed")) {
        Some(theirs) => theirs,
        None => return nothing(),
    };
    let ours = to_house_speed(theirs);
    let running: bool = ours.is_some();
    if same_option(str_of(inst.scratch.get("speed")), ours) && truth_of(inst.scratch.get("on"))
        == Some(running) {
        return nothing();
    }
    let said = match ours {
        Some(speed) => {
            inst.scratch.insert("speed", string(speed));
            speed
        },
        None => "off",
    };
    inst.scratch.insert("on", Json::Bool(running));
    only(notify("speed_changed", dict2("speed", string(said), "on", Json::Bool(running))))
}

fn on_percentage(
    inst: &mut Instance,
    reported: Option<&Json>,
    key: &str,
    name: &str,
    arg: &str,
) -> (r: Vec<HostCall>)
    ensures
        (final(inst)@, r.deep_view()) == percentage_status(
            old(inst)@,
            reported.deep_view(),
            key@,
            name@,
            arg@,
        ),
{
    let p: u64 = match u64_of(reported) {
        Some(n) => to_percentage(n) as u64,
        None => return nothing(),
    };
    if u64_of(inst.scratch.get(key)) == Some(p) {
        return nothing();
    }
    inst.scratch.insert(key, Json::Unsigned(p));
    only(notify(name, dict1(arg, Json::Unsigned(p))))
}

fn on_shade_status(inst: &mut Instance, status: &Json) -> (r: Vec<HostCall>)
    ensures
        (final(inst)@, r.deep_view()) == shade_status(old(inst)@, status@),
{
    let mut out = on_percentage(inst, status.get("Tilt"), "tilt", "tilt_changed", "tilt");
    let more = on_percentage(inst, status.get("Level"), "level", "position_changed", "position");
    extend(&mut out, more);
    out
}

fn on_switch_status(inst: &mut Instance, status: &Json) -> (r: Vec<HostCall>)
    ensures
        (final(inst)@, r.deep_view()) == switch_status(old(inst)@, status@),
{
    let on: bool = match u64_of(status.get("Level")) {
        Some(n) => n > 0,
        None => return nothing(),
    };
    if truth_of(inst.scratch.get("on")) == Some(on) {
        return nothing();
    }
    inst.scratch.insert("on", Json::Bool(on));
    only(notify("switch_changed", dict1("on", Json::Bool(on))))
}

fn on_light_status(inst: &mut Instance, status: &Json) -> (r: Vec<HostCall>)
    ensures
        (final(inst)@, r.deep_view()) == light_status(old(inst)@, status@),
{
    let level: u8 = match u64_of(status.get("Level")) {
        Some(n) => to_percentage(n),
        None => return nothing(),
    };
    if u64_of(inst.scratch.get("level")) == Some(level as u64) && (level == 0 || truth_of(
        inst.scratch.get("on"),
    ) != Some(false)) {
        return nothing();
    }
    note_level(inst, level);
    only(report(level))
}

/// Take in one message: only the status of the device's own zone moves it. What a zone reports
/// depends on what is on the end of it, and so does what this owes the house.
pub fn on_zone_message(inst: &mut Instance, msg: &Json) -> (r: Vec<HostCall>)
    ensures
        (final(inst)@, r.deep_view()) == zone_message(old(inst)@, msg@),
{
    let mine = match zone(inst) {
        Some(mine) => mine,
        None => return nothing(),
    };
    let status = match msg.get2("Body", "ZoneStatus") {
        Some(status) => status,
        None => return nothing(),
    };
    if !text::same(str_or_empty(status.get2("Zone", "href")), mine.as_str()) {
        return nothing();
    }
    match Kind::of(inst) {
        Kind::Light => on_light_status(inst, status),
        Kind::Switch => on_switch_status(inst, status),
        Kind::Fan => on_fan_status(inst, status),
        Kind::Shade => on_shade_status(inst, status),
    }
}

/// Take in some messages one after the other.
pub fn on_zone_messages(inst: &mut Instance, msgs: &Vec<Json>) -> (r: Vec<HostCall>)
    ensures
        (final(inst)@, r.deep_view()) == zone_messages(old(inst)@, msgs.deep_view()),
{
    let ghost all = msgs.deep_view();
    let ghost start = inst@;
    let mut out = nothing();
    let mut i: usize = 0;
    assert(all.take(0) =~= Seq::<JsonView>::empty());
    while i < msgs.len()
        invariant
            i <= msgs@.len(),
            all == msgs.deep_view(),
            (inst@, out.deep_view()) == zone_messages(start, all.take(i as int)),
        decreases msgs@.len() - i,
    {
        proof {
            assert(all.take(i + 1).drop_last() =~= all.take(i as int));
            assert(all.take(i + 1).last() == msgs@[i as int]@);
        }
        let more = on_zone_message(inst, &msgs[i]);
        extend(&mut out, more);
        i += 1;
    }
    assert(all.take(i as int) =~= all);
    out
}

impl CasetaLeap {
    /// What a zone hears.
    pub fn on_dimmer_event(inst: &mut Instance, note: &str, args: &Dict) -> (r: Vec<HostCall>)
        ensures
            (final(inst)@, r.deep_view()) == zone_event(old(inst)@, note@, args@),
    {
        match hear(note, args) {
            Some(msgs) => on_zone_messages(inst, &msgs),
            None => nothing(),
        }
    }
}

} // verus!
