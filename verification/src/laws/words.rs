//! The words that the laws speak in: what is written to the wire, what the house is told and what
//! a device is, each spelled out.

use crate::codec;
use crate::host::{HostCallView, InstanceView};
use crate::json::JsonView;
use vstd::prelude::*;

verus! {

/// A message that is written to the driver's own connection, as one line.
pub open spec fn written(msg: JsonView) -> HostCallView {
    HostCallView::Tx {
        control: 0,
        data: vstd::utf8::encode_utf8(codec::printed(msg).push('\n')),
    }
}

/// A notification with one argument.
pub open spec fn told(name: Seq<char>, key: Seq<char>, value: JsonView) -> HostCallView {
    HostCallView::Notify { proxy: 1, name, args: map![key => value] }
}

/// A request to read something.
pub open spec fn reading(url: Seq<char>) -> JsonView {
    JsonView::Object(
        map![
            "CommuniqueType"@ => JsonView::Text("ReadRequest"@),
            "Header"@ => JsonView::Object(map!["Url"@ => JsonView::Text(url)]),
        ],
    )
}

/// A request to keep hearing about something.
pub open spec fn subscribing(url: Seq<char>) -> JsonView {
    JsonView::Object(
        map![
            "CommuniqueType"@ => JsonView::Text("SubscribeRequest"@),
            "Header"@ => JsonView::Object(map!["Url"@ => JsonView::Text(url)]),
        ],
    )
}

/// A command for the thing at `href`.
pub open spec fn commanding(href: Seq<char>, command: Map<Seq<char>, JsonView>) -> JsonView {
    JsonView::Object(
        map![
            "CommuniqueType"@ => JsonView::Text("CreateRequest"@),
            "Header"@ => JsonView::Object(
                map!["Url"@ => JsonView::Text(href + "/commandprocessor"@)],
            ),
            "Body"@ => JsonView::Object(map!["Command"@ => JsonView::Object(command)]),
        ],
    )
}

/// The command to go to a brightness, with how long it takes in hours, minutes and seconds.
pub open spec fn dimming(zone: Seq<char>, level: int, fade: Seq<char>) -> JsonView {
    commanding(
        zone,
        map![
            "CommandType"@ => JsonView::Text("GoToDimmedLevel"@),
            "DimmedLevelParameters"@ => JsonView::Object(
                map![
                    "Level"@ => JsonView::Unsigned(level as u64),
                    "FadeTime"@ => JsonView::Text(fade),
                ],
            ),
        ],
    )
}

/// The command to go to a level at once.
pub open spec fn leveling(zone: Seq<char>, level: int) -> JsonView {
    commanding(
        zone,
        map![
            "CommandType"@ => JsonView::Text("GoToLevel"@),
            "Parameter"@ => JsonView::Array(
                seq![
                    JsonView::Object(
                        map![
                            "Type"@ => JsonView::Text("Level"@),
                            "Value"@ => JsonView::Unsigned(level as u64),
                        ],
                    ),
                ],
            ),
        ],
    )
}

/// The command to run a fan at a speed of Lutron's.
pub open spec fn spinning(zone: Seq<char>, speed: Seq<char>) -> JsonView {
    commanding(
        zone,
        map![
            "CommandType"@ => JsonView::Text("GoToFanSpeed"@),
            "FanSpeedParameters"@ => JsonView::Object(map!["FanSpeed"@ => JsonView::Text(speed)]),
        ],
    )
}

/// The command to tilt the slats of a shade.
pub open spec fn tilting(zone: Seq<char>, tilt: int) -> JsonView {
    commanding(
        zone,
        map![
            "CommandType"@ => JsonView::Text("GoToTilt"@),
            "TiltParameters"@ => JsonView::Object(map!["Tilt"@ => JsonView::Unsigned(tilt as u64)]),
        ],
    )
}

/// Whether this is what the step `0` of a path leads to: the first of a list, or what an object has
/// under that name.
pub open spec fn leads_to(value: JsonView, item: JsonView) -> bool {
    match value {
        JsonView::Array(items) => items.len() > 0 && items[0] == item,
        JsonView::Object(members) => has(members, "0"@, item),
        _ => false,
    }
}

/// Whether a map has this value at this name.
pub open spec fn has(map: Map<Seq<char>, JsonView>, name: Seq<char>, value: JsonView) -> bool {
    map.contains_key(name) && map[name] == value
}

/// Whether a map has a text at this name.
pub open spec fn has_text(map: Map<Seq<char>, JsonView>, name: Seq<char>) -> bool {
    map.contains_key(name) && map[name] is Text
}

/// Whether a map has a whole number from zero up at this name.
pub open spec fn has_number(map: Map<Seq<char>, JsonView>, name: Seq<char>) -> bool {
    map.contains_key(name) && map[name] is Unsigned
}

/// Whether a map has a text that is not empty at this name.
pub open spec fn has_href(map: Map<Seq<char>, JsonView>, name: Seq<char>) -> bool {
    has_text(map, name) && map[name]->Text_0.len() > 0
}

/// Whether a device drives this zone.
pub open spec fn drives(inst: InstanceView, zone: Seq<char>) -> bool {
    has(inst.properties, "Zone"@, JsonView::Text(zone)) && zone.len() > 0
}

/// Whether a device was written down as this kind of zone.
pub open spec fn is_a(inst: InstanceView, kind: Seq<char>) -> bool {
    has(inst.properties, "Kind"@, JsonView::Text(kind))
}

/// Whether a device is a light: it was written down as none of the others.
pub open spec fn is_a_light(inst: InstanceView) -> bool {
    !is_a(inst, "switch"@) && !is_a(inst, "fan"@) && !is_a(inst, "shade"@)
}

/// Whether a device was noted to be on.
pub open spec fn is_on(inst: InstanceView) -> bool {
    has(inst.scratch, "on"@, JsonView::Bool(true))
}

/// A device with one more note.
pub open spec fn noting(inst: InstanceView, name: Seq<char>, value: JsonView) -> InstanceView {
    InstanceView { properties: inst.properties, scratch: inst.scratch.insert(name, value) }
}

/// The character of a decimal digit.
pub open spec fn digit_char(d: int) -> char {
    if d == 0 {
        '0'
    } else if d == 1 {
        '1'
    } else if d == 2 {
        '2'
    } else if d == 3 {
        '3'
    } else if d == 4 {
        '4'
    } else if d == 5 {
        '5'
    } else if d == 6 {
        '6'
    } else if d == 7 {
        '7'
    } else if d == 8 {
        '8'
    } else {
        '9'
    }
}

/// Two decimal digits.
pub open spec fn two_digits(n: int) -> Seq<char> {
    seq![digit_char(n / 10), digit_char(n % 10)]
}

} // verus!
