//! What every device of this driver has in common: what it knows of itself, what it hears and
//! what it says.

use crate::framing::{self, leap_objects};
use crate::host::{HostCall, HostCallView, Instance, InstanceView, PROXY};
use crate::json::{self, str_of, Dict, Json, JsonView};
use crate::tables::MAX_BUTTONS;
use crate::text;
use vstd::prelude::*;

verus! {

/// The driver for a Smart Bridge and for everything behind it.
#[derive(Debug, Default)]
pub struct CasetaLeap;

/// The text that was written down under `name`, unless it is empty.
pub open spec fn href_of(inst: InstanceView, name: Seq<char>) -> Option<Seq<char>> {
    match json::text_of(inst.property(name)) {
        Some(s) => if s.len() > 0 {
            Some(s)
        } else {
            None
        },
        None => None,
    }
}

/// The zone that a device drives.
pub open spec fn zone_of(inst: InstanceView) -> Option<Seq<char>> {
    href_of(inst, "Zone"@)
}

/// The device's own place on the bridge.
pub open spec fn place_of(inst: InstanceView) -> Option<Seq<char>> {
    href_of(inst, "Device href"@)
}

/// The occupancy group that a device is.
pub open spec fn group_of(inst: InstanceView) -> Option<Seq<char>> {
    href_of(inst, "Occupancy href"@)
}

/// The property under which the href of a remote's key is written down.
pub open spec fn button_property(key: nat) -> Seq<char> {
    "Button "@ + text::decimal(key) + " href"@
}

/// The href of one key of a remote, with the key's number, if it was written down.
pub open spec fn button_of(inst: InstanceView, key: u64) -> Seq<(u64, Seq<char>)> {
    match href_of(inst, button_property(key as nat)) {
        Some(href) => seq![(key, href)],
        None => Seq::empty(),
    }
}

/// The hrefs of a remote's first `count` keys, by number.
pub open spec fn first_buttons(inst: InstanceView, count: nat) -> Seq<(u64, Seq<char>)>
    decreases count,
{
    if count == 0 {
        Seq::empty()
    } else {
        first_buttons(inst, (count - 1) as nat) + button_of(inst, count as u64)
    }
}

/// The hrefs of a remote's keys, by number. Nothing but a remote has any.
pub open spec fn buttons_of(inst: InstanceView) -> Seq<(u64, Seq<char>)> {
    first_buttons(inst, MAX_BUTTONS as nat)
}

fn href(inst: &Instance, name: &str) -> (r: Option<String>)
    ensures
        r.deep_view() == href_of(inst@, name@),
{
    match str_of(inst.property(name)) {
        Some(s) => if s.is_empty() {
            None
        } else {
            Some(s.to_owned())
        },
        None => None,
    }
}

/// The zone that a device drives.
pub fn zone(inst: &Instance) -> (r: Option<String>)
    ensures
        r.deep_view() == zone_of(inst@),
{
    href(inst, "Zone")
}

/// The device's own place on the bridge. Absent on anything that was adopted before it was
/// written down.
pub fn device_href(inst: &Instance) -> (r: Option<String>)
    ensures
        r.deep_view() == place_of(inst@),
{
    href(inst, "Device href")
}

/// The occupancy group that a device is, which is how everything else tells itself apart from
/// one.
pub fn occupancy_href(inst: &Instance) -> (r: Option<String>)
    ensures
        r.deep_view() == group_of(inst@),
{
    href(inst, "Occupancy href")
}

/// The name of the property for a key.
pub fn button_name(key: u64) -> (r: String)
    ensures
        r@ == button_property(key as nat),
{
    let mut r = "Button ".to_owned();
    r.append(text::to_decimal(key).as_str());
    r.append(" href");
    r
}

/// The hrefs of a remote's keys, by number.
pub fn pico_buttons(inst: &Instance) -> (r: Vec<(u64, String)>)
    ensures
        r.deep_view() == buttons_of(inst@),
{
    let mut out: Vec<(u64, String)> = Vec::new();
    let mut key: u64 = 0;
    assert(out.deep_view() =~= first_buttons(inst@, 0));
    while key < MAX_BUTTONS as u64
        invariant
            key <= MAX_BUTTONS,
            out.deep_view() == first_buttons(inst@, key as nat),
        decreases MAX_BUTTONS - key,
    {
        key += 1;
        let ghost before = out.deep_view();
        let name = button_name(key);
        match href(inst, name.as_str()) {
            Some(s) => {
                out.push((key, s));
                assert(out.deep_view() =~= before.push((key, s@)));
            },
            None => {},
        }
        assert(out.deep_view() =~= before + button_of(inst@, key));
    }
    out
}

/// A notification on the proxy that every device presents.
pub open spec fn notification(name: Seq<char>, args: Map<Seq<char>, JsonView>) -> HostCallView {
    HostCallView::Notify { proxy: PROXY, name, args }
}

/// Tell the house what happened.
pub fn notify(name: &str, args: Dict) -> (r: HostCall)
    ensures
        r.deep_view() == notification(name@, args@),
{
    HostCall::Notify { proxy: PROXY, name: name.to_owned(), args }
}

/// Warn whoever reads the log.
pub fn warn(message: &str) -> (r: HostCall)
    ensures
        r.deep_view() == (HostCallView::Log { message: message@ }),
{
    HostCall::Log { message: message.to_owned() }
}

/// The messages that an event brings: those in what was received, if the event is that something
/// was received.
pub open spec fn heard(note: Seq<char>, args: Map<Seq<char>, JsonView>) -> Option<Seq<JsonView>> {
    if note == "rx"@ {
        match json::text_of(json::find(args, "data"@)) {
            Some(t) => Some(framing::messages(t)),
            None => None,
        }
    } else {
        None
    }
}

/// The messages that an event brings.
pub fn hear(note: &str, args: &Dict) -> (r: Option<Vec<Json>>)
    ensures
        r.deep_view() == heard(note@, args@),
{
    if !text::same(note, "rx") {
        return None;
    }
    match str_of(args.get("data")) {
        Some(t) => Some(leap_objects(t)),
        None => None,
    }
}

/// What a device is and what it says after it took in some messages one after the other, where
/// `step` says what becomes of one.
pub open spec fn replay(
    inst: InstanceView,
    msgs: Seq<JsonView>,
    step: spec_fn(InstanceView, JsonView) -> (InstanceView, Seq<HostCallView>),
) -> (InstanceView, Seq<HostCallView>)
    decreases msgs.len(),
{
    if msgs.len() == 0 {
        (inst, Seq::empty())
    } else {
        let before = replay(inst, msgs.drop_last(), step);
        let after = step(before.0, msgs.last());
        (after.0, before.1 + after.1)
    }
}

/// No calls at all.
pub fn nothing() -> (r: Vec<HostCall>)
    ensures
        r.deep_view() == Seq::<HostCallView>::empty(),
{
    let r: Vec<HostCall> = Vec::new();
    assert(r.deep_view() =~= Seq::<HostCallView>::empty());
    r
}

/// One call.
pub fn only(call: HostCall) -> (r: Vec<HostCall>)
    ensures
        r.deep_view() == seq![call.deep_view()],
{
    let r: Vec<HostCall> = vec![call];
    assert(r.deep_view() =~= seq![call.deep_view()]);
    r
}

/// Put these calls after those.
pub fn extend(calls: &mut Vec<HostCall>, more: Vec<HostCall>)
    ensures
        final(calls).deep_view() == old(calls).deep_view() + more.deep_view(),
{
    let mut rest = more;
    calls.append(&mut rest);
    assert(calls.deep_view() =~= old(calls).deep_view() + more.deep_view());
}

} // verus!
