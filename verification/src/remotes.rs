//! A battery remote: what its keys do, and how its cell is doing.

use crate::device::{
    self, device_href, extend, hear, nothing, notify, only, pico_buttons, CasetaLeap,
};
use crate::host::{HostCall, HostCallView, Instance, InstanceView, PROXY};
use crate::json::{self, dict1, str_of, str_or_empty, string, truth_of, Dict, Json, JsonView};
use crate::tables::{self, battery_percent, HOLD_MS};
use crate::text;
use vstd::prelude::*;

verus! {

/// The name of one key's hold clock, and of the flag that says it went off. The same text is
/// both, so that there is no second place for them to disagree.
pub open spec fn clock_of(key: u64) -> Seq<char> {
    "held:"@ + text::decimal(key as nat)
}

/// Whether a key crossed into a hold.
pub open spec fn is_held(inst: InstanceView, key: u64) -> bool {
    json::bool_of(json::find(inst.scratch, clock_of(key))) == Some(true)
}

/// The name of the note that one key's running clock is void: the key was let go before it went
/// off.
pub open spec fn void_of(key: u64) -> Seq<char> {
    "void:"@ + text::decimal(key as nat)
}

/// Whether a key was let go before its clock went off, so that the wake-up means nothing.
pub open spec fn is_void(inst: InstanceView, key: u64) -> bool {
    json::bool_of(json::find(inst.scratch, void_of(key))) == Some(true)
}

/// A remote without the note that a key's clock is void.
pub open spec fn unvoided(inst: InstanceView, key: u64) -> InstanceView {
    InstanceView { scratch: inst.scratch.remove(void_of(key)), ..inst }
}

/// The key whose clock went off, if the wake-up is one of those that a press asked for.
pub open spec fn woken_key(args: Map<Seq<char>, JsonView>) -> Option<u64> {
    match json::text_of(json::find(args, "note"@)) {
        Some(note) => if "held:"@.is_prefix_of(note) {
            match text::spelled(note.skip("held:"@.len() as int), u64::MAX as nat) {
                Some(n) => Some(n as u64),
                None => None,
            }
        } else {
            None
        },
        None => None,
    }
}

/// What the house learns of a key: what happened, and the same in words to show.
pub open spec fn key_calls(key: u64, name: Seq<char>) -> Seq<HostCallView> {
    seq![
        device::notification(name, map!["key"@ => JsonView::Unsigned(key)]),
        HostCallView::SetState {
            proxy: PROXY,
            key: "last_action"@,
            value: JsonView::Text("key "@ + text::decimal(key as nat) + " "@ + name),
        },
    ]
}

/// What becomes of a remote when a wake-up comes: the key is still down, so it is held. Where it
/// was let go in the meantime, nothing comes of it.
pub open spec fn woken(inst: InstanceView, args: Map<Seq<char>, JsonView>) -> (
    InstanceView,
    Seq<HostCallView>,
) {
    match woken_key(args) {
        Some(key) => if is_void(inst, key) {
            (unvoided(inst, key), Seq::empty())
        } else {
            (
                InstanceView {
                    scratch: inst.scratch.insert(clock_of(key), JsonView::Bool(true)),
                    ..inst
                },
                key_calls(key, "held"@),
            )
        },
        None => (inst, Seq::empty()),
    }
}

/// The number of the first key at `href`.
pub open spec fn key_at(buttons: Seq<(u64, Seq<char>)>, href: Seq<char>) -> Option<u64>
    decreases buttons.len(),
{
    if buttons.len() == 0 {
        None
    } else if buttons[0].1 == href {
        Some(buttons[0].0)
    } else {
        key_at(buttons.drop_first(), href)
    }
}

/// What becomes of a remote when a key is let go: a hold that was reported ends, and anything
/// else was a click all along, whose clock is void from now on.
pub open spec fn let_go(inst: InstanceView, key: u64) -> (InstanceView, Seq<HostCallView>) {
    if is_held(inst, key) {
        (
            InstanceView { scratch: inst.scratch.remove(clock_of(key)), ..inst },
            key_calls(key, "released"@),
        )
    } else {
        (
            InstanceView {
                scratch: inst.scratch.insert(void_of(key), JsonView::Bool(true)),
                ..inst
            },
            key_calls(key, "clicked"@),
        )
    }
}

/// What becomes of a remote on a device's status: the battery, where the status is its own and
/// the level is one that is known.
pub open spec fn battery_calls(inst: InstanceView, status: JsonView) -> Seq<HostCallView> {
    if json::text_of(status.get2("Device"@, "href"@)) == device::place_of(inst) {
        match json::text_of(status.get2("BatteryStatus"@, "LevelState"@)) {
            Some(level) => match tables::percent_of(level) {
                Some(percent) => seq![
                    device::notification(
                        "battery_changed"@,
                        map!["percent"@ => JsonView::Unsigned(percent as u64)],
                    ),
                ],
                None => Seq::empty(),
            },
            None => Seq::empty(),
        }
    } else {
        Seq::empty()
    }
}

/// What becomes of a remote on a button's status, where the button is one of its own: a press
/// starts the key's clock and says nothing yet.
pub open spec fn button_status(inst: InstanceView, status: JsonView) -> (
    InstanceView,
    Seq<HostCallView>,
) {
    match key_at(device::buttons_of(inst), json::text_or_empty(status.get2("Button"@, "href"@))) {
        Some(key) => {
            let event = json::text_of(status.get2("ButtonEvent"@, "EventType"@));
            if event == Some("Press"@) {
                (
                    unvoided(inst, key),
                    seq![HostCallView::After { ms: HOLD_MS, note: clock_of(key) }],
                )
            } else if event == Some("Release"@) {
                let_go(inst, key)
            } else {
                (inst, Seq::empty())
            }
        },
        None => (inst, Seq::empty()),
    }
}

/// What becomes of a remote on a message.
pub open spec fn remote_message(inst: InstanceView, msg: JsonView) -> (
    InstanceView,
    Seq<HostCallView>,
) {
    match (msg.get2("Body"@, "DeviceStatus"@), msg.get2("Body"@, "ButtonStatus"@)) {
        (Some(status), _) => (inst, battery_calls(inst, status)),
        (None, Some(status)) => button_status(inst, status),
        (None, None) => (inst, Seq::empty()),
    }
}

/// What becomes of a remote that takes in some messages one after the other.
pub open spec fn remote_messages(inst: InstanceView, msgs: Seq<JsonView>) -> (
    InstanceView,
    Seq<HostCallView>,
) {
    device::replay(inst, msgs, |i: InstanceView, m: JsonView| remote_message(i, m))
}

/// What becomes of a remote on an event.
pub open spec fn remote_event(
    inst: InstanceView,
    note: Seq<char>,
    args: Map<Seq<char>, JsonView>,
) -> (InstanceView, Seq<HostCallView>) {
    if note == "timer"@ {
        woken(inst, args)
    } else {
        match device::heard(note, args) {
            Some(msgs) => remote_messages(inst, msgs),
            None => (inst, Seq::empty()),
        }
    }
}

/// The name of a key's clock and flag.
pub fn held_note(key: u64) -> (r: String)
    ensures
        r@ == clock_of(key),
{
    let mut r = "held:".to_owned();
    r.append(text::to_decimal(key).as_str());
    r
}

/// Whether this key crossed into a hold. Read on release to decide what the press turned out to
/// be.
pub fn held_flag(inst: &Instance, key: u64) -> (r: bool)
    ensures
        r == is_held(inst@, key),
{
    let name = held_note(key);
    match truth_of(inst.scratch.get(name.as_str())) {
        Some(b) => b,
        None => false,
    }
}

fn void_note(key: u64) -> (r: String)
    ensures
        r@ == void_of(key),
{
    let mut r = "void:".to_owned();
    r.append(text::to_decimal(key).as_str());
    r
}

fn tell_key(key: u64, name: &str) -> (r: Vec<HostCall>)
    ensures
        r.deep_view() == key_calls(key, name@),
{
    let mut said = "key ".to_owned();
    said.append(text::to_decimal(key).as_str());
    said.append(" ");
    said.append(name);
    let calls: Vec<HostCall> = vec![
        notify(name, dict1("key", Json::Unsigned(key))),
        HostCall::SetState {
            proxy: PROXY,
            key: "last_action".to_owned(),
            value: string(said.as_str()),
        },
    ];
    assert(calls.deep_view() =~= key_calls(key, name@));
    calls
}

fn on_woken(inst: &mut Instance, args: &Dict) -> (r: Vec<HostCall>)
    ensures
        (final(inst)@, r.deep_view()) == woken(old(inst)@, args@),
{
    let note = match str_of(args.get("note")) {
        Some(note) => note,
        None => return nothing(),
    };
    let digits = match text::strip_prefix(note, "held:") {
        Some(digits) => digits,
        None => return nothing(),
    };
    match text::parse_unsigned(digits, u64::MAX) {
        Some(key) => {
            let void = void_note(key);
            if truth_of(inst.scratch.get(void.as_str())) == Some(true) {
                inst.scratch.remove(void.as_str());
                return nothing();
            }
            let name = held_note(key);
            inst.scratch.insert(name.as_str(), Json::Bool(true));
            tell_key(key, "held")
        },
        None => nothing(),
    }
}

fn find_key(buttons: &Vec<(u64, String)>, href: &str) -> (r: Option<u64>)
    ensures
        r == key_at(buttons.deep_view(), href@),
{
    let ghost all = buttons.deep_view();
    let mut i: usize = 0;
    assert(all.skip(0) =~= all);
    while i < buttons.len()
        invariant
            i <= buttons@.len(),
            all == buttons.deep_view(),
            key_at(all, href@) == key_at(all.skip(i as int), href@),
        decreases buttons@.len() - i,
    {
        assert(all.skip(i as int)[0] == (buttons@[i as int].0, buttons@[i as int].1@));
        if text::same(buttons[i].1.as_str(), href) {
            return Some(buttons[i].0);
        }
        assert(all.skip(i as int).drop_first() =~= all.skip(i + 1));
        i += 1;
    }
    None
}

fn on_let_go(inst: &mut Instance, key: u64) -> (r: Vec<HostCall>)
    ensures
        (final(inst)@, r.deep_view()) == let_go(old(inst)@, key),
{
    if held_flag(inst, key) {
        let name = held_note(key);
        inst.scratch.remove(name.as_str());
        tell_key(key, "released")
    } else {
        let void = void_note(key);
        inst.scratch.insert(void.as_str(), Json::Bool(true));
        tell_key(key, "clicked")
    }
}

fn same_text(a: Option<&str>, b: Option<&String>) -> (r: bool)
    ensures
        r == (a.deep_view() == b.deep_view()),
{
    match (a, b) {
        (Some(x), Some(y)) => text::same(x, y.as_str()),
        (None, None) => true,
        _ => false,
    }
}

fn on_device_status(inst: &Instance, status: &Json) -> (r: Vec<HostCall>)
    ensures
        r.deep_view() == battery_calls(inst@, status@),
{
    let mine = device_href(inst);
    if !same_text(str_of(status.get2("Device", "href")), mine.as_ref()) {
        return nothing();
    }
    match str_of(status.get2("BatteryStatus", "LevelState")) {
        Some(level) => match battery_percent(level) {
            Some(percent) => only(
                notify("battery_changed", dict1("percent", Json::Unsigned(percent as u64))),
            ),
            None => nothing(),
        },
        None => nothing(),
    }
}

fn on_button_status(inst: &mut Instance, status: &Json) -> (r: Vec<HostCall>)
    ensures
        (final(inst)@, r.deep_view()) == button_status(old(inst)@, status@),
{
    let buttons = pico_buttons(inst);
    let key: u64 = match find_key(&buttons, str_or_empty(status.get2("Button", "href"))) {
        Some(key) => key,
        None => return nothing(),
    };
    match str_of(status.get2("ButtonEvent", "EventType")) {
        Some(event) => if text::same(event, "Press") {
            let void = void_note(key);
            inst.scratch.remove(void.as_str());
            only(HostCall::After { ms: HOLD_MS, note: held_note(key) })
        } else if text::same(event, "Release") {
            on_let_go(inst, key)
        } else {
            nothing()
        },
        None => nothing(),
    }
}

/// Take in one message. A bridge with four remotes behind it answers for all of them down one
/// connection, so a status has to be checked against this remote's own hrefs.
pub fn on_remote_message(inst: &mut Instance, msg: &Json) -> (r: Vec<HostCall>)
    ensures
        (final(inst)@, r.deep_view()) == remote_message(old(inst)@, msg@),
{
    match msg.get2("Body", "DeviceStatus") {
        Some(status) => on_device_status(inst, status),
        None => match msg.get2("Body", "ButtonStatus") {
            Some(status) => on_button_status(inst, status),
            None => nothing(),
        },
    }
}

/// Take in some messages one after the other.
pub fn on_remote_messages(inst: &mut Instance, msgs: &Vec<Json>) -> (r: Vec<HostCall>)
    ensures
        (final(inst)@, r.deep_view()) == remote_messages(old(inst)@, msgs.deep_view()),
{
    let ghost all = msgs.deep_view();
    let ghost start = inst@;
    let mut out = nothing();
    let mut i: usize = 0;
    assert(all.take(0) =~= Seq::<JsonView>::empty());
    while i < msgs.len()
        invariant
            i <= msgs@.len(),
            all == msgs.deep_view(),
            (inst@, out.deep_view()) == remote_messages(start, all.take(i as int)),
        decreases msgs@.len() - i,
    {
        proof {
            assert(all.take(i + 1).drop_last() =~= all.take(i as int));
            assert(all.take(i + 1).last() == msgs@[i as int]@);
        }
        let more = on_remote_message(inst, &msgs[i]);
        extend(&mut out, more);
        i += 1;
    }
    assert(all.take(i as int) =~= all);
    out
}

impl CasetaLeap {
    /// What a remote hears, and the wake-ups that its presses asked for.
    ///
    /// What a press turns out to be is decided by which comes first, the wake-up or the release.
    /// The one that comes second does not decide again: a release after the wake-up ends the hold,
    /// and a wake-up after the release means nothing.
    pub fn on_pico_event(inst: &mut Instance, note: &str, args: &Dict) -> (r: Vec<HostCall>)
        ensures
            (final(inst)@, r.deep_view()) == remote_event(old(inst)@, note@, args@),
    {
        if text::same(note, "timer") {
            return on_woken(inst, args);
        }
        match hear(note, args) {
            Some(msgs) => on_remote_messages(inst, &msgs),
            None => nothing(),
        }
    }
}

} // verus!
