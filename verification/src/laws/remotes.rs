//! Laws of the remotes: clicks, holds and batteries.

use crate::device;
use crate::host::{HostCallView, InstanceView};
use crate::json::{self, JsonView};
use crate::remotes;
use crate::tables::{self, HOLD_MS};
use crate::text;
use vstd::prelude::*;

verus! {

/// Whether a message says that something happened to the button at an href.
pub open spec fn is_key_event(msg: JsonView, href: Seq<char>, what: Seq<char>) -> bool {
    &&& msg.get2("Body"@, "DeviceStatus"@) is None
    &&& msg.get2("Body"@, "ButtonStatus"@) matches Some(status)
        && json::text_or_empty(status.get2("Button"@, "href"@)) == href
        && json::text_of(status.get2("ButtonEvent"@, "EventType"@)) == Some(what)
}

/// Whether a wake-up is the one that a press of this key asked for.
pub open spec fn is_wake_up(args: Map<Seq<char>, JsonView>, key: u64) -> bool {
    json::text_of(json::find(args, "note"@)) == Some(remotes::clock_of(key))
}

proof fn lemma_press_is_no_release()
    ensures
        "Press"@ != "Release"@,
{
    reveal_strlit("Press");
    reveal_strlit("Release");
    assert("Press"@.len() == 5);
    assert("Release"@.len() == 7);
}

/// A key's clock is its own, and so is the note that it is void: two keys have two of each, and no
/// clock has the name of such a note.
pub proof fn law_each_key_has_its_own_clock(a: u64, b: u64)
    ensures
        a != b ==> remotes::clock_of(a) != remotes::clock_of(b),
        a != b ==> remotes::void_of(a) != remotes::void_of(b),
        remotes::clock_of(a) != remotes::void_of(b),
{
    reveal_strlit("held:");
    reveal_strlit("void:");
    text::lemma_decimal(a as nat);
    text::lemma_decimal(b as nat);
    assert(remotes::clock_of(a).skip(5) =~= text::decimal(a as nat));
    assert(remotes::clock_of(b).skip(5) =~= text::decimal(b as nat));
    assert(remotes::void_of(a).skip(5) =~= text::decimal(a as nat));
    assert(remotes::void_of(b).skip(5) =~= text::decimal(b as nat));
    assert(remotes::clock_of(a)[0] == 'h');
    assert(remotes::void_of(b)[0] == 'v');
}

/// The wake-up that a press asked for comes back to the key that was pressed.
pub proof fn law_a_wake_up_finds_its_key(args: Map<Seq<char>, JsonView>, key: u64)
    requires
        is_wake_up(args, key),
    ensures
        remotes::woken_key(args) == Some(key),
{
    let note = remotes::clock_of(key);
    let n = "held:"@.len() as int;
    text::lemma_decimal(key as nat);
    assert(note.skip(n) =~= text::decimal(key as nat));
    assert("held:"@.is_prefix_of(note)) by {
        assert(note.take(n) =~= "held:"@);
    }
}

/// A key that is let go before its clock goes off was clicked: the press only starts the clock,
/// the release tells the house of a click, and the wake-up that comes afterwards tells it nothing
/// and leaves no hold. Then the key is as fresh as it was.
pub proof fn law_a_short_press_is_a_click(
    inst: InstanceView,
    key: u64,
    href: Seq<char>,
    press: JsonView,
    release: JsonView,
    wake_up: Map<Seq<char>, JsonView>,
)
    requires
        remotes::key_at(device::buttons_of(inst), href) == Some(key),
        !remotes::is_held(inst, key),
        is_key_event(press, href, "Press"@),
        is_key_event(release, href, "Release"@),
        is_wake_up(wake_up, key),
    ensures
        ({
            let down = remotes::remote_message(inst, press);
            let up = remotes::remote_message(down.0, release);
            let late = remotes::remote_event(up.0, "timer"@, wake_up);
            &&& down.1 == seq![
                HostCallView::After { ms: HOLD_MS, note: remotes::clock_of(key) },
            ]
            &&& up.1 == remotes::key_calls(key, "clicked"@)
            &&& late.1 == Seq::<HostCallView>::empty()
            &&& !remotes::is_held(late.0, key)
            &&& !remotes::is_void(late.0, key)
            &&& late.0 == remotes::unvoided(inst, key)
        }),
{
    lemma_press_is_no_release();
    law_each_key_has_its_own_clock(key, key);
    law_a_wake_up_finds_its_key(wake_up, key);
    let down = remotes::remote_message(inst, press);
    lemma_buttons_are_properties(inst, down.0, tables::MAX_BUTTONS as nat);
    let up = remotes::remote_message(down.0, release);
    let late = remotes::remote_event(up.0, "timer"@, wake_up);
    assert(late.0.scratch =~= remotes::unvoided(inst, key).scratch);
}

/// A key whose clock goes off before it is let go was held: the house is told of the hold when the
/// clock goes off and of its end when the key is let go, and of no click. Afterwards the key is as
/// fresh as it was, whatever came of the press before.
pub proof fn law_a_long_press_is_a_hold_then_a_release(
    inst: InstanceView,
    key: u64,
    href: Seq<char>,
    press: JsonView,
    wake_up: Map<Seq<char>, JsonView>,
    release: JsonView,
)
    requires
        remotes::key_at(device::buttons_of(inst), href) == Some(key),
        !remotes::is_held(inst, key),
        is_key_event(press, href, "Press"@),
        is_wake_up(wake_up, key),
        is_key_event(release, href, "Release"@),
    ensures
        ({
            let down = remotes::remote_message(inst, press).0;
            let held = remotes::remote_event(down, "timer"@, wake_up);
            let up = remotes::remote_message(held.0, release);
            &&& held.1 == remotes::key_calls(key, "held"@)
            &&& remotes::is_held(held.0, key)
            &&& up.1 == remotes::key_calls(key, "released"@)
            &&& !remotes::is_held(up.0, key)
            &&& !remotes::is_void(up.0, key)
            &&& up.0.properties == inst.properties
        }),
{
    lemma_press_is_no_release();
    law_each_key_has_its_own_clock(key, key);
    law_a_wake_up_finds_its_key(wake_up, key);
    let down = remotes::remote_message(inst, press).0;
    let held = remotes::remote_event(down, "timer"@, wake_up);
    lemma_buttons_are_properties(inst, down, tables::MAX_BUTTONS as nat);
    lemma_buttons_are_properties(down, held.0, tables::MAX_BUTTONS as nat);
}

proof fn lemma_buttons_are_properties(a: InstanceView, b: InstanceView, count: nat)
    requires
        a.properties == b.properties,
    ensures
        device::first_buttons(a, count) == device::first_buttons(b, count),
    decreases count,
{
    if count > 0 {
        lemma_buttons_are_properties(a, b, (count - 1) as nat);
    }
}

/// What one key is doing is nothing to another: neither a press, a hold nor its end touches what is
/// noted of the other.
pub proof fn law_keys_are_held_apart(
    inst: InstanceView,
    a: u64,
    b: u64,
    wake_up: Map<Seq<char>, JsonView>,
)
    requires
        a != b,
        is_wake_up(wake_up, a),
    ensures
        remotes::is_held(remotes::unvoided(inst, a), b) == remotes::is_held(inst, b),
        remotes::is_void(remotes::unvoided(inst, a), b) == remotes::is_void(inst, b),
        remotes::is_held(remotes::woken(inst, wake_up).0, b) == remotes::is_held(inst, b),
        remotes::is_void(remotes::woken(inst, wake_up).0, b) == remotes::is_void(inst, b),
        remotes::is_held(remotes::let_go(inst, a).0, b) == remotes::is_held(inst, b),
        remotes::is_void(remotes::let_go(inst, a).0, b) == remotes::is_void(inst, b),
{
    law_each_key_has_its_own_clock(a, b);
    law_each_key_has_its_own_clock(b, a);
    law_a_wake_up_finds_its_key(wake_up, a);
}

/// A button of somebody else's remote changes nothing and says nothing.
pub proof fn law_anothers_button_says_nothing(
    inst: InstanceView,
    msg: JsonView,
    href: Seq<char>,
    what: Seq<char>,
)
    requires
        is_key_event(msg, href, what),
        remotes::key_at(device::buttons_of(inst), href) is None,
    ensures
        remotes::remote_message(inst, msg) == (inst, Seq::<HostCallView>::empty()),
{
}

/// The status of another device says nothing of this remote's battery, and neither does a level
/// that nobody knows.
pub proof fn law_a_battery_is_its_own_and_known(inst: InstanceView, msg: JsonView, status: JsonView)
    requires
        msg.get2("Body"@, "DeviceStatus"@) == Some(status),
        json::text_of(status.get2("Device"@, "href"@)) != device::place_of(inst) || (json::text_of(
            status.get2("BatteryStatus"@, "LevelState"@),
        ) matches Some(level) ==> tables::percent_of(level) is None),
    ensures
        remotes::remote_message(inst, msg) == (inst, Seq::<HostCallView>::empty()),
{
}

} // verus!
