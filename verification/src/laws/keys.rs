//! Laws of a remote's keys, by the number of each: which key it was, what the house is told, and
//! how the cell is doing.

use crate::device;
use crate::driver;
use crate::framing;
use crate::host::{HostCallView, InstanceView};
use crate::json::JsonView;
use crate::laws::remotes as presses;
use crate::laws::words;
use crate::remotes;
use crate::text;
use vstd::prelude::*;

verus! {

/// The property under which the href of each key is written down.
pub open spec fn key_property(n: int) -> Seq<char> {
    if n == 1 {
        "Button 1 href"@
    } else if n == 2 {
        "Button 2 href"@
    } else if n == 3 {
        "Button 3 href"@
    } else if n == 4 {
        "Button 4 href"@
    } else {
        "Button 5 href"@
    }
}

/// Whether a remote has this key at this href.
pub open spec fn has_key(inst: InstanceView, n: int, href: Seq<char>) -> bool {
    words::has(inst.properties, key_property(n), JsonView::Text(href)) && href.len() > 0
}

/// The name of a key's clock.
pub open spec fn clock_name(n: int) -> Seq<char> {
    seq!['h', 'e', 'l', 'd', ':', words::digit_char(n)]
}

/// The name of the note that a key's clock is void.
pub open spec fn void_name(n: int) -> Seq<char> {
    seq!['v', 'o', 'i', 'd', ':', words::digit_char(n)]
}

/// What the house is told of a key: what happened and to which, and the same in words.
pub open spec fn key_told(n: int, name: Seq<char>) -> Seq<HostCallView> {
    seq![
        words::told(name, "key"@, JsonView::Unsigned(n as u64)),
        HostCallView::SetState {
            proxy: 1,
            key: "last_action"@,
            value: JsonView::Text(
                seq!['k', 'e', 'y', ' ', words::digit_char(n), ' '] + name,
            ),
        },
    ]
}

pub(crate) proof fn lemma_key_property(n: u64)
    requires
        1 <= n <= 5,
    ensures
        device::button_property(n as nat) == key_property(n as int),
        remotes::clock_of(n) == clock_name(n as int),
        remotes::void_of(n) == void_name(n as int),
{
    reveal_strlit("Button ");
    reveal_strlit(" href");
    reveal_strlit("Button 1 href");
    reveal_strlit("Button 2 href");
    reveal_strlit("Button 3 href");
    reveal_strlit("Button 4 href");
    reveal_strlit("Button 5 href");
    reveal_strlit("held:");
    reveal_strlit("void:");
    assert(text::decimal(n as nat) =~= seq![words::digit_char(n as int)]);
    assert(device::button_property(n as nat) =~= key_property(n as int));
    assert(remotes::clock_of(n) =~= clock_name(n as int));
    assert(remotes::void_of(n) =~= void_name(n as int));
}

proof fn lemma_key_told(n: u64, name: Seq<char>)
    requires
        1 <= n <= 5,
    ensures
        remotes::key_calls(n, name) == key_told(n as int, name),
{
    reveal_strlit("key ");
    reveal_strlit(" ");
    assert(text::decimal(n as nat) =~= seq![words::digit_char(n as int)]);
    assert("key "@ + text::decimal(n as nat) + " "@ + name =~= seq![
        'k',
        'e',
        'y',
        ' ',
        words::digit_char(n as int),
        ' ',
    ] + name);
    assert(remotes::key_calls(n, name) =~= key_told(n as int, name));
}

proof fn lemma_first_buttons(inst: InstanceView, count: nat)
    requires
        count <= 5,
    ensures
        ({
            let row = device::first_buttons(inst, count);
            &&& forall|i: int|
                0 <= i < row.len() ==> 1 <= (#[trigger] row[i]).0 <= count && has_key(
                    inst,
                    row[i].0 as int,
                    row[i].1,
                )
            &&& forall|i: int, j: int|
                0 <= i < j < row.len() ==> (#[trigger] row[i]).0 < (#[trigger] row[j]).0
            &&& forall|n: u64, href: Seq<char>|
                1 <= n <= count && #[trigger] has_key(inst, n as int, href) ==> row.contains(
                    (n, href),
                )
        }),
    decreases count,
{
    let row = device::first_buttons(inst, count);
    if count > 0 {
        let before = device::first_buttons(inst, (count - 1) as nat);
        lemma_first_buttons(inst, (count - 1) as nat);
        lemma_key_property(count as u64);
        let one = device::button_of(inst, count as u64);
        assert(row == before + one);
        assert forall|n: u64, href: Seq<char>|
            1 <= n <= count && #[trigger] has_key(inst, n as int, href) implies row.contains(
            (n, href),
        ) by {
            if n < count {
                assert(before.contains((n, href)));
                let i = choose|i: int| 0 <= i < before.len() && before[i] == (n, href);
                assert(row[i] == (n, href));
            } else {
                assert(one == seq![(n, href)]);
                assert(row[before.len() as int] == (n, href));
            }
        }
    }
}

/// The keys that a remote answers to are the ones that were written down, no more and no less, in
/// the order of their numbers.
pub proof fn law_a_remotes_keys_are_those_written_down(inst: InstanceView)
    ensures
        forall|i: int|
            0 <= i < device::buttons_of(inst).len() ==> 1 <= (#[trigger] device::buttons_of(
                inst,
            )[i]).0 <= 5 && has_key(
                inst,
                device::buttons_of(inst)[i].0 as int,
                device::buttons_of(inst)[i].1,
            ),
        forall|i: int, j: int|
            0 <= i < j < device::buttons_of(inst).len() ==> (#[trigger] device::buttons_of(
                inst,
            )[i]).0 < (#[trigger] device::buttons_of(inst)[j]).0,
        forall|n: u64, href: Seq<char>|
            1 <= n <= 5 && #[trigger] has_key(inst, n as int, href) ==> device::buttons_of(
                inst,
            ).contains((n, href)),
{
    lemma_first_buttons(inst, 5);
}

proof fn lemma_key_at(buttons: Seq<(u64, Seq<char>)>, href: Seq<char>, k: int)
    requires
        0 <= k < buttons.len(),
        buttons[k].1 == href,
        forall|i: int| 0 <= i < k ==> (#[trigger] buttons[i]).1 != href,
    ensures
        remotes::key_at(buttons, href) == Some(buttons[k].0),
    decreases k,
{
    if k > 0 {
        let rest = buttons.drop_first();
        assert forall|i: int| 0 <= i < k - 1 implies (#[trigger] rest[i]).1 != href by {
            assert(rest[i] == buttons[i + 1]);
        }
        assert(rest[k - 1] == buttons[k]);
        lemma_key_at(rest, href, k - 1);
    }
}

proof fn lemma_no_key_at(buttons: Seq<(u64, Seq<char>)>, href: Seq<char>)
    requires
        forall|i: int| 0 <= i < buttons.len() ==> (#[trigger] buttons[i]).1 != href,
    ensures
        remotes::key_at(buttons, href) is None,
    decreases buttons.len(),
{
    if buttons.len() > 0 {
        let rest = buttons.drop_first();
        assert forall|i: int| 0 <= i < rest.len() implies (#[trigger] rest[i]).1 != href by {
            assert(rest[i] == buttons[i + 1]);
        }
        lemma_no_key_at(rest, href);
    }
}

/// A button's href is that of the key under which it was written down; the lowest number counts
/// where it was written down twice.
pub proof fn law_a_key_is_known_by_its_href(inst: InstanceView, n: u64, href: Seq<char>)
    requires
        1 <= n <= 5,
        has_key(inst, n as int, href),
        forall|m: u64| 1 <= m < n ==> !#[trigger] has_key(inst, m as int, href),
    ensures
        remotes::key_at(device::buttons_of(inst), href) == Some(n),
{
    let row = device::buttons_of(inst);
    law_a_remotes_keys_are_those_written_down(inst);
    assert(row.contains((n, href)));
    let k = choose|k: int| 0 <= k < row.len() && row[k] == (n, href);
    assert forall|i: int| 0 <= i < k implies (#[trigger] row[i]).1 != href by {
        assert(row[i].0 < row[k].0);
        assert(has_key(inst, row[i].0 as int, row[i].1));
    }
    lemma_key_at(row, href, k);
}

/// An href that no key was written down with is nobody's.
pub proof fn law_an_unwritten_href_is_no_key(inst: InstanceView, href: Seq<char>)
    requires
        forall|n: u64| 1 <= n <= 5 ==> !#[trigger] has_key(inst, n as int, href),
    ensures
        remotes::key_at(device::buttons_of(inst), href) is None,
{
    let row = device::buttons_of(inst);
    law_a_remotes_keys_are_those_written_down(inst);
    assert forall|i: int| 0 <= i < row.len() implies (#[trigger] row[i]).1 != href by {
        assert(has_key(inst, row[i].0 as int, row[i].1));
    }
    lemma_no_key_at(row, href);
}

/// The button that was pressed or let go is told of by the number that it was written down under:
/// a press starts that key's clock of half a second, and a release is a click of that key, or the
/// end of its hold where it was held. Whatever else the button does is left alone.
pub proof fn law_a_button_is_told_by_its_number(
    inst: InstanceView,
    n: u64,
    href: Seq<char>,
    msg: JsonView,
    what: Seq<char>,
)
    requires
        1 <= n <= 5,
        has_key(inst, n as int, href),
        forall|m: u64| 1 <= m < n ==> !#[trigger] has_key(inst, m as int, href),
        presses::is_key_event(msg, href, what),
    ensures
        what == "Press"@ ==> remotes::remote_message(inst, msg) == (
            InstanceView {
                properties: inst.properties,
                scratch: inst.scratch.remove(void_name(n as int)),
            },
            seq![HostCallView::After { ms: 500, note: clock_name(n as int) }],
        ),
        what == "Release"@ && words::has(
            inst.scratch,
            clock_name(n as int),
            JsonView::Bool(true),
        ) ==> remotes::remote_message(inst, msg) == (
            InstanceView {
                properties: inst.properties,
                scratch: inst.scratch.remove(clock_name(n as int)),
            },
            key_told(n as int, "released"@),
        ),
        what == "Release"@ && !words::has(
            inst.scratch,
            clock_name(n as int),
            JsonView::Bool(true),
        ) ==> remotes::remote_message(inst, msg) == (
            words::noting(inst, void_name(n as int), JsonView::Bool(true)),
            key_told(n as int, "clicked"@),
        ),
        what != "Press"@ && what != "Release"@ ==> remotes::remote_message(inst, msg) == (
            inst,
            Seq::<HostCallView>::empty(),
        ),
{
    law_a_key_is_known_by_its_href(inst, n, href);
    lemma_key_property(n);
    lemma_key_told(n, "released"@);
    lemma_key_told(n, "clicked"@);
    reveal_strlit("Press");
    reveal_strlit("Release");
    assert("Press"@.len() == 5);
    assert("Release"@.len() == 7);
}

/// The wake-up of a key is told of by that key's number: a hold, which is noted, unless the key
/// was let go before.
pub proof fn law_a_hold_is_told_by_its_number(
    inst: InstanceView,
    n: u64,
    args: Map<Seq<char>, JsonView>,
)
    requires
        1 <= n <= 5,
        words::has(args, "note"@, JsonView::Text(clock_name(n as int))),
    ensures
        remotes::remote_event(inst, "timer"@, args) == if words::has(
            inst.scratch,
            void_name(n as int),
            JsonView::Bool(true),
        ) {
            (
                InstanceView {
                    properties: inst.properties,
                    scratch: inst.scratch.remove(void_name(n as int)),
                },
                Seq::<HostCallView>::empty(),
            )
        } else {
            (
                words::noting(inst, clock_name(n as int), JsonView::Bool(true)),
                key_told(n as int, "held"@),
            )
        },
{
    lemma_key_property(n);
    lemma_key_told(n, "held"@);
    presses::law_a_wake_up_finds_its_key(args, n);
}

/// Whether a wake-up is one of the clocks, with this behind the name that they share.
pub open spec fn is_of_a_clock(args: Map<Seq<char>, JsonView>, rest: Seq<char>) -> bool {
    words::has(args, "note"@, JsonView::Text("held:"@ + rest))
}

/// A wake-up is of the key whose number stands behind the name of its clock, whichever that is, and
/// is told of by that number. One with no number there, or of no clock, says nothing.
pub proof fn law_a_wake_up_is_of_the_key_it_names(
    inst: InstanceView,
    args: Map<Seq<char>, JsonView>,
    rest: Seq<char>,
    n: u64,
)
    ensures
        is_of_a_clock(args, rest) && text::spelled(rest, 0xFFFF_FFFF_FFFF_FFFF) == Some(n as nat)
            ==> remotes::remote_event(inst, "timer"@, args) == if words::has(
            inst.scratch,
            "void:"@ + text::decimal(n as nat),
            JsonView::Bool(true),
        ) {
            (
                InstanceView {
                    properties: inst.properties,
                    scratch: inst.scratch.remove("void:"@ + text::decimal(n as nat)),
                },
                Seq::<HostCallView>::empty(),
            )
        } else {
            (
                words::noting(inst, "held:"@ + text::decimal(n as nat), JsonView::Bool(true)),
                seq![
                    words::told("held"@, "key"@, JsonView::Unsigned(n)),
                    HostCallView::SetState {
                        proxy: 1,
                        key: "last_action"@,
                        value: JsonView::Text(
                            "key "@ + text::decimal(n as nat) + " "@ + "held"@,
                        ),
                    },
                ],
            )
        },
        is_of_a_clock(args, rest) && text::spelled(rest, 0xFFFF_FFFF_FFFF_FFFF) is None
            ==> remotes::remote_event(inst, "timer"@, args) == (
            inst,
            Seq::<HostCallView>::empty(),
        ),
        (forall|other: Seq<char>| !#[trigger] is_of_a_clock(args, other))
            ==> remotes::remote_event(inst, "timer"@, args) == (
            inst,
            Seq::<HostCallView>::empty(),
        ),
{
    let held = "held:"@;
    let k = held.len() as int;
    if is_of_a_clock(args, rest) {
        let note = held + rest;
        assert(note.take(k) =~= held);
        assert(held.is_prefix_of(note));
        assert(note.skip(k) =~= rest);
    }
    if words::has_text(args, "note"@) {
        let note = args["note"@]->Text_0;
        if held.is_prefix_of(note) {
            assert(note =~= held + note.skip(k));
            assert(is_of_a_clock(args, note.skip(k)));
        }
    }
}

/// Whatever its number, a key is told of by that number and shown by it.
pub proof fn law_each_key_is_told_by_its_number(key: u64, name: Seq<char>)
    ensures
        remotes::key_calls(key, name).len() == 2,
        remotes::key_calls(key, name)[0] == words::told(name, "key"@, JsonView::Unsigned(key)),
        remotes::key_calls(key, name)[1] == (HostCallView::SetState {
            proxy: 1,
            key: "last_action"@,
            value: JsonView::Text("key "@ + text::decimal(key as nat) + " "@ + name),
        }),
{
}

/// What a battery word is worth.
pub open spec fn is_worth(word: Seq<char>, percent: u64) -> bool {
    ||| (word == "Good"@ || word == "Normal"@ || word == "Full"@) && percent == 100
    ||| word == "Low"@ && percent == 10
    ||| word == "Critical"@ && percent == 2
}

/// Whether a status is of the remote itself: at the place that is written down of it, or at none
/// where none is written down.
pub open spec fn is_own_status(inst: InstanceView, status: JsonView) -> bool {
    let there = status.get2("Device"@, "href"@);
    if words::has_href(inst.properties, "Device href"@) {
        there == Some(inst.properties["Device href"@])
    } else {
        !(there matches Some(JsonView::Text(_)))
    }
}

/// A remote's own battery reaches the house as the percentage that the word is worth.
pub proof fn law_a_battery_is_told(
    inst: InstanceView,
    msg: JsonView,
    status: JsonView,
    word: Seq<char>,
    percent: u64,
)
    requires
        msg.get2("Body"@, "DeviceStatus"@) == Some(status),
        is_own_status(inst, status),
        status.get2("BatteryStatus"@, "LevelState"@) == Some(JsonView::Text(word)),
        is_worth(word, percent),
    ensures
        remotes::remote_message(inst, msg) == (
            inst,
            seq![words::told("battery_changed"@, "percent"@, JsonView::Unsigned(percent))],
        ),
{
    reveal_strlit("Good");
    reveal_strlit("Normal");
    reveal_strlit("Full");
    reveal_strlit("Low");
    reveal_strlit("Critical");
    assert("Good"@.len() == 4);
    assert("Normal"@.len() == 6);
    assert("Full"@.len() == 4);
    assert("Low"@.len() == 3);
    assert("Critical"@.len() == 8);
}

/// A battery is told of only where the status is the remote's own and its word is known.
pub proof fn law_no_other_battery_is_told(inst: InstanceView, msg: JsonView, status: JsonView)
    requires
        msg.get2("Body"@, "DeviceStatus"@) == Some(status),
        !is_own_status(inst, status) || (status.get2(
            "BatteryStatus"@,
            "LevelState"@,
        ) matches Some(JsonView::Text(word)) ==> word != "Good"@ && word != "Normal"@ && word
            != "Full"@ && word != "Low"@ && word != "Critical"@),
    ensures
        remotes::remote_message(inst, msg) == (inst, Seq::<HostCallView>::empty()),
{
}

/// A remote takes in every message of what it receives, and nothing of any event but that and the
/// wake-ups of its clocks.
pub proof fn law_a_remote_takes_in_what_it_receives(
    inst: InstanceView,
    n: u64,
    href: Seq<char>,
    note: Seq<char>,
    args: Map<Seq<char>, JsonView>,
    received: Seq<char>,
)
    requires
        1 <= n <= 5,
        has_key(inst, n as int, href),
    ensures
        words::has(args, "data"@, JsonView::Text(received)) ==> driver::evented(inst, "rx"@, args)
            == remotes::remote_messages(inst, framing::messages(received)),
        driver::evented(inst, "timer"@, args) == remotes::remote_event(inst, "timer"@, args),
        note != "rx"@ && note != "timer"@ ==> driver::evented(inst, note, args) == (
            inst,
            Seq::<HostCallView>::empty(),
        ),
{
    law_a_remotes_keys_are_those_written_down(inst);
    assert(device::buttons_of(inst).contains((n, href)));
    reveal_strlit("rx");
    reveal_strlit("timer");
    assert("rx"@.len() == 2);
    assert("timer"@.len() == 5);
}

} // verus!
