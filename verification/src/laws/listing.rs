//! Laws of what is offered: whose keys a remote gets, and what is never offered.

use crate::candidates;
use crate::json::{self, JsonView};
use crate::tables::{self, BRIDGE_ID, MAX_BUTTONS};
use vstd::prelude::*;

verus! {

/// Whether the numbers of a row of buttons never go down.
pub open spec fn is_ascending(row: Seq<(u64, Seq<char>)>) -> bool {
    forall|i: int, j: int| 0 <= i <= j < row.len() ==> (#[trigger] row[i]).0 <= (#[trigger] row[j]).0
}

/// The buttons of a row that have this number, in their order.
pub open spec fn having_number(row: Seq<(u64, Seq<char>)>, number: u64) -> Seq<(u64, Seq<char>)>
    decreases row.len(),
{
    if row.len() == 0 {
        Seq::empty()
    } else if row.last().0 == number {
        having_number(row.drop_last(), number).push(row.last())
    } else {
        having_number(row.drop_last(), number)
    }
}

proof fn lemma_placed(row: Seq<(u64, Seq<char>)>, button: (u64, Seq<char>))
    requires
        is_ascending(row),
    ensures
        is_ascending(candidates::placed(row, button)),
        candidates::placed(row, button).to_multiset() == row.to_multiset().insert(button),
        candidates::placed(row, button).len() == row.len() + 1,
        candidates::placed(row, button).last().0 == if row.len() > 0 && row.last().0 > button.0 {
            row.last().0
        } else {
            button.0
        },
    decreases row.len(),
{
    broadcast use vstd::seq_lib::group_to_multiset_ensures;

    let next = candidates::placed(row, button);
    if row.len() == 0 || row.last().0 <= button.0 {
    } else {
        let sooner = row.drop_last();
        let last = row.last();
        lemma_placed(sooner, button);
        let mid = candidates::placed(sooner, button);
        assert(mid.last().0 <= last.0) by {
            if sooner.len() > 0 {
                assert(sooner.last() == row[row.len() - 2]);
            }
        }
        assert forall|i: int, j: int| 0 <= i <= j < next.len() implies (#[trigger] next[i]).0 <= (
        #[trigger] next[j]).0 by {
            if j == next.len() - 1 && i < j {
                assert(mid[i].0 <= mid[mid.len() - 1].0);
            } else if j < next.len() - 1 {
                assert(mid[i].0 <= mid[j].0);
            }
        }
        assert(row =~= sooner.push(last));
        assert(next.to_multiset() =~= row.to_multiset().insert(button));
    }
}

proof fn lemma_placed_number(row: Seq<(u64, Seq<char>)>, button: (u64, Seq<char>), number: u64)
    ensures
        having_number(candidates::placed(row, button), number) == having_number(row, number)
            + if button.0 == number {
            seq![button]
        } else {
            Seq::empty()
        },
    decreases row.len(),
{
    let next = candidates::placed(row, button);
    if row.len() == 0 || row.last().0 <= button.0 {
        assert(next.drop_last() =~= row);
        assert(having_number(next, number) =~= having_number(row, number) + if button.0 == number {
            seq![button]
        } else {
            Seq::empty()
        });
    } else {
        let mid = candidates::placed(row.drop_last(), button);
        lemma_placed_number(row.drop_last(), button, number);
        assert(next.drop_last() =~= mid);
        assert(having_number(next, number) =~= having_number(row, number) + if button.0 == number {
            seq![button]
        } else {
            Seq::empty()
        });
    }
}

/// Putting buttons in order loses none and makes none up, and the numbers go up. Two buttons with
/// one number stay in the order that they came in.
pub proof fn law_buttons_are_put_in_order(buttons: Seq<(u64, Seq<char>)>, number: u64)
    ensures
        is_ascending(candidates::in_order(buttons)),
        candidates::in_order(buttons).to_multiset() == buttons.to_multiset(),
        having_number(candidates::in_order(buttons), number) == having_number(buttons, number),
    decreases buttons.len(),
{
    broadcast use vstd::seq_lib::group_to_multiset_ensures;

    if buttons.len() > 0 {
        let sooner = buttons.drop_last();
        law_buttons_are_put_in_order(sooner, number);
        lemma_placed(candidates::in_order(sooner), buttons.last());
        lemma_placed_number(candidates::in_order(sooner), buttons.last(), number);
        assert(buttons =~= sooner.push(buttons.last()));
        assert(having_number(candidates::in_order(buttons), number) =~= having_number(
            buttons,
            number,
        ));
    }
}

proof fn lemma_engraved(keys: Seq<(u64, Seq<char>)>, row: Seq<(u64, Seq<char>)>)
    ensures
        candidates::engraved(keys, row).len() <= keys.len(),
        forall|i: int|
            0 <= i < candidates::engraved(keys, row).len() ==> is_engraved_key(
                keys,
                row,
                #[trigger] candidates::engraved(keys, row)[i],
            ),
    decreases keys.len(),
{
    if keys.len() > 0 {
        let sooner = keys.drop_last();
        lemma_engraved(sooner, row);
        let before = candidates::engraved(sooner, row);
        let all = candidates::engraved(keys, row);
        assert forall|i: int| 0 <= i < all.len() implies is_engraved_key(
            keys,
            row,
            #[trigger] all[i],
        ) by {
            if i < before.len() {
                assert(all[i] == before[i]);
                let k = choose|k: int|
                    0 <= k < sooner.len() && candidates::numbered(row, (#[trigger] sooner[k]).0)
                        == Some(before[i].0) && sooner[k].1 == before[i].1;
                assert(keys[k] == sooner[k]);
            } else {
                assert(keys[keys.len() - 1] == keys.last());
            }
        }
    }
}

/// Whether a key is one that the model has and the bridge listed under that number.
pub open spec fn is_engraved_key(
    keys: Seq<(u64, Seq<char>)>,
    row: Seq<(u64, Seq<char>)>,
    key: (Seq<char>, Seq<char>),
) -> bool {
    exists|k: int|
        0 <= k < keys.len() && candidates::numbered(row, (#[trigger] keys[k]).0) == Some(key.0)
            && keys[k].1 == key.1
}

/// A remote of a known model has at most the keys of that model, and each is the button that the
/// bridge listed under the number of the key that it is called after.
pub proof fn law_a_known_remote_has_the_keys_of_its_model(
    device: JsonView,
    buttons: Seq<JsonView>,
    model: Seq<(u64, Seq<char>)>,
)
    requires
        tables::engraved_keys(json::text_or_empty(device.get("DeviceType"@))) == Some(model),
    ensures
        candidates::keys_of(device, buttons).len() <= model.len() <= MAX_BUTTONS,
        forall|i: int|
            0 <= i < candidates::keys_of(device, buttons).len() ==> is_engraved_key(
                model,
                candidates::in_order(
                    candidates::own_buttons(candidates::button_groups(device), buttons),
                ),
                #[trigger] candidates::keys_of(device, buttons)[i],
            ),
{
    lemma_engraved(
        model,
        candidates::in_order(candidates::own_buttons(candidates::button_groups(device), buttons)),
    );
}

/// No remote has more keys than can be written down of one.
pub proof fn law_a_remote_has_at_most_five_keys(device: JsonView, buttons: Seq<JsonView>)
    ensures
        candidates::keys_of(device, buttons).len() <= MAX_BUTTONS,
{
    match tables::engraved_keys(json::text_or_empty(device.get("DeviceType"@))) {
        Some(model) => law_a_known_remote_has_the_keys_of_its_model(device, buttons, model),
        None => {},
    }
}

/// Whether one of the listed buttons stands in one of these groups and is at this href.
pub open spec fn is_own_href(groups: Seq<Seq<char>>, buttons: Seq<JsonView>, href: Seq<char>) -> bool {
    exists|j: int|
        0 <= j < buttons.len() && json::text_of((#[trigger] buttons[j]).get("href"@)) == Some(href)
            && (json::text_of(buttons[j].get2("Parent"@, "href"@)) matches Some(parent)
            && groups.contains(parent))
}

proof fn lemma_own_buttons(groups: Seq<Seq<char>>, buttons: Seq<JsonView>)
    ensures
        forall|i: int|
            0 <= i < candidates::own_buttons(groups, buttons).len() ==> is_own_href(
                groups,
                buttons,
                (#[trigger] candidates::own_buttons(groups, buttons)[i]).1,
            ),
    decreases buttons.len(),
{
    if buttons.len() > 0 {
        let sooner = buttons.drop_last();
        lemma_own_buttons(groups, sooner);
        let before = candidates::own_buttons(groups, sooner);
        let all = candidates::own_buttons(groups, buttons);
        assert forall|i: int| 0 <= i < all.len() implies is_own_href(
            groups,
            buttons,
            (#[trigger] all[i]).1,
        ) by {
            if i < before.len() {
                assert(all[i] == before[i]);
                let href = before[i].1;
                let j = choose|j: int|
                    0 <= j < sooner.len() && json::text_of((#[trigger] sooner[j]).get("href"@))
                        == Some(href) && (json::text_of(
                        sooner[j].get2("Parent"@, "href"@),
                    ) matches Some(parent) && groups.contains(parent));
                assert(buttons[j] == sooner[j]);
            } else {
                assert(buttons[buttons.len() - 1] == buttons.last());
            }
        }
    }
}

proof fn lemma_in_order_keeps(
    groups: Seq<Seq<char>>,
    buttons: Seq<JsonView>,
    row: Seq<(u64, Seq<char>)>,
    i: int,
)
    requires
        row == candidates::own_buttons(groups, buttons),
        0 <= i < candidates::in_order(row).len(),
    ensures
        is_own_href(groups, buttons, candidates::in_order(row)[i].1),
{
    broadcast use vstd::seq_lib::group_to_multiset_ensures;

    law_buttons_are_put_in_order(row, 0);
    lemma_own_buttons(groups, buttons);
    let b = candidates::in_order(row)[i];
    assert(candidates::in_order(row).contains(b));
    assert(candidates::in_order(row).to_multiset().count(b) > 0);
    assert(row.contains(b));
}

pub(crate) proof fn lemma_numbered(row: Seq<(u64, Seq<char>)>, number: u64)
    ensures
        candidates::numbered(row, number) matches Some(href) ==> exists|i: int|
            0 <= i < row.len() && #[trigger] row[i] == (number, href),
    decreases row.len(),
{
    if row.len() > 0 && row[0].0 != number {
        let rest = row.drop_first();
        lemma_numbered(rest, number);
        if candidates::numbered(rest, number) is Some {
            let href = candidates::numbered(rest, number)->0;
            let i = choose|i: int| 0 <= i < rest.len() && #[trigger] rest[i] == (number, href);
            assert(row[i + 1] == (number, href));
        }
    } else if row.len() > 0 {
        assert(row[0] == (number, row[0].1));
    }
}

/// A remote gets no button of somebody else's: each of its keys is a listed button that stands in
/// one of the remote's own groups.
pub proof fn law_a_remotes_keys_are_its_own(device: JsonView, buttons: Seq<JsonView>, i: int)
    requires
        0 <= i < candidates::keys_of(device, buttons).len(),
    ensures
        is_own_href(
            candidates::button_groups(device),
            buttons,
            candidates::keys_of(device, buttons)[i].0,
        ),
{
    let groups = candidates::button_groups(device);
    let row = candidates::own_buttons(groups, buttons);
    let sorted = candidates::in_order(row);
    let key = candidates::keys_of(device, buttons)[i];
    match tables::engraved_keys(json::text_or_empty(device.get("DeviceType"@))) {
        Some(model) => {
            lemma_engraved(model, sorted);
            assert(is_engraved_key(model, sorted, candidates::engraved(model, sorted)[i]));
            let k = choose|k: int|
                0 <= k < model.len() && candidates::numbered(sorted, (#[trigger] model[k]).0)
                    == Some(key.0) && model[k].1 == key.1;
            lemma_numbered(sorted, model[k].0);
            let j = choose|j: int| 0 <= j < sorted.len() && #[trigger] sorted[j] == (
                model[k].0,
                key.0,
            );
            lemma_in_order_keeps(groups, buttons, row, j);
        },
        None => {
            assert(key.0 == sorted[i].1);
            lemma_in_order_keeps(groups, buttons, row, i);
        },
    }
}

pub(crate) proof fn lemma_own_buttons_together(
    groups: Seq<Seq<char>>,
    a: Seq<JsonView>,
    b: Seq<JsonView>,
)
    ensures
        candidates::own_buttons(groups, a + b) == candidates::own_buttons(groups, a)
            + candidates::own_buttons(groups, b),
    decreases b.len(),
{
    let own_a = candidates::own_buttons(groups, a);
    if b.len() == 0 {
        assert(a + b =~= a);
        assert(own_a + candidates::own_buttons(groups, b) =~= own_a);
    } else {
        let sooner = b.drop_last();
        lemma_own_buttons_together(groups, a, sooner);
        assert((a + b).drop_last() =~= a + sooner);
        assert((a + b).last() == b.last());
        let own_sooner = candidates::own_buttons(groups, sooner);
        let own_last = candidates::own_button(groups, b.last());
        assert(own_a + own_sooner + own_last =~= own_a + (own_sooner + own_last));
    }
}

/// Buttons of other remotes in the list, wherever they stand, leave a remote's keys as they are.
pub proof fn law_other_remotes_change_no_key(
    device: JsonView,
    before: Seq<JsonView>,
    others: Seq<JsonView>,
    after: Seq<JsonView>,
)
    requires
        candidates::own_buttons(candidates::button_groups(device), others).len() == 0,
    ensures
        candidates::keys_of(device, before + others + after) == candidates::keys_of(
            device,
            before + after,
        ),
{
    let groups = candidates::button_groups(device);
    let own_before = candidates::own_buttons(groups, before);
    let own_others = candidates::own_buttons(groups, others);
    lemma_own_buttons_together(groups, before, others);
    lemma_own_buttons_together(groups, before + others, after);
    lemma_own_buttons_together(groups, before, after);
    assert(own_before + own_others =~= own_before);
}

proof fn lemma_own_buttons_reordered(groups: Seq<Seq<char>>, a: Seq<JsonView>, b: Seq<JsonView>)
    requires
        a.to_multiset() == b.to_multiset(),
    ensures
        candidates::own_buttons(groups, a).to_multiset() == candidates::own_buttons(
            groups,
            b,
        ).to_multiset(),
    decreases a.len(),
{
    broadcast use vstd::seq_lib::group_to_multiset_ensures;

    assert(a.len() == b.len()) by {
        assert(a.to_multiset().len() == a.len());
        assert(b.to_multiset().len() == b.len());
    }
    if a.len() == 0 {
        assert(a =~= b);
    } else {
        let x = a.last();
        let sooner = a.drop_last();
        assert(a =~= sooner.push(x));
        assert(a.contains(x)) by {
            assert(a[a.len() - 1] == x);
        }
        assert(b.to_multiset().count(x) > 0);
        assert(b.contains(x));
        let j = choose|j: int| 0 <= j < b.len() && b[j] == x;
        let head = b.take(j);
        let tail = b.skip(j + 1);
        let one = seq![x];
        let rest = head + tail;
        assert(b =~= head + one + tail);
        assert(rest =~= b.remove(j));
        assert(b.remove(j).to_multiset() =~= b.to_multiset().remove(x));
        assert(sooner.to_multiset() =~= a.to_multiset().remove(x));
        lemma_own_buttons_reordered(groups, sooner, rest);
        lemma_own_buttons_together(groups, head, one);
        lemma_own_buttons_together(groups, head + one, tail);
        lemma_own_buttons_together(groups, head, tail);
        let own_head = candidates::own_buttons(groups, head);
        let own_tail = candidates::own_buttons(groups, tail);
        let own_x = candidates::own_button(groups, x);
        assert(one.drop_last() =~= Seq::<JsonView>::empty());
        assert(one.last() == x);
        reveal_with_fuel(candidates::own_buttons, 2);
        assert(candidates::own_buttons(groups, one) =~= own_x);
        vstd::seq_lib::lemma_multiset_commutative(own_head + own_x, own_tail);
        vstd::seq_lib::lemma_multiset_commutative(own_head, own_x);
        vstd::seq_lib::lemma_multiset_commutative(own_head, own_tail);
        vstd::seq_lib::lemma_multiset_commutative(candidates::own_buttons(groups, sooner), own_x);
        assert(candidates::own_buttons(groups, a).to_multiset() =~= candidates::own_buttons(
            groups,
            b,
        ).to_multiset());
    }
}

/// Whether no two buttons of a row have one number.
pub open spec fn have_own_numbers(row: Seq<(u64, Seq<char>)>) -> bool {
    forall|i: int, j: int| 0 <= i < j < row.len() ==> (#[trigger] row[i]).0 != (#[trigger] row[j]).0
}

proof fn lemma_own_numbers_reordered(a: Seq<(u64, Seq<char>)>, b: Seq<(u64, Seq<char>)>)
    requires
        a.to_multiset() == b.to_multiset(),
        have_own_numbers(a),
    ensures
        have_own_numbers(b),
{
    broadcast use vstd::seq_lib::group_to_multiset_ensures;

    assert(a.no_duplicates());
    a.lemma_multiset_has_no_duplicates();
    assert forall|x: (u64, Seq<char>)| b.to_multiset().contains(x) implies b.to_multiset().count(x)
        == 1 by {
        assert(a.to_multiset().contains(x));
    }
    b.lemma_multiset_has_no_duplicates_conv();
    assert forall|i: int, j: int| 0 <= i < j < b.len() implies (#[trigger] b[i]).0 != (
    #[trigger] b[j]).0 by {
        assert(b.contains(b[i]) && b.contains(b[j]));
        assert(a.to_multiset().count(b[i]) > 0 && a.to_multiset().count(b[j]) > 0);
        assert(a.contains(b[i]) && a.contains(b[j]));
        let k = choose|k: int| 0 <= k < a.len() && a[k] == b[i];
        let l = choose|l: int| 0 <= l < a.len() && a[l] == b[j];
        assert(b[i] != b[j]);
        assert(k < l || l < k);
        assert(a[k].0 != a[l].0);
    }
}

proof fn lemma_one_order(a: Seq<(u64, Seq<char>)>, b: Seq<(u64, Seq<char>)>)
    requires
        a.to_multiset() == b.to_multiset(),
        have_own_numbers(a),
        is_ascending(a),
        is_ascending(b),
    ensures
        a == b,
    decreases a.len(),
{
    broadcast use vstd::seq_lib::group_to_multiset_ensures;

    assert(a.len() == b.len()) by {
        assert(a.to_multiset().len() == a.len());
        assert(b.to_multiset().len() == b.len());
    }
    if a.len() == 0 {
        assert(a =~= b);
    } else {
        let n = a.len() - 1;
        let x = a[n];
        let y = b[n];
        lemma_own_numbers_reordered(a, b);
        assert(a.contains(x) && b.contains(y));
        assert(b.to_multiset().count(x) > 0 && a.to_multiset().count(y) > 0);
        assert(b.contains(x) && a.contains(y));
        let j = choose|j: int| 0 <= j < b.len() && b[j] == x;
        let k = choose|k: int| 0 <= k < a.len() && a[k] == y;
        assert(b[j].0 <= b[n].0);
        assert(a[k].0 <= a[n].0);
        assert(x == y) by {
            if j < n {
                assert(b[j].0 != b[n].0);
            }
        }
        assert(a =~= a.drop_last().push(x));
        assert(b =~= b.drop_last().push(x));
        assert(a.drop_last().to_multiset() =~= a.to_multiset().remove(x));
        assert(b.drop_last().to_multiset() =~= b.to_multiset().remove(x));
        lemma_one_order(a.drop_last(), b.drop_last());
    }
}

/// The order of the list decides nothing: where no two of a remote's buttons have one number, the
/// same buttons in any other order give it the same keys.
pub proof fn law_the_order_of_the_list_changes_no_key(
    device: JsonView,
    a: Seq<JsonView>,
    b: Seq<JsonView>,
)
    requires
        a.to_multiset() == b.to_multiset(),
        have_own_numbers(candidates::own_buttons(candidates::button_groups(device), a)),
    ensures
        candidates::keys_of(device, a) == candidates::keys_of(device, b),
{
    let groups = candidates::button_groups(device);
    let own_a = candidates::own_buttons(groups, a);
    let own_b = candidates::own_buttons(groups, b);
    lemma_own_buttons_reordered(groups, a, b);
    law_buttons_are_put_in_order(own_a, 0);
    law_buttons_are_put_in_order(own_b, 0);
    lemma_own_numbers_reordered(own_a, candidates::in_order(own_a));
    lemma_one_order(candidates::in_order(own_a), candidates::in_order(own_b));
}

/// A device that is behind the bridge makes at most one candidate, and none of them is the bridge.
pub proof fn law_a_device_is_offered_at_most_once(devices: Seq<JsonView>, buttons: Seq<JsonView>)
    ensures
        candidates::candidates_of(devices, buttons).len() <= devices.len(),
        forall|i: int|
            0 <= i < candidates::candidates_of(devices, buttons).len() ==> (
            #[trigger] candidates::candidates_of(devices, buttons)[i]).driver_id != BRIDGE_ID@,
    decreases devices.len(),
{
    lemma_driver_ids();
    if devices.len() > 0 {
        law_a_device_is_offered_at_most_once(devices.drop_last(), buttons);
    }
}

proof fn lemma_driver_ids()
    ensures
        tables::DIMMER_ID@ != BRIDGE_ID@,
        tables::SWITCH_ID@ != BRIDGE_ID@,
        tables::FAN_ID@ != BRIDGE_ID@,
        tables::SHADE_ID@ != BRIDGE_ID@,
        tables::PICO_ID@ != BRIDGE_ID@,
        tables::OCCUPANCY_ID@ != BRIDGE_ID@,
{
    reveal_strlit("lutron.caseta.leap_bridge");
    reveal_strlit("lutron.caseta.leap_dimmer");
    reveal_strlit("lutron.caseta.leap_switch");
    reveal_strlit("lutron.caseta.leap_fan");
    reveal_strlit("lutron.caseta.leap_shade");
    reveal_strlit("lutron.caseta.leap_pico");
    reveal_strlit("lutron.caseta.leap_occupancy");
    assert(BRIDGE_ID@[19] == 'b');
    assert(tables::DIMMER_ID@[19] == 'd');
    assert(tables::SWITCH_ID@[19] == 's');
    assert(tables::FAN_ID@[19] == 'f');
    assert(tables::SHADE_ID@[19] == 's');
    assert(tables::PICO_ID@[19] == 'p');
    assert(tables::OCCUPANCY_ID@[19] == 'o');
}

/// Whether one of the groups has a sensor in it and is at this href.
pub open spec fn is_watched_group(groups: Seq<JsonView>, href: JsonView) -> bool {
    exists|j: int|
        0 <= j < groups.len() && (#[trigger] groups[j]).get("href"@) == Some(href)
            && json::items_or_empty(groups[j].get("AssociatedSensors"@)).len() > 0
}

/// Only a group that has a sensor in it is offered, and as that group. None of them is the bridge.
pub proof fn law_only_a_watched_area_is_offered(areas: Seq<JsonView>, groups: Seq<JsonView>)
    ensures
        candidates::sensors_of(areas, groups).len() <= groups.len(),
        forall|i: int|
            0 <= i < candidates::sensors_of(areas, groups).len() ==> is_watched_group(
                groups,
                (#[trigger] candidates::sensors_of(areas, groups)[i]).properties["Occupancy href"@],
            ) && candidates::sensors_of(areas, groups)[i].driver_id != BRIDGE_ID@,
    decreases groups.len(),
{
    lemma_driver_ids();
    if groups.len() > 0 {
        let sooner = groups.drop_last();
        law_only_a_watched_area_is_offered(areas, sooner);
        let before = candidates::sensors_of(areas, sooner);
        let all = candidates::sensors_of(areas, groups);
        assert forall|i: int| 0 <= i < all.len() implies is_watched_group(
            groups,
            (#[trigger] all[i]).properties["Occupancy href"@],
        ) && all[i].driver_id != BRIDGE_ID@ by {
            if i < before.len() {
                assert(all[i] == before[i]);
                let href = before[i].properties["Occupancy href"@];
                let j = choose|j: int|
                    0 <= j < sooner.len() && (#[trigger] sooner[j]).get("href"@) == Some(href)
                        && json::items_or_empty(sooner[j].get("AssociatedSensors"@)).len() > 0;
                assert(groups[j] == sooner[j]);
            } else {
                assert(groups[groups.len() - 1] == groups.last());
            }
        }
    }
}

/// Browsing a bridge never offers the bridge itself.
pub proof fn law_browsing_never_offers_the_bridge(state: JsonView, groups: Seq<JsonView>)
    ensures
        forall|i: int|
            0 <= i < candidates::gathered(state, false, groups).len() ==> (
            #[trigger] candidates::gathered(state, false, groups)[i]).driver_id != BRIDGE_ID@,
{
    let devices = json::items_or_empty(state.get("devices_json"@));
    let buttons = json::items_or_empty(state.get("buttons_json"@));
    let areas = json::items_or_empty(state.get("areas_json"@));
    law_a_device_is_offered_at_most_once(devices, buttons);
    law_only_a_watched_area_is_offered(areas, groups);
    let found = candidates::candidates_of(devices, buttons);
    let sensors = candidates::sensors_of(areas, groups);
    assert(candidates::offered(state, false, devices, buttons) =~= found);
    let all = candidates::gathered(state, false, groups);
    assert forall|i: int| 0 <= i < all.len() implies (#[trigger] all[i]).driver_id != BRIDGE_ID@ by {
        if i < found.len() {
            assert(all[i] == found[i]);
        } else {
            assert(all[i] == sensors[i - found.len()]);
        }
    }
}

} // verus!
