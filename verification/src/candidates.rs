//! What stands behind a bridge, as devices to adopt.

use crate::device::{self, button_name, CasetaLeap};
use crate::host::{Candidate, CandidateView};
use crate::json::{
    self, array_of, dict1, dict3, items_copied, row, str_of, str_or_empty, string, u64_of, Dict, Json,
    JsonView,
};
use crate::messages::joined;
use crate::tables::{
    self, adopter, is_pico, pico_keys, zoned, Kind, BRIDGE_ID, MAX_BUTTONS, OCCUPANCY_ID, PICO_ID,
};
use crate::text::{self, empty_text};
use vstd::prelude::*;

verus! {

/// What a device is called where the bridge does not say.
pub const UNNAMED: &'static str = "Caséta device";

/// The texts among some values, in their order.
pub open spec fn texts(items: Seq<JsonView>) -> Seq<Seq<char>>
    decreases items.len(),
{
    if items.len() == 0 {
        Seq::empty()
    } else {
        match items.last().as_text() {
            Some(s) => texts(items.drop_last()).push(s),
            None => texts(items.drop_last()),
        }
    }
}

/// The path of areas that a device is filed under, with its own name on the end.
pub open spec fn path_of(device: JsonView) -> Seq<Seq<char>> {
    texts(json::items_or_empty(device.get("FullyQualifiedName"@)))
}

/// What a device is called.
pub open spec fn name_of(device: JsonView) -> Seq<char> {
    let path = path_of(device);
    if path.len() > 0 {
        path.last()
    } else {
        match json::text_of(device.get("Name"@)) {
            Some(name) => name,
            None => UNNAMED@,
        }
    }
}

/// The innermost area that a device is filed under, or nothing.
pub open spec fn room_of(device: JsonView) -> Seq<char> {
    let path = path_of(device);
    if path.len() >= 2 {
        path[path.len() - 2]
    } else {
        Seq::empty()
    }
}

/// The hrefs of some values that have one, in their order.
pub open spec fn hrefs(items: Seq<JsonView>) -> Seq<Seq<char>>
    decreases items.len(),
{
    if items.len() == 0 {
        Seq::empty()
    } else {
        match json::text_of(items.last().get("href"@)) {
            Some(s) => hrefs(items.drop_last()).push(s),
            None => hrefs(items.drop_last()),
        }
    }
}

/// The button groups of a remote.
pub open spec fn button_groups(device: JsonView) -> Seq<Seq<char>> {
    hrefs(json::items_or_empty(device.get("ButtonGroups"@)))
}

/// One button as its number and its href, where it stands in one of these groups.
pub open spec fn own_button(groups: Seq<Seq<char>>, button: JsonView) -> Seq<(u64, Seq<char>)> {
    match (
        json::text_of(button.get2("Parent"@, "href"@)),
        json::unsigned_of(button.get("ButtonNumber"@)),
        json::text_of(button.get("href"@)),
    ) {
        (Some(parent), Some(number), Some(href)) => if groups.contains(parent) {
            seq![(number, href)]
        } else {
            Seq::empty()
        },
        _ => Seq::empty(),
    }
}

/// The buttons that stand in these groups, in the order of the list.
pub open spec fn own_buttons(groups: Seq<Seq<char>>, buttons: Seq<JsonView>) -> Seq<(u64, Seq<char>)>
    decreases buttons.len(),
{
    if buttons.len() == 0 {
        Seq::empty()
    } else {
        own_buttons(groups, buttons.drop_last()) + own_button(groups, buttons.last())
    }
}

/// A row with one more button in it, behind the last one whose number is not greater.
pub open spec fn placed(row: Seq<(u64, Seq<char>)>, button: (u64, Seq<char>)) -> Seq<(u64, Seq<char>)>
    decreases row.len(),
{
    if row.len() == 0 || row.last().0 <= button.0 {
        row.push(button)
    } else {
        placed(row.drop_last(), button).push(row.last())
    }
}

/// Some buttons in the order of their numbers. Two with the same number keep theirs.
pub open spec fn in_order(buttons: Seq<(u64, Seq<char>)>) -> Seq<(u64, Seq<char>)>
    decreases buttons.len(),
{
    if buttons.len() == 0 {
        Seq::empty()
    } else {
        placed(in_order(buttons.drop_last()), buttons.last())
    }
}

/// The href of the first button with this number.
pub open spec fn numbered(row: Seq<(u64, Seq<char>)>, number: u64) -> Option<Seq<char>>
    decreases row.len(),
{
    if row.len() == 0 {
        None
    } else if row[0].0 == number {
        Some(row[0].1)
    } else {
        numbered(row.drop_first(), number)
    }
}

/// The keys that a model has and that the bridge listed: the href and the engraving of each.
pub open spec fn engraved(keys: Seq<(u64, Seq<char>)>, row: Seq<(u64, Seq<char>)>) -> Seq<
    (Seq<char>, Seq<char>),
>
    decreases keys.len(),
{
    if keys.len() == 0 {
        Seq::empty()
    } else {
        match numbered(row, keys.last().0) {
            Some(href) => engraved(keys.drop_last(), row).push((href, keys.last().1)),
            None => engraved(keys.drop_last(), row),
        }
    }
}

/// What the key at a position is called where nobody wrote the model down.
pub open spec fn position_label(position: nat) -> Seq<char> {
    "Button "@ + text::decimal(position)
}

/// The first few keys of a row, numbered from one.
pub open spec fn unengraved(row: Seq<(u64, Seq<char>)>) -> Seq<(Seq<char>, Seq<char>)> {
    Seq::new(
        if row.len() <= MAX_BUTTONS {
            row.len()
        } else {
            MAX_BUTTONS as nat
        },
        |i: int| (row[i].1, position_label((i + 1) as nat)),
    )
}

/// The keys of a remote, in the order of their numbers: the href of each and what it is called.
pub open spec fn keys_of(device: JsonView, buttons: Seq<JsonView>) -> Seq<(Seq<char>, Seq<char>)> {
    let row = in_order(own_buttons(button_groups(device), buttons));
    match tables::engraved_keys(json::text_or_empty(device.get("DeviceType"@))) {
        Some(keys) => engraved(keys, row),
        None => unengraved(row),
    }
}

/// The second of each pair.
pub open spec fn labels_of(keys: Seq<(Seq<char>, Seq<char>)>) -> Seq<Seq<char>> {
    Seq::new(keys.len(), |i: int| keys[i].1)
}

/// What a remote with these labels on its keys can do.
pub open spec fn remote_capabilities(labels: Seq<Seq<char>>) -> Map<Seq<char>, JsonView> {
    map![
        "key_count"@ => JsonView::Unsigned(labels.len() as u64),
        "key_labels"@ => JsonView::Text(text::separated(labels, ","@)),
        "has_battery"@ => JsonView::Bool(true),
        "has_hold"@ => JsonView::Bool(true),
    ]
}

/// What is written down of a remote: its own place, and the href of each key.
pub open spec fn remote_properties(device: JsonView, keys: Seq<(Seq<char>, Seq<char>)>) -> Map<
    Seq<char>,
    JsonView,
>
    decreases keys.len(),
{
    if keys.len() == 0 {
        map!["Device href"@ => JsonView::Text(json::text_or_empty(device.get("href"@)))]
    } else {
        remote_properties(device, keys.drop_last()).insert(
            device::button_property(keys.len()),
            JsonView::Text(keys.last().0),
        )
    }
}

/// The zone that a device has, if any.
pub open spec fn local_zone(device: JsonView) -> Option<Seq<char>> {
    match device.get("LocalZones"@) {
        Some(zones) => match zones.head() {
            Some(zone) => json::text_of(zone.get("href"@)),
            None => None,
        },
        None => None,
    }
}

/// Whether a shade has slats, which only the model knows. Nothing but a shade says.
pub open spec fn zone_capabilities(kind: Kind, device_type: Seq<char>) -> Map<Seq<char>, JsonView> {
    if kind == Kind::Shade {
        map!["supports_tilt"@ => JsonView::Bool(text::occurs_in("Tilt"@, device_type))]
    } else {
        Map::empty()
    }
}

/// The candidate for a device that drives a zone.
pub open spec fn zone_candidate(device: JsonView, kind: Kind, zone: Seq<char>) -> CandidateView {
    CandidateView {
        label: name_of(device),
        room: room_of(device),
        kind: tables::proxy_of(kind),
        driver_id: tables::driver_of(kind),
        properties: map![
            "Zone"@ => JsonView::Text(zone),
            "Device href"@ => JsonView::Text(json::text_or_empty(device.get("href"@))),
            "Kind"@ => JsonView::Text(tables::kind_word(kind)),
        ],
        capabilities: zone_capabilities(kind, json::text_or_empty(device.get("DeviceType"@))),
        verified: "found on bridge"@,
    }
}

/// The candidate for a remote with these keys.
pub open spec fn remote_candidate(
    device: JsonView,
    keys: Seq<(Seq<char>, Seq<char>)>,
) -> CandidateView {
    CandidateView {
        label: name_of(device),
        room: room_of(device),
        kind: "keypad"@,
        driver_id: PICO_ID@,
        properties: remote_properties(device, keys),
        capabilities: remote_capabilities(labels_of(keys)),
        verified: "found on bridge"@,
    }
}

/// The candidate that a device makes, if any: a zone that can be commanded, or a remote that has
/// keys.
pub open spec fn candidate_of(device: JsonView, buttons: Seq<JsonView>) -> Seq<CandidateView> {
    let device_type = json::text_or_empty(device.get("DeviceType"@));
    match tables::zone_kind(device_type) {
        Some(kind) => match local_zone(device) {
            Some(zone) => seq![zone_candidate(device, kind, zone)],
            None => Seq::empty(),
        },
        None => if tables::is_remote(device_type) && keys_of(device, buttons).len() > 0 {
            seq![remote_candidate(device, keys_of(device, buttons))]
        } else {
            Seq::empty()
        },
    }
}

/// The candidates that some devices make, in their order.
pub open spec fn candidates_of(devices: Seq<JsonView>, buttons: Seq<JsonView>) -> Seq<CandidateView>
    decreases devices.len(),
{
    if devices.len() == 0 {
        Seq::empty()
    } else {
        candidates_of(devices.drop_last(), buttons) + candidate_of(devices.last(), buttons)
    }
}

/// What is written down of a bridge that was just paired.
pub open spec fn bridge_properties(state: JsonView) -> Map<Seq<char>, JsonView> {
    map![
        "Address"@ => JsonView::Text(json::text_or_empty(state.get("address"@))),
        "Client certificate"@ => JsonView::Text(json::text_or_empty(state.get("cert_pem"@))),
        "Client key"@ => JsonView::Text(json::text_or_empty(state.get("key_pem"@))),
        "CA certificate"@ => JsonView::Text(json::text_or_empty(state.get("ca_pem"@))),
    ]
}

/// The candidate for a bridge that was just paired.
pub open spec fn bridge_candidate(state: JsonView) -> CandidateView {
    CandidateView {
        label: "Caséta Smart Bridge"@,
        room: Seq::empty(),
        kind: "bridge"@,
        driver_id: BRIDGE_ID@,
        properties: bridge_properties(state),
        capabilities: Map::empty(),
        verified: "paired"@,
    }
}

/// The bridge where it is wanted, and what the devices make.
pub open spec fn offered(
    state: JsonView,
    include_bridge: bool,
    devices: Seq<JsonView>,
    buttons: Seq<JsonView>,
) -> Seq<CandidateView> {
    (if include_bridge {
        seq![bridge_candidate(state)]
    } else {
        Seq::empty()
    }) + candidates_of(devices, buttons)
}

/// What the first area at `href` is called, or nothing.
pub open spec fn area_name(areas: Seq<JsonView>, href: Seq<char>) -> Seq<char>
    decreases areas.len(),
{
    if areas.len() == 0 {
        Seq::empty()
    } else if json::text_of(areas[0].get("href"@)) == Some(href) {
        json::text_or_empty(areas[0].get("Name"@))
    } else {
        area_name(areas.drop_first(), href)
    }
}

/// The area that an occupancy group watches.
pub open spec fn watched_area(group: JsonView) -> Option<Seq<char>> {
    match group.get("AssociatedAreas"@) {
        Some(areas) => match areas.head() {
            Some(area) => json::text_of(area.get2("Area"@, "href"@)),
            None => None,
        },
        None => None,
    }
}

/// The candidate for an occupancy group in the area of this name.
pub open spec fn sensor_candidate(href: Seq<char>, area: Seq<char>) -> CandidateView {
    CandidateView {
        label: if area.len() == 0 {
            "Occupancy"@
        } else {
            area + " Occupancy"@
        },
        room: area,
        kind: "sensor"@,
        driver_id: OCCUPANCY_ID@,
        properties: map!["Occupancy href"@ => JsonView::Text(href)],
        capabilities: Map::empty(),
        verified: "found on bridge"@,
    }
}

/// The candidate that an occupancy group makes: none, where nobody put a sensor in it.
pub open spec fn sensor_of(areas: Seq<JsonView>, group: JsonView) -> Seq<CandidateView> {
    match json::text_of(group.get("href"@)) {
        Some(href) => if json::items_or_empty(group.get("AssociatedSensors"@)).len() > 0 {
            let area = match watched_area(group) {
                Some(watched) => area_name(areas, watched),
                None => Seq::empty(),
            };
            seq![sensor_candidate(href, area)]
        } else {
            Seq::empty()
        },
        None => Seq::empty(),
    }
}

/// The candidates that some occupancy groups make, in their order.
pub open spec fn sensors_of(areas: Seq<JsonView>, groups: Seq<JsonView>) -> Seq<CandidateView>
    decreases groups.len(),
{
    if groups.len() == 0 {
        Seq::empty()
    } else {
        sensors_of(areas, groups.drop_last()) + sensor_of(areas, groups.last())
    }
}

/// Everything that the setup flow gathered.
pub open spec fn gathered(state: JsonView, include_bridge: bool, groups: Seq<JsonView>) -> Seq<
    CandidateView,
> {
    offered(
        state,
        include_bridge,
        json::items_or_empty(state.get("devices_json"@)),
        json::items_or_empty(state.get("buttons_json"@)),
    ) + sensors_of(json::items_or_empty(state.get("areas_json"@)), groups)
}

fn collect_texts(items: &Vec<Json>) -> (r: Vec<String>)
    ensures
        r.deep_view() == texts(items.deep_view()),
{
    let ghost all = items.deep_view();
    let mut out: Vec<String> = Vec::new();
    let mut i: usize = 0;
    proof {
        assert(all.take(0) =~= Seq::<JsonView>::empty());
        assert(out.deep_view() =~= Seq::<Seq<char>>::empty());
    }
    while i < items.len()
        invariant
            i <= items@.len(),
            all == items.deep_view(),
            out.deep_view() == texts(all.take(i as int)),
        decreases items@.len() - i,
    {
        let ghost before = out.deep_view();
        proof {
            assert(all.take(i + 1).drop_last() =~= all.take(i as int));
            assert(all.take(i + 1).last() == items@[i as int]@);
        }
        match items[i].as_str() {
            Some(s) => {
                out.push(s.to_owned());
                assert(out.deep_view() =~= before.push(s@));
            },
            None => {},
        }
        i += 1;
    }
    assert(all.take(i as int) =~= all);
    out
}

/// What the app calls this device, and which of its areas it sits in.
///
/// The qualified name is the path of areas with the device's own name on the end, so the name is
/// the last part and the room is the one before it. Nothing but a name means that the device is
/// filed under no area at all, which is an answer and not one to guess past.
pub fn caseta_name(device: &Json) -> (r: (String, String))
    ensures
        r.0@ == name_of(device@),
        r.1@ == room_of(device@),
{
    let path = match array_of(device.get("FullyQualifiedName")) {
        Some(parts) => collect_texts(parts),
        None => {
            let none: Vec<String> = Vec::new();
            assert(none.deep_view() =~= texts(Seq::<JsonView>::empty()));
            none
        },
    };
    let n: usize = path.len();
    assert(path.deep_view() == path_of(device@));
    let name = if n > 0 {
        path[n - 1].as_str().to_owned()
    } else {
        match str_of(device.get("Name")) {
            Some(name) => name.to_owned(),
            None => UNNAMED.to_owned(),
        }
    };
    let room = if n >= 2 {
        path[n - 2].as_str().to_owned()
    } else {
        empty_text()
    };
    (name, room)
}

fn collect_hrefs(items: &Vec<Json>) -> (r: Vec<String>)
    ensures
        r.deep_view() == hrefs(items.deep_view()),
{
    let ghost all = items.deep_view();
    let mut out: Vec<String> = Vec::new();
    let mut i: usize = 0;
    proof {
        assert(all.take(0) =~= Seq::<JsonView>::empty());
        assert(out.deep_view() =~= Seq::<Seq<char>>::empty());
    }
    while i < items.len()
        invariant
            i <= items@.len(),
            all == items.deep_view(),
            out.deep_view() == hrefs(all.take(i as int)),
        decreases items@.len() - i,
    {
        let ghost before = out.deep_view();
        proof {
            assert(all.take(i + 1).drop_last() =~= all.take(i as int));
            assert(all.take(i + 1).last() == items@[i as int]@);
        }
        match str_of(items[i].get("href")) {
            Some(s) => {
                out.push(s.to_owned());
                assert(out.deep_view() =~= before.push(s@));
            },
            None => {},
        }
        i += 1;
    }
    assert(all.take(i as int) =~= all);
    out
}

fn is_among(texts: &Vec<String>, wanted: &str) -> (r: bool)
    ensures
        r == texts.deep_view().contains(wanted@),
{
    let ghost all = texts.deep_view();
    let mut i: usize = 0;
    while i < texts.len()
        invariant
            i <= texts@.len(),
            all == texts.deep_view(),
            forall|k: int| 0 <= k < i ==> #[trigger] all[k] != wanted@,
        decreases texts@.len() - i,
    {
        assert(all[i as int] == texts@[i as int]@);
        if text::same(texts[i].as_str(), wanted) {
            return true;
        }
        i += 1;
    }
    false
}

/// Put a button into a row behind the last one whose number is not greater.
fn place(row: &mut Vec<(u64, String)>, button: (u64, String))
    ensures
        final(row).deep_view() == placed(old(row).deep_view(), button.deep_view()),
{
    let ghost before = row.deep_view();
    let ghost b = button.deep_view();
    let mut p: usize = row.len();
    assert(before.take(p as int) =~= before);
    assert(placed(before, b) =~= placed(before.take(p as int), b) + before.skip(p as int));
    while p > 0 && row[p - 1].0 > button.0
        invariant
            p <= row@.len(),
            before == row.deep_view(),
            b == button.deep_view(),
            placed(before, b) == placed(before.take(p as int), b) + before.skip(p as int),
        decreases p,
    {
        proof {
            let shorter = before.take(p as int);
            assert(shorter.drop_last() =~= before.take(p - 1));
            assert(shorter.last() == before[p - 1]);
            assert(before[p - 1].0 == row@[p - 1].0);
            assert(before.skip(p - 1) =~= seq![before[p - 1]] + before.skip(p as int));
            assert(placed(before, b) =~= placed(before.take(p - 1), b) + before.skip(p - 1));
        }
        p -= 1;
    }
    proof {
        let shorter = before.take(p as int);
        assert(p > 0 ==> shorter.last() == before[p - 1] && before[p - 1].0 == row@[p - 1].0);
        assert(placed(shorter, b) == shorter.push(b));
    }
    row.insert(p, button);
    assert(row.deep_view() =~= before.take(p as int).push(b) + before.skip(p as int));
}

/// One remote's buttons in the order of their numbers, out of the list of every button.
fn ordered_buttons(groups: &Vec<String>, buttons: &[Json]) -> (r: Vec<(u64, String)>)
    ensures
        r.deep_view() == in_order(own_buttons(groups.deep_view(), buttons.deep_view())),
{
    let ghost all = buttons.deep_view();
    let ghost g = groups.deep_view();
    let mut row: Vec<(u64, String)> = Vec::new();
    let mut i: usize = 0;
    proof {
        assert(all.take(0) =~= Seq::<JsonView>::empty());
        assert(row.deep_view() =~= in_order(own_buttons(g, all.take(0))));
    }
    while i < buttons.len()
        invariant
            i <= buttons@.len(),
            all == buttons.deep_view(),
            g == groups.deep_view(),
            row.deep_view() == in_order(own_buttons(g, all.take(i as int))),
        decreases buttons@.len() - i,
    {
        let button = &buttons[i];
        let ghost so_far = own_buttons(g, all.take(i as int));
        proof {
            assert(all.take(i + 1).drop_last() =~= all.take(i as int));
            assert(all.take(i + 1).last() == button@);
        }
        match (
            str_of(button.get2("Parent", "href")),
            u64_of(button.get("ButtonNumber")),
            str_of(button.get("href")),
        ) {
            (Some(parent), Some(number), Some(href)) => {
                if is_among(groups, parent) {
                    place(&mut row, (number, href.to_owned()));
                    proof {
                        let next = so_far + own_button(g, button@);
                        assert(next.drop_last() =~= so_far);
                        assert(next.last() == (number, href@));
                    }
                } else {
                    assert(so_far + own_button(g, button@) =~= so_far);
                }
            },
            _ => {
                assert(so_far + own_button(g, button@) =~= so_far);
            },
        }
        i += 1;
    }
    assert(all.take(i as int) =~= all);
    row
}

fn find_numbered(row: &Vec<(u64, String)>, number: u64) -> (r: Option<&str>)
    ensures
        r.deep_view() == numbered(row.deep_view(), number),
{
    let ghost all = row.deep_view();
    let mut i: usize = 0;
    assert(all.skip(0) =~= all);
    while i < row.len()
        invariant
            i <= row@.len(),
            all == row.deep_view(),
            numbered(all, number) == numbered(all.skip(i as int), number),
        decreases row@.len() - i,
    {
        assert(all.skip(i as int)[0] == (row@[i as int].0, row@[i as int].1@));
        if row[i].0 == number {
            return Some(row[i].1.as_str());
        }
        assert(all.skip(i as int).drop_first() =~= all.skip(i + 1));
        i += 1;
    }
    None
}

fn engrave(keys: &Vec<(u64, &'static str)>, row: &Vec<(u64, String)>) -> (r: Vec<(String, String)>)
    ensures
        r.deep_view() == engraved(keys.deep_view(), row.deep_view()),
{
    let ghost all = keys.deep_view();
    let mut out: Vec<(String, String)> = Vec::new();
    let mut i: usize = 0;
    proof {
        assert(all.take(0) =~= Seq::<(u64, Seq<char>)>::empty());
        assert(out.deep_view() =~= Seq::<(Seq<char>, Seq<char>)>::empty());
    }
    while i < keys.len()
        invariant
            i <= keys@.len(),
            all == keys.deep_view(),
            out.deep_view() == engraved(all.take(i as int), row.deep_view()),
        decreases keys@.len() - i,
    {
        let ghost before = out.deep_view();
        proof {
            assert(all.take(i + 1).drop_last() =~= all.take(i as int));
            assert(all.take(i + 1).last() == (keys@[i as int].0, keys@[i as int].1@));
        }
        match find_numbered(row, keys[i].0) {
            Some(href) => {
                out.push((href.to_owned(), keys[i].1.to_owned()));
                assert(out.deep_view() =~= before.push((href@, keys@[i as int].1@)));
            },
            None => {},
        }
        i += 1;
    }
    assert(all.take(i as int) =~= all);
    out
}

fn number_off(row: &Vec<(u64, String)>) -> (r: Vec<(String, String)>)
    ensures
        r.deep_view() == unengraved(row.deep_view()),
{
    let mut out: Vec<(String, String)> = Vec::new();
    let mut i: usize = 0;
    while i < row.len() && i < MAX_BUTTONS
        invariant
            i <= row@.len(),
            i <= MAX_BUTTONS,
            out@.len() == i,
            forall|k: int|
                0 <= k < i ==> (#[trigger] out@[k]).deep_view() == (
                    row@[k].1@,
                    position_label((k + 1) as nat),
                ),
        decreases row@.len() - i,
    {
        let digits = text::to_decimal(i as u64 + 1);
        out.push((row[i].1.as_str().to_owned(), joined("Button ", digits.as_str())));
        i += 1;
    }
    assert(out.deep_view() =~= unengraved(row.deep_view()));
    out
}

/// This Pico's keys: each one's href and what it is called, in the order of the numbers that the
/// bridge gave them.
///
/// The bridge lists five buttons under a remote that has two, so the model is the only thing that
/// says which are real. A model that nobody wrote down keeps every key that the bridge listed,
/// numbered, up to the most that any remote has.
pub fn pico_keys_of(device: &Json, buttons: &[Json]) -> (r: Vec<(String, String)>)
    ensures
        r.deep_view() == keys_of(device@, buttons.deep_view()),
{
    let listed = items_copied(device.get("ButtonGroups"));
    let groups = collect_hrefs(&listed);
    let row = ordered_buttons(&groups, buttons);
    match pico_keys(str_or_empty(device.get("DeviceType"))) {
        Some(keys) => engrave(&keys, &row),
        None => number_off(&row),
    }
}

/// What a Pico's keypad can do, by the labels on its keys.
pub fn pico_capabilities(labels: &[&str]) -> (r: Dict)
    ensures
        r@ == remote_capabilities(labels.deep_view()),
{
    let mut r = dict3(
        "key_count",
        Json::Unsigned(labels.len() as u64),
        "key_labels",
        Json::Text(text::join(labels, ",")),
        "has_battery",
        Json::Bool(true),
    );
    r.insert("has_hold", Json::Bool(true));
    assert(r@ =~= remote_capabilities(labels.deep_view()));
    r
}

fn remember_keys(device: &Json, keys: &Vec<(String, String)>) -> (r: Dict)
    requires
        keys@.len() <= u64::MAX,
    ensures
        r@ == remote_properties(device@, keys.deep_view()),
{
    let ghost all = keys.deep_view();
    let mut props = dict1("Device href", string(str_or_empty(device.get("href"))));
    let mut i: usize = 0;
    assert(all.take(0) =~= Seq::<(Seq<char>, Seq<char>)>::empty());
    while i < keys.len()
        invariant
            i <= keys@.len() <= u64::MAX,
            all == keys.deep_view(),
            props@ == remote_properties(device@, all.take(i as int)),
        decreases keys@.len() - i,
    {
        proof {
            assert(all.take(i + 1).drop_last() =~= all.take(i as int));
            assert(all.take(i + 1).last() == (keys@[i as int].0@, keys@[i as int].1@));
        }
        let name = button_name(i as u64 + 1);
        props.insert(name.as_str(), string(keys[i].0.as_str()));
        i += 1;
    }
    assert(all.take(i as int) =~= all);
    props
}

fn collect_labels(keys: &Vec<(String, String)>) -> (r: Vec<&str>)
    ensures
        r.deep_view() == labels_of(keys.deep_view()),
{
    let mut out: Vec<&str> = Vec::new();
    let mut i: usize = 0;
    while i < keys.len()
        invariant
            i <= keys@.len(),
            out@.len() == i,
            forall|k: int| 0 <= k < i ==> (#[trigger] out@[k])@ == keys@[k].1@,
        decreases keys@.len() - i,
    {
        out.push(keys[i].1.as_str());
        i += 1;
    }
    assert(out.deep_view() =~= labels_of(keys.deep_view()));
    out
}

fn find_zone(device: &Json) -> (r: Option<&str>)
    ensures
        r.deep_view() == local_zone(device@),
{
    match device.get("LocalZones") {
        Some(zones) => match zones.head() {
            Some(zone) => str_of(zone.get("href")),
            None => None,
        },
        None => None,
    }
}

fn adopt_zone(device: &Json, kind: Kind, zone: &str) -> (r: Candidate)
    ensures
        r.deep_view() == zone_candidate(device@, kind, zone@),
{
    let (name, room) = caseta_name(device);
    let (driver_id, proxy) = adopter(kind);
    let capabilities = if matches!(kind, Kind::Shade) {
        let tilts = text::contains(str_or_empty(device.get("DeviceType")), "Tilt");
        dict1("supports_tilt", Json::Bool(tilts))
    } else {
        Dict::new()
    };
    Candidate {
        label: name,
        room,
        kind: proxy.to_owned(),
        driver_id: driver_id.to_owned(),
        properties: dict3(
            "Zone",
            string(zone),
            "Device href",
            string(str_or_empty(device.get("href"))),
            "Kind",
            string(kind.as_str()),
        ),
        capabilities,
        verified: "found on bridge".to_owned(),
    }
}

fn adopt_remote(device: &Json, keys: &Vec<(String, String)>) -> (r: Candidate)
    requires
        keys@.len() <= u64::MAX,
    ensures
        r.deep_view() == remote_candidate(device@, keys.deep_view()),
{
    let (name, room) = caseta_name(device);
    let labels = collect_labels(keys);
    let slice = labels.as_slice();
    assert(slice.deep_view() =~= labels.deep_view());
    Candidate {
        label: name,
        room,
        kind: "keypad".to_owned(),
        driver_id: PICO_ID.to_owned(),
        properties: remember_keys(device, keys),
        capabilities: pico_capabilities(slice),
        verified: "found on bridge".to_owned(),
    }
}

/// Whether a device can be adopted, and as what. Every zone looks the same on the wire; only the
/// device's type tells them apart, so the answer is written down.
pub fn found_device(device: &Json, buttons: &[Json]) -> (r: Option<Candidate>)
    ensures
        (match r {
            Some(c) => seq![c.deep_view()],
            None => Seq::empty(),
        }) == candidate_of(device@, buttons.deep_view()),
{
    let device_type = str_or_empty(device.get("DeviceType"));
    match zoned(device_type) {
        Some(kind) => match find_zone(device) {
            Some(zone) => Some(adopt_zone(device, kind, zone)),
            None => None,
        },
        None => {
            if !is_pico(device_type) {
                return None;
            }
            let keys = pico_keys_of(device, buttons);
            if keys.len() == 0 {
                return None;
            }
            Some(adopt_remote(device, &keys))
        },
    }
}

fn adopt_bridge(state: &Json) -> (r: Candidate)
    ensures
        r.deep_view() == bridge_candidate(state@),
{
    let mut props = dict3(
        "Address",
        string(str_or_empty(state.get("address"))),
        "Client certificate",
        string(str_or_empty(state.get("cert_pem"))),
        "Client key",
        string(str_or_empty(state.get("key_pem"))),
    );
    props.insert("CA certificate", string(str_or_empty(state.get("ca_pem"))));
    assert(props@ =~= bridge_properties(state@));
    Candidate {
        label: "Caséta Smart Bridge".to_owned(),
        room: empty_text(),
        kind: "bridge".to_owned(),
        driver_id: BRIDGE_ID.to_owned(),
        properties: props,
        capabilities: Dict::new(),
        verified: "paired".to_owned(),
    }
}

impl CasetaLeap {
    /// What a bridge and the devices behind it make.
    pub fn candidates(
        state: &Json,
        include_bridge: bool,
        devices: &[Json],
        buttons: &[Json],
    ) -> (r: Vec<Candidate>)
        ensures
            r.deep_view() == offered(
                state@,
                include_bridge,
                devices.deep_view(),
                buttons.deep_view(),
            ),
    {
        let ghost all = devices.deep_view();
        let ghost b = buttons.deep_view();
        let mut out: Vec<Candidate> = Vec::new();
        if include_bridge {
            out.push(adopt_bridge(state));
        }
        let ghost start = out.deep_view();
        let mut i: usize = 0;
        proof {
            assert(start =~= offered(state@, include_bridge, Seq::empty(), b));
            assert(all.take(0) =~= Seq::<JsonView>::empty());
            assert(start =~= start + candidates_of(all.take(0), b));
        }
        while i < devices.len()
            invariant
                i <= devices@.len(),
                all == devices.deep_view(),
                b == buttons.deep_view(),
                out.deep_view() == start + candidates_of(all.take(i as int), b),
            decreases devices@.len() - i,
        {
            let ghost before = out.deep_view();
            let ghost so_far = candidates_of(all.take(i as int), b);
            match found_device(&devices[i], buttons) {
                Some(c) => {
                    out.push(c);
                    assert(out.deep_view() =~= before.push(c.deep_view()));
                },
                None => {},
            }
            proof {
                let d = devices@[i as int]@;
                assert(all.take(i + 1).drop_last() =~= all.take(i as int));
                assert(all.take(i + 1).last() == d);
                assert(out.deep_view() =~= before + candidate_of(d, b));
                assert(start + (so_far + candidate_of(d, b)) =~= start + so_far + candidate_of(
                    d,
                    b,
                ));
            }
            i += 1;
        }
        assert(all.take(i as int) =~= all);
        out
    }

    /// Everything that the flow gathered, as one list. The devices, their buttons and the areas
    /// were carried along; the groups arrived last.
    pub fn all_candidates(state: &Json, include_bridge: bool, groups: &[Json]) -> (r: Vec<
        Candidate,
    >)
        ensures
            r.deep_view() == gathered(state@, include_bridge, groups.deep_view()),
    {
        let devices = items_copied(state.get("devices_json"));
        let buttons = items_copied(state.get("buttons_json"));
        let areas = items_copied(state.get("areas_json"));
        let mut out = Self::candidates(state, include_bridge, row(&devices), row(&buttons));
        let mut sensors = occupancy_candidates(row(&areas), groups);
        let ghost a = out.deep_view();
        let ghost b = sensors.deep_view();
        out.append(&mut sensors);
        assert(out.deep_view() =~= a + b);
        out
    }
}

fn find_area(areas: &[Json], href: &str) -> (r: String)
    ensures
        r@ == area_name(areas.deep_view(), href@),
{
    let ghost all = areas.deep_view();
    let mut i: usize = 0;
    assert(all.skip(0) =~= all);
    while i < areas.len()
        invariant
            i <= areas@.len(),
            all == areas.deep_view(),
            area_name(all, href@) == area_name(all.skip(i as int), href@),
        decreases areas@.len() - i,
    {
        assert(all.skip(i as int)[0] == areas@[i as int]@);
        match str_of(areas[i].get("href")) {
            Some(there) => {
                if text::same(there, href) {
                    return str_or_empty(areas[i].get("Name")).to_owned();
                }
            },
            None => {},
        }
        assert(all.skip(i as int).drop_first() =~= all.skip(i + 1));
        i += 1;
    }
    empty_text()
}

fn find_watched(group: &Json) -> (r: Option<&str>)
    ensures
        r.deep_view() == watched_area(group@),
{
    match group.get("AssociatedAreas") {
        Some(areas) => match areas.head() {
            Some(area) => str_of(area.get2("Area", "href")),
            None => None,
        },
        None => None,
    }
}

/// Whether an occupancy group can be adopted. Every bridge has one per room whether or not
/// anything reports, and those that nothing reports to would never say a word.
pub fn found_sensor(areas: &[Json], group: &Json) -> (r: Option<Candidate>)
    ensures
        (match r {
            Some(c) => seq![c.deep_view()],
            None => Seq::empty(),
        }) == sensor_of(areas.deep_view(), group@),
{
    let watched: bool = match array_of(group.get("AssociatedSensors")) {
        Some(sensors) => sensors.len() > 0,
        None => false,
    };
    if !watched {
        return None;
    }
    let href = match str_of(group.get("href")) {
        Some(href) => href,
        None => return None,
    };
    let area = match find_watched(group) {
        Some(there) => find_area(areas, there),
        None => empty_text(),
    };
    let label = if area.as_str().is_empty() {
        "Occupancy".to_owned()
    } else {
        joined(area.as_str(), " Occupancy")
    };
    Some(
        Candidate {
            label,
            room: area,
            kind: "sensor".to_owned(),
            driver_id: OCCUPANCY_ID.to_owned(),
            properties: dict1("Occupancy href", string(href)),
            capabilities: Dict::new(),
            verified: "found on bridge".to_owned(),
        },
    )
}

/// The areas that have somebody watching them, as sensors.
pub fn occupancy_candidates(areas: &[Json], groups: &[Json]) -> (r: Vec<Candidate>)
    ensures
        r.deep_view() == sensors_of(areas.deep_view(), groups.deep_view()),
{
    let ghost all = groups.deep_view();
    let ghost a = areas.deep_view();
    let mut out: Vec<Candidate> = Vec::new();
    let mut i: usize = 0;
    proof {
        assert(all.take(0) =~= Seq::<JsonView>::empty());
        assert(out.deep_view() =~= Seq::<CandidateView>::empty());
    }
    while i < groups.len()
        invariant
            i <= groups@.len(),
            all == groups.deep_view(),
            a == areas.deep_view(),
            out.deep_view() == sensors_of(a, all.take(i as int)),
        decreases groups@.len() - i,
    {
        let ghost before = out.deep_view();
        match found_sensor(areas, &groups[i]) {
            Some(c) => {
                out.push(c);
                assert(out.deep_view() =~= before.push(c.deep_view()));
            },
            None => {},
        }
        proof {
            assert(all.take(i + 1).drop_last() =~= all.take(i as int));
            assert(all.take(i + 1).last() == groups@[i as int]@);
            assert(out.deep_view() =~= before + sensor_of(a, groups@[i as int]@));
        }
        i += 1;
    }
    assert(all.take(i as int) =~= all);
    out
}

} // verus!
