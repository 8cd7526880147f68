//! Laws of what is offered: every device, remote, sensor and bridge as exactly what it is, and
//! none left out.

use crate::candidates;
use crate::host::CandidateView;
use crate::json::{self, JsonView};
use crate::laws::flow;
use crate::laws::keys;
use crate::laws::listing as rows;
use crate::laws::tables as kinds;
use crate::laws::words;
use crate::tables;
use crate::text;
use vstd::prelude::*;

verus! {

proof fn lemma_texts(a: Seq<JsonView>, b: Seq<JsonView>)
    ensures
        candidates::texts(a + b) == candidates::texts(a) + candidates::texts(b),
    decreases b.len(),
{
    let first = candidates::texts(a);
    if b.len() == 0 {
        assert(a + b =~= a);
        assert(first + Seq::<Seq<char>>::empty() =~= first);
    } else {
        lemma_texts(a, b.drop_last());
        assert((a + b).drop_last() =~= a + b.drop_last());
        assert((a + b).last() == b.last());
        assert(candidates::texts(a + b) =~= first + candidates::texts(b));
    }
}

/// The path that a device is filed under is every text of its qualified name, in order.
pub proof fn law_a_path_is_every_text_of_the_name(
    device: JsonView,
    a: Seq<JsonView>,
    b: Seq<JsonView>,
    s: Seq<char>,
    other: JsonView,
)
    ensures
        device.get("FullyQualifiedName"@) == Some(JsonView::Array(a)) ==> candidates::path_of(
            device,
        ) == candidates::texts(a),
        !(device.get("FullyQualifiedName"@) matches Some(JsonView::Array(_)))
            ==> candidates::path_of(device).len() == 0,
        candidates::texts(a + b) == candidates::texts(a) + candidates::texts(b),
        candidates::texts(seq![JsonView::Text(s)]) == seq![s],
        !(other is Text) ==> candidates::texts(seq![other]).len() == 0,
{
    reveal_with_fuel(candidates::texts, 2);
    lemma_texts(a, b);
    let one = seq![JsonView::Text(s)];
    assert(one.drop_last() =~= Seq::<JsonView>::empty());
    assert(one.last() == JsonView::Text(s));
    assert(candidates::texts(one) =~= seq![s]);
    assert(seq![other].drop_last() =~= Seq::<JsonView>::empty());
    assert(seq![other].last() == other);
}

/// A device is called by the last part of its path and stands in the one before it. Without a path
/// it is called by its name, and stands nowhere.
pub proof fn law_a_device_is_called_by_its_path(device: JsonView, name: Seq<char>)
    ensures
        ({
            let path = candidates::path_of(device);
            let n = path.len() as int;
            &&& n >= 1 ==> candidates::name_of(device) == path[n - 1]
            &&& n >= 2 ==> candidates::room_of(device) == path[n - 2]
            &&& n <= 1 ==> candidates::room_of(device).len() == 0
            &&& n == 0 && device.get("Name"@) == Some(JsonView::Text(name))
                ==> candidates::name_of(device) == name
            &&& n == 0 && !(device.get("Name"@) matches Some(JsonView::Text(_)))
                ==> candidates::name_of(device) == "Caséta device"@
        }),
{
}

/// The names of the dimmers.
pub open spec fn is_a_dimmer(t: Seq<char>) -> bool {
    ||| t == "WallDimmer"@
    ||| t == "PlugInDimmer"@
    ||| t == "InLineDimmer"@
    ||| t == "SunnataDimmer"@
    ||| t == "TempInWallPaddleDimmer"@
    ||| t == "WallDimmerWithPreset"@
    ||| t == "Dimmed"@
    ||| t == "SpectrumTune"@
    ||| t == "DivaSmartDimmer"@
    ||| t == "WhiteTune"@
    ||| t == "PowPak0-10V"@
    ||| t == "ColorTune"@
}

/// The names of the switches.
pub open spec fn is_a_switch(t: Seq<char>) -> bool {
    ||| t == "WallSwitch"@
    ||| t == "OutdoorPlugInSwitch"@
    ||| t == "PlugInSwitch"@
    ||| t == "InLineSwitch"@
    ||| t == "PowPakSwitch"@
    ||| t == "SunnataSwitch"@
    ||| t == "TempInWallPaddleSwitch"@
    ||| t == "Switched"@
    ||| t == "KeypadLED"@
    ||| t == "DivaSmartSwitch"@
}

/// The names of the fans.
pub open spec fn is_a_fan(t: Seq<char>) -> bool {
    ||| t == "CasetaFanSpeedController"@
    ||| t == "MaestroFanSpeedController"@
    ||| t == "FanSpeed"@
}

/// The names of the shades.
pub open spec fn is_a_shade(t: Seq<char>) -> bool {
    ||| t == "SerenaHoneycombShade"@
    ||| t == "SerenaRollerShade"@
    ||| t == "TriathlonHoneycombShade"@
    ||| t == "TriathlonEssentialsRollerShade"@
    ||| t == "TriathlonRollerShade"@
    ||| t == "TriathlonTiltOnlyWoodBlind"@
    ||| t == "QsWirelessShade"@
    ||| t == "QsWirelessHorizontalSheerBlind"@
    ||| t == "QsWirelessWoodBlind"@
    ||| t == "RightDrawDrape"@
    ||| t == "Shade"@
    ||| t == "Tilt"@
    ||| t == "SerenaTiltOnlyWoodBlind"@
    ||| t == "PalladiomWireFreeShade"@
    ||| t == "SerenaEssentialsRollerShade"@
    ||| t == "OpenCloseStop"@
}

/// What a device of this type is adopted as: the word of its kind, its proxy and its driver.
pub open spec fn is_adopted_as(
    t: Seq<char>,
    word: Seq<char>,
    proxy: Seq<char>,
    driver: Seq<char>,
) -> bool {
    ||| is_a_dimmer(t) && word == "light"@ && proxy == "light"@ && driver
        == "lutron.caseta.leap_dimmer"@
    ||| is_a_switch(t) && word == "switch"@ && proxy == "switch"@ && driver
        == "lutron.caseta.leap_switch"@
    ||| is_a_fan(t) && word == "fan"@ && proxy == "fan"@ && driver == "lutron.caseta.leap_fan"@
    ||| is_a_shade(t) && word == "shade"@ && proxy == "blind"@ && driver
        == "lutron.caseta.leap_shade"@
}

/// Whether a device's zone is at this place.
pub open spec fn is_zone_at(device: JsonView, zone: Seq<char>) -> bool {
    exists|zones: JsonView, first: JsonView|
        device.get("LocalZones"@) == Some(zones) && #[trigger] words::leads_to(zones, first)
            && first.get("href"@) == Some(JsonView::Text(zone))
}

proof fn lemma_zone(device: JsonView, zone: Seq<char>)
    ensures
        is_zone_at(device, zone) <==> candidates::local_zone(device) == Some(zone),
{
    if candidates::local_zone(device) == Some(zone) {
        let zones = device.get("LocalZones"@)->0;
        let first = zones.head()->0;
        assert(words::leads_to(zones, first));
    }
}

/// Whether a type speaks of slats.
pub open spec fn tilts(t: Seq<char>) -> bool {
    exists|a: Seq<char>, b: Seq<char>| t == #[trigger] (a + "Tilt"@ + b)
}

proof fn lemma_tilts(t: Seq<char>)
    ensures
        tilts(t) <==> text::occurs_in("Tilt"@, t),
{
    let tilt = "Tilt"@;
    let n = tilt.len() as int;
    if text::occurs_in(tilt, t) {
        let k = choose|k: int|
            0 <= k && k + n <= t.len() && #[trigger] t.subrange(k, k + n) == tilt;
        let a = t.take(k);
        let b = t.skip(k + n);
        assert forall|j: int| 0 <= j < t.len() implies t[j] == (a + tilt + b)[j] by {
            if k <= j < k + n {
                assert(t.subrange(k, k + n)[j - k] == tilt[j - k]);
            }
        }
        assert(t =~= a + tilt + b);
    }
    if tilts(t) {
        let (a, b) = choose|a: Seq<char>, b: Seq<char>| t == #[trigger] (a + tilt + b);
        let i = a.len() as int;
        assert(t.subrange(i, i + n) =~= tilt);
    }
}

/// The place of a device on the bridge, or nothing.
pub open spec fn place(device: JsonView) -> Seq<char> {
    match device.get("href"@) {
        Some(JsonView::Text(href)) => href,
        _ => Seq::empty(),
    }
}

/// A device with a zone is offered as what its type says it is, with its zone and its place
/// written down. Only a shade says whether it tilts.
pub proof fn law_a_zone_is_offered_as_what_it_is(
    device: JsonView,
    buttons: Seq<JsonView>,
    t: Seq<char>,
    word: Seq<char>,
    proxy: Seq<char>,
    driver: Seq<char>,
    zone: Seq<char>,
    href: Seq<char>,
)
    requires
        device.get("DeviceType"@) == Some(JsonView::Text(t)),
        is_adopted_as(t, word, proxy, driver),
        is_zone_at(device, zone),
        href == place(device),
    ensures
        candidates::candidate_of(device, buttons) == seq![
            CandidateView {
                label: candidates::name_of(device),
                room: candidates::room_of(device),
                kind: proxy,
                driver_id: driver,
                properties: map![
                    "Zone"@ => JsonView::Text(zone),
                    "Device href"@ => JsonView::Text(href),
                    "Kind"@ => JsonView::Text(word),
                ],
                capabilities: if is_a_shade(t) {
                    map!["supports_tilt"@ => JsonView::Bool(tilts(t))]
                } else {
                    Map::empty()
                },
                verified: "found on bridge"@,
            },
        ],
{
    kinds::law_a_device_type_is_one_thing(t);
    lemma_tilts(t);
    lemma_zone(device, zone);
}

proof fn lemma_types_are_words(t: Seq<char>)
    requires
        t.len() == 0,
    ensures
        !is_a_dimmer(t) && !is_a_switch(t) && !is_a_fan(t) && !is_a_shade(t),
{
    reveal_strlit("WallDimmer");
    reveal_strlit("PlugInDimmer");
    reveal_strlit("InLineDimmer");
    reveal_strlit("SunnataDimmer");
    reveal_strlit("TempInWallPaddleDimmer");
    reveal_strlit("WallDimmerWithPreset");
    reveal_strlit("Dimmed");
    reveal_strlit("SpectrumTune");
    reveal_strlit("DivaSmartDimmer");
    reveal_strlit("WhiteTune");
    reveal_strlit("PowPak0-10V");
    reveal_strlit("ColorTune");
    reveal_strlit("WallSwitch");
    reveal_strlit("OutdoorPlugInSwitch");
    reveal_strlit("PlugInSwitch");
    reveal_strlit("InLineSwitch");
    reveal_strlit("PowPakSwitch");
    reveal_strlit("SunnataSwitch");
    reveal_strlit("TempInWallPaddleSwitch");
    reveal_strlit("Switched");
    reveal_strlit("KeypadLED");
    reveal_strlit("DivaSmartSwitch");
    reveal_strlit("CasetaFanSpeedController");
    reveal_strlit("MaestroFanSpeedController");
    reveal_strlit("FanSpeed");
    reveal_strlit("SerenaHoneycombShade");
    reveal_strlit("SerenaRollerShade");
    reveal_strlit("TriathlonHoneycombShade");
    reveal_strlit("TriathlonEssentialsRollerShade");
    reveal_strlit("TriathlonRollerShade");
    reveal_strlit("TriathlonTiltOnlyWoodBlind");
    reveal_strlit("QsWirelessShade");
    reveal_strlit("QsWirelessHorizontalSheerBlind");
    reveal_strlit("QsWirelessWoodBlind");
    reveal_strlit("RightDrawDrape");
    reveal_strlit("Shade");
    reveal_strlit("Tilt");
    reveal_strlit("SerenaTiltOnlyWoodBlind");
    reveal_strlit("PalladiomWireFreeShade");
    reveal_strlit("SerenaEssentialsRollerShade");
    reveal_strlit("OpenCloseStop");
    assert("WallDimmer"@.len() == 10);
    assert("PlugInDimmer"@.len() == 12);
    assert("InLineDimmer"@.len() == 12);
    assert("SunnataDimmer"@.len() == 13);
    assert("TempInWallPaddleDimmer"@.len() == 22);
    assert("WallDimmerWithPreset"@.len() == 20);
    assert("Dimmed"@.len() == 6);
    assert("SpectrumTune"@.len() == 12);
    assert("DivaSmartDimmer"@.len() == 15);
    assert("WhiteTune"@.len() == 9);
    assert("PowPak0-10V"@.len() == 11);
    assert("ColorTune"@.len() == 9);
    assert("WallSwitch"@.len() == 10);
    assert("OutdoorPlugInSwitch"@.len() == 19);
    assert("PlugInSwitch"@.len() == 12);
    assert("InLineSwitch"@.len() == 12);
    assert("PowPakSwitch"@.len() == 12);
    assert("SunnataSwitch"@.len() == 13);
    assert("TempInWallPaddleSwitch"@.len() == 22);
    assert("Switched"@.len() == 8);
    assert("KeypadLED"@.len() == 9);
    assert("DivaSmartSwitch"@.len() == 15);
    assert("CasetaFanSpeedController"@.len() == 24);
    assert("MaestroFanSpeedController"@.len() == 25);
    assert("FanSpeed"@.len() == 8);
    assert("SerenaHoneycombShade"@.len() == 20);
    assert("SerenaRollerShade"@.len() == 17);
    assert("TriathlonHoneycombShade"@.len() == 23);
    assert("TriathlonEssentialsRollerShade"@.len() == 30);
    assert("TriathlonRollerShade"@.len() == 20);
    assert("TriathlonTiltOnlyWoodBlind"@.len() == 26);
    assert("QsWirelessShade"@.len() == 15);
    assert("QsWirelessHorizontalSheerBlind"@.len() == 30);
    assert("QsWirelessWoodBlind"@.len() == 19);
    assert("RightDrawDrape"@.len() == 14);
    assert("Shade"@.len() == 5);
    assert("Tilt"@.len() == 4);
    assert("SerenaTiltOnlyWoodBlind"@.len() == 23);
    assert("PalladiomWireFreeShade"@.len() == 22);
    assert("SerenaEssentialsRollerShade"@.len() == 27);
    assert("OpenCloseStop"@.len() == 13);
}

/// A device of a type with a zone, but with no zone, is not offered; nor is one of any other type
/// that is no remote, nor one of no type.
pub proof fn law_nothing_else_is_offered(
    device: JsonView,
    buttons: Seq<JsonView>,
    t: Seq<char>,
    word: Seq<char>,
    proxy: Seq<char>,
    driver: Seq<char>,
)
    ensures
        device.get("DeviceType"@) == Some(JsonView::Text(t)) && is_adopted_as(
            t,
            word,
            proxy,
            driver,
        ) && (forall|zone: Seq<char>| !#[trigger] is_zone_at(device, zone))
            ==> candidates::candidate_of(device, buttons).len() == 0,
        device.get("DeviceType"@) == Some(JsonView::Text(t)) && !is_a_dimmer(t) && !is_a_switch(t)
            && !is_a_fan(t) && !is_a_shade(t) && !flow::is_pico(device)
            ==> candidates::candidate_of(device, buttons).len() == 0,
        !(device.get("DeviceType"@) matches Some(JsonView::Text(_))) ==> candidates::candidate_of(
            device,
            buttons,
        ).len() == 0,
{
    kinds::law_a_device_type_is_one_thing(t);
    lemma_types_are_words(Seq::empty());
    flow::lemma_pico(device);
    match candidates::local_zone(device) {
        Some(zone) => {
            lemma_zone(device, zone);
        },
        None => {},
    }
}

/// A remote with keys is offered as a keypad, with its place and the labels of its keys.
pub proof fn law_a_remote_is_offered_with_its_keys(
    device: JsonView,
    buttons: Seq<JsonView>,
    href: Seq<char>,
    labels: Seq<Seq<char>>,
)
    requires
        flow::is_pico(device),
        href == place(device),
        labels.len() == candidates::keys_of(device, buttons).len(),
        forall|i: int|
            0 <= i < labels.len() ==> #[trigger] labels[i] == candidates::keys_of(
                device,
                buttons,
            )[i].1,
    ensures
        labels.len() == 0 ==> candidates::candidate_of(device, buttons).len() == 0,
        labels.len() > 0 ==> {
            let offered = candidates::candidate_of(device, buttons);
            &&& offered.len() == 1
            &&& offered[0].label == candidates::name_of(device)
            &&& offered[0].room == candidates::room_of(device)
            &&& offered[0].kind == "keypad"@
            &&& offered[0].driver_id == "lutron.caseta.leap_pico"@
            &&& offered[0].verified == "found on bridge"@
            &&& offered[0].capabilities == map![
                "key_count"@ => JsonView::Unsigned(labels.len() as u64),
                "key_labels"@ => JsonView::Text(text::separated(labels, ","@)),
                "has_battery"@ => JsonView::Bool(true),
                "has_hold"@ => JsonView::Bool(true),
            ]
            &&& offered[0].properties == written_of(
                href,
                candidates::keys_of(device, buttons),
                labels.len(),
            )
        },
{
    let word = json::text_or_empty(device.get("DeviceType"@));
    let row = candidates::keys_of(device, buttons);
    flow::lemma_pico(device);
    kinds::law_a_device_type_is_one_thing(word);
    rows::law_a_remote_has_at_most_five_keys(device, buttons);
    assert(candidates::labels_of(row) =~= labels);
    lemma_written(device, href, row, row.len());
    assert(row.take(row.len() as int) =~= row);
}

/// What is written down of a remote: its place, and the place of each key under its number.
pub open spec fn written_of(
    href: Seq<char>,
    row: Seq<(Seq<char>, Seq<char>)>,
    count: nat,
) -> Map<Seq<char>, JsonView> {
    let m0 = map!["Device href"@ => JsonView::Text(href)];
    let m1 = if count >= 1 {
        m0.insert("Button 1 href"@, JsonView::Text(row[0].0))
    } else {
        m0
    };
    let m2 = if count >= 2 {
        m1.insert("Button 2 href"@, JsonView::Text(row[1].0))
    } else {
        m1
    };
    let m3 = if count >= 3 {
        m2.insert("Button 3 href"@, JsonView::Text(row[2].0))
    } else {
        m2
    };
    let m4 = if count >= 4 {
        m3.insert("Button 4 href"@, JsonView::Text(row[3].0))
    } else {
        m3
    };
    if count >= 5 {
        m4.insert("Button 5 href"@, JsonView::Text(row[4].0))
    } else {
        m4
    }
}

proof fn lemma_written(
    device: JsonView,
    href: Seq<char>,
    row: Seq<(Seq<char>, Seq<char>)>,
    count: nat,
)
    requires
        href == place(device),
        count <= row.len(),
        count <= 5,
    ensures
        candidates::remote_properties(device, row.take(count as int)) == written_of(
            href,
            row,
            count,
        ),
    decreases count,
{
    if count > 0 {
        let before = (count - 1) as nat;
        lemma_written(device, href, row, before);
        assert(row.take(count as int).drop_last() =~= row.take(before as int));
        assert(row.take(count as int).last() == row[before as int]);
        keys::lemma_key_property(count as u64);
    }
}

// The keys of a remote.

/// The engraving of each key of each model: the number that the bridge gives it and what is on it.
pub open spec fn is_engraving(model: Seq<char>, n: u64, label: Seq<char>) -> bool {
    ||| model == "Pico2Button"@ && (n == 0 && label == "On"@ || n == 2 && label == "Off"@)
    ||| model == "PaddleSwitchPico"@ && (n == 0 && label == "On"@ || n == 2 && label == "Off"@)
    ||| model == "Pico2ButtonRaiseLower"@ && (n == 0 && label == "On"@ || n == 2 && label == "Off"@
        || n == 3 && label == "Raise"@ || n == 4 && label == "Lower"@)
    ||| model == "Pico3Button"@ && (n == 0 && label == "On"@ || n == 1 && label == "Favorite"@ || n
        == 2 && label == "Off"@)
    ||| model == "Pico3ButtonRaiseLower"@ && (n == 0 && label == "On"@ || n == 1 && label
        == "Favorite"@ || n == 2 && label == "Off"@ || n == 3 && label == "Raise"@ || n == 4
        && label == "Lower"@)
    ||| model == "Pico4Button"@ && (n == 1 && label == "Button 1"@ || n == 2 && label == "Button 2"@
        || n == 3 && label == "Button 3"@ || n == 4 && label == "Button 4"@)
    ||| model == "Pico4ButtonScene"@ && (n == 1 && label == "Button 1"@ || n == 2 && label
        == "Button 2"@ || n == 3 && label == "Button 3"@ || n == 4 && label == "Off"@)
    ||| model == "Pico4ButtonZone"@ && (n == 1 && label == "On"@ || n == 2 && label == "Raise"@ || n
        == 3 && label == "Lower"@ || n == 4 && label == "Off"@)
    ||| model == "Pico4Button2Group"@ && (n == 1 && label == "Group 1 Button 1"@ || n == 2 && label
        == "Group 1 Button 2"@ || n == 3 && label == "Group 2 Button 1"@ || n == 4 && label
        == "Group 2 Button 2"@)
}

/// The model of a remote, or nothing.
pub open spec fn model_of(device: JsonView) -> Seq<char> {
    match device.get("DeviceType"@) {
        Some(JsonView::Text(model)) => model,
        _ => Seq::empty(),
    }
}

/// Whether anybody wrote a model down.
pub open spec fn is_known(model: Seq<char>) -> bool {
    exists|n: u64, label: Seq<char>| #[trigger] is_engraving(model, n, label)
}

proof fn lemma_models()
    ensures
        "Pico2Button"@.len() == 11,
        "PaddleSwitchPico"@.len() == 16,
        "Pico2ButtonRaiseLower"@.len() == 21,
        "Pico3Button"@.len() == 11,
        "Pico3ButtonRaiseLower"@.len() == 21,
        "Pico4Button"@.len() == 11,
        "Pico4ButtonScene"@.len() == 16,
        "Pico4ButtonZone"@.len() == 15,
        "Pico4Button2Group"@.len() == 17,
        "Pico2Button"@[4] == '2',
        "Pico3Button"@[4] == '3',
        "Pico4Button"@[4] == '4',
        "Pico2ButtonRaiseLower"@[4] == '2',
        "Pico3ButtonRaiseLower"@[4] == '3',
        "PaddleSwitchPico"@[1] == 'a',
        "Pico4ButtonScene"@[1] == 'i',
{
    reveal_strlit("Pico2Button");
    reveal_strlit("PaddleSwitchPico");
    reveal_strlit("Pico2ButtonRaiseLower");
    reveal_strlit("Pico3Button");
    reveal_strlit("Pico3ButtonRaiseLower");
    reveal_strlit("Pico4Button");
    reveal_strlit("Pico4ButtonScene");
    reveal_strlit("Pico4ButtonZone");
    reveal_strlit("Pico4Button2Group");
}

/// A model has exactly the keys that are engraved on it, in the order of their numbers.
pub proof fn law_a_model_has_the_keys_engraved_on_it(model: Seq<char>, n: u64, label: Seq<char>)
    ensures
        tables::engraved_keys(model) is Some <==> is_known(model),
        tables::engraved_keys(model) matches Some(row) ==> {
            &&& row.contains((n, label)) <==> is_engraving(model, n, label)
            &&& forall|i: int, j: int| 0 <= i < j < row.len() ==> (#[trigger] row[i]).0 < (
            #[trigger] row[j]).0
        },
{
    lemma_models();
    match tables::engraved_keys(model) {
        Some(row) => {
            assert(is_engraving(model, row[0].0, row[0].1));
            assert(is_engraving(model, row[1].0, row[1].1));
            if is_engraving(model, n, label) {
                if row[0] == (n, label) {
                } else if row[1] == (n, label) {
                } else if row[2] == (n, label) {
                } else if row[3] == (n, label) {
                } else {
                    assert(row[4] == (n, label));
                }
            }
        },
        None => {},
    }
}

/// Whether a listed button stands in this group under this number at this place.
pub open spec fn is_button(button: JsonView, group: Seq<char>, n: u64, href: Seq<char>) -> bool {
    &&& button.get2("Parent"@, "href"@) == Some(JsonView::Text(group))
    &&& button.get("ButtonNumber"@) == Some(JsonView::Unsigned(n))
    &&& button.get("href"@) == Some(JsonView::Text(href))
}

/// Whether a remote says that this group is one of its own.
pub open spec fn has_group(device: JsonView, group: Seq<char>) -> bool {
    exists|groups: Seq<JsonView>, k: int|
        device.get("ButtonGroups"@) == Some(JsonView::Array(groups)) && 0 <= k < groups.len()
            && (#[trigger] groups[k]).get("href"@) == Some(JsonView::Text(group))
}

proof fn lemma_hrefs(items: Seq<JsonView>, href: Seq<char>)
    ensures
        candidates::hrefs(items).contains(href) <==> exists|k: int|
            0 <= k < items.len() && (#[trigger] items[k]).get("href"@) == Some(
                JsonView::Text(href),
            ),
    decreases items.len(),
{
    if items.len() > 0 {
        let sooner = items.drop_last();
        lemma_hrefs(sooner, href);
        let before = candidates::hrefs(sooner);
        let all = candidates::hrefs(items);
        let is_there = items.last().get("href"@) == Some(JsonView::Text(href));
        assert(all.contains(href) <==> before.contains(href) || is_there) by {
            match json::text_of(items.last().get("href"@)) {
                Some(s) => {
                    assert(all == before.push(s));
                    if before.contains(href) {
                        let i = choose|i: int| 0 <= i < before.len() && before[i] == href;
                        assert(all[i] == href);
                    }
                    assert(all[before.len() as int] == s);
                    if all.contains(href) {
                        let i = choose|i: int| 0 <= i < all.len() && all[i] == href;
                        if i < before.len() {
                            assert(before[i] == href);
                        }
                    }
                },
                None => {},
            }
        }
        if before.contains(href) {
            let k = choose|k: int|
                0 <= k < sooner.len() && (#[trigger] sooner[k]).get("href"@) == Some(
                    JsonView::Text(href),
                );
            assert(items[k] == sooner[k]);
        }
        if is_there {
            assert(items[items.len() - 1] == items.last());
        }
        if exists|k: int|
            0 <= k < items.len() && (#[trigger] items[k]).get("href"@) == Some(
                JsonView::Text(href),
            ) {
            let k = choose|k: int|
                0 <= k < items.len() && (#[trigger] items[k]).get("href"@) == Some(
                    JsonView::Text(href),
                );
            if k < sooner.len() {
                assert(sooner[k] == items[k]);
            }
        }
    }
}

proof fn lemma_groups(device: JsonView, group: Seq<char>)
    ensures
        has_group(device, group) <==> candidates::button_groups(device).contains(group),
{
    let items = json::items_or_empty(device.get("ButtonGroups"@));
    lemma_hrefs(items, group);
    if candidates::button_groups(device).contains(group) {
        let k = choose|k: int|
            0 <= k < items.len() && (#[trigger] items[k]).get("href"@) == Some(
                JsonView::Text(group),
            );
        assert(device.get("ButtonGroups"@) == Some(JsonView::Array(items)));
        assert(items[k].get("href"@) == Some(JsonView::Text(group)));
    }
    if has_group(device, group) {
        let (groups, k) = choose|groups: Seq<JsonView>, k: int|
            device.get("ButtonGroups"@) == Some(JsonView::Array(groups)) && 0 <= k < groups.len()
                && (#[trigger] groups[k]).get("href"@) == Some(JsonView::Text(group));
        assert(groups == items);
    }
}

/// The buttons of a remote are those of the list that stand in a group of its own, every one of
/// them and in the order of the list.
pub proof fn law_a_remotes_buttons_are_those_in_its_groups(
    device: JsonView,
    a: Seq<JsonView>,
    b: Seq<JsonView>,
    button: JsonView,
    group: Seq<char>,
    n: u64,
    href: Seq<char>,
)
    ensures
        ({
            let groups = candidates::button_groups(device);
            &&& candidates::own_buttons(groups, a + b) == candidates::own_buttons(groups, a)
                + candidates::own_buttons(groups, b)
            &&& is_button(button, group, n, href) && has_group(device, group)
                ==> candidates::own_buttons(groups, seq![button]) == seq![(n, href)]
            &&& is_button(button, group, n, href) && !has_group(device, group)
                ==> candidates::own_buttons(groups, seq![button]).len() == 0
            &&& (forall|g: Seq<char>, m: u64, h: Seq<char>| !#[trigger] is_button(button, g, m, h))
                ==> candidates::own_buttons(groups, seq![button]).len() == 0
        }),
{
    let groups = candidates::button_groups(device);
    lemma_groups(device, group);
    rows::lemma_own_buttons_together(groups, a, b);
    lemma_one_button(groups, button);
    if forall|g: Seq<char>, m: u64, h: Seq<char>| !#[trigger] is_button(button, g, m, h) {
        let g = json::text_or_empty(button.get2("Parent"@, "href"@));
        let h = json::text_or_empty(button.get("href"@));
        match json::unsigned_of(button.get("ButtonNumber"@)) {
            Some(m) => {
                assert(!is_button(button, g, m, h));
            },
            None => {},
        }
    }
}

proof fn lemma_one_button(groups: Seq<Seq<char>>, button: JsonView)
    ensures
        candidates::own_buttons(groups, seq![button]) == candidates::own_button(groups, button),
{
    reveal_with_fuel(candidates::own_buttons, 2);
    assert(seq![button].drop_last() =~= Seq::<JsonView>::empty());
    assert(seq![button].last() == button);
    assert(Seq::<(u64, Seq<char>)>::empty() + candidates::own_button(groups, button)
        =~= candidates::own_button(groups, button));
}

proof fn lemma_having(a: Seq<(u64, Seq<char>)>, b: Seq<(u64, Seq<char>)>, n: u64)
    ensures
        rows::having_number(a + b, n) == rows::having_number(a, n) + rows::having_number(b, n),
    decreases b.len(),
{
    let first = rows::having_number(a, n);
    if b.len() == 0 {
        assert(a + b =~= a);
        assert(first + Seq::<(u64, Seq<char>)>::empty() =~= first);
    } else {
        lemma_having(a, b.drop_last(), n);
        assert((a + b).drop_last() =~= a + b.drop_last());
        assert((a + b).last() == b.last());
        assert(rows::having_number(a + b, n) =~= first + rows::having_number(b, n));
    }
}

proof fn lemma_first_numbered(row: Seq<(u64, Seq<char>)>, n: u64)
    ensures
        rows::having_number(row, n).len() == 0 ==> candidates::numbered(row, n) is None,
        rows::having_number(row, n).len() > 0 ==> candidates::numbered(row, n) == Some(
            rows::having_number(row, n)[0].1,
        ),
    decreases row.len(),
{
    if row.len() > 0 {
        let one = seq![row[0]];
        let rest = row.drop_first();
        assert(row =~= one + rest);
        lemma_having(one, rest, n);
        lemma_first_numbered(rest, n);
        reveal_with_fuel(rows::having_number, 2);
        assert(one.drop_last() =~= Seq::<(u64, Seq<char>)>::empty());
        assert(one.last() == row[0]);
        assert(rows::having_number(one, n) =~= if row[0].0 == n {
            one
        } else {
            Seq::<(u64, Seq<char>)>::empty()
        });
    }
}

/// The button that a number means is the first of the row that has it, and there is one where any
/// has it.
pub proof fn law_a_number_means_the_first_button_that_has_it(
    row: Seq<(u64, Seq<char>)>,
    n: u64,
    k: int,
)
    requires
        0 <= k <= row.len(),
        forall|i: int| 0 <= i < k ==> (#[trigger] row[i]).0 != n,
        k < row.len() ==> row[k].0 == n,
    ensures
        candidates::numbered(row, n) == if k < row.len() {
            Some(row[k].1)
        } else {
            None::<Seq<char>>
        },
    decreases k,
{
    if k > 0 {
        let rest = row.drop_first();
        assert(row[0].0 != n);
        assert forall|i: int| 0 <= i < k - 1 implies (#[trigger] rest[i]).0 != n by {
            assert(rest[i] == row[i + 1]);
        }
        if k < row.len() {
            assert(rest[k - 1] == row[k]);
        }
        law_a_number_means_the_first_button_that_has_it(rest, n, k - 1);
    }
}

proof fn lemma_engraved_there(
    model: Seq<(u64, Seq<char>)>,
    row: Seq<(u64, Seq<char>)>,
    k: int,
    href: Seq<char>,
)
    requires
        0 <= k < model.len(),
        candidates::numbered(row, model[k].0) == Some(href),
    ensures
        candidates::engraved(model, row).contains((href, model[k].1)),
    decreases model.len(),
{
    let all = candidates::engraved(model, row);
    let before = candidates::engraved(model.drop_last(), row);
    if k < model.len() - 1 {
        lemma_engraved_there(model.drop_last(), row, k, href);
        let i = choose|i: int| 0 <= i < before.len() && before[i] == (href, model[k].1);
        assert(all[i] == before[i]);
    } else {
        assert(all[before.len() as int] == (href, model[k].1));
    }
}

proof fn lemma_none_before(device: JsonView, buttons: Seq<JsonView>, n: u64)
    requires
        forall|k: int, g: Seq<char>, h: Seq<char>|
            0 <= k < buttons.len() && #[trigger] is_button(buttons[k], g, n, h) ==> !has_group(
                device,
                g,
            ),
    ensures
        rows::having_number(
            candidates::own_buttons(candidates::button_groups(device), buttons),
            n,
        ).len() == 0,
    decreases buttons.len(),
{
    if buttons.len() > 0 {
        let groups = candidates::button_groups(device);
        let sooner = buttons.drop_last();
        let last = buttons.last();
        assert forall|k: int, g: Seq<char>, h: Seq<char>|
            0 <= k < sooner.len() && #[trigger] is_button(
                sooner[k],
                g,
                n,
                h,
            ) implies !has_group(device, g) by {
            assert(is_button(buttons[k], g, n, h));
        }
        lemma_none_before(device, sooner, n);
        let own = candidates::own_button(groups, last);
        lemma_having(candidates::own_buttons(groups, sooner), own, n);
        if own.len() > 0 {
            let g = json::text_or_empty(last.get2("Parent"@, "href"@));
            lemma_groups(device, g);
            if own[0].0 == n {
                assert(is_button(buttons[buttons.len() - 1], g, n, own[0].1));
            }
            reveal_with_fuel(rows::having_number, 2);
            assert(own.drop_last() =~= Seq::<(u64, Seq<char>)>::empty());
        }
    }
}

/// No key of a model is lost: wherever in the list the first button of the remote's own under the
/// number of an engraving stands, it is a key of the remote, and it is called by that engraving.
pub proof fn law_no_key_of_a_model_is_lost(
    device: JsonView,
    buttons: Seq<JsonView>,
    model: Seq<char>,
    j: int,
    group: Seq<char>,
    n: u64,
    href: Seq<char>,
    label: Seq<char>,
)
    requires
        model == model_of(device),
        is_engraving(model, n, label),
        0 <= j < buttons.len(),
        is_button(buttons[j], group, n, href),
        has_group(device, group),
        forall|k: int, g: Seq<char>, h: Seq<char>|
            0 <= k < j && #[trigger] is_button(buttons[k], g, n, h) ==> !has_group(device, g),
    ensures
        candidates::keys_of(device, buttons).contains((href, label)),
{
    let groups = candidates::button_groups(device);
    let head = buttons.take(j);
    let one = seq![buttons[j]];
    let tail = buttons.skip(j + 1);
    assert(buttons =~= head + one + tail);
    rows::lemma_own_buttons_together(groups, head + one, tail);
    rows::lemma_own_buttons_together(groups, head, one);
    law_a_remotes_buttons_are_those_in_its_groups(
        device,
        head,
        one,
        buttons[j],
        group,
        n,
        href,
    );
    let own_head = candidates::own_buttons(groups, head);
    let own_one = seq![(n, href)];
    let own_tail = candidates::own_buttons(groups, tail);
    let own = candidates::own_buttons(groups, buttons);
    assert forall|k: int, g: Seq<char>, h: Seq<char>|
        0 <= k < head.len() && #[trigger] is_button(head[k], g, n, h) implies !has_group(
        device,
        g,
    ) by {
        assert(is_button(buttons[k], g, n, h));
    }
    lemma_none_before(device, head, n);
    lemma_having(own_head + own_one, own_tail, n);
    lemma_having(own_head, own_one, n);
    assert(rows::having_number(own_one, n) =~= own_one) by {
        reveal_with_fuel(rows::having_number, 2);
        assert(own_one.drop_last() =~= Seq::<(u64, Seq<char>)>::empty());
    }
    assert(rows::having_number(own, n)[0] == (n, href));
    let row = candidates::in_order(own);
    rows::law_buttons_are_put_in_order(own, n);
    lemma_first_numbered(row, n);
    law_a_model_has_the_keys_engraved_on_it(model, n, label);
    let keys = tables::engraved_keys(model)->0;
    assert(is_known(model));
    let k = choose|k: int| 0 <= k < keys.len() && keys[k] == (n, label);
    lemma_engraved_there(keys, row, k, href);
}

/// No key of a model is made up: each is called by an engraving of the model, and is a listed
/// button of the remote's own under the number of that engraving.
pub proof fn law_no_key_of_a_model_is_made_up(
    device: JsonView,
    buttons: Seq<JsonView>,
    model: Seq<char>,
    i: int,
)
    requires
        model == model_of(device),
        is_known(model),
        0 <= i < candidates::keys_of(device, buttons).len(),
    ensures
        exists|n: u64, j: int, group: Seq<char>|
            {
                &&& is_engraving(model, n, candidates::keys_of(device, buttons)[i].1)
                &&& 0 <= j < buttons.len()
                &&& #[trigger] is_button(
                    buttons[j],
                    group,
                    n,
                    candidates::keys_of(device, buttons)[i].0,
                )
                &&& has_group(device, group)
            },
{
    let groups = candidates::button_groups(device);
    let own = candidates::own_buttons(groups, buttons);
    let row = candidates::in_order(own);
    let (href, label) = candidates::keys_of(device, buttons)[i];
    law_a_model_has_the_keys_engraved_on_it(model, 0, label);
    let keys = tables::engraved_keys(model)->0;
    rows::law_a_known_remote_has_the_keys_of_its_model(device, buttons, keys);
    assert(rows::is_engraved_key(keys, row, candidates::keys_of(device, buttons)[i]));
    let k = choose|k: int|
        0 <= k < keys.len() && candidates::numbered(row, (#[trigger] keys[k]).0) == Some(href)
            && keys[k].1 == label;
    let n = keys[k].0;
    law_a_model_has_the_keys_engraved_on_it(model, n, label);
    assert(keys.contains((n, label)));
    rows::lemma_numbered(row, n);
    let r = choose|r: int| 0 <= r < row.len() && #[trigger] row[r] == (n, href);
    rows::law_buttons_are_put_in_order(own, n);
    assert(own.contains((n, href))) by {
        broadcast use vstd::seq_lib::group_to_multiset_ensures;

        assert(row.contains((n, href)));
        assert(row.to_multiset().count((n, href)) > 0);
    }
    lemma_own_is_listed(device, buttons, n, href);
}

proof fn lemma_own_is_listed(device: JsonView, buttons: Seq<JsonView>, n: u64, href: Seq<char>)
    requires
        candidates::own_buttons(candidates::button_groups(device), buttons).contains((n, href)),
    ensures
        exists|j: int, group: Seq<char>|
            0 <= j < buttons.len() && #[trigger] is_button(buttons[j], group, n, href)
                && has_group(device, group),
    decreases buttons.len(),
{
    let groups = candidates::button_groups(device);
    let all = candidates::own_buttons(groups, buttons);
    let i = choose|i: int| 0 <= i < all.len() && all[i] == (n, href);
    let sooner = buttons.drop_last();
    let before = candidates::own_buttons(groups, sooner);
    if i < before.len() {
        assert(before[i] == (n, href));
        lemma_own_is_listed(device, sooner, n, href);
        let (j, group) = choose|j: int, group: Seq<char>|
            0 <= j < sooner.len() && #[trigger] is_button(sooner[j], group, n, href) && has_group(
                device,
                group,
            );
        assert(is_button(buttons[j], group, n, href));
    } else {
        let last = buttons.last();
        let group = json::text_or_empty(last.get2("Parent"@, "href"@));
        lemma_groups(device, group);
        assert(candidates::own_button(groups, last)[i - before.len()] == (n, href));
        assert(is_button(buttons[buttons.len() - 1], group, n, href));
    }
}

/// The keys of a model stand in the order of its engravings: those of some and then some more are
/// those of both.
pub proof fn law_keys_stand_in_the_order_of_the_model(
    a: Seq<(u64, Seq<char>)>,
    b: Seq<(u64, Seq<char>)>,
    row: Seq<(u64, Seq<char>)>,
)
    ensures
        candidates::engraved(a + b, row) == candidates::engraved(a, row) + candidates::engraved(
            b,
            row,
        ),
    decreases b.len(),
{
    let first = candidates::engraved(a, row);
    if b.len() == 0 {
        assert(a + b =~= a);
        assert(first + Seq::<(Seq<char>, Seq<char>)>::empty() =~= first);
    } else {
        law_keys_stand_in_the_order_of_the_model(a, b.drop_last(), row);
        assert((a + b).drop_last() =~= a + b.drop_last());
        assert((a + b).last() == b.last());
        assert(candidates::engraved(a + b, row) =~= first + candidates::engraved(b, row));
    }
}

/// A remote of a model that nobody wrote down has the first five of its buttons in the order of
/// their numbers, each called by its position.
pub proof fn law_an_unknown_remote_has_its_first_five_buttons(
    device: JsonView,
    buttons: Seq<JsonView>,
    model: Seq<char>,
    i: int,
)
    requires
        model == model_of(device),
        !is_known(model),
        0 <= i < candidates::keys_of(device, buttons).len(),
    ensures
        ({
            let own = candidates::own_buttons(candidates::button_groups(device), buttons);
            let found = candidates::keys_of(device, buttons);
            &&& found.len() == if own.len() <= 5 {
                own.len()
            } else {
                5
            }
            &&& found[i].0 == candidates::in_order(own)[i].1
            &&& found[i].1 == seq![
                'B',
                'u',
                't',
                't',
                'o',
                'n',
                ' ',
                words::digit_char(i + 1),
            ]
        }),
{
    broadcast use vstd::seq_lib::group_to_multiset_ensures;

    let own = candidates::own_buttons(candidates::button_groups(device), buttons);
    law_a_model_has_the_keys_engraved_on_it(model, 0, model);
    rows::law_buttons_are_put_in_order(own, 0);
    assert(candidates::in_order(own).len() == candidates::in_order(own).to_multiset().len());
    assert(own.len() == own.to_multiset().len());
    reveal_strlit("Button ");
    assert(text::decimal((i + 1) as nat) == seq![words::digit_char(i + 1)]);
    assert(candidates::position_label((i + 1) as nat) =~= seq![
        'B',
        'u',
        't',
        't',
        'o',
        'n',
        ' ',
        words::digit_char(i + 1),
    ]);
}

// Everything that is offered.

proof fn lemma_candidates(a: Seq<JsonView>, b: Seq<JsonView>, buttons: Seq<JsonView>)
    ensures
        candidates::candidates_of(a + b, buttons) == candidates::candidates_of(a, buttons)
            + candidates::candidates_of(b, buttons),
    decreases b.len(),
{
    let first = candidates::candidates_of(a, buttons);
    if b.len() == 0 {
        assert(a + b =~= a);
        assert(first + Seq::<CandidateView>::empty() =~= first);
    } else {
        lemma_candidates(a, b.drop_last(), buttons);
        assert((a + b).drop_last() =~= a + b.drop_last());
        assert((a + b).last() == b.last());
        let mid = candidates::candidates_of(b.drop_last(), buttons);
        let last = candidates::candidate_of(b.last(), buttons);
        assert(first + mid + last =~= first + (mid + last));
    }
}

/// Every device is looked at, in the order of the list: what some and then some more make is what
/// both make.
pub proof fn law_every_device_is_looked_at(
    a: Seq<JsonView>,
    b: Seq<JsonView>,
    device: JsonView,
    buttons: Seq<JsonView>,
)
    ensures
        candidates::candidates_of(Seq::empty(), buttons).len() == 0,
        candidates::candidates_of(seq![device], buttons) == candidates::candidate_of(
            device,
            buttons,
        ),
        candidates::candidates_of(a + b, buttons) == candidates::candidates_of(a, buttons)
            + candidates::candidates_of(b, buttons),
{
    reveal_with_fuel(candidates::candidates_of, 2);
    lemma_candidates(a, b, buttons);
    assert(seq![device].drop_last() =~= Seq::<JsonView>::empty());
    assert(seq![device].last() == device);
    let one = candidates::candidate_of(device, buttons);
    assert(Seq::<CandidateView>::empty() + one =~= one);
}

/// No device is lost: wherever in the list one that can be adopted stands, it is offered, behind
/// as many as those before it make.
pub proof fn law_no_device_is_lost(
    devices: Seq<JsonView>,
    buttons: Seq<JsonView>,
    i: int,
    offer: CandidateView,
)
    requires
        0 <= i < devices.len(),
        candidates::candidate_of(devices[i], buttons) == seq![offer],
    ensures
        ({
            let before = candidates::candidates_of(devices.take(i), buttons).len() as int;
            let all = candidates::candidates_of(devices, buttons);
            before < all.len() && all[before] == offer
        }),
{
    let head = devices.take(i);
    let one = seq![devices[i]];
    let tail = devices.skip(i + 1);
    assert(devices =~= head + one + tail);
    law_every_device_is_looked_at(head + one, tail, devices[i], buttons);
    law_every_device_is_looked_at(head, one, devices[i], buttons);
}

/// The name of an area is that of the first on the list at its place, wherever it stands; an area
/// that is not on the list, or has no name, is called nothing.
pub proof fn law_an_area_is_called_as_the_list_says(
    areas: Seq<JsonView>,
    href: Seq<char>,
    name: Seq<char>,
    k: int,
)
    requires
        0 <= k <= areas.len(),
        forall|i: int|
            0 <= i < k ==> (#[trigger] areas[i]).get("href"@) != Some(JsonView::Text(href)),
        k < areas.len() ==> areas[k].get("href"@) == Some(JsonView::Text(href)),
    ensures
        k < areas.len() && areas[k].get("Name"@) == Some(JsonView::Text(name))
            ==> candidates::area_name(areas, href) == name,
        k < areas.len() && !(areas[k].get("Name"@) matches Some(JsonView::Text(_)))
            ==> candidates::area_name(areas, href).len() == 0,
        k == areas.len() ==> candidates::area_name(areas, href).len() == 0,
    decreases k,
{
    if k > 0 {
        let rest = areas.drop_first();
        assert(areas[0].get("href"@) != Some(JsonView::Text(href)));
        assert forall|i: int| 0 <= i < k - 1 implies (#[trigger] rest[i]).get("href"@) != Some(
            JsonView::Text(href),
        ) by {
            assert(rest[i] == areas[i + 1]);
        }
        if k < areas.len() {
            assert(rest[k - 1] == areas[k]);
        }
        law_an_area_is_called_as_the_list_says(rest, href, name, k - 1);
    }
}

/// Whether a group watches the area at this place.
pub open spec fn watches(group: JsonView, area: Seq<char>) -> bool {
    exists|areas: JsonView, first: JsonView|
        group.get("AssociatedAreas"@) == Some(areas) && #[trigger] words::leads_to(areas, first)
            && first.get2("Area"@, "href"@) == Some(JsonView::Text(area))
}

/// Whether a sensor reports to a group, and the group is at this place.
pub open spec fn has_a_sensor(group: JsonView, href: Seq<char>) -> bool {
    &&& group.get("href"@) == Some(JsonView::Text(href))
    &&& group.get("AssociatedSensors"@) matches Some(JsonView::Array(sensors)) && sensors.len() > 0
}

/// What is offered for a group in an area of this name.
pub open spec fn sensor(href: Seq<char>, area: Seq<char>) -> CandidateView {
    CandidateView {
        label: if area.len() == 0 {
            "Occupancy"@
        } else {
            area + " Occupancy"@
        },
        room: area,
        kind: "sensor"@,
        driver_id: "lutron.caseta.leap_occupancy"@,
        properties: map!["Occupancy href"@ => JsonView::Text(href)],
        capabilities: Map::empty(),
        verified: "found on bridge"@,
    }
}

/// A group that a sensor reports to is offered, called after the area that it watches. One that
/// nothing reports to is not.
pub proof fn law_a_group_with_a_sensor_is_offered(
    areas: Seq<JsonView>,
    group: JsonView,
    href: Seq<char>,
    area: Seq<char>,
)
    ensures
        has_a_sensor(group, href) && watches(group, area) ==> candidates::sensor_of(areas, group)
            == seq![sensor(href, candidates::area_name(areas, area))],
        has_a_sensor(group, href) && (forall|a: Seq<char>| !#[trigger] watches(group, a))
            ==> candidates::sensor_of(areas, group) == seq![sensor(href, Seq::empty())],
        (forall|h: Seq<char>| !#[trigger] has_a_sensor(group, h)) ==> candidates::sensor_of(
            areas,
            group,
        ).len() == 0,
{
    match candidates::watched_area(group) {
        Some(there) => {
            let list = group.get("AssociatedAreas"@)->0;
            assert(words::leads_to(list, list.head()->0));
            assert(watches(group, there));
        },
        None => {},
    }
    match json::text_of(group.get("href"@)) {
        Some(h) => {
            if json::items_or_empty(group.get("AssociatedSensors"@)).len() > 0 {
                assert(has_a_sensor(group, h));
            }
        },
        None => {},
    }
}

proof fn lemma_sensors(areas: Seq<JsonView>, a: Seq<JsonView>, b: Seq<JsonView>)
    ensures
        candidates::sensors_of(areas, a + b) == candidates::sensors_of(areas, a)
            + candidates::sensors_of(areas, b),
    decreases b.len(),
{
    let first = candidates::sensors_of(areas, a);
    if b.len() == 0 {
        assert(a + b =~= a);
        assert(first + Seq::<CandidateView>::empty() =~= first);
    } else {
        lemma_sensors(areas, a, b.drop_last());
        assert((a + b).drop_last() =~= a + b.drop_last());
        assert((a + b).last() == b.last());
        let mid = candidates::sensors_of(areas, b.drop_last());
        let last = candidates::sensor_of(areas, b.last());
        assert(first + mid + last =~= first + (mid + last));
    }
}

/// Every group is looked at, in the order of the list, and none that can be adopted is lost.
pub proof fn law_no_group_is_lost(
    areas: Seq<JsonView>,
    a: Seq<JsonView>,
    b: Seq<JsonView>,
    group: JsonView,
)
    ensures
        candidates::sensors_of(areas, Seq::empty()).len() == 0,
        candidates::sensors_of(areas, a + b) == candidates::sensors_of(areas, a)
            + candidates::sensors_of(areas, b),
        candidates::sensors_of(areas, a + seq![group] + b) == candidates::sensors_of(areas, a)
            + candidates::sensor_of(areas, group) + candidates::sensors_of(areas, b),
{
    reveal_with_fuel(candidates::sensors_of, 2);
    lemma_sensors(areas, a, b);
    lemma_sensors(areas, a + seq![group], b);
    lemma_sensors(areas, a, seq![group]);
    assert(seq![group].drop_last() =~= Seq::<JsonView>::empty());
    assert(seq![group].last() == group);
    let one = candidates::sensor_of(areas, group);
    assert(Seq::<CandidateView>::empty() + one =~= one);
}

/// What is offered for a bridge that was just paired.
pub open spec fn paired_bridge(state: JsonView) -> CandidateView {
    let m = flow::fields(state);
    CandidateView {
        label: "Caséta Smart Bridge"@,
        room: Seq::empty(),
        kind: "bridge"@,
        driver_id: "lutron.caseta.leap_bridge"@,
        properties: map![
            "Address"@ => JsonView::Text(flow::text_at(m, "address"@)),
            "Client certificate"@ => JsonView::Text(flow::text_at(m, "cert_pem"@)),
            "Client key"@ => JsonView::Text(flow::text_at(m, "key_pem"@)),
            "CA certificate"@ => JsonView::Text(flow::text_at(m, "ca_pem"@)),
        ],
        capabilities: Map::empty(),
        verified: "paired"@,
    }
}

/// What the flow gathered is the bridge where it was paired here, then what the devices that were
/// kept make, then what the groups make.
pub proof fn law_everything_gathered_is_offered(
    state: JsonView,
    include_bridge: bool,
    groups: Seq<JsonView>,
)
    ensures
        candidates::gathered(state, include_bridge, groups) == (if include_bridge {
            seq![paired_bridge(state)]
        } else {
            Seq::empty()
        }) + candidates::candidates_of(flow::list_at(state, "devices_json"@), flow::list_at(state, "buttons_json"@))
            + candidates::sensors_of(flow::list_at(state, "areas_json"@), groups),
{
    assert(candidates::bridge_candidate(state) == paired_bridge(state));
}

} // verus!
