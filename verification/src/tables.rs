//! What Lutron's hardware is called and what it turns out to be.

use crate::host::{Instance, InstanceView};
use crate::json::{self, str_or_empty, Json, JsonView};
use crate::text;
use vstd::prelude::*;

verus! {

/// The driver of a bridge.
pub const BRIDGE_ID: &'static str = "lutron.caseta.leap_bridge";

/// The driver of a dimmer.
pub const DIMMER_ID: &'static str = "lutron.caseta.leap_dimmer";

/// The driver of a Pico remote.
pub const PICO_ID: &'static str = "lutron.caseta.leap_pico";

/// The driver of a switch.
pub const SWITCH_ID: &'static str = "lutron.caseta.leap_switch";

/// The driver of a fan.
pub const FAN_ID: &'static str = "lutron.caseta.leap_fan";

/// The driver of a shade.
pub const SHADE_ID: &'static str = "lutron.caseta.leap_shade";

/// The driver of an area's occupancy.
pub const OCCUPANCY_ID: &'static str = "lutron.caseta.leap_occupancy";

/// The bridge's unauthenticated port, on which a client is paired.
pub const PAIR_PORT: u16 = 8083;

/// The bridge's authenticated port, on which everything else happens.
pub const LEAP_PORT: u16 = 8081;

/// The most buttons any Pico has. An upper bound for reading the hrefs off an instance, not a
/// claim about any one remote.
pub const MAX_BUTTONS: usize = 5;

/// How long a key must stay down before it counts as held rather than pressed, in milliseconds.
pub const HOLD_MS: u32 = 500;

/// How long a held keypad button takes to run a lamp from one end of its travel to the other, in
/// seconds.
pub const RAMP_SECS: u64 = 4;

/// How many one-second polls to give someone to walk over and press the button.
pub const PAIR_WAIT_SECS: u32 = 30;

/// How many more reads to give the bridge for an answer that has not arrived yet.
pub const READ_RETRIES: u32 = 5;

/// What a zone behind the bridge turns out to be.
///
/// The wire looks the same for a dimmer, a switch, a fan and a shade. What a zone is gets written
/// down at adoption as the property `Kind`, and is read back on every command and every status.
#[derive(Debug, Clone, Copy, PartialEq, Eq, Structural)]
pub enum Kind {
    Light,
    Switch,
    Fan,
    Shade,
}

/// The word that a kind is written down as.
pub open spec fn kind_word(kind: Kind) -> Seq<char> {
    match kind {
        Kind::Light => "light"@,
        Kind::Switch => "switch"@,
        Kind::Fan => "fan"@,
        Kind::Shade => "shade"@,
    }
}

/// The kind that a word says. Anything but the words of the others says a light.
pub open spec fn kind_of_word(word: Seq<char>) -> Kind {
    if word == "switch"@ {
        Kind::Switch
    } else if word == "fan"@ {
        Kind::Fan
    } else if word == "shade"@ {
        Kind::Shade
    } else {
        Kind::Light
    }
}

/// The kind of a device: a light where none was written down.
pub open spec fn kind_of(inst: InstanceView) -> Kind {
    kind_of_word(json::text_or_empty(inst.property("Kind"@)))
}

impl InstanceView {
    /// What was written down about the device under `name`.
    pub open spec fn property(self, name: Seq<char>) -> Option<JsonView> {
        json::find(self.properties, name)
    }
}

impl Instance {
    /// What was written down about the device under `name`.
    pub fn property(&self, name: &str) -> (r: Option<&Json>)
        ensures
            r.deep_view() == self@.property(name@),
    {
        self.properties.get(name)
    }
}

impl Kind {
    /// The word that the kind is written down as.
    pub fn as_str(self) -> (r: &'static str)
        ensures
            r@ == kind_word(self),
    {
        match self {
            Kind::Light => "light",
            Kind::Switch => "switch",
            Kind::Fan => "fan",
            Kind::Shade => "shade",
        }
    }

    /// The kind of a device: a light where none was written down.
    pub fn of(inst: &Instance) -> (r: Kind)
        ensures
            r == kind_of(inst@),
    {
        let word = str_or_empty(inst.property("Kind"));
        if text::same(word, "switch") {
            Kind::Switch
        } else if text::same(word, "fan") {
            Kind::Fan
        } else if text::same(word, "shade") {
            Kind::Shade
        } else {
            Kind::Light
        }
    }
}

/// Whether a LEAP `DeviceType` is a dimmer.
pub open spec fn is_dimmable(device_type: Seq<char>) -> bool {
    ||| device_type == "WallDimmer"@
    ||| device_type == "PlugInDimmer"@
    ||| device_type == "InLineDimmer"@
    ||| device_type == "SunnataDimmer"@
    ||| device_type == "TempInWallPaddleDimmer"@
    ||| device_type == "WallDimmerWithPreset"@
    ||| device_type == "Dimmed"@
    ||| device_type == "SpectrumTune"@
    ||| device_type == "DivaSmartDimmer"@
    ||| device_type == "WhiteTune"@
    ||| device_type == "PowPak0-10V"@
    ||| device_type == "ColorTune"@
}

/// Whether a LEAP `DeviceType` is a switch.
pub open spec fn is_switched(device_type: Seq<char>) -> bool {
    ||| device_type == "WallSwitch"@
    ||| device_type == "OutdoorPlugInSwitch"@
    ||| device_type == "PlugInSwitch"@
    ||| device_type == "InLineSwitch"@
    ||| device_type == "PowPakSwitch"@
    ||| device_type == "SunnataSwitch"@
    ||| device_type == "TempInWallPaddleSwitch"@
    ||| device_type == "Switched"@
    ||| device_type == "KeypadLED"@
    ||| device_type == "DivaSmartSwitch"@
}

/// Whether a LEAP `DeviceType` is a fan controller.
pub open spec fn is_fan(device_type: Seq<char>) -> bool {
    ||| device_type == "CasetaFanSpeedController"@
    ||| device_type == "MaestroFanSpeedController"@
    ||| device_type == "FanSpeed"@
}

/// Whether a LEAP `DeviceType` is a shade.
pub open spec fn is_cover(device_type: Seq<char>) -> bool {
    ||| device_type == "SerenaHoneycombShade"@
    ||| device_type == "SerenaRollerShade"@
    ||| device_type == "TriathlonHoneycombShade"@
    ||| device_type == "TriathlonEssentialsRollerShade"@
    ||| device_type == "TriathlonRollerShade"@
    ||| device_type == "TriathlonTiltOnlyWoodBlind"@
    ||| device_type == "QsWirelessShade"@
    ||| device_type == "QsWirelessHorizontalSheerBlind"@
    ||| device_type == "QsWirelessWoodBlind"@
    ||| device_type == "RightDrawDrape"@
    ||| device_type == "Shade"@
    ||| device_type == "Tilt"@
    ||| device_type == "SerenaTiltOnlyWoodBlind"@
    ||| device_type == "PalladiomWireFreeShade"@
    ||| device_type == "SerenaEssentialsRollerShade"@
    ||| device_type == "OpenCloseStop"@
}

/// What a LEAP `DeviceType` is, if it is one of those with a zone.
pub open spec fn zone_kind(device_type: Seq<char>) -> Option<Kind> {
    if is_dimmable(device_type) {
        Some(Kind::Light)
    } else if is_switched(device_type) {
        Some(Kind::Switch)
    } else if is_fan(device_type) {
        Some(Kind::Fan)
    } else if is_cover(device_type) {
        Some(Kind::Shade)
    } else {
        None
    }
}

/// Whether a LEAP `DeviceType` is a dimmer.
fn dimmable(device_type: &str) -> (r: bool)
    ensures
        r == is_dimmable(device_type@),
{
    text::same(device_type, "WallDimmer")
        || text::same(device_type, "PlugInDimmer")
        || text::same(device_type, "InLineDimmer")
        || text::same(device_type, "SunnataDimmer")
        || text::same(device_type, "TempInWallPaddleDimmer")
        || text::same(device_type, "WallDimmerWithPreset")
        || text::same(device_type, "Dimmed")
        || text::same(device_type, "SpectrumTune")
        || text::same(device_type, "DivaSmartDimmer")
        || text::same(device_type, "WhiteTune")
        || text::same(device_type, "PowPak0-10V")
        || text::same(device_type, "ColorTune")
}

/// Whether a LEAP `DeviceType` is a switch.
fn switched(device_type: &str) -> (r: bool)
    ensures
        r == is_switched(device_type@),
{
    text::same(device_type, "WallSwitch")
        || text::same(device_type, "OutdoorPlugInSwitch")
        || text::same(device_type, "PlugInSwitch")
        || text::same(device_type, "InLineSwitch")
        || text::same(device_type, "PowPakSwitch")
        || text::same(device_type, "SunnataSwitch")
        || text::same(device_type, "TempInWallPaddleSwitch")
        || text::same(device_type, "Switched")
        || text::same(device_type, "KeypadLED")
        || text::same(device_type, "DivaSmartSwitch")
}

/// Whether a LEAP `DeviceType` is a fan controller.
fn fan(device_type: &str) -> (r: bool)
    ensures
        r == is_fan(device_type@),
{
    text::same(device_type, "CasetaFanSpeedController")
        || text::same(device_type, "MaestroFanSpeedController")
        || text::same(device_type, "FanSpeed")
}

/// Whether a LEAP `DeviceType` is a shade.
fn cover(device_type: &str) -> (r: bool)
    ensures
        r == is_cover(device_type@),
{
    text::same(device_type, "SerenaHoneycombShade")
        || text::same(device_type, "SerenaRollerShade")
        || text::same(device_type, "TriathlonHoneycombShade")
        || text::same(device_type, "TriathlonEssentialsRollerShade")
        || text::same(device_type, "TriathlonRollerShade")
        || text::same(device_type, "TriathlonTiltOnlyWoodBlind")
        || text::same(device_type, "QsWirelessShade")
        || text::same(device_type, "QsWirelessHorizontalSheerBlind")
        || text::same(device_type, "QsWirelessWoodBlind")
        || text::same(device_type, "RightDrawDrape")
        || text::same(device_type, "Shade")
        || text::same(device_type, "Tilt")
        || text::same(device_type, "SerenaTiltOnlyWoodBlind")
        || text::same(device_type, "PalladiomWireFreeShade")
        || text::same(device_type, "SerenaEssentialsRollerShade")
        || text::same(device_type, "OpenCloseStop")
}

/// What a LEAP `DeviceType` is, if it is one of those with a zone.
pub fn zoned(device_type: &str) -> (r: Option<Kind>)
    ensures
        r == zone_kind(device_type@),
{
    if dimmable(device_type) {
        Some(Kind::Light)
    } else if switched(device_type) {
        Some(Kind::Switch)
    } else if fan(device_type) {
        Some(Kind::Fan)
    } else if cover(device_type) {
        Some(Kind::Shade)
    } else {
        None
    }
}

/// The driver that adopts a zone of this kind.
pub open spec fn driver_of(kind: Kind) -> Seq<char> {
    match kind {
        Kind::Light => DIMMER_ID@,
        Kind::Switch => SWITCH_ID@,
        Kind::Fan => FAN_ID@,
        Kind::Shade => SHADE_ID@,
    }
}

/// The proxy that a zone of this kind presents.
pub open spec fn proxy_of(kind: Kind) -> Seq<char> {
    match kind {
        Kind::Light => "light"@,
        Kind::Switch => "switch"@,
        Kind::Fan => "fan"@,
        Kind::Shade => "blind"@,
    }
}

/// The driver that adopts a zone of this kind, and the proxy that it presents.
pub fn adopter(kind: Kind) -> (r: (&'static str, &'static str))
    ensures
        r.0@ == driver_of(kind),
        r.1@ == proxy_of(kind),
{
    match kind {
        Kind::Light => (DIMMER_ID, "light"),
        Kind::Switch => (SWITCH_ID, "switch"),
        Kind::Fan => (FAN_ID, "fan"),
        Kind::Shade => (SHADE_ID, "blind"),
    }
}

/// What LEAP calls a speed that the house names.
pub open spec fn leap_speed(house: Seq<char>) -> Option<Seq<char>> {
    if house == "low"@ {
        Some("Low"@)
    } else if house == "medium"@ {
        Some("Medium"@)
    } else if house == "medium_high"@ {
        Some("MediumHigh"@)
    } else if house == "high"@ {
        Some("High"@)
    } else {
        None
    }
}

/// What the house calls a speed that LEAP names.
pub open spec fn house_speed(leap: Seq<char>) -> Option<Seq<char>> {
    if leap == "Low"@ {
        Some("low"@)
    } else if leap == "Medium"@ {
        Some("medium"@)
    } else if leap == "MediumHigh"@ {
        Some("medium_high"@)
    } else if leap == "High"@ {
        Some("high"@)
    } else {
        None
    }
}

/// The slowest speed, in the house's words.
pub const SLOWEST: &'static str = "low";

/// What LEAP calls a speed that the house names.
pub fn to_leap_speed(house: &str) -> (r: Option<&'static str>)
    ensures
        r.deep_view() == leap_speed(house@),
{
    if text::same(house, "low") {
        Some("Low")
    } else if text::same(house, "medium") {
        Some("Medium")
    } else if text::same(house, "medium_high") {
        Some("MediumHigh")
    } else if text::same(house, "high") {
        Some("High")
    } else {
        None
    }
}

/// What the house calls a speed that LEAP names.
pub fn to_house_speed(leap: &str) -> (r: Option<&'static str>)
    ensures
        r.deep_view() == house_speed(leap@),
{
    if text::same(leap, "Low") {
        Some("low")
    } else if text::same(leap, "Medium") {
        Some("medium")
    } else if text::same(leap, "MediumHigh") {
        Some("medium_high")
    } else if text::same(leap, "High") {
        Some("high")
    } else {
        None
    }
}

/// What the bridge's coarse battery level is worth as a percentage.
///
/// Lutron reports a word. Anything unrecognised reports nothing at all rather than a number
/// nobody can stand behind.
pub open spec fn percent_of(level: Seq<char>) -> Option<u8> {
    if level == "Good"@ || level == "Normal"@ || level == "Full"@ {
        Some(100)
    } else if level == "Low"@ {
        Some(10)
    } else if level == "Critical"@ {
        Some(2)
    } else {
        None
    }
}

/// What the bridge's coarse battery level is worth as a percentage.
pub fn battery_percent(level: &str) -> (r: Option<u8>)
    ensures
        r == percent_of(level@),
{
    if text::same(level, "Good") || text::same(level, "Normal") || text::same(level, "Full") {
        Some(100)
    } else if text::same(level, "Low") {
        Some(10)
    } else if text::same(level, "Critical") {
        Some(2)
    } else {
        None
    }
}

/// Whether a LEAP `DeviceType` is any Pico remote: all their names begin with `Pico`.
pub open spec fn is_remote(device_type: Seq<char>) -> bool {
    "Pico"@.is_prefix_of(device_type)
}

/// Whether a LEAP `DeviceType` is any Pico remote.
pub fn is_pico(device_type: &str) -> (r: bool)
    ensures
        r == is_remote(device_type@),
{
    text::starts_with(device_type, "Pico")
}

/// What each key on a Pico is, by model: the number that the bridge gives it and its engraving,
/// in the order of the numbers.
///
/// The bridge does not say. It calls every key `Button N` whatever is in somebody's hand, and
/// lists numbers that do not exist on the remote.
pub open spec fn engraved_keys(model: Seq<char>) -> Option<Seq<(u64, Seq<char>)>> {
    if model == "Pico2Button"@ {
        Some(seq![(0u64, "On"@), (2u64, "Off"@)])
    } else if model == "PaddleSwitchPico"@ {
        Some(seq![(0u64, "On"@), (2u64, "Off"@)])
    } else if model == "Pico2ButtonRaiseLower"@ {
        Some(seq![(0u64, "On"@), (2u64, "Off"@), (3u64, "Raise"@), (4u64, "Lower"@)])
    } else if model == "Pico3Button"@ {
        Some(seq![(0u64, "On"@), (1u64, "Favorite"@), (2u64, "Off"@)])
    } else if model == "Pico3ButtonRaiseLower"@ {
        Some(seq![(0u64, "On"@), (1u64, "Favorite"@), (2u64, "Off"@), (3u64, "Raise"@), (4u64, "Lower"@)])
    } else if model == "Pico4Button"@ {
        Some(seq![(1u64, "Button 1"@), (2u64, "Button 2"@), (3u64, "Button 3"@), (4u64, "Button 4"@)])
    } else if model == "Pico4ButtonScene"@ {
        Some(seq![(1u64, "Button 1"@), (2u64, "Button 2"@), (3u64, "Button 3"@), (4u64, "Off"@)])
    } else if model == "Pico4ButtonZone"@ {
        Some(seq![(1u64, "On"@), (2u64, "Raise"@), (3u64, "Lower"@), (4u64, "Off"@)])
    } else if model == "Pico4Button2Group"@ {
        Some(seq![(1u64, "Group 1 Button 1"@), (2u64, "Group 1 Button 2"@), (3u64, "Group 2 Button 1"@), (4u64, "Group 2 Button 2"@)])
    } else {
        None
    }
}

/// What each key on a Pico is, by model.
pub fn pico_keys(model: &str) -> (r: Option<Vec<(u64, &'static str)>>)
    ensures
        r.deep_view() == engraved_keys(model@),
{
    if text::same(model, "Pico2Button") {
        let keys: Vec<(u64, &'static str)> = vec![(0u64, "On"), (2u64, "Off")];
        assert(Some(keys.deep_view()) =~= engraved_keys(model@));
        Some(keys)
    } else if text::same(model, "PaddleSwitchPico") {
        let keys: Vec<(u64, &'static str)> = vec![(0u64, "On"), (2u64, "Off")];
        assert(Some(keys.deep_view()) =~= engraved_keys(model@));
        Some(keys)
    } else if text::same(model, "Pico2ButtonRaiseLower") {
        let keys: Vec<(u64, &'static str)> = vec![(0u64, "On"), (2u64, "Off"), (3u64, "Raise"), (4u64, "Lower")];
        assert(Some(keys.deep_view()) =~= engraved_keys(model@));
        Some(keys)
    } else if text::same(model, "Pico3Button") {
        let keys: Vec<(u64, &'static str)> = vec![(0u64, "On"), (1u64, "Favorite"), (2u64, "Off")];
        assert(Some(keys.deep_view()) =~= engraved_keys(model@));
        Some(keys)
    } else if text::same(model, "Pico3ButtonRaiseLower") {
        let keys: Vec<(u64, &'static str)> = vec![(0u64, "On"), (1u64, "Favorite"), (2u64, "Off"), (3u64, "Raise"), (4u64, "Lower")];
        assert(Some(keys.deep_view()) =~= engraved_keys(model@));
        Some(keys)
    } else if text::same(model, "Pico4Button") {
        let keys: Vec<(u64, &'static str)> = vec![(1u64, "Button 1"), (2u64, "Button 2"), (3u64, "Button 3"), (4u64, "Button 4")];
        assert(Some(keys.deep_view()) =~= engraved_keys(model@));
        Some(keys)
    } else if text::same(model, "Pico4ButtonScene") {
        let keys: Vec<(u64, &'static str)> = vec![(1u64, "Button 1"), (2u64, "Button 2"), (3u64, "Button 3"), (4u64, "Off")];
        assert(Some(keys.deep_view()) =~= engraved_keys(model@));
        Some(keys)
    } else if text::same(model, "Pico4ButtonZone") {
        let keys: Vec<(u64, &'static str)> = vec![(1u64, "On"), (2u64, "Raise"), (3u64, "Lower"), (4u64, "Off")];
        assert(Some(keys.deep_view()) =~= engraved_keys(model@));
        Some(keys)
    } else if text::same(model, "Pico4Button2Group") {
        let keys: Vec<(u64, &'static str)> = vec![(1u64, "Group 1 Button 1"), (2u64, "Group 1 Button 2"), (3u64, "Group 2 Button 1"), (4u64, "Group 2 Button 2")];
        assert(Some(keys.deep_view()) =~= engraved_keys(model@));
        Some(keys)
    } else {
        None
    }
}

} // verus!
