//! Laws of the tables: what a device is, and what its speeds and levels are called.

use crate::host::InstanceView;
use crate::json;
use crate::tables::{self, Kind};
use vstd::prelude::*;

verus! {

/// A kind that was written down is the kind that is read back.
pub proof fn law_a_kind_is_read_back(kind: Kind)
    ensures
        tables::kind_of_word(tables::kind_word(kind)) == kind,
{
    reveal_strlit("light");
    reveal_strlit("switch");
    reveal_strlit("fan");
    reveal_strlit("shade");
    assert("light"@[0] == 'l');
    assert("shade"@[0] == 's');
    assert("light"@.len() == 5);
    assert("switch"@.len() == 6);
    assert("fan"@.len() == 3);
    assert("shade"@.len() == 5);
}

/// A device of which no kind was written down is a light.
pub proof fn law_a_device_without_a_kind_is_a_light(inst: InstanceView)
    requires
        !inst.properties.contains_key("Kind"@),
    ensures
        tables::kind_of(inst) == Kind::Light,
{
    reveal_strlit("");
    reveal_strlit("switch");
    reveal_strlit("fan");
    reveal_strlit("shade");
    assert(""@.len() == 0);
    assert(json::text_or_empty(inst.property("Kind"@)).len() == 0);
}

/// No device type is two things: the lists of dimmers, switches, fans and shades have nothing in
/// common, and no remote is in any of them.
#[verifier::rlimit(60)]
pub proof fn law_a_device_type_is_one_thing(device_type: Seq<char>)
    ensures
        tables::is_dimmable(device_type) ==> tables::zone_kind(device_type) == Some(Kind::Light)
            && !tables::is_switched(device_type) && !tables::is_fan(device_type)
            && !tables::is_cover(device_type) && !tables::is_remote(device_type),
        tables::is_switched(device_type) ==> tables::zone_kind(device_type) == Some(Kind::Switch)
            && !tables::is_fan(device_type) && !tables::is_cover(device_type)
            && !tables::is_remote(device_type),
        tables::is_fan(device_type) ==> tables::zone_kind(device_type) == Some(Kind::Fan)
            && !tables::is_cover(device_type) && !tables::is_remote(device_type),
        tables::is_cover(device_type) ==> tables::zone_kind(device_type) == Some(Kind::Shade)
            && !tables::is_remote(device_type),
{
    reveal_strlit("WallDimmer");
    reveal_strlit("PlugInDimmer");
    reveal_strlit("InLineDimmer");
    reveal_strlit("SunnataDimmer");
    reveal_strlit("TempInWallPaddleDimmer");
    reveal_strlit("WallDimmerWithPreset");
    reveal_strlit("Dimmed");
    reveal_strlit("SpectrumTune");
    reveal_strlit("DivaSmartDimmer");
    reveal_strlit("WhiteTune");
    reveal_strlit("PowPak0-10V");
    reveal_strlit("ColorTune");
    reveal_strlit("WallSwitch");
    reveal_strlit("OutdoorPlugInSwitch");
    reveal_strlit("PlugInSwitch");
    reveal_strlit("InLineSwitch");
    reveal_strlit("PowPakSwitch");
    reveal_strlit("SunnataSwitch");
    reveal_strlit("TempInWallPaddleSwitch");
    reveal_strlit("Switched");
    reveal_strlit("KeypadLED");
    reveal_strlit("DivaSmartSwitch");
    reveal_strlit("CasetaFanSpeedController");
    reveal_strlit("MaestroFanSpeedController");
    reveal_strlit("FanSpeed");
    reveal_strlit("SerenaHoneycombShade");
    reveal_strlit("SerenaRollerShade");
    reveal_strlit("TriathlonHoneycombShade");
    reveal_strlit("TriathlonEssentialsRollerShade");
    reveal_strlit("TriathlonRollerShade");
    reveal_strlit("TriathlonTiltOnlyWoodBlind");
    reveal_strlit("QsWirelessShade");
    reveal_strlit("QsWirelessHorizontalSheerBlind");
    reveal_strlit("QsWirelessWoodBlind");
    reveal_strlit("RightDrawDrape");
    reveal_strlit("Shade");
    reveal_strlit("Tilt");
    reveal_strlit("SerenaTiltOnlyWoodBlind");
    reveal_strlit("PalladiomWireFreeShade");
    reveal_strlit("SerenaEssentialsRollerShade");
    reveal_strlit("OpenCloseStop");
    reveal_strlit("Pico");
    assert("CasetaFanSpeedController"@[0] == 'C');
    assert("ColorTune"@[0] == 'C');
    assert("Dimmed"@[0] == 'D');
    assert("DivaSmartDimmer"@[0] == 'D');
    assert("DivaSmartDimmer"@[9] == 'D');
    assert("DivaSmartSwitch"@[0] == 'D');
    assert("DivaSmartSwitch"@[9] == 'S');
    assert("FanSpeed"@[0] == 'F');
    assert("InLineDimmer"@[0] == 'I');
    assert("InLineDimmer"@[6] == 'D');
    assert("InLineSwitch"@[0] == 'I');
    assert("InLineSwitch"@[6] == 'S');
    assert("KeypadLED"@[0] == 'K');
    assert("MaestroFanSpeedController"@[0] == 'M');
    assert("OpenCloseStop"@[0] == 'O');
    assert("OutdoorPlugInSwitch"@[0] == 'O');
    assert("PalladiomWireFreeShade"@[0] == 'P');
    assert("PalladiomWireFreeShade"@[1] == 'a');
    assert("Pico"@[0] == 'P');
    assert("Pico"@[1] == 'i');
    assert("PlugInDimmer"@[0] == 'P');
    assert("PlugInDimmer"@[1] == 'l');
    assert("PlugInDimmer"@[6] == 'D');
    assert("PlugInSwitch"@[0] == 'P');
    assert("PlugInSwitch"@[1] == 'l');
    assert("PlugInSwitch"@[6] == 'S');
    assert("PowPak0-10V"@[1] == 'o');
    assert("PowPakSwitch"@[0] == 'P');
    assert("PowPakSwitch"@[1] == 'o');
    assert("QsWirelessHorizontalSheerBlind"@[0] == 'Q');
    assert("QsWirelessShade"@[0] == 'Q');
    assert("QsWirelessWoodBlind"@[0] == 'Q');
    assert("RightDrawDrape"@[0] == 'R');
    assert("SerenaEssentialsRollerShade"@[0] == 'S');
    assert("SerenaHoneycombShade"@[0] == 'S');
    assert("SerenaRollerShade"@[0] == 'S');
    assert("SerenaTiltOnlyWoodBlind"@[0] == 'S');
    assert("Shade"@[0] == 'S');
    assert("SpectrumTune"@[0] == 'S');
    assert("SunnataDimmer"@[0] == 'S');
    assert("SunnataDimmer"@[7] == 'D');
    assert("SunnataSwitch"@[0] == 'S');
    assert("SunnataSwitch"@[7] == 'S');
    assert("Switched"@[0] == 'S');
    assert("TempInWallPaddleDimmer"@[0] == 'T');
    assert("TempInWallPaddleDimmer"@[16] == 'D');
    assert("TempInWallPaddleSwitch"@[0] == 'T');
    assert("TempInWallPaddleSwitch"@[16] == 'S');
    assert("Tilt"@[0] == 'T');
    assert("TriathlonEssentialsRollerShade"@[0] == 'T');
    assert("TriathlonHoneycombShade"@[0] == 'T');
    assert("TriathlonRollerShade"@[0] == 'T');
    assert("TriathlonTiltOnlyWoodBlind"@[0] == 'T');
    assert("WallDimmer"@[0] == 'W');
    assert("WallDimmer"@[4] == 'D');
    assert("WallDimmerWithPreset"@[0] == 'W');
    assert("WallSwitch"@[0] == 'W');
    assert("WallSwitch"@[4] == 'S');
    assert("WhiteTune"@[0] == 'W');
    if tables::is_remote(device_type) {
        assert(device_type[0] == "Pico"@[0]);
        assert(device_type[1] == "Pico"@[1]);
    }
}

/// The house's words for a fan's speed and Lutron's translate into each other without a loss.
pub proof fn law_fan_speeds_translate_both_ways(house: Seq<char>, leap: Seq<char>)
    ensures
        tables::leap_speed(house) == Some(leap) <==> tables::house_speed(leap) == Some(house),
{
    reveal_strlit("low");
    reveal_strlit("medium");
    reveal_strlit("medium_high");
    reveal_strlit("high");
    reveal_strlit("Low");
    reveal_strlit("Medium");
    reveal_strlit("MediumHigh");
    reveal_strlit("High");
    assert("Low"@[0] == 'L');
    assert("low"@[0] == 'l');
    assert("low"@.len() == 3);
    assert("medium"@.len() == 6);
    assert("medium_high"@.len() == 11);
    assert("high"@.len() == 4);
    assert("Low"@.len() == 3);
    assert("Medium"@.len() == 6);
    assert("MediumHigh"@.len() == 10);
    assert("High"@.len() == 4);
}

/// Off is no speed, neither in the house's words nor in Lutron's; the slowest speed is one.
pub proof fn law_off_is_no_speed()
    ensures
        tables::house_speed("Off"@) is None,
        tables::leap_speed("off"@) is None,
        tables::leap_speed(tables::SLOWEST@) is Some,
{
    reveal_strlit("low");
    reveal_strlit("medium");
    reveal_strlit("medium_high");
    reveal_strlit("high");
    reveal_strlit("Low");
    reveal_strlit("Medium");
    reveal_strlit("MediumHigh");
    reveal_strlit("High");
    reveal_strlit("Off");
    reveal_strlit("off");
    assert("Low"@[0] == 'L');
    assert("Off"@[0] == 'O');
    assert("low"@[0] == 'l');
    assert("off"@[0] == 'o');
}

/// A battery level that is known is a percentage.
pub proof fn law_a_battery_is_at_most_full(level: Seq<char>)
    ensures
        tables::percent_of(level) matches Some(percent) ==> percent <= 100,
{
}

} // verus!
