use caseta_leap::tables::{
    adopter, battery_percent, pico_keys, to_house_speed, to_leap_speed, zoned, Kind, DIMMER_ID,
    FAN_ID, SHADE_ID, SWITCH_ID,
};
use caseta_leap::text::{contains, join, parse_unsigned, same, starts_with, strip_prefix, to_decimal, to_two_places, trim};

#[test]
fn every_type_in_the_lists_is_one_thing() {
    let lists: [(&[&str], Kind); 4] = [
        (
            &[
                "WallDimmer", "PlugInDimmer", "InLineDimmer", "SunnataDimmer", "TempInWallPaddleDimmer",
                "WallDimmerWithPreset", "Dimmed", "SpectrumTune", "DivaSmartDimmer", "WhiteTune",
                "PowPak0-10V", "ColorTune",
            ],
            Kind::Light,
        ),
        (
            &[
                "WallSwitch", "OutdoorPlugInSwitch", "PlugInSwitch", "InLineSwitch", "PowPakSwitch",
                "SunnataSwitch", "TempInWallPaddleSwitch", "Switched", "KeypadLED", "DivaSmartSwitch",
            ],
            Kind::Switch,
        ),
        (&["CasetaFanSpeedController", "MaestroFanSpeedController", "FanSpeed"], Kind::Fan),
        (
            &[
                "SerenaHoneycombShade", "SerenaRollerShade", "TriathlonHoneycombShade",
                "TriathlonEssentialsRollerShade", "TriathlonRollerShade", "TriathlonTiltOnlyWoodBlind",
                "QsWirelessShade", "QsWirelessHorizontalSheerBlind", "QsWirelessWoodBlind",
                "RightDrawDrape", "Shade", "Tilt", "SerenaTiltOnlyWoodBlind", "PalladiomWireFreeShade",
                "SerenaEssentialsRollerShade", "OpenCloseStop",
            ],
            Kind::Shade,
        ),
    ];
    for (types, kind) in lists {
        for device_type in types {
            assert!(zoned(device_type) == Some(kind), "{device_type}");
        }
    }
    assert!(zoned("walldimmer").is_none());
    assert!(zoned("").is_none());
    assert!(zoned("Pico2Button").is_none());
}

#[test]
fn each_kind_has_its_driver_and_its_proxy() {
    assert_eq!(adopter(Kind::Light), (DIMMER_ID, "light"));
    assert_eq!(adopter(Kind::Switch), (SWITCH_ID, "switch"));
    assert_eq!(adopter(Kind::Fan), (FAN_ID, "fan"));
    assert_eq!(adopter(Kind::Shade), (SHADE_ID, "blind"));
    assert_eq!(Kind::Shade.as_str(), "shade");
}

#[test]
fn fan_speeds_translate_both_ways() {
    for (house, leap) in [("low", "Low"), ("medium", "Medium"), ("medium_high", "MediumHigh"), ("high", "High")] {
        assert_eq!(to_leap_speed(house), Some(leap));
        assert_eq!(to_house_speed(leap), Some(house));
    }
    assert_eq!(to_leap_speed("off"), None);
    assert_eq!(to_house_speed("Off"), None);
}

#[test]
fn a_battery_word_is_worth_a_percentage() {
    for full in ["Good", "Normal", "Full"] {
        assert_eq!(battery_percent(full), Some(100));
    }
    assert_eq!(battery_percent("Low"), Some(10));
    assert_eq!(battery_percent("Critical"), Some(2));
    assert_eq!(battery_percent("good"), None);
}

#[test]
fn each_model_has_the_keys_that_are_engraved_on_it() {
    assert_eq!(pico_keys("Pico2Button"), Some(vec![(0, "On"), (2, "Off")]));
    assert_eq!(pico_keys("PaddleSwitchPico"), Some(vec![(0, "On"), (2, "Off")]));
    assert_eq!(
        pico_keys("Pico2ButtonRaiseLower"),
        Some(vec![(0, "On"), (2, "Off"), (3, "Raise"), (4, "Lower")])
    );
    assert_eq!(pico_keys("Pico3Button"), Some(vec![(0, "On"), (1, "Favorite"), (2, "Off")]));
    assert_eq!(
        pico_keys("Pico4Button"),
        Some(vec![(1, "Button 1"), (2, "Button 2"), (3, "Button 3"), (4, "Button 4")])
    );
    assert_eq!(
        pico_keys("Pico4ButtonScene"),
        Some(vec![(1, "Button 1"), (2, "Button 2"), (3, "Button 3"), (4, "Off")])
    );
    assert_eq!(
        pico_keys("Pico4ButtonZone"),
        Some(vec![(1, "On"), (2, "Raise"), (3, "Lower"), (4, "Off")])
    );
    assert_eq!(
        pico_keys("Pico4Button2Group"),
        Some(vec![
            (1, "Group 1 Button 1"),
            (2, "Group 1 Button 2"),
            (3, "Group 2 Button 1"),
            (4, "Group 2 Button 2"),
        ])
    );
    assert_eq!(pico_keys("FourGroupRemote"), None);
}

#[test]
fn numbers_are_written_and_read() {
    assert_eq!(to_decimal(0), "0");
    assert_eq!(to_decimal(u64::MAX), "18446744073709551615");
    assert_eq!(to_two_places(7), "07");
    assert_eq!(to_two_places(123), "123");
    assert_eq!(parse_unsigned("18446744073709551615", u64::MAX), Some(u64::MAX));
    assert_eq!(parse_unsigned("18446744073709551616", u64::MAX), None);
    assert_eq!(parse_unsigned("007", 10), Some(7));
    assert_eq!(parse_unsigned("11", 10), None);
    for odd in ["", "+", "-1", " 1", "1 ", "1.0", "++1", "٣"] {
        assert_eq!(parse_unsigned(odd, u64::MAX), None, "{odd}");
    }
    assert_eq!(parse_unsigned("+5", u64::MAX), Some(5));
}

#[test]
fn texts_are_trimmed_and_searched_as_std_does() {
    for s in ["", " ", "a", "  a b\t", "\u{2003}x\u{a0}", "é ", "\r\n{}\r\n", "\u{200b}", "\u{85}y\u{3000}", "\u{1680}\u{2028}z"] {
        assert_eq!(trim(s), s.trim());
    }
    for (s, t) in [("Pico", "Pico2"), ("", ""), ("é", "è"), ("abc", "abc")] {
        assert_eq!(same(s, t), s == t);
        assert_eq!(starts_with(s, t), s.starts_with(t));
        assert_eq!(starts_with(t, s), t.starts_with(s));
        assert_eq!(contains(t, s), t.contains(s));
        assert_eq!(strip_prefix(t, s), t.strip_prefix(s));
    }
    assert!(contains("TriathlonTiltOnlyWoodBlind", "Tilt"));
    assert!(!contains("Til", "Tilt"));
    assert_eq!(join(&["a", "", "c"], ", "), "a, , c");
    assert_eq!(join(&[], ","), "");
}
