//! Settings and where they are found.

use letsnote_wheelpad::config::{Config, ConfigFile, Scroll};
use letsnote_wheelpad::daemon::{choose_device, log_filter, DeviceChoice};
use letsnote_wheelpad::error::Error;

#[test]
fn defaults_match_windows() {
    let c = Config::default();
    assert!(c.scroll.enable);
    assert!(!c.scroll.reverse_vertical);
    assert!(!c.scroll.horizontal_enable);
    assert_eq!(c.scroll.sensitivity, 0);
    assert_eq!(c.scroll.detect_area_width, 0);
    assert_eq!(c.scroll.horizontal_start, 2);
    assert_eq!(c.scroll.horizontal_end, 6);
}

#[test]
fn the_other_defaults() {
    let c = Config::default();
    assert!(c.device.is_none());
    assert_eq!(c.device_name_regex, "Synaptics.*TM3562");
    assert_eq!(c.log.level, "info");
    assert!(!c.scroll.reverse_horizontal);
    assert!(c.validate().is_ok());
}

#[test]
fn validate_rejects_out_of_range_sensitivity() {
    let mut c = Config::default();
    c.scroll.sensitivity = -5;
    assert!(c.validate().is_err());
    c.scroll.sensitivity = 3;
    assert!(c.validate().is_err());
}

#[test]
fn validate_accepts_extended_low_sensitivity() {
    let mut c = Config::default();
    c.scroll.sensitivity = -4;
    assert!(c.validate().is_ok());
    c.scroll.sensitivity = -3;
    assert!(c.validate().is_ok());
}

fn fault(scroll: Scroll) -> (String, i64, String) {
    let c = Config { scroll, ..Config::default() };
    match c.validate() {
        Err(Error::ConfigRange { key, value, expected }) => {
            (key.to_string(), value, expected.to_string())
        }
        other => panic!("unexpected {other:?}"),
    }
}

#[test]
fn each_range_has_its_own_error() {
    let ok = Scroll::default();
    assert_eq!(
        fault(Scroll { sensitivity: 3, ..ok }),
        ("scroll.sensitivity".to_string(), 3, "-4..=2".to_string())
    );
    assert_eq!(
        fault(Scroll { detect_area_width: -1, ..ok }),
        ("scroll.detect_area_width".to_string(), -1, "0..=10".to_string())
    );
    assert_eq!(
        fault(Scroll { horizontal_start: 16, ..ok }),
        ("scroll.horizontal_start".to_string(), 16, "0..=15".to_string())
    );
    assert_eq!(
        fault(Scroll { horizontal_end: i32::MAX, ..ok }),
        ("scroll.horizontal_end".to_string(), i32::MAX as i64, "0..=15".to_string())
    );
    // The first one in order is reported.
    assert_eq!(
        fault(Scroll { sensitivity: -5, horizontal_end: 99, ..ok }).0,
        "scroll.sensitivity"
    );
}

#[test]
fn loading_validates_and_falls_back_to_defaults() {
    let c = Config::load(ConfigFile::Missing).unwrap();
    assert_eq!(c.scroll.horizontal_end, 6);

    let mut good = Config::default();
    good.scroll.sensitivity = -1;
    good.device = Some("/dev/input/event9".to_string());
    let c = Config::load(ConfigFile::Parsed(good)).unwrap();
    assert_eq!(c.scroll.sensitivity, -1);
    assert_eq!(c.device.as_deref(), Some("/dev/input/event9"));

    let mut bad = Config::default();
    bad.scroll.detect_area_width = 11;
    assert!(matches!(
        Config::load(ConfigFile::Parsed(bad)),
        Err(Error::ConfigRange { key: "scroll.detect_area_width", value: 11, .. })
    ));
}

fn path(xdg: Option<&str>, home: Option<&str>) -> String {
    Config::default_path(xdg.map(str::to_string), home.map(str::to_string))
}

#[test]
fn the_configuration_path_follows_the_environment() {
    assert_eq!(path(Some("/x"), Some("/h")), "/x/letsnote-wheelpad/config.toml");
    assert_eq!(path(Some(""), Some("/h")), "/h/.config/letsnote-wheelpad/config.toml");
    assert_eq!(path(None, Some("/h/")), "/h/.config/letsnote-wheelpad/config.toml");
    assert_eq!(path(None, None), "./.config/letsnote-wheelpad/config.toml");
    for (xdg, home) in [("/x/", "/h"), ("rel", "/h"), ("", ""), ("", "/ü")] {
        let root = if xdg.is_empty() {
            std::path::PathBuf::from(home).join(".config")
        } else {
            std::path::PathBuf::from(xdg)
        };
        let expected = root.join("letsnote-wheelpad").join("config.toml");
        assert_eq!(path(Some(xdg), Some(home)), expected.to_str().unwrap());
    }
}

#[test]
fn the_device_is_taken_from_the_most_specific_source() {
    let mut c = Config::default();
    assert!(matches!(
        choose_device(None, &c),
        DeviceChoice::ByName(regex) if regex == "Synaptics.*TM3562"
    ));
    c.device = Some("/dev/input/event4".to_string());
    assert!(matches!(
        choose_device(None, &c),
        DeviceChoice::Path(p) if p == "/dev/input/event4"
    ));
    assert!(matches!(
        choose_device(Some("/dev/input/event7".to_string()), &c),
        DeviceChoice::Path(p) if p == "/dev/input/event7"
    ));
}

#[test]
fn the_log_filter_names_the_daemon() {
    let mut c = Config::default();
    assert_eq!(log_filter(&c, false), "letsnote_wheelpad=info");
    assert_eq!(log_filter(&c, true), "letsnote_wheelpad=debug");
    c.log.level = "trace".to_string();
    assert_eq!(log_filter(&c, false), "letsnote_wheelpad=trace");
}
