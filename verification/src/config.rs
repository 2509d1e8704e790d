//! The daemon's settings: defaults, ranges, and where they are found.

use vstd::prelude::*;
use vstd::string::*;

use crate::error::Error;

verus! {

/// Everything that can be set.
#[derive(Debug, Clone)]
pub struct Config {
    /// The evdev node to open, instead of searching by name.
    pub device: Option<String>,
    /// The regular expression that the touchpad's name must match.
    pub device_name_regex: String,
    pub scroll: Scroll,
    pub log: Log,
}

/// Settings of the scroll recogniser.
#[derive(Debug, Clone, Copy)]
pub struct Scroll {
    pub enable: bool,
    pub reverse_vertical: bool,
    pub horizontal_enable: bool,
    pub reverse_horizontal: bool,
    pub sensitivity: i32,
    pub detect_area_width: i32,
    pub horizontal_start: i32,
    pub horizontal_end: i32,
}

/// Settings of the log.
#[derive(Debug, Clone)]
pub struct Log {
    pub level: String,
}

/// What was found at the configuration path.
pub enum ConfigFile {
    /// There is no such file.
    Missing,
    /// The file was read and understood.
    Parsed(Config),
}

/// A configuration value outside its range: its key, the value, and the range
/// as the user writes it.
pub struct RangeFault {
    pub key: Seq<char>,
    pub value: int,
    pub expected: Seq<char>,
}

impl Scroll {
    /// The settings of an untouched installation.
    pub open spec fn defaults() -> Scroll {
        Scroll {
            enable: true,
            reverse_vertical: false,
            horizontal_enable: false,
            reverse_horizontal: false,
            sensitivity: 0,
            detect_area_width: 0,
            horizontal_start: 2,
            horizontal_end: 6,
        }
    }

    /// Every value lies in its range.
    pub open spec fn in_range(self) -> bool {
        &&& -4 <= self.sensitivity <= 2
        &&& 0 <= self.detect_area_width <= 10
        &&& 0 <= self.horizontal_start <= 15
        &&& 0 <= self.horizontal_end <= 15
    }

    /// The first value outside its range, in the order sensitivity, detect
    /// area, start and end of the horizontal wedge.
    pub open spec fn fault(self) -> Option<RangeFault> {
        if !(-4 <= self.sensitivity <= 2) {
            Some(
                RangeFault {
                    key: "scroll.sensitivity"@,
                    value: self.sensitivity as int,
                    expected: "-4..=2"@,
                },
            )
        } else if !(0 <= self.detect_area_width <= 10) {
            Some(
                RangeFault {
                    key: "scroll.detect_area_width"@,
                    value: self.detect_area_width as int,
                    expected: "0..=10"@,
                },
            )
        } else if !(0 <= self.horizontal_start <= 15) {
            Some(
                RangeFault {
                    key: "scroll.horizontal_start"@,
                    value: self.horizontal_start as int,
                    expected: "0..=15"@,
                },
            )
        } else if !(0 <= self.horizontal_end <= 15) {
            Some(
                RangeFault {
                    key: "scroll.horizontal_end"@,
                    value: self.horizontal_end as int,
                    expected: "0..=15"@,
                },
            )
        } else {
            None
        }
    }
}

/// `e` reports the fault `f`.
pub open spec fn reports(e: Error, f: RangeFault) -> bool {
    e matches Error::ConfigRange { key, value, expected } && key@ == f.key && value == f.value
        && expected@ == f.expected
}

impl Default for Scroll {
    fn default() -> (s: Scroll)
        ensures
            s == Scroll::defaults(),
    {
        Scroll {
            enable: true,
            reverse_vertical: false,
            horizontal_enable: false,
            reverse_horizontal: false,
            sensitivity: 0,
            detect_area_width: 0,
            horizontal_start: 2,
            horizontal_end: 6,
        }
    }
}

impl Default for Log {
    fn default() -> (l: Log)
        ensures
            l.level@ == "info"@,
    {
        Log { level: "info".to_string() }
    }
}

impl Config {
    /// The settings of an untouched installation.
    pub open spec fn is_default(self) -> bool {
        &&& self.device is None
        &&& self.device_name_regex@ == "Synaptics.*TM3562"@
        &&& self.scroll == Scroll::defaults()
        &&& self.log.level@ == "info"@
    }
}

impl Default for Config {
    fn default() -> (c: Config)
        ensures
            c.is_default(),
    {
        Config {
            device: None,
            device_name_regex: "Synaptics.*TM3562".to_string(),
            scroll: Scroll::default(),
            log: Log::default(),
        }
    }
}

/// `base` with `name` as a further path component.
pub open spec fn joined(base: Seq<char>, name: Seq<char>) -> Seq<char> {
    if base.len() == 0 {
        name
    } else if base.last() == '/' {
        base + name
    } else {
        base + "/"@ + name
    }
}

fn join(base: String, name: &str) -> (path: String)
    ensures
        path@ == joined(base@, name@),
{
    let n: usize = base.as_str().unicode_len();
    if n == 0 {
        name.to_string()
    } else if base.as_str().get_char(n - 1) == '/' {
        base.concat(name)
    } else {
        base.concat("/").concat(name)
    }
}

impl Config {
    /// Turn what was found at the configuration path into settings: a missing
    /// file gives the defaults, a file with a value outside its range is
    /// refused.
    pub fn load(file: ConfigFile) -> (r: Result<Config, Error>)
        ensures
            match file {
                ConfigFile::Missing => r matches Ok(c) && c.is_default(),
                ConfigFile::Parsed(config) => match config.scroll.fault() {
                    None => r == Ok::<Config, Error>(config),
                    Some(fault) => r matches Err(e) && reports(e, fault),
                },
            },
    {
        match file {
            ConfigFile::Missing => Ok(Config::default()),
            ConfigFile::Parsed(config) => match config.validate() {
                Ok(()) => Ok(config),
                Err(e) => Err(e),
            },
        }
    }

    /// Check every value against its range.
    pub fn validate(&self) -> (r: Result<(), Error>)
        ensures
            match self.scroll.fault() {
                None => r == Ok::<(), Error>(()),
                Some(fault) => r matches Err(e) && reports(e, fault),
            },
    {
        let s: &Scroll = &self.scroll;
        if !(-4 <= s.sensitivity && s.sensitivity <= 2) {
            return Err(
                Error::ConfigRange {
                    key: "scroll.sensitivity",
                    value: s.sensitivity as i64,
                    expected: "-4..=2",
                },
            );
        }
        if !(0 <= s.detect_area_width && s.detect_area_width <= 10) {
            return Err(
                Error::ConfigRange {
                    key: "scroll.detect_area_width",
                    value: s.detect_area_width as i64,
                    expected: "0..=10",
                },
            );
        }
        if !(0 <= s.horizontal_start && s.horizontal_start <= 15) {
            return Err(
                Error::ConfigRange {
                    key: "scroll.horizontal_start",
                    value: s.horizontal_start as i64,
                    expected: "0..=15",
                },
            );
        }
        if !(0 <= s.horizontal_end && s.horizontal_end <= 15) {
            return Err(
                Error::ConfigRange {
                    key: "scroll.horizontal_end",
                    value: s.horizontal_end as i64,
                    expected: "0..=15",
                },
            );
        }
        Ok(())
    }

    /// Where the configuration lies: under `xdg_config_home` if that is set
    /// and not empty, else under `.config` in the home directory, or in the
    /// current directory if there is no home.
    pub fn default_path(xdg_config_home: Option<String>, home: Option<String>) -> (path: String)
        ensures
            path@ == joined(
                joined(config_root(xdg_config_home, home), "letsnote-wheelpad"@),
                "config.toml"@,
            ),
    {
        if let Some(xdg) = xdg_config_home {
            if xdg.as_str().unicode_len() != 0 {
                return join(join(xdg, "letsnote-wheelpad"), "config.toml");
            }
        }
        let home: String = match home {
            Some(dir) => dir,
            None => ".".to_string(),
        };
        join(join(join(home, ".config"), "letsnote-wheelpad"), "config.toml")
    }
}

/// The directory that holds the configurations of all programs.
pub open spec fn config_root(xdg_config_home: Option<String>, home: Option<String>) -> Seq<char> {
    if xdg_config_home matches Some(xdg) && xdg@.len() != 0 {
        xdg_config_home->0@
    } else {
        joined(
            match home {
                Some(dir) => dir@,
                None => "."@,
            },
            ".config"@,
        )
    }
}

/// A configuration is accepted exactly if every value lies in its range.
pub proof fn law_fault_free_is_in_range(s: Scroll)
    ensures
        s.fault() is None <==> s.in_range(),
{
}

/// The defaults pass validation.
pub proof fn law_defaults_are_valid(c: Config)
    requires
        c.is_default(),
    ensures
        c.scroll.in_range(),
        c.scroll.fault() is None,
{
}

} // verus!
