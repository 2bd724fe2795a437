//! Variant selection flags and the display name each combination of
//! variants produces.

use vstd::prelude::*;
use vstd::string::*;
use crate::ramp::{is_cool_family, is_warm_family};
use crate::text::str_eq;

verus! {

/// Flag bit selecting pretty-printed output.
pub const FLAG_PRETTY: u8 = 1;

/// Flag bit selecting the OLED variant.
pub const FLAG_OLED: u8 = 2;

/// Flag bit selecting the compatibility variant.
pub const FLAG_COMPAT: u8 = 4;

/// Flag bit selecting the monochrome variant.
pub const FLAG_MONOCHROME: u8 = 8;

/// Flag bit selecting the print variant.
pub const FLAG_PRINT: u8 = 16;

/// The selected variants and inputs of one conversion run.
pub struct Options {
    /// The variant flag bits.
    pub flags: u8,
    /// The monochrome family name, lowercased, when one was given.
    pub mono_family: Option<String>,
    /// The input path, `-` for standard input.
    pub input_src: String,
}

impl Options {
    /// Pretty-printed output was requested.
    pub fn is_pretty(&self) -> (r: bool)
        ensures
            r == (self.flags & FLAG_PRETTY != 0),
    {
        self.flags & FLAG_PRETTY != 0
    }

    /// The OLED variant was requested.
    pub fn is_oled(&self) -> (r: bool)
        ensures
            r == (self.flags & FLAG_OLED != 0),
    {
        self.flags & FLAG_OLED != 0
    }

    /// The compatibility variant was requested.
    pub fn is_compat(&self) -> (r: bool)
        ensures
            r == (self.flags & FLAG_COMPAT != 0),
    {
        self.flags & FLAG_COMPAT != 0
    }

    /// The monochrome variant was requested.
    pub fn is_monochrome(&self) -> (r: bool)
        ensures
            r == (self.flags & FLAG_MONOCHROME != 0),
    {
        self.flags & FLAG_MONOCHROME != 0
    }

    /// The print variant was requested.
    pub fn is_print(&self) -> (r: bool)
        ensures
            r == (self.flags & FLAG_PRINT != 0),
    {
        self.flags & FLAG_PRINT != 0
    }
}

/// The display name the selected variants produce, or `None` for the
/// base theme with no variant.
pub open spec fn spec_theme_name(
    oled: bool,
    compat: bool,
    monochrome: bool,
    mono_family: Option<&str>,
) -> Option<Seq<char>> {
    if monochrome {
        let base = if oled {
            "Oxocarbon OLED Monochrom"@
        } else {
            "Oxocarbon Monochrom"@
        };
        let named = if mono_family matches Some(f) && is_cool_family(f@) {
            base + " (Cool Gray)"@
        } else if mono_family matches Some(f) && is_warm_family(f@) {
            base + " (Warm Gray)"@
        } else {
            base
        };
        if compat {
            Some(named + " (compatibility)"@)
        } else {
            Some(named)
        }
    } else if oled && compat {
        Some("Oxocarbon OLED (compatibility)"@)
    } else if oled {
        Some("Oxocarbon OLED"@)
    } else if compat {
        Some("Oxocarbon (compatibility)"@)
    } else {
        None
    }
}

/// Names the theme that a combination of variants produces: the
/// monochrome variants carry their family in the name, compatibility is
/// appended last, and the base theme keeps the name of its source.
pub fn compute_theme_name(
    oled: bool,
    compat: bool,
    monochrome: bool,
    mono_family: Option<&str>,
) -> (r: Option<String>)
    ensures
        r is Some <==> spec_theme_name(oled, compat, monochrome, mono_family) is Some,
        r is Some ==> r->0@ == spec_theme_name(oled, compat, monochrome, mono_family)->0,
{
    if monochrome {
        let mut name = if oled {
            String::from_str("Oxocarbon OLED Monochrom")
        } else {
            String::from_str("Oxocarbon Monochrom")
        };
        let cool = match mono_family {
            Some(f) => str_eq(f, "coolgray") || str_eq(f, "cool-gray") || str_eq(f, "cool"),
            None => false,
        };
        let warm = match mono_family {
            Some(f) => str_eq(f, "warmgray") || str_eq(f, "warm-gray") || str_eq(f, "warm"),
            None => false,
        };
        if cool {
            name.append(" (Cool Gray)");
        } else if warm {
            name.append(" (Warm Gray)");
        }
        if compat {
            name.append(" (compatibility)");
        }
        Some(name)
    } else if oled && compat {
        Some(String::from_str("Oxocarbon OLED (compatibility)"))
    } else if oled {
        Some(String::from_str("Oxocarbon OLED"))
    } else if compat {
        Some(String::from_str("Oxocarbon (compatibility)"))
    } else {
        None
    }
}

} // verus!
