//! Options for human-readable byte size formatting, and the decisions that formatting makes
//! from them: the unit label, the scale, and the padding around the text.
use vstd::prelude::*;

use crate::format::push_char;

verus! {

/// Options for human-readable formatting.
#[derive(Debug, Clone, Copy, PartialEq, Eq)]
pub struct DisplayOptions {
    base_unit: DisplayBaseUnit,
    scale: DisplayScale,
    unit_system: DisplayUnitSystem,
}

/// The base unit of a human-readable size.
#[derive(Debug, Clone, Copy, PartialEq, Eq)]
#[non_exhaustive]
pub enum DisplayBaseUnit {
    /// Format values as bits. The byte count is converted to bits for display.
    Bit,
    /// Format values as bytes.
    Byte,
}

/// The scale that a human-readable size is written in.
#[derive(Debug, Clone, Copy, PartialEq, Eq)]
#[non_exhaustive]
pub enum DisplayScale {
    /// Select the display scale automatically.
    Auto,
    /// Format values in the base unit without a prefix.
    Base,
    /// Format values in kilo units.
    Kilo,
    /// Format values in mega units.
    Mega,
    /// Format values in giga units.
    Giga,
    /// Format values in tera units.
    Tera,
    /// Format values in peta units.
    Peta,
    /// Format values in exa units.
    Exa,
}

/// The unit system of a human-readable size.
#[derive(Debug, Clone, Copy, PartialEq, Eq)]
#[non_exhaustive]
pub enum DisplayUnitSystem {
    /// Use the binary unit system, with a base of 1024.
    Binary,
    /// Use the decimal unit system, with a base of 1000.
    Decimal,
}

/// Where a padded text stands in its field.
#[derive(Debug, Clone, Copy, PartialEq, Eq)]
pub enum DisplayAlignment {
    /// Padding goes after the text.
    Left,
    /// Padding goes before the text.
    Right,
    /// Padding is split around the text, the larger half after it.
    Center,
}

impl View for DisplayOptions {
    type V = (DisplayBaseUnit, DisplayScale, DisplayUnitSystem);

    closed spec fn view(&self) -> Self::V {
        (self.base_unit, self.scale, self.unit_system)
    }
}

impl DisplayOptions {
    /// The default binary display options: bytes, an automatic scale, binary units.
    #[allow(non_snake_case)]
    pub fn BINARY() -> (r: Self)
        ensures
            r@ == (DisplayBaseUnit::Byte, DisplayScale::Auto, DisplayUnitSystem::Binary),
    {
        Self {
            base_unit: DisplayBaseUnit::Byte,
            scale: DisplayScale::Auto,
            unit_system: DisplayUnitSystem::Binary,
        }
    }

    /// Decimal display options: bytes, an automatic scale, decimal units.
    #[allow(non_snake_case)]
    pub fn DECIMAL() -> (r: Self)
        ensures
            r@ == (DisplayBaseUnit::Byte, DisplayScale::Auto, DisplayUnitSystem::Decimal),
    {
        Self {
            base_unit: DisplayBaseUnit::Byte,
            scale: DisplayScale::Auto,
            unit_system: DisplayUnitSystem::Decimal,
        }
    }

    /// Construct a new instance with the `BINARY` preset.
    pub fn new() -> (r: Self)
        ensures
            r@ == (DisplayBaseUnit::Byte, DisplayScale::Auto, DisplayUnitSystem::Binary),
    {
        DisplayOptions::BINARY()
    }

    /// Set the base unit used for display.
    pub fn base_unit(self, base_unit: DisplayBaseUnit) -> (r: Self)
        ensures
            r@ == (base_unit, self@.1, self@.2),
    {
        let mut r = self;
        r.base_unit = base_unit;
        r
    }

    /// Set the display scale.
    pub fn scale(self, scale: DisplayScale) -> (r: Self)
        ensures
            r@ == (self@.0, scale, self@.2),
    {
        let mut r = self;
        r.scale = scale;
        r
    }

    /// Set the unit system used for display.
    pub fn unit_system(self, unit_system: DisplayUnitSystem) -> (r: Self)
        ensures
            r@ == (self@.0, self@.1, unit_system),
    {
        let mut r = self;
        r.unit_system = unit_system;
        r
    }

    /// How many display units one byte is: eight when counting bits, one when counting bytes.
    pub fn base_unit_factor(&self) -> (r: u64)
        ensures
            r == if self@.0 == DisplayBaseUnit::Bit { 8u64 } else { 1u64 },
    {
        match self.base_unit {
            DisplayBaseUnit::Bit => 8,
            DisplayBaseUnit::Byte => 1,
        }
    }

    /// The ratio between two neighbouring unit prefixes: 1024 in the binary system, 1000 in
    /// the decimal one.
    pub fn unit_base(&self) -> (r: u64)
        ensures
            r == if self@.2 == DisplayUnitSystem::Binary { 1024u64 } else { 1000u64 },
    {
        match self.unit_system {
            DisplayUnitSystem::Binary => 1024,
            DisplayUnitSystem::Decimal => 1000,
        }
    }

    /// The unit prefix that a fixed scale asks for, counted in steps of the unit base (0 for
    /// the base unit, 6 for exa); `None` when the scale is chosen automatically.
    pub fn fixed_exponent(&self) -> (r: Option<usize>)
        ensures
            r == scale_exponent(self@.1),
    {
        match self.scale {
            DisplayScale::Auto => None,
            DisplayScale::Base => Some(0),
            DisplayScale::Kilo => Some(1),
            DisplayScale::Mega => Some(2),
            DisplayScale::Giga => Some(3),
            DisplayScale::Tera => Some(4),
            DisplayScale::Peta => Some(5),
            DisplayScale::Exa => Some(6),
        }
    }

    /// The unit written after a value scaled by `exponent` steps of the unit base, such as
    /// `"B"`, `"KiB"`, `"kB"`, `"bit"`, `"Kibit"` or `"kbit"`.
    pub fn unit_label(&self, exponent: usize) -> (r: String)
        requires
            exponent <= MAX_EXPONENT,
        ensures
            r@ == unit_label_text(self@.0, self@.2, exponent as nat),
    {
        let mut label = String::new();
        if exponent == 0 {
            match self.base_unit {
                DisplayBaseUnit::Bit => {
                    push_char(&mut label, 'b');
                    push_char(&mut label, 'i');
                    push_char(&mut label, 't');
                },
                DisplayBaseUnit::Byte => {
                    push_char(&mut label, 'B');
                },
            }
        } else {
            // Unit system references
            // * https://en.wikipedia.org/wiki/Kilobyte
            // * https://en.wikipedia.org/wiki/Bit#Multiple_bits
            let prefix = if exponent == 1 {
                match self.unit_system {
                    DisplayUnitSystem::Binary => 'K',
                    DisplayUnitSystem::Decimal => 'k',
                }
            } else if exponent == 2 {
                'M'
            } else if exponent == 3 {
                'G'
            } else if exponent == 4 {
                'T'
            } else if exponent == 5 {
                'P'
            } else {
                'E'
            };
            push_char(&mut label, prefix);
            if let DisplayUnitSystem::Binary = self.unit_system {
                push_char(&mut label, 'i');
            }
            match self.base_unit {
                DisplayBaseUnit::Bit => {
                    push_char(&mut label, 'b');
                    push_char(&mut label, 'i');
                    push_char(&mut label, 't');
                },
                DisplayBaseUnit::Byte => {
                    push_char(&mut label, 'B');
                },
            }
        }
        label
    }
}

impl Default for DisplayOptions {
    /// Same as [`DisplayOptions::new`].
    fn default() -> (r: Self)
        ensures
            r@ == (DisplayBaseUnit::Byte, DisplayScale::Auto, DisplayUnitSystem::Binary),
    {
        Self::new()
    }
}

/// The largest unit prefix, exa, in steps of the unit base.
pub const MAX_EXPONENT: usize = 6;

/// The unit prefix that `scale` fixes, in steps of the unit base; `None` for the automatic
/// scale.
pub open spec fn scale_exponent(scale: DisplayScale) -> Option<usize> {
    match scale {
        DisplayScale::Auto => None,
        DisplayScale::Base => Some(0),
        DisplayScale::Kilo => Some(1),
        DisplayScale::Mega => Some(2),
        DisplayScale::Giga => Some(3),
        DisplayScale::Tera => Some(4),
        DisplayScale::Peta => Some(5),
        DisplayScale::Exa => Some(6),
    }
}

/// The name of the base unit: `bit` or `B`.
pub open spec fn base_unit_text(base_unit: DisplayBaseUnit) -> Seq<char> {
    match base_unit {
        DisplayBaseUnit::Bit => seq!['b', 'i', 't'],
        DisplayBaseUnit::Byte => seq!['B'],
    }
}

/// The letter of the unit prefix `exponent` steps above the base unit (`exponent` from 1 to 6):
/// `K`/`k`, `M`, `G`, `T`, `P`, `E`, where kilo is a lower-case `k` in the decimal system.
pub open spec fn prefix_char(unit_system: DisplayUnitSystem, exponent: nat) -> char {
    if exponent == 1 {
        if unit_system == DisplayUnitSystem::Binary {
            'K'
        } else {
            'k'
        }
    } else if exponent == 2 {
        'M'
    } else if exponent == 3 {
        'G'
    } else if exponent == 4 {
        'T'
    } else if exponent == 5 {
        'P'
    } else {
        'E'
    }
}

/// The unit written after a value scaled by `exponent` steps: the base unit alone at exponent
/// 0; otherwise the prefix letter, an `i` in the binary system, and the base unit.
pub open spec fn unit_label_text(
    base_unit: DisplayBaseUnit,
    unit_system: DisplayUnitSystem,
    exponent: nat,
) -> Seq<char> {
    if exponent == 0 {
        base_unit_text(base_unit)
    } else if unit_system == DisplayUnitSystem::Binary {
        seq![prefix_char(unit_system, exponent), 'i'] + base_unit_text(base_unit)
    } else {
        seq![prefix_char(unit_system, exponent)] + base_unit_text(base_unit)
    }
}

/// Splits `padding` fill characters into those before and after a text aligned as `align` says.
pub open spec fn padding_split(padding: nat, align: DisplayAlignment) -> (usize, usize) {
    match align {
        DisplayAlignment::Left => (0usize, padding as usize),
        DisplayAlignment::Right => (padding as usize, 0usize),
        DisplayAlignment::Center => ((padding / 2) as usize, (padding - padding / 2) as usize),
    }
}

/// How many digits a value is written with after its point: the requested precision when there
/// is one; otherwise none for a value in the base unit (it is written exactly) and one for a
/// scaled value.
pub fn value_precision(exponent: usize, precision: Option<usize>) -> (r: Option<usize>)
    ensures
        r == match precision {
            Some(p) => Some(p),
            None => if exponent == 0 {
                None
            } else {
                Some(1usize)
            },
        },
{
    match precision {
        Some(precision) => Some(precision),
        None => if exponent == 0 {
            None
        } else {
            Some(1)
        },
    }
}

/// The fill to put before and after a text of `content_width` characters to pad it to `width`
/// characters, placed as `align` says; nothing when the text is already as wide.
pub fn padding(width: usize, content_width: usize, align: DisplayAlignment) -> (r: (usize, usize))
    ensures
        r == padding_split((if width > content_width { width - content_width } else { 0 }) as nat, align),
{
    let padding = if width > content_width {
        width - content_width
    } else {
        0
    };
    match align {
        DisplayAlignment::Left => (0, padding),
        DisplayAlignment::Right => (padding, 0),
        DisplayAlignment::Center => (padding / 2, padding - padding / 2),
    }
}

} // verus!
