//! The printer's command bytes and the small encodings that go with them.

use crate::error::PrinterError;
use vstd::prelude::*;

verus! {

/// Horizontal tab.
pub const TAB: u8 = 9;

/// Line feed.
pub const LF: u8 = 10;

/// Form feed: prints what is buffered.
pub const FF: u8 = 12;

/// Carriage return. The printer is never sent one.
pub const CR: u8 = 13;

/// Prefix of the older raster and self-test commands.
pub const DC2: u8 = 18;

/// Prefix of most commands.
pub const ESC: u8 = 27;

/// Reserved.
pub const FS: u8 = 28;

/// Prefix of the newer commands.
pub const GS: u8 = 29;

/// The firmware version from which the newer command set is understood.
pub const MODERN_FIRMWARE: u16 = 264;

/// What is added to a symbology's number in the newer barcode command.
pub const MODERN_BARCODE_BASE: u8 = 65;

/// How text is underlined.
#[derive(Clone, Copy, Debug, PartialEq, Eq, PartialOrd, Ord, Structural)]
pub enum Underline {
    /// No line. (`None` is taken by `Option`.)
    Off,
    /// One dot.
    Single,
    /// Two dots.
    Double,
}

impl Underline {
    /// The weight of the line, in dots.
    pub open spec fn spec_level(self) -> u8 {
        match self {
            Underline::Off => 0,
            Underline::Single => 1,
            Underline::Double => 2,
        }
    }

    /// The weight of the line, in dots.
    pub fn level(self) -> (n: u8)
        ensures
            n == self.spec_level(),
    {
        match self {
            Underline::Off => 0,
            Underline::Single => 1,
            Underline::Double => 2,
        }
    }
}

/// The barcode symbologies, in the order in which the printer numbers them.
#[derive(Clone, Copy, Debug, PartialEq, Eq, PartialOrd, Ord, Structural)]
pub enum Barcode {
    UpcA,
    UpcE,
    Ean13,
    Ean8,
    Code39,
    Itf,
    Codabar,
    Code93,
    Code128,
}

impl Barcode {
    /// The symbology's number, from 0.
    pub open spec fn spec_code(self) -> u8 {
        match self {
            Barcode::UpcA => 0,
            Barcode::UpcE => 1,
            Barcode::Ean13 => 2,
            Barcode::Ean8 => 3,
            Barcode::Code39 => 4,
            Barcode::Itf => 5,
            Barcode::Codabar => 6,
            Barcode::Code93 => 7,
            Barcode::Code128 => 8,
        }
    }

    /// The symbology's number, from 0.
    pub fn code(self) -> (n: u8)
        ensures
            n == self.spec_code(),
            n <= 8,
    {
        match self {
            Barcode::UpcA => 0,
            Barcode::UpcE => 1,
            Barcode::Ean13 => 2,
            Barcode::Ean8 => 3,
            Barcode::Code39 => 4,
            Barcode::Itf => 5,
            Barcode::Codabar => 6,
            Barcode::Code93 => 7,
            Barcode::Code128 => 8,
        }
    }
}

/// The national character sets, in the order in which the printer numbers them.
#[derive(Clone, Copy, Debug, PartialEq, Eq, PartialOrd, Ord, Structural)]
pub enum Charset {
    Usa,
    France,
    Germany,
    Uk,
    Denmark1,
    Sweden,
    Italy,
    Spain1,
    Japan,
    Norway,
    Denmark2,
    Spain2,
    LatinAmerica,
    Korea,
    Slovenia,
    China,
}

impl Charset {
    /// The character set's number.
    pub open spec fn spec_code(self) -> u8 {
        match self {
            Charset::Usa => 0,
            Charset::France => 1,
            Charset::Germany => 2,
            Charset::Uk => 3,
            Charset::Denmark1 => 4,
            Charset::Sweden => 5,
            Charset::Italy => 6,
            Charset::Spain1 => 7,
            Charset::Japan => 8,
            Charset::Norway => 9,
            Charset::Denmark2 => 10,
            Charset::Spain2 => 11,
            Charset::LatinAmerica => 12,
            Charset::Korea => 13,
            Charset::Slovenia => 14,
            Charset::China => 15,
        }
    }

    /// The character set's number.
    pub fn code(self) -> (n: u8)
        ensures
            n == self.spec_code(),
    {
        match self {
            Charset::Usa => 0,
            Charset::France => 1,
            Charset::Germany => 2,
            Charset::Uk => 3,
            Charset::Denmark1 => 4,
            Charset::Sweden => 5,
            Charset::Italy => 6,
            Charset::Spain1 => 7,
            Charset::Japan => 8,
            Charset::Norway => 9,
            Charset::Denmark2 => 10,
            Charset::Spain2 => 11,
            Charset::LatinAmerica => 12,
            Charset::Korea => 13,
            Charset::Slovenia => 14,
            Charset::China => 15,
        }
    }
}

/// The code pages. Their numbers have a gap after `Iran`.
#[derive(Clone, Copy, Debug, PartialEq, Eq, PartialOrd, Ord, Structural)]
pub enum CodePage {
    Cp437C,
    Katakana,
    Cp850,
    Cp860,
    Cp863,
    Cp865,
    WPC1251,
    Cp866,
    Mik,
    Cp755,
    Iran,
    Cp862,
    WPC1252,
    WPC1253,
    Cp852,
    Cp858,
    Iran2,
    Latvian,
    Cp864,
    Iso8859_1,
    Cp737,
    WPC1257,
    Thai,
    Cp720,
    Cp855,
    Cp857,
    WPC1250,
    Cp775,
    WPC1254,
    WPC1255,
    WPC1256,
    WPC1258,
    Iso8859_2,
    Iso8859_3,
    Iso8859_4,
    Iso8859_5,
    Iso8859_6,
    Iso8859_7,
    Iso8859_8,
    Iso8859_9,
    Iso8859_15,
    Thai2,
    Cp856,
    Cp874,
}

impl CodePage {
    /// The code page's number.
    pub open spec fn spec_code(self) -> u8 {
        match self {
            CodePage::Cp437C => 0,
            CodePage::Katakana => 1,
            CodePage::Cp850 => 2,
            CodePage::Cp860 => 3,
            CodePage::Cp863 => 4,
            CodePage::Cp865 => 5,
            CodePage::WPC1251 => 6,
            CodePage::Cp866 => 7,
            CodePage::Mik => 8,
            CodePage::Cp755 => 9,
            CodePage::Iran => 10,
            CodePage::Cp862 => 15,
            CodePage::WPC1252 => 16,
            CodePage::WPC1253 => 17,
            CodePage::Cp852 => 18,
            CodePage::Cp858 => 19,
            CodePage::Iran2 => 20,
            CodePage::Latvian => 21,
            CodePage::Cp864 => 22,
            CodePage::Iso8859_1 => 23,
            CodePage::Cp737 => 24,
            CodePage::WPC1257 => 25,
            CodePage::Thai => 26,
            CodePage::Cp720 => 27,
            CodePage::Cp855 => 28,
            CodePage::Cp857 => 29,
            CodePage::WPC1250 => 30,
            CodePage::Cp775 => 31,
            CodePage::WPC1254 => 32,
            CodePage::WPC1255 => 33,
            CodePage::WPC1256 => 34,
            CodePage::WPC1258 => 35,
            CodePage::Iso8859_2 => 36,
            CodePage::Iso8859_3 => 37,
            CodePage::Iso8859_4 => 38,
            CodePage::Iso8859_5 => 39,
            CodePage::Iso8859_6 => 40,
            CodePage::Iso8859_7 => 41,
            CodePage::Iso8859_8 => 42,
            CodePage::Iso8859_9 => 43,
            CodePage::Iso8859_15 => 44,
            CodePage::Thai2 => 45,
            CodePage::Cp856 => 46,
            CodePage::Cp874 => 47,
        }
    }

    /// The code page's number.
    pub fn code(self) -> (n: u8)
        ensures
            n == self.spec_code(),
    {
        match self {
            CodePage::Cp437C => 0,
            CodePage::Katakana => 1,
            CodePage::Cp850 => 2,
            CodePage::Cp860 => 3,
            CodePage::Cp863 => 4,
            CodePage::Cp865 => 5,
            CodePage::WPC1251 => 6,
            CodePage::Cp866 => 7,
            CodePage::Mik => 8,
            CodePage::Cp755 => 9,
            CodePage::Iran => 10,
            CodePage::Cp862 => 15,
            CodePage::WPC1252 => 16,
            CodePage::WPC1253 => 17,
            CodePage::Cp852 => 18,
            CodePage::Cp858 => 19,
            CodePage::Iran2 => 20,
            CodePage::Latvian => 21,
            CodePage::Cp864 => 22,
            CodePage::Iso8859_1 => 23,
            CodePage::Cp737 => 24,
            CodePage::WPC1257 => 25,
            CodePage::Thai => 26,
            CodePage::Cp720 => 27,
            CodePage::Cp855 => 28,
            CodePage::Cp857 => 29,
            CodePage::WPC1250 => 30,
            CodePage::Cp775 => 31,
            CodePage::WPC1254 => 32,
            CodePage::WPC1255 => 33,
            CodePage::WPC1256 => 34,
            CodePage::WPC1258 => 35,
            CodePage::Iso8859_2 => 36,
            CodePage::Iso8859_3 => 37,
            CodePage::Iso8859_4 => 38,
            CodePage::Iso8859_5 => 39,
            CodePage::Iso8859_6 => 40,
            CodePage::Iso8859_7 => 41,
            CodePage::Iso8859_8 => 42,
            CodePage::Iso8859_9 => 43,
            CodePage::Iso8859_15 => 44,
            CodePage::Thai2 => 45,
            CodePage::Cp856 => 46,
            CodePage::Cp874 => 47,
        }
    }
}

/// A duration in a byte: `micros` in units of `unit` microseconds, fractions dropped.
/// `None` when that is more than a byte holds, and for a unit of zero.
pub open spec fn spec_duration_byte(micros: int, unit: int) -> Option<u8> {
    if unit > 0 && micros / unit <= 255 {
        Some((micros / unit) as u8)
    } else {
        None
    }
}

/// A duration in a byte: `micros` in units of `unit` microseconds, fractions dropped.
pub fn duration_byte(micros: u64, unit: u64) -> (r: Result<u8, PrinterError>)
    ensures
        match spec_duration_byte(micros as int, unit as int) {
            Some(b) => r == Ok::<u8, PrinterError>(b),
            None => r == Err::<u8, PrinterError>(PrinterError::Encoding),
        },
{
    if unit == 0 {
        return Err(PrinterError::Encoding);
    }
    let units = micros / unit;
    if units <= 255 {
        Ok(units as u8)
    } else {
        Err(PrinterError::Encoding)
    }
}

/// Microseconds that one unit of the heating time and interval stands for.
pub const HEAT_UNIT_US: u64 = 10;

/// Microseconds that one unit of the print break time stands for.
pub const DENSITY_UNIT_US: u64 = 250;

/// The reset command.
pub open spec fn spec_reset_command() -> Seq<u8> {
    seq![ESC, 64u8]
}

/// The reset command.
pub fn reset_command() -> (cmd: Vec<u8>)
    ensures
        cmd@ == spec_reset_command(),
{
    vec![ESC, 64u8]
}

/// The command that sets a tab stop at every fourth column.
pub open spec fn spec_tab_stops_command() -> Seq<u8> {
    seq![ESC, 68u8, 4u8, 8u8, 12u8, 16u8, 20u8, 24u8, 28u8, 0u8]
}

/// The command that sets a tab stop at every fourth column.
pub fn tab_stops_command() -> (cmd: Vec<u8>)
    ensures
        cmd@ == spec_tab_stops_command(),
{
    vec![ESC, 68u8, 4u8, 8u8, 12u8, 16u8, 20u8, 24u8, 28u8, 0u8]
}

/// The command that feeds `lines` lines.
pub open spec fn spec_feed_command(lines: u8) -> Seq<u8> {
    seq![ESC, 100u8, lines]
}

/// The command that feeds `lines` lines.
pub fn feed_command(lines: u8) -> (cmd: Vec<u8>)
    ensures
        cmd@ == spec_feed_command(lines),
{
    vec![ESC, 100u8, lines]
}

/// The byte that wakes the printer.
pub open spec fn spec_wake_command() -> Seq<u8> {
    seq![255u8]
}

/// The byte that wakes the printer.
pub fn wake_command() -> (cmd: Vec<u8>)
    ensures
        cmd@ == spec_wake_command(),
{
    vec![255u8]
}

/// The command that switches the sleep timer off.
pub open spec fn spec_sleep_off_command() -> Seq<u8> {
    seq![ESC, 56u8, 0u8, 0u8]
}

/// The command that switches the sleep timer off.
pub fn sleep_off_command() -> (cmd: Vec<u8>)
    ensures
        cmd@ == spec_sleep_off_command(),
{
    vec![ESC, 56u8, 0u8, 0u8]
}

/// A single null byte: a wake pulse for older firmware, and the end of its barcodes.
pub open spec fn spec_null_command() -> Seq<u8> {
    seq![0u8]
}

/// A single null byte.
pub fn null_command() -> (cmd: Vec<u8>)
    ensures
        cmd@ == spec_null_command(),
{
    vec![0u8]
}

/// The command that prints what is buffered.
pub open spec fn spec_flush_command() -> Seq<u8> {
    seq![FF]
}

/// The command that prints what is buffered.
pub fn flush_command() -> (cmd: Vec<u8>)
    ensures
        cmd@ == spec_flush_command(),
{
    vec![FF]
}

/// The command that sets the heating parameters: how many dots are heated at once, for
/// how long, and how long the head rests between two rounds. The two times travel in
/// units of ten microseconds; there is no command when one of them is more than a byte.
pub open spec fn spec_heat_config_command(
    dots: u8,
    heating_time_us: int,
    heating_interval_us: int,
) -> Option<Seq<u8>> {
    match (
        spec_duration_byte(heating_time_us, HEAT_UNIT_US as int),
        spec_duration_byte(heating_interval_us, HEAT_UNIT_US as int),
    ) {
        (Some(time), Some(interval)) => Some(seq![ESC, 55u8, dots, time, interval]),
        _ => None,
    }
}

/// The command that sets the heating parameters.
pub fn heat_config_command(dots: u8, heating_time_us: u64, heating_interval_us: u64) -> (r:
    Result<Vec<u8>, PrinterError>)
    ensures
        match spec_heat_config_command(dots, heating_time_us as int, heating_interval_us as int) {
            Some(cmd) => r matches Ok(v) && v@ == cmd,
            None => r == Err::<Vec<u8>, PrinterError>(PrinterError::Encoding),
        },
{
    let time = match duration_byte(heating_time_us, HEAT_UNIT_US) {
        Ok(b) => b,
        Err(e) => {
            return Err(e);
        },
    };
    let interval = match duration_byte(heating_interval_us, HEAT_UNIT_US) {
        Ok(b) => b,
        Err(e) => {
            return Err(e);
        },
    };
    Ok(vec![ESC, 55u8, dots, time, interval])
}

/// The byte that carries the print density and the break time: the density in the low
/// five bits as given, the low three bits of the break time above them.
pub open spec fn spec_density_byte(density: u8, break_units: u8) -> u8 {
    density | ((break_units & 7u8) << 5u8)
}

/// The command that sets the print density. The break time travels in units of 250
/// microseconds; there is no command when it is more than a byte.
pub open spec fn spec_print_density_command(density: u8, break_time_us: int) -> Option<Seq<u8>> {
    match spec_duration_byte(break_time_us, DENSITY_UNIT_US as int) {
        Some(units) => Some(seq![ESC, 35u8, spec_density_byte(density, units)]),
        None => None,
    }
}

/// The command that sets the print density.
pub fn print_density_command(density: u8, break_time_us: u64) -> (r: Result<
    Vec<u8>,
    PrinterError,
>)
    ensures
        match spec_print_density_command(density, break_time_us as int) {
            Some(cmd) => r matches Ok(v) && v@ == cmd,
            None => r == Err::<Vec<u8>, PrinterError>(PrinterError::Encoding),
        },
{
    let units = match duration_byte(break_time_us, DENSITY_UNIT_US) {
        Ok(b) => b,
        Err(e) => {
            return Err(e);
        },
    };
    let low: u8 = units & 7u8;
    assert(low <= 7) by (bit_vector)
        requires
            low == units & 7u8,
    ;
    let high: u8 = low << 5u8;
    Ok(vec![ESC, 35u8, density | high])
}

/// The command that sets the underline.
pub open spec fn spec_underline_command(underline: Underline) -> Seq<u8> {
    seq![ESC, 45u8, underline.spec_level()]
}

/// The command that sets the underline.
pub fn underline_command(underline: Underline) -> (cmd: Vec<u8>)
    ensures
        cmd@ == spec_underline_command(underline),
{
    vec![ESC, 45u8, underline.level()]
}

/// The height that the printer is given for `val`: at least one dot row.
pub open spec fn spec_barcode_rows(val: u8) -> u8 {
    if val < 1 {
        1
    } else {
        val
    }
}

/// The command that sets the height of barcodes.
pub open spec fn spec_barcode_height_command(val: u8) -> Seq<u8> {
    seq![GS, 104u8, spec_barcode_rows(val)]
}

/// The command that sets the height of barcodes.
pub fn barcode_height_command(val: u8) -> (cmd: Vec<u8>)
    ensures
        cmd@ == spec_barcode_height_command(val),
{
    let rows: u8 = if val < 1 {
        1
    } else {
        val
    };
    vec![GS, 104u8, rows]
}

/// The command that prints the self-test page.
pub open spec fn spec_test_page_command() -> Seq<u8> {
    seq![DC2, 84u8]
}

/// The command that prints the self-test page.
pub fn test_page_command() -> (cmd: Vec<u8>)
    ensures
        cmd@ == spec_test_page_command(),
{
    vec![DC2, 84u8]
}

/// The command that puts a barcode's text below the bars.
pub open spec fn spec_barcode_text_command() -> Seq<u8> {
    seq![GS, 72u8, 2u8]
}

/// The command that puts a barcode's text below the bars.
pub fn barcode_text_command() -> (cmd: Vec<u8>)
    ensures
        cmd@ == spec_barcode_text_command(),
{
    vec![GS, 72u8, 2u8]
}

/// The command that sets the width of a barcode's bars.
pub open spec fn spec_barcode_width_command() -> Seq<u8> {
    seq![GS, 119u8, 3u8]
}

/// The command that sets the width of a barcode's bars.
pub fn barcode_width_command() -> (cmd: Vec<u8>)
    ensures
        cmd@ == spec_barcode_width_command(),
{
    vec![GS, 119u8, 3u8]
}

/// The command that starts a barcode. The newer form names the symbology from 65 and
/// says how many bytes follow; the older form names it from 0, and the bytes end with a
/// null.
pub open spec fn spec_barcode_command(symbology: Barcode, len: u8, modern: bool) -> Seq<u8> {
    if modern {
        seq![GS, 107u8, (symbology.spec_code() + MODERN_BARCODE_BASE) as u8, len]
    } else {
        seq![GS, 107u8, symbology.spec_code()]
    }
}

/// The command that starts a barcode.
pub fn barcode_command(symbology: Barcode, len: u8, modern: bool) -> (cmd: Vec<u8>)
    ensures
        cmd@ == spec_barcode_command(symbology, len, modern),
{
    if modern {
        vec![GS, 107u8, symbology.code() + MODERN_BARCODE_BASE, len]
    } else {
        vec![GS, 107u8, symbology.code()]
    }
}

} // verus!
