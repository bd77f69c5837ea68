//! The timing model: how long the printer is busy after each kind of command.
//!
//! The printer gives no feedback, so the host waits for as long as this model says the
//! mechanism needs. All durations are whole microseconds.

use vstd::prelude::*;

verus! {

/// Time the head needs to print one row of dots, as the firmware ships.
pub const DEFAULT_DOT_PRINT_US: u32 = 20_000;

/// Time the motor needs to feed one row of dots, as the firmware ships.
pub const DEFAULT_DOT_FEED_US: u32 = 2_100;

/// Bytes that the printer's raster buffer takes.
pub const DEFAULT_BUFFER_BYTES: u32 = 512;

/// Line speed that the printer ships with, in bits per second.
pub const DEFAULT_BAUD: u32 = 19_200;

/// Bits on the wire for one byte: eight of data, start, stop and one of margin.
pub const BITS_PER_BYTE: u32 = 11;

/// Text lines on the self-test page.
pub const TEST_PAGE_LINES: u32 = 26;

/// Dot rows of one line of the self-test page.
pub const TEST_PAGE_LINE_DOTS: u32 = 24;

/// Dot rows fed after each line of the self-test page.
pub const TEST_PAGE_SPACING_DOTS: u32 = 6;

/// Dot rows fed for the blank line that ends the self-test page.
pub const TEST_PAGE_TRAILER_DOTS: u32 = 30;

/// Dot rows that a barcode takes beyond its bars: the text under it and the margin.
pub const BARCODE_EXTRA_DOTS: u32 = 40;

/// Microseconds that one byte takes at `baud` bits per second, rounded up.
pub open spec fn spec_byte_duration(baud: int) -> int
    recommends
        baud > 0,
{
    (BITS_PER_BYTE * 1_000_000 + baud - 1) / baud
}

/// The time one byte spends on the wire at `baud`, or `None` for a line speed of zero.
pub fn byte_duration(baud: u32) -> (d: Option<u32>)
    ensures
        baud == 0 <==> d is None,
        d matches Some(us) ==> us == spec_byte_duration(baud as int) && us > 0,
{
    if baud == 0 {
        None
    } else {
        let total: u64 = BITS_PER_BYTE as u64 * 1_000_000 + (baud as u64 - 1);
        let us: u64 = total / baud as u64;
        assert(0 < us <= 11_000_000) by (nonlinear_arith)
            requires
                us == total / (baud as u64),
                total == 11_000_000 + baud - 1,
                baud >= 1,
        ;
        Some(us as u32)
    }
}

/// The four physical constants from which every wait is computed.
#[derive(Clone, Copy, Debug, PartialEq, Eq, Structural)]
pub struct TimingModel {
    /// Microseconds to print one row of dots.
    pub dot_print_us: u32,
    /// Microseconds to feed one row of dots.
    pub dot_feed_us: u32,
    /// Microseconds one byte spends on the wire.
    pub byte_us: u32,
    /// Bytes that the printer's raster buffer takes.
    pub buffer_bytes: u32,
}

impl TimingModel {
    /// A model is well formed when each of its constants is positive.
    pub open spec fn wf(&self) -> bool {
        &&& self.dot_print_us > 0
        &&& self.dot_feed_us > 0
        &&& self.byte_us > 0
        &&& self.buffer_bytes > 0
    }

    /// Tells whether the model is well formed.
    pub fn is_valid(&self) -> (b: bool)
        ensures
            b == self.wf(),
    {
        self.dot_print_us > 0 && self.dot_feed_us > 0 && self.byte_us > 0 && self.buffer_bytes > 0
    }

    /// The model of the firmware as shipped, at the default line speed.
    pub open spec fn spec_firmware_defaults() -> TimingModel {
        TimingModel {
            dot_print_us: DEFAULT_DOT_PRINT_US,
            dot_feed_us: DEFAULT_DOT_FEED_US,
            byte_us: spec_byte_duration(DEFAULT_BAUD as int) as u32,
            buffer_bytes: DEFAULT_BUFFER_BYTES,
        }
    }

    /// The model of the firmware as shipped, at the default line speed.
    pub fn firmware_defaults() -> (t: TimingModel)
        ensures
            t == Self::spec_firmware_defaults(),
            t.wf(),
            t.byte_us == 573,
    {
        TimingModel {
            dot_print_us: DEFAULT_DOT_PRINT_US,
            dot_feed_us: DEFAULT_DOT_FEED_US,
            byte_us: 573,
            buffer_bytes: DEFAULT_BUFFER_BYTES,
        }
    }

    /// The same model at another line speed; `None` for a line speed of zero.
    pub fn with_baud(self, baud: u32) -> (t: Option<TimingModel>)
        ensures
            baud == 0 <==> t is None,
            t matches Some(m) ==> m == (TimingModel {
                byte_us: spec_byte_duration(baud as int) as u32,
                ..self
            }) && m.byte_us > 0,
    {
        match byte_duration(baud) {
            Some(us) => Some(TimingModel { byte_us: us, ..self }),
            None => None,
        }
    }

    /// Cost of an empty line feed: every dot row of the line is fed.
    pub open spec fn spec_feed_duration(&self, char_height: int, inter_line_spacing: int) -> int {
        (char_height + inter_line_spacing) * self.dot_feed_us
    }

    /// Cost of a line of text: its dot rows are printed, the spacing is fed.
    pub open spec fn spec_text_line_duration(
        &self,
        char_height: int,
        inter_line_spacing: int,
    ) -> int {
        char_height * self.dot_print_us + inter_line_spacing * self.dot_feed_us
    }

    /// Cost of the feed command: one character height is fed.
    pub open spec fn spec_feed_command_duration(&self, char_height: int) -> int {
        self.dot_feed_us * char_height
    }

    /// Cost of a barcode of the given height.
    pub open spec fn spec_barcode_duration(&self, barcode_height: int) -> int {
        (barcode_height + BARCODE_EXTRA_DOTS) * self.dot_print_us
    }

    /// Cost of `rows` raster rows.
    pub open spec fn spec_raster_duration(&self, rows: int) -> int {
        self.dot_print_us * rows
    }

    /// Cost of the self-test page.
    pub open spec fn spec_test_page_duration(&self) -> int {
        self.dot_print_us * TEST_PAGE_LINE_DOTS * TEST_PAGE_LINES + self.dot_feed_us * (
        TEST_PAGE_SPACING_DOTS * TEST_PAGE_LINES + TEST_PAGE_TRAILER_DOTS)
    }

    /// Cost of an empty line feed.
    pub fn feed_duration(&self, char_height: u16, inter_line_spacing: u16) -> (d: u64)
        ensures
            d == self.spec_feed_duration(char_height as int, inter_line_spacing as int),
            d <= 0x2_0000_0000_0000,
    {
        let dots: u64 = char_height as u64 + inter_line_spacing as u64;
        assert(dots * self.dot_feed_us <= 0x2_0000 * 0x1_0000_0000) by (nonlinear_arith)
            requires
                dots <= 0x2_0000,
                self.dot_feed_us <= 0x1_0000_0000,
        ;
        dots * self.dot_feed_us as u64
    }

    /// Cost of a line of text.
    pub fn text_line_duration(&self, char_height: u16, inter_line_spacing: u16) -> (d: u64)
        ensures
            d == self.spec_text_line_duration(char_height as int, inter_line_spacing as int),
            d <= 0x2_0000_0000_0000,
    {
        assert(char_height * self.dot_print_us <= 0x1_0000 * 0x1_0000_0000) by (nonlinear_arith)
            requires
                char_height <= 0x1_0000,
                self.dot_print_us <= 0x1_0000_0000,
        ;
        assert(inter_line_spacing * self.dot_feed_us <= 0x1_0000 * 0x1_0000_0000)
            by (nonlinear_arith)
            requires
                inter_line_spacing <= 0x1_0000,
                self.dot_feed_us <= 0x1_0000_0000,
        ;
        char_height as u64 * self.dot_print_us as u64 + inter_line_spacing as u64
            * self.dot_feed_us as u64
    }

    /// Cost of the feed command.
    pub fn feed_command_duration(&self, char_height: u16) -> (d: u64)
        ensures
            d == self.spec_feed_command_duration(char_height as int),
    {
        assert(self.dot_feed_us * char_height <= 0x1_0000_0000 * 0x1_0000) by (nonlinear_arith)
            requires
                char_height <= 0x1_0000,
                self.dot_feed_us <= 0x1_0000_0000,
        ;
        self.dot_feed_us as u64 * char_height as u64
    }

    /// Cost of a barcode of the given height.
    pub fn barcode_duration(&self, barcode_height: u16) -> (d: u64)
        ensures
            d == self.spec_barcode_duration(barcode_height as int),
    {
        let dots: u64 = barcode_height as u64 + BARCODE_EXTRA_DOTS as u64;
        assert(dots * self.dot_print_us <= 0x2_0000 * 0x1_0000_0000) by (nonlinear_arith)
            requires
                dots <= 0x2_0000,
                self.dot_print_us <= 0x1_0000_0000,
        ;
        dots * self.dot_print_us as u64
    }

    /// Cost of `rows` raster rows.
    pub fn raster_duration(&self, rows: u16) -> (d: u64)
        ensures
            d == self.spec_raster_duration(rows as int),
    {
        assert(self.dot_print_us * rows <= 0x1_0000_0000 * 0x1_0000) by (nonlinear_arith)
            requires
                rows <= 0x1_0000,
                self.dot_print_us <= 0x1_0000_0000,
        ;
        self.dot_print_us as u64 * rows as u64
    }

    /// Cost of the self-test page.
    pub fn test_page_duration(&self) -> (d: u64)
        ensures
            d == self.spec_test_page_duration(),
    {
        let print_rows: u64 = TEST_PAGE_LINE_DOTS as u64 * TEST_PAGE_LINES as u64;
        let feed_rows: u64 = TEST_PAGE_SPACING_DOTS as u64 * TEST_PAGE_LINES as u64
            + TEST_PAGE_TRAILER_DOTS as u64;
        assert(print_rows == 624 && feed_rows == 186);
        let printed: u64 = self.dot_print_us as u64 * print_rows;
        let fed: u64 = self.dot_feed_us as u64 * feed_rows;
        assert(self.dot_print_us * TEST_PAGE_LINE_DOTS * TEST_PAGE_LINES == self.dot_print_us
            * 624) by (nonlinear_arith);
        printed + fed
    }

    /// An empty feed costs more, the taller the characters are.
    pub proof fn law_feed_grows_with_char_height(&self, low: int, high: int, spacing: int)
        requires
            self.wf(),
            0 <= low < high,
            0 <= spacing,
        ensures
            0 <= self.spec_feed_duration(low, spacing) < self.spec_feed_duration(high, spacing),
    {
        let f = self.dot_feed_us as int;
        assert(0 <= (low + spacing) * f < (high + spacing) * f) by (nonlinear_arith)
            requires
                f > 0,
                0 <= low < high,
                0 <= spacing,
        ;
    }

    /// An empty feed costs more, the wider the lines are spaced.
    pub proof fn law_feed_grows_with_spacing(&self, char_height: int, low: int, high: int)
        requires
            self.wf(),
            0 <= char_height,
            0 <= low < high,
        ensures
            0 <= self.spec_feed_duration(char_height, low) < self.spec_feed_duration(
                char_height,
                high,
            ),
    {
        let f = self.dot_feed_us as int;
        assert(0 <= (char_height + low) * f < (char_height + high) * f) by (nonlinear_arith)
            requires
                f > 0,
                0 <= low < high,
                0 <= char_height,
        ;
    }

    /// A line of text costs more, the taller the characters are.
    pub proof fn law_text_line_grows_with_char_height(&self, low: int, high: int, spacing: int)
        requires
            self.wf(),
            0 <= low < high,
            0 <= spacing,
        ensures
            0 <= self.spec_text_line_duration(low, spacing) < self.spec_text_line_duration(
                high,
                spacing,
            ),
    {
        let p = self.dot_print_us as int;
        let f = self.dot_feed_us as int;
        assert(0 <= low * p < high * p && 0 <= spacing * f) by (nonlinear_arith)
            requires
                p > 0,
                f > 0,
                0 <= low < high,
                0 <= spacing,
        ;
    }

    /// A line of text costs more, the wider the lines are spaced.
    pub proof fn law_text_line_grows_with_spacing(&self, char_height: int, low: int, high: int)
        requires
            self.wf(),
            0 <= char_height,
            0 <= low < high,
        ensures
            0 <= self.spec_text_line_duration(char_height, low) < self.spec_text_line_duration(
                char_height,
                high,
            ),
    {
        let p = self.dot_print_us as int;
        let f = self.dot_feed_us as int;
        assert(0 <= low * f < high * f && 0 <= char_height * p) by (nonlinear_arith)
            requires
                p > 0,
                f > 0,
                0 <= low < high,
                0 <= char_height,
        ;
    }
}

} // verus!
