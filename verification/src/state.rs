//! The printer's protocol state, and what each operation does to it and sends.

use crate::bitmap::{dimensions_fit, BitmapView};
use crate::bits::unpacked;
use crate::chunker::{chunking_error, rows_per_chunk, spec_chunks, ChunkView};
use crate::error::PrinterError;
use crate::plan::send;
use crate::port::PortEvent;
use crate::protocol::{
    spec_barcode_command, spec_barcode_rows, spec_barcode_text_command,
    spec_barcode_width_command, spec_feed_command, spec_heat_config_command,
    spec_null_command, spec_reset_command, spec_sleep_off_command, spec_tab_stops_command,
    spec_wake_command, Barcode, CR, LF, MODERN_FIRMWARE,
};
use crate::timing::TimingModel;
use vstd::prelude::*;

verus! {

/// Wait before the first command, while the printer settles after power-up.
pub const STARTUP_WAIT_US: u64 = 500_000;

/// Wait after the reset command.
pub const RESET_WAIT_US: u64 = 100_000;

/// Wait after the wake byte, and after the command that switches the sleep timer off.
pub const WAKE_WAIT_US: u64 = 50_000;

/// Wait after each wake pulse but the first, on older firmware.
pub const WAKE_PULSE_WAIT_US: u64 = 10_000;

/// Wake pulses that older firmware is sent.
pub const WAKE_PULSES: u8 = 10;

/// Wait after a command that changes a print setting.
pub const SETTING_WAIT_US: u64 = 1_000;

/// Dots heated at once, as `init` sets it.
pub const HEAT_DOTS: u8 = 11;

/// Heating time in microseconds, as `init` sets it.
pub const HEAT_TIME_US: u64 = 120;

/// Heating interval in microseconds, as `init` sets it.
pub const HEAT_INTERVAL_US: u64 = 40;

/// The most bytes that a barcode can carry.
pub const MAX_BARCODE_BYTES: usize = 255;

/// Columns of a line of text.
pub const DEFAULT_MAX_COLUMN: u8 = 32;

/// Dot rows of a character.
pub const DEFAULT_CHAR_HEIGHT: u16 = 24;

/// Dot rows between two lines.
pub const DEFAULT_LINE_SPACING: u16 = 6;

/// Dot rows of a barcode.
pub const DEFAULT_BARCODE_HEIGHT: u16 = 50;

/// The firmware version that is assumed until another is set.
pub const DEFAULT_FIRMWARE: u16 = 268;

/// The state that the host keeps of one printer.
#[derive(Clone, Copy, Debug, PartialEq, Eq, Structural)]
pub struct PrinterState {
    /// Microseconds that the printer is still busy: the wait due before the next write.
    pub pending_us: u64,
    /// The last byte of text sent; a line feed at the start of a line.
    pub last_byte: u8,
    /// Characters sent on the current line.
    pub last_column: u8,
    /// Characters that fit a line.
    pub max_column: u8,
    /// Dot rows of a character.
    pub char_height: u16,
    /// Dot rows between two lines.
    pub inter_line_spacing: u16,
    /// Dot rows of a barcode.
    pub barcode_height: u16,
    /// The firmware version, which selects the command set.
    pub firmware_version: u16,
    /// The calibration constants.
    pub timing: TimingModel,
}

impl PrinterState {
    /// The line geometry is positive, and so are the calibration constants; at the start
    /// of a line no column is counted.
    pub open spec fn wf(self) -> bool {
        &&& self.max_column > 0
        &&& self.char_height > 0
        &&& self.inter_line_spacing > 0
        &&& self.barcode_height > 0
        &&& self.timing.wf()
        &&& self.line_start() ==> self.last_column == 0
    }

    /// Tells whether the state is well formed.
    pub fn is_valid(&self) -> (b: bool)
        ensures
            b == self.wf(),
    {
        self.max_column > 0 && self.char_height > 0 && self.inter_line_spacing > 0
            && self.barcode_height > 0 && self.timing.is_valid() && (self.last_byte != LF
            || self.last_column == 0)
    }

    /// The state of a printer that was just connected.
    pub open spec fn initial() -> PrinterState {
        PrinterState {
            pending_us: STARTUP_WAIT_US,
            last_byte: LF,
            last_column: 0,
            max_column: DEFAULT_MAX_COLUMN,
            char_height: DEFAULT_CHAR_HEIGHT,
            inter_line_spacing: DEFAULT_LINE_SPACING,
            barcode_height: DEFAULT_BARCODE_HEIGHT,
            firmware_version: DEFAULT_FIRMWARE,
            timing: TimingModel::spec_firmware_defaults(),
        }
    }

    /// Tells whether the cursor is at the start of a line: nothing was sent since the last
    /// line ended.
    pub open spec fn line_start(self) -> bool {
        self.last_byte == LF
    }

    /// Tells whether the firmware understands the newer command set.
    pub open spec fn modern(self) -> bool {
        self.firmware_version >= MODERN_FIRMWARE
    }

    /// The same state with another wait due.
    pub open spec fn with_pending(self, micros: int) -> PrinterState {
        PrinterState { pending_us: micros as u64, ..self }
    }

    /// The same state with the cursor at the start of a line.
    pub open spec fn at_line_start(self) -> PrinterState {
        PrinterState { last_byte: LF, last_column: 0, ..self }
    }

    /// The same state with the line geometry as the printer has it after a reset.
    pub open spec fn with_default_geometry(self) -> PrinterState {
        PrinterState {
            last_byte: LF,
            last_column: 0,
            max_column: DEFAULT_MAX_COLUMN,
            char_height: DEFAULT_CHAR_HEIGHT,
            inter_line_spacing: DEFAULT_LINE_SPACING,
            barcode_height: DEFAULT_BARCODE_HEIGHT,
            ..self
        }
    }

    /// Cost of an empty line feed in this state.
    pub open spec fn feed_duration(self) -> int {
        self.timing.spec_feed_duration(self.char_height as int, self.inter_line_spacing as int)
    }

    /// Cost of a line of text in this state.
    pub open spec fn text_line_duration(self) -> int {
        self.timing.spec_text_line_duration(
            self.char_height as int,
            self.inter_line_spacing as int,
        )
    }

    /// Cost of ending the current line: a feed when nothing was printed on it, else a
    /// line of text.
    pub open spec fn line_duration(self) -> int {
        if self.last_byte == LF {
            self.feed_duration()
        } else {
            self.text_line_duration()
        }
    }

    /// What one paced write of `bytes` does on the port.
    pub open spec fn send_plan(self, bytes: Seq<u8>) -> Seq<PortEvent> {
        send(self.pending_us, bytes)
    }

    /// The byte that stands for a character: the low eight bits of its code.
    pub open spec fn char_byte(c: char) -> u8 {
        (c as u32 % 256) as u8
    }

    /// Tells whether a byte ends the current line: a line feed does, and so does any
    /// byte once the line is full.
    pub open spec fn ends_line(self, byte: u8) -> bool {
        byte == LF || self.last_column >= self.max_column
    }

    /// What writing one character does on the port: nothing for a carriage return, else
    /// one paced write of its byte.
    pub open spec fn char_plan(self, c: char) -> Seq<PortEvent> {
        if Self::char_byte(c) == CR {
            Seq::empty()
        } else {
            send(self.pending_us, seq![Self::char_byte(c)])
        }
    }

    /// The state after writing one character.
    pub open spec fn after_char(self, c: char) -> PrinterState {
        let byte = Self::char_byte(c);
        if byte == CR {
            self
        } else if self.ends_line(byte) {
            PrinterState {
                pending_us: (self.timing.byte_us + self.line_duration()) as u64,
                last_byte: LF,
                last_column: 0,
                ..self
            }
        } else {
            PrinterState {
                pending_us: self.timing.byte_us as u64,
                last_byte: byte,
                last_column: (self.last_column + 1) as u8,
                ..self
            }
        }
    }

    /// What writing a text does on the port: character after character.
    pub open spec fn text_plan(self, text: Seq<char>) -> Seq<PortEvent>
        decreases text.len(),
    {
        if text.len() == 0 {
            Seq::empty()
        } else {
            self.char_plan(text[0]) + self.after_char(text[0]).text_plan(text.skip(1))
        }
    }

    /// The state after writing a text.
    pub open spec fn after_text(self, text: Seq<char>) -> PrinterState
        decreases text.len(),
    {
        if text.len() == 0 {
            self
        } else {
            self.after_char(text[0]).after_text(text.skip(1))
        }
    }

    /// A run of `n` line feeds.
    pub open spec fn line_feeds(n: int) -> Seq<char> {
        Seq::new(n as nat, |i: int| '\n')
    }

    /// What the reset command does on the port.
    pub open spec fn reset_plan(self) -> Seq<PortEvent> {
        send(self.pending_us, spec_reset_command())
    }

    /// The heating command that `init` sends.
    pub open spec fn default_heat_command() -> Seq<u8> {
        spec_heat_config_command(HEAT_DOTS, HEAT_TIME_US as int, HEAT_INTERVAL_US as int)->0
    }

    /// What `init` does on the port: the reset, and for newer firmware the tab stops and
    /// the heating parameters.
    pub open spec fn init_plan(self) -> Seq<PortEvent> {
        self.reset_plan() + if self.modern() {
            send(RESET_WAIT_US, spec_tab_stops_command()) + send(0, Self::default_heat_command())
        } else {
            Seq::empty()
        }
    }

    /// The state after `init`.
    pub open spec fn after_init(self) -> PrinterState {
        self.with_default_geometry().with_pending(
            if self.modern() {
                0
            } else {
                RESET_WAIT_US as int
            },
        )
    }

    /// What feeding `lines` lines does on the port: nothing for no lines; one command for
    /// newer firmware; for older firmware, which has no such command, that many line
    /// feeds.
    pub open spec fn feed_plan(self, lines: u8) -> Seq<PortEvent> {
        if lines == 0 {
            Seq::empty()
        } else if self.modern() {
            send(self.pending_us, spec_feed_command(lines))
        } else {
            self.text_plan(Self::line_feeds(lines as int))
        }
    }

    /// The state after feeding `lines` lines.
    pub open spec fn after_feed(self, lines: u8) -> PrinterState {
        if lines == 0 {
            self
        } else if self.modern() {
            self.at_line_start().with_pending(
                self.timing.spec_feed_command_duration(self.char_height as int),
            )
        } else {
            self.after_text(Self::line_feeds(lines as int))
        }
    }

    /// Tells whether the firmware has the command that switches the sleep timer off.
    pub open spec fn wakes_by_command(self) -> bool {
        self.firmware_version > MODERN_FIRMWARE
    }

    /// `count` wake pulses, the first after a wait of `first_wait`.
    pub open spec fn pulse_plan(first_wait: u64, count: int) -> Seq<PortEvent>
        decreases count,
    {
        if count <= 0 {
            Seq::empty()
        } else {
            send(first_wait, spec_null_command()) + Self::pulse_plan(
                WAKE_PULSE_WAIT_US,
                count - 1,
            )
        }
    }

    /// What waking the printer does on the port. The wake byte goes out at once, whatever
    /// wait was due.
    pub open spec fn wake_plan(self) -> Seq<PortEvent> {
        send(0, spec_wake_command()) + if self.wakes_by_command() {
            send(WAKE_WAIT_US, spec_sleep_off_command())
        } else {
            Self::pulse_plan(WAKE_WAIT_US, WAKE_PULSES as int)
        }
    }

    /// The state after waking the printer.
    pub open spec fn after_wake(self) -> PrinterState {
        self.with_pending(
            if self.wakes_by_command() {
                WAKE_WAIT_US as int
            } else {
                WAKE_PULSE_WAIT_US as int
            },
        )
    }

    /// The state after a new barcode height was set.
    pub open spec fn after_barcode_height(self, val: u8) -> PrinterState {
        PrinterState {
            pending_us: 0,
            barcode_height: spec_barcode_rows(val) as u16,
            ..self
        }
    }

    /// What follows the leading feed of a barcode: where the text goes, how wide the
    /// bars are, then the barcode itself in the form that the firmware takes.
    pub open spec fn barcode_body_plan(self, payload: Seq<u8>, symbology: Barcode) -> Seq<
        PortEvent,
    > {
        send(self.pending_us, spec_barcode_text_command()) + (send(
            0,
            spec_barcode_width_command(),
        ) + (send(0, spec_barcode_command(symbology, payload.len() as u8, self.modern())) + (send(
            0,
            payload,
        ) + if self.modern() {
            Seq::empty()
        } else {
            send(0, spec_null_command())
        })))
    }

    /// What printing a barcode does on the port: one line is fed, then the barcode goes
    /// out.
    pub open spec fn barcode_plan(self, payload: Seq<u8>, symbology: Barcode) -> Seq<PortEvent> {
        self.feed_plan(1) + self.after_feed(1).barcode_body_plan(payload, symbology)
    }

    /// The state after printing a barcode: the cursor is at the start of a line, and the
    /// printer is busy for the height of the barcode.
    pub open spec fn after_barcode(self) -> PrinterState {
        let fed = self.after_feed(1);
        fed.at_line_start().with_pending(
            fed.timing.spec_barcode_duration(fed.barcode_height as int),
        )
    }

    /// What sending packed rows does on the port: each row at once, one after the other.
    pub open spec fn rows_plan(rows: Seq<Seq<u8>>) -> Seq<PortEvent>
        decreases rows.len(),
    {
        if rows.len() == 0 {
            Seq::empty()
        } else {
            send(0, rows[0]) + Self::rows_plan(rows.skip(1))
        }
    }

    /// What sending raster chunks does on the port. A chunk's header waits until the
    /// chunk before it is printed, and the first waits for what was due.
    pub open spec fn raster_plan(self, chunks: Seq<ChunkView>) -> Seq<PortEvent>
        decreases chunks.len(),
    {
        if chunks.len() == 0 {
            Seq::empty()
        } else {
            send(self.pending_us, chunks[0].header) + (Self::rows_plan(chunks[0].rows)
                + self.after_chunk(chunks[0]).raster_plan(chunks.skip(1)))
        }
    }

    /// The state after one raster chunk was sent: the printer is busy printing its rows.
    pub open spec fn after_chunk(self, chunk: ChunkView) -> PrinterState {
        self.with_pending(self.timing.spec_raster_duration(chunk.rows.len() as int))
    }

    /// The state after raster chunks were sent, the cursor apart.
    pub open spec fn after_chunks(self, chunks: Seq<ChunkView>) -> PrinterState
        decreases chunks.len(),
    {
        if chunks.len() == 0 {
            self
        } else {
            self.after_chunk(chunks[0]).after_chunks(chunks.skip(1))
        }
    }

    /// The chunks that a bitmap is sent in, in this state.
    pub open spec fn chunks_of(self, bitmap: BitmapView) -> Seq<ChunkView> {
        spec_chunks(bitmap, rows_per_chunk(bitmap.width as int, self.timing.buffer_bytes as int))
    }

    /// The state after a bitmap was printed: the printer is busy with the last chunk, and
    /// the cursor is at the start of a line.
    pub open spec fn after_raster(self, bitmap: BitmapView) -> PrinterState {
        self.after_chunks(self.chunks_of(bitmap)).at_line_start()
    }

    /// Why a bitmap cannot be printed in this state, if it cannot.
    pub open spec fn raster_error(self, bitmap: BitmapView) -> Option<PrinterError> {
        chunking_error(bitmap, self.timing.buffer_bytes as int)
    }

    /// The bitmap that `width`, `height` and packed bytes describe.
    pub open spec fn bitmap_of(width: usize, height: usize, bytes: Seq<u8>) -> BitmapView {
        BitmapView {
            width: width as nat,
            height: height as nat,
            bits: unpacked(bytes).take(width * height),
        }
    }

    /// Why packed bytes cannot be printed as a `width` by `height` bitmap, if they
    /// cannot: the sizes do not fit the data, or the bitmap cannot be chunked.
    pub open spec fn bitmap_error(self, width: usize, height: usize, bytes: Seq<u8>) -> Option<
        PrinterError,
    > {
        if !dimensions_fit(width as int, height as int, bytes.len() as int) {
            Some(PrinterError::Precondition)
        } else {
            self.raster_error(Self::bitmap_of(width, height, bytes))
        }
    }

    /// From the start of a line, a byte that is neither a line feed nor a carriage return
    /// leads into the line: the column counter goes up, and the wait is the byte's own.
    pub proof fn law_line_start_to_mid_line(self, c: char)
        requires
            self.wf(),
            self.line_start(),
            Self::char_byte(c) != LF,
            Self::char_byte(c) != CR,
        ensures
            !self.after_char(c).line_start(),
            self.after_char(c).last_column == self.last_column + 1,
            self.after_char(c).pending_us == self.timing.byte_us,
            self.after_char(c).wf(),
    {
    }

    /// From within a line, a line feed, or any byte once the line is full, leads to the
    /// start of the next line, and the wait covers a line of text.
    pub proof fn law_mid_line_to_line_start(self, c: char)
        requires
            self.wf(),
            !self.line_start(),
            Self::char_byte(c) != CR,
            Self::char_byte(c) == LF || self.last_column >= self.max_column,
        ensures
            self.after_char(c).line_start(),
            self.after_char(c).last_column == 0,
            self.after_char(c).pending_us == self.timing.byte_us + self.text_line_duration(),
            self.after_char(c).wf(),
    {
        let ch = self.char_height as int;
        let sp = self.inter_line_spacing as int;
        let p = self.timing.dot_print_us as int;
        let f = self.timing.dot_feed_us as int;
        assert(0 <= ch * p <= 0x1_0000 * 0x1_0000_0000 && 0 <= sp * f <= 0x1_0000
            * 0x1_0000_0000) by (nonlinear_arith)
            requires
                0 <= ch <= 0x1_0000,
                0 <= sp <= 0x1_0000,
                0 <= p <= 0x1_0000_0000,
                0 <= f <= 0x1_0000_0000,
        ;
    }

    /// At the start of a line, a line feed stays there, and the wait covers an empty
    /// feed: feeds in a row do not cost a line of text each.
    pub proof fn law_line_start_stays(self, c: char)
        requires
            self.wf(),
            self.line_start(),
            Self::char_byte(c) == LF,
        ensures
            self.after_char(c).line_start(),
            self.after_char(c).last_column == 0,
            self.after_char(c).pending_us == self.timing.byte_us + self.feed_duration(),
            self.after_char(c).wf(),
    {
        let d = self.char_height as int + self.inter_line_spacing as int;
        let f = self.timing.dot_feed_us as int;
        assert(0 <= d * f <= 0x2_0000 * 0x1_0000_0000) by (nonlinear_arith)
            requires
                0 <= d <= 0x2_0000,
                0 <= f <= 0x1_0000_0000,
        ;
    }

    /// A carriage return changes nothing and sends nothing.
    pub proof fn law_carriage_return_is_dropped(self, c: char)
        requires
            Self::char_byte(c) == CR,
        ensures
            self.after_char(c) == self,
            self.char_plan(c) == Seq::<PortEvent>::empty(),
    {
    }

    /// Feeding no lines changes nothing and sends nothing.
    pub proof fn law_feed_of_nothing(self)
        ensures
            self.after_feed(0) == self,
            self.feed_plan(0) == Seq::<PortEvent>::empty(),
    {
    }

    /// `init` resets the cursor and the line geometry and nothing else: the calibration
    /// and the firmware version stay, and the state is well formed whatever it was.
    pub proof fn law_init_keeps_calibration(self)
        requires
            self.timing.wf(),
        ensures
            self.after_init().timing == self.timing,
            self.after_init().firmware_version == self.firmware_version,
            self.after_init().line_start(),
            self.after_init().wf(),
    {
    }
}

} // verus!
