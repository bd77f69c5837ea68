//! The printer: every command goes out through the wait-then-write discipline.

use crate::bitmap::Bitmap;
use crate::chunker::{chunk_bitmap, chunk_views};
use crate::error::PrinterError;
use crate::plan::{carried_out, completed, failed, lemma_nothing_done, lemma_part, send};
use crate::port::{PortEvent, PortRecord, SerialPort, Traced};
use crate::protocol::{
    barcode_command, barcode_height_command, barcode_text_command, barcode_width_command,
    feed_command, flush_command, heat_config_command, null_command, print_density_command,
    reset_command, sleep_off_command, spec_barcode_command, spec_barcode_height_command,
    spec_barcode_text_command, spec_barcode_width_command, spec_flush_command,
    spec_heat_config_command, spec_null_command, spec_print_density_command,
    spec_sleep_off_command, spec_tab_stops_command, spec_test_page_command,
    spec_underline_command, spec_wake_command, tab_stops_command, test_page_command,
    underline_command, wake_command, Barcode, Underline, CR, LF, MODERN_FIRMWARE,
};
use crate::state::{
    PrinterState, DEFAULT_BARCODE_HEIGHT, DEFAULT_CHAR_HEIGHT, DEFAULT_FIRMWARE,
    DEFAULT_LINE_SPACING, DEFAULT_MAX_COLUMN, HEAT_DOTS, HEAT_INTERVAL_US, HEAT_TIME_US,
    MAX_BARCODE_BYTES, RESET_WAIT_US, SETTING_WAIT_US, STARTUP_WAIT_US, WAKE_PULSES,
    WAKE_PULSE_WAIT_US, WAKE_WAIT_US,
};
use crate::timing::TimingModel;
use vstd::prelude::*;
use vstd::string::StringSliceAdditionalSpecFns;

verus! {

/// A thermal printer on a serial port.
pub struct Printer<P: SerialPort> {
    port: Traced<P>,
    state: PrinterState,
}

impl<P: SerialPort> View for Printer<P> {
    type V = PrinterState;

    closed spec fn view(&self) -> PrinterState {
        self.state
    }
}

impl<P: SerialPort> Printer<P> {
    /// What the printer has asked of its port so far, and what the port answered, oldest
    /// first.
    pub closed spec fn trace(&self) -> Seq<PortRecord> {
        self.port.trace()
    }

    /// Takes over a port. The calibration is the firmware's, and the first command will
    /// wait until the printer has settled.
    pub fn new(port: P) -> (printer: Self)
        ensures
            printer@ == PrinterState::initial(),
            printer@.wf(),
            printer.trace() == Seq::<PortRecord>::empty(),
            printer.held() == port,
    {
        Printer {
            port: Traced::new(port),
            state: PrinterState {
                pending_us: STARTUP_WAIT_US,
                last_byte: LF,
                last_column: 0,
                max_column: DEFAULT_MAX_COLUMN,
                char_height: DEFAULT_CHAR_HEIGHT,
                inter_line_spacing: DEFAULT_LINE_SPACING,
                barcode_height: DEFAULT_BARCODE_HEIGHT,
                firmware_version: DEFAULT_FIRMWARE,
                timing: TimingModel::firmware_defaults(),
            },
        }
    }

    /// Tells the host which firmware the printer runs; this selects the command set.
    pub fn set_firmware_version(&mut self, version: u16)
        ensures
            final(self)@ == (PrinterState { firmware_version: version, ..old(self)@ }),
            final(self).trace() == old(self).trace(),
            old(self)@.wf() ==> final(self)@.wf(),
    {
        self.state.firmware_version = version;
    }

    /// Replaces the calibration constants. A model with a constant of zero is refused,
    /// and nothing changes.
    pub fn set_timing(&mut self, timing: TimingModel) -> (r: Result<(), PrinterError>)
        ensures
            timing.wf() <==> r is Ok,
            r is Ok ==> final(self)@ == (PrinterState { timing, ..old(self)@ }),
            r is Err ==> r == Err::<(), PrinterError>(PrinterError::Precondition) && final(self)@
                == old(self)@,
            final(self).trace() == old(self).trace(),
            old(self)@.wf() ==> final(self)@.wf(),
    {
        if timing.is_valid() {
            self.state.timing = timing;
            Ok(())
        } else {
            Err(PrinterError::Precondition)
        }
    }

    /// The protocol state.
    pub fn state(&self) -> (state: PrinterState)
        ensures
            state == self@,
    {
        self.state
    }

    /// The port, to look at.
    pub fn port(&self) -> (port: &P)
        ensures
            *port == self.held(),
    {
        self.port.port()
    }

    /// Gives the port back, as the printer's calls have left it.
    pub fn into_port(self) -> (port: P)
        ensures
            port == self.held(),
    {
        self.port.into_port()
    }

    /// The port that the printer holds, as the printer's calls have left it.
    pub closed spec fn held(&self) -> P {
        self.port.held()
    }

    /// Waits as long as the printer is still busy.
    pub fn wait(&mut self) -> (r: Result<(), PrinterError>)
        ensures
            carried_out(
                r,
                old(self).trace(),
                final(self).trace(),
                seq![PortEvent::Wait(old(self)@.pending_us)],
            ),
            r is Ok ==> final(self)@ == old(self)@.with_pending(0),
            r is Err ==> final(self)@ == old(self)@,
            old(self)@.wf() ==> final(self)@.wf(),
    {
        let ghost before = self.trace();
        let ghost plan = seq![PortEvent::Wait(self@.pending_us)];
        match self.port.wait(self.state.pending_us) {
            Ok(()) => {
                self.state.pending_us = 0;
                assert(self.trace() =~= before + completed(plan));
                Ok(())
            },
            Err(_) => {
                assert(self.trace() =~= before + completed(plan.take(0)).push(failed(plan[0])));
                Err(PrinterError::Transport)
            },
        }
    }

    /// Sends a command: waits as long as the printer is still busy, then writes the
    /// bytes.
    pub fn write_bytes(&mut self, cmd: &[u8]) -> (r: Result<(), PrinterError>)
        ensures
            carried_out(r, old(self).trace(), final(self).trace(), old(self)@.send_plan(cmd@)),
            r is Ok ==> final(self)@ == old(self)@.with_pending(0),
            old(self)@.wf() ==> final(self)@.wf(),
    {
        let ghost before = self.trace();
        let ghost plan = self@.send_plan(cmd@);
        match self.port.wait(self.state.pending_us) {
            Ok(()) => {},
            Err(_) => {
                assert(self.trace() =~= before + completed(plan.take(0)).push(failed(plan[0])));
                return Err(PrinterError::Transport);
            },
        }
        self.state.pending_us = 0;
        match self.port.write_bytes(cmd) {
            Ok(()) => {
                assert(self.trace() =~= before + completed(plan));
                Ok(())
            },
            Err(_) => {
                assert(self.trace() =~= before + completed(plan.take(1)).push(failed(plan[1])));
                Err(PrinterError::Transport)
            },
        }
    }

    /// Cost of an empty line feed, as the printer is set up.
    pub fn feed_duration(&self) -> (d: u64)
        ensures
            d == self@.feed_duration(),
    {
        self.state.timing.feed_duration(self.state.char_height, self.state.inter_line_spacing)
    }

    /// Cost of a line of text, as the printer is set up.
    pub fn text_line_duration(&self) -> (d: u64)
        ensures
            d == self@.text_line_duration(),
    {
        self.state.timing.text_line_duration(
            self.state.char_height,
            self.state.inter_line_spacing,
        )
    }

    /// Sends one character. A carriage return is dropped: lines end with a line feed
    /// alone.
    ///
    /// The printer wraps a full line by itself, so the host counts columns. A line feed,
    /// or any character on a full line, ends the line: the wait then covers an empty
    /// feed if nothing was printed on the line, else a line of text.
    pub fn write_char(&mut self, c: char) -> (r: Result<(), PrinterError>)
        ensures
            carried_out(r, old(self).trace(), final(self).trace(), old(self)@.char_plan(c)),
            r is Ok ==> final(self)@ == old(self)@.after_char(c),
            old(self)@.wf() ==> final(self)@.wf(),
    {
        let byte: u8 = ((c as u32) % 256) as u8;
        if byte == CR {
            proof {
                lemma_nothing_done(self.trace());
            }
            return Ok(());
        }
        let before = self.state;
        let cmd = vec![byte];
        assert(cmd@ =~= seq![byte]);
        match self.write_bytes(cmd.as_slice()) {
            Ok(()) => {},
            Err(e) => {
                return Err(e);
            },
        }
        let mut wait: u64 = before.timing.byte_us as u64;
        if byte == LF || before.last_column >= before.max_column {
            let line: u64 = if before.last_byte == LF {
                before.timing.feed_duration(before.char_height, before.inter_line_spacing)
            } else {
                before.timing.text_line_duration(before.char_height, before.inter_line_spacing)
            };
            wait = wait + line;
            self.state.last_column = 0;
            self.state.last_byte = LF;
        } else {
            self.state.last_column = before.last_column + 1;
            self.state.last_byte = byte;
        }
        self.state.pending_us = wait;
        Ok(())
    }

    /// Sends a text, character by character. It stops at the first failure of the port;
    /// what was sent before stays sent.
    pub fn write(&mut self, s: &str) -> (r: Result<(), PrinterError>)
        ensures
            carried_out(r, old(self).trace(), final(self).trace(), old(self)@.text_plan(s@)),
            r is Ok ==> final(self)@ == old(self)@.after_text(s@),
            old(self)@.wf() ==> final(self)@.wf(),
    {
        let ghost before = self.trace();
        let ghost start = self@;
        let ghost plan = start.text_plan(s@);
        let ghost mut done: Seq<PortEvent> = Seq::empty();
        assert(s@.skip(0) =~= s@);
        proof {
            lemma_nothing_done(before);
        }
        assert(done + plan =~= plan);
        for c in it: s.chars()
            invariant
                before == old(self).trace(),
                plan == old(self)@.text_plan(s@),
                start == old(self)@,
                it.seq() == s@,
                old(self)@.wf() ==> self@.wf(),
                self.trace() == before + completed(done),
                plan == done + self@.text_plan(s@.skip(it.index() as int)),
                start.after_text(s@) == self@.after_text(s@.skip(it.index() as int)),
        {
            let ghost i = it.index() as int;
            let ghost now = self@;
            let ghost mid = self.trace();
            let ghost rest = now.after_char(c).text_plan(s@.skip(i + 1));
            let r = self.write_char(c);
            proof {
                assert(s@.skip(i).skip(1) =~= s@.skip(i + 1));
                assert(s@.skip(i)[0] == c);
                assert(plan =~= done + now.char_plan(c) + rest);
                lemma_part(before, done, now.char_plan(c), rest, plan, mid, self.trace(), r);
            }
            match r {
                Ok(()) => {},
                Err(e) => {
                    return Err(e);
                },
            }
            proof {
                done = done + now.char_plan(c);
            }
        }
        assert(plan =~= done);
        Ok(())
    }

    /// Feeds `lines` lines; none for `lines == 0`.
    ///
    /// Newer firmware has a command for it. Older firmware is sent that many line feeds.
    pub fn cmd_feed(&mut self, lines: u8) -> (r: Result<(), PrinterError>)
        ensures
            carried_out(r, old(self).trace(), final(self).trace(), old(self)@.feed_plan(lines)),
            r is Ok ==> final(self)@ == old(self)@.after_feed(lines),
            old(self)@.wf() ==> final(self)@.wf(),
            lines == 0 ==> r is Ok && final(self).trace() == old(self).trace() && final(self)@
                == old(self)@,
    {
        if lines == 0 {
            proof {
                lemma_nothing_done(self.trace());
            }
            return Ok(());
        }
        if self.state.firmware_version >= MODERN_FIRMWARE {
            let cmd = feed_command(lines);
            match self.write_bytes(cmd.as_slice()) {
                Ok(()) => {},
                Err(e) => {
                    return Err(e);
                },
            }
            self.state.pending_us = self.state.timing.feed_command_duration(
                self.state.char_height,
            );
            self.state.last_byte = LF;
            self.state.last_column = 0;
            Ok(())
        } else {
            let ghost before = self.trace();
            let ghost start = self@;
            let ghost text = PrinterState::line_feeds(lines as int);
            let ghost plan = start.text_plan(text);
            let ghost mut done: Seq<PortEvent> = Seq::empty();
            let mut i: u8 = 0;
            assert(text.skip(0) =~= text);
            proof {
            lemma_nothing_done(before);
        }
            assert(done + plan =~= plan);
            while i < lines
                invariant
                    before == old(self).trace(),
                    plan == old(self)@.feed_plan(lines),
                    start == old(self)@,
                    i <= lines,
                    text == PrinterState::line_feeds(lines as int),
                    old(self)@.wf() ==> self@.wf(),
                    self.trace() == before + completed(done),
                    plan == done + self@.text_plan(text.skip(i as int)),
                    start.after_text(text) == self@.after_text(text.skip(i as int)),
                decreases lines - i,
            {
                let ghost now = self@;
                let ghost mid = self.trace();
                let ghost rest = now.after_char('\n').text_plan(text.skip(i + 1));
                let r = self.write_char('\n');
                proof {
                    assert(text.skip(i as int).skip(1) =~= text.skip(i + 1));
                    assert(text.skip(i as int)[0] == '\n');
                    assert(plan =~= done + now.char_plan('\n') + rest);
                    lemma_part(
                        before,
                        done,
                        now.char_plan('\n'),
                        rest,
                        plan,
                        mid,
                        self.trace(),
                        r,
                    );
                }
                match r {
                    Ok(()) => {},
                    Err(e) => {
                        return Err(e);
                    },
                }
                proof {
                    done = done + now.char_plan('\n');
                }
                i += 1;
            }
            assert(plan =~= done);
            Ok(())
        }
    }

    /// Sends the reset command.
    pub fn cmd_init(&mut self) -> (r: Result<(), PrinterError>)
        ensures
            carried_out(r, old(self).trace(), final(self).trace(), old(self)@.reset_plan()),
            r is Ok ==> final(self)@ == old(self)@.with_pending(RESET_WAIT_US as int),
            old(self)@.wf() ==> final(self)@.wf(),
    {
        let cmd = reset_command();
        match self.write_bytes(cmd.as_slice()) {
            Ok(()) => {},
            Err(e) => {
                return Err(e);
            },
        }
        self.state.pending_us = RESET_WAIT_US;
        Ok(())
    }

    /// Resets the printer and the host's picture of it: the cursor is at the start of a
    /// line and the line geometry is the printer's own again. The calibration stays.
    /// Firmware that has the newer command set is then given its tab stops and heating
    /// parameters.
    pub fn init(&mut self) -> (r: Result<(), PrinterError>)
        ensures
            carried_out(r, old(self).trace(), final(self).trace(), old(self)@.init_plan()),
            r is Ok ==> final(self)@ == old(self)@.after_init(),
            old(self)@.wf() ==> final(self)@.wf(),
    {
        let ghost before = self.trace();
        let ghost start = self@;
        let ghost plan = start.init_plan();
        let ghost tabs = send(RESET_WAIT_US, spec_tab_stops_command());
        let ghost heat = send(0, PrinterState::default_heat_command());
        let ghost none = Seq::<PortEvent>::empty();
        let ghost tail = if start.modern() {
            tabs + heat
        } else {
            none
        };
        proof {
            lemma_nothing_done(before);
        }
        let r = self.cmd_init();
        proof {
            lemma_part(before, none, start.reset_plan(), tail, plan, before, self.trace(), r);
        }
        match r {
            Ok(()) => {},
            Err(e) => {
                return Err(e);
            },
        }
        self.state.last_byte = LF;
        self.state.last_column = 0;
        self.state.max_column = DEFAULT_MAX_COLUMN;
        self.state.char_height = DEFAULT_CHAR_HEIGHT;
        self.state.inter_line_spacing = DEFAULT_LINE_SPACING;
        self.state.barcode_height = DEFAULT_BARCODE_HEIGHT;
        if self.state.firmware_version >= MODERN_FIRMWARE {
            let ghost done = none + start.reset_plan();
            let ghost mid = self.trace();
            let cmd = tab_stops_command();
            let r = self.write_bytes(cmd.as_slice());
            proof {
                lemma_part(before, done, tabs, heat, plan, mid, self.trace(), r);
            }
            match r {
                Ok(()) => {},
                Err(e) => {
                    return Err(e);
                },
            }
            let ghost done = done + tabs;
            let ghost mid = self.trace();
            let r = self.cmd_set_heat_config(HEAT_DOTS, HEAT_TIME_US, HEAT_INTERVAL_US);
            proof {
                lemma_part(before, done, heat, none, plan, mid, self.trace(), r);
                assert(done + heat =~= plan);
            }
            match r {
                Ok(()) => {},
                Err(e) => {
                    return Err(e);
                },
            }
            Ok(())
        } else {
            assert(none + start.reset_plan() =~= plan);
            Ok(())
        }
    }

    /// Wakes the printer from its low-power idle. The wake byte goes out at once,
    /// whatever wait was due. Firmware past the first with the newer command set then has
    /// its sleep timer switched off; other firmware is sent ten null bytes, each after
    /// its own wait.
    pub fn cmd_wake(&mut self) -> (r: Result<(), PrinterError>)
        ensures
            carried_out(r, old(self).trace(), final(self).trace(), old(self)@.wake_plan()),
            r is Ok ==> final(self)@ == old(self)@.after_wake(),
            old(self)@.wf() ==> final(self)@.wf(),
    {
        let ghost before = self.trace();
        let ghost start = self@;
        let ghost plan = start.wake_plan();
        let ghost none = Seq::<PortEvent>::empty();
        let ghost wake = send(0, spec_wake_command());
        let ghost tail = if start.wakes_by_command() {
            send(WAKE_WAIT_US, spec_sleep_off_command())
        } else {
            PrinterState::pulse_plan(WAKE_WAIT_US, WAKE_PULSES as int)
        };
        proof {
            lemma_nothing_done(before);
        }
        self.state.pending_us = 0;
        let cmd = wake_command();
        let r = self.write_bytes(cmd.as_slice());
        proof {
            lemma_part(before, none, wake, tail, plan, before, self.trace(), r);
        }
        match r {
            Ok(()) => {},
            Err(e) => {
                return Err(e);
            },
        }
        self.state.pending_us = WAKE_WAIT_US;
        let ghost mut done = none + wake;
        if self.state.firmware_version > MODERN_FIRMWARE {
            let ghost mid = self.trace();
            let cmd = sleep_off_command();
            let r = self.write_bytes(cmd.as_slice());
            proof {
                lemma_part(before, done, tail, none, plan, mid, self.trace(), r);
                assert(done + tail =~= plan);
            }
            match r {
                Ok(()) => {},
                Err(e) => {
                    return Err(e);
                },
            }
            self.state.pending_us = WAKE_WAIT_US;
            Ok(())
        } else {
            let cmd = null_command();
            let mut i: u8 = 0;
            assert(plan =~= done + tail);
            while i < WAKE_PULSES
                invariant
                    before == old(self).trace(),
                    plan == old(self)@.wake_plan(),
                    start == old(self)@,
                    !start.wakes_by_command(),
                    cmd@ == spec_null_command(),
                    i <= WAKE_PULSES,
                    old(self)@.wf() ==> self@.wf(),
                    self@ == start.with_pending(
                        if i == 0 {
                            WAKE_WAIT_US as int
                        } else {
                            WAKE_PULSE_WAIT_US as int
                        },
                    ),
                    self.trace() == before + completed(done),
                    plan == done + PrinterState::pulse_plan(self@.pending_us, WAKE_PULSES - i),
                decreases WAKE_PULSES - i,
            {
                let ghost mid = self.trace();
                let ghost pulse = send(self@.pending_us, spec_null_command());
                let ghost rest = PrinterState::pulse_plan(WAKE_PULSE_WAIT_US, WAKE_PULSES - i - 1);
                let r = self.write_bytes(cmd.as_slice());
                proof {
                    assert(plan =~= done + pulse + rest);
                    lemma_part(before, done, pulse, rest, plan, mid, self.trace(), r);
                }
                match r {
                    Ok(()) => {},
                    Err(e) => {
                        return Err(e);
                    },
                }
                self.state.pending_us = WAKE_PULSE_WAIT_US;
                proof {
                    done = done + pulse;
                }
                i += 1;
            }
            assert(plan =~= done);
            Ok(())
        }
    }

    /// Has the printer print what it has buffered.
    pub fn cmd_flush(&mut self) -> (r: Result<(), PrinterError>)
        ensures
            carried_out(
                r,
                old(self).trace(),
                final(self).trace(),
                old(self)@.send_plan(spec_flush_command()),
            ),
            r is Ok ==> final(self)@ == old(self)@.with_pending(0),
            old(self)@.wf() ==> final(self)@.wf(),
    {
        let cmd = flush_command();
        self.write_bytes(cmd.as_slice())
    }

    /// Sets the heating parameters: how many dots are heated at once, for how long, and
    /// how long the head rests between two rounds.
    ///
    /// The two times travel in units of ten microseconds. When one of them is more than a
    /// byte holds, nothing is sent.
    pub fn cmd_set_heat_config(
        &mut self,
        dots: u8,
        heating_time_us: u64,
        heating_interval_us: u64,
    ) -> (r: Result<(), PrinterError>)
        ensures
            match spec_heat_config_command(
                dots,
                heating_time_us as int,
                heating_interval_us as int,
            ) {
                Some(cmd) => carried_out(
                    r,
                    old(self).trace(),
                    final(self).trace(),
                    old(self)@.send_plan(cmd),
                ) && (r is Ok ==> final(self)@ == old(self)@.with_pending(0)),
                None => r == Err::<(), PrinterError>(PrinterError::Encoding)
                    && final(self).trace() == old(self).trace() && final(self)@ == old(self)@,
            },
            old(self)@.wf() ==> final(self)@.wf(),
    {
        let cmd = match heat_config_command(dots, heating_time_us, heating_interval_us) {
            Ok(cmd) => cmd,
            Err(e) => {
                return Err(e);
            },
        };
        self.write_bytes(cmd.as_slice())
    }

    /// Sets the print density and the break time between two rounds of heating. The
    /// printer is then given a millisecond to take the setting.
    ///
    /// The break time travels in units of 250 microseconds. When it is more than a byte
    /// holds, nothing is sent.
    pub fn cmd_set_print_density(&mut self, density: u8, break_time_us: u64) -> (r: Result<
        (),
        PrinterError,
    >)
        ensures
            match spec_print_density_command(density, break_time_us as int) {
                Some(cmd) => carried_out(
                    r,
                    old(self).trace(),
                    final(self).trace(),
                    old(self)@.send_plan(cmd),
                ) && (r is Ok ==> final(self)@ == old(self)@.with_pending(
                    SETTING_WAIT_US as int,
                )),
                None => r == Err::<(), PrinterError>(PrinterError::Encoding)
                    && final(self).trace() == old(self).trace() && final(self)@ == old(self)@,
            },
            old(self)@.wf() ==> final(self)@.wf(),
    {
        let cmd = match print_density_command(density, break_time_us) {
            Ok(cmd) => cmd,
            Err(e) => {
                return Err(e);
            },
        };
        match self.write_bytes(cmd.as_slice()) {
            Ok(()) => {},
            Err(e) => {
                return Err(e);
            },
        }
        self.state.pending_us = SETTING_WAIT_US;
        Ok(())
    }

    /// Sets the underline. The printer is then given a millisecond to take the setting.
    pub fn cmd_set_underline(&mut self, underline: Underline) -> (r: Result<(), PrinterError>)
        ensures
            carried_out(
                r,
                old(self).trace(),
                final(self).trace(),
                old(self)@.send_plan(spec_underline_command(underline)),
            ),
            r is Ok ==> final(self)@ == old(self)@.with_pending(SETTING_WAIT_US as int),
            old(self)@.wf() ==> final(self)@.wf(),
    {
        let cmd = underline_command(underline);
        match self.write_bytes(cmd.as_slice()) {
            Ok(()) => {},
            Err(e) => {
                return Err(e);
            },
        }
        self.state.pending_us = SETTING_WAIT_US;
        Ok(())
    }

    /// Sets the height of barcodes, in dot rows; the printer is told at least one. The
    /// host keeps the new height for its own timing.
    pub fn set_barcode_height(&mut self, val: u8) -> (r: Result<(), PrinterError>)
        ensures
            carried_out(
                r,
                old(self).trace(),
                final(self).trace(),
                old(self)@.send_plan(spec_barcode_height_command(val)),
            ),
            r is Ok ==> final(self)@ == old(self)@.after_barcode_height(val),
            old(self)@.wf() ==> final(self)@.wf(),
    {
        let cmd = barcode_height_command(val);
        match self.write_bytes(cmd.as_slice()) {
            Ok(()) => {},
            Err(e) => {
                return Err(e);
            },
        }
        self.state.barcode_height = if val < 1 {
            1
        } else {
            val as u16
        };
        Ok(())
    }

    /// Prints the self-test page.
    pub fn cmd_test_page(&mut self) -> (r: Result<(), PrinterError>)
        ensures
            carried_out(
                r,
                old(self).trace(),
                final(self).trace(),
                old(self)@.send_plan(spec_test_page_command()),
            ),
            r is Ok ==> final(self)@ == old(self)@.with_pending(
                old(self)@.timing.spec_test_page_duration(),
            ),
            old(self)@.wf() ==> final(self)@.wf(),
    {
        let cmd = test_page_command();
        match self.write_bytes(cmd.as_slice()) {
            Ok(()) => {},
            Err(e) => {
                return Err(e);
            },
        }
        self.state.pending_us = self.state.timing.test_page_duration();
        Ok(())
    }

    /// Sends a barcode, after the line before it was fed.
    fn barcode_body(&mut self, payload: &[u8], barcode_type: Barcode) -> (r: Result<
        (),
        PrinterError,
    >)
        requires
            payload@.len() <= MAX_BARCODE_BYTES,
        ensures
            carried_out(
                r,
                old(self).trace(),
                final(self).trace(),
                old(self)@.barcode_body_plan(payload@, barcode_type),
            ),
            r is Ok ==> final(self)@ == old(self)@.with_pending(0),
            old(self)@.wf() ==> final(self)@.wf(),
    {
        let modern = self.state.firmware_version >= MODERN_FIRMWARE;
        let ghost before = self.trace();
        let ghost start = self@;
        let ghost plan = start.barcode_body_plan(payload@, barcode_type);
        let ghost none = Seq::<PortEvent>::empty();
        let ghost text = send(start.pending_us, spec_barcode_text_command());
        let ghost width = send(0, spec_barcode_width_command());
        let ghost head = send(
            0,
            spec_barcode_command(barcode_type, payload@.len() as u8, start.modern()),
        );
        let ghost data = send(0, payload@);
        let ghost tail = if start.modern() {
            none
        } else {
            send(0, spec_null_command())
        };
        assert(plan == text + (width + (head + (data + tail))));
        proof {
            lemma_nothing_done(before);
        }

        let cmd = barcode_text_command();
        let r = self.write_bytes(cmd.as_slice());
        proof {
            assert(plan =~= none + text + (width + (head + (data + tail))));
            lemma_part(
                before,
                none,
                text,
                width + (head + (data + tail)),
                plan,
                before,
                self.trace(),
                r,
            );
        }
        match r {
            Ok(()) => {},
            Err(e) => {
                return Err(e);
            },
        }
        let ghost done = none + text;

        let ghost mid = self.trace();
        let cmd = barcode_width_command();
        let r = self.write_bytes(cmd.as_slice());
        proof {
            assert(plan =~= done + width + (head + (data + tail)));
            lemma_part(before, done, width, head + (data + tail), plan, mid, self.trace(), r);
        }
        match r {
            Ok(()) => {},
            Err(e) => {
                return Err(e);
            },
        }
        let ghost done = done + width;

        let ghost mid = self.trace();
        let cmd = barcode_command(barcode_type, payload.len() as u8, modern);
        let r = self.write_bytes(cmd.as_slice());
        proof {
            assert(plan =~= done + head + (data + tail));
            lemma_part(before, done, head, data + tail, plan, mid, self.trace(), r);
        }
        match r {
            Ok(()) => {},
            Err(e) => {
                return Err(e);
            },
        }
        let ghost done = done + head;

        let ghost mid = self.trace();
        let r = self.write_bytes(payload);
        proof {
            assert(plan =~= done + data + tail);
            lemma_part(before, done, data, tail, plan, mid, self.trace(), r);
        }
        match r {
            Ok(()) => {},
            Err(e) => {
                return Err(e);
            },
        }
        let ghost done = done + data;

        if !modern {
            let ghost mid = self.trace();
            let cmd = null_command();
            let r = self.write_bytes(cmd.as_slice());
            proof {
                assert(plan =~= done + tail + none);
                lemma_part(before, done, tail, none, plan, mid, self.trace(), r);
            }
            match r {
                Ok(()) => {},
                Err(e) => {
                    return Err(e);
                },
            }
        }
        assert(plan =~= done + tail);
        Ok(())
    }

    /// Prints a barcode: feeds one line, says where the text goes and how wide the bars
    /// are, then sends the barcode in the form that the firmware takes.
    ///
    /// The text travels as its bytes, and their number as one byte. A text of more than
    /// 255 bytes is refused, and nothing is sent.
    pub fn print_barcode(&mut self, s: &str, barcode_type: Barcode) -> (r: Result<
        (),
        PrinterError,
    >)
        ensures
            s.spec_bytes().len() > MAX_BARCODE_BYTES ==> r == Err::<(), PrinterError>(
                PrinterError::Encoding,
            ) && final(self).trace() == old(self).trace() && final(self)@ == old(self)@,
            s.spec_bytes().len() <= MAX_BARCODE_BYTES ==> carried_out(
                r,
                old(self).trace(),
                final(self).trace(),
                old(self)@.barcode_plan(s.spec_bytes(), barcode_type),
            ) && (r is Ok ==> final(self)@ == old(self)@.after_barcode()),
            old(self)@.wf() ==> final(self)@.wf(),
    {
        let payload = s.as_bytes();
        if payload.len() > MAX_BARCODE_BYTES {
            return Err(PrinterError::Encoding);
        }
        let ghost before = self.trace();
        let ghost start = self@;
        let ghost plan = start.barcode_plan(payload@, barcode_type);
        let ghost none = Seq::<PortEvent>::empty();
        let ghost fed = start.after_feed(1);
        let ghost body = fed.barcode_body_plan(payload@, barcode_type);
        proof {
            lemma_nothing_done(before);
        }

        let r = self.cmd_feed(1);
        proof {
            assert(plan =~= none + start.feed_plan(1) + body);
            lemma_part(before, none, start.feed_plan(1), body, plan, before, self.trace(), r);
        }
        match r {
            Ok(()) => {},
            Err(e) => {
                return Err(e);
            },
        }
        let ghost done = none + start.feed_plan(1);

        let ghost mid = self.trace();
        let r = self.barcode_body(payload, barcode_type);
        proof {
            assert(plan =~= done + body + none);
            lemma_part(before, done, body, none, plan, mid, self.trace(), r);
        }
        match r {
            Ok(()) => {},
            Err(e) => {
                return Err(e);
            },
        }
        assert(plan =~= done + body);
        self.state.pending_us = self.state.timing.barcode_duration(self.state.barcode_height);
        self.state.last_byte = LF;
        self.state.last_column = 0;
        Ok(())
    }

    /// Prints a bitmap. It is packed and cut into chunks that fit the printer's raster
    /// buffer; each chunk goes out as its header and then its rows, and the next chunk
    /// waits until the printer has printed the one before. Afterwards the cursor is at
    /// the start of a line.
    ///
    /// A bitmap that cannot be chunked is refused, and nothing is sent: see
    /// [`chunking_error`](crate::chunker::chunking_error).
    pub fn print(&mut self, bitmap: &Bitmap) -> (r: Result<(), PrinterError>)
        ensures
            match old(self)@.raster_error(bitmap@) {
                Some(e) => r == Err::<(), PrinterError>(e) && final(self).trace() == old(self).trace()
                    && final(self)@ == old(self)@,
                None => carried_out(
                    r,
                    old(self).trace(),
                    final(self).trace(),
                    old(self)@.raster_plan(old(self)@.chunks_of(bitmap@)),
                ) && (r is Ok ==> final(self)@ == old(self)@.after_raster(bitmap@)),
            },
            old(self)@.wf() ==> final(self)@.wf(),
    {
        let chunks = match chunk_bitmap(bitmap, self.state.timing.buffer_bytes) {
            Ok(chunks) => chunks,
            Err(e) => {
                return Err(e);
            },
        };
        let ghost before = self.trace();
        let ghost start = self@;
        let ghost views = chunk_views(chunks@);
        let ghost plan = start.raster_plan(views);
        let ghost mut done: Seq<PortEvent> = Seq::empty();
        let mut c: usize = 0;
        assert(views.skip(0) =~= views);
        proof {
            lemma_nothing_done(before);
        }
        assert(done + plan =~= plan);
        while c < chunks.len()
            invariant
                before == old(self).trace(),
                start == old(self)@,
                old(self)@.raster_error(bitmap@) is None,
                views == chunk_views(chunks@),
                views == old(self)@.chunks_of(bitmap@),
                plan == start.raster_plan(views),
                forall|i: int|
                    0 <= i < chunks@.len() ==> (#[trigger] chunks@[i]).rows@.len() <= 65535,
                c <= chunks.len(),
                old(self)@.wf() ==> self@.wf(),
                self@.last_byte == start.last_byte,
                self@.last_column == start.last_column,
                self.trace() == before + completed(done),
                plan == done + self@.raster_plan(views.skip(c as int)),
                start.after_chunks(views) == self@.after_chunks(views.skip(c as int)),
            decreases chunks.len() - c,
        {
            let chunk = &chunks[c];
            let ghost now = self@;
            let ghost next = now.after_chunk(chunk@);
            let ghost later = next.raster_plan(views.skip(c + 1));
            let ghost rows = chunk@.rows;
            proof {
                assert(views.skip(c as int).skip(1) =~= views.skip(c + 1));
                assert(views.skip(c as int)[0] == chunk@);
            }

            let ghost mid = self.trace();
            let ghost head = send(now.pending_us, chunk@.header);
            let r = self.write_bytes(chunk.header.as_slice());
            proof {
                assert(plan =~= done + head + (PrinterState::rows_plan(rows) + later));
                lemma_part(
                    before,
                    done,
                    head,
                    PrinterState::rows_plan(rows) + later,
                    plan,
                    mid,
                    self.trace(),
                    r,
                );
            }
            match r {
                Ok(()) => {},
                Err(e) => {
                    return Err(e);
                },
            }
            proof {
                done = done + head;
                assert(rows.skip(0) =~= rows);
            }

            let mut i: usize = 0;
            while i < chunk.rows.len()
                invariant
                    before == old(self).trace(),
                    start == old(self)@,
                    old(self)@.raster_error(bitmap@) is None,
                    views == old(self)@.chunks_of(bitmap@),
                    plan == start.raster_plan(views),
                    rows == chunk@.rows,
                    i <= chunk.rows.len(),
                    self@ == now.with_pending(0),
                    old(self)@.wf() ==> now.wf(),
                    self.trace() == before + completed(done),
                    plan == done + (PrinterState::rows_plan(rows.skip(i as int)) + later),
                decreases chunk.rows.len() - i,
            {
                let ghost mid = self.trace();
                let ghost row = send(0, rows[i as int]);
                let ghost rest = PrinterState::rows_plan(rows.skip(i + 1)) + later;
                let r = self.write_bytes(chunk.rows[i].as_slice());
                proof {
                    assert(rows.skip(i as int).skip(1) =~= rows.skip(i + 1));
                    assert(rows.skip(i as int)[0] == rows[i as int]);
                    assert(plan =~= done + row + rest);
                    lemma_part(before, done, row, rest, plan, mid, self.trace(), r);
                }
                match r {
                    Ok(()) => {},
                    Err(e) => {
                        return Err(e);
                    },
                }
                proof {
                    done = done + row;
                }
                i += 1;
            }
            assert(plan =~= done + later);
            self.state.pending_us = self.state.timing.raster_duration(chunk.rows.len() as u16);
            c += 1;
        }
        assert(plan =~= done);
        self.state.last_byte = LF;
        self.state.last_column = 0;
        Ok(())
    }

    /// Prints the bitmap that packed bytes hold: `w` dots wide, `h` rows high, the dots
    /// row after row in `bitmap`, most significant bit first.
    ///
    /// The sizes must fit the data, see [`dimensions_fit`](crate::bitmap::dimensions_fit),
    /// and the bitmap must be one that can be chunked, see [`Printer::print`]. Otherwise
    /// it is refused, and nothing is sent.
    pub fn print_bitmap(&mut self, w: usize, h: usize, bitmap: &[u8]) -> (r: Result<
        (),
        PrinterError,
    >)
        ensures
            match old(self)@.bitmap_error(w, h, bitmap@) {
                Some(e) => r == Err::<(), PrinterError>(e) && final(self).trace() == old(self).trace()
                    && final(self)@ == old(self)@,
                None => carried_out(
                    r,
                    old(self).trace(),
                    final(self).trace(),
                    old(self)@.raster_plan(
                        old(self)@.chunks_of(PrinterState::bitmap_of(w, h, bitmap@)),
                    ),
                ) && (r is Ok ==> final(self)@ == old(self)@.after_raster(
                    PrinterState::bitmap_of(w, h, bitmap@),
                )),
            },
            old(self)@.wf() ==> final(self)@.wf(),
    {
        let image = match Bitmap::from_bytes(w, h, bitmap) {
            Ok(image) => image,
            Err(e) => {
                return Err(e);
            },
        };
        self.print(&image)
    }
}

} // verus!
