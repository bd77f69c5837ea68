use thermal_printer::error::PrinterError;
use thermal_printer::port::{PortOp, RecordingPort, SerialPort};
use thermal_printer::printer::Printer;
use thermal_printer::protocol::{Barcode, Underline};
use thermal_printer::state::PrinterState;
use thermal_printer::timing::TimingModel;

fn fresh() -> Printer<RecordingPort> {
    Printer::new(RecordingPort::new())
}

fn ops(printer: &Printer<RecordingPort>) -> &Vec<PortOp> {
    &printer.port().ops
}

fn w(bytes: &[u8]) -> PortOp {
    PortOp::Write(bytes.to_vec())
}

#[test]
fn new_printer_starts_at_a_line_start_with_the_startup_wait() {
    let printer = fresh();
    let s = printer.state();
    assert_eq!(
        s,
        PrinterState {
            pending_us: 500_000,
            last_byte: b'\n',
            last_column: 0,
            max_column: 32,
            char_height: 24,
            inter_line_spacing: 6,
            barcode_height: 50,
            firmware_version: 268,
            timing: TimingModel::firmware_defaults(),
        }
    );
    assert!(ops(&printer).is_empty());
}

#[test]
fn wait_consumes_the_pending_timeout() {
    let mut printer = fresh();
    printer.wait().unwrap();
    assert_eq!(printer.state().pending_us, 0);
    assert_eq!(ops(&printer), &vec![PortOp::Wait(500_000)]);
    printer.wait().unwrap();
    assert_eq!(
        ops(&printer),
        &vec![PortOp::Wait(500_000), PortOp::Wait(0)]
    );
}

#[test]
fn write_bytes_waits_then_writes() {
    let mut printer = fresh();
    printer.write_bytes(&[1, 2, 3]).unwrap();
    assert_eq!(ops(&printer), &vec![PortOp::Wait(500_000), w(&[1, 2, 3])]);
    assert_eq!(printer.state().pending_us, 0);
    assert_eq!(printer.port().written(), vec![1, 2, 3]);
}

#[test]
fn cmd_feed_of_no_lines_does_nothing() {
    let mut printer = fresh();
    let before = printer.state();
    printer.cmd_feed(0).unwrap();
    assert!(ops(&printer).is_empty());
    assert_eq!(printer.state(), before);

    let mut legacy = fresh();
    legacy.set_firmware_version(200);
    let before = legacy.state();
    legacy.cmd_feed(0).unwrap();
    assert!(ops(&legacy).is_empty());
    assert_eq!(legacy.state(), before);
}

#[test]
fn cmd_feed_on_newer_firmware_is_one_command() {
    let mut printer = fresh();
    printer.cmd_feed(3).unwrap();
    assert_eq!(
        ops(&printer),
        &vec![PortOp::Wait(500_000), w(&[27, b'd', 3])]
    );
    let s = printer.state();
    // 2100 * 24
    assert_eq!(s.pending_us, 50_400);
    assert_eq!(s.last_byte, b'\n');
    assert_eq!(s.last_column, 0);
}

#[test]
fn cmd_feed_on_older_firmware_sends_line_feeds() {
    let mut printer = fresh();
    printer.set_firmware_version(263);
    printer.cmd_feed(3).unwrap();
    // each line feed on an empty line costs the byte and a feed: 573 + 63000
    assert_eq!(
        ops(&printer),
        &vec![
            PortOp::Wait(500_000),
            w(&[10]),
            PortOp::Wait(63_573),
            w(&[10]),
            PortOp::Wait(63_573),
            w(&[10]),
        ]
    );
    assert_eq!(printer.state().pending_us, 63_573);
}

#[test]
fn write_char_drops_carriage_returns() {
    let mut printer = fresh();
    let before = printer.state();
    printer.write_char('\r').unwrap();
    assert!(ops(&printer).is_empty());
    assert_eq!(printer.state(), before);
}

#[test]
fn write_char_moves_between_line_start_and_mid_line() {
    let mut printer = fresh();
    // line start, a letter: mid line, the wait is the byte alone
    printer.write_char('a').unwrap();
    let s = printer.state();
    assert_eq!((s.last_byte, s.last_column, s.pending_us), (b'a', 1, 573));
    // mid line, a line feed: line start, the wait covers a line of text
    printer.write_char('\n').unwrap();
    let s = printer.state();
    assert_eq!(
        (s.last_byte, s.last_column, s.pending_us),
        (b'\n', 0, 573 + 492_600)
    );
    // line start, a line feed: line start, the wait covers a feed
    printer.write_char('\n').unwrap();
    let s = printer.state();
    assert_eq!(
        (s.last_byte, s.last_column, s.pending_us),
        (b'\n', 0, 573 + 63_000)
    );
    assert_eq!(
        ops(&printer),
        &vec![
            PortOp::Wait(500_000),
            w(b"a"),
            PortOp::Wait(573),
            w(b"\n"),
            PortOp::Wait(493_173),
            w(b"\n"),
        ]
    );
}

#[test]
fn write_char_wraps_a_full_line() {
    let mut printer = fresh();
    for _ in 0..32 {
        printer.write_char('x').unwrap();
    }
    let s = printer.state();
    assert_eq!((s.last_byte, s.last_column, s.pending_us), (b'x', 32, 573));
    // the line is full: the next character ends it
    printer.write_char('y').unwrap();
    let s = printer.state();
    assert_eq!(
        (s.last_byte, s.last_column, s.pending_us),
        (b'\n', 0, 573 + 492_600)
    );
    assert_eq!(printer.port().written().len(), 33);
}

#[test]
fn write_char_sends_the_low_byte_of_a_wide_character() {
    let mut printer = fresh();
    // U+0141 has the low byte 0x41
    printer.write_char('\u{141}').unwrap();
    assert_eq!(printer.port().written(), vec![0x41]);
    // U+010D has the low byte of a carriage return, and is dropped like one
    printer.write_char('\u{10d}').unwrap();
    assert_eq!(printer.port().written(), vec![0x41]);
}

#[test]
fn write_sends_each_character_in_turn() {
    let mut printer = fresh();
    printer.write("hi\r\n").unwrap();
    assert_eq!(
        ops(&printer),
        &vec![
            PortOp::Wait(500_000),
            w(b"h"),
            PortOp::Wait(573),
            w(b"i"),
            PortOp::Wait(573),
            w(b"\n"),
        ]
    );
    let s = printer.state();
    assert_eq!(
        (s.last_byte, s.last_column, s.pending_us),
        (b'\n', 0, 493_173)
    );
}

#[test]
fn write_of_nothing_does_nothing() {
    let mut printer = fresh();
    let before = printer.state();
    printer.write("").unwrap();
    assert!(ops(&printer).is_empty());
    assert_eq!(printer.state(), before);
}

#[test]
fn write_stops_at_the_first_failure() {
    // three operations complete: wait, write, wait; the second write fails
    let mut printer = Printer::new(RecordingPort::failing_after(3));
    assert_eq!(printer.write("abc"), Err(PrinterError::Transport));
    assert_eq!(
        ops(&printer),
        &vec![PortOp::Wait(500_000), w(b"a"), PortOp::Wait(573)]
    );
    assert_eq!(printer.port().written(), b"a".to_vec());
}

#[test]
fn cmd_init_sends_the_reset() {
    let mut printer = fresh();
    printer.cmd_init().unwrap();
    assert_eq!(ops(&printer), &vec![PortOp::Wait(500_000), w(&[27, b'@'])]);
    assert_eq!(printer.state().pending_us, 100_000);
}

#[test]
fn init_on_newer_firmware_sets_tab_stops_and_heat() {
    let mut printer = fresh();
    printer.write("abc").unwrap();
    printer.set_barcode_height(80).unwrap();
    let sent_before = ops(&printer).len();
    printer.init().unwrap();
    assert_eq!(
        &ops(&printer)[sent_before..],
        &[
            PortOp::Wait(0),
            w(&[27, b'@']),
            PortOp::Wait(100_000),
            w(&[27, b'D', 4, 8, 12, 16, 20, 24, 28, 0]),
            PortOp::Wait(0),
            w(&[27, b'7', 11, 12, 4]),
        ]
    );
    // the cursor and the line geometry are the printer's own again
    assert_eq!(
        printer.state(),
        PrinterState {
            pending_us: 0,
            last_byte: b'\n',
            last_column: 0,
            max_column: 32,
            char_height: 24,
            inter_line_spacing: 6,
            barcode_height: 50,
            firmware_version: 268,
            timing: TimingModel::firmware_defaults(),
        }
    );
}

#[test]
fn init_on_older_firmware_sends_the_reset_alone() {
    let mut printer = fresh();
    printer.set_firmware_version(263);
    printer.init().unwrap();
    assert_eq!(ops(&printer), &vec![PortOp::Wait(500_000), w(&[27, b'@'])]);
    assert_eq!(printer.state().pending_us, 100_000);
}

#[test]
fn init_keeps_the_calibration() {
    let mut printer = fresh();
    let timing = TimingModel {
        dot_print_us: 5_000,
        dot_feed_us: 1_000,
        byte_us: 100,
        buffer_bytes: 256,
    };
    printer.set_timing(timing).unwrap();
    printer.init().unwrap();
    assert_eq!(printer.state().timing, timing);
}

#[test]
fn set_timing_refuses_a_zero_constant() {
    let mut printer = fresh();
    let before = printer.state();
    let bad = TimingModel {
        dot_feed_us: 0,
        ..TimingModel::firmware_defaults()
    };
    assert_eq!(printer.set_timing(bad), Err(PrinterError::Precondition));
    assert_eq!(printer.state(), before);
}

#[test]
fn cmd_wake_on_newer_firmware_switches_sleep_off() {
    let mut printer = fresh();
    printer.cmd_wake().unwrap();
    assert_eq!(
        ops(&printer),
        &vec![
            PortOp::Wait(0),
            w(&[0xff]),
            PortOp::Wait(50_000),
            w(&[27, b'8', 0, 0]),
        ]
    );
    assert_eq!(printer.state().pending_us, 50_000);
}

#[test]
fn cmd_wake_on_firmware_264_sends_ten_pulses() {
    let mut printer = fresh();
    printer.set_firmware_version(264);
    printer.cmd_wake().unwrap();
    let mut expected = vec![PortOp::Wait(0), w(&[0xff]), PortOp::Wait(50_000), w(&[0])];
    for _ in 0..9 {
        expected.push(PortOp::Wait(10_000));
        expected.push(w(&[0]));
    }
    assert_eq!(ops(&printer), &expected);
    assert_eq!(printer.state().pending_us, 10_000);
}

#[test]
fn cmd_flush_sends_a_form_feed() {
    let mut printer = fresh();
    printer.cmd_flush().unwrap();
    assert_eq!(ops(&printer), &vec![PortOp::Wait(500_000), w(&[12])]);
}

#[test]
fn heat_config_encodes_tens_of_microseconds() {
    let mut printer = fresh();
    printer.cmd_set_heat_config(11, 120, 40).unwrap();
    assert_eq!(
        ops(&printer),
        &vec![PortOp::Wait(500_000), w(&[27, b'7', 11, 12, 4])]
    );
    assert_eq!(printer.state().pending_us, 0);
}

#[test]
fn heat_config_drops_fractions_and_refuses_what_overflows_a_byte() {
    let mut printer = fresh();
    printer.cmd_set_heat_config(7, 2_559, 19).unwrap();
    assert_eq!(printer.port().written(), vec![27, b'7', 7, 255, 1]);

    let mut printer = fresh();
    let before = printer.state();
    assert_eq!(
        printer.cmd_set_heat_config(7, 2_560, 0),
        Err(PrinterError::Encoding)
    );
    assert_eq!(
        printer.cmd_set_heat_config(7, 0, 2_560),
        Err(PrinterError::Encoding)
    );
    assert_eq!(
        printer.cmd_set_heat_config(7, u64::MAX, u64::MAX),
        Err(PrinterError::Encoding)
    );
    assert!(ops(&printer).is_empty());
    assert_eq!(printer.state(), before);
}

#[test]
fn print_density_packs_density_and_break_time() {
    let mut printer = fresh();
    // 500 microseconds are two units of 250
    printer.cmd_set_print_density(10, 500).unwrap();
    assert_eq!(
        ops(&printer),
        &vec![PortOp::Wait(500_000), w(&[27, b'#', 10 | (2 << 5)])]
    );
    assert_eq!(printer.state().pending_us, 1_000);

    // only the low three bits of the break time travel
    let mut printer = fresh();
    printer.cmd_set_print_density(1, 9 * 250).unwrap();
    assert_eq!(printer.port().written(), vec![27, b'#', 1 | (1 << 5)]);

    let mut printer = fresh();
    assert_eq!(
        printer.cmd_set_print_density(1, 256 * 250),
        Err(PrinterError::Encoding)
    );
    assert!(ops(&printer).is_empty());
}

#[test]
fn underline_sends_its_level() {
    for (underline, level) in [
        (Underline::Off, 0u8),
        (Underline::Single, 1),
        (Underline::Double, 2),
    ] {
        let mut printer = fresh();
        printer.cmd_set_underline(underline).unwrap();
        assert_eq!(
            ops(&printer),
            &vec![PortOp::Wait(500_000), w(&[27, b'-', level])]
        );
        assert_eq!(printer.state().pending_us, 1_000);
    }
}

#[test]
fn barcode_height_is_at_least_one() {
    let mut printer = fresh();
    printer.set_barcode_height(0).unwrap();
    assert_eq!(printer.port().written(), vec![29, b'h', 1]);
    assert_eq!(printer.state().barcode_height, 1);

    let mut printer = fresh();
    printer.set_barcode_height(200).unwrap();
    assert_eq!(printer.port().written(), vec![29, b'h', 200]);
    assert_eq!(printer.state().barcode_height, 200);
}

#[test]
fn test_page_waits_for_the_whole_page() {
    let mut printer = fresh();
    printer.cmd_test_page().unwrap();
    assert_eq!(ops(&printer), &vec![PortOp::Wait(500_000), w(&[18, b'T'])]);
    assert_eq!(printer.state().pending_us, 12_870_600);
}

#[test]
fn barcode_on_newer_firmware_carries_its_length() {
    let mut printer = fresh();
    printer.print_barcode("123456789012", Barcode::UpcA).unwrap();
    assert_eq!(
        ops(&printer),
        &vec![
            PortOp::Wait(500_000),
            w(&[27, b'd', 1]),
            PortOp::Wait(50_400),
            w(&[29, b'H', 2]),
            PortOp::Wait(0),
            w(&[29, b'w', 3]),
            PortOp::Wait(0),
            w(&[29, b'k', 65, 12]),
            PortOp::Wait(0),
            w(b"123456789012"),
        ]
    );
    let s = printer.state();
    // (50 + 40) * 20000
    assert_eq!(s.pending_us, 1_800_000);
    assert_eq!((s.last_byte, s.last_column), (b'\n', 0));
}

#[test]
fn barcode_on_older_firmware_ends_with_a_null() {
    let mut printer = fresh();
    printer.set_firmware_version(200);
    printer.print_barcode("AB", Barcode::Code128).unwrap();
    assert_eq!(
        ops(&printer),
        &vec![
            PortOp::Wait(500_000),
            w(&[10]),
            PortOp::Wait(63_573),
            w(&[29, b'H', 2]),
            PortOp::Wait(0),
            w(&[29, b'w', 3]),
            PortOp::Wait(0),
            w(&[29, b'k', 8]),
            PortOp::Wait(0),
            w(b"AB"),
            PortOp::Wait(0),
            w(&[0]),
        ]
    );
    assert_eq!(printer.state().pending_us, 1_800_000);
}

#[test]
fn barcode_numbers_every_symbology() {
    for (symbology, code) in [
        (Barcode::UpcA, 0u8),
        (Barcode::UpcE, 1),
        (Barcode::Ean13, 2),
        (Barcode::Ean8, 3),
        (Barcode::Code39, 4),
        (Barcode::Itf, 5),
        (Barcode::Codabar, 6),
        (Barcode::Code93, 7),
        (Barcode::Code128, 8),
    ] {
        let mut printer = fresh();
        printer.print_barcode("7", symbology).unwrap();
        assert_eq!(ops(&printer)[7], w(&[29, b'k', 65 + code, 1]));
    }
}

#[test]
fn barcode_uses_the_height_that_was_set() {
    let mut printer = fresh();
    printer.set_barcode_height(100).unwrap();
    printer.print_barcode("1", Barcode::Ean8).unwrap();
    // (100 + 40) * 20000
    assert_eq!(printer.state().pending_us, 2_800_000);
}

#[test]
fn barcode_refuses_more_than_255_bytes() {
    let mut printer = fresh();
    let before = printer.state();
    let long = "1".repeat(256);
    assert_eq!(
        printer.print_barcode(&long, Barcode::Code39),
        Err(PrinterError::Encoding)
    );
    assert!(ops(&printer).is_empty());
    assert_eq!(printer.state(), before);

    let fits = "1".repeat(255);
    printer.print_barcode(&fits, Barcode::Code39).unwrap();
    assert_eq!(ops(&printer)[7], w(&[29, b'k', 69, 255]));
    assert_eq!(ops(&printer)[9], w(fits.as_bytes()));
}

#[test]
fn barcode_counts_bytes_not_characters() {
    // 128 characters of two bytes each are 256 bytes
    let mut printer = fresh();
    let wide = "\u{e9}".repeat(128);
    assert_eq!(
        printer.print_barcode(&wide, Barcode::Code128),
        Err(PrinterError::Encoding)
    );
}

#[test]
fn print_bitmap_sends_one_chunk_for_five_rows() {
    let mut printer = fresh();
    let data = vec![0xAAu8; 48 * 5];
    printer.print_bitmap(384, 5, &data).unwrap();
    let log = ops(&printer);
    assert_eq!(log.len(), 2 + 2 * 5);
    assert_eq!(log[0], PortOp::Wait(500_000));
    assert_eq!(log[1], w(&[29, b'v', 0, 0, 48, 0, 5, 0]));
    for row in 0..5 {
        assert_eq!(log[2 + 2 * row], PortOp::Wait(0));
        assert_eq!(log[3 + 2 * row], w(&[0xAAu8; 48]));
    }
    // exactly one header went out
    let headers = log
        .iter()
        .filter(|op| matches!(op, PortOp::Write(bytes) if bytes.len() == 8))
        .count();
    assert_eq!(headers, 1);
    let s = printer.state();
    // 20000 * 5
    assert_eq!(s.pending_us, 100_000);
    assert_eq!((s.last_byte, s.last_column), (b'\n', 0));
}

#[test]
fn print_bitmap_with_room_for_two_hundred_rows_sends_one_chunk() {
    let mut printer = fresh();
    // 200 rows of 48 bytes
    printer
        .set_timing(TimingModel {
            buffer_bytes: 48 * 200,
            ..TimingModel::firmware_defaults()
        })
        .unwrap();
    let data = vec![0x0Fu8; 48 * 5];
    printer.print_bitmap(384, 5, &data).unwrap();
    let log = ops(&printer);
    assert_eq!(log.len(), 12);
    assert_eq!(log[1], w(&[29, b'v', 0, 0, 48, 0, 5, 0]));
    for row in 0..5 {
        assert_eq!(log[3 + 2 * row], w(&[0x0Fu8; 48]));
    }
}

#[test]
fn print_bitmap_paces_each_chunk_by_the_one_before() {
    let mut printer = fresh();
    let data = vec![0xffu8; 48 * 25];
    printer.print_bitmap(384, 25, &data).unwrap();
    let log = ops(&printer);
    // three chunks of 10, 10 and 5 rows
    assert_eq!(log.len(), 3 * 2 + 25 * 2);
    assert_eq!(log[0], PortOp::Wait(500_000));
    assert_eq!(log[1], w(&[29, b'v', 0, 0, 48, 0, 10, 0]));
    assert_eq!(log[22], PortOp::Wait(200_000));
    assert_eq!(log[23], w(&[29, b'v', 0, 0, 48, 0, 10, 0]));
    assert_eq!(log[44], PortOp::Wait(200_000));
    assert_eq!(log[45], w(&[29, b'v', 0, 0, 48, 0, 5, 0]));
    assert_eq!(printer.state().pending_us, 100_000);
}

#[test]
fn print_bitmap_pads_rows_that_do_not_fill_their_last_byte() {
    let mut printer = fresh();
    // 12 dots a row, two rows, all dots set: 24 bits in three bytes
    printer.print_bitmap(12, 2, &[0xff, 0xff, 0xff]).unwrap();
    assert_eq!(
        ops(&printer),
        &vec![
            PortOp::Wait(500_000),
            w(&[29, b'v', 0, 0, 2, 0, 2, 0]),
            PortOp::Wait(0),
            w(&[0xff, 0xf0]),
            PortOp::Wait(0),
            w(&[0xff, 0xf0]),
        ]
    );
}

#[test]
fn print_bitmap_refuses_sizes_that_do_not_fit_the_data() {
    let mut printer = fresh();
    let before = printer.state();
    assert_eq!(
        printer.print_bitmap(384, 5, &vec![0u8; 48 * 5 - 1]),
        Err(PrinterError::Precondition)
    );
    assert_eq!(
        printer.print_bitmap(384, 5, &vec![0u8; 48 * 5 + 1]),
        Err(PrinterError::Precondition)
    );
    assert_eq!(
        printer.print_bitmap(0, 0, &[]),
        Err(PrinterError::Precondition)
    );
    assert_eq!(
        printer.print_bitmap(4104, 1, &vec![0u8; 513]),
        Err(PrinterError::Precondition)
    );
    assert_eq!(
        printer.print_bitmap(2048, 1, &vec![0u8; 256]),
        Err(PrinterError::Encoding)
    );
    assert!(ops(&printer).is_empty());
    assert_eq!(printer.state(), before);
}

#[test]
fn print_bitmap_without_rows_only_moves_the_cursor() {
    let mut printer = fresh();
    printer.write_char('a').unwrap();
    let sent = ops(&printer).len();
    printer.print_bitmap(8, 0, &[]).unwrap();
    assert_eq!(ops(&printer).len(), sent);
    let s = printer.state();
    assert_eq!((s.last_byte, s.last_column, s.pending_us), (b'\n', 0, 573));
}

#[test]
fn print_bitmap_stops_when_the_port_fails() {
    // wait, header, wait, row complete; the wait before the second row fails
    let mut printer = Printer::new(RecordingPort::failing_after(4));
    let data = vec![0xffu8; 48 * 5];
    assert_eq!(
        printer.print_bitmap(384, 5, &data),
        Err(PrinterError::Transport)
    );
    assert_eq!(
        ops(&printer),
        &vec![
            PortOp::Wait(500_000),
            w(&[29, b'v', 0, 0, 48, 0, 5, 0]),
            PortOp::Wait(0),
            w(&[0xffu8; 48]),
        ]
    );
}

#[test]
fn every_operation_reports_a_port_that_is_down() {
    let down = || Printer::new(RecordingPort::failing_after(0));
    assert_eq!(down().wait(), Err(PrinterError::Transport));
    assert_eq!(down().write_bytes(&[1]), Err(PrinterError::Transport));
    assert_eq!(down().write_char('a'), Err(PrinterError::Transport));
    assert_eq!(down().write("a"), Err(PrinterError::Transport));
    assert_eq!(down().cmd_feed(1), Err(PrinterError::Transport));
    assert_eq!(down().cmd_init(), Err(PrinterError::Transport));
    assert_eq!(down().init(), Err(PrinterError::Transport));
    assert_eq!(down().cmd_wake(), Err(PrinterError::Transport));
    assert_eq!(down().cmd_flush(), Err(PrinterError::Transport));
    assert_eq!(
        down().cmd_set_heat_config(1, 10, 10),
        Err(PrinterError::Transport)
    );
    assert_eq!(
        down().cmd_set_print_density(1, 250),
        Err(PrinterError::Transport)
    );
    assert_eq!(
        down().cmd_set_underline(Underline::Single),
        Err(PrinterError::Transport)
    );
    assert_eq!(down().set_barcode_height(5), Err(PrinterError::Transport));
    assert_eq!(down().cmd_test_page(), Err(PrinterError::Transport));
    assert_eq!(
        down().print_barcode("1", Barcode::UpcA),
        Err(PrinterError::Transport)
    );
    assert_eq!(
        down().print_bitmap(8, 1, &[0]),
        Err(PrinterError::Transport)
    );
    // a carriage return and a feed of no lines need no port
    assert_eq!(down().write_char('\r'), Ok(()));
    assert_eq!(down().cmd_feed(0), Ok(()));
}

#[test]
fn recording_port_counts_down_its_budget() {
    let mut port = RecordingPort::failing_after(2);
    assert!(port.write_bytes(&[1, 2]).is_ok());
    assert!(port.wait(7).is_ok());
    assert!(port.write_bytes(&[3]).is_err());
    assert!(port.wait(1).is_err());
    assert_eq!(port.ops, vec![w(&[1, 2]), PortOp::Wait(7)]);
    assert_eq!(port.written(), vec![1, 2]);
}

#[test]
fn states_with_a_zero_in_the_geometry_are_not_valid() {
    let good = fresh().state();
    assert!(good.is_valid());
    assert!(!PrinterState { max_column: 0, ..good }.is_valid());
    assert!(!PrinterState { char_height: 0, ..good }.is_valid());
    assert!(!PrinterState { inter_line_spacing: 0, ..good }.is_valid());
    assert!(!PrinterState { barcode_height: 0, ..good }.is_valid());
    // at the start of a line no column is counted
    assert!(!PrinterState { last_column: 3, ..good }.is_valid());
    assert!(PrinterState { last_byte: b'a', last_column: 3, ..good }.is_valid());
}

#[test]
fn every_operation_leaves_a_valid_state() {
    let mut printer = fresh();
    printer.init().unwrap();
    assert!(printer.state().is_valid());
    printer.write("hello\nworld").unwrap();
    assert!(printer.state().is_valid());
    printer.set_barcode_height(0).unwrap();
    assert!(printer.state().is_valid());
    printer.print_barcode("12345", Barcode::Itf).unwrap();
    assert!(printer.state().is_valid());
    printer.print_bitmap(16, 3, &[1, 2, 3, 4, 5, 6]).unwrap();
    assert!(printer.state().is_valid());
    printer.cmd_wake().unwrap();
    assert!(printer.state().is_valid());

    let mut down = Printer::new(RecordingPort::failing_after(5));
    assert!(down.write("some text").is_err());
    assert!(down.state().is_valid());
}
