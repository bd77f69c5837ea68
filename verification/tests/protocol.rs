use thermal_printer::error::PrinterError;
use thermal_printer::protocol::{
    barcode_command, barcode_height_command, barcode_text_command, barcode_width_command,
    duration_byte, feed_command, flush_command, heat_config_command, null_command,
    print_density_command, reset_command, sleep_off_command, tab_stops_command,
    test_page_command, underline_command, wake_command, Barcode, Charset, CodePage, Underline,
    CR, DC2, ESC, FF, FS, GS, LF, TAB,
};

#[test]
fn control_bytes_have_their_values() {
    assert_eq!(LF, 0x0A);
    assert_eq!(CR, 0x0D);
    assert_eq!(FF, 0x0C);
    assert_eq!(DC2, 0x12);
    assert_eq!(ESC, 0x1B);
    assert_eq!(FS, 0x1C);
    assert_eq!(GS, 0x1D);
    assert_eq!(TAB, 0x09);
}

#[test]
fn fixed_commands_have_their_bytes() {
    assert_eq!(reset_command(), vec![ESC, b'@']);
    assert_eq!(
        tab_stops_command(),
        vec![ESC, b'D', 4, 8, 12, 16, 20, 24, 28, 0]
    );
    assert_eq!(feed_command(7), vec![ESC, b'd', 7]);
    assert_eq!(wake_command(), vec![0xff]);
    assert_eq!(sleep_off_command(), vec![ESC, b'8', 0, 0]);
    assert_eq!(null_command(), vec![0]);
    assert_eq!(flush_command(), vec![FF]);
    assert_eq!(test_page_command(), vec![DC2, b'T']);
    assert_eq!(barcode_text_command(), vec![GS, b'H', 2]);
    assert_eq!(barcode_width_command(), vec![GS, b'w', 3]);
}

#[test]
fn duration_byte_drops_fractions() {
    assert_eq!(duration_byte(120, 10), Ok(12));
    assert_eq!(duration_byte(129, 10), Ok(12));
    assert_eq!(duration_byte(9, 10), Ok(0));
    assert_eq!(duration_byte(2_559, 10), Ok(255));
    assert_eq!(duration_byte(2_560, 10), Err(PrinterError::Encoding));
    assert_eq!(duration_byte(u64::MAX, 1), Err(PrinterError::Encoding));
}

#[test]
fn heat_config_command_carries_tens_of_microseconds() {
    assert_eq!(
        heat_config_command(11, 120, 40),
        Ok(vec![ESC, b'7', 11, 12, 4])
    );
    assert_eq!(
        heat_config_command(0, 0, 0),
        Ok(vec![ESC, b'7', 0, 0, 0])
    );
    assert_eq!(
        heat_config_command(11, 2_560, 40),
        Err(PrinterError::Encoding)
    );
    assert_eq!(
        heat_config_command(11, 120, 2_560),
        Err(PrinterError::Encoding)
    );
}

#[test]
fn print_density_command_packs_two_values() {
    assert_eq!(print_density_command(0, 0), Ok(vec![ESC, b'#', 0]));
    assert_eq!(
        print_density_command(31, 7 * 250),
        Ok(vec![ESC, b'#', 0xff])
    );
    // 8 units: the low three bits are clear
    assert_eq!(print_density_command(5, 8 * 250), Ok(vec![ESC, b'#', 5]));
    assert_eq!(
        print_density_command(5, 255 * 250 + 249),
        Ok(vec![ESC, b'#', 5 | 0xe0])
    );
    assert_eq!(
        print_density_command(5, 256 * 250),
        Err(PrinterError::Encoding)
    );
}

#[test]
fn underline_and_barcode_height_commands() {
    assert_eq!(underline_command(Underline::Off), vec![ESC, b'-', 0]);
    assert_eq!(underline_command(Underline::Single), vec![ESC, b'-', 1]);
    assert_eq!(underline_command(Underline::Double), vec![ESC, b'-', 2]);
    assert_eq!(barcode_height_command(0), vec![GS, b'h', 1]);
    assert_eq!(barcode_height_command(1), vec![GS, b'h', 1]);
    assert_eq!(barcode_height_command(255), vec![GS, b'h', 255]);
}

#[test]
fn barcode_command_has_two_forms() {
    assert_eq!(
        barcode_command(Barcode::Code128, 12, true),
        vec![GS, b'k', 73, 12]
    );
    assert_eq!(
        barcode_command(Barcode::Code128, 12, false),
        vec![GS, b'k', 8]
    );
    assert_eq!(barcode_command(Barcode::UpcA, 0, true), vec![GS, b'k', 65, 0]);
}

#[test]
fn enums_keep_the_printer_numbers() {
    assert_eq!(Underline::Off.level(), 0);
    assert_eq!(Underline::Double.level(), 2);
    assert_eq!(Barcode::UpcA.code(), 0);
    assert_eq!(Barcode::Code128.code(), 8);
    assert_eq!(Charset::Usa.code(), 0);
    assert_eq!(Charset::Japan.code(), 8);
    assert_eq!(Charset::China.code(), 15);
    assert_eq!(CodePage::Cp437C.code(), 0);
    assert_eq!(CodePage::Iran.code(), 10);
    // the numbers skip from 10 to 15
    assert_eq!(CodePage::Cp862.code(), 15);
    assert_eq!(CodePage::Iso8859_1.code(), 23);
    assert_eq!(CodePage::Cp874.code(), 47);
    assert!(Underline::Off < Underline::Single);
    assert!(Barcode::UpcA < Barcode::Code128);
    assert!(CodePage::Iran < CodePage::Cp862);
}
