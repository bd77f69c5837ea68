use thermal_printer::bitmap::Bitmap;
use thermal_printer::error::PrinterError;

fn rows(bitmap: &Bitmap) -> Vec<String> {
    (0..bitmap.height())
        .map(|row| bitmap.row_text(row).unwrap())
        .collect()
}

#[test]
fn row_text_draws_set_dots() {
    let bitmap = Bitmap::from_bytes(4, 2, &[0b1010_0110]).unwrap();
    assert_eq!(bitmap.row_text(0), Some("# # ".to_string()));
    assert_eq!(bitmap.row_text(1), Some(" ## ".to_string()));
    assert_eq!(bitmap.row_text(2), None);
    let empty = Bitmap::new(0, 1).unwrap();
    assert_eq!(empty.row_text(0), Some(String::new()));
}

#[test]
fn blit_copies_the_source_and_leaves_the_rest() {
    let mut canvas = Bitmap::from_luma(5, 4, &[1u8; 20], 0).unwrap();
    // a 2 x 2 chessboard
    let src = Bitmap::from_bytes(2, 2, &[0b1001_0000]).unwrap();
    canvas.blit(&src, 1, 2).unwrap();
    assert_eq!(
        rows(&canvas),
        vec!["#####", "#####", "## ##", "# ###"]
    );
    assert_eq!(canvas.width(), 5);
    assert_eq!(canvas.height(), 4);
}

#[test]
fn blit_into_the_corner_fits_exactly() {
    let mut canvas = Bitmap::new(3, 3).unwrap();
    let src = Bitmap::from_luma(2, 2, &[9, 9, 9, 9], 0).unwrap();
    canvas.blit(&src, 1, 1).unwrap();
    assert_eq!(rows(&canvas), vec!["   ", " ##", " ##"]);
}

#[test]
fn blit_over_the_whole_canvas_replaces_it() {
    let mut canvas = Bitmap::new(3, 2).unwrap();
    let src = Bitmap::from_luma(3, 2, &[1, 0, 1, 0, 1, 0], 0).unwrap();
    canvas.blit(&src, 0, 0).unwrap();
    assert_eq!(rows(&canvas), vec!["# #", " # "]);
}

#[test]
fn blit_refuses_a_source_that_sticks_out() {
    let mut canvas = Bitmap::new(3, 3).unwrap();
    let src = Bitmap::from_luma(2, 2, &[9, 9, 9, 9], 0).unwrap();
    assert_eq!(canvas.blit(&src, 2, 0), Err(PrinterError::Precondition));
    assert_eq!(canvas.blit(&src, 0, 2), Err(PrinterError::Precondition));
    assert_eq!(
        canvas.blit(&src, usize::MAX, 0),
        Err(PrinterError::Precondition)
    );
    assert_eq!(
        canvas.blit(&src, 0, usize::MAX),
        Err(PrinterError::Precondition)
    );
    assert_eq!(rows(&canvas), vec!["   ", "   ", "   "]);
}

#[test]
fn blit_of_nothing_changes_nothing() {
    let mut canvas = Bitmap::from_luma(2, 2, &[1, 0, 0, 1], 0).unwrap();
    let nothing = Bitmap::new(0, 0).unwrap();
    canvas.blit(&nothing, 2, 2).unwrap();
    assert_eq!(rows(&canvas), vec!["# ", " #"]);
}
