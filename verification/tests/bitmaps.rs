use thermal_printer::bitmap::Bitmap;
use thermal_printer::chunker::{chunk_bitmap, chunk_header, pack_row, rechunk};
use thermal_printer::error::PrinterError;

#[test]
pub fn test_bit_chunks_64_8() {
    // an 8x8 byte array, rechunked at its own row width, comes back unchanged
    let bitmap = (0..64).into_iter().map(|x| x as u8).collect::<Vec<u8>>();

    let packed = rechunk(&bitmap, 64).unwrap();
    assert_eq!(packed.len(), 64);

    let mut i = 0;
    for chunk in packed.chunks(8) {
        for byte in chunk.iter() {
            assert_eq!(*byte, i);
            i += 1;
        }
    }
    assert_eq!(i, 64);
}

#[test]
pub fn test_bit_chunks_4_15() {
    // rows of 15 bits cross the byte boundaries of the source
    let bitmap = (0..4).into_iter().map(|x| x as u8).collect::<Vec<u8>>();
    let vals: [u8; 5] = [0, 0, 129, 0, 192]; // 192 = 1 1 MSB

    let packed = rechunk(&bitmap, 15).unwrap();
    println!("packed: {:?}", packed);
    assert_eq!(packed.len(), vals.len());
    let mut i = 0;
    for byte in packed.iter() {
        assert_eq!(*byte, vals[i]);
        i += 1;
    }
}

#[test]
fn rechunk_refuses_zero_width() {
    assert_eq!(rechunk(&[1, 2, 3], 0), Err(PrinterError::Precondition));
}

#[test]
fn rechunk_of_nothing_is_nothing() {
    assert_eq!(rechunk(&[], 8), Ok(vec![]));
}

#[test]
fn rechunk_at_one_bit_spreads_the_bits() {
    // 0b1010_0000: each bit becomes the top bit of a byte of its own
    assert_eq!(
        rechunk(&[0xA0], 1),
        Ok(vec![0x80, 0, 0x80, 0, 0, 0, 0, 0])
    );
}

#[test]
fn from_bytes_reads_most_significant_bit_first() {
    let bitmap = Bitmap::from_bytes(8, 2, &[0b1000_0001, 0b0100_0000]).unwrap();
    assert_eq!(bitmap.width(), 8);
    assert_eq!(bitmap.height(), 2);
    assert_eq!(bitmap.get(0, 0), Some(true));
    assert_eq!(bitmap.get(0, 1), Some(false));
    assert_eq!(bitmap.get(0, 7), Some(true));
    assert_eq!(bitmap.get(1, 0), Some(false));
    assert_eq!(bitmap.get(1, 1), Some(true));
    assert_eq!(bitmap.get(2, 0), None);
    assert_eq!(bitmap.get(0, 8), None);
}

#[test]
fn from_bytes_refuses_sizes_that_do_not_fit() {
    assert!(matches!(
        Bitmap::from_bytes(8, 2, &[0]),
        Err(PrinterError::Precondition)
    ));
    assert!(matches!(
        Bitmap::from_bytes(8, 2, &[0, 0, 0]),
        Err(PrinterError::Precondition)
    ));
    assert!(matches!(
        Bitmap::from_bytes(usize::MAX, 2, &[0]),
        Err(PrinterError::Precondition)
    ));
    // 3 x 3 dots are 9 bits, which take two bytes
    assert!(Bitmap::from_bytes(3, 3, &[0xff, 0x80]).is_ok());
    assert!(Bitmap::from_bytes(0, 0, &[]).is_ok());
}

#[test]
fn new_bitmap_is_blank() {
    let bitmap = Bitmap::new(5, 3).unwrap();
    assert_eq!(bitmap.width(), 5);
    assert_eq!(bitmap.height(), 3);
    for row in 0..3 {
        for col in 0..5 {
            assert_eq!(bitmap.get(row, col), Some(false));
        }
    }
    assert!(matches!(
        Bitmap::new(usize::MAX, usize::MAX),
        Err(PrinterError::Precondition)
    ));
}

#[test]
fn from_luma_sets_dots_above_the_threshold() {
    let bitmap = Bitmap::from_luma(3, 2, &[0, 1, 128, 129, 255, 0], 128).unwrap();
    assert_eq!(bitmap.get(0, 0), Some(false));
    assert_eq!(bitmap.get(0, 1), Some(false));
    assert_eq!(bitmap.get(0, 2), Some(false));
    assert_eq!(bitmap.get(1, 0), Some(true));
    assert_eq!(bitmap.get(1, 1), Some(true));
    assert_eq!(bitmap.get(1, 2), Some(false));
    let any = Bitmap::from_luma(3, 1, &[0, 1, 2], 0).unwrap();
    assert_eq!(any.get(0, 0), Some(false));
    assert_eq!(any.get(0, 1), Some(true));
    assert!(matches!(
        Bitmap::from_luma(3, 2, &[0, 1, 2], 0),
        Err(PrinterError::Precondition)
    ));
}

#[test]
fn pack_row_pads_with_zero_bits() {
    // 12 dots a row, all set: the second byte of a row holds four dots and four zeros
    let bitmap = Bitmap::from_bytes(12, 2, &[0xff, 0xff, 0xff]).unwrap();
    assert_eq!(pack_row(&bitmap, 0), Some(vec![0xff, 0xf0]));
    assert_eq!(pack_row(&bitmap, 1), Some(vec![0xff, 0xf0]));
    assert_eq!(pack_row(&bitmap, 2), None);
}

#[test]
fn pack_row_round_trips_when_width_is_a_multiple_of_eight() {
    let bytes: Vec<u8> = (0..48u32).map(|x| (x * 37 % 251) as u8).collect();
    let bitmap = Bitmap::from_bytes(16, 24, &bytes).unwrap();
    let mut back: Vec<u8> = Vec::new();
    for row in 0..24 {
        back.extend(pack_row(&bitmap, row).unwrap());
    }
    assert_eq!(back, bytes);
}

#[test]
fn chunk_header_splits_the_row_count() {
    assert_eq!(chunk_header(5, 48), vec![0x1d, b'v', 0, 0, 48, 0, 5, 0]);
    assert_eq!(chunk_header(0x1234, 1), vec![0x1d, b'v', 0, 0, 1, 0, 0x34, 0x12]);
}

#[test]
fn chunks_fill_the_buffer_and_leave_a_rest() {
    // 384 dots a row and a buffer of 512 bytes: ten rows fit, 4096 / 384
    let bitmap = Bitmap::from_bytes(384, 25, &vec![0xffu8; 48 * 25]).unwrap();
    let chunks = chunk_bitmap(&bitmap, 512).unwrap();
    assert_eq!(chunks.len(), 3);
    assert_eq!(chunks[0].rows.len(), 10);
    assert_eq!(chunks[1].rows.len(), 10);
    assert_eq!(chunks[2].rows.len(), 5);
    assert_eq!(chunks[0].header, vec![0x1d, b'v', 0, 0, 48, 0, 10, 0]);
    assert_eq!(chunks[2].header, vec![0x1d, b'v', 0, 0, 48, 0, 5, 0]);
    for chunk in chunks.iter() {
        for row in chunk.rows.iter() {
            assert_eq!(row, &vec![0xffu8; 48]);
        }
        assert!(chunk.rows.len() * 384 <= 512 * 8);
    }
}

#[test]
fn chunking_refuses_what_cannot_be_sent() {
    let empty = Bitmap::new(0, 0).unwrap();
    assert!(matches!(
        chunk_bitmap(&empty, 512),
        Err(PrinterError::Precondition)
    ));
    // a row of 4097 dots does not fit a buffer of 4096 bits
    let wide = Bitmap::new(4097, 1).unwrap();
    assert!(matches!(
        chunk_bitmap(&wide, 512),
        Err(PrinterError::Precondition)
    ));
    // a row of 2048 dots fits the buffer, but its 256 bytes do not fit the header
    let long = Bitmap::new(2048, 1).unwrap();
    assert!(matches!(chunk_bitmap(&long, 512), Err(PrinterError::Encoding)));
    // 2040 dots are 255 bytes
    let fits = Bitmap::new(2040, 1).unwrap();
    assert_eq!(chunk_bitmap(&fits, 512).unwrap().len(), 1);
    // one dot a row, and a buffer that takes more rows than two bytes can count
    let tall = Bitmap::new(1, 70_000).unwrap();
    assert!(matches!(
        chunk_bitmap(&tall, 10_000),
        Err(PrinterError::Encoding)
    ));
    assert_eq!(chunk_bitmap(&tall, 512).unwrap().len(), 18);
}

#[test]
fn a_bitmap_without_rows_has_no_chunks() {
    let bitmap = Bitmap::new(8, 0).unwrap();
    assert_eq!(chunk_bitmap(&bitmap, 512).unwrap().len(), 0);
}
