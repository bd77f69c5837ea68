//! The bitmap chunker: rows of dots packed into bytes, and cut into pieces that fit the
//! printer's raster buffer.
//!
//! A row of `width` dots becomes `ceil(width / 8)` bytes. Dot `i` of the row is bit
//! `i % 8` of byte `i / 8`, most significant bit first, and what is left of the last byte
//! is zero. Rows are sent in chunks; each chunk starts with a header that says how many
//! rows follow and how wide they are.

use crate::bitmap::{bytes_for, lemma_cell_index, Bitmap, BitmapView};
use crate::bits::{
    bit_at, bit_weight, byte_bit, store_from_bytes, store_get, stored_bits, unpacked, weight_of,
    BitBuf,
};
use crate::error::PrinterError;
use crate::protocol::GS;
use vstd::prelude::*;

verus! {

/// What bit `start + k` adds to the byte that begins at bit `start`: its weight if it is
/// set and lies before `end`, else nothing.
pub open spec fn bit_value(bits: Seq<bool>, start: int, end: int, k: int) -> int {
    if start + k < end && bits[start + k] {
        bit_weight(k)
    } else {
        0
    }
}

/// The sum of what the first `k` bits from `start` add to their byte.
pub open spec fn packed_prefix(bits: Seq<bool>, start: int, end: int, k: int) -> int
    decreases k,
{
    if k <= 0 {
        0
    } else {
        packed_prefix(bits, start, end, k - 1) + bit_value(bits, start, end, k - 1)
    }
}

/// The byte that holds the eight bits from `start`, most significant first; bits at or
/// past `end` count as clear.
pub open spec fn packed_byte(bits: Seq<bool>, start: int, end: int) -> u8 {
    packed_prefix(bits, start, end, 8) as u8
}

/// The bits from `start` up to `end`, packed into as few bytes as hold them.
pub open spec fn packed_range(bits: Seq<bool>, start: int, end: int) -> Seq<u8> {
    Seq::new(bytes_for(end - start) as nat, |j: int| packed_byte(bits, start + 8 * j, end))
}

/// The packed bytes of one row of a bitmap.
pub open spec fn packed_row(bitmap: BitmapView, row: int) -> Seq<u8> {
    packed_range(bitmap.bits, row * bitmap.width, (row + 1) * bitmap.width)
}

/// A bit sequence cut into rows of `width` bits from `start` on, each row packed by
/// itself; the last row may be shorter.
pub open spec fn rechunked(bits: Seq<bool>, width: int, start: int) -> Seq<u8>
    decreases bits.len() - start,
{
    if width <= 0 || start < 0 || start >= bits.len() {
        Seq::empty()
    } else {
        let end = if start + width <= bits.len() {
            start + width
        } else {
            bits.len() as int
        };
        packed_range(bits, start, end) + rechunked(bits, width, end)
    }
}

/// The header of a raster chunk of `rows` rows, each `row_bytes` bytes wide.
pub open spec fn raster_header(rows: int, row_bytes: int) -> Seq<u8> {
    seq![GS, 118u8, 0u8, 0u8, row_bytes as u8, 0u8, (rows % 256) as u8, (rows / 256) as u8]
}

/// How many chunks a bitmap of `height` rows makes, at `max_rows` rows a chunk.
pub open spec fn chunk_count(height: int, max_rows: int) -> int
    recommends
        max_rows > 0,
{
    (height + max_rows - 1) / max_rows
}

/// How many rows chunk `index` holds: `max_rows`, or what is left for the last one.
pub open spec fn chunk_rows(height: int, max_rows: int, index: int) -> int {
    if (index + 1) * max_rows <= height {
        max_rows
    } else {
        height - index * max_rows
    }
}

/// What a chunk is: its header and its packed rows.
pub struct ChunkView {
    /// The command that announces the rows.
    pub header: Seq<u8>,
    /// The rows, each packed into bytes.
    pub rows: Seq<Seq<u8>>,
}

/// Chunk `index` of a bitmap, at `max_rows` rows a chunk.
pub open spec fn chunk_at(bitmap: BitmapView, max_rows: int, index: int) -> ChunkView {
    let rows = chunk_rows(bitmap.height as int, max_rows, index);
    ChunkView {
        header: raster_header(rows, bytes_for(bitmap.width as int)),
        rows: Seq::new(rows as nat, |r: int| packed_row(bitmap, index * max_rows + r)),
    }
}

/// All the chunks of a bitmap, at `max_rows` rows a chunk.
pub open spec fn spec_chunks(bitmap: BitmapView, max_rows: int) -> Seq<ChunkView> {
    Seq::new(
        chunk_count(bitmap.height as int, max_rows) as nat,
        |c: int| chunk_at(bitmap, max_rows, c),
    )
}

/// Rows of `width` dots that fit a raster buffer of `buffer_bytes` bytes.
pub open spec fn rows_per_chunk(width: int, buffer_bytes: int) -> int
    recommends
        width > 0,
{
    (8 * buffer_bytes) / width
}

/// Why a bitmap cannot be chunked for a buffer of `buffer_bytes` bytes, if it cannot.
///
/// It does not fit when it has no width, or when not even one row fits the buffer. It
/// cannot be encoded when a row is wider than 255 bytes, or when a chunk would hold more
/// than 65535 rows.
pub open spec fn chunking_error(bitmap: BitmapView, buffer_bytes: int) -> Option<PrinterError> {
    let max_rows = rows_per_chunk(bitmap.width as int, buffer_bytes);
    if bitmap.width == 0 || max_rows < 1 {
        Some(PrinterError::Precondition)
    } else if bytes_for(bitmap.width as int) > 255 || (max_rows > 65535 && bitmap.height
        > 65535) {
        Some(PrinterError::Encoding)
    } else {
        None
    }
}

/// One raster chunk, ready to send.
pub struct Chunk {
    /// The command that announces the rows.
    pub header: Vec<u8>,
    /// The rows, each packed into bytes.
    pub rows: Vec<Vec<u8>>,
}

impl View for Chunk {
    type V = ChunkView;

    open spec fn view(&self) -> ChunkView {
        ChunkView { header: self.header@, rows: self.rows@.map_values(|row: Vec<u8>| row@) }
    }
}

/// What a list of chunks is.
pub open spec fn chunk_views(chunks: Seq<Chunk>) -> Seq<ChunkView> {
    chunks.map_values(|chunk: Chunk| chunk@)
}

/// The bits of a byte that is the sum of the weights of the bits set in it.
proof fn lemma_bits_of_sum(
    b0: bool,
    b1: bool,
    b2: bool,
    b3: bool,
    b4: bool,
    b5: bool,
    b6: bool,
    b7: bool,
    v: u32,
)
    by (bit_vector)
    requires
        v == (if b0 {
            128u32
        } else {
            0u32
        }) + (if b1 {
            64u32
        } else {
            0u32
        }) + (if b2 {
            32u32
        } else {
            0u32
        }) + (if b3 {
            16u32
        } else {
            0u32
        }) + (if b4 {
            8u32
        } else {
            0u32
        }) + (if b5 {
            4u32
        } else {
            0u32
        }) + (if b6 {
            2u32
        } else {
            0u32
        }) + (if b7 {
            1u32
        } else {
            0u32
        }),
    ensures
        v <= 255,
        ((v / 128) % 2 == 1) == b0,
        ((v / 64) % 2 == 1) == b1,
        ((v / 32) % 2 == 1) == b2,
        ((v / 16) % 2 == 1) == b3,
        ((v / 8) % 2 == 1) == b4,
        ((v / 4) % 2 == 1) == b5,
        ((v / 2) % 2 == 1) == b6,
        ((v / 1) % 2 == 1) == b7,
{
}

/// A packed byte gives back each of its bits: bit `k` is the bit at `start + k`, and
/// clear at or past `end`.
pub proof fn lemma_packed_byte_bit(bits: Seq<bool>, start: int, end: int, k: int)
    requires
        0 <= k < 8,
    ensures
        byte_bit(packed_byte(bits, start, end), k) == (start + k < end && bits[start + k]),
        0 <= packed_prefix(bits, start, end, 8) <= 255,
{
    let b0 = start + 0 < end && bits[start + 0];
    let b1 = start + 1 < end && bits[start + 1];
    let b2 = start + 2 < end && bits[start + 2];
    let b3 = start + 3 < end && bits[start + 3];
    let b4 = start + 4 < end && bits[start + 4];
    let b5 = start + 5 < end && bits[start + 5];
    let b6 = start + 6 < end && bits[start + 6];
    let b7 = start + 7 < end && bits[start + 7];
    let total = packed_prefix(bits, start, end, 8);
    assert(total == bit_value(bits, start, end, 0) + bit_value(bits, start, end, 1) + bit_value(
        bits,
        start,
        end,
        2,
    ) + bit_value(bits, start, end, 3) + bit_value(bits, start, end, 4) + bit_value(
        bits,
        start,
        end,
        5,
    ) + bit_value(bits, start, end, 6) + bit_value(bits, start, end, 7)) by {
        reveal_with_fuel(packed_prefix, 9);
    }
    assert(0 <= total <= 255);
    let v = total as u32;
    lemma_bits_of_sum(b0, b1, b2, b3, b4, b5, b6, b7, v);
}

/// Packing loses nothing: bit `i` of the packed range is bit `start + i` of the source.
pub proof fn law_packing_keeps_bits(bits: Seq<bool>, start: int, end: int, i: int)
    requires
        0 <= start <= end <= bits.len(),
        0 <= i < end - start,
    ensures
        i / 8 < packed_range(bits, start, end).len(),
        bit_at(packed_range(bits, start, end), i) == bits[start + i],
{
    lemma_packed_byte_bit(bits, start + 8 * (i / 8), end, i % 8);
}

/// The bits that pad the last byte of a packed range are clear.
pub proof fn law_padding_is_clear(bits: Seq<bool>, start: int, end: int, i: int)
    requires
        0 <= start <= end <= bits.len(),
        end - start <= i < 8 * bytes_for(end - start),
    ensures
        !bit_at(packed_range(bits, start, end), i),
{
    lemma_packed_byte_bit(bits, start + 8 * (i / 8), end, i % 8);
}

/// Round trip: a range whose length is a multiple of 8 unpacks to itself.
pub proof fn law_round_trip(bits: Seq<bool>, start: int, end: int)
    requires
        0 <= start <= end <= bits.len(),
        (end - start) % 8 == 0,
    ensures
        unpacked(packed_range(bits, start, end)) == bits.subrange(start, end),
{
    let packed = packed_range(bits, start, end);
    assert(unpacked(packed).len() == end - start);
    assert forall|i: int| 0 <= i < end - start implies unpacked(packed)[i] == bits.subrange(
        start,
        end,
    )[i] by {
        law_packing_keeps_bits(bits, start, end, i);
    }
    assert(unpacked(packed) =~= bits.subrange(start, end));
}

/// Round trip for a bitmap whose width is a multiple of 8: every row of every chunk
/// unpacks to the row of the bitmap that it was made from.
pub proof fn law_chunk_rows_round_trip(bitmap: BitmapView, max_rows: int, chunk: int, r: int)
    requires
        bitmap.wf(),
        bitmap.width % 8 == 0,
        max_rows >= 1,
        0 <= chunk < chunk_count(bitmap.height as int, max_rows),
        0 <= r < chunk_rows(bitmap.height as int, max_rows, chunk),
    ensures
        chunk * max_rows + r < bitmap.height,
        spec_chunks(bitmap, max_rows)[chunk].rows[r] == packed_row(
            bitmap,
            chunk * max_rows + r,
        ),
        unpacked(spec_chunks(bitmap, max_rows)[chunk].rows[r]) == bitmap.row(
            chunk * max_rows + r,
        ),
{
    lemma_chunk_rows(bitmap.height as int, max_rows, chunk);
    let row = chunk * max_rows + r;
    if bitmap.width == 0 {
        assert(row * 0 == 0 && (row + 1) * 0 == 0) by (nonlinear_arith);
    } else {
        lemma_cell_index(bitmap.width as int, bitmap.height as int, row, 0);
    }
    law_round_trip(bitmap.bits, row * bitmap.width, (row + 1) * bitmap.width);
}

/// In every chunk of a bitmap, the padding bits of every row are clear, and the other
/// bits are the dots of the row.
pub proof fn law_chunk_rows_hold_the_dots(
    bitmap: BitmapView,
    max_rows: int,
    chunk: int,
    r: int,
    i: int,
)
    requires
        bitmap.wf(),
        bitmap.width > 0,
        max_rows >= 1,
        0 <= chunk < chunk_count(bitmap.height as int, max_rows),
        0 <= r < chunk_rows(bitmap.height as int, max_rows, chunk),
        0 <= i < 8 * bytes_for(bitmap.width as int),
    ensures
        chunk * max_rows + r < bitmap.height,
        spec_chunks(bitmap, max_rows)[chunk].rows[r].len() == bytes_for(bitmap.width as int),
        bit_at(spec_chunks(bitmap, max_rows)[chunk].rows[r], i) == (i < bitmap.width
            && bitmap.dot(chunk * max_rows + r, i)),
{
    lemma_chunk_rows(bitmap.height as int, max_rows, chunk);
    let row = chunk * max_rows + r;
    lemma_cell_index(bitmap.width as int, bitmap.height as int, row, 0);
    if i < bitmap.width {
        law_packing_keeps_bits(bitmap.bits, row * bitmap.width, (row + 1) * bitmap.width, i);
    } else {
        law_padding_is_clear(bitmap.bits, row * bitmap.width, (row + 1) * bitmap.width, i);
    }
}

/// A byte is the sum of the weights of its set bits.
proof fn lemma_sum_of_bits(v: u8)
    by (bit_vector)
    ensures
        v == (if (v / 128) % 2 == 1 {
            128u8
        } else {
            0u8
        }) + (if (v / 64) % 2 == 1 {
            64u8
        } else {
            0u8
        }) + (if (v / 32) % 2 == 1 {
            32u8
        } else {
            0u8
        }) + (if (v / 16) % 2 == 1 {
            16u8
        } else {
            0u8
        }) + (if (v / 8) % 2 == 1 {
            8u8
        } else {
            0u8
        }) + (if (v / 4) % 2 == 1 {
            4u8
        } else {
            0u8
        }) + (if (v / 2) % 2 == 1 {
            2u8
        } else {
            0u8
        }) + (if (v / 1) % 2 == 1 {
            1u8
        } else {
            0u8
        }),
{
}

/// A packed range in two pieces: when the first piece fills its bytes, the pieces packed
/// one after the other are the whole packed at once.
pub proof fn lemma_packed_range_split(bits: Seq<bool>, start: int, mid: int, end: int)
    requires
        0 <= start <= mid <= end <= bits.len(),
        (mid - start) % 8 == 0,
    ensures
        packed_range(bits, start, mid) + packed_range(bits, mid, end) == packed_range(
            bits,
            start,
            end,
        ),
{
    let first = packed_range(bits, start, mid);
    let second = packed_range(bits, mid, end);
    let whole = packed_range(bits, start, end);
    assert((first + second).len() == whole.len());
    assert forall|j: int| 0 <= j < whole.len() implies (first + second)[j] == whole[j] by {
        if j < first.len() {
            // every bit of this byte lies before `mid`, so the limit does not matter
            reveal_with_fuel(packed_prefix, 9);
        }
    }
    assert(first + second =~= whole);
}

/// Cutting into rows changes nothing when the rows fill their bytes: the rows packed one
/// after the other are the bits packed at once.
pub proof fn law_rechunk_is_packing(bits: Seq<bool>, width: int, start: int)
    requires
        width > 0,
        width % 8 == 0,
        0 <= start <= bits.len(),
    ensures
        rechunked(bits, width, start) == packed_range(bits, start, bits.len() as int),
    decreases bits.len() - start,
{
    let len = bits.len() as int;
    if start >= len {
        assert(packed_range(bits, start, len) =~= Seq::<u8>::empty());
    } else if start + width <= len {
        law_rechunk_is_packing(bits, width, start + width);
        lemma_packed_range_split(bits, start, start + width, len);
    } else {
        law_rechunk_is_packing(bits, width, len);
        assert(packed_range(bits, start, len) + Seq::<u8>::empty() =~= packed_range(
            bits,
            start,
            len,
        ));
    }
}

/// Packing undoes unpacking: the bits of bytes, packed, are the bytes.
pub proof fn law_pack_unpack(bytes: Seq<u8>)
    ensures
        packed_range(unpacked(bytes), 0, 8 * (bytes.len() as int)) == bytes,
{
    let bits = unpacked(bytes);
    let end = 8 * (bytes.len() as int);
    let packed = packed_range(bits, 0, end);
    assert(packed.len() == bytes.len());
    assert forall|j: int| 0 <= j < bytes.len() implies packed[j] == bytes[j] by {
        let v = bytes[j];
        lemma_sum_of_bits(v);
        assert forall|k: int| 0 <= k < 8 implies bits[8 * j + k] == byte_bit(v, k) by {
            assert((8 * j + k) / 8 == j && (8 * j + k) % 8 == k);
        }
        reveal_with_fuel(packed_prefix, 9);
        assert(bit_value(bits, 8 * j, end, 0) == if byte_bit(v, 0) {
            128int
        } else {
            0int
        });
        assert(bit_value(bits, 8 * j, end, 1) == if byte_bit(v, 1) {
            64int
        } else {
            0int
        });
        assert(bit_value(bits, 8 * j, end, 2) == if byte_bit(v, 2) {
            32int
        } else {
            0int
        });
        assert(bit_value(bits, 8 * j, end, 3) == if byte_bit(v, 3) {
            16int
        } else {
            0int
        });
        assert(bit_value(bits, 8 * j, end, 4) == if byte_bit(v, 4) {
            8int
        } else {
            0int
        });
        assert(bit_value(bits, 8 * j, end, 5) == if byte_bit(v, 5) {
            4int
        } else {
            0int
        });
        assert(bit_value(bits, 8 * j, end, 6) == if byte_bit(v, 6) {
            2int
        } else {
            0int
        });
        assert(bit_value(bits, 8 * j, end, 7) == if byte_bit(v, 7) {
            1int
        } else {
            0int
        });
    }
    assert(packed =~= bytes);
}

/// Bytes that are cut into rows which fill their bytes come back as they were.
pub proof fn law_rechunk_identity(bytes: Seq<u8>, width: int)
    requires
        width > 0,
        width % 8 == 0,
    ensures
        rechunked(unpacked(bytes), width, 0) == bytes,
{
    law_rechunk_is_packing(unpacked(bytes), width, 0);
    law_pack_unpack(bytes);
}

/// The bytes of packed rows, one row after the other.
pub open spec fn rows_payload(rows: Seq<Seq<u8>>) -> Seq<u8>
    decreases rows.len(),
{
    if rows.len() == 0 {
        Seq::empty()
    } else {
        rows_payload(rows.drop_last()) + rows.last()
    }
}

/// The bytes of the rows of chunks, one chunk after the other, the headers left out.
pub open spec fn chunks_payload(chunks: Seq<ChunkView>) -> Seq<u8>
    decreases chunks.len(),
{
    if chunks.len() == 0 {
        Seq::empty()
    } else {
        chunks_payload(chunks.drop_last()) + rows_payload(chunks.last().rows)
    }
}

/// A multiple of a multiple of 8 is a multiple of 8.
proof fn lemma_multiple_of_eight(n: int, w: int)
    requires
        w % 8 == 0,
    ensures
        (n * w) % 8 == 0,
{
    let k = w / 8;
    assert(n * w == 8 * (n * k)) by (nonlinear_arith)
        requires
            w == 8 * k,
    ;
}

/// The rows `first` up to `first + count` of a bitmap whose rows fill their bytes,
/// packed one after the other, are that stretch of its bits packed at once.
proof fn lemma_rows_payload(bitmap: BitmapView, first: int, count: int)
    requires
        bitmap.wf(),
        bitmap.width % 8 == 0,
        0 <= first,
        0 <= count,
        first + count <= bitmap.height,
    ensures
        0 <= first * bitmap.width <= (first + count) * bitmap.width <= bitmap.bits.len(),
        rows_payload(Seq::new(count as nat, |r: int| packed_row(bitmap, first + r)))
            == packed_range(bitmap.bits, first * bitmap.width, (first + count) * bitmap.width),
    decreases count,
{
    let w = bitmap.width as int;
    let rows = Seq::new(count as nat, |r: int| packed_row(bitmap, first + r));
    assert(0 <= first * w <= (first + count) * w <= w * bitmap.height && (first + count) * w
        == first * w + count * w) by (nonlinear_arith)
        requires
            0 <= first,
            0 <= count,
            first + count <= bitmap.height,
            0 <= w,
    ;
    if count == 0 {
        assert(packed_range(bitmap.bits, first * w, first * w) =~= Seq::<u8>::empty());
    } else {
        lemma_rows_payload(bitmap, first, count - 1);
        assert(rows.drop_last() =~= Seq::new(
            (count - 1) as nat,
            |r: int| packed_row(bitmap, first + r),
        ));
        let last = first + count - 1;
        assert((last + 1) * w == last * w + w && last * w == first * w + (count - 1) * w)
            by (nonlinear_arith)
            requires
                last == first + count - 1,
                count >= 1,
                0 <= w,
        ;
        lemma_multiple_of_eight(count - 1, w);
        lemma_packed_range_split(bitmap.bits, first * w, last * w, (last + 1) * w);
    }
}

/// The first `count` chunks of a bitmap whose rows fill their bytes hold, row after row,
/// the bits of the rows before row `min(count * max_rows, height)`, packed at once.
proof fn lemma_chunks_payload(bitmap: BitmapView, max_rows: int, count: int)
    requires
        bitmap.wf(),
        bitmap.width % 8 == 0,
        max_rows >= 1,
        0 <= count <= chunk_count(bitmap.height as int, max_rows),
    ensures
        chunks_payload(spec_chunks(bitmap, max_rows).take(count)) == packed_range(
            bitmap.bits,
            0,
            (if count * max_rows <= bitmap.height {
                count * max_rows
            } else {
                bitmap.height as int
            }) * bitmap.width,
        ),
    decreases count,
{
    let w = bitmap.width as int;
    let h = bitmap.height as int;
    let chunks = spec_chunks(bitmap, max_rows);
    if count == 0 {
        assert(0 * max_rows == 0 && 0 * w == 0) by (nonlinear_arith);
        assert(packed_range(bitmap.bits, 0, 0) =~= Seq::<u8>::empty());
    } else {
        let c = count - 1;
        lemma_chunks_payload(bitmap, max_rows, c);
        lemma_chunk_rows(h, max_rows, c);
        let rows = chunk_rows(h, max_rows, c);
        let first = c * max_rows;
        assert((c + 1) * max_rows == c * max_rows + max_rows) by (nonlinear_arith);
        lemma_rows_payload(bitmap, first, rows);
        assert(chunks.take(count).drop_last() =~= chunks.take(c));
        assert(chunks.take(count).last() == chunk_at(bitmap, max_rows, c));
        assert(chunk_at(bitmap, max_rows, c).rows =~= Seq::new(
            rows as nat,
            |r: int| packed_row(bitmap, first + r),
        ));
        assert(0 * w == 0) by (nonlinear_arith);
        lemma_multiple_of_eight(first, w);
        lemma_packed_range_split(bitmap.bits, 0, first * w, (first + rows) * w);
    }
}

/// Round trip: for a bitmap whose width is a multiple of 8, the rows of all its chunks,
/// taken together and unpacked, are the bits of the bitmap.
pub proof fn law_chunks_round_trip(bitmap: BitmapView, max_rows: int)
    requires
        bitmap.wf(),
        bitmap.width % 8 == 0,
        max_rows >= 1,
    ensures
        unpacked(chunks_payload(spec_chunks(bitmap, max_rows))) == bitmap.bits,
{
    let h = bitmap.height as int;
    let w = bitmap.width as int;
    let count = chunk_count(h, max_rows);
    let chunks = spec_chunks(bitmap, max_rows);
    assert(0 <= count && count * max_rows >= h && h * w == w * h) by (nonlinear_arith)
        requires
            0 <= h,
            0 <= w,
            max_rows >= 1,
            count == (h + max_rows - 1) / max_rows,
    ;
    lemma_multiple_of_eight(h, w);
    lemma_chunks_payload(bitmap, max_rows, count);
    assert(chunks.take(count) =~= chunks);
    law_round_trip(bitmap.bits, 0, h * w);
    assert(bitmap.bits.subrange(0, h * w) =~= bitmap.bits);
}

/// Every chunk of a bitmap fits the raster buffer that it was cut for, and the chunks are
/// as many as the height needs.
pub proof fn law_chunks_fit_the_buffer(bitmap: BitmapView, buffer_bytes: int, chunk: int)
    requires
        bitmap.wf(),
        buffer_bytes >= 0,
        chunking_error(bitmap, buffer_bytes) is None,
        0 <= chunk < chunk_count(
            bitmap.height as int,
            rows_per_chunk(bitmap.width as int, buffer_bytes),
        ),
    ensures
        spec_chunks(bitmap, rows_per_chunk(bitmap.width as int, buffer_bytes)).len()
            == chunk_count(bitmap.height as int, rows_per_chunk(bitmap.width as int, buffer_bytes)),
        spec_chunks(bitmap, rows_per_chunk(bitmap.width as int, buffer_bytes))[chunk].rows.len()
            * bitmap.width <= 8 * buffer_bytes,
        1 <= spec_chunks(
            bitmap,
            rows_per_chunk(bitmap.width as int, buffer_bytes),
        )[chunk].rows.len() <= 65535,
{
    let w = bitmap.width as int;
    let h = bitmap.height as int;
    let m = rows_per_chunk(w, buffer_bytes);
    lemma_chunk_rows(h, m, chunk);
    let rows = chunk_rows(h, m, chunk);
    assert(rows * w <= 8 * buffer_bytes) by (nonlinear_arith)
        requires
            0 <= rows <= m,
            m == (8 * buffer_bytes) / w,
            w > 0,
            buffer_bytes >= 0,
    ;
}

/// Every chunk holds between one row and `max_rows` rows, all of them rows of the
/// bitmap, and the chunks together hold each row once.
pub proof fn lemma_chunk_rows(height: int, max_rows: int, chunk: int)
    requires
        0 <= height,
        max_rows >= 1,
        0 <= chunk < chunk_count(height, max_rows),
    ensures
        1 <= chunk_rows(height, max_rows, chunk) <= max_rows,
        0 <= chunk * max_rows,
        chunk * max_rows + chunk_rows(height, max_rows, chunk) <= height,
        chunk + 1 < chunk_count(height, max_rows) ==> chunk_rows(height, max_rows, chunk)
            == max_rows,
        chunk + 1 == chunk_count(height, max_rows) ==> chunk * max_rows + chunk_rows(
            height,
            max_rows,
            chunk,
        ) == height,
{
    let count = chunk_count(height, max_rows);
    assert(0 <= chunk * max_rows < height && (chunk + 1) * max_rows == chunk * max_rows
        + max_rows && (chunk + 1 < count ==> (chunk + 1) * max_rows < height) && (chunk + 1
        == count ==> (chunk + 1) * max_rows >= height)) by (nonlinear_arith)
        requires
            0 <= height,
            max_rows >= 1,
            0 <= chunk < count,
            count == (height + max_rows - 1) / max_rows,
    ;
}

/// Counting chunks: when `count` chunks of `max_rows` reach the height and one fewer
/// would not, `count` is the number of chunks.
pub proof fn lemma_chunk_count(height: int, max_rows: int, count: int)
    requires
        0 <= height,
        max_rows >= 1,
        0 <= count,
        count * max_rows >= height,
        count > 0 ==> (count - 1) * max_rows < height,
    ensures
        count == chunk_count(height, max_rows),
{
    assert(count == (height + max_rows - 1) / max_rows) by (nonlinear_arith)
        requires
            0 <= height,
            max_rows >= 1,
            0 <= count,
            count * max_rows >= height,
            count > 0 ==> (count - 1) * max_rows < height,
    ;
}

/// Packs the bits from `start` up to `end` into bytes.
pub(crate) fn pack_range(store: &BitBuf, start: usize, end: usize) -> (out: Vec<u8>)
    requires
        start <= end <= stored_bits(*store).len(),
        end <= usize::MAX - 8,
    ensures
        out@ == packed_range(stored_bits(*store), start as int, end as int),
{
    let ghost bits = stored_bits(*store);
    let count: usize = (end - start + 7) / 8;
    let mut out: Vec<u8> = Vec::new();
    let mut j: usize = 0;
    while j < count
        invariant
            start <= end <= bits.len(),
            end <= usize::MAX - 8,
            bits == stored_bits(*store),
            count == bytes_for(end - start),
            j <= count,
            out@ == Seq::new(j as nat, |t: int| packed_byte(bits, start + 8 * t, end as int)),
        decreases count - j,
    {
        let base: usize = start + 8 * j;
        let mut acc: u8 = 0;
        let mut k: u32 = 0;
        while k < 8
            invariant
                base < end <= bits.len(),
                end <= usize::MAX - 8,
                bits == stored_bits(*store),
                k <= 8,
                acc == packed_prefix(bits, base as int, end as int, k as int),
                k < 8 ==> acc + 2 * bit_weight(k as int) <= 256,
            decreases 8 - k,
        {
            let index: usize = base + k as usize;
            let bit = index < end && store_get(store, index);
            assert(packed_prefix(bits, base as int, end as int, k + 1) == packed_prefix(
                bits,
                base as int,
                end as int,
                k as int,
            ) + bit_value(bits, base as int, end as int, k as int));
            if bit {
                acc = acc + weight_of(k);
            }
            k += 1;
        }
        out.push(acc);
        j += 1;
        assert(out@ =~= Seq::new(
            j as nat,
            |t: int| packed_byte(bits, start + 8 * t, end as int),
        ));
    }
    out
}

/// Packs one row of a bitmap.
pub fn pack_row(bitmap: &Bitmap, row: usize) -> (out: Option<Vec<u8>>)
    ensures
        row < bitmap@.height <==> out is Some,
        out matches Some(bytes) ==> bytes@ == packed_row(bitmap@, row as int),
{
    let store = bitmap.store();
    if row >= bitmap.height() {
        return None;
    }
    let width = bitmap.width();
    if width == 0 {
        assert(row * 0 == 0 && (row + 1) * 0 == 0) by (nonlinear_arith);
        return Some(pack_range(store, 0, 0));
    }
    proof {
        lemma_cell_index(width as int, bitmap@.height as int, row as int, 0);
    }
    let start: usize = row * width;
    Some(pack_range(store, start, start + width))
}

/// The header of a raster chunk of `rows` rows, each `row_bytes` bytes wide.
pub fn chunk_header(rows: u16, row_bytes: u8) -> (header: Vec<u8>)
    ensures
        header@ == raster_header(rows as int, row_bytes as int),
{
    let mut header: Vec<u8> = Vec::new();
    header.push(GS);
    header.push(118);
    header.push(0);
    header.push(0);
    header.push(row_bytes);
    header.push(0);
    header.push((rows % 256) as u8);
    header.push((rows / 256) as u8);
    assert(header@ =~= raster_header(rows as int, row_bytes as int));
    header
}

/// Views bytes as bits, cuts them into rows of `width` bits and packs each row by
/// itself. The last row holds what is left and may be shorter.
///
/// It is refused for a width of zero, and for more bytes than a bit store takes.
pub fn rechunk(bytes: &[u8], width: usize) -> (r: Result<Vec<u8>, PrinterError>)
    ensures
        (width > 0 && bytes@.len() <= usize::MAX / 64) <==> r is Ok,
        r is Err ==> r == Err::<Vec<u8>, PrinterError>(PrinterError::Precondition),
        r matches Ok(out) ==> out@ == rechunked(unpacked(bytes@), width as int, 0),
{
    if width == 0 || bytes.len() > usize::MAX / 64 {
        return Err(PrinterError::Precondition);
    }
    let store = store_from_bytes(bytes);
    let total: usize = bytes.len() * 8;
    let ghost bits = unpacked(bytes@);
    let mut out: Vec<u8> = Vec::new();
    let mut start: usize = 0;
    while start < total
        invariant
            width > 0,
            total == bits.len(),
            total <= usize::MAX / 8,
            bits == stored_bits(store),
            start <= total,
            out@ + rechunked(bits, width as int, start as int) == rechunked(bits, width as int, 0),
        decreases total - start,
    {
        let end: usize = if width <= total - start {
            start + width
        } else {
            total
        };
        let mut row = pack_range(&store, start, end);
        let ghost before = out@;
        out.append(&mut row);
        assert(out@ + rechunked(bits, width as int, end as int) =~= before + rechunked(
            bits,
            width as int,
            start as int,
        ));
        start = end;
    }
    assert(out@ + Seq::<u8>::empty() =~= out@);
    Ok(out)
}

/// Packs a bitmap and cuts it into the chunks that fit a raster buffer of `buffer_bytes`
/// bytes: `ceil(height / max_rows)` chunks of `max_rows` rows, the last one shorter when
/// the height leaves a rest.
pub fn chunk_bitmap(bitmap: &Bitmap, buffer_bytes: u32) -> (r: Result<Vec<Chunk>, PrinterError>)
    ensures
        match chunking_error(bitmap@, buffer_bytes as int) {
            Some(e) => r == Err::<Vec<Chunk>, PrinterError>(e),
            None => r matches Ok(chunks) && chunk_views(chunks@) == spec_chunks(
                bitmap@,
                rows_per_chunk(bitmap@.width as int, buffer_bytes as int),
            ) && forall|i: int| 0 <= i < chunks@.len() ==> (#[trigger] chunks@[i]).rows@.len()
                <= 65535,
        },
{
    let store = bitmap.store();
    let width = bitmap.width();
    let height = bitmap.height();
    if width == 0 {
        return Err(PrinterError::Precondition);
    }
    let capacity: u64 = 8 * (buffer_bytes as u64);
    let max_rows: u64 = capacity / (width as u64);
    if max_rows < 1 {
        return Err(PrinterError::Precondition);
    }
    let row_bytes: usize = (width - 1) / 8 + 1;
    assert(row_bytes == bytes_for(width as int));
    if row_bytes > 255 || (max_rows > 65535 && height > 65535) {
        return Err(PrinterError::Encoding);
    }
    let ghost bm = bitmap@;
    let ghost m = max_rows as int;
    let mut chunks: Vec<Chunk> = Vec::new();
    let mut first: usize = 0;
    let ghost mut c: int = 0;
    assert(0 * m == 0) by (nonlinear_arith);
    while first < height
        invariant
            bm == bitmap@,
            bm.wf(),
            stored_bits(*store) == bm.bits,
            width == bm.width,
            height == bm.height,
            width > 0,
            m == max_rows,
            m >= 1,
            m <= 65535 || height <= 65535,
            row_bytes == bytes_for(width as int),
            row_bytes <= 255,
            0 <= c,
            first <= height,
            first == if c * m <= height {
                c * m
            } else {
                height as int
            },
            c > 0 ==> (c - 1) * m < height,
            chunk_views(chunks@) == Seq::new(c as nat, |i: int| chunk_at(bm, m, i)),
            forall|i: int| 0 <= i < chunks@.len() ==> (#[trigger] chunks@[i]).rows@.len() <= 65535,
        decreases height - first,
    {
        let left: usize = height - first;
        let rows: usize = if max_rows < left as u64 {
            max_rows as usize
        } else {
            left
        };
        assert(first == c * m);
        assert((c + 1) * m == c * m + m) by (nonlinear_arith);
        assert(rows == chunk_rows(height as int, m, c));
        let header = chunk_header(rows as u16, row_bytes as u8);
        let mut packed: Vec<Vec<u8>> = Vec::new();
        let mut i: usize = 0;
        while i < rows
            invariant
                bm == bitmap@,
                bm.wf(),
                stored_bits(*store) == bm.bits,
                width == bm.width,
                height == bm.height,
                width > 0,
                first == c * m,
                first + rows <= height,
                i <= rows,
                packed@.len() == i,
                packed@.map_values(|row: Vec<u8>| row@) == Seq::new(
                    i as nat,
                    |r: int| packed_row(bm, c * m + r),
                ),
            decreases rows - i,
        {
            let row: usize = first + i;
            proof {
                lemma_cell_index(width as int, height as int, row as int, 0);
            }
            let start: usize = row * width;
            let bytes = pack_range(store, start, start + width);
            assert(bytes@ == packed_row(bm, c * m + i));
            let ghost before = packed@.map_values(|row: Vec<u8>| row@);
            packed.push(bytes);
            assert(packed@.map_values(|row: Vec<u8>| row@) =~= before.push(bytes@));
            i += 1;
            assert(packed@.map_values(|row: Vec<u8>| row@) =~= Seq::new(
                i as nat,
                |r: int| packed_row(bm, c * m + r),
            ));
        }
        let chunk = Chunk { header, rows: packed };
        assert(chunk@ == chunk_at(bm, m, c));
        let ghost before = chunk_views(chunks@);
        chunks.push(chunk);
        proof {
            assert(chunk_views(chunks@) =~= before.push(chunk_at(bm, m, c)));
            c = c + 1;
            assert(chunk_views(chunks@) =~= Seq::new(c as nat, |i: int| chunk_at(bm, m, i)));
        }
        first = first + rows;
    }
    proof {
        lemma_chunk_count(height as int, m, c);
    }
    Ok(chunks)
}

} // verus!
