//! Protocol and timing engine for a serial dot-matrix thermal printer.
//!
//! The printer has no flow control that the host could read: it cannot say when its
//! buffer is free again, and what it is sent too early is lost without a trace. So the
//! host paces itself. Every command is preceded by the wait that the command before it
//! has earned, and that wait comes from a model of the mechanism: how long a row of dots
//! takes to print, how long to feed, how long a byte is on the wire.
//!
//! - [`timing`] holds the model and its formulas.
//! - [`protocol`] holds the command bytes and their encodings.
//! - [`bits`] and [`bitmap`] hold bits and bitmaps; [`chunker`] packs a bitmap into rows
//!   of bytes and cuts it into chunks that fit the printer's raster buffer.
//! - [`port`] is the serial line that the engine is handed, [`plan`] says what it means
//!   for an operation to be carried out on it, and [`state`] says, for every operation,
//!   what it sends and what it leaves behind.
//! - [`printer`] is the engine itself.

pub mod bitmap;
pub mod bits;
pub mod chunker;
pub mod error;
pub mod plan;
pub mod port;
pub mod printer;
pub mod protocol;
pub mod state;
pub mod timing;

pub use bitmap::Bitmap;
pub use error::{PrinterError, TransportError};
pub use port::{RecordingPort, SerialPort};
pub use printer::Printer;
pub use protocol::{Barcode, Charset, CodePage, Underline};
pub use state::PrinterState;
pub use timing::TimingModel;
