//! What can go wrong while driving the printer.

use vstd::prelude::*;

verus! {

/// Why an operation on the printer was refused or broke off.
#[derive(Clone, Copy, Debug, PartialEq, Eq, Structural)]
pub enum PrinterError {
    /// The serial port failed, or took fewer bytes than it was given. Nothing is retried.
    Transport,
    /// A duration, length or dot count does not fit the protocol field that carries it.
    Encoding,
    /// The caller's bitmap dimensions and its data do not belong together.
    Precondition,
}

/// The failure of a serial port, as the port itself reports it.
#[derive(Clone, Copy, Debug, PartialEq, Eq, Structural)]
pub struct TransportError;

} // verus!
