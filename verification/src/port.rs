//! The serial port capability, and a port that records instead of sending.
//!
//! The printer engine never touches a device. It is handed something that can take bytes
//! and let time pass, and the order and content of those two kinds of call is all that it
//! decides. A port is therefore used through a wrapper that keeps a log of the calls made
//! and of their outcomes; the contracts of the engine are statements about that log.

use crate::error::TransportError;
use vstd::prelude::*;
use vstd::slice::slice_to_vec;

verus! {

/// One operation that a port can be asked for.
pub enum PortEvent {
    /// Hold the caller back for this many microseconds.
    Wait(u64),
    /// Take these bytes, all of them.
    Write(Seq<u8>),
}

/// One call of a port, with its outcome.
pub struct PortRecord {
    /// What the port was asked for.
    pub event: PortEvent,
    /// Whether the port answered `Ok`.
    pub completed: bool,
}

/// A serial line to the printer. This is what a transport has to offer, and all that the
/// printer engine asks of it.
///
/// Nothing is promised of an implementation here: whether a call succeeds is the
/// transport's business. What it is asked to do is to return `Ok` from `write_bytes` only
/// after it has handed over every byte, and from `wait` only after at least the given
/// time has passed.
pub trait SerialPort {
    /// Sends all of `bytes`, or fails.
    fn write_bytes(&mut self, bytes: &[u8]) -> Result<(), TransportError>;

    /// Holds the caller back for at least `micros` microseconds.
    fn wait(&mut self, micros: u64) -> Result<(), TransportError>;
}

/// A port together with the log of the calls made of it.
///
/// The log grows in one way only: a call of `write_bytes` or `wait` adds the operation
/// that it asked for and what the port answered. So whoever holds a `Traced` port, and
/// shows how its trace has grown, has made those calls, in that order and with those
/// arguments, and was given those answers.
pub struct Traced<P: SerialPort> {
    port: P,
    log: Ghost<Seq<PortRecord>>,
}

impl<P: SerialPort> Traced<P> {
    /// The calls made of the port since it was wrapped, oldest first.
    pub closed spec fn trace(&self) -> Seq<PortRecord> {
        self.log@
    }

    /// Wraps a port; its log starts empty.
    pub fn new(port: P) -> (traced: Self)
        ensures
            traced.trace() == Seq::<PortRecord>::empty(),
            traced.held() == port,
    {
        Traced { port, log: Ghost(Seq::empty()) }
    }

    /// Has the port send all of `bytes`, and logs the call with the port's answer.
    pub fn write_bytes(&mut self, bytes: &[u8]) -> (r: Result<(), TransportError>)
        ensures
            final(self).trace() == old(self).trace().push(
                PortRecord { event: PortEvent::Write(bytes@), completed: r is Ok },
            ),
    {
        let r = self.port.write_bytes(bytes);
        self.log = Ghost(
            self.log@.push(PortRecord { event: PortEvent::Write(bytes@), completed: r is Ok }),
        );
        r
    }

    /// Has the port hold the caller back for `micros` microseconds, and logs the call
    /// with the port's answer.
    pub fn wait(&mut self, micros: u64) -> (r: Result<(), TransportError>)
        ensures
            final(self).trace() == old(self).trace().push(
                PortRecord { event: PortEvent::Wait(micros), completed: r is Ok },
            ),
    {
        let r = self.port.wait(micros);
        self.log = Ghost(
            self.log@.push(PortRecord { event: PortEvent::Wait(micros), completed: r is Ok }),
        );
        r
    }

    /// The port, to look at.
    pub fn port(&self) -> (port: &P)
        ensures
            *port == self.held(),
    {
        &self.port
    }

    /// Gives the port back, as the calls made of it have left it.
    pub fn into_port(self) -> (port: P)
        ensures
            port == self.held(),
    {
        self.port
    }

    /// The port that is wrapped, as the calls made of it have left it.
    pub closed spec fn held(&self) -> P {
        self.port
    }
}

/// The bytes that a trace has written, in order, with the waits left out.
pub open spec fn written_bytes(trace: Seq<PortEvent>) -> Seq<u8>
    decreases trace.len(),
{
    if trace.len() == 0 {
        Seq::empty()
    } else {
        written_bytes(trace.drop_last()) + match trace.last() {
            PortEvent::Write(bytes) => bytes,
            PortEvent::Wait(_) => Seq::empty(),
        }
    }
}

/// One recorded operation of a [`RecordingPort`].
#[derive(Debug, PartialEq, Eq)]
pub enum PortOp {
    /// A wait of this many microseconds.
    Wait(u64),
    /// A write of these bytes.
    Write(Vec<u8>),
}

impl View for PortOp {
    type V = PortEvent;

    open spec fn view(&self) -> PortEvent {
        match self {
            PortOp::Wait(micros) => PortEvent::Wait(*micros),
            PortOp::Write(bytes) => PortEvent::Write(bytes@),
        }
    }
}

/// A port in memory: it records every operation and never sleeps.
///
/// With a budget it completes that many operations and fails every one after them, which
/// stands for a line that goes down.
pub struct RecordingPort {
    /// The operations completed so far, oldest first.
    pub ops: Vec<PortOp>,
    /// How many more operations may complete; `None` for no limit.
    pub budget: Option<usize>,
}

impl RecordingPort {
    /// The trace that a list of recorded operations stands for.
    pub open spec fn events(ops: Seq<PortOp>) -> Seq<PortEvent> {
        ops.map_values(|op: PortOp| op@)
    }

    /// What the port has recorded, as a trace.
    pub open spec fn recorded(&self) -> Seq<PortEvent> {
        Self::events(self.ops@)
    }

    /// A port that never fails.
    pub fn new() -> (port: RecordingPort)
        ensures
            port.ops@ == Seq::<PortOp>::empty(),
            port.budget is None,
    {
        RecordingPort { ops: Vec::new(), budget: None }
    }

    /// A port that completes `limit` operations and fails from then on.
    pub fn failing_after(limit: usize) -> (port: RecordingPort)
        ensures
            port.ops@ == Seq::<PortOp>::empty(),
            port.budget == Some(limit),
    {
        RecordingPort { ops: Vec::new(), budget: Some(limit) }
    }

    /// Tells whether the next operation will fail.
    pub open spec fn exhausted(&self) -> bool {
        self.budget == Some(0usize)
    }

    /// The budget after one more completed operation.
    pub open spec fn spent(budget: Option<usize>) -> Option<usize> {
        match budget {
            Some(n) => Some((n - 1) as usize),
            None => None,
        }
    }

    /// Takes one operation off the budget; `false` when none is left.
    fn spend(&mut self) -> (ok: bool)
        ensures
            ok == !old(self).exhausted(),
            final(self).ops == old(self).ops,
            ok ==> final(self).budget == Self::spent(old(self).budget),
            !ok ==> final(self).budget == old(self).budget,
    {
        match self.budget {
            Some(n) => {
                if n == 0 {
                    false
                } else {
                    self.budget = Some(n - 1);
                    true
                }
            },
            None => true,
        }
    }

    /// All the bytes written so far, in order.
    pub fn written(&self) -> (bytes: Vec<u8>)
        ensures
            bytes@ == written_bytes(self.recorded()),
    {
        let mut bytes: Vec<u8> = Vec::new();
        let mut i: usize = 0;
        assert(self.recorded().take(0) =~= Seq::<PortEvent>::empty());
        while i < self.ops.len()
            invariant
                i <= self.ops.len(),
                bytes@ == written_bytes(self.recorded().take(i as int)),
            decreases self.ops.len() - i,
        {
            assert(self.recorded().take(i + 1).drop_last() =~= self.recorded().take(i as int));
            assert(self.recorded().take(i + 1).last() == self.ops[i as int]@);
            match &self.ops[i] {
                PortOp::Write(chunk) => {
                    let mut j: usize = 0;
                    while j < chunk.len()
                        invariant
                            j <= chunk.len(),
                            bytes@ == written_bytes(self.recorded().take(i as int)) + chunk@.take(
                                j as int,
                            ),
                        decreases chunk.len() - j,
                    {
                        bytes.push(chunk[j]);
                        assert(chunk@.take(j + 1) =~= chunk@.take(j as int).push(chunk[j as int]));
                        j += 1;
                    }
                    assert(chunk@.take(chunk.len() as int) =~= chunk@);
                },
                PortOp::Wait(_) => {
                    assert(bytes@ + Seq::<u8>::empty() =~= bytes@);
                },
            }
            i += 1;
        }
        assert(self.recorded().take(self.ops.len() as int) =~= self.recorded());
        bytes
    }
}

impl SerialPort for RecordingPort {
    /// Records the bytes, unless the budget is used up.
    fn write_bytes(&mut self, bytes: &[u8]) -> (r: Result<(), TransportError>)
        ensures
            r is Ok <==> !old(self).exhausted(),
            r is Ok ==> final(self).budget == Self::spent(old(self).budget),
            r is Ok ==> final(self).recorded() == old(self).recorded().push(
                PortEvent::Write(bytes@),
            ),
            r is Err ==> final(self).budget == old(self).budget,
            r is Err ==> final(self).ops == old(self).ops,
    {
        if !self.spend() {
            return Err(TransportError);
        }
        let ghost before = self.recorded();
        self.ops.push(PortOp::Write(slice_to_vec(bytes)));
        assert(self.recorded() =~= before.push(PortEvent::Write(bytes@)));
        Ok(())
    }

    /// Records the wait without sleeping, unless the budget is used up.
    fn wait(&mut self, micros: u64) -> (r: Result<(), TransportError>)
        ensures
            r is Ok <==> !old(self).exhausted(),
            r is Ok ==> final(self).budget == Self::spent(old(self).budget),
            r is Ok ==> final(self).recorded() == old(self).recorded().push(
                PortEvent::Wait(micros),
            ),
            r is Err ==> final(self).budget == old(self).budget,
            r is Err ==> final(self).ops == old(self).ops,
    {
        if !self.spend() {
            return Err(TransportError);
        }
        let ghost before = self.recorded();
        self.ops.push(PortOp::Wait(micros));
        assert(self.recorded() =~= before.push(PortEvent::Wait(micros)));
        Ok(())
    }
}

} // verus!
