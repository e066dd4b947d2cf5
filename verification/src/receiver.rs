//! The receive machine: from a stream of bytes to one pending frame.

use vstd::prelude::*;
use crate::error::{not_ready_text, recv_failure_text, Error, ErrorKind};
use crate::transport::{Progress, RecvOutcome};
use crate::wire::{decode_length, length_value, MAX_FRAME_LEN, SENTINEL};

verus! {

/// The receive machine as contracts speak of it.
pub enum RxView {
    /// Not locked onto a frame: bytes are discarded until a sentinel comes.
    Unknown,
    /// The sentinel was seen; `got` holds the length bytes read so far.
    Header { got: Seq<u8> },
    /// The length is known; `payload` holds the payload bytes read so far.
    Data { length: nat, payload: Seq<u8> },
}

impl RxView {
    /// The shapes that a receive machine can take.
    pub open spec fn wf(self) -> bool {
        match self {
            RxView::Unknown => true,
            RxView::Header { got } => got.len() < 2,
            RxView::Data { length, payload } => payload.len() <= length <= MAX_FRAME_LEN,
        }
    }

    /// A whole frame has been read and waits to be picked up.
    pub open spec fn is_complete(self) -> bool {
        self matches RxView::Data { length, payload } && payload.len() == length
    }

    /// The machine after one more byte of the stream.
    ///
    /// A machine that holds a complete frame takes no byte.
    pub open spec fn step(self, byte: u8) -> RxView {
        match self {
            RxView::Unknown => if byte == SENTINEL {
                RxView::Header { got: Seq::empty() }
            } else {
                RxView::Unknown
            },
            RxView::Header { got } => if got.len() == 0 {
                RxView::Header { got: seq![byte] }
            } else {
                RxView::Data { length: length_value(got[0], byte), payload: Seq::empty() }
            },
            RxView::Data { length, payload } => if payload.len() == length {
                self
            } else {
                RxView::Data { length, payload: payload.push(byte) }
            },
        }
    }

    /// The machine after the bytes of `stream`, taken in order.
    pub open spec fn feed(self, stream: Seq<u8>) -> RxView
        decreases stream.len(),
    {
        if stream.len() == 0 {
            self
        } else {
            self.feed(stream.drop_last()).step(stream.last())
        }
    }

    /// The machine after the pending frame was picked up, or as it is where
    /// no frame is pending.
    pub open spec fn picked_up(self) -> RxView {
        if self.is_complete() {
            RxView::Unknown
        } else {
            self
        }
    }
}

struct HeaderState {
    bytes: [u8; 2],
    index: usize,
}

struct DataState {
    length: usize,
}

enum RecvState {
    Unknown,
    Header(HeaderState),
    Data(DataState),
}

/// The receive machine: it is fed the incoming bytes one at a time and
/// holds at most one frame.
pub struct Receiver {
    state: RecvState,
    buf: Vec<u8>,
}

impl Receiver {
    /// The invariant of the machine: the payload buffer is empty until the
    /// length is known, and never longer than the length.
    pub closed spec fn wf(&self) -> bool {
        match self.state {
            RecvState::Unknown => self.buf@.len() == 0,
            RecvState::Header(hs) => hs.index < 2 && self.buf@.len() == 0,
            RecvState::Data(ds) => self.buf@.len() <= ds.length <= MAX_FRAME_LEN,
        }
    }

    /// The machine as contracts speak of it.
    pub closed spec fn view(&self) -> RxView {
        match self.state {
            RecvState::Unknown => RxView::Unknown,
            RecvState::Header(hs) => RxView::Header { got: hs.bytes@.take(hs.index as int) },
            RecvState::Data(ds) => RxView::Data { length: ds.length as nat, payload: self.buf@ },
        }
    }

    /// A well-formed machine has a well-formed view.
    pub proof fn lemma_view_wf(&self)
        requires
            self.wf(),
        ensures
            self@.wf(),
    {
    }

    /// A machine that waits for a sentinel.
    pub fn new() -> (rx: Receiver)
        ensures
            rx.wf(),
            rx@ == RxView::Unknown,
    {
        Receiver { state: RecvState::Unknown, buf: Vec::new() }
    }

    /// Check if frame is complete.
    pub fn is_frame_complete(&self) -> (done: bool)
        requires
            self.wf(),
        ensures
            done == self@.is_complete(),
    {
        match &self.state {
            RecvState::Unknown => false,
            RecvState::Header(_) => false,
            RecvState::Data(ds) => ds.length == self.buf.len(),
        }
    }

    /// Feeds the machine one byte of the stream.
    ///
    /// Returns whether the byte was taken: a machine that holds a complete
    /// frame takes none until the frame has been picked up.
    pub fn accept(&mut self, byte: u8) -> (taken: bool)
        requires
            old(self).wf(),
        ensures
            final(self).wf(),
            final(self)@ == old(self)@.step(byte),
            taken == !old(self)@.is_complete(),
    {
        match &self.state {
            RecvState::Unknown => {
                if byte == SENTINEL {
                    let bytes: [u8; 2] = [0, 0];
                    self.state = RecvState::Header(HeaderState { bytes, index: 0 });
                    assert(bytes@.take(0) =~= Seq::<u8>::empty());
                }
                true
            },
            RecvState::Header(hs) => {
                if hs.index == 0 {
                    let bytes: [u8; 2] = [byte, hs.bytes[1]];
                    assert(hs.bytes@.take(0).len() == 0);
                    self.state = RecvState::Header(HeaderState { bytes, index: 1 });
                    assert(bytes@.take(1) =~= seq![byte]);
                } else {
                    let bytes: [u8; 2] = [hs.bytes[0], byte];
                    let length: usize = decode_length(&bytes) as usize;
                    assert(hs.bytes@.take(1).len() == 1);
                    assert(hs.bytes@.take(1)[0] == hs.bytes[0]);
                    self.state = RecvState::Data(DataState { length });
                    assert(self.buf@ =~= Seq::<u8>::empty());
                }
                true
            },
            RecvState::Data(ds) => {
                if self.buf.len() == ds.length {
                    false
                } else {
                    self.buf.push(byte);
                    true
                }
            },
        }
    }

    /// Get completed frame.
    ///
    /// Hands the frame out and goes back to waiting for a sentinel. Where
    /// no frame is complete, nothing changes and the error is `NotReady`.
    pub fn take_frame(&mut self) -> (r: Result<Vec<u8>, Error>)
        requires
            old(self).wf(),
        ensures
            final(self).wf(),
            final(self)@ == old(self)@.picked_up(),
            old(self)@.is_complete() <==> r is Ok,
            r matches Ok(frame) ==> old(self)@ == (RxView::Data {
                length: frame@.len(),
                payload: frame@,
            }),
            r matches Err(e) ==> {
                &&& e.kind() == ErrorKind::NotReady
                &&& e.message() == not_ready_text()
                &&& *final(self) == *old(self)
            },
    {
        if !self.is_frame_complete() {
            return Err(Error::with_kind(ErrorKind::NotReady, "frame not available"));
        }
        let mut frame: Vec<u8> = Vec::new();
        core::mem::swap(&mut self.buf, &mut frame);
        self.state = RecvState::Unknown;
        Ok(frame)
    }

    /// Takes in what the transport answered when asked for a byte.
    ///
    /// A byte is fed to the machine: the answer is `Done` when it completed
    /// a frame, else `More`. A transport without a byte leaves the machine
    /// as it was: `Stalled`. A failure leaves it as it was too, and is
    /// handed on as a `Transport` error.
    pub fn handle(&mut self, outcome: RecvOutcome) -> (r: Result<Progress, Error>)
        requires
            old(self).wf(),
        ensures
            final(self).wf(),
            match outcome {
                RecvOutcome::Byte(byte) => {
                    &&& final(self)@ == old(self)@.step(byte)
                    &&& r matches Ok(p) && p == if final(self)@.is_complete() {
                        Progress::Done
                    } else {
                        Progress::More
                    }
                },
                RecvOutcome::NoData => {
                    &&& *final(self) == *old(self)
                    &&& r matches Ok(p) && p == Progress::Stalled
                },
                RecvOutcome::Failed => {
                    &&& *final(self) == *old(self)
                    &&& r matches Err(e) && e.kind() == ErrorKind::Transport && e.message()
                        == recv_failure_text()
                },
            },
    {
        match outcome {
            RecvOutcome::Byte(byte) => {
                self.accept(byte);
                if self.is_frame_complete() {
                    Ok(Progress::Done)
                } else {
                    Ok(Progress::More)
                }
            },
            RecvOutcome::NoData => Ok(Progress::Stalled),
            RecvOutcome::Failed => Err(
                Error::with_kind(ErrorKind::Transport, "unexpected error during try_recv_byte()"),
            ),
        }
    }
}

} // verus!
