//! The send machine: from one scheduled frame to its bytes on the wire.

use vstd::prelude::*;
use crate::error::{send_failure_text, too_long_text, Error, ErrorKind};
use crate::transport::{Progress, SendOutcome};
use crate::wire::{encode_length, frame_image, length_bytes, MAX_FRAME_LEN, SENTINEL};

verus! {

/// The send machine as contracts speak of it.
pub enum TxView {
    /// No frame is in flight.
    Idle,
    /// `frame` is in flight, and the transport has accepted the first `sent`
    /// bytes of its wire image.
    Sending { frame: Seq<u8>, sent: nat },
}

impl TxView {
    /// The shapes that a send machine can take: a frame in flight fits the
    /// length field and has at least one byte left to send.
    pub open spec fn wf(self) -> bool {
        match self {
            TxView::Idle => true,
            TxView::Sending { frame, sent } => frame.len() <= MAX_FRAME_LEN && sent
                < frame_image(frame).len(),
        }
    }

    /// No frame is in flight.
    pub open spec fn is_idle(self) -> bool {
        self is Idle
    }

    /// The bytes of the frame in flight that the transport has yet to
    /// accept, in the order in which they will be offered.
    pub open spec fn remaining(self) -> Seq<u8> {
        match self {
            TxView::Idle => Seq::empty(),
            TxView::Sending { frame, sent } => frame_image(frame).skip(sent as int),
        }
    }

    /// The machine after the transport accepted `n` more bytes.
    pub open spec fn after(self, n: nat) -> TxView {
        match self {
            TxView::Idle => TxView::Idle,
            TxView::Sending { frame, sent } => if sent + n >= frame_image(frame).len() {
                TxView::Idle
            } else {
                TxView::Sending { frame, sent: sent + n }
            },
        }
    }
}

enum WhatNext {
    Sentinel,
    Header,
    Data,
}

struct SendingState {
    what_next: WhatNext,
    index: usize,
    header_bytes: [u8; 2],
    frame: Vec<u8>,
}

enum SendState {
    NotSending,
    Sending(SendingState),
}

impl SendingState {
    spec fn wf(&self) -> bool {
        &&& self.frame@.len() <= MAX_FRAME_LEN
        &&& self.header_bytes@ == length_bytes(self.frame@.len())
        &&& match self.what_next {
            WhatNext::Sentinel => self.index == 0,
            WhatNext::Header => self.index < 2,
            WhatNext::Data => self.index < self.frame@.len(),
        }
    }

    /// How many bytes of the wire image the transport has accepted.
    spec fn sent(&self) -> nat {
        match self.what_next {
            WhatNext::Sentinel => 0,
            WhatNext::Header => (1 + self.index) as nat,
            WhatNext::Data => (3 + self.index) as nat,
        }
    }
}

/// The send machine: it holds at most one frame and hands out its wire
/// image a byte at a time.
pub struct Sender {
    state: SendState,
}

impl Sender {
    /// The invariant of the machine: the header bytes are the little-endian
    /// length of the frame in flight, and the position lies inside the part
    /// of the wire image that it points into.
    pub closed spec fn wf(&self) -> bool {
        match self.state {
            SendState::NotSending => true,
            SendState::Sending(s) => s.wf(),
        }
    }

    /// The machine as contracts speak of it.
    pub closed spec fn view(&self) -> TxView {
        match self.state {
            SendState::NotSending => TxView::Idle,
            SendState::Sending(s) => TxView::Sending { frame: s.frame@, sent: s.sent() },
        }
    }

    /// A well-formed machine has a well-formed view.
    pub proof fn lemma_view_wf(&self)
        requires
            self.wf(),
        ensures
            self@.wf(),
    {
    }

    /// A machine with no frame in flight.
    pub fn new() -> (tx: Sender)
        ensures
            tx.wf(),
            tx@ == TxView::Idle,
    {
        Sender { state: SendState::NotSending }
    }

    /// Whether no frame is in flight.
    pub fn is_idle(&self) -> (idle: bool)
        ensures
            idle == self@.is_idle(),
    {
        match &self.state {
            SendState::NotSending => true,
            SendState::Sending(_) => false,
        }
    }

    /// Puts `frame` in flight, starting at its sentinel.
    ///
    /// A frame in flight is replaced and what was left of it is dropped. A
    /// frame longer than the length field can announce is refused with
    /// `TooLong`, and the machine stays as it was.
    pub fn schedule(&mut self, frame: Vec<u8>) -> (r: Result<(), Error>)
        requires
            old(self).wf(),
        ensures
            final(self).wf(),
            frame@.len() > MAX_FRAME_LEN <==> r is Err,
            r is Ok ==> final(self)@ == (TxView::Sending { frame: frame@, sent: 0 }),
            r matches Err(e) ==> {
                &&& e.kind() == ErrorKind::TooLong
                &&& e.message() == too_long_text()
                &&& *final(self) == *old(self)
            },
    {
        if frame.len() > MAX_FRAME_LEN {
            return Err(Error::with_kind(ErrorKind::TooLong, "frame data too long"));
        }
        let buf: [u8; 2] = encode_length(frame.len() as u16);
        self.state = SendState::Sending(
            SendingState { what_next: WhatNext::Sentinel, index: 0, header_bytes: buf, frame },
        );
        Ok(())
    }

    /// The byte to offer to the transport next, if a frame is in flight.
    pub fn next_byte(&self) -> (byte: Option<u8>)
        requires
            self.wf(),
        ensures
            byte == if self@.is_idle() {
                None
            } else {
                Some(self@.remaining()[0])
            },
    {
        match &self.state {
            SendState::NotSending => None,
            SendState::Sending(s) => {
                let byte: u8 = match s.what_next {
                    WhatNext::Sentinel => SENTINEL,
                    WhatNext::Header => s.header_bytes[s.index],
                    WhatNext::Data => s.frame[s.index],
                };
                Some(byte)
            },
        }
    }

    /// Records that the transport accepted the byte of `next_byte`.
    ///
    /// Returns whether the machine is idle afterwards: it is once the last
    /// byte of the wire image has been accepted, and not before.
    pub fn advance(&mut self) -> (done: bool)
        requires
            old(self).wf(),
        ensures
            final(self).wf(),
            final(self)@ == old(self)@.after(1),
            done == final(self)@.is_idle(),
    {
        let mut finished: bool = false;
        match &mut self.state {
            SendState::NotSending => {
                finished = true;
            },
            SendState::Sending(s) => {
                match s.what_next {
                    WhatNext::Sentinel => {
                        s.what_next = WhatNext::Header;
                        s.index = 0;
                    },
                    WhatNext::Header => {
                        s.index += 1;
                        if s.index == 2 {
                            if s.frame.len() == 0 {
                                finished = true;
                            } else {
                                s.what_next = WhatNext::Data;
                                s.index = 0;
                            }
                        }
                    },
                    WhatNext::Data => {
                        s.index += 1;
                        if s.index == s.frame.len() {
                            finished = true;
                        }
                    },
                }
            },
        }
        if finished {
            self.state = SendState::NotSending;
        }
        finished
    }

    /// Takes in what the transport answered when offered the byte of
    /// `next_byte`.
    ///
    /// An accepted byte moves the machine on by one: the answer is `Done`
    /// when that was the last byte of the wire image, else `More`. A
    /// transport that would block leaves the machine as it was, to offer
    /// the same byte again: `Stalled`. A failure leaves it as it was too,
    /// and is handed on as a `Transport` error.
    pub fn handle(&mut self, outcome: SendOutcome) -> (r: Result<Progress, Error>)
        requires
            old(self).wf(),
        ensures
            final(self).wf(),
            match outcome {
                SendOutcome::Accepted => {
                    &&& final(self)@ == old(self)@.after(1)
                    &&& r matches Ok(p) && p == if final(self)@.is_idle() {
                        Progress::Done
                    } else {
                        Progress::More
                    }
                },
                SendOutcome::WouldBlock => {
                    &&& *final(self) == *old(self)
                    &&& r matches Ok(p) && p == Progress::Stalled
                },
                SendOutcome::Failed => {
                    &&& *final(self) == *old(self)
                    &&& r matches Err(e) && e.kind() == ErrorKind::Transport && e.message()
                        == send_failure_text()
                },
            },
    {
        match outcome {
            SendOutcome::Accepted => {
                if self.advance() {
                    Ok(Progress::Done)
                } else {
                    Ok(Progress::More)
                }
            },
            SendOutcome::WouldBlock => Ok(Progress::Stalled),
            SendOutcome::Failed => Err(
                Error::with_kind(ErrorKind::Transport, "unexpected error during try_send_byte()"),
            ),
        }
    }
}

} // verus!
