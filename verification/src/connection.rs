//! The framed connection: a transport, a send machine and a receive machine.

use vstd::prelude::*;
use crate::error::{
    lemma_failure_texts_differ, not_ready_text, recv_failure_text, send_failure_text,
    too_long_text, Error, ErrorKind,
};
use crate::receiver::{Receiver, RxView};
use crate::sender::{Sender, TxView};
use crate::transport::{Progress, RecvOutcome, SendOutcome, Transport};

verus! {

/// One byte that crossed the link between a connection and its transport.
pub enum LinkEvent {
    /// The transport accepted this byte from the connection.
    Sent(u8),
    /// The transport delivered this byte to the connection.
    Received(u8),
}

impl LinkEvent {
    /// The byte that crossed.
    pub open spec fn byte(self) -> u8 {
        match self {
            LinkEvent::Sent(b) => b,
            LinkEvent::Received(b) => b,
        }
    }
}

/// The events of a run of accepted bytes.
pub open spec fn sent_events(bytes: Seq<u8>) -> Seq<LinkEvent> {
    Seq::new(bytes.len(), |i: int| LinkEvent::Sent(bytes[i]))
}

/// The events of a run of delivered bytes.
pub open spec fn received_events(bytes: Seq<u8>) -> Seq<LinkEvent> {
    Seq::new(bytes.len(), |i: int| LinkEvent::Received(bytes[i]))
}

/// The bytes of a run of events, whichever way each went.
pub open spec fn event_bytes(events: Seq<LinkEvent>) -> Seq<u8> {
    Seq::new(events.len(), |i: int| events[i].byte())
}

/// A connection as contracts speak of it.
pub struct ConnView {
    /// The send machine.
    pub tx: TxView,
    /// The receive machine.
    pub rx: RxView,
    /// Every byte that has crossed the link since the connection was made,
    /// oldest first.
    pub trace: Seq<LinkEvent>,
}

/// What a send step may do to a connection: the transport accepts some of
/// the bytes that the frame in flight still has to send, first byte
/// first, and the receive machine is left alone.
pub open spec fn send_step(pre: ConnView, post: ConnView) -> bool {
    let k = post.trace.len() - pre.trace.len();
    &&& 0 <= k <= pre.tx.remaining().len()
    &&& post.trace == pre.trace + sent_events(pre.tx.remaining().take(k))
    &&& post.tx == pre.tx.after(k as nat)
    &&& post.rx == pre.rx
}

/// What a receive step may do to a connection: the transport delivers some
/// bytes, each is fed to the receive machine, none is asked for once a
/// frame is complete, and the send machine is left alone.
pub open spec fn recv_step(pre: ConnView, post: ConnView) -> bool {
    let d = event_bytes(post.trace.skip(pre.trace.len() as int));
    &&& pre.trace.len() <= post.trace.len()
    &&& post.trace == pre.trace + received_events(d)
    &&& post.rx == pre.rx.feed(d)
    &&& forall|j: int| 0 <= j < d.len() ==> !(#[trigger] pre.rx.feed(d.take(j))).is_complete()
    &&& post.tx == pre.tx
}

/// What a tick may do to a connection: a send step, then a receive step.
pub open spec fn tick_step(pre: ConnView, post: ConnView) -> bool {
    let k = pre.tx.remaining().len() - post.tx.remaining().len();
    let mid = ConnView {
        tx: post.tx,
        rx: pre.rx,
        trace: pre.trace + sent_events(pre.tx.remaining().take(k)),
    };
    send_step(pre, mid) && recv_step(mid, post)
}

/// The result of a `tick()`. Check for progress indication.
pub struct TickProgress {
    /// State of ongoing receive.
    pub recv_is_done: bool,
    /// State of ongoing send.
    pub send_is_done: bool,
}

/// Wrapper around a serial port to provide framed connections.
///
/// See the module level documentation for more information.
pub struct FramedConnection<S: Transport> {
    serial: S,
    rx: Receiver,
    tx: Sender,
    trace: Ghost<Seq<LinkEvent>>,
}

impl<S: Transport> FramedConnection<S> {
    /// The invariant of the connection: that of its two machines.
    pub closed spec fn wf(&self) -> bool {
        self.rx.wf() && self.tx.wf()
    }

    /// The connection as contracts speak of it.
    pub closed spec fn view(&self) -> ConnView {
        ConnView { tx: self.tx@, rx: self.rx@, trace: self.trace@ }
    }

    /// The transport that the connection owns.
    pub closed spec fn transport(&self) -> S {
        self.serial
    }

    /// A well-formed connection has well-formed machines.
    pub proof fn lemma_view_wf(&self)
        requires
            self.wf(),
        ensures
            self@.tx.wf(),
            self@.rx.wf(),
    {
        self.rx.lemma_view_wf();
        self.tx.lemma_view_wf();
    }

    /// Create a new `FramedConnection`. Takes ownership of the serial device.
    pub fn new(s: S) -> (conn: FramedConnection<S>)
        ensures
            conn.wf(),
            conn.transport() == s,
            conn@ == (ConnView { tx: TxView::Idle, rx: RxView::Unknown, trace: Seq::empty() }),
    {
        FramedConnection {
            serial: s,
            rx: Receiver::new(),
            tx: Sender::new(),
            trace: Ghost(Seq::empty()),
        }
    }

    /// Schedule a frame to be sent. Returns `Err(Error)` if the frame is too long,
    /// otherwise returns immediately with `Ok(())`.
    ///
    /// The connection does not queue: a frame that is still in flight is
    /// replaced, and what was left of it is never sent. Schedule the next
    /// frame once `tick` has reported `send_is_done`.
    pub fn schedule_send(&mut self, frame: Vec<u8>) -> (r: Result<(), Error>)
        requires
            old(self).wf(),
        ensures
            final(self).wf(),
            frame@.len() > crate::wire::MAX_FRAME_LEN <==> r is Err,
            r is Ok ==> final(self)@ == (ConnView {
                tx: TxView::Sending { frame: frame@, sent: 0 },
                ..old(self)@
            }),
            r is Ok ==> final(self).transport() == old(self).transport(),
            r matches Err(e) ==> {
                &&& e.kind() == ErrorKind::TooLong
                &&& e.message() == too_long_text()
                &&& *final(self) == *old(self)
            },
    {
        self.tx.schedule(frame)
    }

    /// Check if frame is complete.
    pub fn is_frame_complete(&self) -> (done: bool)
        requires
            self.wf(),
        ensures
            done == self@.rx.is_complete(),
    {
        self.rx.is_frame_complete()
    }

    /// Get completed frame.
    ///
    /// Hands the frame out and leaves the receive machine waiting for the
    /// next sentinel. Where no frame is complete, the error is `NotReady`
    /// and nothing changes.
    pub fn get_frame(&mut self) -> (r: Result<Vec<u8>, Error>)
        requires
            old(self).wf(),
        ensures
            final(self).wf(),
            old(self)@.rx.is_complete() <==> r is Ok,
            r matches Ok(frame) ==> {
                &&& old(self)@.rx == (RxView::Data { length: frame@.len(), payload: frame@ })
                &&& final(self)@ == (ConnView { rx: RxView::Unknown, ..old(self)@ })
                &&& final(self).transport() == old(self).transport()
            },
            r matches Err(e) ==> {
                &&& e.kind() == ErrorKind::NotReady
                &&& e.message() == not_ready_text()
                &&& *final(self) == *old(self)
            },
    {
        self.rx.take_frame()
    }

    /// Advances the send machine as far as the transport takes bytes.
    ///
    /// Offers the bytes of the frame in flight one at a time until the
    /// frame is out, the transport would block, or the transport fails.
    /// Returns whether the send is done. With no frame in flight the
    /// transport is not touched.
    pub fn send_tick(&mut self) -> (r: Result<bool, Error>)
        requires
            old(self).wf(),
        ensures
            final(self).wf(),
            send_step(old(self)@, final(self)@),
            r matches Ok(done) ==> done == final(self)@.tx.is_idle(),
            r matches Err(e) ==> e.kind() == ErrorKind::Transport && e.message()
                == send_failure_text(),
            old(self)@.tx.is_idle() ==> r is Ok && *final(self) == *old(self),
    {
        proof {
            self.lemma_view_wf();
            assert(sent_events(self@.tx.remaining().take(0)) =~= Seq::<LinkEvent>::empty());
            assert(self@.trace + Seq::<LinkEvent>::empty() =~= self@.trace);
        }
        loop
            invariant
                self.wf(),
                send_step(old(self)@, self@),
                old(self)@.tx.wf(),
                old(self)@.tx.is_idle() ==> *self == *old(self),
            decreases self@.tx.remaining().len(),
        {
            let byte: u8 = match self.tx.next_byte() {
                None => {
                    return Ok(true);
                },
                Some(b) => b,
            };
            let outcome: SendOutcome = self.serial.try_send_byte(byte);
            let ghost before = self@;
            let ghost rem = old(self)@.tx.remaining();
            let ghost k = before.trace.len() - old(self)@.trace.len();
            match self.tx.handle(outcome) {
                Ok(Progress::Stalled) => {
                    return Ok(false);
                },
                Ok(progress) => {
                    self.trace = Ghost(self.trace@.push(LinkEvent::Sent(byte)));
                    proof {
                        assert(byte == rem[k]);
                        assert(sent_events(rem.take(k)).push(LinkEvent::Sent(byte)) =~= sent_events(
                            rem.take(k + 1),
                        ));
                        assert(self@.trace =~= old(self)@.trace + sent_events(rem.take(k + 1)));
                    }
                    if progress == Progress::Done {
                        return Ok(true);
                    }
                },
                Err(e) => {
                    return Err(e);
                },
            }
        }
    }

    /// Advances the receive machine as far as the transport has bytes.
    ///
    /// Asks for bytes one at a time and feeds each to the receive machine,
    /// until a frame is complete, the transport has none, or the transport
    /// fails. Returns whether a frame is complete. While a complete frame
    /// waits to be picked up the transport is not touched. One call takes
    /// at most `usize::MAX` bytes.
    pub fn recv_tick(&mut self) -> (r: Result<bool, Error>)
        requires
            old(self).wf(),
        ensures
            final(self).wf(),
            recv_step(old(self)@, final(self)@),
            final(self)@.trace.len() - old(self)@.trace.len() <= usize::MAX,
            r matches Ok(done) ==> done == final(self)@.rx.is_complete(),
            r matches Err(e) ==> e.kind() == ErrorKind::Transport && e.message()
                == recv_failure_text(),
            old(self)@.rx.is_complete() ==> r is Ok && *final(self) == *old(self),
    {
        proof {
            let d = event_bytes(self@.trace.skip(self@.trace.len() as int));
            assert(d =~= Seq::<u8>::empty());
            assert(self@.trace + received_events(d) =~= self@.trace);
        }
        let mut budget: usize = usize::MAX;
        while budget > 0
            invariant
                self.wf(),
                recv_step(old(self)@, self@),
                self@.trace.len() - old(self)@.trace.len() == usize::MAX - budget,
                old(self)@.rx.is_complete() ==> *self == *old(self),
            decreases budget,
        {
            if self.rx.is_frame_complete() {
                return Ok(true);
            }
            let outcome: RecvOutcome = self.serial.try_recv_byte();
            let ghost before = self@;
            let ghost n = old(self)@.trace.len() as int;
            let ghost d = event_bytes(before.trace.skip(n));
            match self.rx.handle(outcome) {
                Ok(Progress::Stalled) => {
                    return Ok(false);
                },
                Ok(progress) => {
                    let ghost byte = outcome->Byte_0;
                    self.trace = Ghost(self.trace@.push(LinkEvent::Received(byte)));
                    proof {
                        let d2 = event_bytes(self@.trace.skip(n));
                        assert(d2 =~= d.push(byte));
                        assert(d2.drop_last() =~= d);
                        assert(self@.trace =~= old(self)@.trace + received_events(d2));
                        assert forall|j: int| 0 <= j < d2.len() implies !(
                        #[trigger] old(self)@.rx.feed(d2.take(j))).is_complete() by {
                            if j < d.len() {
                                assert(d2.take(j) =~= d.take(j));
                            } else {
                                assert(d2.take(j) =~= d);
                            }
                        }
                    }
                    if progress == Progress::Done {
                        return Ok(true);
                    }
                },
                Err(e) => {
                    return Err(e);
                },
            }
            budget -= 1;
        }
        Ok(self.rx.is_frame_complete())
    }

    /// Service the connection.
    ///
    /// Advances the send machine, then the receive machine, each as far as
    /// the transport allows, and reports which of the two is done. A
    /// failure of the transport is handed on; the machines stay where the
    /// failure found them.
    pub fn tick(&mut self) -> (r: Result<TickProgress, Error>)
        requires
            old(self).wf(),
        ensures
            final(self).wf(),
            tick_step(old(self)@, final(self)@),
            final(self)@.trace == old(self)@.trace ==> final(self)@ == old(self)@,
            r matches Ok(progress) ==> {
                &&& progress.send_is_done == final(self)@.tx.is_idle()
                &&& progress.recv_is_done == final(self)@.rx.is_complete()
            },
            r matches Err(e) ==> {
                &&& e.kind() == ErrorKind::Transport
                &&& e.message() == send_failure_text() || e.message() == recv_failure_text()
                &&& e.message() == send_failure_text() ==> send_step(old(self)@, final(self)@)
            },
            old(self)@.tx.is_idle() && old(self)@.rx.is_complete() ==> r is Ok && *final(self)
                == *old(self),
    {
        proof {
            self.lemma_view_wf();
            lemma_failure_texts_differ();
        }
        let send_is_done: bool = match self.send_tick() {
            Ok(done) => done,
            Err(e) => {
                proof {
                    let d = event_bytes(self@.trace.skip(self@.trace.len() as int));
                    assert(d =~= Seq::<u8>::empty());
                    assert(self@.trace + received_events(d) =~= self@.trace);
                }
                return Err(e);
            },
        };
        let recv_is_done: bool = match self.recv_tick() {
            Ok(done) => done,
            Err(e) => {
                return Err(e);
            },
        };
        Ok(TickProgress { send_is_done, recv_is_done })
    }
}

} // verus!
