//! What holds of the two machines together: a frame that one connection
//! sends is the frame that another receives.

use vstd::prelude::*;
use crate::connection::{
    event_bytes, received_events, recv_step, send_step, sent_events, ConnView,
};
use crate::receiver::RxView;
use crate::sender::TxView;
use crate::wire::{
    frame_image, lemma_length_round_trip, length_bytes, MAX_FRAME_LEN, SENTINEL,
};

verus! {

/// Feeding a stream in two parts is feeding it whole.
pub proof fn lemma_feed_append(rx: RxView, first: Seq<u8>, second: Seq<u8>)
    ensures
        rx.feed(first + second) == rx.feed(first).feed(second),
    decreases second.len(),
{
    if second.len() == 0 {
        assert(first + second =~= first);
    } else {
        lemma_feed_append(rx, first, second.drop_last());
        assert((first + second).drop_last() =~= first + second.drop_last());
        assert((first + second).last() == second.last());
    }
}

/// Where a receiver that waited for a sentinel stands after the first
/// `taken` bytes of the wire image of `frame`.
pub open spec fn within_frame(frame: Seq<u8>, taken: nat) -> RxView {
    if taken == 0 {
        RxView::Unknown
    } else if taken == 1 {
        RxView::Header { got: Seq::empty() }
    } else if taken == 2 {
        RxView::Header { got: seq![length_bytes(frame.len())[0]] }
    } else {
        RxView::Data { length: frame.len(), payload: frame.take(taken - 3) }
    }
}

/// A receiver that waits for a sentinel and is fed the first `taken` bytes
/// of a wire image stands at `within_frame`: it has a whole frame after the
/// last byte, and not before.
pub proof fn lemma_feed_within_frame(frame: Seq<u8>, taken: nat)
    requires
        frame.len() <= MAX_FRAME_LEN,
        taken <= frame.len() + 3,
    ensures
        RxView::Unknown.feed(frame_image(frame).take(taken as int)) == within_frame(frame, taken),
        within_frame(frame, taken).is_complete() <==> taken == frame.len() + 3,
    decreases taken,
{
    let image = frame_image(frame);
    let part = image.take(taken as int);
    if taken == 0 {
    } else {
        let before = (taken - 1) as nat;
        lemma_feed_within_frame(frame, before);
        assert(part.drop_last() =~= image.take(before as int));
        assert(part.last() == image[before as int]);
        if taken == 3 {
            lemma_length_round_trip(frame.len());
            assert(frame.take(0) =~= Seq::<u8>::empty());
        } else if taken > 3 {
            assert(image[before as int] == frame[before - 3]);
            assert(frame.take(before - 3).push(frame[before - 3]) =~= frame.take(taken - 3));
        }
    }
}

/// A frame on the wire, fed to a receiver that waits for a sentinel, comes
/// out as it went in: the receiver then holds exactly the payload, the
/// frame can be picked up, and picking it up leaves the receiver waiting
/// for the next sentinel, with no frame to pick up a second time.
pub proof fn law_round_trip(frame: Seq<u8>)
    requires
        frame.len() <= MAX_FRAME_LEN,
    ensures
        RxView::Unknown.feed(frame_image(frame)) == (RxView::Data {
            length: frame.len(),
            payload: frame,
        }),
        RxView::Unknown.feed(frame_image(frame)).is_complete(),
        RxView::Unknown.feed(frame_image(frame)).picked_up() == RxView::Unknown,
        !RxView::Unknown.is_complete(),
{
    let image = frame_image(frame);
    lemma_feed_within_frame(frame, (frame.len() + 3) as nat);
    assert(image.take(image.len() as int) =~= image);
    assert(frame.take(frame.len() as int) =~= frame);
}

/// Bytes that hold no sentinel leave a receiver that waits for one
/// waiting.
pub proof fn lemma_noise_is_discarded(noise: Seq<u8>)
    requires
        forall|i: int| 0 <= i < noise.len() ==> noise[i] != SENTINEL,
    ensures
        RxView::Unknown.feed(noise) == RxView::Unknown,
    decreases noise.len(),
{
    if noise.len() > 0 {
        lemma_noise_is_discarded(noise.drop_last());
    }
}

/// Noise before a frame does no harm: after any bytes that hold no
/// sentinel, the frame on the wire still comes out as it went in.
pub proof fn law_resync_after_noise(noise: Seq<u8>, frame: Seq<u8>)
    requires
        forall|i: int| 0 <= i < noise.len() ==> noise[i] != SENTINEL,
        frame.len() <= MAX_FRAME_LEN,
    ensures
        RxView::Unknown.feed(noise + frame_image(frame)) == (RxView::Data {
            length: frame.len(),
            payload: frame,
        }),
{
    lemma_noise_is_discarded(noise);
    law_round_trip(frame);
    lemma_feed_append(RxView::Unknown, noise, frame_image(frame));
}

/// A frame that is scheduled goes out as its wire image, and the sender is
/// idle once the last byte of it has been accepted, not before, and stays
/// idle from then on.
pub proof fn law_send_completes(frame: Seq<u8>, accepted: nat)
    requires
        frame.len() <= MAX_FRAME_LEN,
    ensures
        (TxView::Sending { frame, sent: 0 }).wf(),
        (TxView::Sending { frame, sent: 0 }).remaining() == frame_image(frame),
        (TxView::Sending { frame, sent: 0 }).after(accepted).is_idle() <==> accepted >= frame.len()
            + 3,
        TxView::Idle.after(accepted) == TxView::Idle,
{
    assert(frame_image(frame).skip(0) =~= frame_image(frame));
}

/// A send step that takes a connection from a frame just scheduled to an
/// idle sender has put exactly the wire image of the frame on the link.
pub proof fn law_full_send(pre: ConnView, post: ConnView, frame: Seq<u8>)
    requires
        frame.len() <= MAX_FRAME_LEN,
        pre.tx == (TxView::Sending { frame, sent: 0 }),
        send_step(pre, post),
        post.tx.is_idle(),
    ensures
        post.trace == pre.trace + sent_events(frame_image(frame)),
{
    let image = frame_image(frame);
    assert(image.skip(0) =~= image);
    assert(image.take(image.len() as int) =~= image);
}

/// Send steps add up: what two send steps do one after the other, one
/// send step may do.
pub proof fn lemma_send_steps_compose(first: ConnView, second: ConnView, third: ConnView)
    requires
        first.tx.wf(),
        send_step(first, second),
        send_step(second, third),
    ensures
        send_step(first, third),
{
    let rem = first.tx.remaining();
    let k1 = second.trace.len() - first.trace.len();
    let k2 = third.trace.len() - second.trace.len();
    assert(second.tx.remaining() =~= rem.skip(k1));
    assert(sent_events(rem.take(k1)) + sent_events(rem.skip(k1).take(k2)) =~= sent_events(
        rem.take(k1 + k2),
    ));
    assert(third.trace =~= first.trace + sent_events(rem.take(k1 + k2)));
}

/// Receive steps add up: what two receive steps do one after the other,
/// one receive step may do.
pub proof fn lemma_recv_steps_compose(first: ConnView, second: ConnView, third: ConnView)
    requires
        recv_step(first, second),
        recv_step(second, third),
    ensures
        recv_step(first, third),
{
    let d1 = event_bytes(second.trace.skip(first.trace.len() as int));
    let d2 = event_bytes(third.trace.skip(second.trace.len() as int));
    let d = event_bytes(third.trace.skip(first.trace.len() as int));
    assert(d =~= d1 + d2);
    assert(third.trace =~= first.trace + received_events(d));
    lemma_feed_append(first.rx, d1, d2);
    assert forall|j: int| 0 <= j < d.len() implies !(#[trigger] first.rx.feed(
        d.take(j),
    )).is_complete() by {
        if j < d1.len() {
            assert(d.take(j) =~= d1.take(j));
        } else {
            assert(d.take(j) =~= d1 + d2.take(j - d1.len()));
            lemma_feed_append(first.rx, d1, d2.take(j - d1.len()));
        }
    }
}

/// A receive step that starts from a receiver waiting for a sentinel and in
/// which exactly the wire image of `frame` is delivered ends with `frame`
/// complete and ready to be picked up.
pub proof fn law_full_receive(pre: ConnView, post: ConnView, frame: Seq<u8>)
    requires
        frame.len() <= MAX_FRAME_LEN,
        pre.rx == RxView::Unknown,
        recv_step(pre, post),
        post.trace == pre.trace + received_events(frame_image(frame)),
    ensures
        post.rx == (RxView::Data { length: frame.len(), payload: frame }),
        post.rx.is_complete(),
{
    let image = frame_image(frame);
    let d = event_bytes(post.trace.skip(pre.trace.len() as int));
    assert(post.trace.skip(pre.trace.len() as int) =~= received_events(image));
    assert(d =~= image);
    law_round_trip(frame);
}

/// The wire images of `frames`, one after the other.
pub open spec fn stream_of(frames: Seq<Seq<u8>>) -> Seq<u8>
    decreases frames.len(),
{
    if frames.len() == 0 {
        Seq::empty()
    } else {
        stream_of(frames.drop_last()) + frame_image(frames.last())
    }
}

/// A receiver that is fed `stream` and has each frame picked up as soon as
/// it is complete: where it stands at the end, and the frames picked up.
pub open spec fn receive_all(rx: RxView, stream: Seq<u8>) -> (RxView, Seq<Seq<u8>>)
    decreases stream.len(),
{
    if stream.len() == 0 {
        (rx, Seq::empty())
    } else {
        let (before, frames) = receive_all(rx, stream.drop_last());
        let now = before.step(stream.last());
        if now.is_complete() {
            (now.picked_up(), frames.push(now->payload))
        } else {
            (now, frames)
        }
    }
}

/// Receiving a stream in two parts is receiving it whole.
pub proof fn lemma_receive_all_append(rx: RxView, first: Seq<u8>, second: Seq<u8>)
    ensures
        receive_all(rx, first + second) == (
            receive_all(receive_all(rx, first).0, second).0,
            receive_all(rx, first).1 + receive_all(receive_all(rx, first).0, second).1,
        ),
    decreases second.len(),
{
    let mid = receive_all(rx, first);
    if second.len() == 0 {
        assert(first + second =~= first);
        assert(mid.1 + Seq::<Seq<u8>>::empty() =~= mid.1);
    } else {
        lemma_receive_all_append(rx, first, second.drop_last());
        assert((first + second).drop_last() =~= first + second.drop_last());
        assert((first + second).last() == second.last());
        let part = receive_all(mid.0, second.drop_last());
        let now = part.0.step(second.last());
        assert((mid.1 + part.1).push(now->payload) =~= mid.1 + part.1.push(now->payload));
    }
}

/// Inside a frame nothing is picked up: a receiver that waited for a
/// sentinel and was fed less than a whole wire image stands where feeding
/// put it.
pub proof fn lemma_receive_within_frame(frame: Seq<u8>, taken: nat)
    requires
        frame.len() <= MAX_FRAME_LEN,
        taken < frame.len() + 3,
    ensures
        receive_all(RxView::Unknown, frame_image(frame).take(taken as int)) == (
            within_frame(frame, taken),
            Seq::<Seq<u8>>::empty(),
        ),
    decreases taken,
{
    let image = frame_image(frame);
    let part = image.take(taken as int);
    if taken > 0 {
        let before = (taken - 1) as nat;
        lemma_receive_within_frame(frame, before);
        lemma_feed_within_frame(frame, before);
        lemma_feed_within_frame(frame, taken);
        assert(part.drop_last() =~= image.take(before as int));
        assert(RxView::Unknown.feed(part) == RxView::Unknown.feed(part.drop_last()).step(
            part.last(),
        ));
    }
}

/// One frame on the wire is picked up as that frame, and the receiver
/// waits for the next sentinel.
pub proof fn lemma_receive_one(frame: Seq<u8>)
    requires
        frame.len() <= MAX_FRAME_LEN,
    ensures
        receive_all(RxView::Unknown, frame_image(frame)) == (RxView::Unknown, seq![frame]),
{
    let image = frame_image(frame);
    let before = (frame.len() + 2) as nat;
    lemma_receive_within_frame(frame, before);
    lemma_feed_within_frame(frame, before);
    law_round_trip(frame);
    assert(image.drop_last() =~= image.take(before as int));
    assert(RxView::Unknown.feed(image) == RxView::Unknown.feed(image.drop_last()).step(
        image.last(),
    ));
    assert(Seq::<Seq<u8>>::empty().push(frame) =~= seq![frame]);
}

/// Loopback: frames sent one after the other over a link that loses
/// nothing are received as the same frames in the same order, and the
/// receiver ends up waiting for the next sentinel.
pub proof fn law_loopback(frames: Seq<Seq<u8>>)
    requires
        forall|i: int| 0 <= i < frames.len() ==> (#[trigger] frames[i]).len() <= MAX_FRAME_LEN,
    ensures
        receive_all(RxView::Unknown, stream_of(frames)) == (RxView::Unknown, frames),
    decreases frames.len(),
{
    if frames.len() > 0 {
        let earlier = frames.drop_last();
        law_loopback(earlier);
        lemma_receive_one(frames.last());
        lemma_receive_all_append(
            RxView::Unknown,
            stream_of(earlier),
            frame_image(frames.last()),
        );
        assert(earlier + seq![frames.last()] =~= frames);
    }
}

} // verus!
