use framed_serial::{
    ErrorKind, FramedConnection, RecvOutcome, SendOutcome, Transport, MAX_FRAME_LEN, SENTINEL,
};
use std::cell::RefCell;
use std::collections::VecDeque;
use std::rc::Rc;

/// A transport whose two directions the test holds on to: it records what
/// is sent and delivers what the test has queued.
struct Tap {
    wire: Rc<RefCell<Vec<u8>>>,
    feed: Rc<RefCell<VecDeque<u8>>>,
}

struct Probe {
    wire: Rc<RefCell<Vec<u8>>>,
    feed: Rc<RefCell<VecDeque<u8>>>,
}

fn tap() -> (Tap, Probe) {
    let wire = Rc::new(RefCell::new(Vec::new()));
    let feed = Rc::new(RefCell::new(VecDeque::new()));
    (Tap { wire: wire.clone(), feed: feed.clone() }, Probe { wire, feed })
}

impl Probe {
    fn sent(&self) -> Vec<u8> {
        self.wire.borrow().clone()
    }

    fn deliver(&self, bytes: &[u8]) {
        for b in bytes {
            self.feed.borrow_mut().push_back(*b);
        }
    }

    fn undelivered(&self) -> usize {
        self.feed.borrow().len()
    }
}

impl Transport for Tap {
    fn try_recv_byte(&mut self) -> RecvOutcome {
        match self.feed.borrow_mut().pop_front() {
            Some(byte) => RecvOutcome::Byte(byte),
            None => RecvOutcome::NoData,
        }
    }

    fn try_send_byte(&mut self, byte: u8) -> SendOutcome {
        self.wire.borrow_mut().push(byte);
        SendOutcome::Accepted
    }
}

#[test]
fn constants_of_the_format() {
    assert_eq!(SENTINEL, 0xFF);
    assert_eq!(MAX_FRAME_LEN, 65535);
}

#[test]
fn three_byte_frame_on_the_wire() {
    let (transport, probe) = tap();
    let mut conn = FramedConnection::new(transport);
    conn.schedule_send(vec![0x31, 0x32, 0x33]).unwrap();
    assert!(probe.sent().is_empty());
    let progress = conn.tick().unwrap();
    assert!(progress.send_is_done);
    assert!(!progress.recv_is_done);
    assert_eq!(probe.sent(), vec![0xFF, 0x03, 0x00, 0x31, 0x32, 0x33]);
    probe.deliver(&probe.sent());
    assert!(conn.tick().unwrap().recv_is_done);
    assert_eq!(conn.get_frame().unwrap(), vec![0x31, 0x32, 0x33]);
}

#[test]
fn empty_frame_on_the_wire() {
    let (transport, probe) = tap();
    let mut conn = FramedConnection::new(transport);
    conn.schedule_send(Vec::new()).unwrap();
    assert!(conn.tick().unwrap().send_is_done);
    assert_eq!(probe.sent(), vec![0xFF, 0x00, 0x00]);
    probe.deliver(&[0xFF, 0x00, 0x00]);
    assert!(conn.tick().unwrap().recv_is_done);
    assert_eq!(conn.get_frame().unwrap(), Vec::<u8>::new());
}

#[test]
fn length_is_little_endian_on_the_wire() {
    let (transport, probe) = tap();
    let mut conn = FramedConnection::new(transport);
    conn.schedule_send(vec![0xAB; 258]).unwrap();
    assert!(conn.tick().unwrap().send_is_done);
    let sent = probe.sent();
    assert_eq!(sent.len(), 261);
    assert_eq!(&sent[..3], &[0xFF, 0x02, 0x01]);
    assert!(sent[3..].iter().all(|b| *b == 0xAB));
}

#[test]
fn largest_length_on_the_wire() {
    let (transport, probe) = tap();
    let mut conn = FramedConnection::new(transport);
    conn.schedule_send(vec![0x55; 65535]).unwrap();
    assert!(conn.tick().unwrap().send_is_done);
    let sent = probe.sent();
    assert_eq!(sent.len(), 65538);
    assert_eq!(&sent[..3], &[0xFF, 0xFF, 0xFF]);
}

#[test]
fn length_is_read_little_endian() {
    let (transport, probe) = tap();
    let mut conn = FramedConnection::new(transport);
    probe.deliver(&[0xFF, 0x02, 0x01]);
    probe.deliver(&[0x11; 257]);
    assert!(!conn.tick().unwrap().recv_is_done);
    assert!(conn.get_frame().is_err());
    probe.deliver(&[0x22]);
    assert!(conn.tick().unwrap().recv_is_done);
    let frame = conn.get_frame().unwrap();
    assert_eq!(frame.len(), 258);
    assert_eq!(frame[256], 0x11);
    assert_eq!(frame[257], 0x22);
}

#[test]
fn noise_before_the_sentinel_is_discarded() {
    let (transport, probe) = tap();
    let mut conn = FramedConnection::new(transport);
    probe.deliver(&[0x00, 0x7F, 0xAA]);
    probe.deliver(&[0xFF, 0x02, 0x00, 0x41, 0x42]);
    assert!(conn.tick().unwrap().recv_is_done);
    assert_eq!(conn.get_frame().unwrap(), vec![0x41, 0x42]);
}

#[test]
fn noise_alone_completes_nothing() {
    let (transport, probe) = tap();
    let mut conn = FramedConnection::new(transport);
    probe.deliver(&[0x00, 0x7F, 0xAA, 0x01, 0xFE]);
    assert!(!conn.tick().unwrap().recv_is_done);
    assert_eq!(probe.undelivered(), 0);
    assert_eq!(conn.get_frame().unwrap_err().kind(), ErrorKind::NotReady);
}

#[test]
fn sentinel_as_the_only_payload_byte() {
    let (transport, probe) = tap();
    let mut conn = FramedConnection::new(transport);
    probe.deliver(&[0xFF, 0x01, 0x00, 0xFF]);
    assert!(conn.tick().unwrap().recv_is_done);
    assert_eq!(conn.get_frame().unwrap(), vec![0xFF]);
}

#[test]
fn sentinel_is_not_looked_for_inside_a_frame() {
    let (transport, probe) = tap();
    let mut conn = FramedConnection::new(transport);
    probe.deliver(&[0xFF, 0x04, 0x00, 0xFF, 0x01, 0x00, 0x09]);
    assert!(conn.tick().unwrap().recv_is_done);
    assert_eq!(conn.get_frame().unwrap(), vec![0xFF, 0x01, 0x00, 0x09]);
}

#[test]
fn bytes_after_a_complete_frame_wait_for_the_pickup() {
    let (transport, probe) = tap();
    let mut conn = FramedConnection::new(transport);
    probe.deliver(&[0xFF, 0x01, 0x00, 0x61]);
    probe.deliver(&[0xFF, 0x02, 0x00, 0x62, 0x63]);
    assert!(conn.tick().unwrap().recv_is_done);
    assert_eq!(probe.undelivered(), 5);
    assert!(conn.tick().unwrap().recv_is_done);
    assert_eq!(probe.undelivered(), 5);
    assert_eq!(conn.get_frame().unwrap(), vec![0x61]);
    assert!(conn.tick().unwrap().recv_is_done);
    assert_eq!(probe.undelivered(), 0);
    assert_eq!(conn.get_frame().unwrap(), vec![0x62, 0x63]);
}

#[test]
fn frame_arriving_in_pieces() {
    let (transport, probe) = tap();
    let mut conn = FramedConnection::new(transport);
    let image = [0xFF, 0x03, 0x00, 0x0A, 0x0B, 0x0C];
    for (i, byte) in image.iter().enumerate() {
        assert!(!conn.tick().unwrap().recv_is_done);
        probe.deliver(&[*byte]);
        let done = conn.tick().unwrap().recv_is_done;
        assert_eq!(done, i == image.len() - 1);
    }
    assert_eq!(conn.get_frame().unwrap(), vec![0x0A, 0x0B, 0x0C]);
}

#[test]
fn tick_sends_before_it_receives() {
    struct Echo {
        held: VecDeque<u8>,
    }
    impl Transport for Echo {
        fn try_recv_byte(&mut self) -> RecvOutcome {
            match self.held.pop_front() {
                Some(byte) => RecvOutcome::Byte(byte),
                None => RecvOutcome::NoData,
            }
        }
        fn try_send_byte(&mut self, byte: u8) -> SendOutcome {
            self.held.push_back(byte);
            SendOutcome::Accepted
        }
    }
    let mut conn = FramedConnection::new(Echo { held: VecDeque::new() });
    conn.schedule_send(vec![5, 6]).unwrap();
    let progress = conn.tick().unwrap();
    assert!(progress.send_is_done);
    assert!(progress.recv_is_done);
    assert_eq!(conn.get_frame().unwrap(), vec![5, 6]);
}
