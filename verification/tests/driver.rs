//! Two drivers on a virtual clock.

use mousehop::driver::{derive_ids, envelope, first_ids, Arrival, Driver, Status, Taken};
use mousehop::event::{Codec, Decoded};
use mousehop::fault::Fault;
use mousehop::frame::{Frame, CAP_KCP_INPUT_V1, CAP_KCP_REQUEST, CAP_UDP_MOTION_V1};
use mousehop::lifecycle::{Link, Request, Runtime};
use mousehop::peer::{
    attachment, dispatch, judge, overflow, pick, replace, Admission, Completion, Dispatch, Lane,
    WirePacket,
};
use mousehop::policy::{InputTransport, PeerTimeout, StallTimeout, Timeouts};
use mousehop::protocol::{Control, Envelope, Kind, Role, CAP_INPUT_RECOVERY_V1};
use mousehop::recovery::Input;

/// The length of the longest fixed event.
const EVENT: usize = 32;

/// The length of the longest display layout.
const LAYOUT: usize = 512;

/// The events of a small event format: a tag, then the fields.
#[derive(Clone, Debug, PartialEq)]
enum Proto {
    Motion { time: u32, dx: f64, dy: f64 },
    HandoverMotion { serial: u32, time: u32, dx: f64, dy: f64 },
    HandoverLeave { serial: u32, mode: u32 },
    Ack(u32),
    Key { key: u32, state: u8 },
    Hello { magic: u32, capabilities: u32 },
    Ping,
    Clipboard(Vec<u8>),
}

const MAGIC: u32 = 0x4d48_4f50;

fn encode(event: Proto) -> Vec<u8> {
    let mut bytes = Vec::new();
    match event {
        Proto::Motion { time, dx, dy } => {
            bytes.push(1);
            bytes.extend(time.to_le_bytes());
            bytes.extend(dx.to_le_bytes());
            bytes.extend(dy.to_le_bytes());
        }
        Proto::HandoverMotion {
            serial,
            time,
            dx,
            dy,
        } => {
            bytes.push(2);
            bytes.extend(serial.to_le_bytes());
            bytes.extend(time.to_le_bytes());
            bytes.extend(dx.to_le_bytes());
            bytes.extend(dy.to_le_bytes());
        }
        Proto::HandoverLeave { serial, mode } => {
            bytes.push(3);
            bytes.extend(serial.to_le_bytes());
            bytes.extend(mode.to_le_bytes());
        }
        Proto::Ack(serial) => {
            bytes.push(4);
            bytes.extend(serial.to_le_bytes());
        }
        Proto::Key { key, state } => {
            bytes.push(5);
            bytes.extend(key.to_le_bytes());
            bytes.push(state);
        }
        Proto::Hello {
            magic,
            capabilities,
        } => {
            bytes.push(6);
            bytes.extend(magic.to_le_bytes());
            bytes.extend(capabilities.to_le_bytes());
        }
        Proto::Ping => bytes.push(7),
        Proto::Clipboard(text) => {
            bytes.push(8);
            bytes.extend(text);
        }
    }
    bytes
}

fn word(bytes: &[u8], at: usize) -> u32 {
    u32::from_le_bytes(bytes[at..at + 4].try_into().unwrap())
}

fn double(bytes: &[u8], at: usize) -> f64 {
    f64::from_le_bytes(bytes[at..at + 8].try_into().unwrap())
}

fn read(bytes: &[u8]) -> Option<Proto> {
    Some(match (bytes.first()?, bytes.len()) {
        (1, 21) => Proto::Motion {
            time: word(bytes, 1),
            dx: double(bytes, 5),
            dy: double(bytes, 13),
        },
        (2, 25) => Proto::HandoverMotion {
            serial: word(bytes, 1),
            time: word(bytes, 5),
            dx: double(bytes, 9),
            dy: double(bytes, 17),
        },
        (3, 9) => Proto::HandoverLeave {
            serial: word(bytes, 1),
            mode: word(bytes, 5),
        },
        (4, 5) => Proto::Ack(word(bytes, 1)),
        (5, 6) => Proto::Key {
            key: word(bytes, 1),
            state: bytes[5],
        },
        (6, 9) => Proto::Hello {
            magic: word(bytes, 1),
            capabilities: word(bytes, 5),
        },
        (7, 1) => Proto::Ping,
        (8, _) => Proto::Clipboard(bytes[1..].to_vec()),
        _ => return None,
    })
}

struct Format;

impl Codec for Format {
    fn event_limit(&self) -> usize {
        EVENT
    }

    fn layout_limit(&self) -> usize {
        LAYOUT
    }

    fn fixed(&self, bytes: &Vec<u8>) -> Decoded {
        match read(bytes) {
            Some(Proto::Clipboard(_)) => Decoded::Malformed,
            _ => self.any(bytes),
        }
    }

    fn any(&self, bytes: &Vec<u8>) -> Decoded {
        match read(bytes) {
            None => Decoded::Malformed,
            Some(Proto::Motion { dx, dy, .. } | Proto::HandoverMotion { dx, dy, .. }) => {
                Decoded::Motion {
                    dx: dx.to_bits(),
                    dy: dy.to_bits(),
                }
            }
            Some(Proto::Hello {
                magic,
                capabilities,
            }) => Decoded::Hello {
                native: magic == MAGIC,
                capabilities,
            },
            Some(Proto::Ping) => Decoded::Heartbeat,
            Some(Proto::Clipboard(_)) => Decoded::Clipboard,
            Some(_) => Decoded::Other,
        }
    }

    fn moved(&self, event: &Vec<u8>, x: u64, y: u64) -> Vec<u8> {
        match read(event) {
            Some(Proto::Motion { time, .. }) => encode(Proto::Motion {
                time,
                dx: f64::from_bits(x),
                dy: f64::from_bits(y),
            }),
            Some(Proto::HandoverMotion { serial, time, .. }) => encode(Proto::HandoverMotion {
                serial,
                time,
                dx: f64::from_bits(x),
                dy: f64::from_bits(y),
            }),
            _ => event.clone(),
        }
    }

    fn greeting(&self, hello: &Vec<u8>, capabilities: u32) -> Vec<u8> {
        match read(hello) {
            Some(Proto::Hello { magic, .. }) => encode(Proto::Hello {
                magic,
                capabilities,
            }),
            _ => hello.clone(),
        }
    }

    fn plus(&self, a: u64, b: u64) -> u64 {
        (f64::from_bits(a) + f64::from_bits(b)).to_bits()
    }

    fn minus(&self, a: u64, b: u64) -> u64 {
        (f64::from_bits(a) - f64::from_bits(b)).to_bits()
    }
}

/// One end of a connection on a virtual clock.
struct End {
    driver: Driver,
    link: Link,
    wire: Vec<Vec<u8>>,
    got: Vec<Vec<u8>>,
    status: Option<Status>,
    fault: Option<Fault>,
}

impl End {
    fn new(dialer: bool, recoverable: bool) -> Self {
        let timeouts = Timeouts {
            stall: StallTimeout::try_from(600).unwrap(),
            peer: PeerTimeout::try_from(3000).unwrap(),
        };
        End {
            driver: Driver::new(dialer, recoverable, timeouts, EVENT, LAYOUT, 77),
            link: Link::default(),
            wire: Vec::new(),
            got: Vec::new(),
            status: None,
            fault: None,
        }
    }

    fn say(&mut self, event: Proto, now: u64) {
        let bytes = encode(event);
        let generation = self.link.generation();
        let decoded = Format.any(&bytes);
        assert!(self.driver.accepts_command(&self.link));
        match self
            .driver
            .command(&Format, decoded, bytes, &generation, &self.link, now)
        {
            Ok(Taken::Motion(packet)) => self.wire.push(packet.bytes),
            Ok(_) => {}
            Err(fault) => self.fault = Some(fault),
        }
        self.flush(now);
    }

    fn hear(&mut self, bytes: Vec<u8>, now: u64) {
        if self.fault.is_some() {
            return;
        }
        assert!(self.driver.accepts_packet());
        match self.driver.packet(&Format, bytes, &mut self.link, now) {
            Ok(Arrival::Deliver(delivery)) => self.got.push(delivery.bytes),
            Ok(_) => {}
            Err(fault) => self.fault = Some(fault),
        }
    }

    /// The local input owner answers at once.
    fn obey(&mut self) {
        match self.link.request() {
            Some(Request::Barrier(round)) => {
                let here = self.link.baseline(4.0f64.to_bits(), 0, 9).unwrap();
                self.link.barrier_done(round, Ok(here));
            }
            Some(Request::Install { round, .. }) => self.link.installed(round, Ok(())),
            Some(Request::Resumed { .. }) | None => {}
        }
    }

    fn flush(&mut self, now: u64) {
        while self.fault.is_none() && self.driver.wants_output(now) {
            match self.driver.next_output(&self.link, now) {
                Ok(Some(packet)) => self.wire.push(packet.bytes),
                Ok(None) => break,
                Err(fault) => self.fault = Some(fault),
            }
        }
        self.wire.append(&mut self.driver.controls);
    }

    fn turn(&mut self, now: u64) {
        if self.fault.is_some() {
            return;
        }
        let turned = self
            .driver
            .tick(&mut self.link, now)
            .and_then(|()| self.driver.settle(&mut self.link, now))
            .and_then(|_| self.driver.conclude(&mut self.link, now));
        match turned {
            Ok(status) => {
                if status.is_some() {
                    self.status = status;
                }
            }
            Err(fault) => {
                self.fault = Some(fault);
                return;
            }
        }
        self.obey();
        while self.fault.is_none() && self.driver.wants_delivery(now) {
            match self.driver.deliver(&Format, &self.link, now) {
                Ok(Some(delivery)) => {
                    if let Some(receipt) = delivery.receipt {
                        assert!(receipt.valid(false, &self.link, now));
                        let done = (receipt.sequence, receipt.generation());
                        if receipt.complete(false, &self.link, now) == Completion::Reported {
                            self.driver
                                .completed(done.0, &done.1, &self.link, now)
                                .unwrap();
                        }
                    }
                    self.got.push(delivery.bytes);
                }
                Ok(None) => break,
                Err(fault) => self.fault = Some(fault),
            }
        }
        self.flush(now);
    }
}

/// Both ends turn, and hear what the other one said.
fn exchange(a: &mut End, b: &mut End, now: u64) {
    a.turn(now);
    b.turn(now);
    for bytes in std::mem::take(&mut a.wire) {
        b.hear(bytes, now);
    }
    for bytes in std::mem::take(&mut b.wire) {
        a.hear(bytes, now);
    }
}

fn hello(capabilities: u32) -> Proto {
    Proto::Hello {
        magic: MAGIC,
        capabilities,
    }
}

fn connect(recoverable: (bool, bool)) -> (End, End) {
    let mut a = End::new(true, recoverable.0);
    let mut b = End::new(false, recoverable.1);
    a.say(hello(0), 0);
    b.say(hello(0), 0);
    for now in (0..100).step_by(10) {
        exchange(&mut a, &mut b, now);
    }
    assert_eq!((a.fault, b.fault), (None, None));
    assert!(a.driver.session.ready() && b.driver.session.ready());
    assert_eq!((a.status, b.status), (Some(Status::Kcp), Some(Status::Kcp)));
    a.got.clear();
    b.got.clear();
    (a, b)
}

fn key(key: u32, state: u8) -> Proto {
    Proto::Key { key, state }
}

#[test]
fn both_ends_negotiate_and_input_arrives_in_order() {
    let (mut a, mut b) = connect((false, false));
    for n in 0..10 {
        a.say(key(n, 1), 100);
    }
    for now in (100..200).step_by(10) {
        exchange(&mut a, &mut b, now);
    }
    let expected: Vec<Vec<u8>> = (0..10).map(|n| encode(key(n, 1))).collect();
    assert_eq!(b.got, expected);
    assert_eq!(Status::Kcp.text(), "KCP");
    assert_eq!(Status::Legacy.text(), "Legacy");
    assert_eq!(Status::Recovering.text(), "Recovering");
}

#[test]
fn motion_that_was_lost_precedes_the_key_that_followed() {
    let (mut a, mut b) = connect((false, false));
    let motion = |dx: f64| Proto::Motion {
        time: 1,
        dx,
        dy: 0.0,
    };
    a.say(motion(2.0), 100);
    a.say(motion(3.0), 100);
    a.wire.clear();
    a.say(key(30, 1), 110);
    for now in (110..200).step_by(10) {
        exchange(&mut a, &mut b, now);
    }
    assert_eq!(b.got, vec![encode(motion(5.0)), encode(key(30, 1))]);
}

#[test]
fn a_stalled_end_recovers_on_the_same_connection() {
    let (mut a, mut b) = connect((true, true));
    a.link.ownership(Some(1), Role::Dialer);
    b.link.ownership(Some(1), Role::Dialer);
    let old = a.link.generation();
    assert!(old.is_some());
    a.say(key(1, 1), 100);
    for now in (100..150).step_by(10) {
        exchange(&mut a, &mut b, now);
    }
    assert_eq!(b.got, vec![encode(key(1, 1))]);
    a.link.stall();
    let mut shown = Vec::new();
    for now in (150..1000).step_by(10) {
        exchange(&mut a, &mut b, now);
        shown.push(a.status);
    }
    assert_eq!((a.fault, b.fault), (None, None));
    assert!(shown.contains(&Some(Status::Recovering)));
    assert_eq!(a.status, Some(Status::Kcp));
    assert_eq!(a.driver.runtime.as_ref().unwrap().machine().epoch(), 1);
    b.got.clear();
    // Input of the old generation is dropped, input of the new one arrives.
    let bytes = encode(key(2, 1));
    let taken = a
        .driver
        .command(&Format, Decoded::Other, bytes, &old, &a.link, 1000);
    assert!(matches!(taken, Ok(Taken::Ignored)));
    a.say(key(3, 1), 1000);
    for now in (1000..1100).step_by(10) {
        exchange(&mut a, &mut b, now);
    }
    assert_eq!(b.got, vec![encode(key(3, 1))]);
}

#[test]
fn two_connections_have_two_identities() {
    let (a, _) = connect((true, true));
    let (b, _) = connect((true, true));
    let first = a.driver.runtime.as_ref().unwrap().machine().session();
    let second = b.driver.runtime.as_ref().unwrap().machine().session();
    assert_ne!(first, [0; 16]);
    assert_ne!(first, second);
}

#[test]
fn recovery_needs_both_ends() {
    for recoverable in [(true, false), (false, true), (false, false)] {
        let (a, b) = connect(recoverable);
        assert!(a.driver.runtime.is_none() && b.driver.runtime.is_none());
        assert!(!a.link.enabled() && !b.link.enabled());
    }
}

#[test]
fn greetings_are_held_to_what_was_selected() {
    let mut b = End::new(false, false);
    b.hear(
        encode(Proto::Hello {
            magic: 1,
            capabilities: 0,
        }),
        0,
    );
    assert_eq!(b.fault, Some(Fault::ForeignHello));
    let mut b = End::new(false, false);
    b.hear(encode(hello(CAP_KCP_REQUEST | CAP_KCP_INPUT_V1)), 0);
    assert_eq!(b.fault, None);
    b.hear(encode(hello(0)), 1);
    assert_eq!(b.fault, Some(Fault::TransportChanged));
    let mut b = End::new(false, false);
    b.hear(encode(hello(CAP_KCP_REQUEST | CAP_KCP_INPUT_V1)), 0);
    b.hear(
        encode(hello(CAP_KCP_REQUEST | CAP_KCP_INPUT_V1 | CAP_UDP_MOTION_V1)),
        1,
    );
    assert_eq!(b.fault, Some(Fault::MotionChanged));
    let mut a = End::new(true, false);
    a.hear(encode(hello(0)), 0);
    assert_eq!(a.fault, Some(Fault::Unsupported));
}

#[test]
fn legacy_peers_bypass_the_session() {
    let mut b = End::new(false, false);
    b.hear(encode(hello(0)), 0);
    b.hear(encode(key(30, 1)), 1);
    assert_eq!(b.got, vec![encode(hello(0)), encode(key(30, 1))]);
    b.turn(10);
    assert_eq!(b.status, Some(Status::Legacy));
    let mut early = End::new(false, false);
    early.hear(encode(key(30, 1)), 0);
    assert_eq!(early.fault, Some(Fault::Unselected));
    let mut late = End::new(false, false);
    late.turn(6001);
    assert_eq!(late.fault, Some(Fault::HelloTimeout));
}

#[test]
fn packets_out_of_place_end_the_connection() {
    let (_, mut b) = connect((false, false));
    b.hear(vec![242, 1, 0], 100);
    assert_eq!(b.fault, Some(Fault::Unnegotiated));
    let (_, mut b) = connect((true, true));
    b.hear(vec![240, 2, 0], 100);
    assert_eq!(b.fault, Some(Fault::Unscoped));
    let (_, mut b) = connect((true, true));
    b.hear(vec![242, 1, 0], 100);
    assert_eq!(b.fault, Some(Fault::RecoveryEnvelope));
    let mut b = End::new(false, false);
    b.hear(vec![241, 1, 0], 0);
    assert_eq!(b.fault, Some(Fault::UnnegotiatedMotion));
    let mut b = End::new(false, false);
    b.hear(encode(hello(0)), 0);
    b.hear(vec![240, 2, 0], 0);
    assert_eq!(b.fault, Some(Fault::LegacyFrame));
    let mut a = End::new(true, false);
    assert!(matches!(
        a.driver
            .command(&Format, Decoded::Malformed, vec![99], &None, &a.link, 0),
        Err(Fault::ApplicationSend)
    ));
    a.hear(vec![99], 0);
    assert_eq!(a.fault, None);
}

#[test]
fn a_local_failure_is_final() {
    let (mut a, _) = connect((true, true));
    a.link.fail();
    a.turn(100);
    assert_eq!(a.fault, Some(Fault::SafetyFailure));
}

#[test]
fn ids_are_never_zero() {
    assert_eq!(first_ids(0), (1, 1));
    assert_eq!(first_ids(0x5_0000_0000), (0x5_0000_0000, 1));
    assert_eq!(first_ids(0x5_0000_0007), (0x5_0000_0007, 7));
    let mut identity = [0; 16];
    identity[0] = 6;
    identity[8] = 9;
    assert_eq!(derive_ids(&identity, 1), (7, 8));
    assert_eq!(derive_ids(&identity, 6), (1, 15));
}

#[test]
fn the_writer_takes_turns_and_keeps_deadlines() {
    let mut prefer_motion = false;
    assert_eq!(pick(&mut prefer_motion, false, true, true), Some(Lane::Wire));
    assert_eq!(pick(&mut prefer_motion, false, true, true), Some(Lane::Motion));
    assert_eq!(pick(&mut prefer_motion, true, true, true), Some(Lane::Control));
    assert_eq!(pick(&mut prefer_motion, false, true, false), Some(Lane::Motion));
    assert_eq!(pick(&mut prefer_motion, false, false, false), None);
    let packet = |byte: u8, deadline: u64| WirePacket {
        bytes: vec![byte],
        deadline,
        generation: None,
    };
    let mut slot = None;
    replace(&mut slot, packet(1, 10));
    replace(&mut slot, packet(2, 50));
    let kept = slot.unwrap();
    assert_eq!((kept.bytes, kept.deadline), (vec![2], 10));
    let mut link = Link::default();
    assert_eq!(
        dispatch(&packet(1, 1000), true, 600, &mut link, 100),
        Dispatch::Send { deadline: 700 }
    );
    assert_eq!(
        dispatch(&packet(1, 1000), false, 600, &mut link, 100),
        Dispatch::Send { deadline: 400 }
    );
    assert_eq!(
        dispatch(&packet(1, 100), true, 600, &mut link, 100),
        Dispatch::Failed
    );
}

#[test]
fn what_the_application_sends_is_judged() {
    let mut link = Link::default();
    let other = Decoded::Other;
    assert_eq!(judge(&other, false, false, &link), Admission::Refused);
    assert_eq!(judge(&other, false, true, &link), Admission::Queued);
    assert_eq!(judge(&Decoded::Heartbeat, false, false, &link), Admission::Queued);
    assert_eq!(judge(&Decoded::Heartbeat, true, true, &link), Admission::Refused);
    assert!(!overflow(false, &mut link));
    link.enabled = true;
    assert!(overflow(false, &mut link));
    assert!(link.frozen() && link.stalled);
    assert_eq!(judge(&other, false, true, &link), Admission::Dropped);
    assert_eq!(attachment(Some(InputTransport::Legacy)), None);
    assert_eq!(attachment(Some(InputTransport::KcpRequired)), Some(true));
    assert_eq!(attachment(None), Some(false));
}

/// Sends bytes as the critical part of a reliable message.
fn smuggle(a: &mut End, bytes: Vec<u8>, now: u64) {
    let (_, wire) = a
        .driver
        .sender
        .pack(&Format, Decoded::Other, bytes)
        .unwrap();
    a.driver.session.send(&wire, now).unwrap();
    a.flush(now);
}

#[test]
fn reliable_messages_are_events_of_their_channel() {
    for (bytes, fault) in [
        (vec![99], Fault::ReliableEvent),
        (encode(Proto::Ping), Fault::DirectEvent),
    ] {
        let (mut a, mut b) = connect((false, false));
        smuggle(&mut a, bytes, 100);
        for now in (100..200).step_by(10) {
            exchange(&mut a, &mut b, now);
        }
        assert_eq!(b.fault, Some(fault));
    }
}

#[test]
fn recovery_is_selected_once_and_opened_by_an_offer() {
    let offer = CAP_KCP_REQUEST | CAP_KCP_INPUT_V1;
    let mut b = End::new(false, true);
    b.hear(encode(hello(offer | CAP_INPUT_RECOVERY_V1)), 0);
    b.hear(encode(hello(offer)), 1);
    assert_eq!(b.fault, Some(Fault::RecoveryChanged));
    let mut b = End::new(false, true);
    b.hear(encode(hello(offer | CAP_INPUT_RECOVERY_V1)), 0);
    let control = Envelope::Control(Control {
        session: [1; 16],
        epoch: 0,
        source: Role::Dialer,
        kind: Kind::Prepare,
        baseline: None,
    });
    b.hear(control.encode(EVENT, &Decoded::Malformed).unwrap(), 1);
    assert_eq!(b.fault, Some(Fault::RecoveryBootstrap));
}

#[test]
fn envelopes_need_an_open_epoch_and_a_sound_packet() {
    let mut link = Link::default();
    let mut runtime = Some(Runtime::new([1; 16], Role::Dialer, 3000, 0, &mut link).unwrap());
    let wrap = |runtime: &Option<Runtime>, bytes: Vec<u8>, motion: bool, probe: Option<u64>| {
        envelope(bytes, runtime, motion, EVENT, &Decoded::Other, 10, probe)
    };
    let frame = Frame::Offer { id: 3, conv: 4 };
    assert_eq!(wrap(&None, vec![1, 2], false, None), Ok(vec![1, 2]));
    let sealed = wrap(&runtime, frame.encode(), false, None).unwrap();
    let opened = Envelope::decode(&sealed, EVENT, &Decoded::Other).unwrap();
    assert!(opened.matches([1; 16], 0, Role::Dialer));
    assert_eq!(
        wrap(&runtime, vec![9], false, None),
        Err(Fault::ReliableOutput)
    );
    assert_eq!(wrap(&runtime, vec![9], true, None), Err(Fault::RecoveryOutput));
    runtime
        .as_mut()
        .unwrap()
        .step(10, Input::Start, &mut link)
        .unwrap();
    assert_eq!(
        wrap(&runtime, frame.encode(), false, None),
        Err(Fault::ReceiveGate)
    );
    assert!(wrap(&runtime, frame.encode(), false, Some(1)).is_ok());
}

#[test]
fn a_dialer_without_an_identity_gives_up() {
    let mut a = End::new(true, true);
    let offer = CAP_KCP_INPUT_V1 | CAP_INPUT_RECOVERY_V1;
    let greeted = a.driver.greet(true, offer, None, &mut a.link, 0);
    assert_eq!(greeted, Err(Fault::RandomIdentity));
    let mut a = End::new(true, true);
    let greeted = a.driver.greet(true, offer, Some([5; 16]), &mut a.link, 0);
    assert_eq!(greeted, Ok(()));
    let machine = a.driver.runtime.as_ref().unwrap().machine();
    assert_eq!((machine.session(), machine.role()), ([5; 16], Role::Dialer));
}

#[test]
fn a_packet_that_waits_too_long_ends_the_connection() {
    let mut a = End::new(true, false);
    let bytes = encode(hello(0));
    let decoded = Format.any(&bytes);
    a.driver
        .command(&Format, decoded, bytes, &None, &a.link, 0)
        .unwrap();
    assert_eq!(a.driver.conclude(&mut a.link, 599), Ok(None));
    assert_eq!(
        a.driver.conclude(&mut a.link, 600),
        Err(Fault::OutputStalled)
    );
}
