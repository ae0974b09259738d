//! Wire formats and the motion lane.

use mousehop::event::{is_equal, is_finite, Codec, Decoded};
use mousehop::fault::Fault;
use mousehop::frame::{
    Frame, CAP_KCP_INPUT_V1, CAP_KCP_REQUEST, CAP_UDP_MOTION_V1, MOTION_TAG, MTU, VERSION,
};
use mousehop::motion;
use mousehop::motion::{Receiver, Sender};
use mousehop::policy::{InputTransport, PeerTimeout, StallTimeout, Timeouts};
use mousehop::protocol::{
    negotiated, Baseline, Control, Envelope, Kind, Role, CAP_INPUT_RECOVERY_V1,
};

/// The length of the longest fixed event.
const EVENT: usize = 32;

/// The length of the longest display layout.
const LAYOUT: usize = 512;

/// The events of a small event format: a tag, then the fields.
#[derive(Clone, Debug, PartialEq)]
enum Proto {
    Motion { time: u32, dx: f64, dy: f64 },
    HandoverMotion { serial: u32, time: u32, dx: f64, dy: f64 },
    HandoverLeave { serial: u32, mode: u32 },
    Ack(u32),
    Key { key: u32, state: u8 },
    Hello { magic: u32, capabilities: u32 },
    Ping,
    Clipboard(Vec<u8>),
}

const MAGIC: u32 = 0x4d48_4f50;

fn encode(event: Proto) -> Vec<u8> {
    let mut bytes = Vec::new();
    match event {
        Proto::Motion { time, dx, dy } => {
            bytes.push(1);
            bytes.extend(time.to_le_bytes());
            bytes.extend(dx.to_le_bytes());
            bytes.extend(dy.to_le_bytes());
        }
        Proto::HandoverMotion {
            serial,
            time,
            dx,
            dy,
        } => {
            bytes.push(2);
            bytes.extend(serial.to_le_bytes());
            bytes.extend(time.to_le_bytes());
            bytes.extend(dx.to_le_bytes());
            bytes.extend(dy.to_le_bytes());
        }
        Proto::HandoverLeave { serial, mode } => {
            bytes.push(3);
            bytes.extend(serial.to_le_bytes());
            bytes.extend(mode.to_le_bytes());
        }
        Proto::Ack(serial) => {
            bytes.push(4);
            bytes.extend(serial.to_le_bytes());
        }
        Proto::Key { key, state } => {
            bytes.push(5);
            bytes.extend(key.to_le_bytes());
            bytes.push(state);
        }
        Proto::Hello {
            magic,
            capabilities,
        } => {
            bytes.push(6);
            bytes.extend(magic.to_le_bytes());
            bytes.extend(capabilities.to_le_bytes());
        }
        Proto::Ping => bytes.push(7),
        Proto::Clipboard(text) => {
            bytes.push(8);
            bytes.extend(text);
        }
    }
    bytes
}

fn word(bytes: &[u8], at: usize) -> u32 {
    u32::from_le_bytes(bytes[at..at + 4].try_into().unwrap())
}

fn double(bytes: &[u8], at: usize) -> f64 {
    f64::from_le_bytes(bytes[at..at + 8].try_into().unwrap())
}

fn read(bytes: &[u8]) -> Option<Proto> {
    Some(match (bytes.first()?, bytes.len()) {
        (1, 21) => Proto::Motion {
            time: word(bytes, 1),
            dx: double(bytes, 5),
            dy: double(bytes, 13),
        },
        (2, 25) => Proto::HandoverMotion {
            serial: word(bytes, 1),
            time: word(bytes, 5),
            dx: double(bytes, 9),
            dy: double(bytes, 17),
        },
        (3, 9) => Proto::HandoverLeave {
            serial: word(bytes, 1),
            mode: word(bytes, 5),
        },
        (4, 5) => Proto::Ack(word(bytes, 1)),
        (5, 6) => Proto::Key {
            key: word(bytes, 1),
            state: bytes[5],
        },
        (6, 9) => Proto::Hello {
            magic: word(bytes, 1),
            capabilities: word(bytes, 5),
        },
        (7, 1) => Proto::Ping,
        (8, _) => Proto::Clipboard(bytes[1..].to_vec()),
        _ => return None,
    })
}

struct Format;

impl Codec for Format {
    fn event_limit(&self) -> usize {
        EVENT
    }

    fn layout_limit(&self) -> usize {
        LAYOUT
    }

    fn fixed(&self, bytes: &Vec<u8>) -> Decoded {
        match read(bytes) {
            Some(Proto::Clipboard(_)) => Decoded::Malformed,
            _ => self.any(bytes),
        }
    }

    fn any(&self, bytes: &Vec<u8>) -> Decoded {
        match read(bytes) {
            None => Decoded::Malformed,
            Some(Proto::Motion { dx, dy, .. } | Proto::HandoverMotion { dx, dy, .. }) => {
                Decoded::Motion {
                    dx: dx.to_bits(),
                    dy: dy.to_bits(),
                }
            }
            Some(Proto::Hello {
                magic,
                capabilities,
            }) => Decoded::Hello {
                native: magic == MAGIC,
                capabilities,
            },
            Some(Proto::Ping) => Decoded::Heartbeat,
            Some(Proto::Clipboard(_)) => Decoded::Clipboard,
            Some(_) => Decoded::Other,
        }
    }

    fn moved(&self, event: &Vec<u8>, x: u64, y: u64) -> Vec<u8> {
        match read(event) {
            Some(Proto::Motion { time, .. }) => encode(Proto::Motion {
                time,
                dx: f64::from_bits(x),
                dy: f64::from_bits(y),
            }),
            Some(Proto::HandoverMotion { serial, time, .. }) => encode(Proto::HandoverMotion {
                serial,
                time,
                dx: f64::from_bits(x),
                dy: f64::from_bits(y),
            }),
            _ => event.clone(),
        }
    }

    fn greeting(&self, hello: &Vec<u8>, capabilities: u32) -> Vec<u8> {
        match read(hello) {
            Some(Proto::Hello { magic, .. }) => encode(Proto::Hello {
                magic,
                capabilities,
            }),
            _ => hello.clone(),
        }
    }

    fn plus(&self, a: u64, b: u64) -> u64 {
        (f64::from_bits(a) + f64::from_bits(b)).to_bits()
    }

    fn minus(&self, a: u64, b: u64) -> u64 {
        (f64::from_bits(a) - f64::from_bits(b)).to_bits()
    }
}

fn baseline() -> Baseline {
    Baseline {
        x: 1.0f64.to_bits(),
        y: (-2.0f64).to_bits(),
        layout: 1,
        ownership: [9; 16],
        owner: Role::Dialer,
    }
}

fn seal(envelope: &Envelope) -> Option<Vec<u8>> {
    let event = match envelope {
        Envelope::Motion { bytes, .. } => Format.fixed(&motion::Frame::event_bytes(bytes)),
        _ => Decoded::Malformed,
    };
    envelope.encode(EVENT, &event)
}

fn open(bytes: &[u8]) -> Option<Envelope> {
    let inner = bytes.get(28..).unwrap_or(&[]);
    let event = Format.fixed(&motion::Frame::event_bytes(inner));
    Envelope::decode(bytes, EVENT, &event)
}

fn moving(time: u32, dx: f64) -> Proto {
    Proto::HandoverMotion {
        serial: 7,
        time,
        dx,
        dy: -dx,
    }
}

fn seen(event: &Proto) -> Decoded {
    Format.any(&encode(event.clone()))
}

fn parse(bytes: &[u8], critical: bool) -> Result<motion::Frame, Fault> {
    let event = Format.fixed(&motion::Frame::event_bytes(bytes));
    motion::Frame::decode(bytes, critical, EVENT, event)
}

fn packet(tx: &mut Sender, event: Proto) -> motion::Frame {
    let bytes = encode(event.clone());
    let (udp, wire) = tx.pack(&Format, seen(&event), bytes).unwrap();
    let frame = parse(&wire, !udp).unwrap();
    assert_eq!(frame.encode(), wire);
    frame
}

fn delta(bytes: Vec<u8>) -> (f64, f64) {
    match read(&bytes) {
        Some(Proto::HandoverMotion {
            serial: 7, dx, dy, ..
        }) => (dx, dy),
        other => panic!("{other:?}"),
    }
}

#[test]
fn frames_round_trip_and_reject_truncation() {
    for frame in [
        Frame::Offer { id: 19, conv: 7 },
        Frame::Ready { id: 19, conv: 7 },
        Frame::Progress {
            id: 19,
            sent: 8,
            processed: 6,
        },
        Frame::Data {
            id: 19,
            payload: vec![1; 24],
        },
    ] {
        let bytes = frame.encode();
        assert_eq!(Frame::decode(&bytes), Some(frame));
        for n in 0..bytes.len() {
            assert!(Frame::decode(&bytes[..n]).is_none());
        }
        let mut extra = bytes.clone();
        extra.push(0);
        assert!(Frame::decode(&extra).is_none());
        let mut version = bytes;
        version[1] += 1;
        assert!(Frame::decode(&version).is_none());
    }
}

#[test]
fn r12_envelopes_roundtrip_and_reject_invalid_wire() {
    for kind in [
        Kind::Request,
        Kind::Prepare,
        Kind::Prepared,
        Kind::Commit,
        Kind::CommitAck,
        Kind::Activate,
        Kind::ActivateAck,
    ] {
        let control = Control {
            session: [1; 16],
            epoch: 4,
            source: kind.sender().unwrap_or(Role::Dialer),
            kind,
            baseline: matches!(kind, Kind::Prepared | Kind::Commit).then_some(baseline()),
        };
        let envelope = Envelope::Control(control);
        let bytes = seal(&envelope).unwrap();
        assert_eq!(open(&bytes), Some(envelope));
        for n in 0..bytes.len() {
            assert!(open(&bytes[..n]).is_none());
        }
        let mut extra = bytes.clone();
        extra.push(0);
        assert!(open(&extra).is_none());
        let mut wrong_version = bytes;
        wrong_version[1] = 2;
        assert!(open(&wrong_version).is_none());
    }
    let frame = Frame::Progress {
        id: 7,
        sent: 4,
        processed: 2,
    };
    let envelope = Envelope::Reliable {
        session: [2; 16],
        epoch: 8,
        source: Role::Acceptor,
        frame,
    };
    assert_eq!(
        open(&seal(&envelope).unwrap()),
        Some(envelope)
    );
}

#[test]
fn r12_rejects_invalid_baseline_identity_role_and_epoch() {
    let mut control = Control {
        session: [1; 16],
        epoch: 1,
        source: Role::Acceptor,
        kind: Kind::Prepared,
        baseline: Some(baseline()),
    };
    control.baseline.as_mut().unwrap().x = f64::NAN.to_bits();
    assert!(seal(&Envelope::Control(control.clone())).is_none());
    control.baseline = Some(baseline());
    control.source = Role::Dialer;
    assert!(seal(&Envelope::Control(control.clone())).is_none());
    control.source = Role::Acceptor;
    control.session = [0; 16];
    assert!(seal(&Envelope::Control(control.clone())).is_none());
    control.session = [1; 16];
    control.epoch = u64::MAX;
    assert!(seal(&Envelope::Control(control)).is_none());
}

#[test]
fn r15_recovery_requires_both_capabilities_and_selected_kcp() {
    let cap = CAP_INPUT_RECOVERY_V1;
    assert!(negotiated(cap, cap, true));
    assert!(!negotiated(cap, cap, false));
    assert!(!negotiated(cap, 0, true));
    assert!(!negotiated(0, cap, true));
    let bytes = encode(Proto::Hello {
        magic: MAGIC,
        capabilities: CAP_KCP_INPUT_V1 | cap,
    });
    assert!(matches!(Format.fixed(&bytes),
        Decoded::Hello { capabilities, .. } if capabilities & cap != 0));
    assert_eq!(VERSION, 2);
    assert_eq!(
        (CAP_KCP_INPUT_V1 | CAP_KCP_REQUEST | CAP_UDP_MOTION_V1) & cap,
        0,
        "recovery is a capability of its own"
    );
}

#[test]
fn r12_all_data_types_preserve_full_identity_and_reject_malformed_payloads() {
    let raw = encode(Proto::Motion {
        time: 0,
        dx: 1.0,
        dy: -2.0,
    });
    let mut motion = vec![MOTION_TAG, 1, 0];
    motion.extend(0_u64.to_le_bytes());
    motion.extend(1_u64.to_le_bytes());
    motion.push(raw.len() as u8);
    motion.extend(&raw);
    let mut envelopes = vec![Envelope::Motion {
        session: [1; 16],
        epoch: 9,
        source: Role::Dialer,
        bytes: motion,
    }];
    for frame in [
        Frame::Offer { id: 2, conv: 7 },
        Frame::Ready { id: 2, conv: 7 },
        Frame::Data {
            id: 2,
            payload: vec![0; MTU],
        },
        Frame::Progress {
            id: 2,
            sent: 1,
            processed: 1,
        },
    ] {
        envelopes.push(Envelope::Reliable {
            session: [1; 16],
            epoch: 9,
            source: Role::Dialer,
            frame,
        });
    }
    for envelope in envelopes {
        assert!(envelope.matches([1; 16], 9, Role::Dialer));
        assert!(!envelope.matches([2; 16], 9, Role::Dialer));
        assert!(!envelope.matches([1; 16], 10, Role::Dialer));
        assert!(!envelope.matches([1; 16], 9, Role::Acceptor));
        let bytes = seal(&envelope).unwrap();
        assert_eq!(open(&bytes), Some(envelope));
        for len in 0..bytes.len() {
            assert!(open(&bytes[..len]).is_none());
        }
        let mut invalid = bytes.clone();
        invalid.push(0);
        assert!(open(&invalid).is_none());
        invalid = bytes.clone();
        invalid[3] = 2;
        assert!(open(&invalid).is_none());
        invalid = bytes;
        invalid[2] = 3;
        assert!(open(&invalid).is_none());
    }
}

#[test]
fn r12_nonfinite_motion_and_forged_control_bytes_are_rejected() {
    let c = Control {
        session: [1; 16],
        epoch: 1,
        source: Role::Acceptor,
        kind: Kind::Prepared,
        baseline: Some(baseline()),
    };
    let encoded = seal(&Envelope::Control(c)).unwrap();
    for value in [
        f64::NAN,
        f64::INFINITY,
        f64::NEG_INFINITY,
        i32::MAX as f64 + 1.0,
    ] {
        let mut bytes = encoded.clone();
        bytes[29..37].copy_from_slice(&value.to_le_bytes());
        assert!(open(&bytes).is_none());
    }
    let mut bytes = encoded.clone();
    bytes[69] = 2;
    assert!(open(&bytes).is_none());
    let mut bytes = encoded;
    bytes[45..53].fill(0);
    assert!(open(&bytes).is_none());
    let raw = encode(Proto::Motion {
        time: 0,
        dx: f64::NAN,
        dy: 0.0,
    });
    let mut motion = vec![MOTION_TAG, 1, 0];
    motion.extend(0_u64.to_le_bytes());
    motion.extend(1_u64.to_le_bytes());
    motion.push(raw.len() as u8);
    motion.extend(&raw);
    assert!(
        seal(&Envelope::Motion {
            session: [1; 16],
            epoch: 0,
            source: Role::Dialer,
            bytes: motion
        })
        .is_none()
    );
}

#[test]
fn envelopes_carry_no_motion_without_an_event() {
    let mut motion = vec![MOTION_TAG, 1, 0];
    motion.extend(0_u64.to_le_bytes());
    motion.extend(1_u64.to_le_bytes());
    motion.push(0);
    let event = Decoded::Motion { dx: 1.0f64.to_bits(), dy: 2.0f64.to_bits() };
    assert!(motion::Frame::decode(&motion, false, EVENT, event).is_err());
    let envelope = Envelope::Motion {
        session: [1; 16],
        epoch: 0,
        source: Role::Dialer,
        bytes: motion,
    };
    assert!(envelope.encode(EVENT, &event).is_none());
}

#[test]
fn disconnect_r7_d2_freshness_tracks_pending_and_checkpoint_without_delivery() {
    let mut tx = Sender::default();
    let mut rx = Receiver::default();
    let enter = packet(&mut tx, Proto::Ack(1));
    let first = packet(&mut tx, moving(1, 2.0));
    let second = packet(&mut tx, moving(2, 3.0));
    assert!(rx.datagram(second.clone()));
    assert!(!rx.datagram(second.clone()));
    assert!(!rx.datagram(first));
    assert!(!rx.ready());
    assert!(rx.take(&Format).unwrap().is_none()); // future dependency stays buffered
    assert!(rx.checkpoint(&Format, &enter, 1).unwrap().is_none());
    assert_eq!(delta(rx.take(&Format).unwrap().unwrap()), (5.0, -5.0));
    assert!(!rx.datagram(second));
    let third = packet(&mut tx, moving(3, 1.0));
    let checkpoint = packet(&mut tx, Proto::Ack(2));
    rx.checkpoint(&Format, &checkpoint, 2).unwrap();
    assert!(!rx.datagram(third));
    let mut invalid_dependency = packet(&mut tx, moving(4, 1.0));
    invalid_dependency.dependency = 0;
    assert!(!rx.datagram(invalid_dependency));
}

#[test]
fn lost_reordered_duplicate_motion_recovers_distance_without_retransmission() {
    let mut tx = Sender::default();
    let mut rx = Receiver::default();
    let first = packet(&mut tx, moving(1, 2.0));
    let second = packet(&mut tx, moving(2, 3.0));
    let third = packet(&mut tx, moving(3, 4.0));
    rx.datagram(third.clone()); // first two lost
    assert_eq!(delta(rx.take(&Format).unwrap().unwrap()), (9.0, -9.0));
    for old in [first, second, third] {
        rx.datagram(old);
    }
    assert!(!rx.ready());
    assert!(rx.take(&Format).unwrap().is_none());
    assert_eq!(tx.reliable, 0);
}
#[test]
fn click_checkpoint_repairs_last_loss_and_gates_following_drag() {
    let mut tx = Sender::default();
    let mut rx = Receiver::default();
    packet(&mut tx, moving(1, 5.0)); // final pre-button motion lost
    let button = packet(&mut tx, Proto::Ack(12));
    let drag = packet(&mut tx, moving(2, 8.0));
    rx.datagram(drag); // UDP overtakes button
    assert!(!rx.ready());
    assert_eq!(
        delta(rx.checkpoint(&Format, &button, 1).unwrap().unwrap()),
        (5.0, -5.0)
    );
    assert_eq!(button.critical, encode(Proto::Ack(12)));
    assert!(rx.ready());
    assert_eq!(delta(rx.take(&Format).unwrap().unwrap()), (8.0, -8.0));
    assert!(rx.checkpoint(&Format, &button, 1).is_err());
}
#[test]
fn later_checkpoint_recovers_overwritten_future_epochs() {
    let mut tx = Sender::default();
    let mut rx = Receiver::default();
    let enter = packet(&mut tx, Proto::Ack(1));
    let earlier = packet(&mut tx, moving(1, 4.0));
    let release = packet(&mut tx, Proto::Ack(2));
    let later = packet(&mut tx, moving(2, 3.0));
    rx.datagram(earlier);
    rx.datagram(later);
    assert!(rx.checkpoint(&Format, &enter, 1).unwrap().is_none());
    assert!(!rx.ready());
    assert_eq!(
        delta(rx.checkpoint(&Format, &release, 2).unwrap().unwrap()),
        (4.0, -4.0)
    );
    assert_eq!(delta(rx.take(&Format).unwrap().unwrap()), (3.0, -3.0));
}
#[test]
fn leave_checkpoint_prevents_old_motion_leaking_into_next_handover() {
    let mut tx = Sender::default();
    let mut rx = Receiver::default();
    let old = packet(&mut tx, moving(1, 6.0));
    let leave = packet(&mut tx, Proto::HandoverLeave { serial: 7, mode: 0 });
    assert_eq!(
        delta(rx.checkpoint(&Format, &leave, 1).unwrap().unwrap()),
        (6.0, -6.0)
    );
    let enter = packet(&mut tx, Proto::Ack(8));
    assert!(rx.checkpoint(&Format, &enter, 2).unwrap().is_none());
    rx.datagram(old);
    assert!(!rx.ready());
    let event = Proto::HandoverMotion {
        serial: 8,
        time: 2,
        dx: 2.0,
        dy: 0.0,
    };
    rx.datagram(packet(&mut tx, event.clone()));
    assert_eq!(rx.take(&Format).unwrap().unwrap(), encode(event));
    // A new DTLS session starts with fresh cumulative totals and dependencies.
    let mut tx = Sender::default();
    let mut rx = Receiver::default();
    rx.datagram(packet(&mut tx, moving(1, 1.0)));
    assert_eq!(delta(rx.take(&Format).unwrap().unwrap()), (1.0, -1.0));
}

#[test]
fn envelope_rejects_wrong_channel_version_truncation_and_nonfinite_motion() {
    let mut tx = Sender::default();
    let frame = packet(&mut tx, moving(1, 1.0));
    let bytes = frame.encode();
    for n in 0..bytes.len() {
        assert!(parse(&bytes[..n], false).is_err());
    }
    assert!(parse(&bytes, true).is_err());
    let mut wrong = bytes.clone();
    wrong[1] = 2;
    assert!(parse(&wrong, false).is_err());
    let mut wrong = frame;
    wrong.motion = encode(moving(2, f64::NAN));
    assert!(parse(&wrong.encode(), false).is_err());
    assert!(tx.pack(&Format, seen(&moving(2, f64::INFINITY)), vec![]).is_err());
}

#[test]
fn coordinates_are_judged_by_their_bits() {
    for value in [0.0, -0.0, 1.5, f64::MAX, f64::INFINITY, f64::NEG_INFINITY, f64::NAN] {
        assert_eq!(is_finite(value.to_bits()), value.is_finite());
        for other in [0.0, -0.0, 1.5, f64::INFINITY, f64::NAN] {
            assert_eq!(is_equal(value.to_bits(), other.to_bits()), value == other);
        }
    }
}

/// The head of a motion envelope.
fn head(critical: bool, sequence: u64, length: u8) -> Vec<u8> {
    let mut bytes = vec![MOTION_TAG, 1, u8::from(critical)];
    bytes.extend(0u64.to_le_bytes());
    bytes.extend(sequence.to_le_bytes());
    bytes.push(length);
    bytes
}

#[test]
fn faults_of_the_motion_lane_have_names() {
    let fault = |bytes: &[u8], critical| parse(bytes, critical).unwrap_err();
    assert_eq!(fault(&[MOTION_TAG, 2, 0], false), Fault::MotionEnvelope);
    assert_eq!(fault(&head(false, 1, 9), false), Fault::MotionLength);
    assert_eq!(fault(&head(false, 0, 0), false), Fault::MissingCheckpoint);
    let mut bytes = head(false, 1, 1);
    bytes.push(99);
    assert_eq!(fault(&bytes, false), Fault::InvalidMotion);
    let mut bytes = head(false, 1, 5);
    bytes.extend(encode(Proto::Ack(1)));
    assert_eq!(fault(&bytes, false), Fault::NotMotion);
    let mut bytes = head(false, 0, 25);
    bytes.extend(encode(moving(1, 1.0)));
    assert_eq!(fault(&bytes, false), Fault::CumulativeMotion);
}

#[test]
fn faults_of_motion_totals_have_names() {
    let push = |tx: &mut Sender, event: Proto| {
        let bytes = encode(event.clone());
        tx.pack(&Format, seen(&event), bytes)
    };
    let mut tx = Sender::default();
    assert!(push(&mut tx, moving(1, f64::MAX)).is_ok());
    assert_eq!(push(&mut tx, moving(2, f64::MAX)), Err(Fault::MotionTotal));
    let mut tx = Sender {
        sequence: u64::MAX,
        ..Sender::default()
    };
    assert_eq!(push(&mut tx, moving(2, 1.0)), Err(Fault::MotionExhausted));
    let mut tx = Sender {
        reliable: u64::MAX,
        ..Sender::default()
    };
    assert_eq!(push(&mut tx, Proto::Ack(1)), Err(Fault::SequenceExhausted));
}

#[test]
fn faults_of_checkpoints_have_names() {
    let frame = |event: Proto, sequence: u64| motion::Frame {
        dependency: 0,
        sequence,
        motion: encode(event.clone()),
        event: seen(&event),
        critical: vec![1],
    };
    let mut rx = Receiver::default();
    assert_eq!(
        rx.checkpoint(&Format, &frame(moving(1, 1.0), 1), 2),
        Err(Fault::CheckpointDependency)
    );
    assert_eq!(
        rx.checkpoint(&Format, &frame(Proto::Ack(1), 1), 1),
        Err(Fault::CheckpointMotion)
    );
    let mut rx = Receiver::default();
    let mut broken = frame(moving(1, 1.0), 1);
    broken.event = Decoded::Malformed;
    assert_eq!(
        rx.checkpoint(&Format, &broken, 1),
        Err(Fault::InvalidCheckpoint)
    );
    let mut rx = Receiver {
        x: (-f64::MAX).to_bits(),
        ..Receiver::default()
    };
    assert_eq!(
        rx.checkpoint(&Format, &frame(moving(1, f64::MAX), 1), 1),
        Err(Fault::MotionDelta)
    );
}

#[test]
fn policies_have_bounds_and_defaults() {
    assert_eq!(StallTimeout::default().milliseconds(), 600);
    assert_eq!(PeerTimeout::default().milliseconds(), 3000);
    assert_eq!(u64::from(StallTimeout::try_from(1).unwrap()), 1);
    assert_eq!(u64::from(PeerTimeout::try_from(60000).unwrap()), 60000);
    assert!(StallTimeout::try_from(0).is_err());
    assert!(StallTimeout::try_from(60001).is_err());
    assert!(PeerTimeout::try_from(0).is_err());
    assert!(PeerTimeout::try_from(60001).is_err());
    assert!(matches!(InputTransport::default(), InputTransport::Legacy));
    let timeouts = Timeouts::from(StallTimeout::try_from(250).unwrap());
    assert_eq!(timeouts.stall.milliseconds(), 250);
    assert_eq!(timeouts.peer.milliseconds(), 3000);
}
