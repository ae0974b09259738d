//! Motion never enters KCP. Reliable events checkpoint preceding displacement.
//! A motion packet depends only on preceding reliable events, not other motion.

use crate::bytes::{at64, le64, lemma_64};
use crate::bytes::{get64, put64, put_all, tail};
use crate::event::{finite, is_finite, Codec, Decoded};
use crate::fault::Fault;
use crate::frame::MOTION_TAG;
use vstd::prelude::*;

verus! {

/// One motion envelope: how many reliable events precede it, the number and the encoded event of the
/// latest motion with its totals, and the reliable event that it checkpoints, if any.
#[derive(Clone, Debug)]
pub struct Frame {
    pub dependency: u64,
    pub sequence: u64,
    pub motion: Vec<u8>,
    /// What the codec makes of `motion`.
    pub event: Decoded,
    pub critical: Vec<u8>,
}

pub ghost struct FrameView {
    pub dependency: u64,
    pub sequence: u64,
    pub motion: Seq<u8>,
    pub event: Decoded,
    pub critical: Seq<u8>,
}

impl View for Frame {
    type V = FrameView;

    open spec fn view(&self) -> FrameView {
        FrameView {
            dependency: self.dependency,
            sequence: self.sequence,
            motion: self.motion@,
            event: self.event,
            critical: self.critical@,
        }
    }
}

impl FrameView {
    pub open spec fn wire(self) -> Seq<u8> {
        seq![
            MOTION_TAG,
            1u8,
            if self.critical.len() == 0 {
                0u8
            } else {
                1u8
            },
        ] + le64(self.dependency) + le64(self.sequence) + seq![self.motion.len() as u8]
            + self.motion + self.critical
    }

    /// Whether a receiver of the given channel accepts the envelope.
    pub open spec fn acceptable(self, critical: bool, limit: usize) -> bool {
        &&& critical == (self.critical.len() > 0)
        &&& self.motion.len() <= limit
        &&& self.motion.len() <= 255
        &&& if self.motion.len() == 0 {
            self.sequence == 0 && critical
        } else {
            self.sequence != 0 && match self.event {
                Decoded::Motion { dx, dy } => finite(dx) && finite(dy),
                _ => false,
            }
        }
    }
}

/// The event bytes inside a motion envelope; none if the envelope is too short for them.
pub open spec fn embedded(bytes: Seq<u8>) -> Seq<u8> {
    if bytes.len() < 20 || bytes.len() < 20 + bytes[19] {
        Seq::empty()
    } else {
        bytes.subrange(20, 20 + bytes[19])
    }
}

/// The motion envelope that `bytes` stand for in the reliable or the datagram channel, where `event`
/// is what the codec makes of the event inside, or why it is rejected.
pub open spec fn parse(bytes: Seq<u8>, critical: bool, limit: usize, event: Decoded) -> Result<
    FrameView,
    Fault,
> {
    let flag = if critical {
        1u8
    } else {
        0u8
    };
    if bytes.len() < 20 || bytes[0] != MOTION_TAG || bytes[1] != 1 || bytes[2] != flag {
        Err(Fault::MotionEnvelope)
    } else if bytes[19] > limit || bytes.len() < 20 + bytes[19] || critical == (bytes.len() == 20
        + bytes[19]) {
        Err(Fault::MotionLength)
    } else {
        let frame = FrameView {
            dependency: at64(bytes, 3),
            sequence: at64(bytes, 11),
            motion: embedded(bytes),
            event,
            critical: bytes.subrange(20 + bytes[19], bytes.len() as int),
        };
        if frame.motion.len() == 0 {
            if frame.sequence != 0 || !critical {
                Err(Fault::MissingCheckpoint)
            } else {
                Ok(frame)
            }
        } else {
            match event {
                Decoded::Malformed => Err(Fault::InvalidMotion),
                Decoded::Motion { dx, dy } => if frame.sequence == 0 || !finite(dx) || !finite(dy) {
                    Err(Fault::CumulativeMotion)
                } else {
                    Ok(frame)
                },
                _ => Err(Fault::NotMotion),
            }
        }
    }
}

impl Frame {
    pub fn encode(&self) -> (bytes: Vec<u8>)
        ensures
            bytes@ == self@.wire(),
    {
        let flag: u8 = if self.critical.len() == 0 {
            0
        } else {
            1
        };
        let mut bytes: Vec<u8> = vec![MOTION_TAG, 1, flag];
        assert(bytes@ =~= seq![MOTION_TAG, 1u8, flag]);
        put64(&mut bytes, self.dependency);
        put64(&mut bytes, self.sequence);
        let ghost head = bytes@;
        bytes.push(self.motion.len() as u8);
        assert(bytes@ =~= head + seq![self.motion@.len() as u8]);
        put_all(&mut bytes, &self.motion);
        put_all(&mut bytes, &self.critical);
        bytes
    }

    /// The event bytes inside a motion envelope, for the codec to read.
    pub fn event_bytes(bytes: &[u8]) -> (r: Vec<u8>)
        ensures
            r@ == embedded(bytes@),
    {
        if bytes.len() < 20 {
            return Vec::new();
        }
        let n: usize = bytes[19] as usize;
        if bytes.len() < 20 + n {
            return Vec::new();
        }
        vstd::slice::slice_to_vec(vstd::slice::slice_subrange(bytes, 20, 20 + n))
    }

    /// Reads a motion envelope. `event` is what the codec makes of the event bytes inside, and
    /// `limit` is the length of the longest fixed event.
    pub fn decode(bytes: &[u8], critical: bool, limit: usize, event: Decoded) -> (r: Result<
        Frame,
        Fault,
    >)
        ensures
            match r {
                Ok(frame) => parse(bytes@, critical, limit, event) == Ok::<FrameView, Fault>(
                    frame@,
                ),
                Err(fault) => parse(bytes@, critical, limit, event) == Err::<FrameView, Fault>(
                    fault,
                ),
            },
    {
        let flag: u8 = if critical {
            1
        } else {
            0
        };
        if bytes.len() < 20 || bytes[0] != MOTION_TAG || bytes[1] != 1 || bytes[2] != flag {
            return Err(Fault::MotionEnvelope);
        }
        let n: usize = bytes[19] as usize;
        if n > limit || bytes.len() < 20 + n || critical == (bytes.len() == 20 + n) {
            return Err(Fault::MotionLength);
        }
        let frame = Frame {
            dependency: get64(bytes, 3),
            sequence: get64(bytes, 11),
            motion: Frame::event_bytes(bytes),
            event,
            critical: tail(bytes, 20 + n),
        };
        if frame.motion.len() == 0 {
            if frame.sequence != 0 || !critical {
                return Err(Fault::MissingCheckpoint);
            }
        } else {
            match event {
                Decoded::Malformed => return Err(Fault::InvalidMotion),
                Decoded::Motion { dx, dy } => {
                    if frame.sequence == 0 || !is_finite(dx) || !is_finite(dy) {
                        return Err(Fault::CumulativeMotion);
                    }
                },
                _ => return Err(Fault::NotMotion),
            }
        }
        Ok(frame)
    }
}

/// How many reliable events and motions were sent, the sum of all motion, and the latest motion
/// event with that sum.
pub struct Sender {
    pub reliable: u64,
    pub sequence: u64,
    pub x: u64,
    pub y: u64,
    pub last: Vec<u8>,
}

impl Default for Sender {
    fn default() -> (r: Sender)
        ensures
            r.initial(),
    {
        Sender { reliable: 0, sequence: 0, x: 0, y: 0, last: Vec::new() }
    }
}

impl Sender {
    /// Nothing was sent yet.
    pub open spec fn initial(self) -> bool {
        &&& self.reliable == 0
        &&& self.sequence == 0
        &&& self.x == 0
        &&& self.y == 0
        &&& self.last@ == Seq::<u8>::empty()
    }

    /// What packing an event does, where `event` is what the codec makes of `original`.
    pub open spec fn packs<C: Codec>(
        self,
        codec: &C,
        event: Decoded,
        original: Vec<u8>,
        r: Result<(bool, Vec<u8>), Fault>,
        next: Sender,
    ) -> bool {
        match event {
            Decoded::Motion { dx, dy } => {
                &&& call_ensures(C::plus, (codec, self.x, dx), next.x)
                &&& call_ensures(C::plus, (codec, self.y, dy), next.y)
                &&& next.reliable == self.reliable
                &&& if !finite(next.x) || !finite(next.y) {
                    &&& r == Err::<(bool, Vec<u8>), Fault>(Fault::MotionTotal)
                    &&& next.sequence == self.sequence
                    &&& next.last == self.last
                } else if self.sequence == u64::MAX {
                    &&& r == Err::<(bool, Vec<u8>), Fault>(Fault::MotionExhausted)
                    &&& next.sequence == self.sequence
                    &&& next.last == self.last
                } else {
                    &&& next.sequence == self.sequence + 1
                    &&& call_ensures(
                        C::moved,
                        (codec, &original, next.x, next.y),
                        next.last,
                    )
                    &&& r matches Ok(packed)
                    &&& packed.0
                    &&& packed.1@ == (FrameView {
                        dependency: self.reliable,
                        sequence: next.sequence,
                        motion: next.last@,
                        event,
                        critical: Seq::empty(),
                    }).wire()
                }
            },
            _ => {
                &&& next.sequence == self.sequence
                &&& next.x == self.x
                &&& next.y == self.y
                &&& next.last == self.last
                &&& if self.reliable == u64::MAX {
                    &&& r == Err::<(bool, Vec<u8>), Fault>(Fault::SequenceExhausted)
                    &&& next.reliable == self.reliable
                } else {
                    &&& next.reliable == self.reliable + 1
                    &&& r matches Ok(packed)
                    &&& !packed.0
                    &&& packed.1@ == (FrameView {
                        dependency: self.reliable,
                        sequence: self.sequence,
                        motion: self.last@,
                        event,
                        critical: original@,
                    }).wire()
                }
            },
        }
    }

    /// Returns true for an unreliable motion datagram, false for a checkpoint. `event` is what the
    /// codec makes of `original`.
    pub fn pack<C: Codec>(&mut self, codec: &C, event: Decoded, original: Vec<u8>) -> (r: Result<
        (bool, Vec<u8>),
        Fault,
    >)
        ensures
            old(self).packs(codec, event, original, r, *final(self)),
    {
        match event {
            Decoded::Motion { dx, dy } => {
                self.x = codec.plus(self.x, dx);
                self.y = codec.plus(self.y, dy);
                if !is_finite(self.x) || !is_finite(self.y) {
                    return Err(Fault::MotionTotal);
                }
                if self.sequence == u64::MAX {
                    return Err(Fault::MotionExhausted);
                }
                self.sequence = self.sequence + 1;
                self.last = codec.moved(&original, self.x, self.y);
                let frame = Frame {
                    dependency: self.reliable,
                    sequence: self.sequence,
                    motion: copy(&self.last),
                    event,
                    critical: Vec::new(),
                };
                Ok((true, frame.encode()))
            },
            _ => {
                if self.reliable == u64::MAX {
                    return Err(Fault::SequenceExhausted);
                }
                let frame = Frame {
                    dependency: self.reliable,
                    sequence: self.sequence,
                    motion: copy(&self.last),
                    event,
                    critical: original,
                };
                self.reliable = self.reliable + 1;
                Ok((false, frame.encode()))
            },
        }
    }
}

pub(crate) fn copy(bytes: &Vec<u8>) -> (r: Vec<u8>)
    ensures
        r@ == bytes@,
{
    tail(bytes, 0)
}

/// How many reliable events were delivered, the number and the totals of the latest motion delivered,
/// and the freshest sample seen, which waits for the reliable events that it depends on.
pub struct Receiver {
    pub reliable: u64,
    pub sequence: u64,
    pub freshest: u64,
    pub freshest_dependency: u64,
    pub x: u64,
    pub y: u64,
    pub pending: Option<Frame>,
}

impl Default for Receiver {
    fn default() -> (r: Receiver)
        ensures
            r == Receiver::initial(),
    {
        Receiver {
            reliable: 0,
            sequence: 0,
            freshest: 0,
            freshest_dependency: 0,
            x: 0,
            y: 0,
            pending: None,
        }
    }
}

pub open spec fn larger(a: u64, b: u64) -> u64 {
    if a > b {
        a
    } else {
        b
    }
}

impl Receiver {
    /// Nothing was received yet.
    pub open spec fn initial() -> Receiver {
        Receiver {
            reliable: 0,
            sequence: 0,
            freshest: 0,
            freshest_dependency: 0,
            x: 0,
            y: 0,
            pending: None,
        }
    }

    /// What delivering the motion of a frame does: nothing if a later one was delivered, and otherwise
    /// the difference between the frame's totals and those delivered before.
    pub open spec fn applies<C: Codec>(
        self,
        codec: &C,
        frame: Frame,
        r: Result<Option<Vec<u8>>, Fault>,
        next: Receiver,
    ) -> bool {
        if frame.sequence <= self.sequence {
            r == Ok::<Option<Vec<u8>>, Fault>(None) && next == self
        } else {
            match frame.event {
                Decoded::Malformed => {
                    r == Err::<Option<Vec<u8>>, Fault>(Fault::InvalidCheckpoint) && next == self
                },
                Decoded::Motion { dx, dy } => {
                    exists|x: u64, y: u64|
                        {
                            &&& #[trigger] call_ensures(C::minus, (codec, dx, self.x), x)
                            &&& #[trigger] call_ensures(C::minus, (codec, dy, self.y), y)
                            &&& if !finite(x) || !finite(y) {
                                r == Err::<Option<Vec<u8>>, Fault>(Fault::MotionDelta) && next
                                    == self
                            } else {
                                &&& r matches Ok(Some(bytes)) && call_ensures(
                                    C::moved,
                                    (codec, &frame.motion, x, y),
                                    bytes,
                                )
                                &&& next == (Receiver {
                                    x: dx,
                                    y: dy,
                                    sequence: frame.sequence,
                                    ..self
                                })
                            }
                        }
                },
                _ => {
                    r == Err::<Option<Vec<u8>>, Fault>(Fault::CheckpointMotion) && next == self
                },
            }
        }
    }

    /// Whether a datagram is fresher than every sample seen and depends on no reliable event that is
    /// past.
    pub open spec fn fresh(self, frame: Frame) -> bool {
        &&& frame.sequence > self.freshest
        &&& frame.sequence > self.sequence
        &&& frame.dependency >= self.reliable
        &&& frame.dependency >= self.freshest_dependency
    }

    fn apply<C: Codec>(&mut self, codec: &C, frame: &Frame) -> (r: Result<Option<Vec<u8>>, Fault>)
        ensures
            old(self).applies(codec, *frame, r, *final(self)),
    {
        if frame.sequence <= self.sequence {
            return Ok(None);
        }
        match frame.event {
            Decoded::Malformed => Err(Fault::InvalidCheckpoint),
            Decoded::Motion { dx, dy } => {
                let x: u64 = codec.minus(dx, self.x);
                let y: u64 = codec.minus(dy, self.y);
                if !is_finite(x) || !is_finite(y) {
                    return Err(Fault::MotionDelta);
                }
                self.x = dx;
                self.y = dy;
                self.sequence = frame.sequence;
                Ok(Some(codec.moved(&frame.motion, x, y)))
            },
            _ => Err(Fault::CheckpointMotion),
        }
    }

    /// Takes one motion datagram; returns whether it was fresh.
    pub fn datagram(&mut self, frame: Frame) -> (r: bool)
        ensures
            r == old(self).fresh(frame),
            *final(self) == (if r {
                Receiver {
                    freshest: frame.sequence,
                    freshest_dependency: frame.dependency,
                    pending: Some(frame),
                    ..*old(self)
                }
            } else {
                *old(self)
            }),
    {
        // Only one future sample is retained. Checkpoints recover skipped epochs.
        if frame.sequence > self.freshest && frame.sequence > self.sequence && frame.dependency
            >= self.reliable && frame.dependency >= self.freshest_dependency {
            self.freshest = frame.sequence;
            self.freshest_dependency = frame.dependency;
            self.pending = Some(frame);
            return true;
        }
        false
    }

    pub open spec fn has_ready(self) -> bool {
        self.pending is Some && self.pending->0.dependency <= self.reliable
    }

    pub fn ready(&self) -> (r: bool)
        ensures
            r == self.has_ready(),
    {
        match &self.pending {
            Some(p) => p.dependency <= self.reliable,
            None => false,
        }
    }

    /// What taking the waiting sample does.
    pub open spec fn takes<C: Codec>(
        self,
        codec: &C,
        r: Result<Option<Vec<u8>>, Fault>,
        next: Receiver,
    ) -> bool {
        if !self.has_ready() {
            r == Ok::<Option<Vec<u8>>, Fault>(None) && next == self
        } else if self.pending->0.dependency < self.reliable {
            r == Ok::<Option<Vec<u8>>, Fault>(None) && next == (Receiver { pending: None, ..self })
        } else {
            (Receiver { pending: None, ..self }).applies(codec, self.pending->0, r, next)
        }
    }

    /// The motion of the waiting sample, once every reliable event that it depends on was delivered
    /// and no later one.
    pub fn take<C: Codec>(&mut self, codec: &C) -> (r: Result<Option<Vec<u8>>, Fault>)
        ensures
            old(self).takes(codec, r, *final(self)),
    {
        if !self.ready() {
            return Ok(None);
        }
        match self.pending.take() {
            Some(frame) => {
                if frame.dependency < self.reliable {
                    return Ok(None);
                }
                self.apply(codec, &frame)
            },
            None => Ok(None),
        }
    }

    /// What taking the checkpoint of the reliable event with this sequence number does.
    pub open spec fn checkpoints<C: Codec>(
        self,
        codec: &C,
        frame: Frame,
        sequence: u64,
        r: Result<Option<Vec<u8>>, Fault>,
        next: Receiver,
    ) -> bool {
        if frame.dependency != self.reliable || sequence != self.reliable + 1 {
            r == Err::<Option<Vec<u8>>, Fault>(Fault::CheckpointDependency) && next == self
        } else if r is Err {
            self.applies(codec, frame, r, next)
        } else {
            exists|moved: Receiver|
                {
                    &&& #[trigger] self.applies(codec, frame, r, moved)
                    &&& next == (Receiver {
                        freshest: larger(moved.freshest, frame.sequence),
                        freshest_dependency: larger(moved.freshest_dependency, frame.dependency),
                        reliable: sequence,
                        ..moved
                    })
                }
        }
    }

    /// Takes the checkpoint of the reliable event with this sequence number.
    pub fn checkpoint<C: Codec>(&mut self, codec: &C, frame: &Frame, sequence: u64) -> (r: Result<
        Option<Vec<u8>>,
        Fault,
    >)
        ensures
            old(self).checkpoints(codec, *frame, sequence, r, *final(self)),
    {
        if frame.dependency != self.reliable || sequence == 0 || sequence - 1 != self.reliable {
            return Err(Fault::CheckpointDependency);
        }
        let motion = match self.apply(codec, frame) {
            Ok(motion) => motion,
            Err(fault) => return Err(fault),
        };
        let ghost next = *self;
        assert(old(self).applies(codec, *frame, Ok::<Option<Vec<u8>>, Fault>(motion), next));
        if frame.sequence > self.freshest {
            self.freshest = frame.sequence;
        }
        if frame.dependency > self.freshest_dependency {
            self.freshest_dependency = frame.dependency;
        }
        self.reliable = sequence;
        Ok(motion)
    }
}

/// An acceptable motion envelope is read back as it was written.
#[verifier::rlimit(40)]
pub proof fn law_motion_round_trips(frame: FrameView, critical: bool, limit: usize)
    requires
        frame.acceptable(critical, limit),
    ensures
        parse(frame.wire(), critical, limit, frame.event) == Ok::<FrameView, Fault>(frame),
        embedded(frame.wire()) == frame.motion,
{
    let w = frame.wire();
    let n = frame.motion.len();
    assert(w[19] == n);
    assert(w.subrange(3, 11) =~= le64(frame.dependency));
    assert(w.subrange(11, 19) =~= le64(frame.sequence));
    assert(at64(w, 3) == frame.dependency) by {
        lemma_64(w, 3, frame.dependency);
    }
    assert(at64(w, 11) == frame.sequence) by {
        lemma_64(w, 11, frame.sequence);
    }
    assert(w.subrange(20, 20 + n as int) =~= frame.motion);
    assert(w.subrange(20 + n as int, w.len() as int) =~= frame.critical);
}

/// Every accepted motion envelope is acceptable and is the encoding of what was read.
#[verifier::rlimit(40)]
pub proof fn law_motion_is_canonical(bytes: Seq<u8>, critical: bool, limit: usize, event: Decoded)
    requires
        parse(bytes, critical, limit, event) is Ok,
    ensures
        parse(bytes, critical, limit, event)->Ok_0.acceptable(critical, limit),
        parse(bytes, critical, limit, event)->Ok_0.wire() == bytes,
{
    let frame = parse(bytes, critical, limit, event)->Ok_0;
    let n = bytes[19] as int;
    assert(bytes.subrange(0, 3) =~= seq![
        MOTION_TAG,
        1u8,
        if frame.critical.len() == 0 {
            0u8
        } else {
            1u8
        },
    ]);
    assert(bytes.subrange(3, 11) == le64(frame.dependency)) by {
        lemma_64(bytes, 3, frame.dependency);
    }
    assert(bytes.subrange(11, 19) == le64(frame.sequence)) by {
        lemma_64(bytes, 11, frame.sequence);
    }
    assert(bytes =~= bytes.subrange(0, 3) + bytes.subrange(3, 11) + bytes.subrange(11, 19) + seq![
        frame.motion.len() as u8,
    ] + frame.motion + frame.critical);
}

/// A delivered motion is never older than one delivered before, and it is delivered only after
/// exactly the reliable events that it depends on.
pub proof fn law_motion_is_delivered_in_its_place<C: Codec>(
    codec: &C,
    receiver: Receiver,
    frame: Frame,
    r: Result<Option<Vec<u8>>, Fault>,
    next: Receiver,
)
    requires
        receiver.applies(codec, frame, r, next),
    ensures
        r matches Ok(Some(_)) ==> frame.sequence > receiver.sequence && next.sequence
            == frame.sequence,
        next.sequence >= receiver.sequence,
        next.reliable == receiver.reliable,
        next.pending == receiver.pending,
{
}

/// One call on a receiver, with its result.
pub ghost enum Call {
    Datagram(Frame),
    Take(Result<Option<Vec<u8>>, Fault>),
    Checkpoint(Frame, u64, Result<Option<Vec<u8>>, Fault>),
}

impl Receiver {
    /// What one call makes of the receiver.
    pub open spec fn called<C: Codec>(self, codec: &C, call: Call, next: Receiver) -> bool {
        match call {
            Call::Datagram(frame) => next == (if self.fresh(frame) {
                Receiver {
                    freshest: frame.sequence,
                    freshest_dependency: frame.dependency,
                    pending: Some(frame),
                    ..self
                }
            } else {
                self
            }),
            Call::Take(r) => self.takes(codec, r, next),
            Call::Checkpoint(frame, sequence, r) => self.checkpoints(
                codec,
                frame,
                sequence,
                r,
                next,
            ),
        }
    }

    /// The frame whose motion one call hands out, if it does.
    pub open spec fn handed(self, call: Call) -> Option<Frame> {
        match call {
            Call::Take(Ok(Some(_))) => self.pending,
            Call::Checkpoint(frame, _, Ok(Some(_))) => Some(frame),
            _ => None,
        }
    }
}

/// What the numbers of a codec are worth. Its difference is exact, and zero is zero.
pub open spec fn exact<C: Codec>(codec: &C, worth: spec_fn(u64) -> int) -> bool {
    &&& worth(0) == 0
    &&& forall|a: u64, b: u64, r: u64| #[trigger]
        call_ensures(C::minus, (codec, a, b), r) ==> worth(r) == worth(a) - worth(b)
}

/// The displacement of the event that one call hands out; none where it hands out nothing.
pub open spec fn displaces<C: Codec>(
    codec: &C,
    worth: spec_fn(u64) -> int,
    receiver: Receiver,
    call: Call,
    by: (int, int),
) -> bool {
    match (receiver.handed(call), call) {
        (Some(frame), Call::Take(Ok(Some(bytes)))) => moves(codec, worth, receiver, frame, bytes, by),
        (Some(frame), Call::Checkpoint(_, _, Ok(Some(bytes)))) => moves(
            codec,
            worth,
            receiver,
            frame,
            bytes,
            by,
        ),
        _ => by == (0int, 0int),
    }
}

/// The codec made `bytes` an event that moves by as much as the frame's totals exceed those that were
/// handed out before.
pub open spec fn moves<C: Codec>(
    codec: &C,
    worth: spec_fn(u64) -> int,
    receiver: Receiver,
    frame: Frame,
    bytes: Vec<u8>,
    by: (int, int),
) -> bool {
    &&& frame.event matches Decoded::Motion { dx, dy }
    &&& exists|x: u64, y: u64|
        {
            &&& #[trigger] call_ensures(C::minus, (codec, dx, receiver.x), x)
            &&& #[trigger] call_ensures(C::minus, (codec, dy, receiver.y), y)
            &&& call_ensures(C::moved, (codec, &frame.motion, x, y), bytes)
            &&& by == (worth(x), worth(y))
        }
}

/// How far a run of events moves.
pub open spec fn moved_by(steps: Seq<(int, int)>) -> (int, int)
    decreases steps.len(),
{
    if steps.len() == 0 {
        (0, 0)
    } else {
        let before = moved_by(steps.drop_last());
        (before.0 + steps.last().0, before.1 + steps.last().1)
    }
}

/// How many checkpoints were accepted.
pub open spec fn accepted(calls: Seq<Call>) -> nat
    decreases calls.len(),
{
    if calls.len() == 0 {
        0
    } else {
        accepted(calls.drop_last()) + match calls.last() {
            Call::Checkpoint(_, _, Ok(_)) => 1nat,
            _ => 0nat,
        }
    }
}

/// A run of calls on a fresh receiver, with the displacement of what each hands out.
pub open spec fn is_run<C: Codec>(
    codec: &C,
    worth: spec_fn(u64) -> int,
    states: Seq<Receiver>,
    calls: Seq<Call>,
    steps: Seq<(int, int)>,
) -> bool {
    &&& states.len() == calls.len() + 1
    &&& steps.len() == calls.len()
    &&& states[0] == Receiver::initial()
    &&& forall|i: int|
        0 <= i < calls.len() ==> #[trigger] states[i].called(codec, calls[i], states[i + 1])
            && displaces(codec, worth, states[i], calls[i], steps[i])
}

/// One call adds its displacement to the totals and never takes an older motion.
proof fn lemma_one_call<C: Codec>(
    codec: &C,
    worth: spec_fn(u64) -> int,
    receiver: Receiver,
    call: Call,
    by: (int, int),
    next: Receiver,
)
    requires
        exact(codec, worth),
        receiver.called(codec, call, next),
        displaces(codec, worth, receiver, call, by),
    ensures
        worth(next.x) == worth(receiver.x) + by.0,
        worth(next.y) == worth(receiver.y) + by.1,
        match receiver.handed(call) {
            Some(frame) => {
                &&& frame.sequence > receiver.sequence
                &&& next.sequence == frame.sequence
                &&& frame.event == (Decoded::Motion { dx: next.x, dy: next.y })
            },
            None => next.sequence == receiver.sequence && next.x == receiver.x && next.y
                == receiver.y,
        },
        next.reliable == receiver.reliable + match call {
            Call::Checkpoint(_, _, Ok(_)) => 1int,
            _ => 0int,
        },
        call matches Call::Take(Ok(Some(_))) ==> receiver.pending is Some
            && receiver.pending->0.dependency == receiver.reliable,
{
    match call {
        Call::Checkpoint(frame, sequence, r) => {
            if r is Ok {
                let moved = choose|moved: Receiver|
                    {
                        &&& #[trigger] receiver.applies(codec, frame, r, moved)
                        &&& next == (Receiver {
                            freshest: larger(moved.freshest, frame.sequence),
                            freshest_dependency: larger(
                                moved.freshest_dependency,
                                frame.dependency,
                            ),
                            reliable: sequence,
                            ..moved
                        })
                    };
                assert(receiver.applies(codec, frame, r, moved));
            }
        },
        _ => {},
    }
}

/// Whatever datagrams are lost, repeated or reordered, the events that are handed out move by the
/// totals of the newest motion that was applied; no motion is handed out twice, nor an older one after
/// a newer one; and a sample is taken only after exactly the checkpoints that it depends on.
pub proof fn law_distance_is_recovered<C: Codec>(
    codec: &C,
    worth: spec_fn(u64) -> int,
    states: Seq<Receiver>,
    calls: Seq<Call>,
    steps: Seq<(int, int)>,
)
    requires
        exact(codec, worth),
        is_run(codec, worth, states, calls, steps),
    ensures
        moved_by(steps) == (worth(states.last().x), worth(states.last().y)),
        states.last().reliable == accepted(calls),
        (forall|i: int| 0 <= i < calls.len() ==> (#[trigger] states[i].handed(calls[i])) is None)
            ==> states.last().sequence == 0,
        forall|i: int|
            0 <= i < calls.len() ==> ((#[trigger] states[i].handed(calls[i])) matches Some(frame)
                ==> frame.sequence <= states.last().sequence),
        states.last().sequence > 0 ==> exists|i: int|
            0 <= i < calls.len() && ((#[trigger] states[i].handed(calls[i])) matches Some(frame)
                && frame.sequence == states.last().sequence && frame.event == (Decoded::Motion {
                dx: states.last().x,
                dy: states.last().y,
            })),
        forall|i: int, j: int|
            #![trigger states[i].handed(calls[i]), states[j].handed(calls[j])]
            0 <= i < j < calls.len() && states[i].handed(calls[i]) is Some && states[j].handed(
                calls[j],
            ) is Some ==> states[i].handed(calls[i])->0.sequence < states[j].handed(
                calls[j],
            )->0.sequence,
        forall|i: int|
            0 <= i < calls.len() && #[trigger] calls[i] is Take && states[i].handed(calls[i]) is Some
                ==> states[i].handed(calls[i])->0.dependency == accepted(calls.take(i)),
    decreases calls.len(),
{
    let n = calls.len() as int;
    if n > 0 {
        let (earlier, before, by) = (states.drop_last(), calls.drop_last(), steps.drop_last());
        assert forall|i: int| 0 <= i < before.len() implies #[trigger] earlier[i].called(
            codec,
            before[i],
            earlier[i + 1],
        ) && displaces(codec, worth, earlier[i], before[i], by[i]) by {
            assert(states[i].called(codec, calls[i], states[i + 1]));
        }
        law_distance_is_recovered(codec, worth, earlier, before, by);
        assert(states[n - 1].called(codec, calls[n - 1], states[n]));
        lemma_one_call(codec, worth, states[n - 1], calls[n - 1], steps[n - 1], states[n]);
        assert(earlier.last() == states[n - 1]);
        let last = states[n - 1].handed(calls[n - 1]);
        assert forall|i: int| 0 <= i < n implies ((#[trigger] states[i].handed(
            calls[i],
        )) matches Some(frame) ==> frame.sequence <= states[n].sequence) by {
            if i < n - 1 {
                assert(earlier[i].handed(before[i]) == states[i].handed(calls[i]));
            }
        }
        if states[n].sequence > 0 && last is None {
            let i = choose|i: int|
                0 <= i < before.len() && ((#[trigger] earlier[i].handed(before[i])) matches Some(
                    frame,
                ) && frame.sequence == earlier.last().sequence && frame.event == (
                Decoded::Motion { dx: earlier.last().x, dy: earlier.last().y }));
            assert(states[i].handed(calls[i]) == earlier[i].handed(before[i]));
        }
        assert forall|i: int, j: int|
            #![trigger states[i].handed(calls[i]), states[j].handed(calls[j])]
            0 <= i < j < n && states[i].handed(calls[i]) is Some && states[j].handed(
                calls[j],
            ) is Some implies states[i].handed(calls[i])->0.sequence < states[j].handed(
            calls[j],
        )->0.sequence by {
            assert(earlier[i].handed(before[i]) == states[i].handed(calls[i]));
            if j < n - 1 {
                assert(earlier[j].handed(before[j]) == states[j].handed(calls[j]));
            }
        }
        assert forall|i: int|
            0 <= i < n && #[trigger] calls[i] is Take && states[i].handed(calls[i]) is Some implies
            states[i].handed(calls[i])->0.dependency == accepted(calls.take(i)) by {
            if i < n - 1 {
                assert(before[i] == calls[i]);
                assert(earlier[i].handed(before[i]) == states[i].handed(calls[i]));
                assert(before.take(i) =~= calls.take(i));
            } else {
                assert(calls.take(i) =~= before);
            }
        }
        if (forall|i: int| 0 <= i < n ==> (#[trigger] states[i].handed(calls[i])) is None) {
            assert forall|i: int| 0 <= i < before.len() implies (#[trigger] earlier[i].handed(
                before[i],
            )) is None by {
                assert(states[i].handed(calls[i]) is None);
            }
        }
    }
}

/// A recovery envelope takes exactly the motion datagrams that the motion receiver itself reads.
pub proof fn law_envelopes_carry_what_is_read(bytes: Seq<u8>, limit: usize, event: Decoded)
    ensures
        crate::protocol::motion_sound(bytes, limit, event) <==> parse(
            bytes,
            false,
            limit,
            event,
        ) is Ok,
{
}

/// Once a sample was taken, the same sample and every older one is refused, whether or not it was
/// delivered meanwhile.
pub proof fn law_old_motion_is_refused(receiver: Receiver, frame: Frame, late: Frame)
    requires
        receiver.fresh(frame),
        late.sequence <= frame.sequence,
    ensures
        !(Receiver {
            freshest: frame.sequence,
            freshest_dependency: frame.dependency,
            pending: Some(frame),
            ..receiver
        }).fresh(late),
        !(Receiver {
            freshest: frame.sequence,
            freshest_dependency: frame.dependency,
            pending: None,
            ..receiver
        }).fresh(late),
{
}

/// Whether the codec reads back what it writes: a motion event whose coordinates it has replaced by
/// finite ones is one of its fixed events, with those coordinates.
pub open spec fn faithful<C: Codec>(codec: &C, limit: usize) -> bool {
    forall|original: Vec<u8>, event: Decoded, x: u64, y: u64, written: Vec<u8>|
        event is Motion && finite(x) && finite(y) && #[trigger] call_ensures(
            C::any,
            (codec, &original),
            event,
        ) && #[trigger] call_ensures(C::moved, (codec, &original, x, y), written) ==> {
            &&& 0 < written@.len() <= limit
            &&& written@.len() <= 255
            &&& reads_as(codec, written@, Decoded::Motion { dx: x, dy: y })
        }
}

/// Whether the codec makes nothing but this of a fixed event.
pub open spec fn reads_as<C: Codec>(codec: &C, event: Seq<u8>, decoded: Decoded) -> bool {
    forall|bytes: Vec<u8>, read: Decoded|
        bytes@ == event && #[trigger] call_ensures(C::fixed, (codec, &bytes), read) ==> read
            == decoded
}

/// One call of `pack`, with its result.
pub ghost struct Packing {
    pub event: Decoded,
    pub original: Vec<u8>,
    pub r: Result<(bool, Vec<u8>), Fault>,
}

impl Packing {
    /// Whether what was packed, if anything was, is accepted as it was sent, whatever the codec makes
    /// of the event inside.
    pub open spec fn decodes<C: Codec>(self, codec: &C, limit: usize, before: Sender) -> bool {
        forall|inside: Vec<u8>, read: Decoded|
            self.r is Ok && inside@ == embedded(self.r->Ok_0.1@) && #[trigger] call_ensures(
                C::fixed,
                (codec, &inside),
                read,
            ) ==> {
                let (udp, wire) = self.r->Ok_0;
                &&& parse(wire@, !udp, limit, read) matches Ok(frame)
                &&& frame.wire() == wire@
                &&& frame.dependency == before.reliable
                &&& frame.sequence == before.sequence + if udp {
                    1int
                } else {
                    0
                }
                &&& frame.critical == if udp {
                    Seq::empty()
                } else {
                    self.original@
                }
            }
    }
}

/// A sequence of calls of `pack` on a new sender, each with what the codec makes of the event.
pub open spec fn is_packing<C: Codec>(
    codec: &C,
    states: Seq<Sender>,
    calls: Seq<Packing>,
) -> bool {
    &&& states.len() == calls.len() + 1
    &&& states[0].initial()
    &&& forall|i: int|
        0 <= i < calls.len() ==> {
            &&& call_ensures(C::any, (codec, &(#[trigger] calls[i]).original), calls[i].event)
            &&& states[i].packs(
                codec,
                calls[i].event,
                calls[i].original,
                calls[i].r,
                states[i + 1],
            )
        }
}

impl Sender {
    /// The latest motion, if there was one, reads back as a motion with finite totals.
    spec fn readable<C: Codec>(self, codec: &C, limit: usize) -> bool {
        if self.sequence == 0 {
            self.last@.len() == 0
        } else {
            &&& 0 < self.last@.len() <= limit
            &&& self.last@.len() <= 255
            &&& exists|dx: u64, dy: u64|
                finite(dx) && finite(dy) && #[trigger] reads_as(
                    codec,
                    self.last@,
                    Decoded::Motion { dx, dy },
                )
        }
    }
}

proof fn lemma_readable<C: Codec>(
    codec: &C,
    limit: usize,
    states: Seq<Sender>,
    calls: Seq<Packing>,
    i: int,
)
    requires
        faithful(codec, limit),
        is_packing(codec, states, calls),
        0 <= i <= calls.len(),
    ensures
        states[i].readable(codec, limit),
    decreases i,
{
    if i > 0 {
        lemma_readable(codec, limit, states, calls, i - 1);
        let call = calls[i - 1];
        let next = states[i - 1 + 1];
        assert(states[i - 1].packs(codec, call.event, call.original, call.r, next));
        if call.event is Motion && next.sequence != states[i - 1].sequence {
            assert(reads_as(codec, next.last@, Decoded::Motion { dx: next.x, dy: next.y }));
        }
    }
}

/// Every envelope that a sender packs decodes in its channel to what was packed, and that encodes to
/// the same envelope again. An empty event is left out: its envelope cannot be told from
/// that of a motion.
pub proof fn law_packed_events_decode<C: Codec>(
    codec: &C,
    limit: usize,
    states: Seq<Sender>,
    calls: Seq<Packing>,
    i: int,
)
    requires
        faithful(codec, limit),
        is_packing(codec, states, calls),
        0 <= i < calls.len(),
        calls[i].original@.len() > 0,
    ensures
        calls[i].decodes(codec, limit, states[i]),
{
    let call = calls[i];
    lemma_readable(codec, limit, states, calls, i + 1);
    assert(states[i].packs(codec, call.event, call.original, call.r, states[i + 1]));
    if call.r is Ok {
        let (udp, wire) = call.r->Ok_0;
        let critical = if udp {
            Seq::empty()
        } else {
            call.original@
        };
        assert(wire@ == packed_frame(states[i + 1], states[i].reliable, critical, call.event).wire());
        assert forall|inside: Vec<u8>, read: Decoded|
            inside@ == embedded(wire@) && #[trigger] call_ensures(
                C::fixed,
                (codec, &inside),
                read,
            ) implies {
            &&& parse(wire@, !udp, limit, read) matches Ok(frame)
            &&& frame.wire() == wire@
            &&& frame.dependency == states[i].reliable
            &&& frame.sequence == states[i + 1].sequence
            &&& frame.critical == critical
        } by {
            lemma_decodes(
                codec,
                limit,
                states[i + 1],
                states[i].reliable,
                critical,
                call.event,
                wire@,
                inside,
                read,
            );
        }
    }
}

/// The envelope of the latest motion decodes.
proof fn lemma_decodes<C: Codec>(
    codec: &C,
    limit: usize,
    sender: Sender,
    dependency: u64,
    critical: Seq<u8>,
    event: Decoded,
    wire: Seq<u8>,
    inside: Vec<u8>,
    read: Decoded,
)
    requires
        sender.readable(codec, limit),
        critical.len() == 0 ==> sender.sequence > 0,
        wire == packed_frame(sender, dependency, critical, event).wire(),
        inside@ == embedded(wire),
        call_ensures(C::fixed, (codec, &inside), read),
    ensures
        parse(wire, critical.len() > 0, limit, read) == Ok::<FrameView, Fault>(
            packed_frame(sender, dependency, critical, read),
        ),
        packed_frame(sender, dependency, critical, read).wire() == wire,
{
    let frame = packed_frame(sender, dependency, critical, read);
    assert(wire == frame.wire());
    assert(wire[19] == frame.motion.len());
    assert(embedded(wire) =~= frame.motion);
    assert(frame.acceptable(critical.len() > 0, limit));
    law_motion_round_trips(frame, critical.len() > 0, limit);
}

spec fn packed_frame(
    sender: Sender,
    dependency: u64,
    critical: Seq<u8>,
    event: Decoded,
) -> FrameView {
    FrameView { dependency, sequence: sender.sequence, motion: sender.last@, event, critical }
}

} // verus!
