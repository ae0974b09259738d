//! Opt-in envelope inside the existing authenticated DTLS association.
//! Never advertise this capability until the driver and backend support it.

use crate::bytes::{at64, blank, le64, lemma_64};
use crate::bytes::{get64, get_id, is_blank, put64, put_all, put_id, same, tail};
use crate::event::{equal, finite, is_equal, is_finite, magnitude, Decoded, SCREEN_LIMIT};
use crate::frame::{self, Frame, FrameView, MOTION_TAG, MTU};
use vstd::prelude::*;

verus! {

pub const CAP_INPUT_RECOVERY_V1: u32 = 64;

pub const TAG: u8 = 242;

pub const VERSION: u8 = 1;

pub const MAX_SIZE: usize = 28 + 13 + MTU;

pub type Session = [u8; 16];

pub type Ownership = [u8; 16];

pub fn negotiated(local: u32, remote: u32, kcp_selected: bool) -> (r: bool)
    ensures
        r == (kcp_selected && local & remote & CAP_INPUT_RECOVERY_V1 != 0),
{
    kcp_selected && local & remote & CAP_INPUT_RECOVERY_V1 != 0
}

#[derive(Clone, Copy, Debug, PartialEq, Eq, Structural)]
pub enum Role {
    Dialer,
    Acceptor,
}

/// The byte that stands for a role.
pub open spec fn role_byte(role: Role) -> u8 {
    match role {
        Role::Dialer => 0,
        Role::Acceptor => 1,
    }
}

/// The role that a byte stands for.
pub open spec fn role_of(byte: u8) -> Option<Role> {
    match byte {
        0 => Some(Role::Dialer),
        1 => Some(Role::Acceptor),
        _ => None,
    }
}

impl Role {
    pub open spec fn other(self) -> Role {
        match self {
            Role::Dialer => Role::Acceptor,
            Role::Acceptor => Role::Dialer,
        }
    }

    pub fn peer(self) -> (r: Role)
        ensures
            r == self.other(),
    {
        match self {
            Role::Dialer => Role::Acceptor,
            Role::Acceptor => Role::Dialer,
        }
    }

    fn byte(self) -> (r: u8)
        ensures
            r == role_byte(self),
    {
        match self {
            Role::Dialer => 0,
            Role::Acceptor => 1,
        }
    }

    fn decode(byte: u8) -> (r: Option<Role>)
        ensures
            r == role_of(byte),
    {
        match byte {
            0 => Some(Role::Dialer),
            1 => Some(Role::Acceptor),
            _ => None,
        }
    }
}

#[derive(Clone, Copy, Debug, PartialEq, Eq, Structural)]
pub enum Kind {
    Request,
    Prepare,
    Prepared,
    Commit,
    CommitAck,
    Activate,
    ActivateAck,
}

/// The byte that stands for a kind of control frame.
pub open spec fn kind_byte(kind: Kind) -> u8 {
    match kind {
        Kind::Request => 0,
        Kind::Prepare => 1,
        Kind::Prepared => 2,
        Kind::Commit => 3,
        Kind::CommitAck => 4,
        Kind::Activate => 5,
        Kind::ActivateAck => 6,
    }
}

/// The kind of control frame that a byte stands for.
pub open spec fn kind_of(byte: u8) -> Option<Kind> {
    match byte {
        0 => Some(Kind::Request),
        1 => Some(Kind::Prepare),
        2 => Some(Kind::Prepared),
        3 => Some(Kind::Commit),
        4 => Some(Kind::CommitAck),
        5 => Some(Kind::Activate),
        6 => Some(Kind::ActivateAck),
        _ => None,
    }
}

impl Kind {
    /// The one role that may send this kind, or none if both may.
    pub open spec fn only_from(self) -> Option<Role> {
        match self {
            Kind::Request => None,
            Kind::Prepare | Kind::Commit | Kind::Activate => Some(Role::Dialer),
            Kind::Prepared | Kind::CommitAck | Kind::ActivateAck => Some(Role::Acceptor),
        }
    }

    /// Whether this kind carries a baseline.
    pub open spec fn carries(self) -> bool {
        self == Kind::Prepared || self == Kind::Commit
    }

    pub fn sender(self) -> (r: Option<Role>)
        ensures
            r == self.only_from(),
    {
        match self {
            Kind::Request => None,
            Kind::Prepare | Kind::Commit | Kind::Activate => Some(Role::Dialer),
            Kind::Prepared | Kind::CommitAck | Kind::ActivateAck => Some(Role::Acceptor),
        }
    }

    pub fn has_baseline(self) -> (r: bool)
        ensures
            r == self.carries(),
    {
        match self {
            Kind::Prepared | Kind::Commit => true,
            _ => false,
        }
    }

    fn byte(self) -> (r: u8)
        ensures
            r == kind_byte(self),
    {
        match self {
            Kind::Request => 0,
            Kind::Prepare => 1,
            Kind::Prepared => 2,
            Kind::Commit => 3,
            Kind::CommitAck => 4,
            Kind::Activate => 5,
            Kind::ActivateAck => 6,
        }
    }

    fn decode(byte: u8) -> (r: Option<Kind>)
        ensures
            r == kind_of(byte),
    {
        match byte {
            0 => Some(Kind::Request),
            1 => Some(Kind::Prepare),
            2 => Some(Kind::Prepared),
            3 => Some(Kind::Commit),
            4 => Some(Kind::CommitAck),
            5 => Some(Kind::Activate),
            6 => Some(Kind::ActivateAck),
            _ => None,
        }
    }
}

/// Local actual cursor and validated layout generation after release. The opaque
/// ownership digest must identify the same confirmed transaction at both peers.
#[derive(Clone, Copy, Debug)]
pub struct Baseline {
    pub x: u64,
    pub y: u64,
    pub layout: u64,
    pub ownership: Ownership,
    pub owner: Role,
}

pub ghost struct BaselineView {
    pub x: u64,
    pub y: u64,
    pub layout: u64,
    pub ownership: Seq<u8>,
    pub owner: Role,
}

impl View for Baseline {
    type V = BaselineView;

    open spec fn view(&self) -> BaselineView {
        BaselineView {
            x: self.x,
            y: self.y,
            layout: self.layout,
            ownership: self.ownership@,
            owner: self.owner,
        }
    }
}

impl BaselineView {
    /// Both coordinates lie within the signed 32-bit range, and layout and ownership are set.
    pub open spec fn sound(self) -> bool {
        &&& magnitude(self.x) <= SCREEN_LIMIT
        &&& magnitude(self.y) <= SCREEN_LIMIT
        &&& self.layout != 0
        &&& !blank(self.ownership)
    }

    pub open spec fn wire(self) -> Seq<u8> {
        le64(self.x) + le64(self.y) + le64(self.layout) + self.ownership + seq![
            role_byte(self.owner),
        ]
    }
}

impl Baseline {
    /// Whether both baselines say the same, coordinates compared as numbers.
    pub open spec fn agrees(self, other: Baseline) -> bool {
        &&& equal(self.x, other.x)
        &&& equal(self.y, other.y)
        &&& self.layout == other.layout
        &&& self.ownership == other.ownership
        &&& self.owner == other.owner
    }

    pub fn valid(&self) -> (r: bool)
        ensures
            r == self@.sound(),
    {
        self.x % 0x8000_0000_0000_0000 <= SCREEN_LIMIT && self.y % 0x8000_0000_0000_0000
            <= SCREEN_LIMIT && self.layout != 0 && !is_blank(&self.ownership)
    }

    pub fn same(&self, other: &Baseline) -> (r: bool)
        ensures
            r == self.agrees(*other),
    {
        is_equal(self.x, other.x) && is_equal(self.y, other.y) && self.layout == other.layout
            && same(&self.ownership, &other.ownership) && self.owner == other.owner
    }
}

impl PartialEq for Baseline {
    fn eq(&self, other: &Baseline) -> (r: bool) {
        self.same(other)
    }
}

impl vstd::std_specs::cmp::PartialEqSpecImpl for Baseline {
    open spec fn obeys_eq_spec() -> bool {
        true
    }

    open spec fn eq_spec(&self, other: &Baseline) -> bool {
        self.agrees(*other)
    }
}

#[derive(Clone, Copy, Debug, PartialEq)]
pub struct Control {
    pub session: Session,
    pub epoch: u64,
    pub source: Role,
    pub kind: Kind,
    pub baseline: Option<Baseline>,
}

pub ghost struct ControlView {
    pub session: Seq<u8>,
    pub epoch: u64,
    pub source: Role,
    pub kind: Kind,
    pub baseline: Option<BaselineView>,
}

impl View for Control {
    type V = ControlView;

    open spec fn view(&self) -> ControlView {
        ControlView {
            session: self.session@,
            epoch: self.epoch,
            source: self.source,
            kind: self.kind,
            baseline: match self.baseline {
                Some(b) => Some(b@),
                None => None,
            },
        }
    }
}

impl ControlView {
    /// The frame names a session and a usable epoch, comes from a role that may send its kind, and
    /// carries a sound baseline exactly if its kind asks for one.
    pub open spec fn sound(self) -> bool {
        &&& !blank(self.session)
        &&& self.epoch != u64::MAX
        &&& match self.kind.only_from() {
            Some(role) => role == self.source,
            None => true,
        }
        &&& match self.baseline {
            Some(b) => self.kind.carries() && b.sound(),
            None => !self.kind.carries(),
        }
    }

    /// What follows the envelope's head.
    pub open spec fn body(self) -> Seq<u8> {
        seq![kind_byte(self.kind)] + match self.baseline {
            Some(b) => b.wire(),
            None => Seq::<u8>::empty(),
        }
    }
}

impl Control {
    pub fn valid(&self) -> (r: bool)
        ensures
            r == self@.sound(),
    {
        let addressed = match self.kind.sender() {
            Some(role) => role == self.source,
            None => true,
        };
        let based = match &self.baseline {
            Some(b) => self.kind.has_baseline() && b.valid(),
            None => !self.kind.has_baseline(),
        };
        !is_blank(&self.session) && self.epoch != u64::MAX && addressed && based
    }
}

#[derive(Clone, Debug, PartialEq)]
pub enum Envelope {
    Control(Control),
    Reliable { session: Session, epoch: u64, source: Role, frame: Frame },
    /// A motion datagram, strictly checked before it is returned.
    Motion { session: Session, epoch: u64, source: Role, bytes: Vec<u8> },
}

pub ghost enum EnvelopeView {
    Control(ControlView),
    Reliable { session: Seq<u8>, epoch: u64, source: Role, frame: FrameView },
    Motion { session: Seq<u8>, epoch: u64, source: Role, bytes: Seq<u8> },
}

impl View for Envelope {
    type V = EnvelopeView;

    open spec fn view(&self) -> EnvelopeView {
        match *self {
            Envelope::Control(c) => EnvelopeView::Control(c@),
            Envelope::Reliable { session, epoch, source, frame } => EnvelopeView::Reliable {
                session: session@,
                epoch,
                source,
                frame: frame@,
            },
            Envelope::Motion { session, epoch, source, bytes } => EnvelopeView::Motion {
                session: session@,
                epoch,
                source,
                bytes: bytes@,
            },
        }
    }
}

/// Whether `bytes` are one motion datagram: its head, a set sequence number, and an event no longer
/// than `limit` that the codec reads as the finite motion `event`.
pub open spec fn motion_sound(bytes: Seq<u8>, limit: usize, event: Decoded) -> bool {
    &&& bytes.len() > 20
    &&& bytes[0] == MOTION_TAG && bytes[1] == 1 && bytes[2] == 0
    &&& bytes[19] <= limit
    &&& bytes.len() == 20 + bytes[19]
    &&& at64(bytes, 11) != 0
    &&& match event {
        Decoded::Motion { dx, dy } => finite(dx) && finite(dy),
        _ => false,
    }
}

fn valid_motion(bytes: &[u8], limit: usize, event: &Decoded) -> (r: bool)
    ensures
        r == motion_sound(bytes@, limit, *event),
{
    if bytes.len() <= 20 || bytes[0] != MOTION_TAG || bytes[1] != 1 || bytes[2] != 0 {
        return false;
    }
    let len: usize = bytes[19] as usize;
    if len > limit || bytes.len() != 20 + len || get64(bytes, 11) == 0 {
        return false;
    }
    match event {
        Decoded::Motion { dx, dy } => is_finite(*dx) && is_finite(*dy),
        _ => false,
    }
}

impl EnvelopeView {
    pub open spec fn session(self) -> Seq<u8> {
        match self {
            EnvelopeView::Control(c) => c.session,
            EnvelopeView::Reliable { session, .. } => session,
            EnvelopeView::Motion { session, .. } => session,
        }
    }

    pub open spec fn epoch(self) -> u64 {
        match self {
            EnvelopeView::Control(c) => c.epoch,
            EnvelopeView::Reliable { epoch, .. } => epoch,
            EnvelopeView::Motion { epoch, .. } => epoch,
        }
    }

    pub open spec fn source(self) -> Role {
        match self {
            EnvelopeView::Control(c) => c.source,
            EnvelopeView::Reliable { source, .. } => source,
            EnvelopeView::Motion { source, .. } => source,
        }
    }

    /// The byte that tells the kinds of envelope apart.
    pub open spec fn kind(self) -> u8 {
        match self {
            EnvelopeView::Control(_) => 0,
            EnvelopeView::Reliable { .. } => 1,
            EnvelopeView::Motion { .. } => 2,
        }
    }

    pub open spec fn body(self) -> Seq<u8> {
        match self {
            EnvelopeView::Control(c) => c.body(),
            EnvelopeView::Reliable { frame, .. } => frame.wire(),
            EnvelopeView::Motion { bytes, .. } => bytes,
        }
    }

    /// The bytes that stand for this envelope.
    pub open spec fn wire(self) -> Seq<u8> {
        seq![TAG, VERSION, self.kind(), role_byte(self.source())] + self.session() + le64(
            self.epoch(),
        ) + self.body()
    }

    /// Whether the envelope may be sent and is accepted when received. `event` is what the codec
    /// makes of the event inside a motion datagram.
    pub open spec fn sound(self, limit: usize, event: Decoded) -> bool {
        &&& !blank(self.session())
        &&& match self {
            EnvelopeView::Control(c) => c.sound(),
            EnvelopeView::Reliable { frame, .. } => frame.acceptable(),
            EnvelopeView::Motion { bytes, .. } => motion_sound(bytes, limit, event),
        }
    }
}

/// The control frame written in the bytes after the head, before its soundness is judged.
pub open spec fn parse_control(bytes: Seq<u8>, source: Role) -> Option<ControlView> {
    match kind_of(bytes[28]) {
        Some(kind) => {
            let head = ControlView {
                session: bytes.subrange(4, 20),
                epoch: at64(bytes, 20),
                source,
                kind,
                baseline: None,
            };
            if !kind.carries() {
                if bytes.len() == 29 {
                    Some(head)
                } else {
                    None
                }
            } else if bytes.len() == 70 && role_of(bytes[69]) is Some {
                Some(
                    ControlView {
                        baseline: Some(
                            BaselineView {
                                x: at64(bytes, 29),
                                y: at64(bytes, 37),
                                layout: at64(bytes, 45),
                                ownership: bytes.subrange(53, 69),
                                owner: role_of(bytes[69])->0,
                            },
                        ),
                        ..head
                    },
                )
            } else {
                None
            }
        },
        None => None,
    }
}

/// The envelope that `bytes` stand for, if a receiver accepts them. `event` is what the codec makes
/// of the event inside a motion datagram.
pub open spec fn parse(bytes: Seq<u8>, limit: usize, event: Decoded) -> Option<EnvelopeView> {
    if bytes.len() < 29 || bytes.len() > MAX_SIZE || bytes[0] != TAG || bytes[1] != VERSION
        || role_of(bytes[3]) is None || blank(bytes.subrange(4, 20)) {
        None
    } else {
        let session = bytes.subrange(4, 20);
        let epoch = at64(bytes, 20);
        let source = role_of(bytes[3])->0;
        let rest = bytes.subrange(28, bytes.len() as int);
        if bytes[2] == 0 {
            match parse_control(bytes, source) {
                Some(c) => if c.sound() {
                    Some(EnvelopeView::Control(c))
                } else {
                    None
                },
                None => None,
            }
        } else if bytes[2] == 1 {
            match frame::parse(rest) {
                Some(frame) => Some(EnvelopeView::Reliable { session, epoch, source, frame }),
                None => None,
            }
        } else if bytes[2] == 2 && motion_sound(rest, limit, event) {
            Some(EnvelopeView::Motion { session, epoch, source, bytes: rest })
        } else {
            None
        }
    }
}

impl Envelope {
    pub fn identity(&self) -> (r: (Session, u64, Role))
        ensures
            r.0@ == self@.session(),
            r.1 == self@.epoch(),
            r.2 == self@.source(),
    {
        match self {
            Envelope::Control(c) => (c.session, c.epoch, c.source),
            Envelope::Reliable { session, epoch, source, .. } => (*session, *epoch, *source),
            Envelope::Motion { session, epoch, source, .. } => (*session, *epoch, *source),
        }
    }

    pub fn matches(&self, session: Session, epoch: u64, source: Role) -> (r: bool)
        ensures
            r == (self@.session() == session@ && self@.epoch() == epoch && self@.source()
                == source),
    {
        let (own_session, own_epoch, own_source) = self.identity();
        let r = same(&own_session, &session);
        assert(own_session@ == session@ ==> own_session =~= session);
        r && own_epoch == epoch && own_source == source
    }

    pub fn encode(&self, limit: usize, event: &Decoded) -> (r: Option<Vec<u8>>)
        ensures
            match r {
                Some(bytes) => self@.sound(limit, *event) && bytes@ == self@.wire(),
                None => !self@.sound(limit, *event),
            },
    {
        let (session, epoch, source) = self.identity();
        if is_blank(&session) {
            return None;
        }
        let kind: u8 = match self {
            Envelope::Control(_) => 0,
            Envelope::Reliable { .. } => 1,
            Envelope::Motion { .. } => 2,
        };
        let mut bytes: Vec<u8> = vec![TAG, VERSION, kind, source.byte()];
        assert(bytes@ =~= seq![TAG, VERSION, self@.kind(), role_byte(self@.source())]);
        put_id(&mut bytes, &session);
        put64(&mut bytes, epoch);
        let ghost head = bytes@;
        match self {
            Envelope::Control(c) => {
                if !c.valid() {
                    return None;
                }
                bytes.push(c.kind.byte());
                if let Some(b) = &c.baseline {
                    put64(&mut bytes, b.x);
                    put64(&mut bytes, b.y);
                    put64(&mut bytes, b.layout);
                    put_id(&mut bytes, &b.ownership);
                    bytes.push(b.owner.byte());
                    assert(bytes@ =~= head + (seq![kind_byte(c.kind)] + b@.wire()));
                } else {
                    assert(bytes@ =~= head + (seq![kind_byte(c.kind)] + Seq::<u8>::empty()));
                }
            },
            Envelope::Reliable { frame, .. } => {
                if let Frame::Data { payload, .. } = frame {
                    if payload.len() < frame::MIN_PAYLOAD || payload.len() > MTU {
                        return None;
                    }
                }
                let encoded = frame.encode();
                proof {
                    frame::law_frames_round_trip(frame@);
                }
                if Frame::decode(&encoded).is_none() {
                    return None;
                }
                put_all(&mut bytes, &encoded);
            },
            Envelope::Motion { bytes: motion, .. } => {
                if !valid_motion(motion, limit, event) {
                    return None;
                }
                put_all(&mut bytes, motion);
            },
        }
        assert(bytes@ =~= self@.wire());
        Some(bytes)
    }

    pub fn decode(bytes: &[u8], limit: usize, event: &Decoded) -> (r: Option<Envelope>)
        ensures
            match r {
                Some(envelope) => parse(bytes@, limit, *event) == Some(envelope@),
                None => parse(bytes@, limit, *event) is None,
            },
    {
        if bytes.len() < 29 || bytes.len() > MAX_SIZE || bytes[0] != TAG || bytes[1] != VERSION {
            return None;
        }
        let source = match Role::decode(bytes[3]) {
            Some(role) => role,
            None => return None,
        };
        let session: Session = get_id(bytes, 4);
        if is_blank(&session) {
            return None;
        }
        let epoch: u64 = get64(bytes, 20);
        match bytes[2] {
            0 => {
                let kind = match Kind::decode(bytes[28]) {
                    Some(kind) => kind,
                    None => return None,
                };
                let baseline = if kind.has_baseline() {
                    if bytes.len() != 70 {
                        return None;
                    }
                    let owner = match Role::decode(bytes[69]) {
                        Some(role) => role,
                        None => return None,
                    };
                    Some(
                        Baseline {
                            x: get64(bytes, 29),
                            y: get64(bytes, 37),
                            layout: get64(bytes, 45),
                            ownership: get_id(bytes, 53),
                            owner,
                        },
                    )
                } else {
                    if bytes.len() != 29 {
                        return None;
                    }
                    None
                };
                let control = Control { session, epoch, source, kind, baseline };
                if !control.valid() {
                    return None;
                }
                Some(Envelope::Control(control))
            },
            1 => {
                match Frame::decode(vstd::slice::slice_subrange(bytes, 28, bytes.len())) {
                    Some(frame) => Some(Envelope::Reliable { session, epoch, source, frame }),
                    None => None,
                }
            },
            2 => {
                let motion = tail(bytes, 28);
                if valid_motion(&motion, limit, event) {
                    Some(Envelope::Motion { session, epoch, source, bytes: motion })
                } else {
                    None
                }
            },
            _ => None,
        }
    }
}

impl EnvelopeView {
    /// Identities are sixteen bytes long.
    pub open spec fn well_formed(self) -> bool {
        &&& self.session().len() == 16
        &&& match self {
            EnvelopeView::Control(c) => match c.baseline {
                Some(b) => b.ownership.len() == 16,
                None => true,
            },
            _ => true,
        }
    }
}

#[verifier::rlimit(40)]
proof fn lemma_head(envelope: EnvelopeView)
    requires
        envelope.well_formed(),
    ensures
        envelope.wire().len() == 28 + envelope.body().len(),
        envelope.wire()[0] == TAG,
        envelope.wire()[1] == VERSION,
        envelope.wire()[2] == envelope.kind(),
        envelope.wire()[3] == role_byte(envelope.source()),
        envelope.wire().subrange(4, 20) == envelope.session(),
        at64(envelope.wire(), 20) == envelope.epoch(),
        envelope.wire().subrange(28, envelope.wire().len() as int) == envelope.body(),
{
    let w = envelope.wire();
    assert(w.subrange(4, 20) =~= envelope.session());
    assert(w.subrange(20, 28) =~= le64(envelope.epoch()));
    lemma_64(w, 20, envelope.epoch());
    assert(w.subrange(28, w.len() as int) =~= envelope.body());
}

/// The bytes of a control frame with a baseline are its kind and the baseline's five parts.
proof fn lemma_parts(
    w: Seq<u8>,
    kind: u8,
    x: Seq<u8>,
    y: Seq<u8>,
    layout: Seq<u8>,
    ownership: Seq<u8>,
    owner: u8,
)
    requires
        w.len() == 70,
        x.len() == 8,
        y.len() == 8,
        layout.len() == 8,
        ownership.len() == 16,
    ensures
        w.subrange(28, 70) == seq![kind] + (x + y + layout + ownership + seq![owner]) <==> {
            &&& w[28] == kind
            &&& w.subrange(29, 37) == x
            &&& w.subrange(37, 45) == y
            &&& w.subrange(45, 53) == layout
            &&& w.subrange(53, 69) == ownership
            &&& w[69] == owner
        },
{
    let whole = seq![kind] + (x + y + layout + ownership + seq![owner]);
    let body = w.subrange(28, 70);
    if body == whole {
        assert(w[28] == body[0]);
        assert(w[69] == body[41]);
        assert(w.subrange(29, 37) =~= body.subrange(1, 9));
        assert(whole.subrange(1, 9) =~= x);
        assert(w.subrange(37, 45) =~= body.subrange(9, 17));
        assert(whole.subrange(9, 17) =~= y);
        assert(w.subrange(45, 53) =~= body.subrange(17, 25));
        assert(whole.subrange(17, 25) =~= layout);
        assert(w.subrange(53, 69) =~= body.subrange(25, 41));
        assert(whole.subrange(25, 41) =~= ownership);
    }
    if w[28] == kind && w.subrange(29, 37) == x && w.subrange(37, 45) == y && w.subrange(45, 53)
        == layout && w.subrange(53, 69) == ownership && w[69] == owner {
        assert(body =~= seq![w[28]] + (w.subrange(29, 37) + w.subrange(37, 45) + w.subrange(45, 53)
            + w.subrange(53, 69) + seq![w[69]]));
    }
}

#[verifier::rlimit(40)]
proof fn lemma_control(w: Seq<u8>, c: ControlView)
    requires
        w.len() == 28 + c.body().len(),
        w.subrange(4, 20) == c.session,
        at64(w, 20) == c.epoch,
        w.subrange(28, w.len() as int) == c.body(),
        c.baseline is Some <==> c.kind.carries(),
        c.baseline is Some ==> c.baseline->0.ownership.len() == 16,
    ensures
        parse_control(w, c.source) == Some(c),
{
    assert(w[28] == w.subrange(28, w.len() as int)[0]);
    if let Some(b) = c.baseline {
        let (x, y, layout) = (le64(b.x), le64(b.y), le64(b.layout));
        assert(w.subrange(29, 37) == x && w.subrange(37, 45) == y && w.subrange(45, 53) == layout
            && w.subrange(53, 69) == b.ownership && w[69] == role_byte(b.owner)) by {
            lemma_parts(w, kind_byte(c.kind), x, y, layout, b.ownership, role_byte(b.owner));
        }
        assert(at64(w, 29) == b.x) by {
            lemma_64(w, 29, b.x);
        }
        assert(at64(w, 37) == b.y) by {
            lemma_64(w, 37, b.y);
        }
        assert(at64(w, 45) == b.layout) by {
            lemma_64(w, 45, b.layout);
        }
    }
}

/// A sound envelope is read back as it was written, with its session, epoch and source.
pub proof fn law_envelopes_round_trip(envelope: EnvelopeView, limit: usize, event: Decoded)
    requires
        envelope.well_formed(),
        envelope.sound(limit, event),
    ensures
        parse(envelope.wire(), limit, event) == Some(envelope),
{
    lemma_head(envelope);
    match envelope {
        EnvelopeView::Control(c) => lemma_control(envelope.wire(), c),
        EnvelopeView::Reliable { frame, .. } => frame::law_frames_round_trip(frame),
        EnvelopeView::Motion { .. } => {},
    }
}

/// Every accepted byte string is the encoding of the one envelope that is read from it, and that
/// envelope is sound. So truncated, extended and forged encodings are rejected.
#[verifier::rlimit(40)]
pub proof fn law_envelopes_are_canonical(bytes: Seq<u8>, limit: usize, event: Decoded)
    requires
        parse(bytes, limit, event) is Some,
    ensures
        parse(bytes, limit, event)->0.well_formed(),
        parse(bytes, limit, event)->0.sound(limit, event),
        parse(bytes, limit, event)->0.wire() == bytes,
{
    let envelope = parse(bytes, limit, event)->0;
    let rest = bytes.subrange(28, bytes.len() as int);
    assert(bytes.subrange(0, 4) =~= seq![
        TAG,
        VERSION,
        envelope.kind(),
        role_byte(envelope.source()),
    ]);
    assert(bytes.subrange(20, 28) == le64(envelope.epoch())) by {
        lemma_64(bytes, 20, envelope.epoch());
    }
    assert(rest == envelope.body()) by {
        match envelope {
            EnvelopeView::Control(c) => {
                match c.baseline {
                    Some(b) => {
                        lemma_64(bytes, 29, b.x);
                        lemma_64(bytes, 37, b.y);
                        lemma_64(bytes, 45, b.layout);
                        lemma_parts(
                            bytes,
                            kind_byte(c.kind),
                            le64(b.x),
                            le64(b.y),
                            le64(b.layout),
                            b.ownership,
                            role_byte(b.owner),
                        );
                    },
                    None => {
                        assert(rest =~= seq![kind_byte(c.kind)] + Seq::<u8>::empty());
                    },
                }
            },
            EnvelopeView::Reliable { .. } => frame::law_frames_are_canonical(rest),
            EnvelopeView::Motion { .. } => {},
        }
    }
    if envelope is Reliable {
        frame::law_frames_are_canonical(rest);
    }
    assert(bytes =~= bytes.subrange(0, 4) + bytes.subrange(4, 20) + bytes.subrange(20, 28) + rest);
}

} // verus!
