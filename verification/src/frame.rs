//! Versioned frames inside an authenticated DTLS connection.

use crate::bytes::{get16, get32, get64, put16, put32, put64, put_all, tail};
use crate::bytes::{at16, at32, at64, le16, le32, le64, lemma_16, lemma_32, lemma_64};
use vstd::prelude::*;

verus! {

pub const TAG: u8 = 240;

pub const VERSION: u8 = 2;

pub const CAP_KCP_INPUT_V1: u32 = 4;

/// Controller selection, distinct from receiver support; fixed for this DTLS session.
pub const CAP_KCP_REQUEST: u32 = 8;

/// Cumulative UDP motion with reliable position checkpoints (envelope v1).
pub const CAP_UDP_MOTION_V1: u32 = 32;

pub const MOTION_TAG: u8 = 241;

pub const MTU: usize = 1100;

/// The shortest payload of a data frame: one KCP segment header.
pub const MIN_PAYLOAD: usize = 24;

#[derive(Debug, Clone, PartialEq, Eq)]
pub enum Frame {
    Offer { id: u64, conv: u32 },
    Ready { id: u64, conv: u32 },
    Data { id: u64, payload: Vec<u8> },
    /// Highest sequence sent, and highest received sequence this sender consumed.
    Progress { id: u64, sent: u64, processed: u64 },
}

/// What a frame says, with its payload as a sequence.
pub ghost enum FrameView {
    Offer { id: u64, conv: u32 },
    Ready { id: u64, conv: u32 },
    Data { id: u64, payload: Seq<u8> },
    Progress { id: u64, sent: u64, processed: u64 },
}

impl View for Frame {
    type V = FrameView;

    open spec fn view(&self) -> FrameView {
        match *self {
            Frame::Offer { id, conv } => FrameView::Offer { id, conv },
            Frame::Ready { id, conv } => FrameView::Ready { id, conv },
            Frame::Data { id, payload } => FrameView::Data { id, payload: payload@ },
            Frame::Progress { id, sent, processed } => FrameView::Progress { id, sent, processed },
        }
    }
}

impl FrameView {
    /// The byte that tells the kinds of frame apart.
    pub open spec fn kind(self) -> u8 {
        match self {
            FrameView::Offer { .. } => 0,
            FrameView::Ready { .. } => 1,
            FrameView::Data { .. } => 2,
            FrameView::Progress { .. } => 3,
        }
    }

    pub open spec fn id(self) -> u64 {
        match self {
            FrameView::Offer { id, .. } => id,
            FrameView::Ready { id, .. } => id,
            FrameView::Data { id, .. } => id,
            FrameView::Progress { id, .. } => id,
        }
    }

    /// What follows the session id.
    pub open spec fn body(self) -> Seq<u8> {
        match self {
            FrameView::Offer { conv, .. } => le32(conv),
            FrameView::Ready { conv, .. } => le32(conv),
            FrameView::Data { payload, .. } => le16(payload.len() as u16) + payload,
            FrameView::Progress { sent, processed, .. } => le64(sent) + le64(processed),
        }
    }

    /// The bytes that stand for this frame.
    pub open spec fn wire(self) -> Seq<u8> {
        seq![TAG, VERSION, self.kind()] + le64(self.id()) + self.body()
    }

    /// Whether a receiver accepts the frame: the ids are set, and a payload is one KCP datagram.
    pub open spec fn acceptable(self) -> bool {
        &&& self.id() != 0
        &&& match self {
            FrameView::Offer { conv, .. } => conv != 0,
            FrameView::Ready { conv, .. } => conv != 0,
            FrameView::Data { payload, .. } => MIN_PAYLOAD <= payload.len() <= MTU,
            FrameView::Progress { .. } => true,
        }
    }
}

/// The frame that `bytes` stand for, if a receiver accepts them.
pub open spec fn parse(bytes: Seq<u8>) -> Option<FrameView> {
    if bytes.len() < 11 || bytes[0] != TAG || bytes[1] != VERSION || at64(bytes, 3) == 0 {
        None
    } else if bytes[2] == 0 && bytes.len() == 15 && at32(bytes, 11) != 0 {
        Some(FrameView::Offer { id: at64(bytes, 3), conv: at32(bytes, 11) })
    } else if bytes[2] == 1 && bytes.len() == 15 && at32(bytes, 11) != 0 {
        Some(FrameView::Ready { id: at64(bytes, 3), conv: at32(bytes, 11) })
    } else if bytes[2] == 2 && bytes.len() >= 13 && MIN_PAYLOAD <= at16(bytes, 11) <= MTU
        && bytes.len() == 13 + at16(bytes, 11) {
        Some(FrameView::Data { id: at64(bytes, 3), payload: bytes.subrange(13, bytes.len() as int) })
    } else if bytes[2] == 3 && bytes.len() == 27 {
        Some(
            FrameView::Progress {
                id: at64(bytes, 3),
                sent: at64(bytes, 11),
                processed: at64(bytes, 19),
            },
        )
    } else {
        None
    }
}

impl Frame {
    pub fn encode(&self) -> (bytes: Vec<u8>)
        ensures
            bytes@ == self@.wire(),
    {
        let (kind, id): (u8, u64) = match self {
            Frame::Offer { id, .. } => (0, *id),
            Frame::Ready { id, .. } => (1, *id),
            Frame::Data { id, .. } => (2, *id),
            Frame::Progress { id, .. } => (3, *id),
        };
        let mut bytes: Vec<u8> = vec![TAG, VERSION, kind];
        assert(bytes@ =~= seq![TAG, VERSION, self@.kind()]);
        put64(&mut bytes, id);
        match self {
            Frame::Offer { conv, .. } => put32(&mut bytes, *conv),
            Frame::Ready { conv, .. } => put32(&mut bytes, *conv),
            Frame::Data { payload, .. } => {
                put16(&mut bytes, payload.len() as u16);
                put_all(&mut bytes, payload);
            },
            Frame::Progress { sent, processed, .. } => {
                put64(&mut bytes, *sent);
                put64(&mut bytes, *processed);
            },
        }
        assert(bytes@ =~= self@.wire());
        bytes
    }

    pub fn decode(bytes: &[u8]) -> (r: Option<Frame>)
        ensures
            match r {
                Some(frame) => parse(bytes@) == Some(frame@),
                None => parse(bytes@) is None,
            },
    {
        if bytes.len() < 11 || bytes[0] != TAG || bytes[1] != VERSION {
            return None;
        }
        let id: u64 = get64(bytes, 3);
        if id == 0 {
            return None;
        }
        let kind: u8 = bytes[2];
        if (kind == 0 || kind == 1) && bytes.len() == 15 {
            let conv: u32 = get32(bytes, 11);
            if conv == 0 {
                None
            } else if kind == 0 {
                Some(Frame::Offer { id, conv })
            } else {
                Some(Frame::Ready { id, conv })
            }
        } else if kind == 2 && bytes.len() >= 13 {
            let len: usize = get16(bytes, 11) as usize;
            if len < MIN_PAYLOAD || len > MTU || bytes.len() != 13 + len {
                None
            } else {
                Some(Frame::Data { id, payload: tail(bytes, 13) })
            }
        } else if kind == 3 && bytes.len() == 27 {
            Some(Frame::Progress { id, sent: get64(bytes, 11), processed: get64(bytes, 19) })
        } else {
            None
        }
    }
}

/// An acceptable frame is read back as it was written, and the encoding of any other is rejected.
#[verifier::rlimit(40)]
pub proof fn law_frames_round_trip(frame: FrameView)
    ensures
        frame.acceptable() ==> parse(frame.wire()) == Some(frame),
        !frame.acceptable() ==> parse(frame.wire()) is None,
{
    let w = frame.wire();
    assert(w.subrange(3, 11) =~= le64(frame.id()));
    lemma_64(w, 3, frame.id());
    match frame {
        FrameView::Offer { conv, .. } => {
            assert(w.subrange(11, 15) =~= le32(conv));
            lemma_32(w, 11, conv);
        },
        FrameView::Ready { conv, .. } => {
            assert(w.subrange(11, 15) =~= le32(conv));
            lemma_32(w, 11, conv);
        },
        FrameView::Data { payload, .. } => {
            assert(w.subrange(11, 13) =~= le16(payload.len() as u16));
            lemma_16(w, 11, payload.len() as u16);
            assert(w.subrange(13, w.len() as int) =~= payload);
        },
        FrameView::Progress { sent, processed, .. } => {
            assert(w.subrange(11, 19) =~= le64(sent));
            assert(w.subrange(19, 27) =~= le64(processed));
            lemma_64(w, 11, sent);
            lemma_64(w, 19, processed);
        },
    }
}

/// Every accepted byte string is the encoding of the one frame that is read from it, and that
/// frame is acceptable. So truncated, extended and otherwise altered encodings are rejected
/// unless they are the encoding of another frame.
#[verifier::rlimit(40)]
pub proof fn law_frames_are_canonical(bytes: Seq<u8>)
    requires
        parse(bytes) is Some,
    ensures
        parse(bytes)->0.acceptable(),
        parse(bytes)->0.wire() == bytes,
{
    let frame = parse(bytes)->0;
    let rest = bytes.subrange(11, bytes.len() as int);
    assert(bytes.subrange(0, 3) =~= seq![TAG, VERSION, frame.kind()]);
    assert(bytes.subrange(3, 11) == le64(frame.id())) by {
        lemma_64(bytes, 3, frame.id());
    }
    assert(rest == frame.body()) by {
        match frame {
            FrameView::Offer { conv, .. } => lemma_32(bytes, 11, conv),
            FrameView::Ready { conv, .. } => lemma_32(bytes, 11, conv),
            FrameView::Data { payload, .. } => {
                lemma_16(bytes, 11, payload.len() as u16);
                assert(rest =~= bytes.subrange(11, 13) + payload);
            },
            FrameView::Progress { sent, processed, .. } => {
                lemma_64(bytes, 11, sent);
                lemma_64(bytes, 19, processed);
                assert(rest =~= bytes.subrange(11, 19) + bytes.subrange(19, 27));
            },
        }
    }
    assert(bytes =~= bytes.subrange(0, 3) + bytes.subrange(3, 11) + rest);
}

} // verus!
