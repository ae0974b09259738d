//! Why a connection is given up.

use vstd::prelude::*;

verus! {

#[derive(Clone, Copy, Debug, PartialEq, Eq, Structural)]
pub enum Fault {
    /// The session was closed before.
    Closed,
    /// The peer's greeting offers no KCP.
    Unsupported,
    /// The engine refused the MTU.
    Mtu,
    /// The engine refused its first clock reading.
    EngineUpdate,
    /// Too many negotiation frames wait.
    WireBudget,
    /// Negotiation has not finished.
    NotReady,
    /// A message is too long, or too many wait.
    InputBudget,
    /// No sequence number is left.
    SequenceExhausted,
    /// The engine refused a message.
    EngineSend,
    /// A frame arrived before the greeting.
    BeforeHello,
    /// Bytes that are no frame.
    InvalidFrame,
    /// A second offer differs from the first.
    Renegotiation,
    /// The engine refused the first message.
    Bootstrap,
    /// The engine could not write the first message.
    BootstrapFlush,
    /// The dialer got data before the acceptor was ready.
    DataBeforeReady,
    /// A datagram that is not made of sound segments.
    InvalidSegment,
    /// The engine refused a datagram or could not acknowledge it.
    EngineInput,
    /// A message is too short or too long, or too many wait.
    ReceiveBudget,
    /// A message out of sequence.
    InvalidSequence,
    /// The peer consumed what was never sent.
    FutureAcknowledgement,
    /// A frame that does not fit the state.
    UnexpectedFrame,
    /// Consumption skipped or repeated a message.
    OutOfOrder,
    /// Negotiation took too long.
    NegotiationTimeout,
    /// The peer was silent too long.
    PeerTimeout,
    /// Reliable input made no progress for too long.
    InputStalled,
    /// A packet waited for the writer for too long.
    OutputStalled,
    /// The engine could not write a datagram.
    OutputBudget,
    /// The probe of a recovered session could not be sent.
    Probe,
    /// The head of a motion envelope is wrong.
    MotionEnvelope,
    /// The length of a motion envelope is wrong.
    MotionLength,
    /// A motion envelope without motion.
    MissingCheckpoint,
    /// The motion is no event.
    InvalidMotion,
    /// The motion is another event.
    NotMotion,
    /// The motion has no sequence number or is not finite.
    CumulativeMotion,
    /// The sum of all motion is not finite.
    MotionTotal,
    /// No motion sequence number is left.
    MotionExhausted,
    /// The checkpoint's motion is no event.
    InvalidCheckpoint,
    /// The checkpoint's motion is another event.
    CheckpointMotion,
    /// The difference of two totals is not finite.
    MotionDelta,
    /// A checkpoint out of sequence.
    CheckpointDependency,
    /// The coordinator refused its session.
    RecoveryIdentity,
    /// The coordinator closed.
    RecoveryFailed,
    /// Recovery began while ownership was open.
    UnconfirmedHandover,
    /// The new generation came too late.
    GenerationExpired,
    /// No greeting came in time.
    HelloTimeout,
    /// The application sent bytes that are no event.
    ApplicationSend,
    /// A reliable message that is no event.
    ReliableEvent,
    /// A reliable message that bypasses the channel.
    DirectEvent,
    /// An envelope although recovery is off.
    Unnegotiated,
    /// Bytes that are no envelope.
    RecoveryEnvelope,
    /// The first envelope is no offer of a dialer.
    RecoveryBootstrap,
    /// The first envelope reached the dialer.
    UnexpectedBootstrap,
    /// Input outside an envelope although recovery is on.
    Unscoped,
    /// A motion datagram although motion is off.
    UnnegotiatedMotion,
    /// A frame although KCP is off.
    LegacyFrame,
    /// Input before the round was activated.
    EarlyInput,
    /// The greeting of another protocol.
    ForeignHello,
    /// A second greeting selects another transport.
    TransportChanged,
    /// A second greeting selects recovery differently.
    RecoveryChanged,
    /// No random identity could be had.
    RandomIdentity,
    /// A second greeting selects motion differently.
    MotionChanged,
    /// Input before the transport was selected.
    Unselected,
    /// Output while no epoch is open.
    ReceiveGate,
    /// A packet that is no frame.
    ReliableOutput,
    /// A packet that fits no envelope.
    RecoveryOutput,
    /// The local input owner failed.
    SafetyFailure,
}

impl Fault {
    /// The text that is logged and shown.
    pub open spec fn text(self) -> &'static str {
        match self {
            Fault::Closed => "closed",
            Fault::Unsupported => "peer does not support required KCP",
            Fault::Mtu => "MTU",
            Fault::EngineUpdate => "KCP update",
            Fault::WireBudget => "wire budget",
            Fault::NotReady => "KCP not ready",
            Fault::InputBudget => "reliable input budget",
            Fault::SequenceExhausted => "sequence exhausted",
            Fault::EngineSend => "KCP send",
            Fault::BeforeHello => "transport before Hello",
            Fault::InvalidFrame => "invalid transport frame",
            Fault::Renegotiation => "renegotiation forbidden",
            Fault::Bootstrap => "bootstrap",
            Fault::BootstrapFlush => "bootstrap flush",
            Fault::DataBeforeReady => "data before Ready",
            Fault::InvalidSegment => "invalid KCP segment",
            Fault::EngineInput => "KCP input",
            Fault::ReceiveBudget => "receive budget",
            Fault::InvalidSequence => "invalid input sequence",
            Fault::FutureAcknowledgement => "future processing acknowledgement",
            Fault::UnexpectedFrame => "unexpected session/negotiation frame",
            Fault::OutOfOrder => "out of order consumption",
            Fault::NegotiationTimeout => "KCP negotiation timeout",
            Fault::PeerTimeout => "peer activity timed out",
            Fault::InputStalled => "reliable input stalled",
            Fault::OutputStalled => "DTLS output stalled",
            Fault::OutputBudget => "KCP output budget",
            Fault::Probe => "recovery probe",
            Fault::MotionEnvelope => "invalid motion envelope",
            Fault::MotionLength => "invalid motion envelope length",
            Fault::MissingCheckpoint => "missing motion checkpoint",
            Fault::InvalidMotion => "invalid motion",
            Fault::NotMotion => "non-motion in UDP channel",
            Fault::CumulativeMotion => "invalid cumulative motion",
            Fault::MotionTotal => "invalid motion total",
            Fault::MotionExhausted => "motion sequence exhausted",
            Fault::InvalidCheckpoint => "invalid checkpoint",
            Fault::CheckpointMotion => "invalid checkpoint motion",
            Fault::MotionDelta => "invalid motion delta",
            Fault::CheckpointDependency => "invalid checkpoint dependency",
            Fault::RecoveryIdentity => "invalid recovery identity",
            Fault::RecoveryFailed => "input recovery failed",
            Fault::UnconfirmedHandover => "input recovery during unconfirmed handover",
            Fault::GenerationExpired => "recovery generation expired before activation",
            Fault::HelloTimeout => "transport Hello timeout",
            Fault::ApplicationSend => "invalid application send",
            Fault::ReliableEvent => "invalid reliable application frame",
            Fault::DirectEvent => "direct event in reliable channel",
            Fault::Unnegotiated => "unnegotiated input recovery",
            Fault::RecoveryEnvelope => "invalid recovery envelope",
            Fault::RecoveryBootstrap => "invalid recovery bootstrap",
            Fault::UnexpectedBootstrap => "unexpected recovery bootstrap",
            Fault::Unscoped => "unscoped input on recovery connection",
            Fault::UnnegotiatedMotion => "unnegotiated UDP motion",
            Fault::LegacyFrame => "unexpected KCP frame in legacy mode",
            Fault::EarlyInput => "business input before recovery activation",
            Fault::ForeignHello => "foreign Hello",
            Fault::TransportChanged => "transport selection changed within session",
            Fault::RecoveryChanged => "recovery selection changed within session",
            Fault::RandomIdentity => "recovery random identity failed",
            Fault::MotionChanged => "motion selection changed within session",
            Fault::Unselected => "unreliable input before transport selection",
            Fault::ReceiveGate => "recovery receive gate closed",
            Fault::ReliableOutput => "invalid reliable output",
            Fault::RecoveryOutput => "invalid recovery output",
            Fault::SafetyFailure => "local input recovery safety failure",
        }
    }

    pub fn reason(self) -> (r: &'static str)
        ensures
            r == self.text(),
    {
        match self {
            Fault::Closed => "closed",
            Fault::Unsupported => "peer does not support required KCP",
            Fault::Mtu => "MTU",
            Fault::EngineUpdate => "KCP update",
            Fault::WireBudget => "wire budget",
            Fault::NotReady => "KCP not ready",
            Fault::InputBudget => "reliable input budget",
            Fault::SequenceExhausted => "sequence exhausted",
            Fault::EngineSend => "KCP send",
            Fault::BeforeHello => "transport before Hello",
            Fault::InvalidFrame => "invalid transport frame",
            Fault::Renegotiation => "renegotiation forbidden",
            Fault::Bootstrap => "bootstrap",
            Fault::BootstrapFlush => "bootstrap flush",
            Fault::DataBeforeReady => "data before Ready",
            Fault::InvalidSegment => "invalid KCP segment",
            Fault::EngineInput => "KCP input",
            Fault::ReceiveBudget => "receive budget",
            Fault::InvalidSequence => "invalid input sequence",
            Fault::FutureAcknowledgement => "future processing acknowledgement",
            Fault::UnexpectedFrame => "unexpected session/negotiation frame",
            Fault::OutOfOrder => "out of order consumption",
            Fault::NegotiationTimeout => "KCP negotiation timeout",
            Fault::PeerTimeout => "peer activity timed out",
            Fault::InputStalled => "reliable input stalled",
            Fault::OutputStalled => "DTLS output stalled",
            Fault::OutputBudget => "KCP output budget",
            Fault::Probe => "recovery probe",
            Fault::MotionEnvelope => "invalid motion envelope",
            Fault::MotionLength => "invalid motion envelope length",
            Fault::MissingCheckpoint => "missing motion checkpoint",
            Fault::InvalidMotion => "invalid motion",
            Fault::NotMotion => "non-motion in UDP channel",
            Fault::CumulativeMotion => "invalid cumulative motion",
            Fault::MotionTotal => "invalid motion total",
            Fault::MotionExhausted => "motion sequence exhausted",
            Fault::InvalidCheckpoint => "invalid checkpoint",
            Fault::CheckpointMotion => "invalid checkpoint motion",
            Fault::MotionDelta => "invalid motion delta",
            Fault::CheckpointDependency => "invalid checkpoint dependency",
            Fault::RecoveryIdentity => "invalid recovery identity",
            Fault::RecoveryFailed => "input recovery failed",
            Fault::UnconfirmedHandover => "input recovery during unconfirmed handover",
            Fault::GenerationExpired => "recovery generation expired before activation",
            Fault::HelloTimeout => "transport Hello timeout",
            Fault::ApplicationSend => "invalid application send",
            Fault::ReliableEvent => "invalid reliable application frame",
            Fault::DirectEvent => "direct event in reliable channel",
            Fault::Unnegotiated => "unnegotiated input recovery",
            Fault::RecoveryEnvelope => "invalid recovery envelope",
            Fault::RecoveryBootstrap => "invalid recovery bootstrap",
            Fault::UnexpectedBootstrap => "unexpected recovery bootstrap",
            Fault::Unscoped => "unscoped input on recovery connection",
            Fault::UnnegotiatedMotion => "unnegotiated UDP motion",
            Fault::LegacyFrame => "unexpected KCP frame in legacy mode",
            Fault::EarlyInput => "business input before recovery activation",
            Fault::ForeignHello => "foreign Hello",
            Fault::TransportChanged => "transport selection changed within session",
            Fault::RecoveryChanged => "recovery selection changed within session",
            Fault::RandomIdentity => "recovery random identity failed",
            Fault::MotionChanged => "motion selection changed within session",
            Fault::Unselected => "unreliable input before transport selection",
            Fault::ReceiveGate => "recovery receive gate closed",
            Fault::ReliableOutput => "invalid reliable output",
            Fault::RecoveryOutput => "invalid recovery output",
            Fault::SafetyFailure => "local input recovery safety failure",
        }
    }
}

} // verus!
