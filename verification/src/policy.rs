//! Validated local policy; copied into both connection managers at startup.

use vstd::prelude::*;
use vstd::std_specs::convert::{FromSpecImpl, TryFromSpecImpl};

verus! {

/// How long reliable input may make no progress, in milliseconds.
#[derive(Clone, Copy, Debug, PartialEq, Eq, Structural)]
pub struct StallTimeout(u64);

/// Liveness is independent of reliable input delivery deadlines.
#[derive(Clone, Copy, Debug, PartialEq, Eq, Structural)]
pub struct PeerTimeout(u64);

/// Whether a number of milliseconds is a valid timeout.
pub open spec fn in_range(ms: u64) -> bool {
    1 <= ms <= 60000
}

impl View for StallTimeout {
    type V = u64;

    closed spec fn view(&self) -> u64 {
        self.0
    }
}

impl View for PeerTimeout {
    type V = u64;

    closed spec fn view(&self) -> u64 {
        self.0
    }
}

impl PeerTimeout {
    /// The timeout of so many milliseconds.
    pub closed spec fn of(ms: u64) -> PeerTimeout {
        PeerTimeout(ms)
    }

    #[verifier::type_invariant]
    closed spec fn valid(self) -> bool {
        in_range(self.0)
    }

    pub fn milliseconds(self) -> (r: u64)
        ensures
            r == self@,
            in_range(r),
    {
        proof {
            use_type_invariant(&self);
        }
        self.0
    }
}

impl StallTimeout {
    /// The timeout of so many milliseconds.
    pub closed spec fn of(ms: u64) -> StallTimeout {
        StallTimeout(ms)
    }

    #[verifier::type_invariant]
    closed spec fn valid(self) -> bool {
        in_range(self.0)
    }

    pub fn milliseconds(self) -> (r: u64)
        ensures
            r == self@,
            in_range(r),
    {
        proof {
            use_type_invariant(&self);
        }
        self.0
    }
}

/// A timeout is its number of milliseconds.
pub broadcast proof fn stall_of(ms: u64)
    ensures
        (#[trigger] StallTimeout::of(ms))@ == ms,
{
}

pub broadcast proof fn peer_of(ms: u64)
    ensures
        (#[trigger] PeerTimeout::of(ms))@ == ms,
{
}

impl Default for PeerTimeout {
    fn default() -> (r: PeerTimeout)
        ensures
            r@ == 3000,
    {
        PeerTimeout(3000)
    }
}

impl Default for StallTimeout {
    fn default() -> (r: StallTimeout)
        ensures
            r@ == 600,
    {
        StallTimeout(600)
    }
}

impl TryFrom<u64> for PeerTimeout {
    type Error = &'static str;

    fn try_from(value: u64) -> (r: Result<PeerTimeout, &'static str>) {
        if 1 <= value && value <= 60000 {
            Ok(PeerTimeout(value))
        } else {
            Err("kcp_peer_timeout_ms must be in 1..=60000 milliseconds")
        }
    }
}

impl TryFromSpecImpl<u64> for PeerTimeout {
    open spec fn obeys_try_from_spec() -> bool {
        true
    }

    open spec fn try_from_spec(value: u64) -> Result<PeerTimeout, &'static str> {
        if in_range(value) {
            Ok(PeerTimeout::of(value))
        } else {
            Err("kcp_peer_timeout_ms must be in 1..=60000 milliseconds")
        }
    }
}

impl TryFrom<u64> for StallTimeout {
    type Error = &'static str;

    fn try_from(value: u64) -> (r: Result<StallTimeout, &'static str>) {
        if 1 <= value && value <= 60000 {
            Ok(StallTimeout(value))
        } else {
            Err("kcp_stall_timeout_ms must be in 1..=60000 milliseconds")
        }
    }
}

impl TryFromSpecImpl<u64> for StallTimeout {
    open spec fn obeys_try_from_spec() -> bool {
        true
    }

    open spec fn try_from_spec(value: u64) -> Result<StallTimeout, &'static str> {
        if in_range(value) {
            Ok(StallTimeout::of(value))
        } else {
            Err("kcp_stall_timeout_ms must be in 1..=60000 milliseconds")
        }
    }
}

impl From<PeerTimeout> for u64 {
    fn from(value: PeerTimeout) -> (r: u64) {
        value.0
    }
}

impl FromSpecImpl<PeerTimeout> for u64 {
    open spec fn obeys_from_spec() -> bool {
        true
    }

    open spec fn from_spec(value: PeerTimeout) -> u64 {
        value@
    }
}

impl From<StallTimeout> for u64 {
    fn from(value: StallTimeout) -> (r: u64) {
        value.0
    }
}

impl FromSpecImpl<StallTimeout> for u64 {
    open spec fn obeys_from_spec() -> bool {
        true
    }

    open spec fn from_spec(value: StallTimeout) -> u64 {
        value@
    }
}

#[derive(Clone, Copy, Debug, PartialEq, Eq)]
pub struct Timeouts {
    pub stall: StallTimeout,
    pub peer: PeerTimeout,
}

impl Default for Timeouts {
    fn default() -> (r: Timeouts)
        ensures
            r.stall@ == 600,
            r.peer@ == 3000,
    {
        Timeouts { stall: StallTimeout::default(), peer: PeerTimeout::default() }
    }
}

impl From<StallTimeout> for Timeouts {
    fn from(stall: StallTimeout) -> (r: Timeouts) {
        Timeouts { stall, peer: PeerTimeout(3000) }
    }
}

impl FromSpecImpl<StallTimeout> for Timeouts {
    open spec fn obeys_from_spec() -> bool {
        true
    }

    open spec fn from_spec(stall: StallTimeout) -> Timeouts {
        Timeouts { stall, peer: PeerTimeout::of(3000) }
    }
}

#[derive(Clone, Copy, Debug, PartialEq, Eq, Structural)]
pub enum InputTransport {
    Legacy,
    KcpRequired,
}

impl Default for InputTransport {
    fn default() -> (r: InputTransport)
        ensures
            r == InputTransport::Legacy,
    {
        InputTransport::Legacy
    }
}

/// A timeout is accepted exactly from one millisecond to a minute, and keeps its length.
pub proof fn law_timeouts_are_bounded(
    ms: u64,
    stall: Result<StallTimeout, &'static str>,
    peer: Result<PeerTimeout, &'static str>,
    x: u64,
    y: u64,
)
    requires
        call_ensures(<StallTimeout as TryFrom<u64>>::try_from, (ms,), stall),
        call_ensures(<PeerTimeout as TryFrom<u64>>::try_from, (ms,), peer),
        stall is Ok ==> call_ensures(StallTimeout::milliseconds, (stall->Ok_0,), x),
        peer is Ok ==> call_ensures(PeerTimeout::milliseconds, (peer->Ok_0,), y),
    ensures
        stall is Ok <==> 1 <= ms <= 60000,
        peer is Ok <==> 1 <= ms <= 60000,
        stall is Ok ==> x == ms,
        peer is Ok ==> y == ms,
{
}

/// Without a setting, input may stall for 600 milliseconds and the peer may be silent for three
/// seconds, also where only the first of the two is set.
pub proof fn law_timeouts_have_defaults(
    stall: StallTimeout,
    peer: PeerTimeout,
    both: Timeouts,
    set: StallTimeout,
    one: Timeouts,
    mode: InputTransport,
)
    requires
        call_ensures(<StallTimeout as Default>::default, (), stall),
        call_ensures(<PeerTimeout as Default>::default, (), peer),
        call_ensures(<Timeouts as Default>::default, (), both),
        call_ensures(<Timeouts as From<StallTimeout>>::from, (set,), one),
        call_ensures(<InputTransport as Default>::default, (), mode),
    ensures
        stall@ == 600,
        peer@ == 3000,
        both.stall@ == 600,
        both.peer@ == 3000,
        one.stall == set,
        one.peer@ == 3000,
        mode == InputTransport::Legacy,
{
}

} // verus!
