//! What the transport reads of an application event.
//!
//! Pointer coordinates are IEEE-754 doubles, carried as their bit patterns: the library orders and
//! compares the patterns, and leaves arithmetic on the numbers to the owner of the event codec.

use vstd::prelude::*;

verus! {

/// Everything but the sign bit.
pub open spec fn magnitude(bits: u64) -> u64 {
    bits % 0x8000_0000_0000_0000
}

/// Whether a bit pattern stands for a number that is neither infinite nor NaN.
pub open spec fn finite(bits: u64) -> bool {
    magnitude(bits) < 0x7FF0_0000_0000_0000
}

/// Whether two bit patterns stand for equal numbers: NaN equals nothing, and the zeros are equal.
pub open spec fn equal(a: u64, b: u64) -> bool {
    &&& magnitude(a) <= 0x7FF0_0000_0000_0000
    &&& magnitude(b) <= 0x7FF0_0000_0000_0000
    &&& a == b || (magnitude(a) == 0 && magnitude(b) == 0)
}

/// The bit pattern of the largest signed 32-bit number.
pub const SCREEN_LIMIT: u64 = 0x41DF_FFFF_FFC0_0000;

pub fn is_finite(bits: u64) -> (r: bool)
    ensures
        r == finite(bits),
{
    bits % 0x8000_0000_0000_0000 < 0x7FF0_0000_0000_0000
}

pub fn is_equal(a: u64, b: u64) -> (r: bool)
    ensures
        r == equal(a, b),
{
    let x: u64 = a % 0x8000_0000_0000_0000;
    let y: u64 = b % 0x8000_0000_0000_0000;
    x <= 0x7FF0_0000_0000_0000 && y <= 0x7FF0_0000_0000_0000 && (a == b || (x == 0 && y == 0))
}

/// What the event codec makes of a byte string.
#[derive(Clone, Copy, Debug, PartialEq, Eq)]
pub enum Decoded {
    /// Not an event.
    Malformed,
    /// A pointer motion, inside or outside a handover.
    Motion { dx: u64, dy: u64 },
    /// A greeting; `native` tells whether it carries this protocol's magic number.
    Hello { native: bool, capabilities: u32 },
    /// A liveness probe or its answer.
    Heartbeat,
    Clipboard,
    /// Any other event.
    Other,
}

impl Decoded {
    /// Whether the event bypasses the reliable channel.
    pub open spec fn bypasses(self) -> bool {
        self is Hello || self is Heartbeat || self is Clipboard
    }

    pub fn direct(&self) -> (r: bool)
        ensures
            r == self.bypasses(),
    {
        match self {
            Decoded::Hello { .. } | Decoded::Heartbeat | Decoded::Clipboard => true,
            _ => false,
        }
    }
}

/// The owner of the event format. It reads and writes events, and it adds and subtracts coordinates,
/// each given by its bit pattern. The library relies on nothing that an implementation returns.
pub trait Codec {
    /// The length of the longest fixed event.
    fn event_limit(&self) -> usize;

    /// The length of the longest display layout.
    fn layout_limit(&self) -> usize;

    /// Reads a fixed event.
    fn fixed(&self, bytes: &Vec<u8>) -> Decoded;

    /// Reads a fixed event, a clipboard event or a display layout.
    fn any(&self, bytes: &Vec<u8>) -> Decoded;

    /// A motion event with its coordinates replaced.
    fn moved(&self, event: &Vec<u8>, dx: u64, dy: u64) -> Vec<u8>;

    /// A greeting with its capabilities replaced.
    fn greeting(&self, hello: &Vec<u8>, capabilities: u32) -> Vec<u8>;

    fn plus(&self, a: u64, b: u64) -> u64;

    fn minus(&self, a: u64, b: u64) -> u64;
}

/// A number is finite exactly if its exponent, the eleven bits after the sign, is not the highest.
pub proof fn law_finite_numbers_have_an_exponent(bits: u64, r: bool)
    requires
        call_ensures(is_finite, (bits,), r),
    ensures
        r <==> (bits / 0x10_0000_0000_0000) % 0x800 != 0x7FF,
{
    assert((bits / 0x10_0000_0000_0000) % 0x800 == (bits % 0x8000_0000_0000_0000)
        / 0x10_0000_0000_0000) by (bit_vector);
}

/// Equality of numbers is symmetric and holds of every number with itself but of no NaN. The two zeros
/// are equal; any other two numbers are equal only if they are the same.
pub proof fn law_numbers_compare_as_numbers(a: u64, b: u64, x: bool, y: bool, own: bool, whole: bool)
    requires
        call_ensures(is_equal, (a, b), x),
        call_ensures(is_equal, (b, a), y),
        call_ensures(is_equal, (a, a), own),
        call_ensures(is_finite, (a,), whole),
    ensures
        x == y,
        whole ==> own,
        own <==> a % 0x8000_0000_0000_0000 <= 0x7FF0_0000_0000_0000,
        x && a != b ==> a % 0x8000_0000_0000_0000 == 0 && b % 0x8000_0000_0000_0000 == 0,
        a % 0x8000_0000_0000_0000 == 0 && b % 0x8000_0000_0000_0000 == 0 ==> x,
        a == b && own ==> x,
{
}

/// Greetings, liveness probes and clipboard changes bypass the reliable channel; motion, any other
/// event and what is no event do not.
pub proof fn law_few_events_bypass_the_reliable_channel(event: Decoded, r: bool)
    requires
        call_ensures(Decoded::direct, (&event,), r),
    ensures
        event is Motion || event is Other || event is Malformed ==> !r,
        event is Hello || event is Heartbeat || event is Clipboard ==> r,
{
}

} // verus!
