//! macOS keyboard injection planning.
//!
//! macOS only applies its own keyboard shortcuts (Control+Right Arrow moves
//! right a space, for instance) when a modifier transition arrives as real
//! HID input: an `NX_FLAGSCHANGED` event that carries the physical key code
//! of the side that changed, the general modifier bits, and the matching
//! device-dependent side bit. A `CGEvent` `FlagsChanged` event with no key
//! code and only general flags is accepted by the window server as a modifier
//! state but never as a physical Control press, so the system shortcut would
//! not fire.
//!
//! This module owns the platform-independent half: which modifier sides are
//! held, the flags that describe them, the transitions to post, and the policy
//! for falling back to `CGEvent` when `IOHIDPostEvent` is unavailable or fails.

use crate::text::{hex, put_hex};
use vstd::prelude::*;

verus! {

/// `kVK_CapsLock`.
pub const CAPS_LOCK_KEY_CODE: u16 = 0x39;

/// `kVK_LeftArrow`.
pub const LEFT_ARROW_KEY_CODE: u16 = 0x7B;

/// `kVK_RightArrow`.
pub const RIGHT_ARROW_KEY_CODE: u16 = 0x7C;

/// `kVK_DownArrow`.
pub const DOWN_ARROW_KEY_CODE: u16 = 0x7D;

/// `kVK_UpArrow`.
pub const UP_ARROW_KEY_CODE: u16 = 0x7E;

/// General (device-independent) Shift bit. `IOHIDPostEvent` and `CGEvent`
/// use the same numeric values for these bits.
pub const NX_SHIFTMASK: u32 = 0x0002_0000;

/// Caps Lock's locked bit. macOS owns this bit: the backend only carries
/// whatever the local session already reports and never derives it from the
/// remote snapshot.
pub const NX_ALPHASHIFTMASK: u32 = 0x0001_0000;

/// General Control bit.
pub const NX_CONTROLMASK: u32 = 0x0004_0000;

/// General Option bit.
pub const NX_ALTERNATEMASK: u32 = 0x0008_0000;

/// General Command bit.
pub const NX_COMMANDMASK: u32 = 0x0010_0000;

/// Device-dependent left Control bit.
pub const NX_DEVICELCTLKEYMASK: u32 = 0x0000_0001;

/// Device-dependent left Shift bit.
pub const NX_DEVICELSHIFTKEYMASK: u32 = 0x0000_0002;

/// Device-dependent right Shift bit.
pub const NX_DEVICERSHIFTKEYMASK: u32 = 0x0000_0004;

/// Device-dependent left Command bit.
pub const NX_DEVICELCMDKEYMASK: u32 = 0x0000_0008;

/// Device-dependent right Command bit.
pub const NX_DEVICERCMDKEYMASK: u32 = 0x0000_0010;

/// Device-dependent left Option bit.
pub const NX_DEVICELALTKEYMASK: u32 = 0x0000_0020;

/// Device-dependent right Option bit.
pub const NX_DEVICERALTKEYMASK: u32 = 0x0000_0040;

/// Device-dependent right Control bit.
pub const NX_DEVICERCTLKEYMASK: u32 = 0x0000_2000;

/// Every flag bit this backend writes.
///
/// `IOHIDPostEvent` replaces the whole global modifier state, so the bits
/// outside this mask belong to the local user and are never sent.
pub const MANAGED_FLAG_MASKS: u32 = NX_ALPHASHIFTMASK | NX_SHIFTMASK | NX_CONTROLMASK
    | NX_ALTERNATEMASK | NX_COMMANDMASK | NX_DEVICELCTLKEYMASK | NX_DEVICELSHIFTKEYMASK
    | NX_DEVICERSHIFTKEYMASK | NX_DEVICELCMDKEYMASK | NX_DEVICERCMDKEYMASK | NX_DEVICELALTKEYMASK
    | NX_DEVICERALTKEYMASK | NX_DEVICERCTLKEYMASK;

/// One physical side of a modifier key.
#[derive(Clone, Copy, Debug, PartialEq, Eq, Structural)]
pub enum ModifierSide {
    LeftShift,
    RightShift,
    LeftControl,
    RightControl,
    LeftOption,
    RightOption,
    LeftCommand,
    RightCommand,
}

/// The side at a position of the bit order.
pub open spec fn side_at(i: int) -> ModifierSide {
    if i == 0 {
        ModifierSide::LeftShift
    } else if i == 1 {
        ModifierSide::RightShift
    } else if i == 2 {
        ModifierSide::LeftControl
    } else if i == 3 {
        ModifierSide::RightControl
    } else if i == 4 {
        ModifierSide::LeftOption
    } else if i == 5 {
        ModifierSide::RightOption
    } else if i == 6 {
        ModifierSide::LeftCommand
    } else {
        ModifierSide::RightCommand
    }
}

impl ModifierSide {
    /// Every side, in bit order.
    pub fn all() -> (r: [ModifierSide; 8])
        ensures
            forall|i: int| 0 <= i < 8 ==> #[trigger] r@[i] == side_at(i),
    {
        [
            ModifierSide::LeftShift,
            ModifierSide::RightShift,
            ModifierSide::LeftControl,
            ModifierSide::RightControl,
            ModifierSide::LeftOption,
            ModifierSide::RightOption,
            ModifierSide::LeftCommand,
            ModifierSide::RightCommand,
        ]
    }

    pub open spec fn code(self) -> u16 {
        match self {
            ModifierSide::LeftShift => 0x38,
            ModifierSide::RightShift => 0x3C,
            ModifierSide::LeftControl => 0x3B,
            ModifierSide::RightControl => 0x3E,
            ModifierSide::LeftOption => 0x3A,
            ModifierSide::RightOption => 0x3D,
            ModifierSide::LeftCommand => 0x37,
            ModifierSide::RightCommand => 0x36,
        }
    }

    /// The fixed macOS virtual key code (`kVK_*`) of this side.
    ///
    /// These are virtual key codes, not layout translations: the window
    /// server needs the code of the key that changed alongside the flags.
    /// Some input methods read a missing code as the `a` key.
    pub fn key_code(self) -> (r: u16)
        ensures
            r == self.code(),
    {
        match self {
            ModifierSide::LeftShift => 0x38,
            ModifierSide::RightShift => 0x3C,
            ModifierSide::LeftControl => 0x3B,
            ModifierSide::RightControl => 0x3E,
            ModifierSide::LeftOption => 0x3A,
            ModifierSide::RightOption => 0x3D,
            ModifierSide::LeftCommand => 0x37,
            ModifierSide::RightCommand => 0x36,
        }
    }

    /// The side whose [`Self::key_code`] this is, if any.
    pub fn from_key_code(key_code: u16) -> (r: Option<ModifierSide>)
        ensures
            match r {
                Some(side) => side.code() == key_code,
                None => forall|side: ModifierSide| side.code() != key_code,
            },
    {
        match key_code {
            0x38 => Some(ModifierSide::LeftShift),
            0x3C => Some(ModifierSide::RightShift),
            0x3B => Some(ModifierSide::LeftControl),
            0x3E => Some(ModifierSide::RightControl),
            0x3A => Some(ModifierSide::LeftOption),
            0x3D => Some(ModifierSide::RightOption),
            0x37 => Some(ModifierSide::LeftCommand),
            0x36 => Some(ModifierSide::RightCommand),
            _ => None,
        }
    }

    pub open spec fn label(self) -> &'static str {
        match self {
            ModifierSide::LeftShift => "left_shift",
            ModifierSide::RightShift => "right_shift",
            ModifierSide::LeftControl => "left_control",
            ModifierSide::RightControl => "right_control",
            ModifierSide::LeftOption => "left_option",
            ModifierSide::RightOption => "right_option",
            ModifierSide::LeftCommand => "left_command",
            ModifierSide::RightCommand => "right_command",
        }
    }

    /// Stable diagnostic name for this side.
    pub fn name(self) -> (r: &'static str)
        ensures
            r == self.label(),
    {
        match self {
            ModifierSide::LeftShift => "left_shift",
            ModifierSide::RightShift => "right_shift",
            ModifierSide::LeftControl => "left_control",
            ModifierSide::RightControl => "right_control",
            ModifierSide::LeftOption => "left_option",
            ModifierSide::RightOption => "right_option",
            ModifierSide::LeftCommand => "left_command",
            ModifierSide::RightCommand => "right_command",
        }
    }

    /// The kind of key that this is a side of.
    pub open spec fn kind(self) -> ModifierKinds {
        match self {
            ModifierSide::LeftShift | ModifierSide::RightShift => ModifierKinds(1),
            ModifierSide::LeftControl | ModifierSide::RightControl => ModifierKinds(2),
            ModifierSide::LeftOption | ModifierSide::RightOption => ModifierKinds(4),
            ModifierSide::LeftCommand | ModifierSide::RightCommand => ModifierKinds(8),
        }
    }

    /// The side-agnostic kind this side contributes to a snapshot.
    fn kind_of(self) -> (r: ModifierKinds)
        ensures
            r == self.kind(),
    {
        match self {
            ModifierSide::LeftShift | ModifierSide::RightShift => ModifierKinds::shift(),
            ModifierSide::LeftControl | ModifierSide::RightControl => ModifierKinds::control(),
            ModifierSide::LeftOption | ModifierSide::RightOption => ModifierKinds::option(),
            ModifierSide::LeftCommand | ModifierSide::RightCommand => ModifierKinds::command(),
        }
    }

    /// Position of this side in the bit order.
    pub open spec fn position(self) -> u8 {
        match self {
            ModifierSide::LeftShift => 0,
            ModifierSide::RightShift => 1,
            ModifierSide::LeftControl => 2,
            ModifierSide::RightControl => 3,
            ModifierSide::LeftOption => 4,
            ModifierSide::RightOption => 5,
            ModifierSide::LeftCommand => 6,
            ModifierSide::RightCommand => 7,
        }
    }

    fn index(self) -> (r: u8)
        ensures
            r == self.position(),
            r < 8,
    {
        match self {
            ModifierSide::LeftShift => 0,
            ModifierSide::RightShift => 1,
            ModifierSide::LeftControl => 2,
            ModifierSide::RightControl => 3,
            ModifierSide::LeftOption => 4,
            ModifierSide::RightOption => 5,
            ModifierSide::LeftCommand => 6,
            ModifierSide::RightCommand => 7,
        }
    }

    /// The set of this side alone.
    pub fn bit(self) -> (r: ModifierSides)
        ensures
            r@ == set![self],
    {
        let r = ModifierSides(1u8 << self.index());
        proof {
            assert forall|other: ModifierSide| r@.contains(other) <==> set![self].contains(
                other,
            ) by {
                lemma_single(self.position(), other.position());
            }
            assert(r@ =~= set![self]);
        }
        r
    }

    pub open spec fn opposite(self) -> ModifierSide {
        match self {
            ModifierSide::LeftShift => ModifierSide::RightShift,
            ModifierSide::RightShift => ModifierSide::LeftShift,
            ModifierSide::LeftControl => ModifierSide::RightControl,
            ModifierSide::RightControl => ModifierSide::LeftControl,
            ModifierSide::LeftOption => ModifierSide::RightOption,
            ModifierSide::RightOption => ModifierSide::LeftOption,
            ModifierSide::LeftCommand => ModifierSide::RightCommand,
            ModifierSide::RightCommand => ModifierSide::LeftCommand,
        }
    }

    /// The other side of the same key.
    pub fn sibling(self) -> (r: ModifierSide)
        ensures
            r == self.opposite(),
    {
        match self {
            ModifierSide::LeftShift => ModifierSide::RightShift,
            ModifierSide::RightShift => ModifierSide::LeftShift,
            ModifierSide::LeftControl => ModifierSide::RightControl,
            ModifierSide::RightControl => ModifierSide::LeftControl,
            ModifierSide::LeftOption => ModifierSide::RightOption,
            ModifierSide::RightOption => ModifierSide::LeftOption,
            ModifierSide::LeftCommand => ModifierSide::RightCommand,
            ModifierSide::RightCommand => ModifierSide::LeftCommand,
        }
    }

    pub open spec fn default_side(self) -> bool {
        self == ModifierSide::LeftShift || self == ModifierSide::LeftControl || self
            == ModifierSide::LeftOption || self == ModifierSide::LeftCommand
    }

    /// Whether this is the side used when a snapshot names no side.
    pub fn is_default_side(self) -> (r: bool)
        ensures
            r == self.default_side(),
    {
        match self {
            ModifierSide::LeftShift
            | ModifierSide::LeftControl
            | ModifierSide::LeftOption
            | ModifierSide::LeftCommand => true,
            _ => false,
        }
    }

    /// The general bit this side sets in the window server's flags, with the device-dependent bit
    /// that tells the window server which side is down.
    pub open spec fn masks(self) -> u32 {
        match self {
            ModifierSide::LeftShift => NX_SHIFTMASK | NX_DEVICELSHIFTKEYMASK,
            ModifierSide::RightShift => NX_SHIFTMASK | NX_DEVICERSHIFTKEYMASK,
            ModifierSide::LeftControl => NX_CONTROLMASK | NX_DEVICELCTLKEYMASK,
            ModifierSide::RightControl => NX_CONTROLMASK | NX_DEVICERCTLKEYMASK,
            ModifierSide::LeftOption => NX_ALTERNATEMASK | NX_DEVICELALTKEYMASK,
            ModifierSide::RightOption => NX_ALTERNATEMASK | NX_DEVICERALTKEYMASK,
            ModifierSide::LeftCommand => NX_COMMANDMASK | NX_DEVICELCMDKEYMASK,
            ModifierSide::RightCommand => NX_COMMANDMASK | NX_DEVICERCMDKEYMASK,
        }
    }

    fn flag_masks(self) -> (r: u32)
        ensures
            r == self.masks(),
    {
        match self {
            ModifierSide::LeftShift => NX_SHIFTMASK | NX_DEVICELSHIFTKEYMASK,
            ModifierSide::RightShift => NX_SHIFTMASK | NX_DEVICERSHIFTKEYMASK,
            ModifierSide::LeftControl => NX_CONTROLMASK | NX_DEVICELCTLKEYMASK,
            ModifierSide::RightControl => NX_CONTROLMASK | NX_DEVICERCTLKEYMASK,
            ModifierSide::LeftOption => NX_ALTERNATEMASK | NX_DEVICELALTKEYMASK,
            ModifierSide::RightOption => NX_ALTERNATEMASK | NX_DEVICERALTKEYMASK,
            ModifierSide::LeftCommand => NX_COMMANDMASK | NX_DEVICELCMDKEYMASK,
            ModifierSide::RightCommand => NX_COMMANDMASK | NX_DEVICERCMDKEYMASK,
        }
    }
}

/// The side-agnostic modifier state the event stream reports.
///
/// X11 (and therefore Mousehop's protocol) mostly names modifiers without a
/// side; this is the aggregate half of the model.
#[derive(Clone, Copy, Debug, PartialEq, Eq, Structural)]
pub struct ModifierKinds(pub u8);

impl ModifierKinds {
    /// Shift is depressed.
    pub fn shift() -> (r: ModifierKinds)
        ensures
            r == ModifierKinds(1),
    {
        ModifierKinds(1)
    }

    /// Control is depressed.
    pub fn control() -> (r: ModifierKinds)
        ensures
            r == ModifierKinds(2),
    {
        ModifierKinds(2)
    }

    /// Option (X11 `Mod1`/`Mod5`) is depressed.
    pub fn option() -> (r: ModifierKinds)
        ensures
            r == ModifierKinds(4),
    {
        ModifierKinds(4)
    }

    /// Command (X11 `Mod4`) is depressed.
    pub fn command() -> (r: ModifierKinds)
        ensures
            r == ModifierKinds(8),
    {
        ModifierKinds(8)
    }

    /// Whether every kind of `other` is present.
    pub open spec fn has(self, other: ModifierKinds) -> bool {
        self.0 & other.0 == other.0
    }

    /// The raw bits.
    pub fn bits(self) -> (r: u8)
        ensures
            r == self.0,
    {
        self.0
    }

    /// Whether every bit of `other` is present.
    pub fn contains(self, other: ModifierKinds) -> (r: bool)
        ensures
            r == self.has(other),
    {
        self.0 & other.0 == other.0
    }

    /// Adds `other`.
    pub fn with(self, other: ModifierKinds) -> (r: ModifierKinds)
        ensures
            r == ModifierKinds(self.0 | other.0),
    {
        ModifierKinds(self.0 | other.0)
    }
}

impl Default for ModifierKinds {
    fn default() -> (r: ModifierKinds)
        ensures
            r == ModifierKinds(0),
    {
        ModifierKinds(0)
    }
}

/// The modifier sides macOS should currently consider held.
#[derive(Clone, Copy, Debug, PartialEq, Eq, Structural)]
pub struct ModifierSides(u8);

impl View for ModifierSides {
    type V = Set<ModifierSide>;

    closed spec fn view(&self) -> Set<ModifierSide> {
        Set::new(|side: ModifierSide| self.0 & (1u8 << side.position()) != 0)
    }
}

proof fn lemma_single(i: u8, j: u8)
    requires
        i < 8,
        j < 8,
    ensures
        ((1u8 << i) & (1u8 << j) != 0) == (i == j),
{
    assert(((1u8 << i) & (1u8 << j) != 0) == (i == j)) by (bit_vector)
        requires
            i < 8,
            j < 8,
    ;
}

/// Two sets of sides with the same members are the same.
pub broadcast proof fn sides_extensional(a: ModifierSides, b: ModifierSides)
    requires
        #[trigger] a@ == #[trigger] b@,
    ensures
        a == b,
{
    let x = a.0;
    let y = b.0;
    let k0 = side_at(0).position();
    let k1 = side_at(1).position();
    let k2 = side_at(2).position();
    let k3 = side_at(3).position();
    let k4 = side_at(4).position();
    let k5 = side_at(5).position();
    let k6 = side_at(6).position();
    let k7 = side_at(7).position();
    assert(a@.contains(side_at(0)) == (x & (1u8 << k0) != 0));
    assert(b@.contains(side_at(0)) == (y & (1u8 << k0) != 0));
    assert(a@.contains(side_at(1)) == (x & (1u8 << k1) != 0));
    assert(b@.contains(side_at(1)) == (y & (1u8 << k1) != 0));
    assert(a@.contains(side_at(2)) == (x & (1u8 << k2) != 0));
    assert(b@.contains(side_at(2)) == (y & (1u8 << k2) != 0));
    assert(a@.contains(side_at(3)) == (x & (1u8 << k3) != 0));
    assert(b@.contains(side_at(3)) == (y & (1u8 << k3) != 0));
    assert(a@.contains(side_at(4)) == (x & (1u8 << k4) != 0));
    assert(b@.contains(side_at(4)) == (y & (1u8 << k4) != 0));
    assert(a@.contains(side_at(5)) == (x & (1u8 << k5) != 0));
    assert(b@.contains(side_at(5)) == (y & (1u8 << k5) != 0));
    assert(a@.contains(side_at(6)) == (x & (1u8 << k6) != 0));
    assert(b@.contains(side_at(6)) == (y & (1u8 << k6) != 0));
    assert(a@.contains(side_at(7)) == (x & (1u8 << k7) != 0));
    assert(b@.contains(side_at(7)) == (y & (1u8 << k7) != 0));
    assert(x == y) by (bit_vector)
        requires
            k0 == 0,
            k1 == 1,
            k2 == 2,
            k3 == 3,
            k4 == 4,
            k5 == 5,
            k6 == 6,
            k7 == 7,
            (x & (1u8 << k0) != 0) == (y & (1u8 << k0) != 0),
            (x & (1u8 << k1) != 0) == (y & (1u8 << k1) != 0),
            (x & (1u8 << k2) != 0) == (y & (1u8 << k2) != 0),
            (x & (1u8 << k3) != 0) == (y & (1u8 << k3) != 0),
            (x & (1u8 << k4) != 0) == (y & (1u8 << k4) != 0),
            (x & (1u8 << k5) != 0) == (y & (1u8 << k5) != 0),
            (x & (1u8 << k6) != 0) == (y & (1u8 << k6) != 0),
            (x & (1u8 << k7) != 0) == (y & (1u8 << k7) != 0),
    ;
}

impl ModifierSides {
    /// The set whose raw bits these are, in the bit order of the sides.
    pub fn from_bits_truncate(bits: u8) -> (r: ModifierSides)
        ensures
            forall|side: ModifierSide| #[trigger]
                r@.contains(side) <==> bits & (1u8 << side.position()) != 0,
    {
        ModifierSides(bits)
    }

    /// Whether no side is held.
    pub fn is_empty(self) -> (r: bool)
        ensures
            r == (self@ == Set::<ModifierSide>::empty()),
    {
        let r = self.0 == 0;
        proof {
            let none = ModifierSides(0);
            let z = 0u8;
            assert forall|side: ModifierSide| !none@.contains(side) by {
                let i = side.position();
                assert(0u8 & (1u8 << i) == 0) by (bit_vector)
                    requires
                        i < 8,
                ;
            }
            assert(none@ =~= Set::<ModifierSide>::empty());
            if self@ == none@ {
                sides_extensional(self, none);
            }
        }
        r
    }

    /// Whether a side is held.
    pub fn holds(self, side: ModifierSide) -> (r: bool)
        ensures
            r == self@.contains(side),
    {
        self.0 & (1u8 << side.index()) != 0
    }

    /// Whether every side of `other` is present.
    pub fn contains(self, other: ModifierSides) -> (r: bool)
        ensures
            r == other@.subset_of(self@),
    {
        let r = self.0 & other.0 == other.0;
        proof {
            let (x, y) = (self.0, other.0);
            if r {
                assert forall|side: ModifierSide| other@.contains(side) implies self@.contains(
                    side,
                ) by {
                    let i = side.position();
                    assert(x & (1u8 << i) != 0) by (bit_vector)
                        requires
                            i < 8,
                            x & y == y,
                            y & (1u8 << i) != 0,
                    ;
                }
            } else if other@.subset_of(self@) {
                let both = ModifierSides(x & y);
                assert forall|side: ModifierSide| both@.contains(side) == other@.contains(side) by {
                    let i = side.position();
                    assert(((x & y) & (1u8 << i) != 0) == (x & (1u8 << i) != 0 && y & (1u8 << i)
                        != 0)) by (bit_vector)
                        requires
                            i < 8,
                    ;
                    assert(other@.contains(side) ==> self@.contains(side));
                }
                assert(both@ =~= other@);
                sides_extensional(both, other);
            }
        }
        r
    }

    /// Whether any side of `other` is present.
    pub fn intersects(self, other: ModifierSides) -> (r: bool)
        ensures
            r == !self@.disjoint(other@),
    {
        let r = self.0 & other.0 != 0;
        proof {
            let (x, y) = (self.0, other.0);
            let both = ModifierSides(x & y);
            assert forall|side: ModifierSide| both@.contains(side) == (self@.contains(side)
                && other@.contains(side)) by {
                let i = side.position();
                assert(((x & y) & (1u8 << i) != 0) == (x & (1u8 << i) != 0 && y & (1u8 << i) != 0))
                    by (bit_vector)
                    requires
                        i < 8,
                ;
            }
            let none = ModifierSides(0);
            assert forall|side: ModifierSide| !none@.contains(side) by {
                let i = side.position();
                assert(0u8 & (1u8 << i) == 0) by (bit_vector)
                    requires
                        i < 8,
                ;
            }
            if self@.disjoint(other@) {
                assert(both@ =~= none@);
                sides_extensional(both, none);
            }
        }
        r
    }

    /// Adds `other`.
    pub fn with(self, other: ModifierSides) -> (r: ModifierSides)
        ensures
            r@ == self@.union(other@),
    {
        let r = ModifierSides(self.0 | other.0);
        proof {
            let (x, y) = (self.0, other.0);
            assert forall|side: ModifierSide| r@.contains(side) == self@.union(other@).contains(
                side,
            ) by {
                let i = side.position();
                assert(((x | y) & (1u8 << i) != 0) == (x & (1u8 << i) != 0 || y & (1u8 << i) != 0))
                    by (bit_vector)
                    requires
                        i < 8,
                ;
            }
            assert(r@ =~= self@.union(other@));
        }
        r
    }

    /// Removes `other`.
    pub fn without(self, other: ModifierSides) -> (r: ModifierSides)
        ensures
            r@ == self@.difference(other@),
    {
        let r = ModifierSides(self.0 & !other.0);
        proof {
            let (x, y) = (self.0, other.0);
            assert forall|side: ModifierSide| r@.contains(side) == self@.difference(
                other@,
            ).contains(side) by {
                let i = side.position();
                assert(((x & !y) & (1u8 << i) != 0) == (x & (1u8 << i) != 0 && y & (1u8 << i) == 0))
                    by (bit_vector)
                    requires
                        i < 8,
                ;
            }
            assert(r@ =~= self@.difference(other@));
        }
        r
    }
}

impl Default for ModifierSides {
    fn default() -> (r: ModifierSides)
        ensures
            r@ == Set::<ModifierSide>::empty(),
    {
        let r = ModifierSides(0);
        proof {
            assert forall|side: ModifierSide| !r@.contains(side) by {
                let i = side.position();
                assert(0u8 & (1u8 << i) == 0) by (bit_vector)
                    requires
                        i < 8,
                ;
            }
            assert(r@ =~= Set::<ModifierSide>::empty());
        }
        r
    }
}

/// Every side stands at its own position of the bit order.
pub proof fn lemma_positions(side: ModifierSide)
    ensures
        0 <= side.position() < 8,
        side_at(side.position() as int) == side,
        forall|i: int| 0 <= i < 8 ==> (#[trigger] side_at(i)).position() == i,
{
}

/// Coarse key classification used by diagnostics.
///
/// Ordinary keys are never identified beyond this category: diagnostics must
/// not reveal what the user typed. Arrows, Caps Lock and modifier sides are
/// what shortcut investigations correlate, so those are named.
#[derive(Clone, Copy, Debug, PartialEq, Eq, Structural)]
pub enum KeyCategory {
    CapsLock,
    Arrow,
    Modifier,
    Ordinary,
}

pub open spec fn category(key_code: u16) -> KeyCategory {
    if key_code == CAPS_LOCK_KEY_CODE {
        KeyCategory::CapsLock
    } else if LEFT_ARROW_KEY_CODE <= key_code <= UP_ARROW_KEY_CODE {
        KeyCategory::Arrow
    } else if exists|side: ModifierSide| side.code() == key_code {
        KeyCategory::Modifier
    } else {
        KeyCategory::Ordinary
    }
}

pub open spec fn category_label(key_code: u16) -> &'static str {
    match category(key_code) {
        KeyCategory::CapsLock => "caps_lock",
        KeyCategory::Arrow => "arrow",
        KeyCategory::Modifier => "modifier",
        KeyCategory::Ordinary => "ordinary",
    }
}

pub(crate) fn categorize(key_code: u16) -> (r: KeyCategory)
    ensures
        r == category(key_code),
{
    match key_code {
        CAPS_LOCK_KEY_CODE => KeyCategory::CapsLock,
        LEFT_ARROW_KEY_CODE
        | RIGHT_ARROW_KEY_CODE
        | DOWN_ARROW_KEY_CODE
        | UP_ARROW_KEY_CODE => KeyCategory::Arrow,
        _ => {
            if ModifierSide::from_key_code(key_code).is_some() {
                KeyCategory::Modifier
            } else {
                KeyCategory::Ordinary
            }
        },
    }
}

/// The name of a key's category.
pub fn key_category(key_code: u16) -> (r: &'static str)
    ensures
        r == category_label(key_code),
{
    match categorize(key_code) {
        KeyCategory::CapsLock => "caps_lock",
        KeyCategory::Arrow => "arrow",
        KeyCategory::Modifier => "modifier",
        KeyCategory::Ordinary => "ordinary",
    }
}

/// The flags of the held sides among the first `n` of the bit order.
pub open spec fn flags_below(sides: Set<ModifierSide>, n: nat) -> u32
    decreases n,
{
    if n == 0 {
        0
    } else if sides.contains(side_at(n - 1)) {
        flags_below(sides, (n - 1) as nat) | side_at(n - 1).masks()
    } else {
        flags_below(sides, (n - 1) as nat)
    }
}

/// The window server's flag value for a set of held sides.
pub open spec fn flags_of(sides: Set<ModifierSide>) -> u32 {
    flags_below(sides, 8)
}

/// The window server's flag value for a set of held sides.
pub fn flags_for(sides: ModifierSides) -> (r: u32)
    ensures
        r == flags_of(sides@),
{
    let all = ModifierSide::all();
    let mut flags: u32 = 0;
    let mut i: usize = 0;
    while i < 8
        invariant
            i <= 8,
            forall|j: int| 0 <= j < 8 ==> #[trigger] all@[j] == side_at(j),
            flags == flags_below(sides@, i as nat),
        decreases 8 - i,
    {
        let side = all[i];
        if sides.holds(side) {
            flags = flags | side.flag_masks();
        }
        i += 1;
    }
    flags
}

impl ModifierSide {
    /// The device-dependent bit of this side.
    pub open spec fn device(self) -> u32 {
        match self {
            ModifierSide::LeftShift => NX_DEVICELSHIFTKEYMASK,
            ModifierSide::RightShift => NX_DEVICERSHIFTKEYMASK,
            ModifierSide::LeftControl => NX_DEVICELCTLKEYMASK,
            ModifierSide::RightControl => NX_DEVICERCTLKEYMASK,
            ModifierSide::LeftOption => NX_DEVICELALTKEYMASK,
            ModifierSide::RightOption => NX_DEVICERALTKEYMASK,
            ModifierSide::LeftCommand => NX_DEVICELCMDKEYMASK,
            ModifierSide::RightCommand => NX_DEVICERCMDKEYMASK,
        }
    }

    /// The general bit of this side's kind of key.
    pub open spec fn general(self) -> u32 {
        match self {
            ModifierSide::LeftShift | ModifierSide::RightShift => NX_SHIFTMASK,
            ModifierSide::LeftControl | ModifierSide::RightControl => NX_CONTROLMASK,
            ModifierSide::LeftOption | ModifierSide::RightOption => NX_ALTERNATEMASK,
            ModifierSide::LeftCommand | ModifierSide::RightCommand => NX_COMMANDMASK,
        }
    }
}

/// The flags tell exactly which sides are held: a side's device bit is set where that side is held,
/// and a kind's general bit where either side of it is. No other bit is ever set, the Caps Lock bit
/// least of all.
pub proof fn law_flags_name_the_sides(sides: Set<ModifierSide>, side: ModifierSide)
    ensures
        flags_of(sides) & side.device() != 0 <==> sides.contains(side),
        flags_of(sides) & side.general() != 0 <==> sides.contains(side) || sides.contains(
            side.opposite(),
        ),
        flags_of(sides) & !MANAGED_FLAG_MASKS == 0,
        flags_of(sides) & NX_ALPHASHIFTMASK == 0,
{
    reveal_with_fuel(flags_below, 9);
    let f = flags_of(sides);
    let (b0, b1, b2, b3) = (
        sides.contains(side_at(0)),
        sides.contains(side_at(1)),
        sides.contains(side_at(2)),
        sides.contains(side_at(3)),
    );
    let (b4, b5, b6, b7) = (
        sides.contains(side_at(4)),
        sides.contains(side_at(5)),
        sides.contains(side_at(6)),
        sides.contains(side_at(7)),
    );
    let f0: u32 = if b0 { 0u32 | (0x20000u32 | 2u32) } else { 0u32 };
    let f1: u32 = if b1 { f0 | (0x20000u32 | 4u32) } else { f0 };
    let f2: u32 = if b2 { f1 | (0x40000u32 | 1u32) } else { f1 };
    let f3: u32 = if b3 { f2 | (0x40000u32 | 0x2000u32) } else { f2 };
    let f4: u32 = if b4 { f3 | (0x80000u32 | 0x20u32) } else { f3 };
    let f5: u32 = if b5 { f4 | (0x80000u32 | 0x40u32) } else { f4 };
    let f6: u32 = if b6 { f5 | (0x100000u32 | 8u32) } else { f5 };
    let f7: u32 = if b7 { f6 | (0x100000u32 | 0x10u32) } else { f6 };
    assert(f == f7);
    assert((f & 2u32 != 0) == b0 && (f & 4u32 != 0) == b1 && (f & 1u32 != 0) == b2 && (f & 0x2000u32
        != 0) == b3 && (f & 0x20u32 != 0) == b4 && (f & 0x40u32 != 0) == b5 && (f & 8u32 != 0) == b6
        && (f & 0x10u32 != 0) == b7 && (f & 0x20000u32 != 0) == (b0 || b1) && (f & 0x40000u32 != 0)
        == (b2 || b3) && (f & 0x80000u32 != 0) == (b4 || b5) && (f & 0x100000u32 != 0) == (b6 || b7)
        && f & !(0x10000u32 | 0x20000u32 | 0x40000u32 | 0x80000u32 | 0x100000u32 | 1u32 | 2u32
        | 4u32 | 8u32 | 0x10u32 | 0x20u32 | 0x40u32 | 0x2000u32) == 0 && f & 0x10000u32 == 0)
        by (bit_vector)
        requires
            f == f7,
            f7 == (if b7 { f6 | (0x100000u32 | 0x10u32) } else { f6 }),
            f6 == (if b6 { f5 | (0x100000u32 | 8u32) } else { f5 }),
            f5 == (if b5 { f4 | (0x80000u32 | 0x40u32) } else { f4 }),
            f4 == (if b4 { f3 | (0x80000u32 | 0x20u32) } else { f3 }),
            f3 == (if b3 { f2 | (0x40000u32 | 0x2000u32) } else { f2 }),
            f2 == (if b2 { f1 | (0x40000u32 | 1u32) } else { f1 }),
            f1 == (if b1 { f0 | (0x20000u32 | 4u32) } else { f0 }),
            f0 == (if b0 { 0u32 | (0x20000u32 | 2u32) } else { 0u32 }),
    ;
}

/// The sides to hold for a snapshot: a side of a depressed kind that was identified, and the
/// default side of a depressed kind of which no side was.
pub open spec fn wanted(aggregate: ModifierKinds, known: Set<ModifierSide>) -> Set<ModifierSide> {
    Set::new(
        |side: ModifierSide|
            aggregate.has(side.kind()) && (known.contains(side) || side.default_side()
                && !known.contains(side.opposite())),
    )
}

/// The sides macOS should hold for `aggregate`, given the sides the event
/// stream has actually identified.
///
/// An aggregate snapshot cannot name a side, but the injected state must
/// still be concrete. Known sides are kept while their kind stays depressed;
/// a kind with no known side falls back to the left side, and a later
/// explicit side event migrates off that invented side rather than leaving
/// both down.
pub fn desired_sides(aggregate: ModifierKinds, known: ModifierSides) -> (r: ModifierSides)
    ensures
        r@ == wanted(aggregate, known@),
{
    let all = ModifierSide::all();
    let mut desired = ModifierSides::default();
    let mut i: usize = 0;
    while i < 8
        invariant
            i <= 8,
            forall|j: int| 0 <= j < 8 ==> #[trigger] all@[j] == side_at(j),
            forall|side: ModifierSide| #[trigger]
                desired@.contains(side) <==> side.position() < i && wanted(
                    aggregate,
                    known@,
                ).contains(side),
        decreases 8 - i,
    {
        let side = all[i];
        proof {
            assert forall|other: ModifierSide| other.position() == i <==> other == side by {
                lemma_positions(other);
            }
        }
        if aggregate.contains(side.kind_of()) && (known.holds(side) || (side.is_default_side()
            && !known.holds(side.sibling()))) {
            desired = desired.with(side.bit());
        }
        i += 1;
    }
    proof {
        assert forall|side: ModifierSide| side.position() < 8 by {
            lemma_positions(side);
        }
    }
    assert(desired@ =~= wanted(aggregate, known@));
    desired
}

/// A snapshot is followed exactly: some side of a kind is wanted where and only where the kind is
/// depressed, both sides only where both were identified, and a side that was identified is never
/// replaced by an invented one.
pub proof fn law_wanted_sides_follow_the_snapshot(
    aggregate: ModifierKinds,
    known: Set<ModifierSide>,
    side: ModifierSide,
)
    ensures
        aggregate.has(side.kind()) <==> wanted(aggregate, known).contains(side) || wanted(
            aggregate,
            known,
        ).contains(side.opposite()),
        wanted(aggregate, known).contains(side) && wanted(aggregate, known).contains(
            side.opposite(),
        ) ==> known.contains(side) && known.contains(side.opposite()),
        known.contains(side.opposite()) && !known.contains(side) ==> !wanted(
            aggregate,
            known,
        ).contains(side),
{
    assert(side.kind() == side.opposite().kind());
    assert(side.default_side() != side.opposite().default_side());
}

/// The managed bits that the window server reports and the remote snapshot is not responsible for.
pub open spec fn local_part(local_flags: u32, remote_flags: u32) -> u32 {
    local_flags & !remote_flags & MANAGED_FLAG_MASKS
}

/// The modifier bits the local user's keyboard still holds.
///
/// `local_flags` is the state the window server last reported and
/// `remote_flags` the bits the remote snapshot is responsible for at that
/// moment. The window server reports the combined state, so every other bit
/// inside [`MANAGED_FLAG_MASKS`] belongs to the physical keyboard and has to
/// survive: a remote snapshot may not clear a locally held modifier.
///
/// The result is a baseline for a whole transition batch, never for a single
/// event. A batch shrinks `remote_flags` as it posts each release, so
/// recomputing the baseline per step would reclassify a side this backend has
/// just released as locally held and leave that side's flag bits turned on.
///
/// Bits the remote and the local user both hold are indistinguishable through
/// this API, the window server reports one Control bit either way, so the
/// remote state wins there and the local key keeps toggling the same bit. The
/// worst case is that releasing the remote Control also drops a locally held
/// Control that the local user is still holding; releasing that physical key
/// still clears the bit.
pub fn locally_held_flags(local_flags: u32, remote_flags: u32) -> (r: u32)
    ensures
        r == local_part(local_flags, remote_flags),
{
    local_flags & !remote_flags & MANAGED_FLAG_MASKS
}

/// What is published beside the flags of the held sides keeps every managed bit that the local
/// keyboard holds and the remote is not responsible for, and no bit that this backend does not
/// manage.
pub proof fn law_local_modifiers_survive(
    local_flags: u32,
    remote_flags: u32,
    sides: Set<ModifierSide>,
    bit: u32,
)
    requires
        bit & MANAGED_FLAG_MASKS == bit,
        bit & local_flags == bit,
        bit & remote_flags == 0,
    ensures
        (local_part(local_flags, remote_flags) | flags_of(sides)) & bit == bit,
        (local_part(local_flags, remote_flags) | flags_of(sides)) & !MANAGED_FLAG_MASKS == 0,
{
    law_flags_name_the_sides(sides, ModifierSide::LeftShift);
    let f = flags_of(sides);
    let m = MANAGED_FLAG_MASKS;
    assert(((local_flags & !remote_flags & m) | f) & bit == bit && ((local_flags & !remote_flags & m)
        | f) & !m == 0) by (bit_vector)
        requires
            bit & m == bit,
            bit & local_flags == bit,
            bit & remote_flags == 0,
            f & !m == 0,
    ;
}

/// What is held after the releases among the first `n` sides of the bit order.
pub open spec fn after_releases(
    held: Set<ModifierSide>,
    desired: Set<ModifierSide>,
    n: nat,
) -> Set<ModifierSide> {
    Set::new(
        |side: ModifierSide|
            held.contains(side) && (desired.contains(side) || side.position() >= n),
    )
}

/// What is held after every release and the presses among the first `n` sides of the bit order.
pub open spec fn after_presses(
    held: Set<ModifierSide>,
    desired: Set<ModifierSide>,
    n: nat,
) -> Set<ModifierSide> {
    Set::new(
        |side: ModifierSide|
            desired.contains(side) && (held.contains(side) || side.position() < n),
    )
}

/// The releases among the first `n` sides of the bit order, each with what is held right after it.
pub open spec fn release_steps(
    held: Set<ModifierSide>,
    desired: Set<ModifierSide>,
    n: nat,
) -> Seq<(ModifierSide, Set<ModifierSide>)>
    decreases n,
{
    if n == 0 {
        Seq::empty()
    } else {
        let side = side_at(n - 1);
        let earlier = release_steps(held, desired, (n - 1) as nat);
        if held.contains(side) && !desired.contains(side) {
            earlier.push((side, after_releases(held, desired, n)))
        } else {
            earlier
        }
    }
}

/// The presses among the first `n` sides of the bit order, each with what is held right after it.
pub open spec fn press_steps(
    held: Set<ModifierSide>,
    desired: Set<ModifierSide>,
    n: nat,
) -> Seq<(ModifierSide, Set<ModifierSide>)>
    decreases n,
{
    if n == 0 {
        Seq::empty()
    } else {
        let side = side_at(n - 1);
        let earlier = press_steps(held, desired, (n - 1) as nat);
        if desired.contains(side) && !held.contains(side) {
            earlier.push((side, after_presses(held, desired, n)))
        } else {
            earlier
        }
    }
}

/// The releases and then the presses that take `held` to `desired`.
pub open spec fn steps_between(held: Set<ModifierSide>, desired: Set<ModifierSide>) -> Seq<
    (ModifierSide, Set<ModifierSide>),
> {
    release_steps(held, desired, 8) + press_steps(held, desired, 8)
}

/// The steps by their views.
pub open spec fn steps_view(steps: Seq<(ModifierSide, ModifierSides)>) -> Seq<
    (ModifierSide, Set<ModifierSide>),
> {
    steps.map_values(|step: (ModifierSide, ModifierSides)| (step.0, step.1@))
}

/// The modifier transitions that take `held` to `desired`, in the order they
/// must be posted.
///
/// Each entry also carries the full side set in effect right after that
/// transition, because every flags-changed event has to describe the complete
/// modifier state, not just the key that changed.
pub fn transitions(held: ModifierSides, desired: ModifierSides) -> (r: Vec<
    (ModifierSide, ModifierSides),
>)
    ensures
        steps_view(r@) == steps_between(held@, desired@),
{
    let all = ModifierSide::all();
    let mut steps: Vec<(ModifierSide, ModifierSides)> = Vec::new();
    let mut current = held;
    let mut i: usize = 0;
    assert(current@ =~= after_releases(held@, desired@, 0));
    assert(steps_view(steps@) =~= release_steps(held@, desired@, 0));
    while i < 8
        invariant
            i <= 8,
            forall|j: int| 0 <= j < 8 ==> #[trigger] all@[j] == side_at(j),
            current@ == after_releases(held@, desired@, i as nat),
            steps_view(steps@) == release_steps(held@, desired@, i as nat),
        decreases 8 - i,
    {
        let side = all[i];
        proof {
            assert forall|other: ModifierSide| other.position() == i <==> other == side by {
                lemma_positions(other);
            }
        }
        if held.holds(side) && !desired.holds(side) {
            current = current.without(side.bit());
            assert(current@ =~= after_releases(held@, desired@, (i + 1) as nat));
            let ghost earlier = steps@;
            steps.push((side, current));
            assert(steps_view(steps@) =~= steps_view(earlier).push((side, current@)));
        } else {
            assert(current@ =~= after_releases(held@, desired@, (i + 1) as nat));
        }
        i += 1;
    }
    proof {
        assert forall|side: ModifierSide| side.position() < 8 by {
            lemma_positions(side);
        }
    }
    assert(current@ =~= after_presses(held@, desired@, 0));
    assert(steps_view(steps@) =~= release_steps(held@, desired@, 8) + press_steps(
        held@,
        desired@,
        0,
    ));
    i = 0;
    while i < 8
        invariant
            i <= 8,
            forall|j: int| 0 <= j < 8 ==> #[trigger] all@[j] == side_at(j),
            current@ == after_presses(held@, desired@, i as nat),
            steps_view(steps@) == release_steps(held@, desired@, 8) + press_steps(
                held@,
                desired@,
                i as nat,
            ),
        decreases 8 - i,
    {
        let side = all[i];
        proof {
            assert forall|other: ModifierSide| other.position() == i <==> other == side by {
                lemma_positions(other);
            }
        }
        if desired.holds(side) && !held.holds(side) {
            current = current.with(side.bit());
            assert(current@ =~= after_presses(held@, desired@, (i + 1) as nat));
            let ghost earlier = steps@;
            steps.push((side, current));
            assert(steps_view(steps@) =~= steps_view(earlier).push((side, current@)));
            assert(steps_view(steps@) =~= release_steps(held@, desired@, 8) + press_steps(
                held@,
                desired@,
                (i + 1) as nat,
            ));
        } else {
            assert(current@ =~= after_presses(held@, desired@, (i + 1) as nat));
        }
        i += 1;
    }
    steps
}

/// Each step changes exactly the side that it names.
pub open spec fn single_changes(
    held: Set<ModifierSide>,
    steps: Seq<(ModifierSide, Set<ModifierSide>)>,
) -> bool {
    forall|i: int|
        0 <= i < steps.len() ==> {
            let before = if i == 0 {
                held
            } else {
                steps[i - 1].1
            };
            #[trigger] steps[i].1 == if before.contains(steps[i].0) {
                before.remove(steps[i].0)
            } else {
                before.insert(steps[i].0)
            }
        }
}

/// What is held after the last of the steps.
pub open spec fn reached(
    held: Set<ModifierSide>,
    steps: Seq<(ModifierSide, Set<ModifierSide>)>,
) -> Set<ModifierSide> {
    if steps.len() == 0 {
        held
    } else {
        steps.last().1
    }
}

/// The transitions change one side each and end with exactly the desired sides held.
pub proof fn law_transitions_reach_what_is_desired(
    held: Set<ModifierSide>,
    desired: Set<ModifierSide>,
)
    ensures
        single_changes(held, steps_between(held, desired)),
        reached(held, steps_between(held, desired)) == desired,
{
    lemma_release_steps(held, desired, 8);
    lemma_press_steps(held, desired, 8);
    assert forall|side: ModifierSide| side.position() < 8 by {
        lemma_positions(side);
    }
    assert(after_presses(held, desired, 8) =~= desired);
}

proof fn lemma_release_steps(held: Set<ModifierSide>, desired: Set<ModifierSide>, n: nat)
    requires
        n <= 8,
    ensures
        single_changes(held, release_steps(held, desired, n)),
        reached(held, release_steps(held, desired, n)) == after_releases(held, desired, n),
    decreases n,
{
    if n == 0 {
        assert(after_releases(held, desired, 0) =~= held);
    } else {
        lemma_release_steps(held, desired, (n - 1) as nat);
        let side = side_at(n - 1);
        assert forall|other: ModifierSide| other.position() == n - 1 <==> other == side by {
            lemma_positions(other);
        }
        let before = after_releases(held, desired, (n - 1) as nat);
        if held.contains(side) && !desired.contains(side) {
            assert(after_releases(held, desired, n) =~= before.remove(side));
        } else {
            assert(after_releases(held, desired, n) =~= before);
        }
    }
}

proof fn lemma_press_steps(held: Set<ModifierSide>, desired: Set<ModifierSide>, n: nat)
    requires
        n <= 8,
    ensures
        single_changes(held, release_steps(held, desired, 8) + press_steps(held, desired, n)),
        reached(held, release_steps(held, desired, 8) + press_steps(held, desired, n))
            == after_presses(held, desired, n),
    decreases n,
{
    if n == 0 {
        lemma_release_steps(held, desired, 8);
        assert forall|side: ModifierSide| side.position() < 8 by {
            lemma_positions(side);
        }
        assert(release_steps(held, desired, 8) + press_steps(held, desired, 0) =~= release_steps(
            held,
            desired,
            8,
        ));
        assert(after_presses(held, desired, 0) =~= after_releases(held, desired, 8));
    } else {
        lemma_press_steps(held, desired, (n - 1) as nat);
        let side = side_at(n - 1);
        assert forall|other: ModifierSide| other.position() == n - 1 <==> other == side by {
            lemma_positions(other);
        }
        let before = after_presses(held, desired, (n - 1) as nat);
        let earlier = release_steps(held, desired, 8) + press_steps(held, desired, (n - 1) as nat);
        if desired.contains(side) && !held.contains(side) {
            assert(after_presses(held, desired, n) =~= before.insert(side));
            assert(release_steps(held, desired, 8) + press_steps(held, desired, n) =~= earlier.push(
                (side, after_presses(held, desired, n)),
            ));
        } else {
            assert(after_presses(held, desired, n) =~= before);
        }
    }
}

/// Which API carries a keyboard event to the window server.
#[derive(Clone, Copy, Debug, PartialEq, Eq, Structural)]
pub enum InjectionPath {
    /// `IOHIDPostEvent` with real `NXEventData`. This is the only path that
    /// makes macOS treat injected input like physical HID input.
    Nx,
    /// Best-effort `CGEvent` fallback. It still types, but macOS does not
    /// treat these events as physical HID input, so system shortcuts are not
    /// guaranteed on this path.
    CgEvent,
}

/// Stable API-path names for diagnostics.
pub fn path_name(path: InjectionPath) -> (r: &'static str)
    ensures
        r == (match path {
            InjectionPath::Nx => "iohid",
            InjectionPath::CgEvent => "cgevent",
        }),
{
    match path {
        InjectionPath::Nx => "iohid",
        InjectionPath::CgEvent => "cgevent",
    }
}

/// One planned keyboard injection.
#[derive(Clone, Copy, Debug, PartialEq, Eq, Structural)]
pub enum Injection {
    /// A modifier transition: `NX_FLAGSCHANGED` on the IOHID path, a
    /// `FlagsChanged` event with an explicit key code on the fallback path.
    Modifiers {
        /// The virtual key code of the side that changed.
        key_code: u16,
        /// The complete modifier flags to publish.
        flags: u32,
    },
    /// An ordinary key.
    Key {
        /// The virtual key code.
        key_code: u16,
        /// Whether this is a key down.
        down: bool,
        /// The complete modifier flags, used **only** by the `CGEvent`
        /// fallback, which has to restate the flags on every event. The IOHID
        /// path posts ordinary keys with no global flags so the window server
        /// keeps the state its flags-changed events established.
        cg_flags: u32,
    },
}

/// Names joined by `+`.
pub open spec fn joined(names: Seq<Seq<char>>) -> Seq<char>
    decreases names.len(),
{
    if names.len() == 0 {
        Seq::empty()
    } else if names.len() == 1 {
        names[0]
    } else {
        joined(names.drop_last()) + "+"@ + names.last()
    }
}

/// Names joined by `+`, or `none`.
pub open spec fn joined_or_none(names: Seq<Seq<char>>) -> Seq<char> {
    if names.len() == 0 {
        "none"@
    } else {
        joined(names)
    }
}

/// A list of names as it is written: how many there are, and the text so far.
struct Listing {
    count: usize,
    text: String,
}

impl Listing {
    spec fn lists(self, names: Seq<Seq<char>>) -> bool {
        self.count == names.len() && self.text@ == joined(names)
    }

    fn add_name(&mut self, name: &str, Ghost(names): Ghost<Seq<Seq<char>>>)
        requires
            old(self).lists(names),
            names.len() < 100,
        ensures
            final(self).lists(names.push(name@)),
    {
        proof {
            assert(names.push(name@).drop_last() =~= names);
        }
        if self.count > 0 {
            self.text.append("+");
        }
        self.text.append(name);
        self.count = self.count + 1;
        assert(self.text@ =~= joined(names.push(name@)));
    }

    fn finish(self, Ghost(names): Ghost<Seq<Seq<char>>>) -> (r: String)
        requires
            self.lists(names),
        ensures
            r@ == joined_or_none(names),
    {
        if self.count == 0 {
            "none".to_owned()
        } else {
            self.text
        }
    }
}

/// The names of the first `n` kinds that are present.
pub open spec fn kind_names(kinds: ModifierKinds, n: nat) -> Seq<Seq<char>>
    decreases n,
{
    if n == 0 {
        Seq::empty()
    } else {
        let (kind, name) = if n == 1 {
            (ModifierKinds(1), "shift"@)
        } else if n == 2 {
            (ModifierKinds(2), "control"@)
        } else if n == 3 {
            (ModifierKinds(4), "option"@)
        } else {
            (ModifierKinds(8), "command"@)
        };
        let earlier = kind_names(kinds, (n - 1) as nat);
        if kinds.has(kind) {
            earlier.push(name)
        } else {
            earlier
        }
    }
}

/// Human-readable modifier-kind names, `none` when empty.
pub fn describe_kinds(kinds: ModifierKinds) -> (r: String)
    ensures
        r@ == joined_or_none(kind_names(kinds, 4)),
{
    let mut listing = Listing { count: 0, text: String::new() };
    proof {
        reveal_with_fuel(kind_names, 5);
        lemma_kind_names_bounded(kinds, 4);
        lemma_kind_names_bounded(kinds, 3);
        lemma_kind_names_bounded(kinds, 2);
        lemma_kind_names_bounded(kinds, 1);
    }
    if kinds.contains(ModifierKinds::shift()) {
        listing.add_name("shift", Ghost(kind_names(kinds, 0)));
    }
    if kinds.contains(ModifierKinds::control()) {
        listing.add_name("control", Ghost(kind_names(kinds, 1)));
    }
    if kinds.contains(ModifierKinds::option()) {
        listing.add_name("option", Ghost(kind_names(kinds, 2)));
    }
    if kinds.contains(ModifierKinds::command()) {
        listing.add_name("command", Ghost(kind_names(kinds, 3)));
    }
    listing.finish(Ghost(kind_names(kinds, 4)))
}

proof fn lemma_kind_names_bounded(kinds: ModifierKinds, n: nat)
    ensures
        kind_names(kinds, n).len() <= n,
    decreases n,
{
    if n > 0 {
        lemma_kind_names_bounded(kinds, (n - 1) as nat);
    }
}

/// The names of the held sides among the first `n` of the bit order.
pub open spec fn side_names(sides: Set<ModifierSide>, n: nat) -> Seq<Seq<char>>
    decreases n,
{
    if n == 0 {
        Seq::empty()
    } else {
        let earlier = side_names(sides, (n - 1) as nat);
        if sides.contains(side_at(n - 1)) {
            earlier.push(side_at(n - 1).label()@)
        } else {
            earlier
        }
    }
}

/// Human-readable side names joined with `+`, `none` when empty.
pub fn describe_sides(sides: ModifierSides) -> (r: String)
    ensures
        r@ == joined_or_none(side_names(sides@, 8)),
{
    let all = ModifierSide::all();
    let mut listing = Listing { count: 0, text: String::new() };
    let mut i: usize = 0;
    while i < 8
        invariant
            i <= 8,
            forall|j: int| 0 <= j < 8 ==> #[trigger] all@[j] == side_at(j),
            listing.lists(side_names(sides@, i as nat)),
            side_names(sides@, i as nat).len() <= i,
        decreases 8 - i,
    {
        let side = all[i];
        if sides.holds(side) {
            listing.add_name(side.name(), Ghost(side_names(sides@, i as nat)));
        }
        i += 1;
    }
    listing.finish(Ghost(side_names(sides@, 8)))
}

/// Redacted injection details for diagnostics.
pub open spec fn injection_text(injection: Injection) -> Seq<char> {
    match injection {
        Injection::Modifiers { key_code, flags } => "modifiers side="@ + (if exists|
            side: ModifierSide,
        | side.code() == key_code {
            (choose|side: ModifierSide| side.code() == key_code).label()@
        } else {
            "unknown"@
        }) + " key_code=0x"@ + hex(key_code as nat, 4) + " flags=0x"@ + hex(flags as nat, 8),
        Injection::Key { key_code, down, .. } => "key category="@ + category_label(key_code)@ + (
        if category(key_code) == KeyCategory::Ordinary {
            ""@
        } else {
            " key_code=0x"@ + hex(key_code as nat, 4)
        }) + (if down {
            " down=true"@
        } else {
            " down=false"@
        }),
    }
}

/// Redacted injection details for diagnostics.
///
/// Ordinary keys are described only by category so failure logs never record
/// what the user typed. Modifier transitions, arrows and Caps Lock carry their
/// identity because they are the events shortcut investigations have to
/// correlate.
pub fn describe_injection(injection: Injection) -> (r: String)
    ensures
        r@ == injection_text(injection),
{
    let mut text = String::new();
    match injection {
        Injection::Modifiers { key_code, flags } => {
            text.append("modifiers side=");
            match ModifierSide::from_key_code(key_code) {
                Some(side) => {
                    assert(side == choose|side: ModifierSide| side.code() == key_code);
                    text.append(side.name());
                },
                None => text.append("unknown"),
            }
            text.append(" key_code=0x");
            put_hex(&mut text, key_code as u64, 4);
            text.append(" flags=0x");
            put_hex(&mut text, flags as u64, 8);
            assert(text@ =~= injection_text(injection));
        },
        Injection::Key { key_code, down, .. } => {
            text.append("key category=");
            text.append(key_category(key_code));
            if categorize(key_code) != KeyCategory::Ordinary {
                text.append(" key_code=0x");
                put_hex(&mut text, key_code as u64, 4);
            } else {
                text.append("");
            }
            if down {
                text.append(" down=true");
            } else {
                text.append(" down=false");
            }
            assert(text@ =~= injection_text(injection));
        },
    }
    text
}

/// What an ordinary key is described as does not depend on which one it is.
pub proof fn law_ordinary_keys_are_not_identified(a: u16, b: u16, down: bool, x: u32, y: u32)
    requires
        category(a) == KeyCategory::Ordinary,
        category(b) == KeyCategory::Ordinary,
    ensures
        injection_text(Injection::Key { key_code: a, down, cg_flags: x }) == injection_text(
            Injection::Key { key_code: b, down, cg_flags: y },
        ),
{
}

} // verus!
