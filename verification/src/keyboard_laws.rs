//! What the modifier planning is for: the codes and the flags that name each side, the sides to hold, and
//! the steps that lead to them.

use crate::keyboard::{
    category, describe_injection, describe_sides, desired_sides, flags_for, key_category,
    law_flags_name_the_sides, law_transitions_reach_what_is_desired,
    lemma_positions, locally_held_flags, path_name, press_steps, release_steps, side_at, side_names,
    steps_between, steps_view, transitions, Injection, InjectionPath, KeyCategory, ModifierKinds,
    ModifierSide, ModifierSides,
};
use vstd::prelude::*;

verus! {

/// Each side has the virtual key code that macOS gives its key, and is found again by it; no other code
/// is that of a side.
pub proof fn law_key_codes_name_sides(
    side: ModifierSide,
    code: u16,
    any: u16,
    found: Option<ModifierSide>,
)
    requires
        call_ensures(ModifierSide::key_code, (side,), code),
        call_ensures(ModifierSide::from_key_code, (any,), found),
    ensures
        side is LeftShift ==> code == 0x38,
        side is RightShift ==> code == 0x3C,
        side is LeftControl ==> code == 0x3B,
        side is RightControl ==> code == 0x3E,
        side is LeftOption ==> code == 0x3A,
        side is RightOption ==> code == 0x3D,
        side is LeftCommand ==> code == 0x37,
        side is RightCommand ==> code == 0x36,
        any == code <==> found == Some(side),
        found is Some <==> 0x36 <= any <= 0x3E && any != 0x39,
{
    if any == 0x38 {
        assert(ModifierSide::LeftShift.code() == any);
    } else if any == 0x3C {
        assert(ModifierSide::RightShift.code() == any);
    } else if any == 0x3B {
        assert(ModifierSide::LeftControl.code() == any);
    } else if any == 0x3E {
        assert(ModifierSide::RightControl.code() == any);
    } else if any == 0x3A {
        assert(ModifierSide::LeftOption.code() == any);
    } else if any == 0x3D {
        assert(ModifierSide::RightOption.code() == any);
    } else if any == 0x37 {
        assert(ModifierSide::LeftCommand.code() == any);
    } else if any == 0x36 {
        assert(ModifierSide::RightCommand.code() == any);
    }
}

/// The other side of a key is another side of the same kind, whose other side is the first one again, and
/// exactly one of the two stands for the key where no side is named: the left one.
pub proof fn law_sides_come_in_pairs(
    side: ModifierSide,
    other: ModifierSide,
    back: ModifierSide,
    first: bool,
    second: bool,
)
    requires
        call_ensures(ModifierSide::sibling, (side,), other),
        call_ensures(ModifierSide::sibling, (other,), back),
        call_ensures(ModifierSide::is_default_side, (side,), first),
        call_ensures(ModifierSide::is_default_side, (other,), second),
    ensures
        other != side,
        back == side,
        first != second,
        first <==> side is LeftShift || side is LeftControl || side is LeftOption || side is LeftCommand,
        side is LeftShift <==> other is RightShift,
        side is LeftControl <==> other is RightControl,
        side is LeftOption <==> other is RightOption,
        side is LeftCommand <==> other is RightCommand,
{
}

/// A set of sides is what was put into it and not taken out again.
pub proof fn law_side_sets_are_sets(
    a: ModifierSides,
    b: ModifierSides,
    side: ModifierSide,
    alone: ModifierSides,
    both: ModifierSides,
    less: ModifierSides,
    held: bool,
    within: bool,
    meets: bool,
    none: bool,
)
    requires
        call_ensures(ModifierSide::bit, (side,), alone),
        call_ensures(ModifierSides::with, (a, b), both),
        call_ensures(ModifierSides::without, (a, b), less),
        call_ensures(ModifierSides::holds, (a, side), held),
        call_ensures(ModifierSides::contains, (a, b), within),
        call_ensures(ModifierSides::intersects, (a, b), meets),
        call_ensures(ModifierSides::is_empty, (a,), none),
    ensures
        forall|s: ModifierSide| #[trigger] alone@.contains(s) <==> s == side,
        forall|s: ModifierSide| #[trigger]
            both@.contains(s) <==> a@.contains(s) || b@.contains(s),
        forall|s: ModifierSide| #[trigger]
            less@.contains(s) <==> a@.contains(s) && !b@.contains(s),
        held <==> a@.contains(side),
        within <==> forall|s: ModifierSide| #[trigger] b@.contains(s) ==> a@.contains(s),
        meets <==> exists|s: ModifierSide| #[trigger] b@.contains(s) && a@.contains(s),
        none <==> forall|s: ModifierSide| !(#[trigger] a@.contains(s)),
{
    if none {
        assert(forall|s: ModifierSide| !(#[trigger] a@.contains(s)));
    } else if forall|s: ModifierSide| !(#[trigger] a@.contains(s)) {
        assert(a@ =~= Set::<ModifierSide>::empty());
    }
    if !meets {
        assert(a@.disjoint(b@));
    } else if forall|s: ModifierSide| !(#[trigger] b@.contains(s) && a@.contains(s)) {
        assert(a@.disjoint(b@));
    }
}

/// The flags of a set of sides have, for each side that is held, the bit of the device's key and the bit
/// of its kind, and no other bit.
pub proof fn law_flags_say_what_is_held(sides: ModifierSides, flags: u32)
    requires
        call_ensures(flags_for, (sides,), flags),
    ensures
        flags & 0x2 != 0 <==> sides@.contains(ModifierSide::LeftShift),
        flags & 0x4 != 0 <==> sides@.contains(ModifierSide::RightShift),
        flags & 0x1 != 0 <==> sides@.contains(ModifierSide::LeftControl),
        flags & 0x2000 != 0 <==> sides@.contains(ModifierSide::RightControl),
        flags & 0x20 != 0 <==> sides@.contains(ModifierSide::LeftOption),
        flags & 0x40 != 0 <==> sides@.contains(ModifierSide::RightOption),
        flags & 0x8 != 0 <==> sides@.contains(ModifierSide::LeftCommand),
        flags & 0x10 != 0 <==> sides@.contains(ModifierSide::RightCommand),
        flags & 0x2_0000 != 0 <==> sides@.contains(ModifierSide::LeftShift) || sides@.contains(
            ModifierSide::RightShift,
        ),
        flags & 0x4_0000 != 0 <==> sides@.contains(ModifierSide::LeftControl) || sides@.contains(
            ModifierSide::RightControl,
        ),
        flags & 0x8_0000 != 0 <==> sides@.contains(ModifierSide::LeftOption) || sides@.contains(
            ModifierSide::RightOption,
        ),
        flags & 0x10_0000 != 0 <==> sides@.contains(ModifierSide::LeftCommand) || sides@.contains(
            ModifierSide::RightCommand,
        ),
        flags & !0x1e_207fu32 == 0,
{
    law_flags_name_the_sides(sides@, ModifierSide::LeftShift);
    law_flags_name_the_sides(sides@, ModifierSide::RightShift);
    law_flags_name_the_sides(sides@, ModifierSide::LeftControl);
    law_flags_name_the_sides(sides@, ModifierSide::RightControl);
    law_flags_name_the_sides(sides@, ModifierSide::LeftOption);
    law_flags_name_the_sides(sides@, ModifierSide::RightOption);
    law_flags_name_the_sides(sides@, ModifierSide::LeftCommand);
    law_flags_name_the_sides(sides@, ModifierSide::RightCommand);
    let outside = !crate::keyboard::MANAGED_FLAG_MASKS;
    let f = flags;
    assert(f & outside == 0 && f & 0x1_0000 == 0);
    assert(f & !0x1e_207fu32 == 0) by (bit_vector)
        requires
            f & outside == 0,
            f & 0x1_0000 == 0,
            outside == !(0x1_0000u32 | 0x2_0000u32 | 0x4_0000u32 | 0x8_0000u32 | 0x10_0000u32 | 1u32
                | 2u32 | 4u32 | 8u32 | 0x10u32 | 0x20u32 | 0x40u32 | 0x2000u32),
    ;
}

/// The local keyboard's bits are those that the window server reports, the remote is not responsible for
/// and this backend manages.
pub proof fn law_local_flags_are_kept(local_flags: u32, remote_flags: u32, r: u32, bit: u32)
    requires
        call_ensures(locally_held_flags, (local_flags, remote_flags), r),
        bit & 0x1f_207f == bit,
    ensures
        r & remote_flags == 0,
        r & local_flags == r,
        bit & local_flags == bit && bit & remote_flags == 0 ==> r & bit == bit,
        r & 0x1f_207f == r,
{
    let m = crate::keyboard::MANAGED_FLAG_MASKS;
    assert(r & remote_flags == 0 && r & local_flags == r && (bit & local_flags == bit && bit
        & remote_flags == 0 ==> r & bit == bit) && r & 0x1f_207f == r) by (bit_vector)
        requires
            r == local_flags & !remote_flags & m,
            bit & 0x1f_207f == bit,
            m == 0x1_0000u32 | 0x2_0000u32 | 0x4_0000u32 | 0x8_0000u32 | 0x10_0000u32 | 1u32 | 2u32
                | 4u32 | 8u32 | 0x10u32 | 0x20u32 | 0x40u32 | 0x2000u32,
    ;
}

/// What a snapshot has held: of a kind that it does not report, no side; of a kind that it reports, the
/// sides that were identified, and the left one where none was.
pub proof fn law_snapshots_are_followed(
    kinds: ModifierKinds,
    known: ModifierSides,
    r: ModifierSides,
)
    requires
        call_ensures(desired_sides, (kinds, known), r),
    ensures
        ({
            let k = |side: ModifierSide| known@.contains(side);
            let d = |side: ModifierSide| r@.contains(side);
            &&& kinds.0 & 1 == 0 ==> !d(ModifierSide::LeftShift) && !d(ModifierSide::RightShift)
            &&& kinds.0 & 1 == 1 ==> (d(ModifierSide::RightShift) <==> k(ModifierSide::RightShift)) && (
            d(ModifierSide::LeftShift) <==> k(ModifierSide::LeftShift) || !k(
                ModifierSide::RightShift,
            ))
            &&& kinds.0 & 2 == 0 ==> !d(ModifierSide::LeftControl) && !d(ModifierSide::RightControl)
            &&& kinds.0 & 2 == 2 ==> (d(ModifierSide::RightControl) <==> k(
                ModifierSide::RightControl,
            )) && (d(ModifierSide::LeftControl) <==> k(ModifierSide::LeftControl) || !k(
                ModifierSide::RightControl,
            ))
            &&& kinds.0 & 4 == 0 ==> !d(ModifierSide::LeftOption) && !d(ModifierSide::RightOption)
            &&& kinds.0 & 4 == 4 ==> (d(ModifierSide::RightOption) <==> k(
                ModifierSide::RightOption,
            )) && (d(ModifierSide::LeftOption) <==> k(ModifierSide::LeftOption) || !k(
                ModifierSide::RightOption,
            ))
            &&& kinds.0 & 8 == 0 ==> !d(ModifierSide::LeftCommand) && !d(ModifierSide::RightCommand)
            &&& kinds.0 & 8 == 8 ==> (d(ModifierSide::RightCommand) <==> k(
                ModifierSide::RightCommand,
            )) && (d(ModifierSide::LeftCommand) <==> k(ModifierSide::LeftCommand) || !k(
                ModifierSide::RightCommand,
            ))
        }),
{
}

/// Whether the step at a position changes the one side that it names, which is held and not desired or
/// desired and not held, and says what is held then.
pub open spec fn is_step(
    held: Set<ModifierSide>,
    desired: Set<ModifierSide>,
    steps: Seq<(ModifierSide, ModifierSides)>,
    i: int,
) -> bool {
    let before = if i == 0 {
        held
    } else {
        steps[i - 1].1@
    };
    let side = steps[i].0;
    &&& held.contains(side) != desired.contains(side)
    &&& before.contains(side) == held.contains(side)
    &&& held.contains(side) ==> steps[i].1@ == before.remove(side)
    &&& !held.contains(side) ==> steps[i].1@ == before.insert(side)
}

/// The steps from what is held to what is desired each change the one side that they name and say what is
/// held then, and the last one leaves exactly the desired sides held.
pub proof fn law_steps_lead_to_what_is_desired(
    held: ModifierSides,
    desired: ModifierSides,
    r: Vec<(ModifierSide, ModifierSides)>,
)
    requires
        call_ensures(transitions, (held, desired), r),
    ensures
        forall|i: int| 0 <= i < r@.len() ==> #[trigger] is_step(held@, desired@, r@, i),
        r@.len() == 0 ==> held@ == desired@,
        r@.len() > 0 ==> r@.last().1@ == desired@,
{
    let (h, d) = (held@, desired@);
    let v = steps_view(r@);
    law_transitions_reach_what_is_desired(h, d);
    if r@.len() > 0 {
        assert(v.last() == (r@.last().0, r@.last().1@));
    }
    assert forall|i: int| 0 <= i < r@.len() implies #[trigger] is_step(h, d, r@, i) by {
        lemma_step(h, d, r@, i);
    }
}

proof fn lemma_step(
    h: Set<ModifierSide>,
    d: Set<ModifierSide>,
    steps: Seq<(ModifierSide, ModifierSides)>,
    i: int,
)
    requires
        steps_view(steps) == steps_between(h, d),
        crate::keyboard::single_changes(h, steps_between(h, d)),
        0 <= i < steps.len(),
    ensures
        is_step(h, d, steps, i),
{
    let v = steps_view(steps);
    lemma_steps(h, d);
    assert(v[i] == (steps[i].0, steps[i].1@));
    if i > 0 {
        assert(v[i - 1] == (steps[i - 1].0, steps[i - 1].1@));
    }
    lemma_unnamed(h, v, i, v[i].0);
    let before = if i == 0 {
        h
    } else {
        v[i - 1].1
    };
    assert(h.contains(v[i].0) != d.contains(v[i].0));
    assert(before.contains(v[i].0) == h.contains(v[i].0));
    assert(v[i].1 == if before.contains(v[i].0) {
        before.remove(v[i].0)
    } else {
        before.insert(v[i].0)
    });
}

/// No side is named twice, and every release comes before every press.
pub proof fn law_releases_come_first(
    held: ModifierSides,
    desired: ModifierSides,
    r: Vec<(ModifierSide, ModifierSides)>,
)
    requires
        call_ensures(transitions, (held, desired), r),
    ensures
        forall|i: int, j: int|
            0 <= i < j < r@.len() ==> (#[trigger] r@[i]).0 != (#[trigger] r@[j]).0 && !(
            desired@.contains(r@[i].0) && held@.contains(r@[j].0)),
{
    let (h, d) = (held@, desired@);
    let v = steps_view(r@);
    lemma_steps(h, d);
    assert forall|i: int, j: int| 0 <= i < j < r@.len() implies (#[trigger] r@[i]).0 != (
    #[trigger] r@[j]).0 && !(d.contains(r@[i].0) && h.contains(r@[j].0)) by {
        assert(v[i].0 == r@[i].0 && v[j].0 == r@[j].0);
    }
}

/// The steps name the sides that differ, each once, and every release before every press.
proof fn lemma_steps(h: Set<ModifierSide>, d: Set<ModifierSide>)
    ensures
        ({
            let v = steps_between(h, d);
            &&& forall|i: int|
                0 <= i < v.len() ==> h.contains((#[trigger] v[i]).0) != d.contains(v[i].0)
            &&& forall|i: int, j: int|
                0 <= i < j < v.len() ==> (#[trigger] v[i]).0 != (#[trigger] v[j]).0 && !(d.contains(
                    v[i].0,
                ) && h.contains(v[j].0))
        }),
{
    let (a, b) = (release_steps(h, d, 8), press_steps(h, d, 8));
    let v = steps_between(h, d);
    lemma_releases(h, d, 8);
    lemma_presses(h, d, 8);
    assert forall|i: int| 0 <= i < v.len() implies #[trigger] v[i] == if i < a.len() {
        a[i]
    } else {
        b[i - a.len()]
    } by {}
}

/// A side that no earlier step names is still held where it was.
proof fn lemma_unnamed(
    held: Set<ModifierSide>,
    steps: Seq<(ModifierSide, Set<ModifierSide>)>,
    i: int,
    side: ModifierSide,
)
    requires
        0 <= i < steps.len(),
        crate::keyboard::single_changes(held, steps),
        forall|j: int| 0 <= j < i ==> (#[trigger] steps[j]).0 != side,
    ensures
        i > 0 ==> steps[i - 1].1.contains(side) == held.contains(side),
    decreases i,
{
    if i > 0 {
        lemma_unnamed(held, steps, i - 1, side);
        assert(steps[i - 1].0 != side);
    }
}

/// The releases name sides that are held and not desired, in the bit order.
proof fn lemma_releases(held: Set<ModifierSide>, desired: Set<ModifierSide>, n: nat)
    requires
        n <= 8,
    ensures
        ({
            let s = release_steps(held, desired, n);
            &&& forall|i: int|
                0 <= i < s.len() ==> held.contains((#[trigger] s[i]).0) && !desired.contains(s[i].0)
                    && s[i].0.position() < n
            &&& forall|i: int, j: int|
                0 <= i < j < s.len() ==> (#[trigger] s[i]).0.position() < (
                #[trigger] s[j]).0.position()
        }),
    decreases n,
{
    if n > 0 {
        let earlier = release_steps(held, desired, (n - 1) as nat);
        let s = release_steps(held, desired, n);
        lemma_releases(held, desired, (n - 1) as nat);
        assert(side_at(n - 1).position() == n - 1);
        assert forall|i: int| 0 <= i < s.len() implies held.contains((#[trigger] s[i]).0)
            && !desired.contains(s[i].0) && s[i].0.position() < n by {
            if i < earlier.len() {
                assert(s[i] == earlier[i]);
            }
        }
        assert forall|i: int, j: int| 0 <= i < j < s.len() implies (#[trigger] s[i]).0.position() < (
        #[trigger] s[j]).0.position() by {
            assert(s[i] == earlier[i]);
            if j < earlier.len() {
                assert(s[j] == earlier[j]);
            }
        }
    }
}

/// The presses name sides that are desired and not held, in the bit order.
proof fn lemma_presses(held: Set<ModifierSide>, desired: Set<ModifierSide>, n: nat)
    requires
        n <= 8,
    ensures
        ({
            let s = press_steps(held, desired, n);
            &&& forall|i: int|
                0 <= i < s.len() ==> desired.contains((#[trigger] s[i]).0) && !held.contains(s[i].0)
                    && s[i].0.position() < n
            &&& forall|i: int, j: int|
                0 <= i < j < s.len() ==> (#[trigger] s[i]).0.position() < (
                #[trigger] s[j]).0.position()
        }),
    decreases n,
{
    if n > 0 {
        let earlier = press_steps(held, desired, (n - 1) as nat);
        let s = press_steps(held, desired, n);
        lemma_presses(held, desired, (n - 1) as nat);
        assert(side_at(n - 1).position() == n - 1);
        assert forall|i: int| 0 <= i < s.len() implies desired.contains((#[trigger] s[i]).0)
            && !held.contains(s[i].0) && s[i].0.position() < n by {
            if i < earlier.len() {
                assert(s[i] == earlier[i]);
            }
        }
        assert forall|i: int, j: int| 0 <= i < j < s.len() implies (#[trigger] s[i]).0.position() < (
        #[trigger] s[j]).0.position() by {
            assert(s[i] == earlier[i]);
            if j < earlier.len() {
                assert(s[j] == earlier[j]);
            }
        }
    }
}

/// Keys are told apart only as far as shortcuts go: Caps Lock, the four arrows, the eight modifiers, and
/// everything else.
pub proof fn law_keys_are_classified(key_code: u16, r: &'static str)
    requires
        call_ensures(key_category, (key_code,), r),
    ensures
        key_code == 0x39 ==> r@ == "caps_lock"@,
        0x7B <= key_code <= 0x7E ==> r@ == "arrow"@,
        0x36 <= key_code <= 0x3E && key_code != 0x39 ==> r@ == "modifier"@,
        key_code < 0x36 || 0x3E < key_code < 0x7B || key_code > 0x7E ==> r@ == "ordinary"@,
{
    if 0x36 <= key_code <= 0x3E && key_code != 0x39 {
        lemma_modifiers(key_code);
    }
}

/// The codes between those of the right Command and the right Control key are those of sides, but for
/// Caps Lock.
pub proof fn lemma_modifiers(key_code: u16)
    requires
        0x36 <= key_code <= 0x3E,
        key_code != 0x39,
    ensures
        exists|side: ModifierSide| side.code() == key_code,
{
    if key_code == 0x38 {
        assert(ModifierSide::LeftShift.code() == key_code);
    } else if key_code == 0x3C {
        assert(ModifierSide::RightShift.code() == key_code);
    } else if key_code == 0x3B {
        assert(ModifierSide::LeftControl.code() == key_code);
    } else if key_code == 0x3E {
        assert(ModifierSide::RightControl.code() == key_code);
    } else if key_code == 0x3A {
        assert(ModifierSide::LeftOption.code() == key_code);
    } else if key_code == 0x3D {
        assert(ModifierSide::RightOption.code() == key_code);
    } else if key_code == 0x37 {
        assert(ModifierSide::LeftCommand.code() == key_code);
    } else {
        assert(ModifierSide::RightCommand.code() == key_code);
    }
}

/// Diagnostics name an ordinary key by its direction alone, and each path by its API.
pub proof fn law_diagnostics_hide_what_is_typed(
    a: u16,
    b: u16,
    down: bool,
    flags: u32,
    others: u32,
    first: String,
    second: String,
    path: InjectionPath,
    name: &'static str,
)
    requires
        call_ensures(
            describe_injection,
            (Injection::Key { key_code: a, down, cg_flags: flags },),
            first,
        ),
        call_ensures(
            describe_injection,
            (Injection::Key { key_code: b, down, cg_flags: others },),
            second,
        ),
        call_ensures(path_name, (path,), name),
        a < 0x36 || 0x3E < a < 0x7B || a > 0x7E,
        b < 0x36 || 0x3E < b < 0x7B || b > 0x7E,
    ensures
        first@ == second@,
        first@ == "key category=ordinary"@ + (if down {
            " down=true"@
        } else {
            " down=false"@
        }),
        path is Nx ==> name@ == "iohid"@,
        path is CgEvent ==> name@ == "cgevent"@,
{
    assert(category(a) == KeyCategory::Ordinary);
    assert(category(b) == KeyCategory::Ordinary);
    reveal_strlit("key category=");
    reveal_strlit("ordinary");
    reveal_strlit("");
    reveal_strlit("key category=ordinary");
    assert("key category="@ + "ordinary"@ + ""@ =~= "key category=ordinary"@);
}

/// A list of sides names each side that is held and no other, in the bit order.
pub proof fn law_lists_name_what_is_held(sides: ModifierSides, r: String)
    requires
        call_ensures(describe_sides, (sides,), r),
    ensures
        r@ == "none"@ <== sides@ == Set::<ModifierSide>::empty(),
        forall|side: ModifierSide|
            sides@ == set![side] ==> r@ == #[trigger] side.label()@,
{
    reveal_with_fuel(side_names, 9);
    assert forall|side: ModifierSide| sides@ == set![side] implies r@ == #[trigger] side.label()@ by {
        lemma_positions(side);
        assert(side_names(sides@, 8) =~= seq![side.label()@]);
    }
    if sides@ == Set::<ModifierSide>::empty() {
        assert(side_names(sides@, 8) =~= Seq::<Seq<char>>::empty());
    }
}

} // verus!
