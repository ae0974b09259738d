//! What the keyboard injector is for: each press, release, tap and snapshot reaches the window server, a
//! failed path is left without a key stuck, and cleanup releases what was injected.

use crate::injector::{
    drop_is_reported, frees_key, frees_side, is_release, keys_released, law_a_repeated_snapshot_is_silent,
    law_a_snapshot_that_is_taken_is_held, law_cleanup_keeps_what_was_refused, release_attempts,
    sides_released, snapshot_changed, steps_posted, submission_is_reported, Attempt, Board,
    CleanupResidue, InjectorState, KeySink, KeyboardInjector, SnapshotLog,
};
use crate::keyboard::{
    desired_sides, flags_for, local_part, locally_held_flags, steps_between, steps_view, transitions,
    Injection, InjectionPath, ModifierKinds, ModifierSide, ModifierSides,
};
use vstd::prelude::*;

verus! {

/// A key that goes down is posted once, on the current path and with the flags that were published last,
/// and is recorded as pressed exactly if the sink took it. Once the IOHID path has failed, it is held
/// back and counted instead.
pub proof fn law_presses_are_posted_once<S: KeySink>(
    injector: &mut KeyboardInjector<S>,
    key_code: u16,
)
    requires
        call_ensures(KeyboardInjector::<S>::key_down, (injector, key_code), ()),
    ensures
        ({
            let (b, a) = (old(injector).board(), final(injector).board());
            let log = final(injector).since(old(injector));
            &&& b.degraded ==> log.len() == 0 && a == (Board { dropped: a.dropped, ..b })
            &&& b.degraded && b.dropped < u64::MAX ==> a.dropped == b.dropped + 1
            &&& !b.degraded ==> {
                let down = Injection::Key { key_code, down: true, cg_flags: b.post_flags };
                &&& log.len() == 1 && log[0].path == b.path && log[0].injection == down
                &&& log[0].outcome is Ok ==> a == (Board {
                    pressed: b.pressed.insert(key_code),
                    ..b
                })
                &&& log[0].outcome is Err && b.path is Nx ==> a == (Board { degraded: true, ..b })
                &&& log[0].outcome is Err && b.path is CgEvent ==> a == b
            }
        }),
{
}

/// Whether the path is given up: the IOHID path has failed and nothing is down any more.
pub open spec fn gives_up(failed: bool, path: InjectionPath, pressed: Set<u16>, held: Set<ModifierSide>) -> bool {
    failed && path is Nx && pressed.is_empty() && held == Set::<ModifierSide>::empty()
}

/// A key that comes up is always posted, whether it was pressed or not: on the current path, and once
/// more through the fallback where the IOHID path fails. It is forgotten exactly if one of them took it,
/// and the last failure is handed on.
pub proof fn law_releases_are_posted<S: KeySink>(
    injector: &mut KeyboardInjector<S>,
    key_code: u16,
    r: Result<(), i32>,
)
    requires
        call_ensures(KeyboardInjector::<S>::key_up, (injector, key_code), r),
    ensures
        ({
            let (b, a) = (old(injector).board(), final(injector).board());
            let log = final(injector).since(old(injector));
            let up = Injection::Key { key_code, down: false, cg_flags: b.post_flags };
            let failed = b.degraded || (log[0].outcome is Err && b.path is Nx);
            &&& log.len() >= 1 && log[0].path == b.path && log[0].injection == up
            &&& log[0].outcome is Err && b.path is Nx ==> log.len() == 2 && log[1].path is CgEvent
                && log[1].injection == up && r == log[1].outcome
            &&& !(log[0].outcome is Err && b.path is Nx) ==> log.len() == 1 && r == log[0].outcome
            &&& r is Ok ==> a.pressed == b.pressed.remove(key_code)
            &&& r is Err ==> a.pressed == b.pressed
            &&& a.held == b.held && a.remote_flags == b.remote_flags && a.post_flags == b.post_flags
                && a.local_flags == b.local_flags && a.logged == b.logged
            &&& gives_up(failed, b.path, a.pressed, b.held) ==> a.path is CgEvent && !a.degraded
                && a.dropped == 0
            &&& !gives_up(failed, b.path, a.pressed, b.held) ==> a.path == b.path && a.degraded
                == failed && a.dropped == b.dropped
        }),
{
}

/// Caps Lock is tapped once, down and up with the same flags; a tap that does not land is dropped, and
/// one that lands and is not released stays recorded as pressed.
pub proof fn law_taps_go_down_and_up<S: KeySink>(
    injector: &mut KeyboardInjector<S>,
    key_code: u16,
    r: Result<(), i32>,
)
    requires
        call_ensures(KeyboardInjector::<S>::caps_tap, (injector, key_code), r),
        !old(injector).board().degraded,
    ensures
        ({
            let (b, a) = (old(injector).board(), final(injector).board());
            let log = final(injector).since(old(injector));
            let down = Injection::Key { key_code, down: true, cg_flags: b.post_flags };
            let up = Injection::Key { key_code, down: false, cg_flags: b.post_flags };
            &&& log.len() >= 1 && log[0].path == b.path && log[0].injection == down
            &&& log[0].outcome is Err ==> r is Ok && log.len() == 1 && a.pressed == b.pressed
                && a.path == b.path && a.degraded == (b.path is Nx)
            &&& log[0].outcome is Ok ==> {
                &&& log.len() >= 2 && log[1].path == b.path && log[1].injection == up
                &&& log[1].outcome is Err && b.path is Nx ==> log.len() == 3 && log[2].path is CgEvent
                    && log[2].injection == up && r == log[2].outcome
                &&& !(log[1].outcome is Err && b.path is Nx) ==> log.len() == 2 && r
                    == log[1].outcome
                &&& r is Ok ==> a.pressed == b.pressed
                &&& r is Err ==> a.pressed == b.pressed.insert(key_code)
                &&& log[1].outcome is Err && b.path is Nx && !(a.pressed.is_empty() && b.held
                    == Set::<ModifierSide>::empty()) ==> a.degraded && a.path is Nx
            }
            &&& a.held == b.held && a.post_flags == b.post_flags && a.remote_flags == b.remote_flags
        }),
{
    let log = final(injector).since(old(injector));
    if log.len() > 1 {
        let up = log.skip(1);
        assert(up[0] == log[1]);
        if up.len() == 2 {
            assert(up[1] == log[2]);
        }
    }
}

/// A tap that comes while the failed path is cleaned up is held back like any press.
pub proof fn law_taps_are_held_back<S: KeySink>(
    injector: &mut KeyboardInjector<S>,
    key_code: u16,
    r: Result<(), i32>,
)
    requires
        call_ensures(KeyboardInjector::<S>::caps_tap, (injector, key_code), r),
        old(injector).board().degraded,
        old(injector).board().dropped < u64::MAX,
    ensures
        r is Ok,
        final(injector).since(old(injector)).len() == 0,
        final(injector).board() == (Board {
            dropped: (old(injector).board().dropped + 1) as u64,
            ..old(injector).board()
        }),
{
}

/// The attempts of a snapshot are the steps to the sides that it wants, one each, in order and on the
/// current path: the code of the side that changes, and the flags of what is held then beside those of
/// the local keyboard. They stop at the first that fails; what is recorded as held is what the last one
/// that was taken said.
pub proof fn law_snapshots_are_posted_step_by_step<S: KeySink>(
    injector: &mut KeyboardInjector<S>,
    kinds: ModifierKinds,
    known: ModifierSides,
    local_flags: u32,
    r: bool,
    held: ModifierSides,
    wanted: ModifierSides,
    kept: u32,
    steps: Vec<(ModifierSide, ModifierSides)>,
)
    requires
        call_ensures(
            KeyboardInjector::<S>::sync_modifiers,
            (injector, kinds, known, local_flags),
            r,
        ),
        held@ == old(injector).board().held,
        call_ensures(desired_sides, (kinds, known), wanted),
        call_ensures(transitions, (held, wanted), steps),
        call_ensures(
            locally_held_flags,
            (local_flags, old(injector).board().remote_flags),
            kept,
        ),
    ensures
        ({
            let (b, a) = (old(injector).board(), final(injector).board());
            let log = final(injector).since(old(injector));
            &&& log.len() <= steps@.len()
            &&& forall|i: int|
                0 <= i < log.len() ==> {
                    &&& (#[trigger] log[i]).path == b.path
                    &&& log[i].injection matches Injection::Modifiers { key_code, flags }
                    &&& forall|code: u16| #[trigger]
                        call_ensures(ModifierSide::key_code, (steps@[i].0,), code) ==> key_code == code
                    &&& forall|said: u32| #[trigger]
                        call_ensures(flags_for, (steps@[i].1,), said) ==> flags == kept | said
                }
            &&& forall|i: int| 0 <= i < log.len() - 1 ==> (#[trigger] log[i]).outcome is Ok
            &&& log.len() < steps@.len() ==> log.len() > 0 && log.last().outcome is Err
            &&& log.len() > 0 && log.last().outcome is Ok ==> a.held == steps@[log.len() - 1].1@
            &&& log.len() > 1 && log.last().outcome is Err ==> a.held == steps@[log.len() - 2].1@
            &&& log.len() == 0 || (log.len() == 1 && log[0].outcome is Err) ==> a.held == b.held
            &&& a.pressed == b.pressed && a.local_flags == local_flags
            &&& log.len() > 0 && log.last().outcome is Err && b.path is Nx ==> a.degraded || a.path
                is CgEvent
            &&& !b.degraded && (log.len() == 0 || log.last().outcome is Ok) ==> a.path == b.path
                && !a.degraded
            &&& a.logged is Some && (r <==> a.logged != b.logged)
            &&& a.logged->0.kinds == kinds && a.logged->0.known == known
            &&& a.logged->0.observed_flags == local_flags && a.logged->0.injected_sides@ == a.held
                && a.logged->0.posted_flags == a.post_flags
        }),
{
    let (b, a) = (old(injector).board(), final(injector).board());
    let log = final(injector).since(old(injector));
    let start = Board { local_flags, ..b };
    let v = steps_view(steps@);
    assert(v == steps_between(b.held, crate::keyboard::wanted(kinds, known@)));
    let mid = choose|mid: Board|
        {
            &&& #[trigger] steps_posted(start, local_part(local_flags, b.remote_flags), v, log, mid)
            &&& (Board { logged: b.logged, ..a }) == mid.settled()
        };
    lemma_posted(start, kept, v, log, mid);
    assert forall|i: int| 0 <= i < v.len() implies #[trigger] v[i] == (steps@[i].0, steps@[i].1@) by {}
}

/// What posting steps one after the other comes to.
proof fn lemma_posted(
    before: Board,
    local: u32,
    steps: Seq<(ModifierSide, Set<ModifierSide>)>,
    log: Seq<Attempt>,
    after: Board,
)
    requires
        steps_posted(before, local, steps, log, after),
    ensures
        log.len() <= steps.len(),
        forall|i: int|
            0 <= i < log.len() ==> (#[trigger] log[i]).path == before.path && log[i].injection
                == (Injection::Modifiers {
                key_code: steps[i].0.code(),
                flags: local | crate::keyboard::flags_of(steps[i].1),
            }),
        forall|i: int| 0 <= i < log.len() - 1 ==> (#[trigger] log[i]).outcome is Ok,
        log.len() < steps.len() ==> log.len() > 0 && log.last().outcome is Err,
        log.len() > 0 && log.last().outcome is Ok ==> after.held == steps[log.len() - 1].1,
        log.len() > 1 && log.last().outcome is Err ==> after.held == steps[log.len() - 2].1,
        log.len() == 0 || (log.len() == 1 && log[0].outcome is Err) ==> after.held == before.held,
        after.pressed == before.pressed && after.local_flags == before.local_flags && after.path
            == before.path && after.logged == before.logged,
        log.len() > 0 && log.last().outcome is Err && before.path is Nx ==> after.degraded,
        log.len() == 0 || log.last().outcome is Ok ==> after.degraded == before.degraded,
    decreases steps.len(),
{
    if steps.len() > 0 && log[0].outcome is Ok {
        let (side, held) = steps[0];
        let flags = local | crate::keyboard::flags_of(held);
        let next = Board {
            held,
            remote_flags: crate::keyboard::flags_of(held),
            post_flags: flags,
            ..before
        };
        let rest = log.skip(1);
        lemma_posted(next, local, steps.skip(1), rest, after);
        assert forall|i: int| 0 < i < log.len() implies #[trigger] log[i] == rest[i - 1] by {}
        assert forall|i: int| 0 < i < steps.len() implies #[trigger] steps[i] == steps.skip(
            1,
        )[i - 1] by {}
        if rest.len() > 0 {
            assert(log.last() == rest.last());
        }
    }
}

/// A snapshot whose steps are all taken leaves exactly the sides that it wants held, and one that wants
/// what is held posts nothing.
pub proof fn law_snapshots_take_hold<S: KeySink>(
    injector: &mut KeyboardInjector<S>,
    kinds: ModifierKinds,
    known: ModifierSides,
    local_flags: u32,
    r: bool,
    wanted: ModifierSides,
)
    requires
        call_ensures(
            KeyboardInjector::<S>::sync_modifiers,
            (injector, kinds, known, local_flags),
            r,
        ),
        call_ensures(desired_sides, (kinds, known), wanted),
    ensures
        ({
            let (b, a) = (old(injector).board(), final(injector).board());
            let log = final(injector).since(old(injector));
            &&& (forall|i: int| 0 <= i < log.len() ==> (#[trigger] log[i]).outcome is Ok) ==> a.held
                == wanted@
            &&& b.held == wanted@ ==> log.len() == 0 && a.held == b.held
        }),
{
    let (b, a) = (old(injector).board(), final(injector).board());
    let log = final(injector).since(old(injector));
    let after = Board { logged: b.logged, ..a };
    if forall|i: int| 0 <= i < log.len() ==> (#[trigger] log[i]).outcome is Ok {
        law_a_snapshot_that_is_taken_is_held(b, kinds, known@, local_flags, log, after);
    }
    if b.held == wanted@ {
        law_a_repeated_snapshot_is_silent(b, kinds, known@, local_flags, log, after);
    }
}

/// Cleanup tries to release every key and every side that is down, on the current path first, and nothing
/// else; what remains is what was refused each time, and that is what it reports.
pub proof fn law_cleanup_releases_what_is_down<S: KeySink>(
    injector: &mut KeyboardInjector<S>,
    r: CleanupResidue,
    done: bool,
)
    requires
        call_ensures(KeyboardInjector::<S>::release_all, (injector,), r),
        call_ensures(CleanupResidue::is_empty, (r,), done),
    ensures
        ({
            let (b, a) = (old(injector).board(), final(injector).board());
            let log = final(injector).since(old(injector));
            &&& r.pressed_keys == a.pressed.len() && r.modifier_sides@ == a.held
            &&& done <==> a.pressed.len() == 0 && a.held == Set::<ModifierSide>::empty()
            &&& forall|key: u16| #[trigger]
                b.pressed.contains(key) ==> exists|i: int|
                    0 <= i < log.len() && frees_key((#[trigger] log[i]).injection, key)
            &&& forall|side: ModifierSide| #[trigger]
                b.held.contains(side) ==> exists|i: int|
                    0 <= i < log.len() && frees_side((#[trigger] log[i]).injection, side)
            &&& forall|key: u16| #[trigger]
                a.pressed.contains(key) <==> b.pressed.contains(key) && forall|i: int|
                    0 <= i < log.len() && frees_key((#[trigger] log[i]).injection, key)
                        ==> log[i].outcome is Err
            &&& forall|side: ModifierSide| #[trigger]
                a.held.contains(side) <==> b.held.contains(side) && forall|i: int|
                    0 <= i < log.len() && frees_side((#[trigger] log[i]).injection, side)
                        ==> log[i].outcome is Err
        }),
{
    let (b, a) = (old(injector).board(), final(injector).board());
    let log = final(injector).since(old(injector));
    law_cleanup_keeps_what_was_refused(b, log, a);
    assert forall|key: u16| #[trigger] b.pressed.contains(key) implies exists|i: int|
        0 <= i < log.len() && frees_key((#[trigger] log[i]).injection, key) by {
        assert(crate::injector::key_tried(log, key));
    }
    assert forall|side: ModifierSide| #[trigger] b.held.contains(side) implies exists|i: int|
        0 <= i < log.len() && frees_side((#[trigger] log[i]).injection, side) by {
        assert(crate::injector::side_tried(log, side));
    }
    assert forall|key: u16| #[trigger]
        a.pressed.contains(key) <==> b.pressed.contains(key) && forall|i: int|
            0 <= i < log.len() && frees_key((#[trigger] log[i]).injection, key)
                ==> log[i].outcome is Err by {
        assert(a.pressed.contains(key) <==> b.pressed.contains(key)
            && crate::injector::key_refused(log, key));
    }
    assert forall|side: ModifierSide| #[trigger]
        a.held.contains(side) <==> b.held.contains(side) && forall|i: int|
            0 <= i < log.len() && frees_side((#[trigger] log[i]).injection, side)
                ==> log[i].outcome is Err by {
        assert(a.held.contains(side) <==> b.held.contains(side) && crate::injector::side_refused(
            log,
            side,
        ));
    }
}

/// Cleanup begins on the current path, and what the IOHID path refuses is tried again at once through the
/// fallback.
pub proof fn law_cleanup_is_retried<S: KeySink>(
    injector: &mut KeyboardInjector<S>,
    r: CleanupResidue,
)
    requires
        call_ensures(KeyboardInjector::<S>::release_all, (injector,), r),
    ensures
        ({
            let log = final(injector).since(old(injector));
            &&& log.len() > 0 ==> log[0].path == old(injector).board().path
            &&& forall|i: int|
                0 <= i < log.len() && (#[trigger] log[i]).outcome is Err && log[i].path is Nx ==> i + 1
                    < log.len() && log[i + 1].path is CgEvent && log[i + 1].injection
                    == log[i].injection
        }),
{
    let log = final(injector).since(old(injector));
    lemma_cleanup_retried(old(injector).board(), log, final(injector).board());
    assert forall|i: int|
        0 <= i < log.len() && (#[trigger] log[i]).outcome is Err && log[i].path is Nx implies i + 1
        < log.len() && log[i + 1].path is CgEvent && log[i + 1].injection == log[i].injection by {
        assert(answered(log, i));
    }
}

proof fn lemma_cleanup_retried(b: Board, log: Seq<Attempt>, a: Board)
    requires
        crate::injector::all_released(b, log, a),
    ensures
        retried(b.path, log),
{
    let (keys, n, mid, last, left) = choose|
        keys: Seq<u16>,
        n: int,
        mid: Board,
        last: Board,
        left: Set<ModifierSide>,
    |
        {
            &&& crate::injector::lists(keys, b.pressed)
            &&& 0 <= n <= log.len()
            &&& #[trigger] keys_released(b, b.path, keys, log.take(n), mid)
            &&& #[trigger] sides_released(
                mid,
                b.path,
                local_part(mid.local_flags, mid.remote_flags),
                steps_between(mid.held, Set::empty()),
                Set::empty(),
                log.skip(n),
                last,
                left,
            )
            &&& a == (Board { held: left, ..last }).settled()
        };
    lemma_keys_retried(b, b.path, keys, log.take(n), mid);
    lemma_sides_retried(
        mid,
        b.path,
        local_part(mid.local_flags, mid.remote_flags),
        steps_between(mid.held, Set::empty()),
        Set::empty(),
        log.skip(n),
        last,
        left,
    );
    lemma_joined(b.path, n, log);
}

/// Whether an attempt that the IOHID path refused is tried again through the fallback.
pub open spec fn answered(log: Seq<Attempt>, i: int) -> bool {
    0 <= i < log.len() && log[i].outcome is Err && log[i].path is Nx ==> i + 1 < log.len() && log[i
        + 1].path is CgEvent && log[i + 1].injection == log[i].injection
}

/// Whether each failure of the IOHID path is tried again through the fallback.
pub open spec fn retried(path: InjectionPath, log: Seq<Attempt>) -> bool {
    &&& log.len() > 0 ==> log[0].path == path
    &&& forall|i: int| #[trigger] answered(log, i)
}

/// What is tried again in both parts is tried again in the whole.
proof fn lemma_joined(path: InjectionPath, n: int, log: Seq<Attempt>)
    requires
        0 <= n <= log.len(),
        retried(path, log.take(n)),
        retried(path, log.skip(n)),
    ensures
        retried(path, log),
{
    let (first, rest) = (log.take(n), log.skip(n));
    if log.len() > 0 {
        if n == 0 {
            assert(log[0] == rest[0]);
        } else {
            assert(log[0] == first[0]);
        }
    }
    assert forall|i: int| #[trigger] answered(log, i) by {
        assert(answered(first, i));
        assert(answered(rest, i - n));
    }
}

/// A release is tried again where the IOHID path refuses it.
proof fn lemma_retried(path: InjectionPath, injection: Injection, n: int, log: Seq<Attempt>)
    requires
        n == release_attempts(path, log),
        n <= log.len(),
        is_release(path, injection, log.take(n)),
        retried(path, log.skip(n)),
    ensures
        retried(path, log),
{
    let first = log.take(n);
    assert(first[0] == log[0]);
    assert forall|i: int| #[trigger] answered(first, i) by {}
    lemma_joined(path, n, log);
}

proof fn lemma_keys_retried(
    before: Board,
    path: InjectionPath,
    keys: Seq<u16>,
    log: Seq<Attempt>,
    after: Board,
)
    requires
        keys_released(before, path, keys, log, after),
    ensures
        retried(path, log),
    decreases keys.len(),
{
    if keys.len() > 0 {
        let n = release_attempts(path, log);
        lemma_keys_retried(
            crate::injector::key_freed(before, path, keys[0], log.take(n)),
            path,
            keys.skip(1),
            log.skip(n),
            after,
        );
        lemma_retried(
            path,
            crate::injector::key_event(keys[0], false, before.post_flags),
            n,
            log,
        );
    }
}

proof fn lemma_sides_retried(
    before: Board,
    path: InjectionPath,
    local: u32,
    steps: Seq<(ModifierSide, Set<ModifierSide>)>,
    stuck: Set<ModifierSide>,
    log: Seq<Attempt>,
    after: Board,
    left: Set<ModifierSide>,
)
    requires
        sides_released(before, path, local, steps, stuck, log, after, left),
    ensures
        retried(path, log),
    decreases steps.len(),
{
    if steps.len() > 0 {
        let n = release_attempts(path, log);
        let first = log.take(n);
        let (side, held) = steps[0];
        let flags = local | crate::keyboard::flags_of(held);
        let tried = before.tried(path, log[0].outcome);
        if first.last().outcome is Ok {
            lemma_sides_retried(
                Board {
                    remote_flags: crate::keyboard::flags_of(held),
                    post_flags: flags,
                    ..tried
                },
                path,
                local,
                steps.skip(1),
                stuck,
                log.skip(n),
                after,
                left,
            );
        } else {
            lemma_sides_retried(
                tried,
                path,
                local,
                steps.skip(1),
                stuck.insert(side),
                log.skip(n),
                after,
                left,
            );
        }
        lemma_retried(path, Injection::Modifiers { key_code: side.code(), flags }, n, log);
    }
}

/// A single release is posted on the given path, and through the fallback where the IOHID path fails.
pub proof fn law_a_release_is_retried<S: KeySink>(
    injector: &mut KeyboardInjector<S>,
    path: InjectionPath,
    injection: Injection,
    r: Result<(), i32>,
)
    requires
        call_ensures(KeyboardInjector::<S>::release, (injector, path, injection), r),
    ensures
        ({
            let (b, a) = (old(injector).board(), final(injector).board());
            let log = final(injector).since(old(injector));
            &&& log.len() >= 1 && log[0].path == path && log[0].injection == injection
            &&& log[0].outcome is Err && path is Nx ==> log.len() == 2 && log[1].path is CgEvent
                && log[1].injection == injection && r == log[1].outcome && a == (Board {
                degraded: true,
                ..b
            })
            &&& !(log[0].outcome is Err && path is Nx) ==> log.len() == 1 && r == log[0].outcome && a
                == b
        }),
{
}

/// A new injector has told macOS nothing and uses the path that its sink prefers.
pub proof fn law_new_injectors_hold_nothing<S: KeySink>(
    sink: S,
    session: u64,
    r: KeyboardInjector<S>,
    path: InjectionPath,
    id: u64,
    residue: CleanupResidue,
    done: bool,
)
    requires
        call_ensures(KeyboardInjector::<S>::new, (sink, session), r),
        call_ensures(KeyboardInjector::<S>::current_path, (&r,), path),
        call_ensures(KeyboardInjector::<S>::session, (&r,), id),
        call_ensures(KeyboardInjector::<S>::pending, (&r,), residue),
        call_ensures(CleanupResidue::is_empty, (residue,), done),
    ensures
        call_ensures(S::preferred_path, (&sink,), path),
        id == session,
        done,
        !r.board().degraded,
        r.board().dropped == 0,
        r.attempts().len() == 0,
{
    assert(r.board().pressed.len() == 0);
}

/// A snapshot is logged where it differs from the last one, and is the last one from then on.
pub proof fn law_repeated_snapshots_are_not_logged(
    state: &mut InjectorState,
    again: &mut InjectorState,
    entry: SnapshotLog,
    first: bool,
    second: bool,
)
    requires
        call_ensures(snapshot_changed, (state, entry), first),
        *old(again) == *final(state),
        call_ensures(snapshot_changed, (again, entry), second),
    ensures
        first <==> old(state).last_snapshot_log != Some(entry),
        !second,
        final(again).board() == final(state).board(),
        final(state).board().pressed == old(state).board().pressed && final(state).board().held
            == old(state).board().held,
{
    assert(final(state).board().logged == Some(entry));
}

/// Dropped presses are reported at the first and then at every 64th; ordinary keys that are posted never.
pub proof fn law_reports_are_sparse(
    dropped: u64,
    injection: Injection,
    reported: bool,
    shown: bool,
)
    requires
        call_ensures(drop_is_reported, (dropped,), reported),
        call_ensures(submission_is_reported, (injection,), shown),
    ensures
        dropped == 1 ==> reported,
        dropped % 64 == 0 ==> reported,
        dropped != 1 && dropped % 64 != 0 ==> !reported,
        injection is Modifiers ==> shown,
        injection matches Injection::Key { key_code, .. } ==> (shown <==> 0x36 <= key_code <= 0x3E
            || 0x7B <= key_code <= 0x7E),
{
    if let Injection::Key { key_code, .. } = injection {
        if 0x36 <= key_code <= 0x3E && key_code != 0x39 {
            crate::keyboard_laws::lemma_modifiers(key_code);
        }
    }
}

} // verus!
