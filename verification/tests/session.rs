//! Sessions on a virtual clock and a lossy wire.

use mousehop::engine::{CLOCK_LIMIT, CLOCK_TURN, NUMBER_LIMIT, OUTPUT_CAPACITY, SIGN};
use mousehop::fault::Fault;
use mousehop::frame::{Frame, MTU};
use mousehop::policy::{PeerTimeout, StallTimeout, Timeouts};
use mousehop::session::Session;

/// The length of the longest display layout.
const LAYOUT: usize = 4096;

fn said(result: Result<(), Fault>) -> Result<(), &'static str> {
    result.map_err(|fault| fault.reason())
}

trait Wire {
    fn new(dialer: bool, id: u64, conv: u32, now: u64) -> Self;
    fn drain(&mut self) -> Vec<Vec<u8>>;
}

impl Wire for Session {
    fn new(dialer: bool, id: u64, conv: u32, now: u64) -> Self {
        let timeouts = Timeouts {
            stall: StallTimeout::try_from(300).unwrap(),
            peer: PeerTimeout::try_from(1500).unwrap(),
        };
        Session::with_timeout(dialer, id, conv, now, timeouts, LAYOUT)
    }

    fn drain(&mut self) -> Vec<Vec<u8>> {
        let mut packets = Vec::new();
        while let Some((_, bytes)) = self.pop_output() {
            packets.push(bytes);
        }
        packets
    }
}

/// An input event: its kind, then its fields.
fn event(n: u32) -> Vec<u8> {
    let key = |key: u32, state: u8| {
        let mut bytes = vec![1];
        bytes.extend(n.to_le_bytes());
        bytes.extend(key.to_le_bytes());
        bytes.push(state);
        bytes
    };
    let button = |state: u32| {
        let mut bytes = vec![2];
        bytes.extend(n.to_le_bytes());
        bytes.extend(272u32.to_le_bytes());
        bytes.extend(state.to_le_bytes());
        bytes
    };
    match n % 8 {
        0 => {
            let mut bytes = vec![0];
            bytes.extend((n + 1).to_le_bytes());
            bytes.extend(0u32.to_le_bytes());
            bytes
        }
        1 => key(29, 1),
        2 => key(30, 1),
        3 => key(30, 0),
        4 => button(1),
        5 => {
            let mut bytes = vec![3];
            bytes.extend(n.to_le_bytes());
            bytes.extend(3.0f64.to_le_bytes());
            bytes.extend((-2.0f64).to_le_bytes());
            bytes
        }
        6 => button(0),
        _ => {
            let mut bytes = vec![4, 0];
            bytes.extend(120i32.to_le_bytes());
            bytes
        }
    }
}

fn pair() -> (Session, Session) {
    let mut a = Session::new(true, 31, 7, 0);
    let mut b = Session::new(false, 0, 0, 0);
    a.hello(true, 0).unwrap();
    b.hello(true, 0).unwrap();
    exchange(&mut a, &mut b, 0, false);
    exchange(&mut a, &mut b, 10, false);
    (a, b)
}

#[test]
fn idle_network_pause_recovers_without_reconnecting() {
    for pause in [350, 700, 1200] {
        let (mut a, mut b) = pair();
        for now in (20..=pause).step_by(10) {
            a.tick(now).unwrap();
            b.tick(now).unwrap();
            // Drop every datagram during this idle network pause.
            a.drain();
            b.drain();
        }
        exchange(&mut a, &mut b, pause + 20, false);
        a.send(&event(1), pause + 30).unwrap();
        exchange(&mut a, &mut b, pause + 40, false);
        let (sequence, bytes) = b.receive().expect("same session resumes input");
        assert_eq!(bytes, event(1));
        b.processed(sequence, pause + 40).unwrap();
        exchange(&mut a, &mut b, pause + 50, false);
        assert!(a.ready() && b.ready());
    }
}

#[test]
fn total_silence_after_consumed_key_down_still_closes_both_peers() {
    let (mut a, mut b) = pair();
    a.send(&event(1), 20).unwrap();
    exchange(&mut a, &mut b, 30, false);
    let (sequence, _) = b.receive().unwrap();
    b.processed(sequence, 30).unwrap();
    a.tick(50).unwrap();
    b.tick(50).unwrap();
    exchange(&mut a, &mut b, 50, false);
    // Renew both liveness clocks at a common instant, without changing receipts.
    a.peer_activity(50);
    b.peer_activity(50);
    for now in (60..=1550).step_by(10) {
        a.tick(now).unwrap();
        b.tick(now).unwrap();
        a.drain();
        b.drain();
    }
    for local in [&mut a, &mut b] {
        assert_eq!(said(local.tick(1551)), Err("peer activity timed out"));
        assert!(!local.ready());
    }
}

#[test]
fn authenticated_heartbeats_do_not_extend_reliable_input_guards() {
    for guard in 0..3 {
        let (mut a, mut b) = pair();
        let local = if guard == 0 { &mut a } else { &mut b };
        match guard {
            0 => local.send(&event(1), 20).unwrap(),
            1 => {
                local.input(&segment(81, 1, 1), 20).unwrap();
                local.receive().unwrap();
            }
            _ => progress(local, 1, 20),
        }
        local.drain();
        for now in [100, 200, 300, 320] {
            local.peer_activity(now);
            local.tick(now).unwrap();
            local.drain();
        }
        local.peer_activity(321);
        assert_eq!(said(local.tick(321)), Err("reliable input stalled"));
    }
}

#[test]
fn disconnect_r7_d2_udp_activity_never_renews_reliable_guards() {
    for guard in 0..3 {
        let (mut a, mut b) = pair();
        let local = if guard == 0 { &mut a } else { &mut b };
        match guard {
            0 => local.send(&event(1), 20).unwrap(),
            1 => {
                local.input(&segment(81, 1, 1), 20).unwrap();
                local.receive().unwrap();
            }
            _ => progress(local, 1, 20),
        }
        local.drain();
        for now in [100, 200, 300, 320] {
            local.fresh_motion(0, now);
            assert_eq!(said(local.tick(now)), Ok(()));
            local.drain();
        }
        local.fresh_motion(0, 321);
        assert_eq!(
            said(local.tick(321)),
            Err("reliable input stalled"),
            "guard={guard}"
        );
    }
}

#[test]
fn disconnect_r7_d2_future_motion_starts_but_never_renews_missing_input_deadline() {
    let (_, mut b) = pair();
    b.fresh_motion(1, 20);
    for now in [100, 200, 320] {
        b.fresh_motion(2, now);
        assert_eq!(said(b.tick(now)), Ok(()));
        b.drain();
    }
    b.fresh_motion(3, 321);
    assert_eq!(said(b.tick(321)), Err("reliable input stalled"));
}

#[test]
fn disconnect_r7_d1_output_wait_age_survives_partial_drain() {
    let (mut a, _) = pair();
    a.send(&event(1), 20).unwrap();
    a.send(&event(2), 30).unwrap();
    assert_eq!(a.pop_output().unwrap().0, 20);
    // Taking the first packet must not reset the next packet's original age.
    assert!(!a.output_expired(330));
    assert!(a.output_expired(331));
    assert_eq!(a.pop_output().unwrap().0, 30);
    assert!(!a.has_output());
}

#[test]
fn continuous_receive_progress_does_not_stall() {
    let (_, mut b) = pair();
    let mut received = 0;
    for n in 1u32..=40 {
        let now = u64::from(n) * 50;
        b.input(
            &Frame::Progress {
                id: 31,
                sent: u64::from(n + 1),
                processed: 0,
            }
            .encode(),
            now,
        )
        .unwrap();
        // Valid KCP PUSH segments after the bootstrap (SN 0). Model a
        // progress frame overtaking data by one 50ms batch, without loss.
        let mut message = u64::from(n).to_le_bytes().to_vec();
        message.extend(event(n));
        let mut payload = 7u32.to_le_bytes().to_vec();
        payload.extend([81, 0]);
        payload.extend(128u16.to_le_bytes());
        payload.extend((now as u32 - 50).to_le_bytes());
        payload.extend(n.to_le_bytes());
        payload.extend(0u32.to_le_bytes());
        payload.extend((message.len() as u32).to_le_bytes());
        payload.extend(message);
        b.input(&Frame::Data { id: 31, payload }.encode(), now)
            .unwrap();
        while let Some((seq, bytes)) = b.receive() {
            assert_eq!((seq, bytes), (u64::from(n), event(n)));
            received += 1;
            b.processed(seq, now).unwrap();
        }
        assert_eq!(received, n);
        assert_eq!(said(b.tick(now)), Ok(()), "continuous progress at {now}ms");
        b.drain();
    }
    assert!(b.ready());
    // Deliver the final advertised input and check that the gap was cleared.
    b.input(&segment(81, 41, 41), 2050).unwrap();
    let (seq, bytes) = b.receive().unwrap();
    assert_eq!((seq, bytes), (41, event(41)));
    b.processed(seq, 2050).unwrap();
    progress(&mut b, 41, 2400);
    assert_eq!(said(b.tick(2400)), Ok(()));
    assert!(b.receive().is_none());
}

fn exchange(a: &mut Session, b: &mut Session, now: u64, duplicate: bool) {
    for bytes in a.drain() {
        b.input(&bytes, now).unwrap();
        if duplicate {
            b.input(&bytes, now).unwrap();
        }
    }
    for bytes in b.drain() {
        a.input(&bytes, now).unwrap();
        if duplicate {
            a.input(&bytes, now).unwrap();
        }
    }
}

fn progress(b: &mut Session, sent: u64, now: u64) {
    b.input(
        &Frame::Progress {
            id: 31,
            sent,
            processed: 0,
        }
        .encode(),
        now,
    )
    .unwrap();
}

// A single well-formed KCP segment. SN is the KCP sequence, sequence is the
// application watermark; the acceptor has already consumed bootstrap SN 0.
fn segment(command: u8, sn: u32, sequence: u64) -> Vec<u8> {
    let mut message = sequence.to_le_bytes().to_vec();
    if sequence != 0 {
        message.extend(event(sequence as u32));
    }
    if command == 82 {
        message.clear();
    }
    let mut payload = 7u32.to_le_bytes().to_vec();
    payload.extend([command, 0]);
    payload.extend(128u16.to_le_bytes());
    payload.extend(0u32.to_le_bytes());
    payload.extend(sn.to_le_bytes());
    payload.extend(0u32.to_le_bytes());
    payload.extend((message.len() as u32).to_le_bytes());
    payload.extend(message);
    Frame::Data { id: 31, payload }.encode()
}

#[test]
fn configured_timeout_controls_each_session_guard_in_both_roles() {
    for milliseconds in [100, 300, 1000] {
        for dialer in [false, true] {
            for guard in 0..4 {
                let timeout = Timeouts {
                    stall: StallTimeout::try_from(milliseconds).unwrap(),
                    peer: PeerTimeout::try_from(milliseconds * 2).unwrap(),
                };
                let mut a = Session::with_timeout(true, 31, 7, 0, timeout, LAYOUT);
                let mut b = Session::with_timeout(false, 0, 0, 0, timeout, LAYOUT);
                a.hello(true, 0).unwrap();
                b.hello(true, 0).unwrap();
                exchange(&mut a, &mut b, 0, false);
                exchange(&mut a, &mut b, 10, false);
                let local = if dialer { &mut a } else { &mut b };
                let sent = u64::from(guard == 1 || guard == 3);
                local
                    .input(
                        &Frame::Progress {
                            id: 31,
                            sent,
                            processed: 0,
                        }
                        .encode(),
                        20,
                    )
                    .unwrap();
                if guard == 2 {
                    local.send(&event(1), 20).unwrap();
                }
                if guard == 3 {
                    local
                        .input(&segment(81, u32::from(!dialer), 1), 20)
                        .unwrap();
                    assert!(local.receive().is_some()); // deliberately never consumed
                }
                let limit = if guard == 0 {
                    milliseconds * 2
                } else {
                    milliseconds
                };
                for now in [20 + limit, 21 + limit] {
                    if guard != 0 {
                        local
                            .input(
                                &Frame::Progress {
                                    id: 31,
                                    sent,
                                    processed: 0,
                                }
                                .encode(),
                                now,
                            )
                            .unwrap();
                    }
                    assert_eq!(
                        said(local.tick(now)),
                        if now == 20 + limit {
                            Ok(())
                        } else if guard == 0 {
                            Err("peer activity timed out")
                        } else {
                            Err("reliable input stalled")
                        },
                        "timeout={milliseconds}, dialer={dialer}, guard={guard}"
                    );
                    local.drain();
                }
            }
        }
    }
}

#[test]
fn gap_restarts_only_on_contiguous_input_and_clears_when_caught_up() {
    for caught_up in [false, true] {
        let (_, mut b) = pair();
        progress(&mut b, 2, 50);
        let first = vec![segment(81, 1, 1)];
        for bytes in &first {
            b.input(bytes, 200).unwrap();
        }
        let (seq, _) = b.receive().unwrap();
        b.processed(seq, 200).unwrap();
        if caught_up {
            b.input(&segment(81, 2, 2), 210).unwrap();
            let (seq, _) = b.receive().unwrap();
            b.processed(seq, 210).unwrap();
        }
        // Duplicate data and repeated/increasing Progress keep the peer alive,
        // but may not extend the missing input's deadline.
        for now in [300, 400, 500, 501] {
            progress(&mut b, if caught_up { 2 } else { 3 }, now);
            for bytes in &first {
                b.input(bytes, now).unwrap();
            }
            if now == 501 && !caught_up {
                assert_eq!(said(b.tick(now)), Err("reliable input stalled"));
            } else {
                assert_eq!(said(b.tick(now)), Ok(()));
            }
            b.drain();
        }
        if caught_up {
            progress(&mut b, 3, 600);
            assert_eq!(said(b.tick(900)), Ok(()));
            progress(&mut b, 3, 901);
            assert_eq!(said(b.tick(901)), Err("reliable input stalled"));
        }
    }
}

#[test]
fn bootstrap_ack_only_and_out_of_order_data_do_not_extend_gap() {
    for kind in 0..3 {
        let (_, mut b) = pair();
        progress(&mut b, 2, 50);
        let packet = match kind {
            0 => segment(81, 0, 0), // replayed bootstrap
            1 => segment(82, 0, 0), // ACK only
            _ => segment(81, 2, 2), // SN 1 missing: SN 2 cannot advance receive
        };
        for now in [150, 250, 350] {
            progress(&mut b, 2, now);
            b.input(&packet, now).unwrap();
            assert_eq!(said(b.tick(now)), Ok(()));
            b.drain();
        }
        progress(&mut b, 2, 351);
        assert_eq!(said(b.tick(351)), Err("reliable input stalled"), "kind={kind}");
    }
}

#[test]
fn negotiation_never_buffers_input_or_accepts_unsupported_peer() {
    let mut a = Session::new(true, 1, 1, 0);
    assert!(a.send(&event(1), 0).is_err());
    assert!(a.hello(false, 0).is_err());
}

#[test]
fn lost_ready_is_retried_without_resetting_sequence() {
    let mut a = Session::new(true, 31, 7, 0);
    let mut b = Session::new(false, 0, 0, 0);
    a.hello(true, 0).unwrap();
    b.hello(true, 0).unwrap();
    for p in a.drain() {
        b.input(&p, 0).unwrap();
    }
    b.drain(); // lose Ready
    assert!(!a.ready());
    assert!(!b.ready());
    a.tick(100).unwrap();
    exchange(&mut a, &mut b, 100, true);
    assert!(a.ready());
    a.send(&event(9), 101).unwrap();
    for t in (110..250).step_by(10) {
        a.tick(t).unwrap();
        b.tick(t).unwrap();
        exchange(&mut a, &mut b, t, true);
    }
    let delivered = b.receive().unwrap();
    assert_eq!(delivered.1, event(9));
    assert!(b.receive().is_none());
}

#[test]
fn loss_reorder_duplicate_deliver_once_in_order() {
    let (mut a, mut b) = pair();
    for n in 1..=30 {
        a.send(&event(n), 20).unwrap();
    }
    a.drain(); // lose first send including key-up equivalent
    let mut got = Vec::new();
    for t in (30..300).step_by(10) {
        a.tick(t).unwrap();
        b.tick(t).unwrap();
        let mut packets = a.drain();
        packets.reverse();
        for p in packets {
            b.input(&p, t).unwrap();
            b.input(&p, t).unwrap();
        }
        while let Some((seq, bytes)) = b.receive() {
            got.push(bytes);
            b.processed(seq, t).unwrap();
        }
        exchange(&mut a, &mut b, t, true);
    }
    assert_eq!(got, (1..=30).map(event).collect::<Vec<_>>());
}

#[test]
fn transport_ack_is_not_consumption_and_stall_is_terminal() {
    let (mut a, mut b) = pair();
    a.send(&event(1), 20).unwrap();
    for t in (20..300).step_by(10) {
        a.tick(t).unwrap();
        b.tick(t).unwrap();
        exchange(&mut a, &mut b, t, false);
    }
    assert!(a.tick(321).is_err());
    assert!(a.send(&event(2), 322).is_err());
    assert!(b.tick(601).is_err());
}

#[test]
fn consumption_progress_keeps_a_delayed_scroll_queue_alive_but_duplicates_do_not() {
    for reverse in [false, true] {
        let (a, b) = pair();
        let mut sender = if reverse { b } else { a };
        for n in 0..20 {
            sender.send(&event(n), 20).unwrap();
        }
        sender.drain();
        for n in 1..=7 {
            let now = n * 100;
            sender
                .input(
                    &Frame::Progress {
                        id: 31,
                        sent: 0,
                        processed: n,
                    }
                    .encode(),
                    now,
                )
                .unwrap();
            assert!(sender.tick(now).is_ok(), "consumption advanced at {now}ms");
            sender.drain();
        }
        // A live transport is insufficient: no new application consumption
        // for 301ms must still terminate the stalled session.
        for now in [800, 900, 1000] {
            sender
                .input(
                    &Frame::Progress {
                        id: 31,
                        sent: 0,
                        processed: 7,
                    }
                    .encode(),
                    now,
                )
                .unwrap();
            sender.tick(now).unwrap();
            sender.drain();
        }
        assert_eq!(said(sender.tick(1001)), Err("reliable input stalled"));
    }
}

#[test]
fn idle_progress_does_not_expire_and_buffers_are_bounded() {
    let (mut a, mut b) = pair();
    for t in (20..2000).step_by(10) {
        a.tick(t).unwrap();
        b.tick(t).unwrap();
        exchange(&mut a, &mut b, t, false);
    }
    let mut accepted = 0;
    for n in 0..10000 {
        if a.send(&event(n), 2000).is_err() {
            break;
        }
        accepted += 1;
    }
    assert!(accepted < 256);
    assert!(!a.ready());
}

#[test]
fn old_session_and_malformed_frames_cannot_enter_replacement() {
    let (mut a, mut b) = pair();
    a.send(&event(1), 20).unwrap();
    a.tick(30).unwrap();
    let old = a.drain();
    let mut replacement = Session::new(false, 0, 0, 30);
    replacement.hello(true, 30).unwrap();
    for bytes in old {
        replacement.input(&bytes, 30).unwrap();
    }
    assert!(replacement.receive().is_none());
    assert!(b.input(&[240, 2, 0], 30).is_err());
    assert!(!b.ready());
}

#[test]
fn lost_input_with_only_progress_alive_still_closes_receiver() {
    let (mut a, mut b) = pair();
    a.send(&event(3), 20).unwrap();
    for t in (20..300).step_by(10) {
        a.tick(t).unwrap();
        b.tick(t).unwrap();
        for packet in a.drain() {
            if matches!(Frame::decode(&packet), Some(Frame::Progress { .. })) {
                b.input(&packet, t).unwrap();
            }
        }
        for packet in b.drain() {
            a.input(&packet, t).unwrap();
        }
    }
    assert!(a.tick(321).is_err());
    assert!(b.tick(401).is_err());
}

#[test]
fn seeded_loss_matrix_reports_input_latency_and_legacy_loss() {
    for threshold in [200, 300, 500] {
        for loss in [1u32, 5, 10] {
            let (mut a, mut b) = pair();
            a.set_stall_ms(threshold);
            b.set_stall_ms(threshold);
            let mut seed = 0xC0FFEEu32;
            let mut pending = Vec::<(u64, bool, Vec<u8>)>::new();
            let mut sent_times = Vec::new();
            let mut got = Vec::new();
            let mut latencies = Vec::new();
            let mut aborted = false;
            for t in (20..3020).step_by(10) {
                if a.tick(t).is_err() || b.tick(t).is_err() {
                    assert!(a.send(&event(1), t).is_err() || b.send(&event(1), t).is_err());
                    assert!(a.tick(t + threshold + 1).is_err());
                    assert!(b.tick(t + threshold + 1).is_err());
                    aborted = true;
                    break;
                }
                if t <= 2000 && (t - 20) % 20 == 0 {
                    let n = sent_times.len() as u32 + 1;
                    a.send(&event(n), t).unwrap();
                    sent_times.push(t);
                }
                for (direction, packets) in [(true, a.drain()), (false, b.drain())] {
                    for packet in packets {
                        seed = seed.wrapping_mul(1664525).wrapping_add(1013904223);
                        if seed % 100 < loss {
                            continue;
                        }
                        let due = t + 10 + ((seed >> 8) % 3) as u64 * 10;
                        pending.push((due, direction, packet.clone()));
                        if seed % 7 == 0 {
                            pending.push((due + 10, direction, packet));
                        }
                    }
                }
                pending.reverse();
                let mut future = Vec::new();
                for (due, direction, bytes) in pending.drain(..) {
                    if due > t {
                        future.push((due, direction, bytes));
                        continue;
                    }
                    if direction {
                        b.input(&bytes, t).unwrap();
                    } else {
                        a.input(&bytes, t).unwrap();
                    }
                }
                pending = future;
                while let Some((seq, bytes)) = b.receive() {
                    assert_eq!(seq as usize, got.len() + 1);
                    latencies.push(t - sent_times[got.len()]);
                    got.push(bytes);
                    b.processed(seq, t).unwrap();
                }
            }
            assert_eq!(got, (1..=got.len() as u32).map(event).collect::<Vec<_>>());
            if !aborted {
                assert_eq!(got.len(), sent_times.len());
            }
            // Legacy comparison: same delay/loss/duplication model, independent wire trace
            // because KCP emits retransmissions, ACKs and progress packets.
            let mut legacy_seed = 0xC0FFEEu32;
            let mut legacy_lost = 0;
            let mut legacy_duplicates = 0;
            let mut legacy_latency = Vec::new();
            let mut lost_release = 0;
            for n in 1..=100 {
                legacy_seed = legacy_seed.wrapping_mul(1664525).wrapping_add(1013904223);
                if legacy_seed % 100 < loss {
                    legacy_lost += 1;
                    if n % 8 == 3 || n % 8 == 6 {
                        lost_release += 1;
                    }
                } else {
                    legacy_latency.push(10 + ((legacy_seed >> 8) % 3) * 10);
                    legacy_duplicates += u32::from(legacy_seed % 7 == 0);
                }
            }
            latencies.sort();
            legacy_latency.sort();
            println!(
                "threshold={threshold}ms loss={loss}% KCP={}/{} duplicates=0 abort={aborted} P95={}ms P99={}ms; legacy lost={legacy_lost}/100 lost_release={lost_release} duplicates={legacy_duplicates} P95={}ms P99={}ms (virtual input transport)",
                got.len(),
                sent_times.len(),
                latencies[latencies.len() * 95 / 100],
                latencies[latencies.len() * 99 / 100],
                legacy_latency[legacy_latency.len() * 95 / 100],
                legacy_latency[legacy_latency.len() * 99 / 100]
            );
        }
    }
}

#[test]
fn bursts_below_budget_recover_and_long_outage_closes_both_sides() {
    for burst in [100, 200, 300, 500] {
        let (mut a, mut b) = pair();
        a.send(&event(3), 20).unwrap();
        let mut failed_a = false;
        let mut failed_b = false;
        let mut got = Vec::new();
        for t in (20..1800).step_by(10) {
            failed_a |= a.tick(t).is_err();
            failed_b |= b.tick(t).is_err();
            if t < 20 + burst {
                a.drain();
                b.drain();
                continue;
            }
            if failed_a || failed_b {
                continue;
            }
            exchange(&mut a, &mut b, t, false);
            while let Some((seq, bytes)) = b.receive() {
                got.push(bytes);
                b.processed(seq, t).unwrap();
            }
        }
        if burst == 100 {
            assert_eq!(got, vec![event(3)]);
            assert!(!failed_a && !failed_b);
        }
        if burst >= 300 {
            assert!(failed_a && failed_b);
        }
        println!(
            "burst={burst}ms delivered={} sender_abort={failed_a} receiver_abort={failed_b}",
            got.len()
        );
    }
}

#[test]
fn disconnect_r7_d1_full_callback_and_control_queues_drain_without_loss() {
    let mut session = Session::new(true, 31, 7, 0);
    for n in 0..OUTPUT_CAPACITY {
        assert!(session.queue(vec![n as u8; MTU]));
    }
    assert!(!session.queue(vec![0]));
    for _ in 0..64 {
        session.offer().unwrap();
    }
    let packets = session.drain();
    assert_eq!(packets.len(), OUTPUT_CAPACITY + 64);
    let data: Vec<_> = packets
        .iter()
        .filter_map(|bytes| match Frame::decode(bytes) {
            Some(Frame::Data { payload, .. }) => Some(payload),
            _ => None,
        })
        .collect();
    assert_eq!(data.len(), OUTPUT_CAPACITY);
    for (n, payload) in data.iter().enumerate() {
        assert_eq!(payload, &vec![n as u8; MTU]);
    }
    assert!(!session.has_output());
}

/// A datagram of one push segment for each of the given bodies, numbered on from `sn`.
fn pushes(sn: u32, bodies: &[&[u8]]) -> Vec<u8> {
    let mut payload = Vec::new();
    for (i, body) in bodies.iter().enumerate() {
        payload.extend(7u32.to_le_bytes());
        payload.extend([81, 0]);
        payload.extend(128u16.to_le_bytes());
        payload.extend(0u32.to_le_bytes());
        payload.extend((sn + i as u32).to_le_bytes());
        payload.extend(0u32.to_le_bytes());
        payload.extend((body.len() as u32).to_le_bytes());
        payload.extend(*body);
    }
    Frame::Data { id: 31, payload }.encode()
}

#[test]
fn sessions_name_what_they_refuse() {
    let mut fresh = Session::new(true, 31, 7, 0);
    assert_eq!(said(fresh.send(&event(1), 0)), Err("KCP not ready"));
    assert_eq!(
        said(fresh.input(&segment(81, 1, 1), 0)),
        Err("transport before Hello")
    );
    assert_eq!(said(fresh.tick(1)), Err("closed"));
    assert_eq!(said(fresh.hello(true, 1)), Err("closed"));
    assert_eq!(said(fresh.processed(1, 1)), Err("closed"));

    let mut a = Session::new(true, 31, 7, 0);
    assert_eq!(
        said(a.hello(false, 0)),
        Err("peer does not support required KCP")
    );

    let (_, mut b) = pair();
    assert_eq!(said(b.input(&[240, 2, 0], 20)), Err("invalid transport frame"));

    let (_, mut b) = pair();
    let other = Frame::Offer { id: 32, conv: 7 }.encode();
    assert_eq!(said(b.input(&other, 20)), Err("renegotiation forbidden"));

    let mut a = Session::new(true, 31, 7, 0);
    a.hello(true, 0).unwrap();
    assert_eq!(said(a.input(&segment(81, 0, 0), 0)), Err("data before Ready"));

    let (mut a, _) = pair();
    let offer = Frame::Offer { id: 31, conv: 7 }.encode();
    assert_eq!(
        said(a.input(&offer, 20)),
        Err("unexpected session/negotiation frame")
    );
}

#[test]
fn received_messages_are_held_to_their_form() {
    let (_, mut b) = pair();
    let foreign = Frame::Data {
        id: 31,
        payload: vec![0; 24],
    };
    assert_eq!(said(b.input(&foreign.encode(), 20)), Err("invalid KCP segment"));

    let (_, mut b) = pair();
    let elsewhere = Frame::Data {
        id: 32,
        payload: vec![0; 24],
    };
    assert_eq!(said(b.input(&elsewhere.encode(), 20)), Ok(()));
    assert!(b.ready());

    let (_, mut b) = pair();
    assert_eq!(
        said(b.input(&segment(81, 1, 5), 20)),
        Err("invalid input sequence")
    );

    let (_, mut b) = pair();
    assert_eq!(said(b.input(&pushes(1, &[&[1, 2, 3]]), 20)), Err("receive budget"));

    let (mut a, _) = pair();
    let early = Frame::Progress {
        id: 31,
        sent: 0,
        processed: 1,
    };
    assert_eq!(
        said(a.input(&early.encode(), 20)),
        Err("future processing acknowledgement")
    );

    let (_, mut b) = pair();
    assert_eq!(said(b.processed(1, 20)), Err("out of order consumption"));
}

#[test]
fn deadlines_of_negotiation_and_output_close() {
    let mut b = Session::new(false, 0, 0, 0);
    b.hello(true, 0).unwrap();
    assert_eq!(said(b.tick(5999)), Ok(()));
    assert_eq!(said(b.tick(6000)), Err("KCP negotiation timeout"));
    let mut a = Session::new(true, 31, 7, 0);
    a.hello(true, 0).unwrap();
    assert_eq!(said(a.tick(300)), Ok(()));
    assert_eq!(said(a.tick(301)), Err("DTLS output stalled"));
}

#[test]
fn budgets_are_enforced_and_named() {
    let (mut a, _) = pair();
    assert_eq!(said(a.send(&vec![1; LAYOUT + 64], 20)), Ok(()));
    let (mut a, _) = pair();
    assert_eq!(
        said(a.send(&vec![1; LAYOUT + 65], 20)),
        Err("reliable input budget")
    );
    let mut a = Session::new(true, 31, 7, 0);
    a.hello(true, 0).unwrap();
    a.drain();
    for _ in 0..64 {
        a.offer().unwrap();
    }
    assert_eq!(said(a.offer()), Err("wire budget"));
    // More segments than the engine takes.
    let timeouts = Timeouts::default();
    let mut a = Session::with_timeout(true, 31, 7, 0, timeouts, 200_000);
    let mut b = Session::with_timeout(false, 0, 0, 0, timeouts, 200_000);
    a.hello(true, 0).unwrap();
    b.hello(true, 0).unwrap();
    exchange(&mut a, &mut b, 0, false);
    exchange(&mut a, &mut b, 10, false);
    assert_eq!(said(a.send(&vec![1; 140_000], 20)), Err("KCP send"));
}

#[test]
fn a_message_of_two_segments_arrives_whole() {
    let (mut a, mut b) = pair();
    let long: Vec<u8> = (0..2000u32).map(|n| n as u8).collect();
    a.send(&long, 20).unwrap();
    a.send(&event(2), 20).unwrap();
    for t in (20..100).step_by(10) {
        a.tick(t).unwrap();
        b.tick(t).unwrap();
        exchange(&mut a, &mut b, t, false);
    }
    assert_eq!(b.receive(), Some((1, long)));
    assert_eq!(b.receive(), Some((2, event(2))));
}

/// Fills the output queue to its last place.
fn choke(session: &mut Session) {
    while session.queue(vec![0; 24]) {}
}

#[test]
fn an_engine_without_room_closes_the_session() {
    let (_, mut b) = pair();
    choke(&mut b);
    // One datagram's worth of acknowledgements still fits the engine's own buffer.
    let payload = match Frame::decode(&pushes(0, &[&[]])) {
        Some(Frame::Data { payload, .. }) => payload.repeat(40),
        other => panic!("{other:?}"),
    };
    let repeated = Frame::Data { id: 31, payload }.encode();
    assert_eq!(said(b.input(&repeated, 20)), Ok(()));
    assert_eq!(said(b.input(&repeated, 20)), Err("KCP input"));
    assert!(!b.ready() && !b.has_output());

    let mut a = Session::new(true, 31, 7, 0);
    a.hello(true, 0).unwrap();
    choke(&mut a);
    let ready = Frame::Ready { id: 31, conv: 7 }.encode();
    assert_eq!(said(a.input(&ready, 20)), Err("bootstrap flush"));
}

#[test]
fn a_datagram_longer_than_the_mtu_is_not_queued() {
    let mut session = Session::new(true, 31, 7, 0);
    session.hello(true, 0).unwrap();
    session.drain();
    assert!(!session.queue(vec![0; MTU + 1]));
    assert!(!session.has_output());
    assert!(session.queue(vec![0; MTU]));
    session.hello(false, 0).unwrap_err();
    assert!(!session.queue(vec![0]));
}

#[test]
fn what_is_sent_is_written_at_once_while_a_flush_fits() {
    let (mut a, mut b) = pair();
    for t in (20..100).step_by(10) {
        a.tick(t).unwrap();
        b.tick(t).unwrap();
        exchange(&mut a, &mut b, t, false);
    }
    a.drain();
    let mut sent = 0;
    while a.can_send() {
        let body = vec![sent as u8; 1000];
        a.send(&body, 110).unwrap();
        sent += 1;
        let datagrams: Vec<_> = a
            .drain()
            .iter()
            .filter_map(|bytes| match Frame::decode(bytes) {
                Some(Frame::Data { payload, .. }) => Some(payload),
                _ => None,
            })
            .collect();
        assert_eq!(datagrams.len(), 1);
        assert!(datagrams[0].len() <= MTU && datagrams[0].ends_with(&body));
    }
    assert_eq!(sent, 64);
    // A flush of the whole window fits the queue, and with more waiting the engine is not flushed.
    a.tick(210).unwrap();
    assert_eq!(a.drain().len(), 64 + 1);
    for _ in 0..3 {
        assert!(a.queue(vec![0; 24]));
    }
    a.tick(310).unwrap();
    assert_eq!(a.drain().len(), 3 + 1);
}

/// A datagram of one segment with the given timestamp, number and acknowledged number.
fn bare(command: u8, ts: u32, sn: u32, una: u32) -> Vec<u8> {
    let mut payload = 7u32.to_le_bytes().to_vec();
    payload.extend([command, 0]);
    payload.extend(128u16.to_le_bytes());
    payload.extend(ts.to_le_bytes());
    payload.extend(sn.to_le_bytes());
    payload.extend(una.to_le_bytes());
    payload.extend(0u32.to_le_bytes());
    Frame::Data { id: 31, payload }.encode()
}

/// Two sessions whose first segments are acknowledged.
fn settled() -> (Session, Session) {
    let (mut a, mut b) = pair();
    for t in (20..100).step_by(10) {
        a.tick(t).unwrap();
        b.tick(t).unwrap();
        exchange(&mut a, &mut b, t, false);
    }
    assert!(a.recovery_probe_confirmed() && b.recovery_probe_confirmed());
    a.drain();
    b.drain();
    (a, b)
}

#[test]
fn datagrams_that_the_engine_cannot_compare_count_as_lost() {
    for (command, ts, sn, una, acknowledged) in [
        (82, 0, 1, 0, true),
        (82, SIGN - 1, 1, 0, true),
        (82, SIGN, 1, 0, false),
        (82, u32::MAX, 1, 2, false),
        (82, 0, SIGN - 1, 0, false),
        (82, 0, SIGN - 1, 2, true),
        (82, 0, SIGN, 2, false),
        (81, u32::MAX, 5, 2, true),
        (81, 0, NUMBER_LIMIT - 1, 2, true),
        (81, 0, NUMBER_LIMIT, 2, false),
        (81, 0, u32::MAX, 2, false),
        (83, u32::MAX, u32::MAX, 2, true),
        (84, u32::MAX, u32::MAX, 2, true),
        (83, 0, 0, SIGN - 1, true),
        (83, 0, 0, SIGN, false),
    ] {
        let (mut a, _) = settled();
        a.send(&event(1), 100).unwrap();
        let packet = bare(command, ts, sn, una);
        assert_eq!(said(a.input(&packet, 110)), Ok(()));
        assert!(a.ready());
        let confirmed = a.recovery_probe_confirmed();
        assert_eq!(confirmed, acknowledged, "{command} {ts} {sn} {una}");
        // What was left out is asked for again.
        a.input(&bare(82, 0, 1, 0), 120).unwrap();
        assert!(a.recovery_probe_confirmed());
    }
    for (command, fragment) in [(80, 0), (85, 0), (81, 2)] {
        let (mut a, _) = pair();
        let mut packet = bare(command, 0, 5, 0);
        packet[18] = fragment;
        assert_eq!(said(a.input(&packet, 30)), Err("invalid KCP segment"));
        assert!(!a.ready());
    }
}

/// The timestamps of the segments with data in these packets.
fn stamps(packets: &[Vec<u8>]) -> Vec<u32> {
    let mut stamps = Vec::new();
    for bytes in packets {
        if let Some(Frame::Data { payload, .. }) = Frame::decode(bytes) {
            let mut rest = &payload[..];
            while !rest.is_empty() {
                let field = |at: usize| u32::from_le_bytes(rest[at..at + 4].try_into().unwrap());
                if rest[4] == 81 {
                    stamps.push(field(8));
                }
                rest = &rest[24 + field(20) as usize..];
            }
        }
    }
    stamps
}

#[test]
fn the_engine_outlives_its_clock() {
    let (mut a, _) = settled();
    // While a segment waits the clock runs on to its end, and stays there.
    let end = CLOCK_LIMIT as u64;
    let mut sent = 0;
    for (t, stamp) in [
        (end / 2 - 1, end / 2 - 1),
        (end - 1, end - 1),
        (end - 5, end - 1),
        (end, end - 1),
        (end + 10, end - 1),
        (9 * end, end - 1),
    ] {
        a.peer_activity(t);
        assert_eq!(said(a.tick(t)), Ok(()));
        a.drain();
        a.send(&event(1), t).unwrap();
        sent += 1;
        assert_eq!(stamps(&a.drain()).last(), Some(&(stamp as u32)));
        a.input(&Frame::Progress { id: 31, sent: 0, processed: sent }.encode(), t).unwrap();
        assert!(a.ready());
    }
    // Once none waits it starts anew.
    a.input(&bare(82, end as u32 - 1, 6, 7), 9 * end).unwrap();
    assert!(a.recovery_probe_confirmed());
    for (t, stamp) in [(9 * end + 5, 0), (9 * end + 25, 20)] {
        assert_eq!(said(a.tick(t)), Ok(()));
        a.drain();
        a.send(&event(1), t).unwrap();
        assert!(stamps(&a.drain()).ends_with(&[stamp]));
    }
}

#[test]
fn an_acknowledgement_of_long_ago_is_left_out() {
    let (mut a, _) = settled();
    let turn = CLOCK_TURN as u64;
    for t in [turn - 10, turn + 100] {
        a.peer_activity(t);
        a.tick(t).unwrap();
        if t < turn {
            a.send(&event(1), t).unwrap();
        }
    }
    a.input(&bare(82, 100, 1, 2), turn + 100).unwrap();
    assert!(a.ready() && !a.recovery_probe_confirmed());
    a.input(&bare(82, 101, 1, 2), turn + 100).unwrap();
    assert!(a.ready() && a.recovery_probe_confirmed());
}

#[test]
fn a_session_can_be_offered_before_its_peer_has_greeted() {
    let mut session = Session::new(true, 31, 7, 0);
    for _ in 0..64 {
        assert_eq!(said(session.offer()), Ok(()));
    }
    assert_eq!(said(session.hello(true, 0)), Err("wire budget"));
    assert_eq!(said(session.hello(true, 0)), Err("closed"));
    let mut session = Session::new(true, 31, 7, 0);
    for _ in 0..64 {
        session.offer().unwrap();
    }
    assert_eq!(said(session.offer()), Err("wire budget"));
    assert!(!session.has_output());
}

#[test]
fn packets_leave_in_the_order_of_their_times() {
    let mut session = Session::new(true, 31, 7, 0);
    session.hello(true, 0).unwrap();
    session.drain();
    assert!(session.queue(vec![1; 24]));
    session.offer().unwrap();
    session.hello(true, 5).unwrap();
    assert!(session.queue(vec![2; 24]));
    assert!(session.queue(vec![3; 24]));
    session.offer().unwrap();
    let mut seen = Vec::new();
    while let Some((time, bytes)) = session.pop_output() {
        seen.push(match Frame::decode(&bytes) {
            Some(Frame::Data { id: 31, payload }) => (time, payload[0]),
            Some(Frame::Offer { id: 31, conv: 7 }) => (time, 0),
            other => panic!("{other:?}"),
        });
    }
    assert_eq!(seen, [(0, 0), (0, 1), (5, 0), (5, 2), (5, 3)]);
    assert!(!session.has_output());
}

#[test]
fn recovered_sessions_are_open_and_probed() {
    let timeouts = Timeouts::default();
    let mut a = Session::recovered(true, 31, 7, 0, timeouts, LAYOUT).unwrap();
    let mut b = Session::recovered(false, 31, 7, 0, timeouts, LAYOUT).unwrap();
    assert!(a.ready() && b.ready());
    assert!(a.recovery_probe_confirmed());
    a.recovery_probe().unwrap();
    assert!(!a.recovery_probe_confirmed());
    for t in (10..60).step_by(10) {
        exchange(&mut a, &mut b, t, false);
        a.tick(t).unwrap();
        b.tick(t).unwrap();
    }
    assert!(a.recovery_probe_confirmed());
    assert!(!b.has_received());
    let mut c = Session::recovered(true, 31, 7, 0, timeouts, LAYOUT).unwrap();
    choke(&mut c);
    assert_eq!(said(c.recovery_probe()), Err("recovery probe"));
    assert!(!a.recovery_due(5000));
    a.send(&event(1), 100).unwrap();
    assert!(!a.recovery_due(700));
    assert!(a.recovery_due(701));
}
