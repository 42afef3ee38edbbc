//! The laws of the channel on concrete runs.

use caducus::clock::{clamp_ttl, deadline_after, max_ttl, min_ttl};
use caducus::concurrency::{ChannelMode, ConcurrentRing, DrainMode, Ring};
use caducus::error::CaducusErrorKind;
use std::time::{Duration, Instant};

fn channel(capacity: usize) -> ConcurrentRing<u32> {
    ConcurrentRing::new(
        capacity,
        Duration::from_secs(60),
        ChannelMode::Mpsc,
        None,
        None,
    )
    .expect("valid TTL")
}

/// A reproducible sequence of numbers.
fn step(seed: &mut u64) -> u64 {
    *seed = seed
        .wrapping_mul(6364136223846793005)
        .wrapping_add(1442695040888963407);
    *seed >> 33
}

#[test]
fn every_item_is_accounted_for_once_and_in_order() {
    let start = Instant::now();
    let mut seed: u64 = 7;
    for _ in 0..50 {
        let mut ring = channel(4);
        let mut sent: Vec<u32> = Vec::new();
        let mut received: Vec<u32> = Vec::new();
        let mut expired: Vec<u32> = Vec::new();
        let mut next: u32 = 0;
        let mut now = start;
        for _ in 0..200 {
            match step(&mut seed) % 6 {
                0 | 1 | 2 => {
                    next += 1;
                    let ttl = Duration::from_millis(1 + step(&mut seed) % 50);
                    match ring.send_mpsc_until(next, now + ttl, None, None) {
                        Ok(()) => sent.push(next),
                        Err(e) => assert_eq!(e.into_inner(), Some(next)),
                    }
                }
                3 => {
                    now += Duration::from_millis(step(&mut seed) % 20);
                    let result = ring.drain(now, DrainMode::DrainOnly);
                    assert!(result.live.is_none());
                    for pop in result.expired {
                        assert!(pop.expires_at <= now);
                        expired.push(pop.item);
                    }
                    if let Some(deadline) = result.next_deadline {
                        assert!(deadline > now);
                    }
                }
                4 => {
                    let result = ring.drain(now, DrainMode::DrainAndClaim);
                    for pop in result.expired {
                        expired.push(pop.item);
                    }
                    if let Some(pop) = result.live {
                        assert!(pop.expires_at > now);
                        received.push(pop.item);
                    }
                }
                _ => ring.update_capacity((step(&mut seed) % 7) as usize),
            }
        }
        let left: Vec<u32> = ring.shutdown().into_iter().map(|p| p.item).collect();
        assert!(ring.shutdown().is_empty());
        let mut order = received.clone();
        order.extend(left.iter());
        assert!(order.windows(2).all(|w| w[0] < w[1]));
        let mut all = order;
        all.extend(expired.iter());
        all.sort();
        assert_eq!(all, sent);
    }
}

#[test]
fn shutdown_is_final() {
    let start = Instant::now();
    let mut ring = channel(2);
    ring.send_mpsc(1, None, None).unwrap();
    ring.send_mpsc(2, None, None).unwrap();
    assert_eq!(ring.shutdown().len(), 2);
    ring.update_capacity(8);
    ring.update_ttl(Duration::from_secs(1)).unwrap();
    assert!(ring.is_shutdown());
    let err = ring.send_mpsc(3, None, None).unwrap_err();
    assert_eq!(err.kind, CaducusErrorKind::Shutdown(3));
    let result = ring.drain(start + Duration::from_secs(3600), DrainMode::DrainAndClaim);
    assert!(result.expired.is_empty());
    assert!(result.live.is_none());
    assert!(result.is_shutdown);
}

#[test]
fn second_drain_at_the_same_time_finds_nothing() {
    let start = Instant::now();
    let mut ring = channel(4);
    for (item, millis) in [(1, 40), (2, 10), (3, 30), (4, 5)] {
        ring.send_mpsc_until(item, start + Duration::from_millis(millis), None, None)
            .unwrap();
    }
    let now = start + Duration::from_millis(10);
    let first = ring.drain(now, DrainMode::DrainOnly);
    let items: Vec<u32> = first.expired.iter().map(|p| p.item).collect();
    assert_eq!(items, vec![2, 4]);
    assert_eq!(first.next_deadline, Some(start + Duration::from_millis(30)));
    let second = ring.drain(now, DrainMode::DrainOnly);
    assert!(second.expired.is_empty());
    assert_eq!(second.next_deadline, first.next_deadline);
    let claim = ring.drain(now, DrainMode::DrainAndClaim);
    assert_eq!(claim.live.unwrap().item, 1);
}

#[test]
fn deferred_shrink_survives_a_gapped_drain() {
    // Four of six items survive a shrink to three: the storage is cut to the survivors, and to
    // three once one of them has left.
    let start = Instant::now();
    let mut ring = Ring::<u32>::new(8, Duration::from_secs(60), ChannelMode::Mpsc, None, None)
        .expect("valid TTL");
    for (item, millis) in [(1, 50), (2, 10), (3, 50), (4, 10), (5, 50), (6, 50)] {
        ring.try_push_mpsc_until(item, start + Duration::from_millis(millis), None, None)
            .unwrap();
    }
    ring.request_capacity(3);
    assert_eq!(ring.capacity(), 8);
    let drained = ring.drain_expired(start + Duration::from_millis(10));
    assert_eq!(drained.len(), 2);
    assert_eq!(ring.capacity(), 4);
    assert_eq!(ring.target_capacity(), 3);
    assert!(!ring.ttl_reduced());
    assert_eq!(ring.try_pop().unwrap().item, 1);
    assert_eq!(ring.capacity(), 3);
    assert_eq!(ring.try_pop().unwrap().item, 3);
    assert_eq!(ring.try_pop().unwrap().item, 5);
    assert_eq!(ring.try_pop().unwrap().item, 6);
    assert!(ring.is_empty());
}

#[test]
fn pop_brings_a_pending_shrink_to_its_end() {
    let mut ring = Ring::<u32>::new(4, Duration::from_secs(60), ChannelMode::Spsc, None, None)
        .expect("valid TTL");
    for item in 0..4 {
        ring.try_push_spsc(item).unwrap();
    }
    ring.request_capacity(1);
    for item in 0..3 {
        assert_eq!(ring.capacity(), 4);
        assert_eq!(ring.try_pop().unwrap().item, item);
    }
    assert_eq!(ring.capacity(), 1);
    assert!(ring.is_full());
}

#[test]
fn pushes_out_of_order_mark_the_deadlines() {
    let start = Instant::now();
    let mut ring = Ring::<u32>::new(4, Duration::from_secs(60), ChannelMode::Spsc, None, None)
        .expect("valid TTL");
    ring.try_push_spsc_until(1, start + Duration::from_secs(2)).unwrap();
    ring.try_push_spsc_until(2, start + Duration::from_secs(2)).unwrap();
    assert!(!ring.ttl_reduced());
    ring.try_push_spsc_until(3, start + Duration::from_secs(1)).unwrap();
    assert!(ring.ttl_reduced());
    assert_eq!(ring.peek_expires_at(), Some(start + Duration::from_secs(1)));
    assert_eq!(ring.head_expires_at(), Some(start + Duration::from_secs(2)));
    assert_eq!(ring.drain_expired(start + Duration::from_secs(1)).len(), 1);
    assert!(!ring.ttl_reduced());
}

#[test]
fn receiver_gets_the_oldest_live_item() {
    let start = Instant::now();
    let mut ring = channel(4);
    for (item, millis) in [(1, 10), (2, 40), (3, 20), (4, 30)] {
        ring.send_mpsc_until(item, start + Duration::from_millis(millis), None, None)
            .unwrap();
    }
    let now = start + Duration::from_millis(20);
    let result = ring.drain(now, DrainMode::DrainAndClaim);
    let items: Vec<u32> = result.expired.iter().map(|p| p.item).collect();
    assert_eq!(items, vec![1, 3]);
    assert_eq!(result.live.unwrap().item, 2);
}

#[test]
fn item_lives_for_its_ttl() {
    let start = Instant::now();
    let ttl = Duration::from_secs(60);
    let mut ring = channel(4);
    ring.send_mpsc_at(1, start, None, None).unwrap();
    let just_before = start + ttl - Duration::from_nanos(1);
    let result = ring.drain(just_before, DrainMode::DrainOnly);
    assert!(result.expired.is_empty());
    assert_eq!(result.next_deadline, Some(start + ttl));
    assert_eq!(ring.drain(start + ttl, DrainMode::DrainOnly).expired.len(), 1);
}

#[test]
fn longer_ttl_later_gives_a_later_deadline() {
    let start = Instant::now();
    let mut ring = Ring::<u32>::new(4, Duration::from_secs(1), ChannelMode::Spsc, None, None)
        .expect("valid TTL");
    ring.try_push_spsc_at(1, start).unwrap();
    ring.set_ttl(Duration::from_secs(2)).unwrap();
    ring.try_push_spsc_at(2, start + Duration::from_millis(1)).unwrap();
    assert!(!ring.ttl_reduced());
    let first = ring.try_pop().unwrap();
    let second = ring.try_pop().unwrap();
    assert_eq!(first.expires_at, start + Duration::from_millis(1000));
    assert_eq!(second.expires_at, start + Duration::from_millis(2001));
}

#[test]
fn only_a_drain_clears_the_mark() {
    let start = Instant::now();
    let mut ring = Ring::<u32>::new(4, Duration::from_secs(60), ChannelMode::Spsc, None, None)
        .expect("valid TTL");
    ring.try_push_spsc_at(1, start).unwrap();
    ring.set_ttl(Duration::from_secs(1)).unwrap();
    assert!(ring.ttl_reduced());
    ring.set_ttl(Duration::from_secs(120)).unwrap();
    ring.request_capacity(8);
    ring.try_push_spsc_at(2, start).unwrap();
    assert!(ring.ttl_reduced());
    assert!(ring.drain_expired(start).is_empty());
    assert!(!ring.ttl_reduced());
}

#[test]
fn growth_overrides_a_pending_shrink() {
    let mut ring = channel(4);
    for item in 0..4 {
        ring.send_mpsc(item, None, None).unwrap();
    }
    ring.update_capacity(1);
    assert!(ring.send_mpsc(4, None, None).is_err());
    ring.update_capacity(5);
    ring.send_mpsc(4, None, None).unwrap();
    assert!(ring.send_mpsc(5, None, None).is_err());
    let items: Vec<u32> = ring.shutdown().into_iter().map(|p| p.item).collect();
    assert_eq!(items, vec![0, 1, 2, 3, 4]);
}

#[test]
fn rejected_send_leaves_the_channel_as_it_was() {
    let mut ring = channel(1);
    ring.send_mpsc(1, None, None).unwrap();
    ring.take_wakeups();
    let err = ring.send_mpsc(2, None, None).unwrap_err();
    assert_eq!(err.into_inner(), Some(2));
    let err = ring.send_spsc(3).unwrap_err();
    assert_eq!(err.kind, CaducusErrorKind::InvalidPattern(3));
    let wakeups = ring.take_wakeups();
    assert!(!wakeups.receiver && !wakeups.reclaimer);
    let items: Vec<u32> = ring.shutdown().into_iter().map(|p| p.item).collect();
    assert_eq!(items, vec![1]);
}

#[test]
fn early_drain_changes_nothing_for_a_later_one() {
    let start = Instant::now();
    let late = start + Duration::from_millis(25);
    let mut survivors: Vec<Vec<u32>> = Vec::new();
    for early in [0, 12, 25] {
        let mut ring = channel(4);
        for (item, millis) in [(1, 30), (2, 10), (3, 20), (4, 40)] {
            ring.send_mpsc_until(item, start + Duration::from_millis(millis), None, None)
                .unwrap();
        }
        ring.drain(start + Duration::from_millis(early), DrainMode::DrainOnly);
        ring.drain(late, DrainMode::DrainOnly);
        survivors.push(ring.shutdown().into_iter().map(|p| p.item).collect());
    }
    assert_eq!(survivors, vec![vec![1, 4], vec![1, 4], vec![1, 4]]);
}

#[test]
fn ttl_limits() {
    assert_eq!(min_ttl(), Duration::from_millis(1));
    assert_eq!(max_ttl(), Duration::from_secs(31_536_000));
    assert_eq!(clamp_ttl(Duration::ZERO), min_ttl());
    assert_eq!(clamp_ttl(Duration::from_secs(40_000_000)), max_ttl());
    assert_eq!(clamp_ttl(Duration::from_millis(7)), Duration::from_millis(7));
    let start = Instant::now();
    assert_eq!(
        deadline_after(start, Duration::from_millis(7)),
        start + Duration::from_millis(7)
    );
}
