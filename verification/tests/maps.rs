use notification_emitter::ids::{GuestId, HostId};
use notification_emitter::maps::{next, AllocateError, Maps};

fn host(v: u32) -> HostId {
    HostId::new_less_safe(v).unwrap()
}

fn guest(v: u32) -> GuestId {
    GuestId::new_less_safe(v).unwrap()
}

#[test]
fn zero_is_no_identifier() {
    assert!(HostId::new_less_safe(0).is_none());
    assert!(GuestId::new_less_safe(0).is_none());
    assert_eq!(host(42).get(), 42);
    assert_eq!(guest(u32::MAX).get(), u32::MAX);
}

#[test]
fn next_wraps_past_the_end_to_one() {
    assert_eq!(next(1), 2);
    assert_eq!(next(41), 42);
    assert_eq!(next(u32::MAX - 1), u32::MAX);
    assert_eq!(next(u32::MAX), 1);
}

#[test]
fn the_first_allocation_is_one() {
    let mut maps = Maps::new();
    assert_eq!(maps.next_id(host(42), None), Ok(guest(1)));
    assert_eq!(maps.next_id(host(43), None), Ok(guest(2)));
    assert_eq!(maps.next_id(host(44), None), Ok(guest(3)));
}

#[test]
fn both_directions_are_entered() {
    let mut maps = Maps::default();
    let g = maps.next_id(host(42), None).unwrap();
    assert_eq!(maps.lookup_guest_id(g), Some(host(42)));
    assert_eq!(maps.lookup_host_id(host(42)), Some(g));
    assert_eq!(maps.lookup_host_id(host(7)), None);
    assert_eq!(maps.lookup_guest_id(guest(7)), None);
}

#[test]
fn the_maps_stay_inverse() {
    let mut maps = Maps::new();
    let mut live = Vec::new();
    for h in 100..140u32 {
        live.push((maps.next_id(host(h), None).unwrap(), host(h)));
    }
    for h in (100..140u32).step_by(3) {
        maps.remove_host_id(host(h));
        live.retain(|(_, x)| *x != host(h));
    }
    for h in 200..210u32 {
        live.push((maps.next_id(host(h), None).unwrap(), host(h)));
    }
    for (g, h) in live.iter() {
        assert_eq!(maps.lookup_guest_id(*g), Some(*h));
        assert_eq!(maps.lookup_host_id(*h), Some(*g));
    }
    for h in (100..140u32).step_by(3) {
        assert_eq!(maps.lookup_host_id(host(h)), None);
    }
}

#[test]
fn a_live_guest_identifier_is_never_handed_out() {
    let mut maps = Maps::new();
    let mut seen = Vec::new();
    for h in 1..50u32 {
        let g = maps.next_id(host(h), None).unwrap();
        assert!(!seen.contains(&g));
        seen.push(g);
    }
}

#[test]
fn a_live_identifier_is_skipped_by_the_search() {
    let mut maps = Maps::new();
    assert_eq!(maps.next_id(host(10), Some(guest(1))), Ok(guest(1)));
    assert_eq!(maps.next_id(host(11), Some(guest(2))), Ok(guest(2)));
    assert_eq!(maps.next_id(host(12), None), Ok(guest(3)));
    assert_eq!(maps.next_id(host(13), Some(guest(5))), Ok(guest(5)));
    assert_eq!(maps.next_id(host(14), None), Ok(guest(4)));
    assert_eq!(maps.next_id(host(15), None), Ok(guest(6)));
}

#[test]
fn a_reused_host_identifier_is_refused() {
    let mut maps = Maps::new();
    let g = maps.next_id(host(42), None).unwrap();
    assert_eq!(maps.next_id(host(42), None), Err(AllocateError::InUse));
    assert_eq!(maps.lookup_host_id(host(42)), Some(g));
    assert_eq!(maps.lookup_guest_id(g), Some(host(42)));
}

#[test]
fn a_hint_keeps_the_guest_identifier() {
    let mut maps = Maps::new();
    let g = maps.next_id(host(42), None).unwrap();
    assert_eq!(maps.next_id(host(42), Some(g)), Ok(g));
    assert_eq!(maps.lookup_guest_id(g), Some(host(42)));
    assert_eq!(maps.next_id(host(43), None), Ok(guest(2)));
}

#[test]
fn a_hint_does_not_overwrite_a_live_entry() {
    let mut maps = Maps::new();
    let g = maps.next_id(host(42), None).unwrap();
    assert_eq!(maps.next_id(host(50), Some(g)), Err(AllocateError::InUse));
    assert_eq!(maps.next_id(host(42), Some(guest(9))), Err(AllocateError::InUse));
    assert_eq!(maps.lookup_guest_id(g), Some(host(42)));
    assert_eq!(maps.lookup_host_id(host(50)), None);
    assert_eq!(maps.lookup_guest_id(guest(9)), None);
}

#[test]
fn removal_gives_the_guest_identifier_once() {
    let mut maps = Maps::new();
    let g = maps.next_id(host(42), None).unwrap();
    assert_eq!(maps.remove_host_id(host(42)), Some(g));
    assert_eq!(maps.lookup_guest_id(g), None);
    assert_eq!(maps.lookup_host_id(host(42)), None);
    assert_eq!(maps.remove_host_id(host(42)), None);
}

#[test]
fn clear_forgets_everything() {
    let mut maps = Maps::new();
    let g = maps.next_id(host(42), None).unwrap();
    let h = maps.next_id(host(43), None).unwrap();
    assert_eq!((g, h), (guest(1), guest(2)));
    maps.clear();
    assert_eq!(maps.lookup_guest_id(g), None);
    assert_eq!(maps.lookup_host_id(host(42)), None);
    assert_eq!(maps.lookup_host_id(host(43)), None);
    assert_eq!(maps.next_id(host(42), None), Ok(guest(3)));
}

#[test]
fn a_released_identifier_is_not_the_next_candidate() {
    let mut maps = Maps::new();
    assert_eq!(maps.next_id(host(42), None), Ok(guest(1)));
    assert_eq!(maps.next_id(host(43), None), Ok(guest(2)));
    assert_eq!(maps.remove_host_id(host(42)), Some(guest(1)));
    // The search goes on from where it stood: 1 is free again, but 3 is
    // the next candidate.
    assert_eq!(maps.next_id(host(44), None), Ok(guest(3)));
    assert_eq!(maps.lookup_guest_id(guest(1)), None);
}
