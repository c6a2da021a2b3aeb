use notification_emitter::ids::{GuestId, HostId};
use notification_emitter::maps::next;

#[test]
fn zero_makes_no_identifier_of_either_kind() {
    assert_eq!(GuestId::new_less_safe(0), None);
    assert_eq!(HostId::new_less_safe(0), None);
}

#[test]
fn an_identifier_gives_its_number_back() {
    for v in [1u32, 2, 42, u32::MAX] {
        assert_eq!(GuestId::new_less_safe(v).unwrap().get(), v);
        assert_eq!(HostId::new_less_safe(v).unwrap().get(), v);
    }
}

#[test]
fn the_successor_skips_zero() {
    assert_eq!(next(1), 2);
    assert_eq!(next(41), 42);
    assert_eq!(next(u32::MAX - 1), u32::MAX);
    assert_eq!(next(u32::MAX), 1);
}

#[test]
fn an_identifier_converts_to_its_number() {
    assert_eq!(u32::from(GuestId::new_less_safe(7).unwrap()), 7);
    assert_eq!(u32::from(HostId::new_less_safe(u32::MAX).unwrap()), u32::MAX);
    let as_number: u32 = GuestId::new_less_safe(1).unwrap().into();
    assert_eq!(as_number, 1);
}
