use lpc541xx::clock::{Duration, Instant, CTIMER0, CTIMER0_TCR, TCR_RELEASE};
use std::cmp::Ordering;

#[test]
fn duration_across_counter_wrap() {
    let earlier = Instant::from_counter(0xFFFF_FFF0);
    let later = Instant::from_counter(0x0000_0010);
    assert_eq!(later.duration_since(earlier).as_cycles(), 0x20);
    assert_eq!((later - earlier).as_cycles(), 0x20);
}

#[test]
fn order_across_counter_wrap() {
    let earlier = Instant::from_counter(0xFFFF_FFF0);
    let later = Instant::from_counter(0x0000_0010);
    assert_eq!(earlier.cmp(&later), Ordering::Less);
    assert_eq!(later.cmp(&earlier), Ordering::Greater);
    assert_eq!(later.cmp(&later), Ordering::Equal);
    assert!(earlier < later);
    assert!(later > earlier);
    assert!(later >= later);
}

#[test]
fn order_just_below_half_period() {
    let b = Instant::from_counter(5);
    let a = Instant::from_counter(5 + 0x7FFF_FFFF);
    assert_eq!(a.duration_since(b).as_cycles(), 0x7FFF_FFFF);
    assert!(b < a);
}

#[test]
fn order_flips_at_half_period() {
    let b = Instant::from_counter(0);
    let a = Instant::from_counter(0x8000_0000);
    assert_eq!(a.cmp(&b), Ordering::Less);
}

#[test]
fn add_wraps_around() {
    let t = Instant::from_counter(0xFFFF_FFFF) + Duration::from_cycles(2);
    assert_eq!(t, Instant::from_counter(1));
    assert_eq!(t.duration_since(Instant::from_counter(0xFFFF_FFFF)).as_cycles(), 2);
}

#[test]
fn zero_and_ratio() {
    assert_eq!(CTIMER0::ratio(), 1);
    let z = CTIMER0::zero();
    assert_eq!(z, Instant::from_counter(0));
    assert_eq!((z + Duration::from_cycles(7)).duration_since(z).as_cycles(), 7);
}

#[test]
fn reset_releases_counter() {
    let w = CTIMER0::reset();
    assert_eq!(w.addr, CTIMER0_TCR);
    assert_eq!(w.value, TCR_RELEASE);
    assert_eq!(w.value, 0b01);
}

#[test]
fn duration_converts_to_cycles() {
    let d = Duration::from_cycles(1234);
    let c: u32 = d.into();
    assert_eq!(c, 1234);
    let t: Result<u32, _> = std::convert::TryInto::try_into(Duration::from_cycles(9));
    assert_eq!(t, Ok(9));
}

#[test]
fn instants_built_by_addition_order_across_wrap() {
    let z = CTIMER0::zero();
    let a = z + Duration::from_cycles(0x0000_0010);
    let b = z + Duration::from_cycles(0xFFFF_FFF0);
    assert_eq!(a.duration_since(b).as_cycles(), 0x20);
    assert_eq!(b.cmp(&a), Ordering::Less);
    assert!(b < a);
    assert_eq!(z + Duration::from_cycles(0xFFFF_FFFF) + Duration::from_cycles(1), z);
    assert_eq!(a + Duration::from_cycles(0), a);
    assert_eq!((a - b).as_cycles(), a.duration_since(b).as_cycles());
}
