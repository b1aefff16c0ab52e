use aimc::time::Duration;

#[test]
fn construction() {
    let d = Duration::new(1, 1_500_000_000);
    assert_eq!(d.as_secs(), 2);
    assert_eq!(d.subsec_nanos(), 500_000_000);
    assert_eq!(d.as_nanos(), 2_500_000_000);
    assert_eq!(Duration::from_millis(1500), Duration::new(1, 500_000_000));
    assert_eq!(Duration::from_secs(3), Duration::new(3, 0));
    assert_eq!(Duration::default(), Duration::zero());
    assert_eq!(Duration::from_total_nanos(7).as_nanos(), 7);
}

#[test]
fn matches_std() {
    let ours = Duration::new(12, 345_678_901);
    let std = std::time::Duration::new(12, 345_678_901);
    assert_eq!(ours.as_secs(), std.as_secs());
    assert_eq!(ours.subsec_nanos(), std.subsec_nanos());
    assert_eq!(ours.div(7).as_nanos(), (std / 7).as_nanos());
    assert_eq!(
        ours.add(Duration::new(1, 999_999_999)).as_nanos(),
        (std + std::time::Duration::new(1, 999_999_999)).as_nanos()
    );
}

#[test]
fn arithmetic() {
    let a = Duration::from_millis(70);
    let b = Duration::from_millis(20);
    assert_eq!(a.sub(b), Duration::from_millis(50));
    assert_eq!(a.add(b), Duration::from_millis(90));
    assert_eq!(a.div(2), Duration::from_millis(35));
    assert_eq!(b.checked_sub(a), None);
    assert_eq!(a.checked_sub(b), Some(Duration::from_millis(50)));
    assert_eq!(a.checked_add(b), Some(Duration::from_millis(90)));
}

#[test]
fn the_largest_duration() {
    let max = Duration::new(u64::MAX, 999_999_999);
    assert_eq!(max.as_secs(), u64::MAX);
    assert_eq!(max.checked_add(Duration::new(0, 1)), None);
    assert_eq!(max.checked_add(Duration::zero()), Some(max));
}
