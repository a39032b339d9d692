use chip8::timer::Timer;

#[test]
fn tick() {
    let mut timer = Timer::new();
    assert_eq!(0, timer.get_timeout());

    let max_timeout = u8::MAX & 0x0F;
    timer.set_timeout(max_timeout);
    assert!(timer.get_timeout() > max_timeout - 2);
    assert!(timer.get_timeout() <= max_timeout);

    let some_timeout = 10 as u8;
    timer.set_timeout(some_timeout);
    assert!(timer.get_timeout() > some_timeout - 2);
    assert!(timer.get_timeout() <= some_timeout);

    timer.set_timeout(0);
    assert_eq!(0, timer.get_timeout());
}

#[test]
fn timeout_at_fixed_instants() {
    let mut timer = Timer::new();
    assert_eq!(0, timer.get_timeout_at(0));
    assert_eq!(0, timer.get_timeout_at(5000));

    timer.set_timeout_at(1000, 100);
    assert_eq!(100, timer.get_timeout_at(1000));
    assert_eq!(99, timer.get_timeout_at(1008));
    assert_eq!(99, timer.get_timeout_at(1016));
    assert_eq!(0, timer.get_timeout_at(1000 + 100 * 16));
    assert_eq!(0, timer.get_timeout_at(u128::MAX));
}

#[test]
fn timeout_reads_never_increase() {
    let mut timer = Timer::new();
    timer.set_timeout_at(500, 60);
    let mut last = timer.get_timeout_at(500);
    for offset in 0..1200u128 {
        let next = timer.get_timeout_at(500 + offset);
        assert!(next <= last);
        last = next;
    }
    assert_eq!(0, last);
}
