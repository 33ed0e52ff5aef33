use libpid::PID;

const ONE: i64 = libpid::SCALE;

#[test]
fn test_logging() {
    let mut pid = PID::new(ONE, ONE / 10, ONE / 10);
    pid.set_sp(10 * ONE);
    pid.set_pv(0);
    let mut last = 0;
    for dt in 1..=5 {
        let rec = pid.step_record(Some(dt));
        assert_eq!(rec.error, 10 * ONE);
        assert_eq!(rec.integral, 10 * ONE * dt);
        last = rec.output;
    }
    assert!(last > 10 * ONE);
    assert_eq!(pid.debug_label().as_str(), "");
}

#[test]
fn test_labeled_logging() {
    let mut pid = PID::new(ONE, ONE / 10, ONE / 10);
    pid.add_debug_label("TEST");
    assert_eq!(pid.debug_label().as_str(), "(TEST) ");
    pid.set_sp(20 * ONE);
    pid.set_pv(0);
    pid.step(Some(1));
    pid.step(Some(2));
    pid.set_pv(5 * ONE);
    pid.step(Some(3));
    pid.set_pv(10 * ONE);
    let rec = pid.step_record(Some(4));
    assert_eq!((rec.setpoint, rec.measured, rec.error), (20 * ONE, 10 * ONE, 10 * ONE));
    assert_eq!(rec.integral, 65 * ONE);
    pid.step(Some(5));
    assert_eq!(pid.debug_label().as_str(), "(TEST) ");
}
