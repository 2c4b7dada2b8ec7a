use i3status_rs::signals::Signal;

#[test]
fn user_signals_are_named() {
    assert_eq!(Signal::from_raw(10, 34, 10, 12), Signal::Usr1);
    assert_eq!(Signal::from_raw(12, 34, 10, 12), Signal::Usr2);
}

#[test]
fn real_time_signals_are_numbered_from_base() {
    assert_eq!(Signal::from_raw(34, 34, 10, 12), Signal::Other(0));
    assert_eq!(Signal::from_raw(38, 34, 10, 12), Signal::Other(4));
}
