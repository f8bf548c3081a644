use tcp_socket::socket::Timer;

#[test]
fn test_timer_retransmit() {
    let mut r = Timer::default();
    assert_eq!(r.should_retransmit(1000), None);
    r.set_for_retransmit(1000);
    assert_eq!(r.should_retransmit(1000), None);
    assert_eq!(r.should_retransmit(1050), None);
    assert_eq!(r.should_retransmit(1101), Some(101));
    r.set_for_retransmit(1101);
    assert_eq!(r.should_retransmit(1101), None);
    assert_eq!(r.should_retransmit(1150), None);
    assert_eq!(r.should_retransmit(1200), None);
    assert_eq!(r.should_retransmit(1301), Some(300));
    r.set_for_idle(1301, None);
    assert_eq!(r.should_retransmit(1350), None);
}
