use tcp_socket::error::Error;
use tcp_socket::socket::timer::{CLOSE_DELAY, RETRANSMIT_DELAY};
use tcp_socket::socket::{SocketBuffer, State, TcpSocket, Timer};
use tcp_socket::wire::{IpAddress, IpEndpoint, TcpSeqNumber};

fn socket(state: State) -> TcpSocket {
    let mut socket =
        TcpSocket::new(SocketBuffer::new(vec![0; 6]), SocketBuffer::new(vec![0; 6]));
    socket.state = state;
    socket
}

const STATES: [State; 11] = [
    State::Closed,
    State::Listen,
    State::SynSent,
    State::SynReceived,
    State::Established,
    State::FinWait1,
    State::FinWait2,
    State::CloseWait,
    State::Closing,
    State::LastAck,
    State::TimeWait,
];

#[test]
fn a_new_socket_is_closed() {
    let socket = socket(State::Closed);
    assert_eq!(socket.state(), State::Closed);
    assert_eq!(socket.debug_id(), 0);
    assert_eq!(socket.timeout(), None);
    assert_eq!(socket.keep_alive(), None);
    assert_eq!(socket.local_endpoint(), IpEndpoint::default());
    assert_eq!(socket.remote_endpoint(), IpEndpoint::default());
    assert_eq!(socket.send_queue(), 0);
    assert_eq!(socket.recv_queue(), 0);
    assert_eq!(socket.remote_mss, 536);
    assert_eq!(socket.poll_at(), None);
    assert!(!socket.is_open());
}

#[test]
fn the_largest_receive_buffer() {
    let socket = TcpSocket::new(SocketBuffer::new(vec![0; 65535]), SocketBuffer::new(vec![]));
    assert_eq!(socket.rx_buffer.capacity(), 65535);
    assert_eq!(socket.assembler.total_size(), 65535);
}

#[test]
fn states_say_what_is_possible() {
    for state in STATES {
        let s = socket(state);
        assert_eq!(s.is_listening(), state == State::Listen);
        assert_eq!(s.is_open(), state != State::Closed && state != State::TimeWait);
        assert_eq!(s.is_active(), s.is_open() && !s.is_listening());
        let sends = state == State::Established || state == State::CloseWait;
        assert_eq!(s.may_send(), sends);
        assert_eq!(s.can_send(), sends);
        let receives = state == State::Established
            || state == State::FinWait1
            || state == State::FinWait2;
        assert_eq!(s.may_recv(), receives);
        assert!(!s.can_recv());
    }
}

#[test]
fn what_was_received_can_be_read_in_any_state() {
    for state in STATES {
        let mut s = socket(state);
        s.rx_buffer.enqueue_slice(b"abc");
        assert!(s.may_recv());
        assert!(s.can_recv());
        assert_eq!(s.recv(2), Ok(&b"ab"[..]));
        assert_eq!(s.remote_seq_no, TcpSeqNumber(2));
    }
}

#[test]
fn states_have_names() {
    let names: Vec<&str> = STATES.iter().map(|state| state.name()).collect();
    assert_eq!(
        names,
        [
            "CLOSED",
            "LISTEN",
            "SYN-SENT",
            "SYN-RECEIVED",
            "ESTABLISHED",
            "FIN-WAIT-1",
            "FIN-WAIT-2",
            "CLOSE-WAIT",
            "CLOSING",
            "LAST-ACK",
            "TIME-WAIT",
        ]
    );
}

#[test]
fn closing_twice_is_closing_once() {
    for state in STATES {
        let mut s = socket(state);
        s.close();
        let closed = s.state();
        let expected = match state {
            State::Listen | State::SynSent => State::Closed,
            State::SynReceived | State::Established => State::FinWait1,
            State::CloseWait => State::LastAck,
            other => other,
        };
        assert_eq!(closed, expected);
        assert!(!s.may_send());
        s.close();
        assert_eq!(s.state(), closed);
    }
}

#[test]
fn aborting_closes_from_any_state() {
    for state in STATES {
        let mut s = socket(state);
        s.abort();
        assert_eq!(s.state(), State::Closed);
    }
}

#[test]
fn a_socket_is_opened_once() {
    let remote = IpEndpoint::new(IpAddress::v4(10, 0, 0, 2), 80);
    for state in STATES {
        let mut s = socket(state);
        let open = s.is_open();
        let result = s.listen(80);
        assert_eq!(result, if open { Err(Error::Illegal) } else { Ok(()) });
        assert_eq!(s.state(), if open { state } else { State::Listen });
        let mut s = socket(state);
        let result = s.connect(remote, 49500);
        assert_eq!(result, if open { Err(Error::Illegal) } else { Ok(()) });
        assert_eq!(s.state(), if open { state } else { State::SynSent });
    }
    let mut s = socket(State::Listen);
    assert_eq!(s.listen(0), Err(Error::Unaddressable));
    assert_eq!(s.connect(IpEndpoint::default(), 49500), Err(Error::Illegal));
}

#[test]
fn opening_forgets_the_last_connection() {
    let mut s = socket(State::TimeWait);
    s.set_debug_id(7);
    s.set_timeout(Some(5));
    s.set_keep_alive(Some(6));
    s.local_seq_no = TcpSeqNumber(42);
    s.rx_buffer.enqueue_slice(b"abc");
    s.tx_buffer.enqueue_slice(b"def");
    let remote = IpEndpoint::new(IpAddress::v4(10, 0, 0, 2), 80);
    assert_eq!(s.connect_to(remote, IpEndpoint::from(49500)), Ok(()));
    assert_eq!(s.debug_id(), 7);
    assert_eq!(s.timeout(), None);
    assert_eq!(s.keep_alive(), None);
    assert_eq!(s.local_seq_no, TcpSeqNumber(42));
    assert_eq!(s.remote_last_seq, TcpSeqNumber(42));
    assert_eq!(s.recv_queue(), 0);
    assert_eq!(s.send_queue(), 0);
    let mut s = socket(State::TimeWait);
    s.local_seq_no = TcpSeqNumber(42);
    assert_eq!(s.listen_on(IpEndpoint::from(80)), Ok(()));
    assert_eq!(s.local_seq_no, TcpSeqNumber(0));
    assert_eq!(s.local_endpoint(), IpEndpoint::from(80));
}

#[test]
fn sending_needs_an_open_half() {
    for state in STATES {
        let mut s = socket(state);
        if s.may_send() {
            assert_eq!(s.send_slice(b"abc"), Ok(3));
            assert_eq!(s.send(2).map(|slice| slice.len()), Ok(2));
            assert_eq!(s.write_str("d"), Ok(()));
            assert_eq!(s.send_queue(), 6);
        } else {
            assert_eq!(s.send_slice(b"abc"), Err(Error::Illegal));
            assert_eq!(s.send(2).map(|slice| slice.len()), Err(Error::Illegal));
            assert_eq!(s.write_str("d"), Err(()));
            assert_eq!(s.send_queue(), 0);
        }
    }
}

#[test]
fn sending_in_place() {
    let mut s = socket(State::Established);
    s.remote_last_ts = Some(9);
    s.send(4).unwrap().copy_from_slice(b"abcd");
    assert_eq!(s.remote_last_ts, None);
    assert_eq!(s.tx_buffer.dequeue_many(3), b"abc");
    s.remote_last_ts = Some(9);
    // Only two octets are free before the end of the storage.
    s.send(5).unwrap().copy_from_slice(b"ef");
    assert_eq!(s.remote_last_ts, Some(9));
    s.send(5).unwrap().copy_from_slice(b"ghi");
    assert_eq!(s.send(5).unwrap().len(), 0);
    assert!(!s.can_send());
    let mut data = [0; 6];
    assert_eq!(s.tx_buffer.dequeue_slice(&mut data), 6);
    assert_eq!(&data, b"defghi");
}

#[test]
fn sending_is_limited_by_room() {
    let mut s = socket(State::CloseWait);
    assert_eq!(s.send_slice(b"abcd"), Ok(4));
    assert_eq!(s.send_slice(b"efgh"), Ok(2));
    assert_eq!(s.send_slice(b"gh"), Ok(0));
    assert!(s.may_send());
    assert!(!s.can_send());
    assert_eq!(s.tx_buffer.dequeue_many(6), b"abcdef");
}

#[test]
fn strings_are_enqueued_as_far_as_possible() {
    let mut s = socket(State::Established);
    assert_eq!(s.write_str("abcd"), Ok(()));
    assert_eq!(s.write_str("efgh"), Err(()));
    assert_eq!(s.tx_buffer.dequeue_many(6), b"abcdef");
}

#[test]
fn receiving_needs_an_open_half() {
    for state in STATES {
        let mut s = socket(state);
        let mut data = [b'.'; 3];
        if s.may_recv() {
            assert_eq!(s.recv(3), Ok(&b""[..]));
            assert_eq!(s.peek(3), Ok(&b""[..]));
            assert_eq!(s.recv_slice(&mut data), Ok(0));
            assert_eq!(s.peek_slice(&mut data), Ok(0));
        } else {
            assert_eq!(s.recv(3), Err(Error::Illegal));
            assert_eq!(s.peek(3), Err(Error::Illegal));
            assert_eq!(s.recv_slice(&mut data), Err(Error::Illegal));
            assert_eq!(s.peek_slice(&mut data), Err(Error::Illegal));
        }
        assert_eq!(&data, b"...");
    }
}

#[test]
fn peeking_shows_what_receiving_takes() {
    let mut s = socket(State::Established);
    s.rx_buffer.enqueue_slice(b"..abcd");
    s.rx_buffer.dequeue_allocated(2);
    s.rx_buffer.enqueue_slice(b"ef");
    assert_eq!(s.peek(6), Ok(&b"abcd"[..]));
    assert_eq!(s.peek(3), Ok(&b"abc"[..]));
    let (mut peeked, mut received) = ([0; 5], [0; 5]);
    assert_eq!(s.peek_slice(&mut peeked), Ok(5));
    assert_eq!(s.recv_queue(), 6);
    assert_eq!(s.remote_seq_no, TcpSeqNumber(0));
    assert_eq!(s.recv_slice(&mut received), Ok(5));
    assert_eq!(&peeked, b"abcde");
    assert_eq!(peeked, received);
    assert_eq!(s.remote_seq_no, TcpSeqNumber(5));
    assert_eq!(s.recv(6), Ok(&b"f"[..]));
    assert_eq!(s.remote_seq_no, TcpSeqNumber(6));
}

#[test]
fn settings_are_kept() {
    let mut s = socket(State::Established);
    s.set_debug_id(3);
    assert_eq!(s.debug_id(), 3);
    s.set_timeout(Some(100));
    assert_eq!(s.timeout(), Some(100));
    s.set_keep_alive(Some(50));
    assert_eq!(s.keep_alive(), Some(50));
    assert_eq!(s.timer, Timer::Idle { keep_alive_at: Some(0) });
    s.timer = Timer::Close { expires_at: 9 };
    s.set_keep_alive(Some(60));
    assert_eq!(s.timer, Timer::Close { expires_at: 9 });
}

#[test]
fn timer_keeps_alive() {
    let mut timer = Timer::default();
    assert!(!timer.should_keep_alive(1000));
    assert_eq!(timer.poll_at(), None);
    timer.set_keep_alive();
    assert!(timer.should_keep_alive(0));
    timer.rewind_keep_alive(1000, Some(50));
    assert!(!timer.should_keep_alive(1049));
    assert!(timer.should_keep_alive(1050));
    assert_eq!(timer.poll_at(), Some(1050));
    timer.set_keep_alive();
    assert_eq!(timer.poll_at(), Some(1050));
    timer.set_for_idle(1100, Some(50));
    assert_eq!(timer.poll_at(), Some(1150));
    timer.set_for_retransmit(1200);
    timer.rewind_keep_alive(1200, Some(50));
    assert!(!timer.should_keep_alive(9999));
}

#[test]
fn timer_backs_off() {
    let mut timer = Timer::default();
    timer.set_for_retransmit(0);
    let mut due = RETRANSMIT_DELAY;
    for _ in 0..8 {
        assert_eq!(timer.poll_at(), Some(due));
        assert_eq!(timer.should_retransmit(due - 1), None);
        assert!(timer.should_retransmit(due).is_some());
        // Before it is due, sending something else does not change the wait.
        timer.set_for_retransmit(due - 1);
        assert_eq!(timer.poll_at(), Some(due));
        timer.set_for_retransmit(due);
        due *= 2;
    }
}

#[test]
fn timer_waits_for_the_end() {
    let mut timer = Timer::default();
    assert!(!timer.should_close(u64::MAX));
    timer.set_for_close(5);
    assert_eq!(timer.poll_at(), Some(5 + CLOSE_DELAY));
    assert!(!timer.should_close(4 + CLOSE_DELAY));
    assert!(timer.should_close(5 + CLOSE_DELAY));
    timer.set_for_retransmit(9);
    assert_eq!(timer, Timer::Close { expires_at: 5 + CLOSE_DELAY });
    timer.set_for_idle(9, None);
    assert_eq!(timer, Timer::default());
}
