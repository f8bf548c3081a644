use tcp_socket::error::{Error, Result};
use tcp_socket::phy::DeviceLimits;
use tcp_socket::socket::timer::CLOSE_DELAY;
use tcp_socket::socket::{SocketBuffer, State, TcpSocket, Timer};
use tcp_socket::storage::Assembler;
use tcp_socket::wire::{
    IpAddress, IpEndpoint, IpProtocol, IpRepr, Ipv4Address, TcpControl, TcpRepr, TcpSeqNumber,
};

const LOCAL_IP:     IpAddress    = IpAddress::Ipv4(Ipv4Address([10, 0, 0, 1]));
const REMOTE_IP:    IpAddress    = IpAddress::Ipv4(Ipv4Address([10, 0, 0, 2]));
const OTHER_IP:     IpAddress    = IpAddress::Ipv4(Ipv4Address([10, 0, 0, 3]));
const LOCAL_PORT:   u16          = 80;
const REMOTE_PORT:  u16          = 49500;
const LOCAL_END:    IpEndpoint   = IpEndpoint { addr: LOCAL_IP,  port: LOCAL_PORT  };
const REMOTE_END:   IpEndpoint   = IpEndpoint { addr: REMOTE_IP, port: REMOTE_PORT };
const LOCAL_SEQ:    TcpSeqNumber = TcpSeqNumber(10000);
const REMOTE_SEQ:   TcpSeqNumber = TcpSeqNumber(-10000);

const SEND_IP_TEMPL: IpRepr = IpRepr::Unspecified {
    src_addr: LOCAL_IP, dst_addr: REMOTE_IP,
    protocol: IpProtocol::Tcp, payload_len: 20
};
const SEND_TEMPL: TcpRepr<'static> = TcpRepr {
    src_port: REMOTE_PORT, dst_port: LOCAL_PORT,
    control: TcpControl::Plain,
    seq_number: TcpSeqNumber(0), ack_number: Some(TcpSeqNumber(0)),
    window_len: 256, max_seg_size: None,
    payload: &[]
};
const _RECV_IP_TEMPL: IpRepr = IpRepr::Unspecified {
    src_addr: REMOTE_IP, dst_addr: LOCAL_IP,
    protocol: IpProtocol::Tcp, payload_len: 20
};
const RECV_TEMPL:  TcpRepr<'static> = TcpRepr {
    src_port: LOCAL_PORT, dst_port: REMOTE_PORT,
    control: TcpControl::Plain,
    seq_number: TcpSeqNumber(0), ack_number: Some(TcpSeqNumber(0)),
    window_len: 64, max_seg_size: None,
    payload: &[]
};

fn send(
    socket: &mut TcpSocket,
    timestamp: u64,
    repr: &TcpRepr,
) -> Result<Option<TcpRepr<'static>>> {
    let ip_repr = IpRepr::Unspecified {
        src_addr: REMOTE_IP,
        dst_addr: LOCAL_IP,
        protocol: IpProtocol::Tcp,
        payload_len: repr.buffer_len(),
    };
    assert!(socket.accepts(&ip_repr, repr));
    match socket.process(timestamp, &ip_repr, repr) {
        Ok(Some((_ip_repr, repr))) => Ok(Some(repr)),
        Ok(None) => Ok(None),
        Err(err) => Err(err),
    }
}

fn recv<F>(socket: &mut TcpSocket, timestamp: u64, mut f: F)
where
    F: FnMut(Result<TcpRepr>),
{
    let mut limits = DeviceLimits::default();
    limits.max_transmission_unit = 1520;
    let result = socket.dispatch(timestamp, &limits, |(ip_repr, tcp_repr)| {
        let ip_repr = ip_repr.lower(&[LOCAL_END.addr]).unwrap();

        assert_eq!(ip_repr.protocol(), IpProtocol::Tcp);
        assert_eq!(ip_repr.src_addr(), LOCAL_IP);
        assert_eq!(ip_repr.dst_addr(), REMOTE_IP);
        assert_eq!(ip_repr.payload_len(), tcp_repr.buffer_len());

        Ok(f(Ok(tcp_repr)))
    });
    match result {
        Ok(()) => (),
        Err(e) => f(Err(e)),
    }
}

/// Expect one packet, or the reason why there is none. Most of the time we don't care about
/// the PSH flag.
fn recv_one(socket: &mut TcpSocket, timestamp: u64, expected: Result<TcpRepr>) {
    let mut called = false;
    recv(socket, timestamp, |result| {
        let result = result.map(|mut repr| {
            repr.control = repr.control.quash_psh();
            repr
        });
        assert_eq!(result, expected);
        called = true;
    });
    assert!(called);
}

/// Expect one packet, down to the PSH flag, or the reason why there is none.
fn recv_exact(socket: &mut TcpSocket, timestamp: u64, expected: Result<TcpRepr>) {
    let mut called = false;
    recv(socket, timestamp, |result| {
        assert_eq!(result, expected);
        called = true;
    });
    assert!(called);
}

/// Expect the given packets and no more.
fn recv_all(socket: &mut TcpSocket, expected: &[TcpRepr]) {
    for repr in expected {
        recv_one(socket, 0, Ok(*repr));
    }
    recv_one(socket, 0, Err(Error::Exhausted));
}

fn sanity(s1: &TcpSocket, s2: &TcpSocket) {
    assert_eq!(s1.state, s2.state, "state");
    assert_eq!(s1.listen_address, s2.listen_address, "listen_address");
    assert_eq!(s1.local_endpoint, s2.local_endpoint, "local_endpoint");
    assert_eq!(s1.remote_endpoint, s2.remote_endpoint, "remote_endpoint");
    assert_eq!(s1.local_seq_no, s2.local_seq_no, "local_seq_no");
    assert_eq!(s1.remote_seq_no, s2.remote_seq_no, "remote_seq_no");
    assert_eq!(s1.remote_last_seq, s2.remote_last_seq, "remote_last_seq");
    assert_eq!(s1.remote_last_ack, s2.remote_last_ack, "remote_last_ack");
    assert_eq!(s1.remote_last_win, s2.remote_last_win, "remote_last_win");
    assert_eq!(s1.remote_win_len, s2.remote_win_len, "remote_win_len");
    assert_eq!(s1.timer, s2.timer, "timer");
}

fn socket() -> TcpSocket {
    let rx_buffer = SocketBuffer::new(vec![0; 64]);
    let tx_buffer = SocketBuffer::new(vec![0; 64]);
    TcpSocket::new(rx_buffer, tx_buffer)
}

// =========================================================================================//
// Tests for the CLOSED state.
// =========================================================================================//
#[test]
fn test_closed_reject() {
    let s = socket();
    assert_eq!(s.state, State::Closed);

    let tcp_repr = TcpRepr {
        control: TcpControl::Syn,
        ..SEND_TEMPL
    };
    assert!(!s.accepts(&SEND_IP_TEMPL, &tcp_repr));
}

#[test]
fn test_closed_reject_after_listen() {
    let mut s = socket();
    s.listen(LOCAL_END).unwrap();
    s.close();

    let tcp_repr = TcpRepr {
        control: TcpControl::Syn,
        ..SEND_TEMPL
    };
    assert!(!s.accepts(&SEND_IP_TEMPL, &tcp_repr));
}

#[test]
fn test_closed_close() {
    let mut s = socket();
    s.close();
    assert_eq!(s.state, State::Closed);
}

// =========================================================================================//
// Tests for the LISTEN state.
// =========================================================================================//
fn socket_listen() -> TcpSocket {
    let mut s = socket();
    s.state           = State::Listen;
    s.local_endpoint  = IpEndpoint::new(IpAddress::default(), LOCAL_PORT);
    s
}

#[test]
fn test_listen_sanity() {
    let mut s = socket();
    s.listen(LOCAL_PORT).unwrap();
    sanity(&s, &socket_listen());
}

#[test]
fn test_listen_validation() {
    let mut s = socket();
    assert_eq!(s.listen(0), Err(Error::Unaddressable));
}

#[test]
fn test_listen_twice() {
    let mut s = socket();
    assert_eq!(s.listen(80), Ok(()));
    assert_eq!(s.listen(80), Err(Error::Illegal));
}

#[test]
fn test_listen_syn() {
    let mut s = socket_listen();
    assert_eq!(send(&mut s, 0, &TcpRepr {
        control:    TcpControl::Syn,
        seq_number: REMOTE_SEQ,
        ack_number: None,
        ..SEND_TEMPL
    }), Ok(None));
    sanity(&s, &socket_syn_received());
}

#[test]
fn test_listen_syn_reject_ack() {
    let s = socket_listen();

    let tcp_repr = TcpRepr {
        control: TcpControl::Syn,
        seq_number: REMOTE_SEQ,
        ack_number: Some(LOCAL_SEQ),
        ..SEND_TEMPL
    };
    assert!(!s.accepts(&SEND_IP_TEMPL, &tcp_repr));

    assert_eq!(s.state, State::Listen);
}

#[test]
fn test_listen_rst() {
    let mut s = socket_listen();
    assert_eq!(send(&mut s, 0, &TcpRepr {
        control: TcpControl::Rst,
        seq_number: REMOTE_SEQ,
        ack_number: None,
        ..SEND_TEMPL
    }), Err(Error::Dropped));
}

#[test]
fn test_listen_close() {
    let mut s = socket_listen();
    s.close();
    assert_eq!(s.state, State::Closed);
}

// =========================================================================================//
// Tests for the SYN-RECEIVED state.
// =========================================================================================//
fn socket_syn_received() -> TcpSocket {
    let mut s = socket();
    s.state           = State::SynReceived;
    s.local_endpoint  = LOCAL_END;
    s.remote_endpoint = REMOTE_END;
    s.local_seq_no    = LOCAL_SEQ;
    s.remote_seq_no   = REMOTE_SEQ + 1;
    s.remote_last_seq = LOCAL_SEQ;
    s.remote_win_len  = 256;
    s
}

#[test]
fn test_syn_received_ack() {
    let mut s = socket_syn_received();
    recv_all(&mut s, &[TcpRepr {
        control: TcpControl::Syn,
        seq_number: LOCAL_SEQ,
        ack_number: Some(REMOTE_SEQ + 1),
        max_seg_size: Some(1480),
        ..RECV_TEMPL
    }]);
    assert_eq!(send(&mut s, 0, &TcpRepr {
        seq_number: REMOTE_SEQ + 1,
        ack_number: Some(LOCAL_SEQ + 1),
        ..SEND_TEMPL
    }), Ok(None));
    assert_eq!(s.state, State::Established);
    sanity(&s, &socket_established());
}

#[test]
fn test_syn_received_fin() {
    let mut s = socket_syn_received();
    recv_all(&mut s, &[TcpRepr {
        control: TcpControl::Syn,
        seq_number: LOCAL_SEQ,
        ack_number: Some(REMOTE_SEQ + 1),
        max_seg_size: Some(1480),
        ..RECV_TEMPL
    }]);
    assert_eq!(send(&mut s, 0, &TcpRepr {
        control: TcpControl::Fin,
        seq_number: REMOTE_SEQ + 1,
        ack_number: Some(LOCAL_SEQ + 1),
        payload: &b"abcdef"[..],
        ..SEND_TEMPL
    }), Ok(None));
    recv_all(&mut s, &[TcpRepr {
        seq_number: LOCAL_SEQ + 1,
        ack_number: Some(REMOTE_SEQ + 1 + 6 + 1),
        window_len: 58,
        ..RECV_TEMPL
    }]);
    assert_eq!(s.state, State::CloseWait);
    sanity(&s, &TcpSocket {
        remote_last_ack: Some(REMOTE_SEQ + 1 + 6 + 1),
        remote_last_win: 58,
        ..socket_close_wait()
    });
}

#[test]
fn test_syn_received_rst() {
    let mut s = socket_syn_received();
    recv_all(&mut s, &[TcpRepr {
        control: TcpControl::Syn,
        seq_number: LOCAL_SEQ,
        ack_number: Some(REMOTE_SEQ + 1),
        max_seg_size: Some(1480),
        ..RECV_TEMPL
    }]);
    assert_eq!(send(&mut s, 0, &TcpRepr {
        control: TcpControl::Rst,
        seq_number: REMOTE_SEQ + 1,
        ack_number: Some(LOCAL_SEQ),
        ..SEND_TEMPL
    }), Ok(None));
    assert_eq!(s.state, State::Listen);
    assert_eq!(s.local_endpoint, IpEndpoint::new(IpAddress::Unspecified, LOCAL_END.port));
    assert_eq!(s.remote_endpoint, IpEndpoint::default());
}

#[test]
fn test_syn_received_close() {
    let mut s = socket_syn_received();
    s.close();
    assert_eq!(s.state, State::FinWait1);
}

// =========================================================================================//
// Tests for the SYN-SENT state.
// =========================================================================================//
fn socket_syn_sent() -> TcpSocket {
    let mut s = socket();
    s.state           = State::SynSent;
    s.local_endpoint  = IpEndpoint::new(IpAddress::v4(0, 0, 0, 0), LOCAL_PORT);
    s.remote_endpoint = REMOTE_END;
    s.local_seq_no    = LOCAL_SEQ;
    s.remote_last_seq = LOCAL_SEQ;
    s
}

#[test]
fn test_connect_validation() {
    let mut s = socket();
    assert_eq!(s.connect((IpAddress::v4(0, 0, 0, 0), 80), LOCAL_END),
               Err(Error::Unaddressable));
    assert_eq!(s.connect(REMOTE_END, (IpAddress::v4(10, 0, 0, 0), 0)),
               Err(Error::Unaddressable));
    assert_eq!(s.connect((IpAddress::v4(10, 0, 0, 0), 0), LOCAL_END),
               Err(Error::Unaddressable));
    assert_eq!(s.connect((IpAddress::Unspecified, 80), LOCAL_END),
               Err(Error::Unaddressable));
}

#[test]
fn test_connect() {
    let mut s = socket();
    s.local_seq_no = LOCAL_SEQ;
    s.connect(REMOTE_END, LOCAL_END.port).unwrap();
    assert_eq!(s.local_endpoint, IpEndpoint::new(IpAddress::v4(0, 0, 0, 0), LOCAL_END.port));
    recv_all(&mut s, &[TcpRepr {
        control:    TcpControl::Syn,
        seq_number: LOCAL_SEQ,
        ack_number: None,
        max_seg_size: Some(1480),
        ..RECV_TEMPL
    }]);
    assert_eq!(send(&mut s, 0, &TcpRepr {
        control:    TcpControl::Syn,
        seq_number: REMOTE_SEQ,
        ack_number: Some(LOCAL_SEQ + 1),
        max_seg_size: Some(1400),
        ..SEND_TEMPL
    }), Ok(None));
    assert_eq!(s.local_endpoint, LOCAL_END);
}

#[test]
fn test_connect_unspecified_local() {
    let mut s = socket();
    assert_eq!(s.connect(REMOTE_END, (IpAddress::v4(0, 0, 0, 0), 80)),
               Ok(()));
    s.abort();
    assert_eq!(s.connect(REMOTE_END, (IpAddress::Unspecified, 80)),
               Ok(()));
    s.abort();
}

#[test]
fn test_connect_specified_local() {
    let mut s = socket();
    assert_eq!(s.connect(REMOTE_END, (IpAddress::v4(10, 0, 0, 2), 80)),
               Ok(()));
}

#[test]
fn test_connect_twice() {
    let mut s = socket();
    assert_eq!(s.connect(REMOTE_END, (IpAddress::Unspecified, 80)),
               Ok(()));
    assert_eq!(s.connect(REMOTE_END, (IpAddress::Unspecified, 80)),
               Err(Error::Illegal));
}

#[test]
fn test_syn_sent_sanity() {
    let mut s = socket();
    s.local_seq_no    = LOCAL_SEQ;
    s.connect(REMOTE_END, LOCAL_END).unwrap();
    sanity(&s, &socket_syn_sent());
}

#[test]
fn test_syn_sent_syn_ack() {
    let mut s = socket_syn_sent();
    recv_all(&mut s, &[TcpRepr {
        control:    TcpControl::Syn,
        seq_number: LOCAL_SEQ,
        ack_number: None,
        max_seg_size: Some(1480),
        ..RECV_TEMPL
    }]);
    assert_eq!(send(&mut s, 0, &TcpRepr {
        control:    TcpControl::Syn,
        seq_number: REMOTE_SEQ,
        ack_number: Some(LOCAL_SEQ + 1),
        max_seg_size: Some(1400),
        ..SEND_TEMPL
    }), Ok(None));
    recv_all(&mut s, &[TcpRepr {
        seq_number: LOCAL_SEQ + 1,
        ack_number: Some(REMOTE_SEQ + 1),
        ..RECV_TEMPL
    }]);
    recv_one(&mut s, 1000, Err(Error::Exhausted));
    assert_eq!(s.state, State::Established);
    sanity(&s, &socket_established());
}

#[test]
fn test_syn_sent_rst() {
    let mut s = socket_syn_sent();
    assert_eq!(send(&mut s, 0, &TcpRepr {
        control: TcpControl::Rst,
        seq_number: REMOTE_SEQ,
        ack_number: Some(LOCAL_SEQ + 1),
        ..SEND_TEMPL
    }), Ok(None));
    assert_eq!(s.state, State::Closed);
}

#[test]
fn test_syn_sent_rst_no_ack() {
    let mut s = socket_syn_sent();
    assert_eq!(send(&mut s, 0, &TcpRepr {
        control: TcpControl::Rst,
        seq_number: REMOTE_SEQ,
        ack_number: None,
        ..SEND_TEMPL
    }), Err(Error::Dropped));
    assert_eq!(s.state, State::SynSent);
}

#[test]
fn test_syn_sent_rst_bad_ack() {
    let mut s = socket_syn_sent();
    assert_eq!(send(&mut s, 0, &TcpRepr {
        control: TcpControl::Rst,
        seq_number: REMOTE_SEQ,
        ack_number: Some(TcpSeqNumber(1234)),
        ..SEND_TEMPL
    }), Err(Error::Dropped));
    assert_eq!(s.state, State::SynSent);
}

#[test]
fn test_syn_sent_close() {
    let mut s = socket();
    s.close();
    assert_eq!(s.state, State::Closed);
}

// =========================================================================================//
// Tests for the ESTABLISHED state.
// =========================================================================================//
fn socket_established() -> TcpSocket {
    let mut s = socket_syn_received();
    s.state           = State::Established;
    s.local_seq_no    = LOCAL_SEQ + 1;
    s.remote_last_seq = LOCAL_SEQ + 1;
    s.remote_last_ack = Some(REMOTE_SEQ + 1);
    s.remote_last_win = 64;
    s
}

#[test]
fn test_established_recv() {
    let mut s = socket_established();
    assert_eq!(send(&mut s, 0, &TcpRepr {
        seq_number: REMOTE_SEQ + 1,
        ack_number: Some(LOCAL_SEQ + 1),
        payload: &b"abcdef"[..],
        ..SEND_TEMPL
    }), Ok(None));
    recv_all(&mut s, &[TcpRepr {
        seq_number: LOCAL_SEQ + 1,
        ack_number: Some(REMOTE_SEQ + 1 + 6),
        window_len: 58,
        ..RECV_TEMPL
    }]);
    assert_eq!(s.rx_buffer.dequeue_many(6), &b"abcdef"[..]);
}

#[test]
fn test_established_send() {
    let mut s = socket_established();
    // First roundtrip after establishing.
    s.send_slice(b"abcdef").unwrap();
    recv_all(&mut s, &[TcpRepr {
        seq_number: LOCAL_SEQ + 1,
        ack_number: Some(REMOTE_SEQ + 1),
        payload: &b"abcdef"[..],
        ..RECV_TEMPL
    }]);
    assert_eq!(s.tx_buffer.len(), 6);
    assert_eq!(send(&mut s, 0, &TcpRepr {
        seq_number: REMOTE_SEQ + 1,
        ack_number: Some(LOCAL_SEQ + 1 + 6),
        ..SEND_TEMPL
    }), Ok(None));
    assert_eq!(s.tx_buffer.len(), 0);
    // Second roundtrip.
    s.send_slice(b"foobar").unwrap();
    recv_all(&mut s, &[TcpRepr {
        seq_number: LOCAL_SEQ + 1 + 6,
        ack_number: Some(REMOTE_SEQ + 1),
        payload: &b"foobar"[..],
        ..RECV_TEMPL
    }]);
    assert_eq!(send(&mut s, 0, &TcpRepr {
        seq_number: REMOTE_SEQ + 1,
        ack_number: Some(LOCAL_SEQ + 1 + 6 + 6),
        ..SEND_TEMPL
    }), Ok(None));
    assert_eq!(s.tx_buffer.len(), 0);
}

#[test]
fn test_established_send_no_ack_send() {
    let mut s = socket_established();
    s.send_slice(b"abcdef").unwrap();
    recv_all(&mut s, &[TcpRepr {
        seq_number: LOCAL_SEQ + 1,
        ack_number: Some(REMOTE_SEQ + 1),
        payload: &b"abcdef"[..],
        ..RECV_TEMPL
    }]);
    s.send_slice(b"foobar").unwrap();
    recv_all(&mut s, &[TcpRepr {
        seq_number: LOCAL_SEQ + 1 + 6,
        ack_number: Some(REMOTE_SEQ + 1),
        payload: &b"foobar"[..],
        ..RECV_TEMPL
    }]);
}

#[test]
fn test_established_send_buf_gt_win() {
    let mut data = [0; 32];
    for (i, elem) in data.iter_mut().enumerate() {
        *elem = i as u8
    }

    let mut s = socket_established();
    s.remote_win_len = 16;
    s.send_slice(&data[..]).unwrap();
    recv_all(&mut s, &[TcpRepr {
        seq_number: LOCAL_SEQ + 1,
        ack_number: Some(REMOTE_SEQ + 1),
        payload: &data[0..16],
        ..RECV_TEMPL
    }, TcpRepr {
        seq_number: LOCAL_SEQ + 1 + 16,
        ack_number: Some(REMOTE_SEQ + 1),
        payload: &data[16..32],
        ..RECV_TEMPL
    }]);
}

#[test]
fn test_established_no_ack() {
    let mut s = socket_established();
    assert_eq!(send(&mut s, 0, &TcpRepr {
        seq_number: REMOTE_SEQ + 1,
        ack_number: None,
        ..SEND_TEMPL
    }), Err(Error::Dropped));
}

#[test]
fn test_established_bad_ack() {
    let mut s = socket_established();
    // Already acknowledged data.
    assert_eq!(send(&mut s, 0, &TcpRepr {
        seq_number: REMOTE_SEQ + 1,
        ack_number: Some(TcpSeqNumber(LOCAL_SEQ.0 - 1)),
        ..SEND_TEMPL
    }), Err(Error::Dropped));
    assert_eq!(s.local_seq_no, LOCAL_SEQ + 1);
    // Data not yet transmitted.
    assert_eq!(send(&mut s, 0, &TcpRepr {
        seq_number: REMOTE_SEQ + 1,
        ack_number: Some(LOCAL_SEQ + 10),
        ..SEND_TEMPL
    }), Ok(Some(TcpRepr {
        seq_number: LOCAL_SEQ + 1,
        ack_number: Some(REMOTE_SEQ + 1),
        ..RECV_TEMPL
    })));
    assert_eq!(s.local_seq_no, LOCAL_SEQ + 1);
}

#[test]
fn test_established_bad_seq() {
    let mut s = socket_established();
    // Data outside of receive window.
    assert_eq!(send(&mut s, 0, &TcpRepr {
        seq_number: REMOTE_SEQ + 1 + 256,
        ack_number: Some(LOCAL_SEQ + 1),
        ..SEND_TEMPL
    }), Ok(Some(TcpRepr {
        seq_number: LOCAL_SEQ + 1,
        ack_number: Some(REMOTE_SEQ + 1),
        ..RECV_TEMPL
    })));
    assert_eq!(s.remote_seq_no, REMOTE_SEQ + 1);
}

#[test]
fn test_established_fin() {
    let mut s = socket_established();
    assert_eq!(send(&mut s, 0, &TcpRepr {
        control: TcpControl::Fin,
        seq_number: REMOTE_SEQ + 1,
        ack_number: Some(LOCAL_SEQ + 1),
        ..SEND_TEMPL
    }), Ok(None));
    recv_all(&mut s, &[TcpRepr {
        seq_number: LOCAL_SEQ + 1,
        ack_number: Some(REMOTE_SEQ + 1 + 1),
        ..RECV_TEMPL
    }]);
    assert_eq!(s.state, State::CloseWait);
    sanity(&s, &socket_close_wait());
}

#[test]
fn test_established_send_fin() {
    let mut s = socket_established();
    s.send_slice(b"abcdef").unwrap();
    assert_eq!(send(&mut s, 0, &TcpRepr {
        control: TcpControl::Fin,
        seq_number: REMOTE_SEQ + 1,
        ack_number: Some(LOCAL_SEQ + 1),
        ..SEND_TEMPL
    }), Ok(None));
    assert_eq!(s.state, State::CloseWait);
    recv_all(&mut s, &[TcpRepr {
        seq_number: LOCAL_SEQ + 1,
        ack_number: Some(REMOTE_SEQ + 1 + 1),
        payload: &b"abcdef"[..],
        ..RECV_TEMPL
    }]);
}

#[test]
fn test_established_rst() {
    let mut s = socket_established();
    assert_eq!(send(&mut s, 0, &TcpRepr {
        control: TcpControl::Rst,
        seq_number: REMOTE_SEQ + 1,
        ack_number: Some(LOCAL_SEQ + 1),
        ..SEND_TEMPL
    }), Ok(None));
    assert_eq!(s.state, State::Closed);
}

#[test]
fn test_established_rst_no_ack() {
    let mut s = socket_established();
    assert_eq!(send(&mut s, 0, &TcpRepr {
        control: TcpControl::Rst,
        seq_number: REMOTE_SEQ + 1,
        ack_number: None,
        ..SEND_TEMPL
    }), Ok(None));
    assert_eq!(s.state, State::Closed);
}

#[test]
fn test_established_close() {
    let mut s = socket_established();
    s.close();
    assert_eq!(s.state, State::FinWait1);
    sanity(&s, &socket_fin_wait_1());
}

#[test]
fn test_established_abort() {
    let mut s = socket_established();
    s.abort();
    assert_eq!(s.state, State::Closed);
    recv_all(&mut s, &[TcpRepr {
        control: TcpControl::Rst,
        seq_number: LOCAL_SEQ + 1,
        ack_number: Some(REMOTE_SEQ + 1),
        ..RECV_TEMPL
    }]);
}

// =========================================================================================//
// Tests for the FIN-WAIT-1 state.
// =========================================================================================//
fn socket_fin_wait_1() -> TcpSocket {
    let mut s = socket_established();
    s.state           = State::FinWait1;
    s
}

#[test]
fn test_fin_wait_1_fin_ack() {
    let mut s = socket_fin_wait_1();
    recv_all(&mut s, &[TcpRepr {
        control: TcpControl::Fin,
        seq_number: LOCAL_SEQ + 1,
        ack_number: Some(REMOTE_SEQ + 1),
        ..RECV_TEMPL
    }]);
    assert_eq!(send(&mut s, 0, &TcpRepr {
        seq_number: REMOTE_SEQ + 1,
        ack_number: Some(LOCAL_SEQ + 1 + 1),
        ..SEND_TEMPL
    }), Ok(None));
    assert_eq!(s.state, State::FinWait2);
    sanity(&s, &socket_fin_wait_2());
}

#[test]
fn test_fin_wait_1_fin_fin() {
    let mut s = socket_fin_wait_1();
    recv_all(&mut s, &[TcpRepr {
        control: TcpControl::Fin,
        seq_number: LOCAL_SEQ + 1,
        ack_number: Some(REMOTE_SEQ + 1),
        ..RECV_TEMPL
    }]);
    assert_eq!(send(&mut s, 0, &TcpRepr {
        control: TcpControl::Fin,
        seq_number: REMOTE_SEQ + 1,
        ack_number: Some(LOCAL_SEQ + 1),
        ..SEND_TEMPL
    }), Ok(None));
    assert_eq!(s.state, State::Closing);
    sanity(&s, &socket_closing());
}

#[test]
fn test_fin_wait_1_fin_with_data_queued() {
    let mut s = socket_established();
    s.remote_win_len = 6;
    s.send_slice(b"abcdef123456").unwrap();
    s.close();
    recv_one(&mut s, 0, Ok(TcpRepr {
        seq_number: LOCAL_SEQ + 1,
        ack_number: Some(REMOTE_SEQ + 1),
        payload:    &b"abcdef"[..],
        ..RECV_TEMPL
    }));
    assert_eq!(send(&mut s, 0, &TcpRepr {
        seq_number: REMOTE_SEQ + 1,
        ack_number: Some(LOCAL_SEQ + 1 + 6),
        ..SEND_TEMPL
    }), Ok(None));
    assert_eq!(s.state, State::FinWait1);
}

#[test]
fn test_fin_wait_1_close() {
    let mut s = socket_fin_wait_1();
    s.close();
    assert_eq!(s.state, State::FinWait1);
}

// =========================================================================================//
// Tests for the FIN-WAIT-2 state.
// =========================================================================================//
fn socket_fin_wait_2() -> TcpSocket {
    let mut s = socket_fin_wait_1();
    s.state           = State::FinWait2;
    s.local_seq_no    = LOCAL_SEQ + 1 + 1;
    s.remote_last_seq = LOCAL_SEQ + 1 + 1;
    s
}

#[test]
fn test_fin_wait_2_fin() {
    let mut s = socket_fin_wait_2();
    assert_eq!(send(&mut s, 1_000, &TcpRepr {
        control: TcpControl::Fin,
        seq_number: REMOTE_SEQ + 1,
        ack_number: Some(LOCAL_SEQ + 1 + 1),
        ..SEND_TEMPL
    }), Ok(None));
    assert_eq!(s.state, State::TimeWait);
    sanity(&s, &socket_time_wait(false));
}

#[test]
fn test_fin_wait_2_close() {
    let mut s = socket_fin_wait_2();
    s.close();
    assert_eq!(s.state, State::FinWait2);
}

// =========================================================================================//
// Tests for the CLOSING state.
// =========================================================================================//
fn socket_closing() -> TcpSocket {
    let mut s = socket_fin_wait_1();
    s.state           = State::Closing;
    s.remote_last_seq = LOCAL_SEQ + 1 + 1;
    s.remote_seq_no   = REMOTE_SEQ + 1 + 1;
    s
}

#[test]
fn test_closing_ack_fin() {
    let mut s = socket_closing();
    recv_all(&mut s, &[TcpRepr {
        seq_number: LOCAL_SEQ + 1 + 1,
        ack_number: Some(REMOTE_SEQ + 1 + 1),
        ..RECV_TEMPL
    }]);
    assert_eq!(send(&mut s, 1_000, &TcpRepr {
        seq_number: REMOTE_SEQ + 1 + 1,
        ack_number: Some(LOCAL_SEQ + 1 + 1),
        ..SEND_TEMPL
    }), Ok(None));
    assert_eq!(s.state, State::TimeWait);
    sanity(&s, &socket_time_wait(true));
}

#[test]
fn test_closing_close() {
    let mut s = socket_closing();
    s.close();
    assert_eq!(s.state, State::Closing);
}

// =========================================================================================//
// Tests for the TIME-WAIT state.
// =========================================================================================//
fn socket_time_wait(from_closing: bool) -> TcpSocket {
    let mut s = socket_fin_wait_2();
    s.state           = State::TimeWait;
    s.remote_seq_no   = REMOTE_SEQ + 1 + 1;
    if from_closing {
        s.remote_last_ack = Some(REMOTE_SEQ + 1 + 1);
    }
    s.timer           = Timer::Close { expires_at: 1_000 + CLOSE_DELAY };
    s
}

#[test]
fn test_time_wait_from_fin_wait_2_ack() {
    let mut s = socket_time_wait(false);
    recv_all(&mut s, &[TcpRepr {
        seq_number: LOCAL_SEQ + 1 + 1,
        ack_number: Some(REMOTE_SEQ + 1 + 1),
        ..RECV_TEMPL
    }]);
}

#[test]
fn test_time_wait_from_closing_no_ack() {
    let mut s = socket_time_wait(true);
    recv_all(&mut s, &[]);
}

#[test]
fn test_time_wait_close() {
    let mut s = socket_time_wait(false);
    s.close();
    assert_eq!(s.state, State::TimeWait);
}

#[test]
fn test_time_wait_retransmit() {
    let mut s = socket_time_wait(false);
    recv_all(&mut s, &[TcpRepr {
        seq_number: LOCAL_SEQ + 1 + 1,
        ack_number: Some(REMOTE_SEQ + 1 + 1),
        ..RECV_TEMPL
    }]);
    assert_eq!(send(&mut s, 5_000, &TcpRepr {
        control: TcpControl::Fin,
        seq_number: REMOTE_SEQ + 1,
        ack_number: Some(LOCAL_SEQ + 1 + 1),
        ..SEND_TEMPL
    }), Ok(Some(TcpRepr {
        seq_number: LOCAL_SEQ + 1 + 1,
        ack_number: Some(REMOTE_SEQ + 1 + 1),
        ..RECV_TEMPL
    })));
    assert_eq!(s.timer, Timer::Close { expires_at: 5_000 + CLOSE_DELAY });
}

#[test]
fn test_time_wait_timeout() {
    let mut s = socket_time_wait(false);
    recv_all(&mut s, &[TcpRepr {
        seq_number: LOCAL_SEQ + 1 + 1,
        ack_number: Some(REMOTE_SEQ + 1 + 1),
        ..RECV_TEMPL
    }]);
    assert_eq!(s.state, State::TimeWait);
    recv_one(&mut s, 60_000, Err(Error::Exhausted));
    assert_eq!(s.state, State::Closed);
}

// =========================================================================================//
// Tests for the CLOSE-WAIT state.
// =========================================================================================//
fn socket_close_wait() -> TcpSocket {
    let mut s = socket_established();
    s.state           = State::CloseWait;
    s.remote_seq_no   = REMOTE_SEQ + 1 + 1;
    s.remote_last_ack = Some(REMOTE_SEQ + 1 + 1);
    s
}

#[test]
fn test_close_wait_ack() {
    let mut s = socket_close_wait();
    s.send_slice(b"abcdef").unwrap();
    recv_all(&mut s, &[TcpRepr {
        seq_number: LOCAL_SEQ + 1,
        ack_number: Some(REMOTE_SEQ + 1 + 1),
        payload: &b"abcdef"[..],
        ..RECV_TEMPL
    }]);
    assert_eq!(send(&mut s, 0, &TcpRepr {
        seq_number: REMOTE_SEQ + 1 + 1,
        ack_number: Some(LOCAL_SEQ + 1 + 6),
        ..SEND_TEMPL
    }), Ok(None));
}

#[test]
fn test_close_wait_close() {
    let mut s = socket_close_wait();
    s.close();
    assert_eq!(s.state, State::LastAck);
    sanity(&s, &socket_last_ack());
}

// =========================================================================================//
// Tests for the LAST-ACK state.
// =========================================================================================//
fn socket_last_ack() -> TcpSocket {
    let mut s = socket_close_wait();
    s.state           = State::LastAck;
    s
}

#[test]
fn test_last_ack_fin_ack() {
    let mut s = socket_last_ack();
    recv_all(&mut s, &[TcpRepr {
        control: TcpControl::Fin,
        seq_number: LOCAL_SEQ + 1,
        ack_number: Some(REMOTE_SEQ + 1 + 1),
        ..RECV_TEMPL
    }]);
    assert_eq!(s.state, State::LastAck);
    assert_eq!(send(&mut s, 0, &TcpRepr {
        seq_number: REMOTE_SEQ + 1 + 1,
        ack_number: Some(LOCAL_SEQ + 1 + 1),
        ..SEND_TEMPL
    }), Ok(None));
    assert_eq!(s.state, State::Closed);
}

#[test]
fn test_last_ack_close() {
    let mut s = socket_last_ack();
    s.close();
    assert_eq!(s.state, State::LastAck);
}

// =========================================================================================//
// Tests for transitioning through multiple states.
// =========================================================================================//
#[test]
fn test_listen() {
    let mut s = socket();
    s.listen(IpEndpoint::new(IpAddress::default(), LOCAL_PORT)).unwrap();
    assert_eq!(s.state, State::Listen);
}

#[test]
fn test_three_way_handshake() {
    let mut s = socket_listen();
    assert_eq!(send(&mut s, 0, &TcpRepr {
        control: TcpControl::Syn,
        seq_number: REMOTE_SEQ,
        ack_number: None,
        ..SEND_TEMPL
    }), Ok(None));
    assert_eq!(s.state(), State::SynReceived);
    assert_eq!(s.local_endpoint(), LOCAL_END);
    assert_eq!(s.remote_endpoint(), REMOTE_END);
    recv_all(&mut s, &[TcpRepr {
        control: TcpControl::Syn,
        seq_number: LOCAL_SEQ,
        ack_number: Some(REMOTE_SEQ + 1),
        max_seg_size: Some(1480),
        ..RECV_TEMPL
    }]);
    assert_eq!(send(&mut s, 0, &TcpRepr {
        seq_number: REMOTE_SEQ + 1,
        ack_number: Some(LOCAL_SEQ + 1),
        ..SEND_TEMPL
    }), Ok(None));
    assert_eq!(s.state(), State::Established);
    assert_eq!(s.local_seq_no, LOCAL_SEQ + 1);
    assert_eq!(s.remote_seq_no, REMOTE_SEQ + 1);
}

#[test]
fn test_remote_close() {
    let mut s = socket_established();
    assert_eq!(send(&mut s, 0, &TcpRepr {
        control: TcpControl::Fin,
        seq_number: REMOTE_SEQ + 1,
        ack_number: Some(LOCAL_SEQ + 1),
        ..SEND_TEMPL
    }), Ok(None));
    assert_eq!(s.state, State::CloseWait);
    recv_all(&mut s, &[TcpRepr {
        seq_number: LOCAL_SEQ + 1,
        ack_number: Some(REMOTE_SEQ + 1 + 1),
        ..RECV_TEMPL
    }]);
    s.close();
    assert_eq!(s.state, State::LastAck);
    recv_all(&mut s, &[TcpRepr {
        control: TcpControl::Fin,
        seq_number: LOCAL_SEQ + 1,
        ack_number: Some(REMOTE_SEQ + 1 + 1),
        ..RECV_TEMPL
    }]);
    assert_eq!(send(&mut s, 0, &TcpRepr {
        seq_number: REMOTE_SEQ + 1 + 1,
        ack_number: Some(LOCAL_SEQ + 1 + 1),
        ..SEND_TEMPL
    }), Ok(None));
    assert_eq!(s.state, State::Closed);
}

#[test]
fn test_local_close() {
    let mut s = socket_established();
    s.close();
    assert_eq!(s.state, State::FinWait1);
    recv_all(&mut s, &[TcpRepr {
        control: TcpControl::Fin,
        seq_number: LOCAL_SEQ + 1,
        ack_number: Some(REMOTE_SEQ + 1),
        ..RECV_TEMPL
    }]);
    assert_eq!(send(&mut s, 0, &TcpRepr {
        seq_number: REMOTE_SEQ + 1,
        ack_number: Some(LOCAL_SEQ + 1 + 1),
        ..SEND_TEMPL
    }), Ok(None));
    assert_eq!(s.state, State::FinWait2);
    assert_eq!(send(&mut s, 0, &TcpRepr {
        control: TcpControl::Fin,
        seq_number: REMOTE_SEQ + 1,
        ack_number: Some(LOCAL_SEQ + 1 + 1),
        ..SEND_TEMPL
    }), Ok(None));
    assert_eq!(s.state, State::TimeWait);
    recv_all(&mut s, &[TcpRepr {
        seq_number: LOCAL_SEQ + 1 + 1,
        ack_number: Some(REMOTE_SEQ + 1 + 1),
        ..RECV_TEMPL
    }]);
}

#[test]
fn test_simultaneous_close() {
    let mut s = socket_established();
    s.close();
    assert_eq!(s.state, State::FinWait1);
    recv_all(&mut s, &[TcpRepr { // due to reordering, this is logically located...
        control: TcpControl::Fin,
        seq_number: LOCAL_SEQ + 1,
        ack_number: Some(REMOTE_SEQ + 1),
        ..RECV_TEMPL
    }]);
    assert_eq!(send(&mut s, 0, &TcpRepr {
        control: TcpControl::Fin,
        seq_number: REMOTE_SEQ + 1,
        ack_number: Some(LOCAL_SEQ + 1),
        ..SEND_TEMPL
    }), Ok(None));
    assert_eq!(s.state, State::Closing);
    recv_all(&mut s, &[TcpRepr {
        seq_number: LOCAL_SEQ + 1 + 1,
        ack_number: Some(REMOTE_SEQ + 1 + 1),
        ..RECV_TEMPL
    }]);
    // ... at this point
    assert_eq!(send(&mut s, 0, &TcpRepr {
        seq_number: REMOTE_SEQ + 1 + 1,
        ack_number: Some(LOCAL_SEQ + 1 + 1),
        ..SEND_TEMPL
    }), Ok(None));
    assert_eq!(s.state, State::TimeWait);
    recv_all(&mut s, &[]);
}

#[test]
fn test_simultaneous_close_combined_fin_ack() {
    let mut s = socket_established();
    s.close();
    assert_eq!(s.state, State::FinWait1);
    recv_all(&mut s, &[TcpRepr {
        control: TcpControl::Fin,
        seq_number: LOCAL_SEQ + 1,
        ack_number: Some(REMOTE_SEQ + 1),
        ..RECV_TEMPL
    }]);
    assert_eq!(send(&mut s, 0, &TcpRepr {
        control: TcpControl::Fin,
        seq_number: REMOTE_SEQ + 1,
        ack_number: Some(LOCAL_SEQ + 1 + 1),
        ..SEND_TEMPL
    }), Ok(None));
    assert_eq!(s.state, State::TimeWait);
    recv_all(&mut s, &[TcpRepr {
        seq_number: LOCAL_SEQ + 1 + 1,
        ack_number: Some(REMOTE_SEQ + 1 + 1),
        ..RECV_TEMPL
    }]);
}

#[test]
fn test_fin_with_data() {
    let mut s = socket_established();
    s.send_slice(b"abcdef").unwrap();
    s.close();
    recv_all(&mut s, &[TcpRepr {
        control:    TcpControl::Fin,
        seq_number: LOCAL_SEQ + 1,
        ack_number: Some(REMOTE_SEQ + 1),
        payload:    &b"abcdef"[..],
        ..RECV_TEMPL
    }])
}

#[test]
fn test_mutual_close_with_data_1() {
    let mut s = socket_established();
    s.send_slice(b"abcdef").unwrap();
    s.close();
    assert_eq!(s.state, State::FinWait1);
    recv_all(&mut s, &[TcpRepr {
        control: TcpControl::Fin,
        seq_number: LOCAL_SEQ + 1,
        ack_number: Some(REMOTE_SEQ + 1),
        payload:    &b"abcdef"[..],
        ..RECV_TEMPL
    }]);
    assert_eq!(send(&mut s, 0, &TcpRepr {
        control: TcpControl::Fin,
        seq_number: REMOTE_SEQ + 1,
        ack_number: Some(LOCAL_SEQ + 1 + 6 + 1),
        ..SEND_TEMPL
    }), Ok(None));
}

#[test]
fn test_mutual_close_with_data_2() {
    let mut s = socket_established();
    s.send_slice(b"abcdef").unwrap();
    s.close();
    assert_eq!(s.state, State::FinWait1);
    recv_all(&mut s, &[TcpRepr {
        control: TcpControl::Fin,
        seq_number: LOCAL_SEQ + 1,
        ack_number: Some(REMOTE_SEQ + 1),
        payload:    &b"abcdef"[..],
        ..RECV_TEMPL
    }]);
    assert_eq!(send(&mut s, 0, &TcpRepr {
        seq_number: REMOTE_SEQ + 1,
        ack_number: Some(LOCAL_SEQ + 1 + 6 + 1),
        ..SEND_TEMPL
    }), Ok(None));
    assert_eq!(s.state, State::FinWait2);
    assert_eq!(send(&mut s, 0, &TcpRepr {
        control: TcpControl::Fin,
        seq_number: REMOTE_SEQ + 1,
        ack_number: Some(LOCAL_SEQ + 1 + 6 + 1),
        ..SEND_TEMPL
    }), Ok(None));
    recv_all(&mut s, &[TcpRepr {
        seq_number: LOCAL_SEQ + 1 + 6 + 1,
        ack_number: Some(REMOTE_SEQ + 1 + 1),
        ..RECV_TEMPL
    }]);
    assert_eq!(s.state, State::TimeWait);
}

// =========================================================================================//
// Tests for retransmission on packet loss.
// =========================================================================================//
fn socket_recved() -> TcpSocket {
    let mut s = socket_established();
    assert_eq!(send(&mut s, 0, &TcpRepr {
        seq_number: REMOTE_SEQ + 1,
        ack_number: Some(LOCAL_SEQ + 1),
        payload:    &b"abcdef"[..],
        ..SEND_TEMPL
    }), Ok(None));
    recv_all(&mut s, &[TcpRepr {
        seq_number: LOCAL_SEQ + 1,
        ack_number: Some(REMOTE_SEQ + 1 + 6),
        window_len: 58,
        ..RECV_TEMPL
    }]);
    s
}

#[test]
fn test_duplicate_seq_ack() {
    let mut s = socket_recved();
    // remote retransmission
    assert_eq!(send(&mut s, 0, &TcpRepr {
        seq_number: REMOTE_SEQ + 1,
        ack_number: Some(LOCAL_SEQ + 1),
        payload:    &b"abcdef"[..],
        ..SEND_TEMPL
    }), Ok(Some(TcpRepr {
        seq_number: LOCAL_SEQ + 1,
        ack_number: Some(REMOTE_SEQ + 1 + 6),
        window_len: 58,
        ..RECV_TEMPL
    })));
}

#[test]
fn test_data_retransmit() {
    let mut s = socket_established();
    s.send_slice(b"abcdef").unwrap();
    recv_one(&mut s, 1000, Ok(TcpRepr {
        seq_number: LOCAL_SEQ + 1,
        ack_number: Some(REMOTE_SEQ + 1),
        payload:    &b"abcdef"[..],
        ..RECV_TEMPL
    }));
    recv_one(&mut s, 1050, Err(Error::Exhausted));
    recv_one(&mut s, 1100, Ok(TcpRepr {
        seq_number: LOCAL_SEQ + 1,
        ack_number: Some(REMOTE_SEQ + 1),
        payload:    &b"abcdef"[..],
        ..RECV_TEMPL
    }));
}

#[test]
fn test_data_retransmit_bursts() {
    let mut s = socket_established();
    s.remote_win_len = 6;
    s.send_slice(b"abcdef012345").unwrap();

    recv_exact(&mut s, 0, Ok(TcpRepr {
        control:    TcpControl::Plain,
        seq_number: LOCAL_SEQ + 1,
        ack_number: Some(REMOTE_SEQ + 1),
        payload:    &b"abcdef"[..],
        ..RECV_TEMPL
    }));
    s.remote_win_len = 6;
    recv_exact(&mut s, 0, Ok(TcpRepr {
        control:    TcpControl::Psh,
        seq_number: LOCAL_SEQ + 1 + 6,
        ack_number: Some(REMOTE_SEQ + 1),
        payload:    &b"012345"[..],
        ..RECV_TEMPL
    }));
    s.remote_win_len = 6;
    recv_one(&mut s, 0, Err(Error::Exhausted));

    recv_one(&mut s, 50, Err(Error::Exhausted));

    recv_exact(&mut s, 100, Ok(TcpRepr {
        control:    TcpControl::Plain,
        seq_number: LOCAL_SEQ + 1,
        ack_number: Some(REMOTE_SEQ + 1),
        payload:    &b"abcdef"[..],
        ..RECV_TEMPL
    }));
    s.remote_win_len = 6;
    recv_exact(&mut s, 150, Ok(TcpRepr {
        control:    TcpControl::Psh,
        seq_number: LOCAL_SEQ + 1 + 6,
        ack_number: Some(REMOTE_SEQ + 1),
        payload:    &b"012345"[..],
        ..RECV_TEMPL
    }));
    s.remote_win_len = 6;
    recv_one(&mut s, 200, Err(Error::Exhausted));
}

#[test]
fn test_send_data_after_syn_ack_retransmit() {
    let mut s = socket_syn_received();
    recv_one(&mut s, 50, Ok(TcpRepr {
        control:    TcpControl::Syn,
        seq_number: LOCAL_SEQ,
        ack_number: Some(REMOTE_SEQ + 1),
        max_seg_size: Some(1480),
        ..RECV_TEMPL
    }));
    recv_one(&mut s, 150, Ok(TcpRepr { // retransmit
        control:    TcpControl::Syn,
        seq_number: LOCAL_SEQ,
        ack_number: Some(REMOTE_SEQ + 1),
        max_seg_size: Some(1480),
        ..RECV_TEMPL
    }));
    assert_eq!(send(&mut s, 0, &TcpRepr {
        seq_number: REMOTE_SEQ + 1,
        ack_number: Some(LOCAL_SEQ + 1),
        ..SEND_TEMPL
    }), Ok(None));
    assert_eq!(s.state(), State::Established);
    s.send_slice(b"abcdef").unwrap();
    recv_all(&mut s, &[TcpRepr {
        seq_number: LOCAL_SEQ + 1,
        ack_number: Some(REMOTE_SEQ + 1),
        payload:    &b"abcdef"[..],
        ..RECV_TEMPL
    }])
}

#[test]
fn test_established_retransmit_reset_after_ack() {
    let mut s = socket_established();
    s.remote_win_len = 6;
    s.send_slice(b"abcdef").unwrap();
    s.send_slice(b"123456").unwrap();
    s.send_slice(b"ABCDEF").unwrap();
    recv_one(&mut s, 1000, Ok(TcpRepr {
        seq_number: LOCAL_SEQ + 1,
        ack_number: Some(REMOTE_SEQ + 1),
        payload:    &b"abcdef"[..],
        ..RECV_TEMPL
    }));
    assert_eq!(send(&mut s, 1005, &TcpRepr {
        seq_number: REMOTE_SEQ + 1,
        ack_number: Some(LOCAL_SEQ + 1 + 6),
        window_len: 6,
        ..SEND_TEMPL
    }), Ok(None));
    recv_one(&mut s, 1010, Ok(TcpRepr {
        seq_number: LOCAL_SEQ + 1 + 6,
        ack_number: Some(REMOTE_SEQ + 1),
        payload:    &b"123456"[..],
        ..RECV_TEMPL
    }));
    assert_eq!(send(&mut s, 1015, &TcpRepr {
        seq_number: REMOTE_SEQ + 1,
        ack_number: Some(LOCAL_SEQ + 1 + 6 + 6),
        window_len: 6,
        ..SEND_TEMPL
    }), Ok(None));
    recv_one(&mut s, 1020, Ok(TcpRepr {
        seq_number: LOCAL_SEQ + 1 + 6 + 6,
        ack_number: Some(REMOTE_SEQ + 1),
        payload:    &b"ABCDEF"[..],
        ..RECV_TEMPL
    }));
}

#[test]
fn test_close_wait_retransmit_reset_after_ack() {
    let mut s = socket_close_wait();
    s.remote_win_len = 6;
    s.send_slice(b"abcdef").unwrap();
    s.send_slice(b"123456").unwrap();
    s.send_slice(b"ABCDEF").unwrap();
    recv_one(&mut s, 1000, Ok(TcpRepr {
        seq_number: LOCAL_SEQ + 1,
        ack_number: Some(REMOTE_SEQ + 1 + 1),
        payload:    &b"abcdef"[..],
        ..RECV_TEMPL
    }));
    assert_eq!(send(&mut s, 1005, &TcpRepr {
        seq_number: REMOTE_SEQ + 1 + 1,
        ack_number: Some(LOCAL_SEQ + 1 + 6),
        window_len: 6,
        ..SEND_TEMPL
    }), Ok(None));
    recv_one(&mut s, 1010, Ok(TcpRepr {
        seq_number: LOCAL_SEQ + 1 + 6,
        ack_number: Some(REMOTE_SEQ + 1 + 1),
        payload:    &b"123456"[..],
        ..RECV_TEMPL
    }));
    assert_eq!(send(&mut s, 1015, &TcpRepr {
        seq_number: REMOTE_SEQ + 1 + 1,
        ack_number: Some(LOCAL_SEQ + 1 + 6 + 6),
        window_len: 6,
        ..SEND_TEMPL
    }), Ok(None));
    recv_one(&mut s, 1020, Ok(TcpRepr {
        seq_number: LOCAL_SEQ + 1 + 6 + 6,
        ack_number: Some(REMOTE_SEQ + 1 + 1),
        payload:    &b"ABCDEF"[..],
        ..RECV_TEMPL
    }));
}

#[test]
fn test_fin_wait_1_retransmit_reset_after_ack() {
    let mut s = socket_established();
    s.remote_win_len = 6;
    s.send_slice(b"abcdef").unwrap();
    s.send_slice(b"123456").unwrap();
    s.send_slice(b"ABCDEF").unwrap();
    s.close();
    recv_one(&mut s, 1000, Ok(TcpRepr {
        seq_number: LOCAL_SEQ + 1,
        ack_number: Some(REMOTE_SEQ + 1),
        payload:    &b"abcdef"[..],
        ..RECV_TEMPL
    }));
    assert_eq!(send(&mut s, 1005, &TcpRepr {
        seq_number: REMOTE_SEQ + 1,
        ack_number: Some(LOCAL_SEQ + 1 + 6),
        window_len: 6,
        ..SEND_TEMPL
    }), Ok(None));
    recv_one(&mut s, 1010, Ok(TcpRepr {
        seq_number: LOCAL_SEQ + 1 + 6,
        ack_number: Some(REMOTE_SEQ + 1),
        payload:    &b"123456"[..],
        ..RECV_TEMPL
    }));
    assert_eq!(send(&mut s, 1015, &TcpRepr {
        seq_number: REMOTE_SEQ + 1,
        ack_number: Some(LOCAL_SEQ + 1 + 6 + 6),
        window_len: 6,
        ..SEND_TEMPL
    }), Ok(None));
    recv_one(&mut s, 1020, Ok(TcpRepr {
        control:    TcpControl::Fin,
        seq_number: LOCAL_SEQ + 1 + 6 + 6,
        ack_number: Some(REMOTE_SEQ + 1),
        payload:    &b"ABCDEF"[..],
        ..RECV_TEMPL
    }));
}

// =========================================================================================//
// Tests for window management.
// =========================================================================================//

#[test]
fn test_maximum_segment_size() {
    let mut s = socket_listen();
    s.tx_buffer = SocketBuffer::new(vec![0; 32767]);
    assert_eq!(send(&mut s, 0, &TcpRepr {
        control: TcpControl::Syn,
        seq_number: REMOTE_SEQ,
        ack_number: None,
        max_seg_size: Some(1000),
        ..SEND_TEMPL
    }), Ok(None));
    recv_all(&mut s, &[TcpRepr {
        control: TcpControl::Syn,
        seq_number: LOCAL_SEQ,
        ack_number: Some(REMOTE_SEQ + 1),
        max_seg_size: Some(1480),
        ..RECV_TEMPL
    }]);
    assert_eq!(send(&mut s, 0, &TcpRepr {
        seq_number: REMOTE_SEQ + 1,
        ack_number: Some(LOCAL_SEQ + 1),
        window_len: 32767,
        ..SEND_TEMPL
    }), Ok(None));
    s.send_slice(&[0; 1200][..]).unwrap();
    recv_one(&mut s, 0, Ok(TcpRepr {
        seq_number: LOCAL_SEQ + 1,
        ack_number: Some(REMOTE_SEQ + 1),
        payload: &[0; 1000][..],
        ..RECV_TEMPL
    }));
}

// =========================================================================================//
// Tests for flow control.
// =========================================================================================//

#[test]
fn test_psh_transmit() {
    let mut s = socket_established();
    s.remote_win_len = 6;
    s.send_slice(b"abcdef").unwrap();
    s.send_slice(b"123456").unwrap();
    recv_exact(&mut s, 0, Ok(TcpRepr {
        control:    TcpControl::Plain,
        seq_number: LOCAL_SEQ + 1,
        ack_number: Some(REMOTE_SEQ + 1),
        payload:    &b"abcdef"[..],
        ..RECV_TEMPL
    }));
    recv_exact(&mut s, 0, Ok(TcpRepr {
        control:    TcpControl::Psh,
        seq_number: LOCAL_SEQ + 1 + 6,
        ack_number: Some(REMOTE_SEQ + 1),
        payload:    &b"123456"[..],
        ..RECV_TEMPL
    }));
}

#[test]
fn test_psh_receive() {
    let mut s = socket_established();
    assert_eq!(send(&mut s, 0, &TcpRepr {
        control:    TcpControl::Psh,
        seq_number: REMOTE_SEQ + 1,
        ack_number: Some(LOCAL_SEQ + 1),
        payload:    &b"abcdef"[..],
        ..SEND_TEMPL
    }), Ok(None));
    recv_all(&mut s, &[TcpRepr {
        seq_number: LOCAL_SEQ + 1,
        ack_number: Some(REMOTE_SEQ + 1 + 6),
        window_len: 58,
        ..RECV_TEMPL
    }]);
}

#[test]
fn test_zero_window_ack() {
    let mut s = socket_established();
    s.rx_buffer = SocketBuffer::new(vec![0; 6]);
    s.assembler = Assembler::new(s.rx_buffer.capacity());
    assert_eq!(send(&mut s, 0, &TcpRepr {
        seq_number: REMOTE_SEQ + 1,
        ack_number: Some(LOCAL_SEQ + 1),
        payload:    &b"abcdef"[..],
        ..SEND_TEMPL
    }), Ok(None));
    recv_all(&mut s, &[TcpRepr {
        seq_number: LOCAL_SEQ + 1,
        ack_number: Some(REMOTE_SEQ + 1 + 6),
        window_len: 0,
        ..RECV_TEMPL
    }]);
    assert_eq!(send(&mut s, 0, &TcpRepr {
        seq_number: REMOTE_SEQ + 1 + 6,
        ack_number: Some(LOCAL_SEQ + 1),
        payload:    &b"123456"[..],
        ..SEND_TEMPL
    }), Ok(Some(TcpRepr {
        seq_number: LOCAL_SEQ + 1,
        ack_number: Some(REMOTE_SEQ + 1 + 6),
        window_len: 0,
        ..RECV_TEMPL
    })));
}

#[test]
fn test_zero_window_ack_on_window_growth() {
    let mut s = socket_established();
    s.rx_buffer = SocketBuffer::new(vec![0; 6]);
    s.assembler = Assembler::new(s.rx_buffer.capacity());
    assert_eq!(send(&mut s, 0, &TcpRepr {
        seq_number: REMOTE_SEQ + 1,
        ack_number: Some(LOCAL_SEQ + 1),
        payload:    &b"abcdef"[..],
        ..SEND_TEMPL
    }), Ok(None));
    recv_all(&mut s, &[TcpRepr {
        seq_number: LOCAL_SEQ + 1,
        ack_number: Some(REMOTE_SEQ + 1 + 6),
        window_len: 0,
        ..RECV_TEMPL
    }]);
    recv_one(&mut s, 0, Err(Error::Exhausted));
    assert_eq!(s.recv(3), Ok(&b"abc"[..]));
    recv_one(&mut s, 0, Ok(TcpRepr {
        seq_number: LOCAL_SEQ + 1,
        ack_number: Some(REMOTE_SEQ + 1 + 6),
        window_len: 3,
        ..RECV_TEMPL
    }));
    recv_one(&mut s, 0, Err(Error::Exhausted));
    assert_eq!(s.recv(3), Ok(&b"def"[..]));
    recv_one(&mut s, 0, Ok(TcpRepr {
        seq_number: LOCAL_SEQ + 1,
        ack_number: Some(REMOTE_SEQ + 1 + 6),
        window_len: 6,
        ..RECV_TEMPL
    }));
}

#[test]
fn test_fill_peer_window() {
    let mut s = socket_established();
    s.remote_mss = 6;
    s.send_slice(b"abcdef123456!@#$%^").unwrap();
    recv_all(&mut s, &[TcpRepr {
        seq_number: LOCAL_SEQ + 1,
        ack_number: Some(REMOTE_SEQ + 1),
        payload:    &b"abcdef"[..],
        ..RECV_TEMPL
    }, TcpRepr {
        seq_number: LOCAL_SEQ + 1 + 6,
        ack_number: Some(REMOTE_SEQ + 1),
        payload:    &b"123456"[..],
        ..RECV_TEMPL
    }, TcpRepr {
        seq_number: LOCAL_SEQ + 1 + 6 + 6,
        ack_number: Some(REMOTE_SEQ + 1),
        payload:    &b"!@#$%^"[..],
        ..RECV_TEMPL
    }]);
}

// =========================================================================================//
// Tests for timeouts.
// =========================================================================================//

#[test]
fn test_connect_timeout() {
    let mut s = socket();
    s.local_seq_no = LOCAL_SEQ;
    s.connect(REMOTE_END, LOCAL_END.port).unwrap();
    s.set_timeout(Some(100));
    recv_one(&mut s, 150, Ok(TcpRepr {
        control:    TcpControl::Syn,
        seq_number: LOCAL_SEQ,
        ack_number: None,
        max_seg_size: Some(1480),
        ..RECV_TEMPL
    }));
    assert_eq!(s.state, State::SynSent);
    assert_eq!(s.poll_at(), Some(250));
    recv_one(&mut s, 250, Ok(TcpRepr {
        control:    TcpControl::Rst,
        seq_number: LOCAL_SEQ + 1,
        ack_number: Some(TcpSeqNumber(0)),
        ..RECV_TEMPL
    }));
    assert_eq!(s.state, State::Closed);
}

#[test]
fn test_established_timeout() {
    let mut s = socket_established();
    s.set_timeout(Some(200));
    recv_one(&mut s, 250, Err(Error::Exhausted));
    assert_eq!(s.poll_at(), None);
    s.send_slice(b"abcdef").unwrap();
    assert_eq!(s.poll_at(), Some(0));
    recv_one(&mut s, 255, Ok(TcpRepr {
        seq_number: LOCAL_SEQ + 1,
        ack_number: Some(REMOTE_SEQ + 1),
        payload:    &b"abcdef"[..],
        ..RECV_TEMPL
    }));
    assert_eq!(s.poll_at(), Some(355));
    recv_one(&mut s, 355, Ok(TcpRepr {
        seq_number: LOCAL_SEQ + 1,
        ack_number: Some(REMOTE_SEQ + 1),
        payload:    &b"abcdef"[..],
        ..RECV_TEMPL
    }));
    assert_eq!(s.poll_at(), Some(455));
    recv_one(&mut s, 500, Ok(TcpRepr {
        control:    TcpControl::Rst,
        seq_number: LOCAL_SEQ + 1 + 6,
        ack_number: Some(REMOTE_SEQ + 1),
        ..RECV_TEMPL
    }));
    assert_eq!(s.state, State::Closed);
}

#[test]
fn test_established_keep_alive_timeout() {
    let mut s = socket_established();
    s.set_keep_alive(Some(50));
    s.set_timeout(Some(100));
    recv_one(&mut s, 100, Ok(TcpRepr {
        seq_number: LOCAL_SEQ,
        ack_number: Some(REMOTE_SEQ + 1),
        payload:    &[0],
        ..RECV_TEMPL
    }));
    recv_one(&mut s, 100, Err(Error::Exhausted));
    assert_eq!(s.poll_at(), Some(150));
    assert_eq!(send(&mut s, 105, &TcpRepr {
        seq_number: REMOTE_SEQ + 1,
        ack_number: Some(LOCAL_SEQ + 1),
        ..SEND_TEMPL
    }), Ok(None));
    assert_eq!(s.poll_at(), Some(155));
    recv_one(&mut s, 155, Ok(TcpRepr {
        seq_number: LOCAL_SEQ,
        ack_number: Some(REMOTE_SEQ + 1),
        payload:    &[0],
        ..RECV_TEMPL
    }));
    recv_one(&mut s, 155, Err(Error::Exhausted));
    assert_eq!(s.poll_at(), Some(205));
    recv_one(&mut s, 200, Err(Error::Exhausted));
    recv_one(&mut s, 205, Ok(TcpRepr {
        control:    TcpControl::Rst,
        seq_number: LOCAL_SEQ + 1,
        ack_number: Some(REMOTE_SEQ + 1),
        ..RECV_TEMPL
    }));
    recv_one(&mut s, 205, Err(Error::Exhausted));
    assert_eq!(s.state, State::Closed);
}

// =========================================================================================//
// Tests for keep-alive.
// =========================================================================================//

#[test]
fn test_responds_to_keep_alive() {
    let mut s = socket_established();
    assert_eq!(send(&mut s, 0, &TcpRepr {
        seq_number: REMOTE_SEQ,
        ack_number: Some(LOCAL_SEQ + 1),
        ..SEND_TEMPL
    }), Ok(Some(TcpRepr {
        seq_number: LOCAL_SEQ + 1,
        ack_number: Some(REMOTE_SEQ + 1),
        ..RECV_TEMPL
    })));
}

#[test]
fn test_sends_keep_alive() {
    let mut s = socket_established();
    s.set_keep_alive(Some(100));

    // drain the forced keep-alive packet
    assert_eq!(s.poll_at(), Some(0));
    recv_one(&mut s, 0, Ok(TcpRepr {
        seq_number: LOCAL_SEQ,
        ack_number: Some(REMOTE_SEQ + 1),
        payload:    &[0],
        ..RECV_TEMPL
    }));

    assert_eq!(s.poll_at(), Some(100));
    recv_one(&mut s, 95, Err(Error::Exhausted));
    recv_one(&mut s, 100, Ok(TcpRepr {
        seq_number: LOCAL_SEQ,
        ack_number: Some(REMOTE_SEQ + 1),
        payload:    &[0],
        ..RECV_TEMPL
    }));

    assert_eq!(s.poll_at(), Some(200));
    recv_one(&mut s, 195, Err(Error::Exhausted));
    recv_one(&mut s, 200, Ok(TcpRepr {
        seq_number: LOCAL_SEQ,
        ack_number: Some(REMOTE_SEQ + 1),
        payload:    &[0],
        ..RECV_TEMPL
    }));

    assert_eq!(send(&mut s, 250, &TcpRepr {
        seq_number: REMOTE_SEQ + 1,
        ack_number: Some(LOCAL_SEQ + 1),
        ..SEND_TEMPL
    }), Ok(None));
    assert_eq!(s.poll_at(), Some(350));
    recv_one(&mut s, 345, Err(Error::Exhausted));
    recv_one(&mut s, 350, Ok(TcpRepr {
        seq_number: LOCAL_SEQ,
        ack_number: Some(REMOTE_SEQ + 1),
        payload:    &b"\x00"[..],
        ..RECV_TEMPL
    }));
}

// =========================================================================================//
// Tests for reassembly.
// =========================================================================================//

#[test]
fn test_out_of_order() {
    let mut s = socket_established();
    assert_eq!(send(&mut s, 0, &TcpRepr {
        seq_number: REMOTE_SEQ + 1 + 3,
        ack_number: Some(LOCAL_SEQ + 1),
        payload:    &b"def"[..],
        ..SEND_TEMPL
    }), Ok(Some(TcpRepr {
        seq_number: LOCAL_SEQ + 1,
        ack_number: Some(REMOTE_SEQ + 1),
        ..RECV_TEMPL
    })));
    assert_eq!(s.recv(10), Ok(&b""[..]));
    assert_eq!(send(&mut s, 0, &TcpRepr {
        seq_number: REMOTE_SEQ + 1,
        ack_number: Some(LOCAL_SEQ + 1),
        payload:    &b"abcdef"[..],
        ..SEND_TEMPL
    }), Ok(Some(TcpRepr {
        seq_number: LOCAL_SEQ + 1,
        ack_number: Some(REMOTE_SEQ + 1 + 6),
        window_len: 58,
        ..RECV_TEMPL
    })));
    assert_eq!(s.recv(10), Ok(&b"abcdef"[..]));
}

#[test]
fn test_buffer_wraparound() {
    let mut s = socket_established();
    s.rx_buffer = SocketBuffer::new(vec![0; 6]);
    s.assembler = Assembler::new(s.rx_buffer.capacity());
    assert_eq!(send(&mut s, 0, &TcpRepr {
        seq_number: REMOTE_SEQ + 1,
        ack_number: Some(LOCAL_SEQ + 1),
        payload:    &b"abc"[..],
        ..SEND_TEMPL
    }), Ok(None));
    assert_eq!(s.recv(3), Ok(&b"abc"[..]));
    assert_eq!(send(&mut s, 0, &TcpRepr {
        seq_number: REMOTE_SEQ + 1 + 3,
        ack_number: Some(LOCAL_SEQ + 1),
        payload:    &b"defghi"[..],
        ..SEND_TEMPL
    }), Ok(None));
    let mut data = [0; 6];
    assert_eq!(s.recv_slice(&mut data[..]), Ok(6));
    assert_eq!(data, &b"defghi"[..]);
}

// =========================================================================================//
// Tests for packet filtering.
// =========================================================================================//

#[test]
fn test_doesnt_accept_wrong_port() {
    let mut s = socket_established();
    s.rx_buffer = SocketBuffer::new(vec![0; 6]);
    s.assembler = Assembler::new(s.rx_buffer.capacity());

    let tcp_repr = TcpRepr {
        seq_number: REMOTE_SEQ + 1,
        ack_number: Some(LOCAL_SEQ + 1),
        dst_port:   LOCAL_PORT + 1,
        ..SEND_TEMPL
    };
    assert!(!s.accepts(&SEND_IP_TEMPL, &tcp_repr));

    let tcp_repr = TcpRepr {
        seq_number: REMOTE_SEQ + 1,
        ack_number: Some(LOCAL_SEQ + 1),
        src_port:   REMOTE_PORT + 1,
        ..SEND_TEMPL
    };
    assert!(!s.accepts(&SEND_IP_TEMPL, &tcp_repr));
}

#[test]
fn test_doesnt_accept_wrong_ip() {
    let s = socket_established();

    let tcp_repr = TcpRepr {
        seq_number: REMOTE_SEQ + 1,
        ack_number: Some(LOCAL_SEQ + 1),
        payload:    &b"abcdef"[..],
        ..SEND_TEMPL
    };

    let ip_repr = IpRepr::Unspecified {
        src_addr:    REMOTE_IP,
        dst_addr:    LOCAL_IP,
        protocol:    IpProtocol::Tcp,
        payload_len: tcp_repr.buffer_len()
    };
    assert!(s.accepts(&ip_repr, &tcp_repr));

    let ip_repr_wrong_src = IpRepr::Unspecified {
        src_addr:    OTHER_IP,
        dst_addr:    LOCAL_IP,
        protocol:    IpProtocol::Tcp,
        payload_len: tcp_repr.buffer_len()
    };
    assert!(!s.accepts(&ip_repr_wrong_src, &tcp_repr));

    let ip_repr_wrong_dst = IpRepr::Unspecified {
        src_addr:    REMOTE_IP,
        dst_addr:    OTHER_IP,
        protocol:    IpProtocol::Tcp,
        payload_len: tcp_repr.buffer_len()
    };
    assert!(!s.accepts(&ip_repr_wrong_dst, &tcp_repr));
}
