use tcp_client::addr::IpAddress;
use tcp_client::manager::{ConnectStep, SocketHandle, TcpClient, TransmitStep};
use tcp_client::models::{ConnectRequest, TransmitRequest};

fn connect_request(address: Option<&str>, port: Option<i32>) -> ConnectRequest {
    ConnectRequest {
        address: address.map(String::from),
        port,
    }
}

fn transmit_request(message: Option<&str>) -> TransmitRequest {
    TransmitRequest {
        message: message.map(String::from),
    }
}

/// Drives a full connect whose attempt succeeds; returns the installed
/// handle.
fn connect_ok(m: &mut TcpClient, address: &str, port: i32) -> SocketHandle {
    let (_, step) = m.connect(&connect_request(Some(address), Some(port)));
    match step {
        ConnectStep::Attempt(_, _) => {}
        ConnectStep::Rejected(_) => panic!("request unexpectedly rejected"),
    }
    let resp = m.connect_finish(Ok(()));
    assert_eq!(resp.success, Some(true));
    assert!(resp.error.is_none());
    m.current_handle().expect("connected manager must hold a handle")
}

#[test]
fn transmit_before_any_connect() {
    let mut m = TcpClient::new();
    assert!(!m.is_connected());
    for _ in 0..2 {
        let step = m.transmit(&transmit_request(Some("hi")));
        match step {
            TransmitStep::Done(resp) => {
                assert_eq!(resp.error.as_deref(), Some("not connected to a server"));
            }
            TransmitStep::Write(_, _) => panic!("no connection to write to"),
        }
        assert!(!m.is_connected());
    }
}

#[test]
fn transmit_missing_message_while_disconnected() {
    let mut m = TcpClient::new();
    let step = m.transmit(&transmit_request(None));
    match step {
        TransmitStep::Done(resp) => {
            assert_eq!(resp.error.as_deref(), Some("not connected to a server"));
        }
        TransmitStep::Write(_, _) => panic!("no connection to write to"),
    }
}

#[test]
fn connect_rejects_missing_fields() {
    let mut m = TcpClient::new();
    for req in [
        connect_request(None, Some(80)),
        connect_request(Some("127.0.0.1"), None),
        connect_request(None, None),
    ] {
        let (closed, step) = m.connect(&req);
        assert!(closed.is_none());
        match step {
            ConnectStep::Rejected(resp) => {
                assert_eq!(resp.success, Some(false));
                assert_eq!(resp.error.as_deref(), Some("invalid input"));
            }
            ConnectStep::Attempt(_, _) => panic!("invalid request must be rejected"),
        }
        assert!(!m.is_connected());
    }
}

#[test]
fn connect_rejects_malformed_address_and_port() {
    let mut m = TcpClient::new();
    for req in [
        connect_request(Some("localhost"), Some(80)),
        connect_request(Some("999.0.0.1"), Some(80)),
        connect_request(Some("127.0.0.1"), Some(65536)),
        connect_request(Some("127.0.0.1"), Some(-1)),
    ] {
        let (_, step) = m.connect(&req);
        match step {
            ConnectStep::Rejected(resp) => {
                assert_eq!(resp.success, Some(false));
                assert_eq!(resp.error.as_deref(), Some("invalid input"));
            }
            ConnectStep::Attempt(_, _) => panic!("invalid request must be rejected"),
        }
    }
}

#[test]
fn connect_port_bounds_accepted() {
    let mut m = TcpClient::new();
    let (_, step) = m.connect(&connect_request(Some("10.1.2.3"), Some(0)));
    assert!(matches!(step, ConnectStep::Attempt(IpAddress::V4(10, 1, 2, 3), 0)));
    let _ = m.connect_finish(Err(String::from("refused")));
    let (_, step) = m.connect(&connect_request(Some("10.1.2.3"), Some(65535)));
    assert!(matches!(
        step,
        ConnectStep::Attempt(IpAddress::V4(10, 1, 2, 3), 65535)
    ));
}

#[test]
fn connect_refused_reports_error_then_not_connected() {
    let mut m = TcpClient::new();
    let (closed, step) = m.connect(&connect_request(Some("127.0.0.1"), Some(9)));
    assert!(closed.is_none());
    match step {
        ConnectStep::Attempt(ip, port) => {
            assert_eq!(ip, IpAddress::V4(127, 0, 0, 1));
            assert_eq!(port, 9);
        }
        ConnectStep::Rejected(_) => panic!("well-formed request must be attempted"),
    }
    let resp = m.connect_finish(Err(String::from("Connection refused (os error 111)")));
    assert_eq!(resp.success, Some(false));
    assert_eq!(
        resp.error.as_deref(),
        Some("Failed to connect to server: Connection refused (os error 111)")
    );
    assert!(!m.is_connected());
    let step = m.transmit(&transmit_request(Some("hello")));
    match step {
        TransmitStep::Done(resp) => {
            assert_eq!(resp.error.as_deref(), Some("not connected to a server"));
        }
        TransmitStep::Write(_, _) => panic!("no connection to write to"),
    }
}

#[test]
fn connect_then_transmit_then_disconnect() {
    let mut m = TcpClient::new();
    let h = connect_ok(&mut m, "127.0.0.1", 4000);
    assert!(m.is_connected());
    let step = m.transmit(&transmit_request(Some("hello")));
    match step {
        TransmitStep::Write(h2, text) => {
            assert_eq!(h2, h);
            assert_eq!(text, "hello");
        }
        TransmitStep::Done(_) => panic!("a connected transmit must write"),
    }
    let (resp, closed) = m.transmit_finish(true);
    assert!(resp.error.is_none());
    assert!(closed.is_none());
    assert!(m.is_connected());
    let closed = m.disconnect();
    assert_eq!(closed, Some(h));
    assert!(!m.is_connected());
}

#[test]
fn connect_closes_prior_connection() {
    let mut m = TcpClient::new();
    let first = connect_ok(&mut m, "127.0.0.1", 4000);
    let (closed, step) = m.connect(&connect_request(Some("10.0.0.1"), Some(1)));
    assert_eq!(closed, Some(first));
    assert!(!m.is_connected());
    assert!(matches!(step, ConnectStep::Attempt(_, _)));
    let resp = m.connect_finish(Err(String::from("host unreachable")));
    assert_eq!(resp.success, Some(false));
    assert!(!m.is_connected());
    assert_eq!(m.current_handle(), None);
}

#[test]
fn connect_closes_prior_even_when_rejected() {
    let mut m = TcpClient::new();
    let first = connect_ok(&mut m, "127.0.0.1", 4000);
    let (closed, step) = m.connect(&connect_request(Some("not an address"), Some(1)));
    assert_eq!(closed, Some(first));
    assert!(matches!(step, ConnectStep::Rejected(_)));
    assert!(!m.is_connected());
}

#[test]
fn write_failure_disconnects_and_reports() {
    let mut m = TcpClient::new();
    let h = connect_ok(&mut m, "192.168.0.7", 7777);
    let step = m.transmit(&transmit_request(Some("payload")));
    assert!(matches!(step, TransmitStep::Write(_, _)));
    let (resp, closed) = m.transmit_finish(false);
    assert_eq!(resp.error.as_deref(), Some("disconnected from server"));
    assert_eq!(closed, Some(h));
    assert!(!m.is_connected());
    let step = m.transmit(&transmit_request(Some("payload")));
    match step {
        TransmitStep::Done(resp) => {
            assert_eq!(resp.error.as_deref(), Some("not connected to a server"));
        }
        TransmitStep::Write(_, _) => panic!("no connection to write to"),
    }
}

#[test]
fn disconnect_twice_is_a_no_op() {
    let mut m = TcpClient::new();
    assert_eq!(m.disconnect(), None);
    assert_eq!(m.disconnect(), None);
    let h = connect_ok(&mut m, "127.0.0.1", 4000);
    assert_eq!(m.disconnect(), Some(h));
    assert_eq!(m.disconnect(), None);
    assert!(!m.is_connected());
}

#[test]
fn transmit_missing_message_while_connected() {
    let mut m = TcpClient::new();
    let h = connect_ok(&mut m, "127.0.0.1", 4000);
    let step = m.transmit(&transmit_request(None));
    match step {
        TransmitStep::Done(resp) => {
            assert_eq!(resp.error.as_deref(), Some("invalid input"));
        }
        TransmitStep::Write(_, _) => panic!("nothing to write"),
    }
    assert!(m.is_connected());
    assert_eq!(m.current_handle(), Some(h));
}

#[test]
fn transmit_empty_message_verbatim() {
    let mut m = TcpClient::new();
    connect_ok(&mut m, "127.0.0.1", 4000);
    let step = m.transmit(&transmit_request(Some("")));
    match step {
        TransmitStep::Write(_, text) => assert_eq!(text, ""),
        TransmitStep::Done(_) => panic!("a connected transmit must write"),
    }
    let (resp, _) = m.transmit_finish(true);
    assert!(resp.error.is_none());
}

#[test]
fn successive_connects_install_fresh_handles() {
    let mut m = TcpClient::new();
    let h1 = connect_ok(&mut m, "127.0.0.1", 4000);
    m.disconnect();
    let h2 = connect_ok(&mut m, "127.0.0.1", 4001);
    assert_ne!(h1, h2);
}

#[test]
fn ipv6_request_attempted() {
    let mut m = TcpClient::new();
    let (_, step) = m.connect(&connect_request(Some("::1"), Some(4000)));
    match step {
        ConnectStep::Attempt(ip, port) => {
            assert_eq!(ip, IpAddress::V6(0, 0, 0, 0, 0, 0, 0, 1));
            assert_eq!(port, 4000);
        }
        ConnectStep::Rejected(_) => panic!("well-formed request must be attempted"),
    }
}
