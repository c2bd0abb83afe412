use pyruvate::activation::{check_activated, ActivationError, FdInfo, SocketKind};
use pyruvate::addr::parse_server_info;
use pyruvate::ioerror::{would_block, IoKind};
use pyruvate::transport::{BufferConnection, Write, WriteStep};

#[test]
fn test_would_block() {
    let wbe = IoKind::WouldBlock;
    assert!(would_block(&wbe));
    let nwbe = IoKind::Other;
    assert!(!would_block(&nwbe));
}

#[test]
fn test_parse_server_info() {
    assert!(parse_server_info("127.0.0.1:7878") == ("127.0.0.1".to_string(), "7878".to_string()));
    assert!(
        parse_server_info("/tmp/pyruvate.sock") == ("/tmp/pyruvate.sock".to_string(), String::new())
    );
}

#[test]
fn test_parse_server_info_zero_port() {
    assert!(parse_server_info("127.0.0.1:0") == ("127.0.0.1".to_string(), "0".to_string()));
}

#[test]
fn test_parse_server_info_rejects() {
    // A host name is not an IPv4 address: the whole string is a path.
    assert_eq!(parse_server_info("localhost:80").1, String::new());
    // Octet out of range.
    assert_eq!(parse_server_info("256.0.0.1:80").1, String::new());
    // Leading zero in an octet.
    assert_eq!(parse_server_info("01.2.3.4:80").1, String::new());
    // Leading zero in the port.
    assert_eq!(parse_server_info("1.2.3.4:080").1, String::new());
    // Port out of range.
    assert_eq!(parse_server_info("1.2.3.4:65536").1, String::new());
    // Too many octets.
    assert_eq!(parse_server_info("1.2.3.4.5:80").1, String::new());
    // Missing port digits.
    assert_eq!(parse_server_info("1.2.3.4:").1, String::new());
    // No colon at all.
    assert_eq!(parse_server_info("1.2.3.4").1, String::new());
    // Two colons.
    assert_eq!(parse_server_info("1.2.3.4:5:6").1, String::new());
}

#[test]
fn test_parse_server_info_max_port() {
    assert!(parse_server_info("255.255.255.255:65535")
        == ("255.255.255.255".to_string(), "65535".to_string()));
}

#[test]
fn test_check_activated_no_descriptors() {
    let fds: Vec<FdInfo> = Vec::new();
    assert_eq!(
        check_activated(&fds, SocketKind::Inet),
        Err(ActivationError::NoDescriptors)
    );
    assert_eq!(
        check_activated(&fds, SocketKind::UnixDomain),
        Err(ActivationError::NoDescriptors)
    );
}

#[test]
fn test_check_activated_kind_mismatch() {
    // A plain file descriptor at the head of the list: neither family.
    let fds = vec![FdInfo {
        fd: 3,
        inet: false,
        unix_domain: false,
    }];
    assert_eq!(
        check_activated(&fds, SocketKind::Inet),
        Err(ActivationError::KindMismatch)
    );
    // A Unix socket where a TCP listener was requested.
    let fds = vec![FdInfo {
        fd: 3,
        inet: false,
        unix_domain: true,
    }];
    assert_eq!(
        check_activated(&fds, SocketKind::Inet),
        Err(ActivationError::KindMismatch)
    );
}

#[test]
fn test_check_activated_success() {
    let fds = vec![FdInfo {
        fd: 3,
        inet: true,
        unix_domain: false,
    }];
    assert_eq!(check_activated(&fds, SocketKind::Inet), Ok(3));
    let fds = vec![FdInfo {
        fd: 3,
        inet: false,
        unix_domain: true,
    }];
    assert_eq!(check_activated(&fds, SocketKind::UnixDomain), Ok(3));
}

#[test]
fn test_buffer_connection_script() {
    let mut conn = BufferConnection::with_script(vec![
        WriteStep::Accept(4),
        WriteStep::Block,
        WriteStep::Fail(IoKind::BrokenPipe),
    ]);
    assert_eq!(conn.write(b"abcdef"), Ok(4));
    assert_eq!(conn.written, b"abcd".to_vec());
    assert_eq!(conn.write(b"ef"), Err(IoKind::WouldBlock));
    assert_eq!(conn.write(b"ef"), Err(IoKind::BrokenPipe));
    // Script exhausted: everything is accepted.
    assert_eq!(conn.write(b"ef"), Ok(2));
    assert_eq!(conn.written, b"abcdef".to_vec());
}

#[test]
fn test_parse_server_info_ipv6() {
    assert!(parse_server_info("[::1]:80") == ("::1".to_string(), "80".to_string()));
    assert!(
        parse_server_info("[2001:db8:0:0:0:0:2:1]:8080")
            == ("2001:db8:0:0:0:0:2:1".to_string(), "8080".to_string())
    );
    assert!(parse_server_info("[2001:db8::2:1]:443") == ("2001:db8::2:1".to_string(), "443".to_string()));
    assert!(parse_server_info("[::]:0") == ("::".to_string(), "0".to_string()));
    assert!(parse_server_info("[fe80::]:9000") == ("fe80::".to_string(), "9000".to_string()));
    assert!(parse_server_info("[1:2:3:4:5:6:7:8]:1") == ("1:2:3:4:5:6:7:8".to_string(), "1".to_string()));
}

#[test]
fn test_parse_server_info_ipv6_rejects() {
    // Unbracketed IPv6 is ambiguous and stays a path.
    assert_eq!(parse_server_info("::1:80").1, String::new());
    // Too many groups.
    assert_eq!(parse_server_info("[1:2:3:4:5:6:7:8:9]:1").1, String::new());
    // Two double colons.
    assert_eq!(parse_server_info("[1::2::3]:1").1, String::new());
    // A group of five digits.
    assert_eq!(parse_server_info("[12345::]:1").1, String::new());
    // A non-hex character.
    assert_eq!(parse_server_info("[g::1]:1").1, String::new());
    // Missing the closing bracket.
    assert_eq!(parse_server_info("[::1:80").1, String::new());
    // Nothing after the bracket.
    assert_eq!(parse_server_info("[::1]").1, String::new());
    // Eight groups next to a double colon.
    assert_eq!(parse_server_info("[1:2:3:4:5:6:7:8::]:1").1, String::new());
    // Compressed plus seven explicit groups still fits.
    assert!(parse_server_info("[1:2:3:4:5:6:7::]:1") == ("1:2:3:4:5:6:7::".to_string(), "1".to_string()));
}
