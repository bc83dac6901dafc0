use realm::addr::{parse_ip, parse_socket_addr, IpAddr, SocketAddr};

fn v4(a: u8, b: u8, c: u8, d: u8, port: u16) -> SocketAddr {
    SocketAddr { ip: IpAddr::V4(a, b, c, d), port, scope_id: 0 }
}

#[test]
fn reads_version_4_with_port() {
    assert_eq!(parse_socket_addr("127.0.0.1:10000"), Some(v4(127, 0, 0, 1, 10000)));
    assert_eq!(parse_socket_addr("0.0.0.0:0"), Some(v4(0, 0, 0, 0, 0)));
    assert_eq!(parse_socket_addr("255.255.255.255:65535"), Some(v4(255, 255, 255, 255, 65535)));
    assert_eq!(parse_socket_addr("10.1.2.3:00080"), Some(v4(10, 1, 2, 3, 80)));
}

#[test]
fn rejects_malformed_version_4_with_port() {
    assert_eq!(parse_socket_addr(""), None);
    assert_eq!(parse_socket_addr("127.0.0.1"), None);
    assert_eq!(parse_socket_addr("127.0.0.1:"), None);
    assert_eq!(parse_socket_addr("127.0.0.1:65536"), None);
    assert_eq!(parse_socket_addr("127.0.0.1:+80"), None);
    assert_eq!(parse_socket_addr("127.0.0.1:80 "), None);
    assert_eq!(parse_socket_addr("127.0.0.01:80"), None);
    assert_eq!(parse_socket_addr("127.0.0.256:80"), None);
    assert_eq!(parse_socket_addr("127.0.0:80"), None);
    assert_eq!(parse_socket_addr("127.0.0.1.1:80"), None);
    assert_eq!(parse_socket_addr("127.0.0.1:80:90"), None);
    assert_eq!(parse_socket_addr("example.com:443"), None);
}

#[test]
fn reads_version_6_with_port() {
    assert_eq!(
        parse_socket_addr("[2001:db8::1]:9000"),
        Some(SocketAddr {
            ip: IpAddr::V6(0x2001, 0xdb8, 0, 0, 0, 0, 0, 1),
            port: 9000,
            scope_id: 0
        })
    );
    assert_eq!(
        parse_socket_addr("[::]:0"),
        Some(SocketAddr { ip: IpAddr::V6(0, 0, 0, 0, 0, 0, 0, 0), port: 0, scope_id: 0 })
    );
    assert_eq!(
        parse_socket_addr("[fe80::1%7]:53"),
        Some(SocketAddr { ip: IpAddr::V6(0xfe80, 0, 0, 0, 0, 0, 0, 1), port: 53, scope_id: 7 })
    );
}

#[test]
fn rejects_malformed_version_6_with_port() {
    assert_eq!(parse_socket_addr("::1:80"), None);
    assert_eq!(parse_socket_addr("[::1]"), None);
    assert_eq!(parse_socket_addr("[::1]80"), None);
    assert_eq!(parse_socket_addr("[::1]:"), None);
    assert_eq!(parse_socket_addr("[::1:80"), None);
    assert_eq!(parse_socket_addr("[::1%]:80"), None);
    assert_eq!(parse_socket_addr("[::1%4294967296]:80"), None);
    assert_eq!(parse_socket_addr("[1.2.3.4]:80"), None);
    assert_eq!(parse_socket_addr("[::1]]:80"), None);
}

#[test]
fn reads_bare_addresses() {
    assert_eq!(parse_ip("203.0.113.5"), Some(IpAddr::V4(203, 0, 113, 5)));
    assert_eq!(parse_ip("::"), Some(IpAddr::V6(0, 0, 0, 0, 0, 0, 0, 0)));
    assert_eq!(parse_ip("::1"), Some(IpAddr::V6(0, 0, 0, 0, 0, 0, 0, 1)));
    assert_eq!(parse_ip("1::"), Some(IpAddr::V6(1, 0, 0, 0, 0, 0, 0, 0)));
    assert_eq!(parse_ip("1:2:3:4:5:6:7:8"), Some(IpAddr::V6(1, 2, 3, 4, 5, 6, 7, 8)));
    assert_eq!(parse_ip("1:2:3:4:5:6:7::"), Some(IpAddr::V6(1, 2, 3, 4, 5, 6, 7, 0)));
    assert_eq!(parse_ip("::2:3:4:5:6:7:8"), Some(IpAddr::V6(0, 2, 3, 4, 5, 6, 7, 8)));
    assert_eq!(parse_ip("AbCd:0Ef0::FFFF"), Some(IpAddr::V6(0xabcd, 0x0ef0, 0, 0, 0, 0, 0, 0xffff)));
    assert_eq!(
        parse_ip("::ffff:192.0.2.128"),
        Some(IpAddr::V6(0, 0, 0, 0, 0, 0xffff, 0xc000, 0x0280))
    );
    assert_eq!(
        parse_ip("1:2:3:4:5:6:77.88.99.100"),
        Some(IpAddr::V6(1, 2, 3, 4, 5, 6, 0x4d58, 0x6364))
    );
    assert_eq!(parse_ip("64:ff9b::1.2.3.4"), Some(IpAddr::V6(0x64, 0xff9b, 0, 0, 0, 0, 0x0102, 0x0304)));
}

#[test]
fn rejects_malformed_bare_addresses() {
    assert_eq!(parse_ip(""), None);
    assert_eq!(parse_ip("not-an-address"), None);
    assert_eq!(parse_ip("1.2.3"), None);
    assert_eq!(parse_ip("1.2.3.4.5"), None);
    assert_eq!(parse_ip("1.2.3.04"), None);
    assert_eq!(parse_ip("1.2.3.1000"), None);
    assert_eq!(parse_ip("1.2..4"), None);
    assert_eq!(parse_ip(":"), None);
    assert_eq!(parse_ip(":::"), None);
    assert_eq!(parse_ip("1:2:3:4:5:6:7"), None);
    assert_eq!(parse_ip("1:2:3:4:5:6:7:8:9"), None);
    assert_eq!(parse_ip("1:2:3:4:5:6:7:8::"), None);
    assert_eq!(parse_ip("::1:2:3:4:5:6:7:8"), None);
    assert_eq!(parse_ip("1::2::3"), None);
    assert_eq!(parse_ip("12345::"), None);
    assert_eq!(parse_ip("g::"), None);
    assert_eq!(parse_ip("1.2.3.4::"), None);
    assert_eq!(parse_ip("::1.2.3.4:5"), None);
    assert_eq!(parse_ip("1:2:3:4:5:6:7:1.2.3.4"), None);
    assert_eq!(parse_ip("1:2:3:4:5:6::1.2.3.4"), None);
    assert_eq!(parse_ip(":1:2:3:4:5:6:7"), None);
    assert_eq!(parse_ip("1:2:3:4:5:6:7:"), None);
    assert_eq!(parse_ip("[::1]"), None);
    assert_eq!(parse_ip(" ::1"), None);
}
