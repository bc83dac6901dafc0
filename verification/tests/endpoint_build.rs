use realm::addr::{IpAddr, RemoteAddr, SocketAddr};
use realm::conf::{ConfigError, EndpointConf, Lookup, SubOptions};
use realm::endpoint::{
    Acceptor, ConnectOpts, Connector, Endpoint, TlsClientConf, TlsServerConf, TransportPair, WsConf,
};

fn rule(listen: &str, remote: &str) -> EndpointConf {
    EndpointConf {
        listen: listen.to_string(),
        remote: remote.to_string(),
        through: None,
        interface: None,
        listen_transport: None,
        remote_transport: None,
    }
}

fn through(text: &str) -> EndpointConf {
    let mut conf = rule("127.0.0.1:10000", "127.0.0.1:20000");
    conf.through = Some(text.to_string());
    conf
}

fn v4(a: u8, b: u8, c: u8, d: u8, port: u16) -> SocketAddr {
    SocketAddr { ip: IpAddr::V4(a, b, c, d), port, scope_id: 0 }
}

fn no_options() -> SubOptions {
    SubOptions { listen_ws: None, listen_tls: None, remote_ws: None, remote_tls: None }
}

fn ws(host: &str, path: &str) -> WsConf {
    WsConf { host: host.to_string(), path: path.to_string() }
}

fn tls_client(sni: &str) -> TlsClientConf {
    TlsClientConf {
        sni: sni.to_string(),
        alpn: vec![b"h2".to_vec()],
        insecure: false,
        early_data: true,
    }
}

fn tls_server(name: &str) -> TlsServerConf {
    TlsServerConf {
        crt: String::new(),
        key: String::new(),
        ocsp: String::new(),
        server_name: name.to_string(),
    }
}

#[test]
fn remote_that_is_an_address_is_fixed() {
    let conf = rule("127.0.0.1:10000", "127.0.0.1:20000");
    assert_eq!(conf.build_remote(true), Ok(RemoteAddr::SocketAddr(v4(127, 0, 0, 1, 20000))));
    assert_eq!(conf.build_remote(false), Ok(RemoteAddr::SocketAddr(v4(127, 0, 0, 1, 20000))));
    assert_eq!(conf.remote_host(), None);

    let conf = rule("127.0.0.1:10000", "[2001:db8::1]:443");
    assert_eq!(
        conf.build_remote(false),
        Ok(RemoteAddr::SocketAddr(SocketAddr {
            ip: IpAddr::V6(0x2001, 0xdb8, 0, 0, 0, 0, 0, 1),
            port: 443,
            scope_id: 0
        }))
    );
}

#[test]
fn remote_that_is_a_name_is_a_domain() {
    let conf = rule("127.0.0.1:10000", "example.com:443");
    assert_eq!(conf.remote_host(), Some("example.com".to_string()));
    assert_eq!(
        conf.build_remote(true),
        Ok(RemoteAddr::DomainName("example.com".to_string(), 443))
    );
}

#[test]
fn remote_name_that_does_not_resolve_stops_the_build() {
    let conf = rule("127.0.0.1:10000", "example.com:443");
    assert_eq!(conf.build_remote(false), Err(ConfigError::UnresolvableRemote));
    let lookup = Lookup { local: vec![], remote_resolves: false };
    let conf = conf.clone();
    assert_eq!(conf.build(&lookup, no_options()), Err(ConfigError::UnresolvableRemote));
}

#[test]
fn remote_is_split_at_its_last_colon() {
    let conf = rule("127.0.0.1:10000", "a:b:80");
    assert_eq!(conf.remote_host(), Some("a:b".to_string()));
    assert_eq!(conf.build_remote(true), Ok(RemoteAddr::DomainName("a:b".to_string(), 80)));

    let conf = rule("127.0.0.1:10000", "::1:8080");
    assert_eq!(conf.build_remote(true), Ok(RemoteAddr::DomainName("::1".to_string(), 8080)));

    let conf = rule("127.0.0.1:10000", ":53");
    assert_eq!(conf.build_remote(true), Ok(RemoteAddr::DomainName(String::new(), 53)));
}

#[test]
fn remote_port_may_carry_a_plus_sign_and_leading_zeros() {
    let conf = rule("127.0.0.1:10000", "example.com:+443");
    assert_eq!(
        conf.build_remote(true),
        Ok(RemoteAddr::DomainName("example.com".to_string(), 443))
    );
    let conf = rule("127.0.0.1:10000", "example.com:000443");
    assert_eq!(
        conf.build_remote(true),
        Ok(RemoteAddr::DomainName("example.com".to_string(), 443))
    );
    let conf = rule("127.0.0.1:10000", "example.com:65535");
    assert_eq!(
        conf.build_remote(true),
        Ok(RemoteAddr::DomainName("example.com".to_string(), 65535))
    );
}

#[test]
fn remote_without_a_port_stops_the_build() {
    for text in [
        "example.com",
        "example.com:",
        "example.com:http",
        "example.com:65536",
        "example.com:-1",
        "example.com:+",
        "example.com:4 43",
        "8080",
        "",
    ] {
        let conf = rule("127.0.0.1:10000", text);
        assert_eq!(conf.build_remote(true), Err(ConfigError::InvalidRemote), "remote {:?}", text);
        assert_eq!(conf.build_remote(false), Err(ConfigError::InvalidRemote), "remote {:?}", text);
        assert_eq!(conf.remote_host(), None, "remote {:?}", text);
    }
}

#[test]
fn send_through_absent_or_unreadable_is_none() {
    assert_eq!(rule("127.0.0.1:10000", "127.0.0.1:20000").build_send_through(), None);
    assert_eq!(through("not-an-address").build_send_through(), None);
    assert_eq!(through("").build_send_through(), None);
    assert_eq!(through("[]").build_send_through(), None);
    assert_eq!(through("203.0.113.5:").build_send_through(), None);
}

#[test]
fn send_through_bare_address_gets_port_zero() {
    assert_eq!(through("203.0.113.5").build_send_through(), Some(v4(203, 0, 113, 5, 0)));
    assert_eq!(
        through("[2001:db8::1]").build_send_through(),
        Some(SocketAddr { ip: IpAddr::V6(0x2001, 0xdb8, 0, 0, 0, 0, 0, 1), port: 0, scope_id: 0 })
    );
    assert_eq!(
        through("2001:db8::1").build_send_through(),
        Some(SocketAddr { ip: IpAddr::V6(0x2001, 0xdb8, 0, 0, 0, 0, 0, 1), port: 0, scope_id: 0 })
    );
    assert_eq!(through("[203.0.113.5]").build_send_through(), Some(v4(203, 0, 113, 5, 0)));
    assert_eq!(
        through("[::ffff:192.0.2.1]").build_send_through(),
        Some(SocketAddr { ip: IpAddr::V6(0, 0, 0, 0, 0, 0xffff, 0xc000, 0x0201), port: 0, scope_id: 0 })
    );
}

#[test]
fn send_through_with_a_bracket_inside_is_none() {
    assert_eq!(through("203.0.[113].5").build_send_through(), None);
    assert_eq!(through("203.0.113[.]5").build_send_through(), None);
    assert_eq!(through("2001:db8:[:]1").build_send_through(), None);
    assert_eq!(through("[[::1]]").build_send_through(), None);
    assert_eq!(through("[2001:db8::1]]").build_send_through(), None);
    assert_eq!(through("[[203.0.113.5]").build_send_through(), None);
    assert_eq!(through("[203.0.113.5][").build_send_through(), None);
    assert_eq!(through("]203.0.113.5[").build_send_through(), None);
    assert_eq!(through("[::1]:").build_send_through(), None);
    assert_eq!(through("[").build_send_through(), None);
    assert_eq!(through("]").build_send_through(), None);
}

#[test]
fn send_through_with_one_bracket_at_an_end_is_read() {
    assert_eq!(through("[203.0.113.5").build_send_through(), Some(v4(203, 0, 113, 5, 0)));
    assert_eq!(through("203.0.113.5]").build_send_through(), Some(v4(203, 0, 113, 5, 0)));
    assert_eq!(
        through("[::1").build_send_through(),
        Some(SocketAddr { ip: IpAddr::V6(0, 0, 0, 0, 0, 0, 0, 1), port: 0, scope_id: 0 })
    );
}

#[test]
fn send_through_full_address_is_kept() {
    assert_eq!(
        through("[2001:db8::1]:9000").build_send_through(),
        Some(SocketAddr {
            ip: IpAddr::V6(0x2001, 0xdb8, 0, 0, 0, 0, 0, 1),
            port: 9000,
            scope_id: 0
        })
    );
    assert_eq!(through("203.0.113.5:9000").build_send_through(), Some(v4(203, 0, 113, 5, 9000)));
}

#[test]
fn local_address_is_read_or_taken_from_the_first_candidate() {
    let conf = rule("127.0.0.1:10000", "127.0.0.1:20000");
    assert_eq!(conf.build_local(&vec![]), Ok(v4(127, 0, 0, 1, 10000)));
    assert_eq!(conf.build_local(&vec![v4(9, 9, 9, 9, 9)]), Ok(v4(127, 0, 0, 1, 10000)));

    let conf = rule("localhost:10000", "127.0.0.1:20000");
    let candidates = vec![
        SocketAddr { ip: IpAddr::V6(0, 0, 0, 0, 0, 0, 0, 1), port: 10000, scope_id: 0 },
        v4(127, 0, 0, 1, 10000),
    ];
    assert_eq!(conf.build_local(&candidates), Ok(candidates[0]));
    assert_eq!(conf.build_local(&vec![]), Err(ConfigError::InvalidLocal));
}

#[test]
fn transport_is_absent_when_no_sub_option_is_there() {
    let mut conf = rule("127.0.0.1:10000", "127.0.0.1:20000");
    assert_eq!(conf.build_transport(no_options()), None);
    conf.listen_transport = Some("".to_string());
    conf.remote_transport = Some("".to_string());
    assert_eq!(conf.build_transport(no_options()), None);
}

#[test]
fn transport_is_there_as_soon_as_one_sub_option_is() {
    let mut conf = rule("127.0.0.1:10000", "127.0.0.1:20000");
    conf.listen_transport = Some("ws;host=a.b.c;path=/x".to_string());
    conf.remote_transport = Some("tls;sni=a.b.c".to_string());

    let only_listen_ws = SubOptions { listen_ws: Some(ws("a.b.c", "/x")), ..no_options() };
    assert_eq!(
        conf.build_transport(only_listen_ws),
        Some(TransportPair {
            accept: Acceptor { ws: Some(ws("a.b.c", "/x")), tls: None },
            connect: Connector { ws: None, tls: None },
        })
    );

    let only_remote_tls = SubOptions { remote_tls: Some(tls_client("a.b.c")), ..no_options() };
    assert_eq!(
        conf.build_transport(only_remote_tls),
        Some(TransportPair {
            accept: Acceptor { ws: None, tls: None },
            connect: Connector { ws: None, tls: Some(tls_client("a.b.c")) },
        })
    );

    let all = SubOptions {
        listen_ws: Some(ws("l", "/l")),
        listen_tls: Some(tls_server("l.example")),
        remote_ws: Some(ws("r", "/r")),
        remote_tls: Some(tls_client("r.example")),
    };
    assert_eq!(
        conf.build_transport(all),
        Some(TransportPair {
            accept: Acceptor { ws: Some(ws("l", "/l")), tls: Some(tls_server("l.example")) },
            connect: Connector { ws: Some(ws("r", "/r")), tls: Some(tls_client("r.example")) },
        })
    );
}

#[test]
fn transport_passes_over_the_side_without_a_descriptor() {
    let all = SubOptions {
        listen_ws: Some(ws("l", "/l")),
        listen_tls: Some(tls_server("l.example")),
        remote_ws: Some(ws("r", "/r")),
        remote_tls: Some(tls_client("r.example")),
    };
    let mut conf = rule("127.0.0.1:10000", "127.0.0.1:20000");
    assert_eq!(conf.build_transport(all.clone()), None);

    conf.remote_transport = Some("ws;host=r;path=/r;tls;sni=r.example".to_string());
    assert_eq!(
        conf.build_transport(all),
        Some(TransportPair {
            accept: Acceptor { ws: None, tls: None },
            connect: Connector { ws: Some(ws("r", "/r")), tls: Some(tls_client("r.example")) },
        })
    );
}

#[test]
fn rule_is_never_empty() {
    assert!(!rule("", "").is_empty());
    assert!(!rule("127.0.0.1:10000", "127.0.0.1:20000").is_empty());
}

#[test]
fn plain_rule_between_two_local_ports_builds() {
    let conf = rule("127.0.0.1:10000", "127.0.0.1:20000");
    let lookup = Lookup { local: vec![], remote_resolves: false };
    assert_eq!(
        conf.build(&lookup, no_options()),
        Ok(Endpoint {
            laddr: v4(127, 0, 0, 1, 10000),
            raddr: RemoteAddr::SocketAddr(v4(127, 0, 0, 1, 20000)),
            conn_opts: ConnectOpts { send_through: None, bind_interface: None, transport: None },
        })
    );
}

#[test]
fn full_rule_builds_every_part() {
    let conf = EndpointConf {
        listen: "[::]:443".to_string(),
        remote: "example.com:443".to_string(),
        through: Some("203.0.113.5".to_string()),
        interface: Some("eth0".to_string()),
        listen_transport: Some("tls;servername=l.example".to_string()),
        remote_transport: Some("ws;host=r;path=/r".to_string()),
    };
    let lookup = Lookup { local: vec![], remote_resolves: true };
    let options = SubOptions {
        listen_tls: Some(tls_server("l.example")),
        remote_ws: Some(ws("r", "/r")),
        ..no_options()
    };
    assert_eq!(
        conf.build(&lookup, options),
        Ok(Endpoint::new(
            SocketAddr { ip: IpAddr::V6(0, 0, 0, 0, 0, 0, 0, 0), port: 443, scope_id: 0 },
            RemoteAddr::DomainName("example.com".to_string(), 443),
            ConnectOpts {
                send_through: Some(v4(203, 0, 113, 5, 0)),
                bind_interface: Some("eth0".to_string()),
                transport: Some(TransportPair {
                    accept: Acceptor { ws: None, tls: Some(tls_server("l.example")) },
                    connect: Connector { ws: Some(ws("r", "/r")), tls: None },
                }),
            },
        ))
    );
}

#[test]
fn local_failure_comes_before_remote_failure() {
    let conf = rule("nowhere", "also-nowhere");
    let lookup = Lookup { local: vec![], remote_resolves: false };
    assert_eq!(conf.clone().build(&lookup, no_options()), Err(ConfigError::InvalidLocal));

    let lookup = Lookup { local: vec![v4(10, 0, 0, 1, 80)], remote_resolves: false };
    assert_eq!(conf.build(&lookup, no_options()), Err(ConfigError::InvalidRemote));
}
