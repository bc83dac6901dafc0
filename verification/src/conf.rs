//! A relay rule as it is configured, in text, and how it is built into an
//! `Endpoint`.
//!
//! Building never touches the network. What only the outside can tell (the
//! resolver's answers, the reading of the transport descriptors) is handed in
//! as plain values.

use vstd::prelude::*;
use vstd::string::*;
use crate::addr::{
    ip_addr, lemma_ip_has_no_bracket, parse_ip_addr, parse_socket_addr_chars, socket_addr,
    RemoteAddr, RemoteAddrView, SocketAddr,
};
use crate::endpoint::{
    Acceptor, ConnectOpts, Connector, Endpoint, TlsClientConf, TlsServerConf, TransportPair, WsConf,
};
use crate::number::{parse_port, port_number};
use crate::text::{
    find_last_char, last_index, lemma_last_index, slice_chars, strip_brackets, to_chars,
    unbracketed,
};

verus! {

/// Why a rule cannot be built. Each of these stops the start-up.
#[derive(Clone, Copy, Debug, PartialEq, Eq, Structural)]
pub enum ConfigError {
    /// The listen text is no address, and the resolver had no candidate for it.
    InvalidLocal,
    /// The remote text is no address and has no colon followed by a port.
    InvalidRemote,
    /// The remote host did not resolve when it was probed.
    UnresolvableRemote,
}

/// One relay rule in text.
#[derive(Clone, Debug, PartialEq, Eq)]
pub struct EndpointConf {
    pub listen: String,
    pub remote: String,
    pub through: Option<String>,
    pub interface: Option<String>,
    pub listen_transport: Option<String>,
    pub remote_transport: Option<String>,
}

/// What the resolver answered for one rule.
#[derive(Clone, Debug, PartialEq, Eq)]
pub struct Lookup {
    /// The candidates for the listen text, in the resolver's order.
    pub local: Vec<SocketAddr>,
    /// Whether the host of the remote text resolved at all.
    pub remote_resolves: bool,
}

/// What the reading of the two transport descriptors gave: for each side its
/// WebSocket and its TLS options, each absent where the descriptor asks for
/// none.
#[derive(Clone, Debug, PartialEq, Eq)]
pub struct SubOptions {
    pub listen_ws: Option<WsConf>,
    pub listen_tls: Option<TlsServerConf>,
    pub remote_ws: Option<WsConf>,
    pub remote_tls: Option<TlsClientConf>,
}

/// The characters of an optional string.
pub open spec fn opt_view(s: Option<String>) -> Option<Seq<char>> {
    match s {
        Some(s) => Some(s@),
        None => None,
    }
}

/// The listen address of a rule: the address that the text denotes; else the
/// resolver's first candidate.
pub open spec fn local_addr(listen: Seq<char>, candidates: Seq<SocketAddr>) -> Result<
    SocketAddr,
    ConfigError,
> {
    match socket_addr(listen) {
        Some(a) => Ok(a),
        None => if candidates.len() > 0 {
            Ok(candidates[0])
        } else {
            Err(ConfigError::InvalidLocal)
        },
    }
}

/// Host and port of a text that is split at its last colon, where it has one
/// and a port number follows it.
pub open spec fn host_and_port(s: Seq<char>) -> Option<(Seq<char>, u16)> {
    let k = last_index(s, ':');
    if k < 0 {
        None
    } else {
        match port_number(s.subrange(k + 1, s.len() as int)) {
            Some(port) => Some((s.subrange(0, k), port as u16)),
            None => None,
        }
    }
}

/// The remote target of a rule. A text that denotes an address gives that
/// address, fixed. Any other text is split at its last colon into a host and a
/// port, and gives a domain name where the host resolved when probed.
pub open spec fn remote_addr(remote: Seq<char>, resolves: bool) -> Result<
    RemoteAddrView,
    ConfigError,
> {
    match socket_addr(remote) {
        Some(a) => Ok(RemoteAddrView::SocketAddr(a)),
        None => match host_and_port(remote) {
            None => Err(ConfigError::InvalidRemote),
            Some((host, port)) => if resolves {
                Ok(RemoteAddrView::DomainName(host, port))
            } else {
                Err(ConfigError::UnresolvableRemote)
            },
        },
    }
}

/// The host that has to be probed before the remote target can be built:
/// that of a remote text which denotes no address but splits into host and port.
pub open spec fn host_to_probe(remote: Seq<char>) -> Option<Seq<char>> {
    match (socket_addr(remote), host_and_port(remote)) {
        (None, Some((host, _))) => Some(host),
        _ => None,
    }
}

/// The source address of a rule: the address that the text denotes; else the
/// IP address that the text denotes once the square brackets that enclose it
/// are taken off, with port 0. A bracket between the two ends is never taken
/// out, so a text with one there, which denotes no address, gives nothing.
pub open spec fn send_through(through: Option<Seq<char>>) -> Option<SocketAddr> {
    match through {
        None => None,
        Some(t) => match socket_addr(t) {
            Some(a) => Some(a),
            None => match ip_addr(unbracketed(t)) {
                Some(ip) => Some(SocketAddr { ip, port: 0, scope_id: 0 }),
                None => None,
            },
        },
    }
}

/// The sub-options that count: those of a side whose descriptor is absent do not.
pub open spec fn effective(listen: bool, remote: bool, o: SubOptions) -> SubOptions {
    SubOptions {
        listen_ws: if listen { o.listen_ws } else { None },
        listen_tls: if listen { o.listen_tls } else { None },
        remote_ws: if remote { o.remote_ws } else { None },
        remote_tls: if remote { o.remote_tls } else { None },
    }
}

/// The wrapping that four sub-options ask for: none where all four are absent;
/// else each side is wrapped by exactly its own two.
pub open spec fn transport_of(o: SubOptions) -> Option<TransportPair> {
    if o.listen_ws is None && o.listen_tls is None && o.remote_ws is None && o.remote_tls is None {
        None
    } else {
        Some(
            TransportPair {
                accept: Acceptor { ws: o.listen_ws, tls: o.listen_tls },
                connect: Connector { ws: o.remote_ws, tls: o.remote_tls },
            },
        )
    }
}

/// A text with a colon is split at its last colon, and at no other: the host
/// is all that stands before it, and all that stands after it has to be a port
/// number.
pub proof fn lemma_split_at_last_colon(s: Seq<char>)
    requires
        s.contains(':'),
    ensures
        0 <= last_index(s, ':') < s.len(),
        s[last_index(s, ':')] == ':',
        forall|j: int| last_index(s, ':') < j < s.len() ==> s[j] != ':',
        host_and_port(s) == match port_number(
            s.subrange(last_index(s, ':') + 1, s.len() as int),
        ) {
            Some(port) => Some((s.subrange(0, last_index(s, ':')), port as u16)),
            None => None,
        },
{
    lemma_last_index(s, ':');
    let i = choose|i: int| 0 <= i < s.len() && s[i] == ':';
    if last_index(s, ':') < 0 {
        assert(s[i] != ':');
    }
}

/// Only the brackets that enclose a text are taken off: a text that denotes no
/// address with a port and has a square bracket anywhere between its two ends
/// gives no source address.
pub proof fn lemma_bracket_inside_is_refused(t: Seq<char>, i: int)
    requires
        socket_addr(t) is None,
        0 < i < t.len() - 1,
        t[i] == '[' || t[i] == ']',
    ensures
        send_through(Some(t)) is None,
{
    let u = unbracketed(t);
    let from: int = if t[0] == '[' {
        1
    } else {
        0
    };
    assert(u[i - from] == t[i]);
    if ip_addr(u) is Some {
        lemma_ip_has_no_bracket(u, i - from);
    }
}

/// A text without a square bracket at either end is read as it stands.
pub proof fn lemma_bare_text_is_kept(t: Seq<char>)
    requires
        t.len() == 0 || (t[0] != '[' && t.last() != ']'),
    ensures
        unbracketed(t) == t,
{
    assert(unbracketed(t) =~= t);
}

/// A domain name comes only of a text that denotes no address, and its port is
/// the number that stands after the last colon of the text.
pub proof fn lemma_domain_is_no_address(remote: Seq<char>, resolves: bool)
    requires
        remote_addr(remote, resolves) matches Ok(RemoteAddrView::DomainName(_, _)),
    ensures
        socket_addr(remote) is None,
        resolves,
        host_to_probe(remote) is Some,
        host_and_port(remote) matches Some((host, port)) && remote_addr(remote, resolves) == Ok::<
            RemoteAddrView,
            ConfigError,
        >(RemoteAddrView::DomainName(host, port)),
{
}

impl EndpointConf {
    /// The listen address. A text that denotes an address needs no resolver;
    /// of several candidates the first is taken.
    pub fn build_local(&self, candidates: &Vec<SocketAddr>) -> (r: Result<SocketAddr, ConfigError>)
        ensures
            r == local_addr(self.listen@, candidates@),
    {
        let v = to_chars(self.listen.as_str());
        match parse_socket_addr_chars(&v) {
            Some(a) => Ok(a),
            None => if candidates.len() > 0 {
                Ok(candidates[0])
            } else {
                Err(ConfigError::InvalidLocal)
            },
        }
    }

    /// The host that the caller has to probe with its resolver before
    /// `build_remote`; `None` where the remote text needs no probe or is
    /// rejected without one.
    pub fn remote_host(&self) -> (r: Option<String>)
        ensures
            opt_view(r) == host_to_probe(self.remote@),
    {
        let v = to_chars(self.remote.as_str());
        if parse_socket_addr_chars(&v).is_some() {
            return None;
        }
        match find_last_char(&v, ':') {
            None => None,
            Some(k) => {
                let digits = slice_chars(&v, k + 1, v.len());
                match parse_port(&digits) {
                    None => None,
                    Some(_) => Some(self.remote.as_str().substring_char(0, k).to_owned()),
                }
            },
        }
    }

    /// The remote target. `resolves` says whether the host of `remote_host`
    /// resolved; it is not looked at where the text denotes an address.
    pub fn build_remote(&self, resolves: bool) -> (r: Result<RemoteAddr, ConfigError>)
        ensures
            match remote_addr(self.remote@, resolves) {
                Ok(a) => r is Ok && r->Ok_0@ == a,
                Err(e) => r == Err::<RemoteAddr, ConfigError>(e),
            },
            socket_addr(self.remote@) matches Some(a) ==> r is Ok && r->Ok_0@
                == RemoteAddrView::SocketAddr(a),
            socket_addr(self.remote@) is None && self.remote@.contains(':') ==> (
            match host_and_port(self.remote@) {
                None => r == Err::<RemoteAddr, ConfigError>(ConfigError::InvalidRemote),
                Some((host, port)) => if resolves {
                    r is Ok && r->Ok_0@ == RemoteAddrView::DomainName(host, port)
                } else {
                    r == Err::<RemoteAddr, ConfigError>(ConfigError::UnresolvableRemote)
                },
            }),
    {
        let v = to_chars(self.remote.as_str());
        if let Some(a) = parse_socket_addr_chars(&v) {
            return Ok(RemoteAddr::SocketAddr(a));
        }
        match find_last_char(&v, ':') {
            None => Err(ConfigError::InvalidRemote),
            Some(k) => {
                let digits = slice_chars(&v, k + 1, v.len());
                match parse_port(&digits) {
                    None => Err(ConfigError::InvalidRemote),
                    Some(port) => {
                        if resolves {
                            let host = self.remote.as_str().substring_char(0, k).to_owned();
                            Ok(RemoteAddr::DomainName(host, port))
                        } else {
                            Err(ConfigError::UnresolvableRemote)
                        }
                    },
                }
            },
        }
    }

    /// The source address to bind outbound sockets to, where one is configured
    /// and can be read.
    pub fn build_send_through(&self) -> (r: Option<SocketAddr>)
        ensures
            r == send_through(opt_view(self.through)),
    {
        match &self.through {
            None => None,
            Some(t) => {
                let v = to_chars(t.as_str());
                match parse_socket_addr_chars(&v) {
                    Some(a) => Some(a),
                    None => {
                        let bare = strip_brackets(&v);
                        match parse_ip_addr(&bare) {
                            Some(ip) => Some(SocketAddr { ip, port: 0, scope_id: 0 }),
                            None => None,
                        }
                    },
                }
            },
        }
    }

    /// The wrapping of the two sides. The sub-options of a side count only where
    /// the rule has a descriptor for that side.
    pub fn build_transport(&self, options: SubOptions) -> (r: Option<TransportPair>)
        ensures
            r == transport_of(
                effective(self.listen_transport is Some, self.remote_transport is Some, options),
            ),
            r is None <==> {
                let o = effective(
                    self.listen_transport is Some,
                    self.remote_transport is Some,
                    options,
                );
                o.listen_ws is None && o.listen_tls is None && o.remote_ws is None
                    && o.remote_tls is None
            },
    {
        let SubOptions { listen_ws, listen_tls, remote_ws, remote_tls } = options;
        let (listen_ws, listen_tls) = if self.listen_transport.is_some() {
            (listen_ws, listen_tls)
        } else {
            (None, None)
        };
        let (remote_ws, remote_tls) = if self.remote_transport.is_some() {
            (remote_ws, remote_tls)
        } else {
            (None, None)
        };
        if listen_ws.is_none() && listen_tls.is_none() && remote_ws.is_none()
            && remote_tls.is_none() {
            None
        } else {
            Some(
                TransportPair {
                    accept: Acceptor { ws: listen_ws, tls: listen_tls },
                    connect: Connector { ws: remote_ws, tls: remote_tls },
                },
            )
        }
    }

    /// A rule is never empty: listen and remote are always there.
    pub fn is_empty(&self) -> (r: bool)
        ensures
            !r,
    {
        false
    }

    /// Builds the endpoint of this rule. The listen address is built first, then
    /// the remote target; the first of them that fails gives the error. The
    /// source address, the interface and the transport never fail.
    pub fn build(self, lookup: &Lookup, options: SubOptions) -> (r: Result<Endpoint, ConfigError>)
        ensures
            match (
                local_addr(self.listen@, lookup.local@),
                remote_addr(self.remote@, lookup.remote_resolves),
            ) {
                (Err(e), _) => r == Err::<Endpoint, ConfigError>(e),
                (Ok(_), Err(e)) => r == Err::<Endpoint, ConfigError>(e),
                (Ok(local), Ok(remote)) => {
                    &&& r is Ok
                    &&& r->Ok_0.laddr == local
                    &&& r->Ok_0.raddr@ == remote
                    &&& r->Ok_0.conn_opts.send_through == send_through(opt_view(self.through))
                    &&& r->Ok_0.conn_opts.bind_interface == self.interface
                    &&& r->Ok_0.conn_opts.transport == transport_of(
                        effective(
                            self.listen_transport is Some,
                            self.remote_transport is Some,
                            options,
                        ),
                    )
                },
            },
    {
        let local = match self.build_local(&lookup.local) {
            Ok(a) => a,
            Err(e) => {
                return Err(e);
            },
        };
        let remote = match self.build_remote(lookup.remote_resolves) {
            Ok(a) => a,
            Err(e) => {
                return Err(e);
            },
        };
        let send_through = self.build_send_through();
        let transport = self.build_transport(options);
        let conn_opts = ConnectOpts { send_through, bind_interface: self.interface, transport };
        Ok(Endpoint::new(local, remote, conn_opts))
    }
}

} // verus!
