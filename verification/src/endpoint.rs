//! A relay rule in its typed form: where to listen, where to forward, and
//! under which policy outbound connections are made.

use vstd::prelude::*;
use crate::addr::{RemoteAddr, SocketAddr};

verus! {

/// WebSocket framing: the host and the path of the upgrade request.
#[derive(Clone, Debug, PartialEq, Eq)]
pub struct WsConf {
    pub host: String,
    pub path: String,
}

/// TLS as a client: the server name to ask for, the protocols to offer, and
/// whether to skip verification and to send early data.
#[derive(Clone, Debug, PartialEq, Eq)]
pub struct TlsClientConf {
    pub sni: String,
    pub alpn: Vec<Vec<u8>>,
    pub insecure: bool,
    pub early_data: bool,
}

/// TLS as a server: the paths of certificate, key and stapled response, and the
/// name for a certificate that the server signs itself.
#[derive(Clone, Debug, PartialEq, Eq)]
pub struct TlsServerConf {
    pub crt: String,
    pub key: String,
    pub ocsp: String,
    pub server_name: String,
}

/// How an accepted local stream is wrapped. With both fields absent the stream
/// is left as it is.
#[derive(Clone, Debug, PartialEq, Eq)]
pub struct Acceptor {
    pub ws: Option<WsConf>,
    pub tls: Option<TlsServerConf>,
}

/// How a freshly dialed remote stream is wrapped. With both fields absent the
/// stream is left as it is.
#[derive(Clone, Debug, PartialEq, Eq)]
pub struct Connector {
    pub ws: Option<WsConf>,
    pub tls: Option<TlsClientConf>,
}

/// The wrapping of both sides of a relay session.
#[derive(Clone, Debug, PartialEq, Eq)]
pub struct TransportPair {
    pub accept: Acceptor,
    pub connect: Connector,
}

/// The policy under which an endpoint makes its outbound connections.
#[derive(Clone, Debug, PartialEq, Eq)]
pub struct ConnectOpts {
    /// Source address to bind before connecting.
    pub send_through: Option<SocketAddr>,
    /// Network interface to bind before connecting.
    pub bind_interface: Option<String>,
    /// Wrapping of the two streams; plain relay when absent.
    pub transport: Option<TransportPair>,
}

/// One relay rule: a local listen address, a remote target and the policy for
/// reaching it.
#[derive(Clone, Debug, PartialEq, Eq)]
pub struct Endpoint {
    pub laddr: SocketAddr,
    pub raddr: RemoteAddr,
    pub conn_opts: ConnectOpts,
}

impl Endpoint {
    /// An endpoint of the three parts given.
    pub fn new(laddr: SocketAddr, raddr: RemoteAddr, conn_opts: ConnectOpts) -> (r: Endpoint)
        ensures
            r.laddr == laddr,
            r.raddr == raddr,
            r.conn_opts == conn_opts,
    {
        Endpoint { laddr, raddr, conn_opts }
    }
}

} // verus!
