//! Operator configuration: the outbound proxy settings and the runtime
//! environment (listen address and configuration path).

use crate::util::{ascii_to_string, dec_rep, push_decimal, write_opt};
use vstd::prelude::*;

verus! {

/// Default port when the environment names none.
pub const DEFAULT_PORT: u32 = 32276;

/// Outbound proxy settings. Authentication is attempted only when both the
/// username and the password are present.
#[derive(Clone, Debug)]
pub struct ProxyConfig {
    pub proxy_url: Option<String>,
    pub use_proxy: bool,
    pub proxy_username: Option<String>,
    pub proxy_password: Option<String>,
}

impl ProxyConfig {
    /// A usable configuration: routing through a proxy presumes a proxy URL.
    pub open spec fn wf(&self) -> bool {
        self.use_proxy ==> self.proxy_url is Some
    }

    /// Both halves of the credential are present.
    pub open spec fn has_credentials(&self) -> bool {
        self.proxy_username is Some && self.proxy_password is Some
    }

    /// Assemble a proxy configuration from its parts.
    pub fn new(
        proxy_url: Option<String>,
        use_proxy: bool,
        proxy_username: Option<String>,
        proxy_password: Option<String>,
    ) -> (r: ProxyConfig)
        ensures
            r.proxy_url == proxy_url,
            r.use_proxy == use_proxy,
            r.proxy_username == proxy_username,
            r.proxy_password == proxy_password,
    {
        ProxyConfig { proxy_url, use_proxy, proxy_username, proxy_password }
    }

    /// A configuration that makes no use of an outbound proxy.
    pub fn direct() -> (r: ProxyConfig)
        ensures
            r.proxy_url is None,
            !r.use_proxy,
            r.proxy_username is None,
            r.proxy_password is None,
            r.wf(),
    {
        ProxyConfig {
            proxy_url: None,
            use_proxy: false,
            proxy_username: None,
            proxy_password: None,
        }
    }
}

/// The runtime environment: where to listen and where configuration lives.
#[derive(Clone, Debug)]
pub struct Env {
    pub ip: Option<String>,
    pub port: Option<u32>,
    pub path: Option<String>,
}

/// The decimal rendering of `n` as characters.
pub open spec fn dec_chars(n: int) -> Seq<char> {
    dec_rep(n).map_values(|x: u8| x as char)
}

/// Every decimal digit byte is ASCII.
proof fn lemma_dec_rep_ascii(n: int)
    ensures
        forall|k: int| 0 <= k < dec_rep(n).len() ==> dec_rep(n)[k] < 0x80,
    decreases n,
{
    if n >= 10 {
        lemma_dec_rep_ascii(n / 10);
        assert forall|k: int| 0 <= k < dec_rep(n).len() implies dec_rep(n)[k] < 0x80 by {
            if k < dec_rep(n).len() - 1 {
                assert(dec_rep(n)[k] == dec_rep(n / 10)[k]);
            } else {
                assert(dec_rep(n)[k] == (48 + n % 10) as u8);
            }
        }
    }
}

impl Env {
    /// The IP the server listens on: the configured one, or loopback.
    pub open spec fn spec_ip(&self) -> Seq<char> {
        match self.ip {
            Some(ip) => ip@,
            None => "127.0.0.1"@,
        }
    }

    /// The port the server listens on: the configured one, or the default.
    pub open spec fn spec_port(&self) -> u32 {
        match self.port {
            Some(p) => p,
            None => DEFAULT_PORT,
        }
    }

    /// Assemble an environment from its parts.
    pub fn new(ip: Option<String>, port: Option<u32>, path: Option<String>) -> (r: Env)
        ensures
            r.ip == ip,
            r.port == port,
            r.path == path,
    {
        Env { ip, port, path }
    }

    /// The `ip:port` string the listener binds, with the defaults filled in.
    pub fn listen_addr(&self) -> (r: String)
        ensures
            r@ == self.spec_ip() + ":"@ + dec_chars(self.spec_port() as int),
    {
        let mut s = match &self.ip {
            Some(ip) => ip.as_str().to_owned(),
            None => "127.0.0.1".to_owned(),
        };
        s.append(":");
        let port = match self.port {
            Some(p) => p,
            None => DEFAULT_PORT,
        };
        let mut digits: Vec<u8> = Vec::new();
        push_decimal(&mut digits, port as u64);
        proof {
            lemma_dec_rep_ascii(port as int);
        }
        let rendered = ascii_to_string(&digits);
        s.append(rendered.as_str());
        s
    }

    /// The environment written out for a trace line.
    pub fn display(&self) -> (r: String)
        ensures
            r@ == "Env { "@ + match self.ip {
                Some(ip) => "ip"@ + ": "@ + ip@,
                None => Seq::<char>::empty(),
            } + match self.port {
                Some(p) => "port"@ + ": "@ + dec_chars(p as int),
                None => Seq::<char>::empty(),
            } + match self.path {
                Some(p) => "path"@ + ": "@ + p@,
                None => Seq::<char>::empty(),
            } + " }"@,
    {
        let mut s = "Env { ".to_owned();
        write_opt(&mut s, "ip", &self.ip);
        match self.port {
            Some(p) => {
                let mut digits: Vec<u8> = Vec::new();
                push_decimal(&mut digits, p as u64);
                proof {
                    lemma_dec_rep_ascii(p as int);
                }
                let rendered = ascii_to_string(&digits);
                s.append("port");
                s.append(": ");
                s.append(rendered.as_str());
            },
            None => {},
        }
        write_opt(&mut s, "path", &self.path);
        s.append(" }");
        s
    }
}

} // verus!
