//! Daemon configuration: the range that proxy and RCON ports are drawn from
//! and the address the reverse proxy listens on.
use vstd::prelude::*;
use vstd::string::StringExecFns;

verus! {

/// The first port of the default range.
pub const DEFAULT_PORT_MIN: u16 = 30001;

/// The last port of the default range.
pub const DEFAULT_PORT_MAX: u16 = 30100;

/// The whole configuration.
#[derive(Debug)]
pub struct Config {
    pub port: PortConfig,
    pub proxy_server: ProxyServerConfig,
}

/// The inclusive range ports are drawn from.
#[derive(Debug, Clone, Copy, PartialEq, Eq, Structural)]
pub struct PortConfig {
    pub min: u16,
    pub max: u16,
}

/// Where the reverse proxy listens.
#[derive(Debug, Clone)]
pub struct ProxyServerConfig {
    pub bind_address: String,
}

/// The first port of the range when none is configured.
pub fn default_port_min() -> (r: u16)
    ensures
        r == DEFAULT_PORT_MIN,
{
    DEFAULT_PORT_MIN
}

/// The last port of the range when none is configured.
pub fn default_port_max() -> (r: u16)
    ensures
        r == DEFAULT_PORT_MAX,
{
    DEFAULT_PORT_MAX
}

/// The address the reverse proxy listens on when none is configured.
pub fn default_proxy_server_bind_address() -> (r: String)
    ensures
        r@ == "0.0.0.0:25565"@,
{
    String::from_str("0.0.0.0:25565")
}

impl Default for PortConfig {
    fn default() -> (r: PortConfig)
        ensures
            r.min == DEFAULT_PORT_MIN && r.max == DEFAULT_PORT_MAX,
    {
        PortConfig { min: default_port_min(), max: default_port_max() }
    }
}

impl Default for ProxyServerConfig {
    fn default() -> (r: ProxyServerConfig)
        ensures
            r.bind_address@ == "0.0.0.0:25565"@,
    {
        ProxyServerConfig { bind_address: default_proxy_server_bind_address() }
    }
}

impl Default for Config {
    fn default() -> (r: Config)
        ensures
            r.port.min == DEFAULT_PORT_MIN && r.port.max == DEFAULT_PORT_MAX,
            r.proxy_server.bind_address@ == "0.0.0.0:25565"@,
    {
        Config { port: PortConfig::default(), proxy_server: ProxyServerConfig::default() }
    }
}

/// The configuration from the values a configuration file gave; a value it
/// left out takes its default.
pub fn get_config(port_min: Option<u16>, port_max: Option<u16>, bind_address: Option<String>) -> (r: Config)
    ensures
        r.port.min == (match port_min { Some(v) => v, None => DEFAULT_PORT_MIN }),
        r.port.max == (match port_max { Some(v) => v, None => DEFAULT_PORT_MAX }),
        r.proxy_server.bind_address@ == (match bind_address {
            Some(a) => a@,
            None => "0.0.0.0:25565"@,
        }),
{
    let min = match port_min {
        Some(v) => v,
        None => default_port_min(),
    };
    let max = match port_max {
        Some(v) => v,
        None => default_port_max(),
    };
    let bind = match bind_address {
        Some(a) => a,
        None => default_proxy_server_bind_address(),
    };
    Config { port: PortConfig { min, max }, proxy_server: ProxyServerConfig { bind_address: bind } }
}

} // verus!
