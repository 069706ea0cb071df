//! The server manifest kept in each server directory, as the supervisor
//! reads it, and the paths derived from it.
use crate::paths::{join, path_join};
use vstd::prelude::*;
use vstd::string::StringExecFns;

verus! {

/// Which Java runtime runs the server.
#[derive(Debug, Clone)]
pub enum JavaRuntime {
    /// A runtime of Mojang's catalog, installed under the data directory.
    Mojang { name: String },
    /// A Java installation given by its home directory.
    Custom { java_home: String },
}

/// How players reach the server.
#[derive(Debug, Clone)]
pub enum Connection {
    /// On the server's own port.
    Direct,
    /// Through the reverse proxy, under this hostname.
    Proxy { hostname: String },
}

/// Whether an extension is a mod or a plugin.
#[derive(Debug, Clone, Copy, PartialEq, Eq, Structural)]
pub enum ExtensionType {
    Mod,
    Plugin,
}

/// An extension installed into the server.
#[derive(Debug, Clone)]
pub struct ExtensionEntry {
    pub name: String,
    pub type_: ExtensionType,
    pub provider: String,
    pub id: String,
    pub version_id: String,
    pub auto_update: bool,
}

/// The manifest of a server directory. Command tokens are raw bytes, so
/// that paths that are not UTF-8 survive.
#[derive(Debug, Clone)]
pub struct ServerManifest {
    pub name: String,
    pub server_implementation: String,
    pub version: String,
    pub build: String,
    pub command: Vec<Vec<u8>>,
    pub java_runtime: JavaRuntime,
    pub restart_on_failure: bool,
    pub auto_start: bool,
    pub auto_update: bool,
    pub connection: Connection,
    pub extensions: Vec<ExtensionEntry>,
}

/// The tokens of the default command line:
/// `${java} -Xmx4G -jar ${server_jar} nogui`.
pub open spec fn default_command() -> Seq<Seq<u8>> {
    seq![
        seq![36u8, 123u8, 106u8, 97u8, 118u8, 97u8, 125u8],
        seq![45u8, 88u8, 109u8, 120u8, 52u8, 71u8],
        seq![45u8, 106u8, 97u8, 114u8],
        seq![36u8, 123u8, 115u8, 101u8, 114u8, 118u8, 101u8, 114u8, 95u8, 106u8, 97u8, 114u8, 125u8],
        seq![110u8, 111u8, 103u8, 117u8, 105u8],
    ]
}

/// The hostname a connection is proxied under.
pub open spec fn hostname_of(c: Connection) -> Option<Seq<char>> {
    match c {
        Connection::Proxy { hostname } => Some(hostname@),
        Connection::Direct => None,
    }
}

/// The hostname the server is proxied under, `None` in direct mode.
pub fn proxy_hostname(c: &Connection) -> (r: Option<String>)
    ensures
        match r {
            Some(h) => hostname_of(*c) == Some(h@),
            None => hostname_of(*c) is None,
        },
{
    match c {
        Connection::Proxy { hostname } => Some(hostname.clone()),
        Connection::Direct => None,
    }
}

impl ServerManifest {
    /// A new manifest for the given implementation, version, build and
    /// runtime: an empty name, the default command line, restart on failure
    /// and auto-start on, auto-update off, direct connection, no extensions.
    pub fn default(server_implementation: &str, version: &str, build: &str, java_runtime: JavaRuntime) -> (r: ServerManifest)
        ensures
            r.name@ == Seq::<char>::empty(),
            r.server_implementation@ == server_implementation@,
            r.version@ == version@,
            r.build@ == build@,
            r.command@.map_values(|t: Vec<u8>| t@) == default_command(),
            r.restart_on_failure,
            r.auto_start,
            !r.auto_update,
            r.connection is Direct,
            r.extensions@.len() == 0,
    {
        let command: Vec<Vec<u8>> = vec![
            vec![36u8, 123u8, 106u8, 97u8, 118u8, 97u8, 125u8],
            vec![45u8, 88u8, 109u8, 120u8, 52u8, 71u8],
            vec![45u8, 106u8, 97u8, 114u8],
            vec![36u8, 123u8, 115u8, 101u8, 114u8, 118u8, 101u8, 114u8, 95u8, 106u8, 97u8, 114u8, 125u8],
            vec![110u8, 111u8, 103u8, 117u8, 105u8],
        ];
        assert(command@.map_values(|t: Vec<u8>| t@) =~= default_command());
        ServerManifest {
            name: String::new(),
            server_implementation: String::from_str(server_implementation),
            version: String::from_str(version),
            build: String::from_str(build),
            command,
            java_runtime,
            restart_on_failure: true,
            auto_start: true,
            auto_update: false,
            connection: Connection::Direct,
            extensions: Vec::new(),
        }
    }

    /// Where the manifest of `server_dir` is kept.
    pub fn manifest_path(server_dir: &str) -> (r: String)
        ensures
            r@ == path_join(server_dir@, "minecraftd.yaml"@),
    {
        join(server_dir, "minecraftd.yaml")
    }
}

impl JavaRuntime {
    /// The home directory of the runtime; a Mojang runtime lives under
    /// `<data>/minecraftd/runtimes/<name>`.
    pub fn java_home(&self, data_dir: &str) -> (r: String)
        ensures
            match self {
                JavaRuntime::Mojang { name } => r@ == path_join(path_join(path_join(data_dir@, "minecraftd"@), "runtimes"@), name@),
                JavaRuntime::Custom { java_home } => r@ == java_home@,
            },
    {
        match self {
            JavaRuntime::Mojang { name } => {
                let a = join(data_dir, "minecraftd");
                let b = join(a.as_str(), "runtimes");
                join(b.as_str(), name.as_str())
            },
            JavaRuntime::Custom { java_home } => java_home.clone(),
        }
    }

    /// The `java` executable of the runtime: `<home>/bin/java`.
    pub fn java_path(&self, data_dir: &str) -> (r: String)
        ensures
            ({
                let home = match self {
                    JavaRuntime::Mojang { name } => path_join(path_join(path_join(data_dir@, "minecraftd"@), "runtimes"@), name@),
                    JavaRuntime::Custom { java_home } => java_home@,
                };
                r@ == path_join(path_join(home, "bin"@), "java"@)
            }),
    {
        let home = self.java_home(data_dir);
        let bin = join(home.as_str(), "bin");
        join(bin.as_str(), "java")
    }
}

/// Where the server JAR of an implementation's version and build is cached:
/// `<data>/minecraftd/versions/<impl>/<version>/<build>/server.jar`.
pub fn server_jar_cache_path(data_dir: &str, implementation: &str, version: &str, build: &str) -> (r: String)
    ensures
        r@ == path_join(path_join(path_join(path_join(path_join(path_join(data_dir@, "minecraftd"@), "versions"@), implementation@), version@), build@), "server.jar"@),
{
    let a = join(data_dir, "minecraftd");
    let b = join(a.as_str(), "versions");
    let c = join(b.as_str(), implementation);
    let d = join(c.as_str(), version);
    let e = join(d.as_str(), build);
    join(e.as_str(), "server.jar")
}

} // verus!
