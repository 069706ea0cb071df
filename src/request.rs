//! Checking a decoded control request before it is dispatched: the payload
//! must be present, enumeration codes must be known, and server
//! directories must be absolute.
use crate::catalog::UpdateType;
use crate::manifest::ExtensionType;
use vstd::prelude::*;
use vstd::string::StrSliceExecFns;

verus! {

/// How a created server is reached.
#[derive(Debug, Clone, Copy, PartialEq, Eq, Structural)]
pub enum ConnectionType {
    Direct,
    Proxy,
}

/// A control request as decoded from the wire, enumerations still as codes.
#[derive(Debug)]
pub enum ControlRequest {
    GetServerImplementations,
    GetVersions { server_implementation: String },
    GetBuilds { server_implementation: String, version: String },
    CreateServer {
        name: String,
        server_dir: String,
        server_implementation: String,
        version: String,
        build: String,
        connection: i32,
        hostname: Option<String>,
    },
    StartServer { server_dir: String },
    StopServer { server_dir: String },
    KillServer { server_dir: String },
    AttachTerminal { server_dir: String },
    GetRunningServers,
    WaitServerReady { server_dir: String },
    RestartServer { server_dir: String },
    UpdateServer { server_dir: String, update_type: i32 },
    GetExtensionProviders,
    SearchExtension { provider: String, type_: i32, server_version: String, query: String, include_incompatible_versions: bool },
    GetExtensionVersions { provider: String, type_: i32, server_version: String, extension_id: String, include_incompatible_versions: bool },
    AddExtension { server_dir: String, provider: String, type_: i32, extension_id: String, extension_version_id: String, allow_incompatible_versions: bool },
    GetExtensionIdByUrl { url: String },
}

/// A checked request, ready for its handler.
#[derive(Debug)]
pub enum Command {
    GetServerImplementations,
    GetVersions { server_implementation: String },
    GetBuilds { server_implementation: String, version: String },
    CreateServer {
        name: String,
        server_dir: String,
        server_implementation: String,
        version: String,
        build: String,
        connection: ConnectionType,
        hostname: Option<String>,
    },
    StartServer { server_dir: String },
    StopServer { server_dir: String },
    KillServer { server_dir: String },
    AttachTerminal { server_dir: String },
    GetRunningServers,
    WaitServerReady { server_dir: String },
    RestartServer { server_dir: String },
    UpdateServer { server_dir: String, update_type: UpdateType },
    GetExtensionProviders,
    SearchExtension { provider: String, type_: ExtensionType, server_version: String, query: String, include_incompatible_versions: bool },
    GetExtensionVersions { provider: String, type_: ExtensionType, server_version: String, extension_id: String, include_incompatible_versions: bool },
    AddExtension { server_dir: String, provider: String, type_: ExtensionType, extension_id: String, extension_version_id: String, allow_incompatible_versions: bool },
    GetExtensionIdByUrl { url: String },
}

/// Why a request is answered with an error response before any handler runs.
#[derive(Debug, Clone, Copy, PartialEq, Eq, Structural)]
pub enum RequestError {
    NoPayload,
    RelativeServerDir,
    InvalidConnectionType,
    InvalidUpdateType,
    InvalidExtensionType,
}

/// The message of the error response for a refused request.
pub fn request_error_message(e: RequestError) -> (r: &'static str)
    ensures
        e == RequestError::NoPayload ==> r@ == "Received request with no payload"@,
{
    match e {
        RequestError::NoPayload => "Received request with no payload",
        RequestError::RelativeServerDir => "Server directory must be an absolute path",
        RequestError::InvalidConnectionType => "Invalid connection type",
        RequestError::InvalidUpdateType => "Invalid update type",
        RequestError::InvalidExtensionType => "Invalid extension type",
    }
}

/// A directory is absolute: it starts with `/`.
pub open spec fn absolute(d: String) -> bool {
    d@.len() > 0 && d@[0] == '/'
}

/// The connection type a code stands for.
pub open spec fn connection_of(c: i32) -> Option<ConnectionType> {
    if c == 0 { Some(ConnectionType::Direct) } else if c == 1 { Some(ConnectionType::Proxy) } else { None }
}

/// The update type a code stands for.
pub open spec fn update_type_of(c: i32) -> Option<UpdateType> {
    if c == 0 { Some(UpdateType::Stable) } else if c == 1 { Some(UpdateType::Latest) } else { None }
}

/// The extension type a code stands for.
pub open spec fn extension_type_of(c: i32) -> Option<ExtensionType> {
    if c == 0 { Some(ExtensionType::Mod) } else if c == 1 { Some(ExtensionType::Plugin) } else { None }
}

/// The outcome of checking a request whose payload is `p`: the server
/// directory is checked first, then the enumeration codes.
pub open spec fn checked(p: Option<ControlRequest>) -> Result<Command, RequestError> {
    match p {
        None => Err(RequestError::NoPayload),
        Some(req) => match req {
            ControlRequest::GetServerImplementations => Ok(Command::GetServerImplementations),
            ControlRequest::GetVersions { server_implementation } => Ok(Command::GetVersions { server_implementation }),
            ControlRequest::GetBuilds { server_implementation, version } => Ok(Command::GetBuilds { server_implementation, version }),
            ControlRequest::CreateServer { name, server_dir, server_implementation, version, build, connection, hostname } =>
                if !absolute(server_dir) {
                    Err(RequestError::RelativeServerDir)
                } else {
                    match connection_of(connection) {
                        Some(c) => Ok(Command::CreateServer { name, server_dir, server_implementation, version, build, connection: c, hostname }),
                        None => Err(RequestError::InvalidConnectionType),
                    }
                },
            ControlRequest::StartServer { server_dir } => if absolute(server_dir) { Ok(Command::StartServer { server_dir }) } else { Err(RequestError::RelativeServerDir) },
            ControlRequest::StopServer { server_dir } => if absolute(server_dir) { Ok(Command::StopServer { server_dir }) } else { Err(RequestError::RelativeServerDir) },
            ControlRequest::KillServer { server_dir } => if absolute(server_dir) { Ok(Command::KillServer { server_dir }) } else { Err(RequestError::RelativeServerDir) },
            ControlRequest::AttachTerminal { server_dir } => if absolute(server_dir) { Ok(Command::AttachTerminal { server_dir }) } else { Err(RequestError::RelativeServerDir) },
            ControlRequest::GetRunningServers => Ok(Command::GetRunningServers),
            ControlRequest::WaitServerReady { server_dir } => if absolute(server_dir) { Ok(Command::WaitServerReady { server_dir }) } else { Err(RequestError::RelativeServerDir) },
            ControlRequest::RestartServer { server_dir } => if absolute(server_dir) { Ok(Command::RestartServer { server_dir }) } else { Err(RequestError::RelativeServerDir) },
            ControlRequest::UpdateServer { server_dir, update_type } =>
                if !absolute(server_dir) {
                    Err(RequestError::RelativeServerDir)
                } else {
                    match update_type_of(update_type) {
                        Some(u) => Ok(Command::UpdateServer { server_dir, update_type: u }),
                        None => Err(RequestError::InvalidUpdateType),
                    }
                },
            ControlRequest::GetExtensionProviders => Ok(Command::GetExtensionProviders),
            ControlRequest::SearchExtension { provider, type_, server_version, query, include_incompatible_versions } =>
                match extension_type_of(type_) {
                    Some(t) => Ok(Command::SearchExtension { provider, type_: t, server_version, query, include_incompatible_versions }),
                    None => Err(RequestError::InvalidExtensionType),
                },
            ControlRequest::GetExtensionVersions { provider, type_, server_version, extension_id, include_incompatible_versions } =>
                match extension_type_of(type_) {
                    Some(t) => Ok(Command::GetExtensionVersions { provider, type_: t, server_version, extension_id, include_incompatible_versions }),
                    None => Err(RequestError::InvalidExtensionType),
                },
            ControlRequest::AddExtension { server_dir, provider, type_, extension_id, extension_version_id, allow_incompatible_versions } =>
                if !absolute(server_dir) {
                    Err(RequestError::RelativeServerDir)
                } else {
                    match extension_type_of(type_) {
                        Some(t) => Ok(Command::AddExtension { server_dir, provider, type_: t, extension_id, extension_version_id, allow_incompatible_versions }),
                        None => Err(RequestError::InvalidExtensionType),
                    }
                },
            ControlRequest::GetExtensionIdByUrl { url } => Ok(Command::GetExtensionIdByUrl { url }),
        },
    }
}

fn is_absolute(d: &String) -> (r: bool)
    ensures
        r == absolute(*d),
{
    let s = d.as_str();
    s.unicode_len() > 0 && s.get_char(0) == '/'
}

fn connection_code(c: i32) -> (r: Option<ConnectionType>)
    ensures
        r == connection_of(c),
{
    if c == 0 { Some(ConnectionType::Direct) } else if c == 1 { Some(ConnectionType::Proxy) } else { None }
}

fn update_type_code(c: i32) -> (r: Option<UpdateType>)
    ensures
        r == update_type_of(c),
{
    if c == 0 { Some(UpdateType::Stable) } else if c == 1 { Some(UpdateType::Latest) } else { None }
}

fn extension_type_code(c: i32) -> (r: Option<ExtensionType>)
    ensures
        r == extension_type_of(c),
{
    if c == 0 { Some(ExtensionType::Mod) } else if c == 1 { Some(ExtensionType::Plugin) } else { None }
}

/// Checks a request: an error exactly when the payload is missing, a
/// server directory is not absolute, or an enumeration code is unknown;
/// otherwise the typed command.
pub fn check_request(payload: Option<ControlRequest>) -> (r: Result<Command, RequestError>)
    ensures
        r == checked(payload),
{
    match payload {
        None => Err(RequestError::NoPayload),
        Some(req) => match req {
            ControlRequest::GetServerImplementations => Ok(Command::GetServerImplementations),
            ControlRequest::GetVersions { server_implementation } => Ok(Command::GetVersions { server_implementation }),
            ControlRequest::GetBuilds { server_implementation, version } => Ok(Command::GetBuilds { server_implementation, version }),
            ControlRequest::CreateServer { name, server_dir, server_implementation, version, build, connection, hostname } => {
                if !is_absolute(&server_dir) {
                    return Err(RequestError::RelativeServerDir);
                }
                match connection_code(connection) {
                    Some(c) => Ok(Command::CreateServer { name, server_dir, server_implementation, version, build, connection: c, hostname }),
                    None => Err(RequestError::InvalidConnectionType),
                }
            },
            ControlRequest::StartServer { server_dir } => if is_absolute(&server_dir) { Ok(Command::StartServer { server_dir }) } else { Err(RequestError::RelativeServerDir) },
            ControlRequest::StopServer { server_dir } => if is_absolute(&server_dir) { Ok(Command::StopServer { server_dir }) } else { Err(RequestError::RelativeServerDir) },
            ControlRequest::KillServer { server_dir } => if is_absolute(&server_dir) { Ok(Command::KillServer { server_dir }) } else { Err(RequestError::RelativeServerDir) },
            ControlRequest::AttachTerminal { server_dir } => if is_absolute(&server_dir) { Ok(Command::AttachTerminal { server_dir }) } else { Err(RequestError::RelativeServerDir) },
            ControlRequest::GetRunningServers => Ok(Command::GetRunningServers),
            ControlRequest::WaitServerReady { server_dir } => if is_absolute(&server_dir) { Ok(Command::WaitServerReady { server_dir }) } else { Err(RequestError::RelativeServerDir) },
            ControlRequest::RestartServer { server_dir } => if is_absolute(&server_dir) { Ok(Command::RestartServer { server_dir }) } else { Err(RequestError::RelativeServerDir) },
            ControlRequest::UpdateServer { server_dir, update_type } => {
                if !is_absolute(&server_dir) {
                    return Err(RequestError::RelativeServerDir);
                }
                match update_type_code(update_type) {
                    Some(u) => Ok(Command::UpdateServer { server_dir, update_type: u }),
                    None => Err(RequestError::InvalidUpdateType),
                }
            },
            ControlRequest::GetExtensionProviders => Ok(Command::GetExtensionProviders),
            ControlRequest::SearchExtension { provider, type_, server_version, query, include_incompatible_versions } =>
                match extension_type_code(type_) {
                    Some(t) => Ok(Command::SearchExtension { provider, type_: t, server_version, query, include_incompatible_versions }),
                    None => Err(RequestError::InvalidExtensionType),
                },
            ControlRequest::GetExtensionVersions { provider, type_, server_version, extension_id, include_incompatible_versions } =>
                match extension_type_code(type_) {
                    Some(t) => Ok(Command::GetExtensionVersions { provider, type_: t, server_version, extension_id, include_incompatible_versions }),
                    None => Err(RequestError::InvalidExtensionType),
                },
            ControlRequest::AddExtension { server_dir, provider, type_, extension_id, extension_version_id, allow_incompatible_versions } => {
                if !is_absolute(&server_dir) {
                    return Err(RequestError::RelativeServerDir);
                }
                match extension_type_code(type_) {
                    Some(t) => Ok(Command::AddExtension { server_dir, provider, type_: t, extension_id, extension_version_id, allow_incompatible_versions }),
                    None => Err(RequestError::InvalidExtensionType),
                }
            },
            ControlRequest::GetExtensionIdByUrl { url } => Ok(Command::GetExtensionIdByUrl { url }),
        },
    }
}

/// A request without payload is refused with the no-payload error, whose
/// reply is no terminal attachment, so the connection goes on reading
/// requests.
pub proof fn lemma_missing_payload_keeps_connection()
    ensures
        checked(None) == Err::<Command, RequestError>(RequestError::NoPayload),
        crate::control::step_after_reply(false) == crate::control::NextStep::AwaitRequest,
{
}

/// What a connection in terminal mode meets.
#[derive(Debug)]
pub enum TerminalEvent {
    /// The client sent input bytes.
    ClientInput(Vec<u8>),
    /// The client resized its terminal.
    ClientResize { cols: u16, rows: u16 },
    /// The server's terminal produced output.
    Output(Vec<u8>),
    /// Output was dropped because this subscriber fell behind.
    Lagged,
    /// The client closed its side.
    ClientClosed,
    /// The server's output ended.
    OutputClosed,
}

/// What the connection does about an event.
#[derive(Debug)]
pub enum TerminalAction {
    /// Write these inputs to the server's terminal, in order.
    WriteInput(Vec<crate::terminal::TerminalInput>),
    /// Resize the server's terminal.
    Resize { cols: u16, rows: u16 },
    /// Send this output to the client in a frame.
    SendOutput(Vec<u8>),
    /// Go on from the latest output.
    Continue,
    /// Leave terminal mode and close the connection.
    Close,
}

/// The action for one terminal-mode event: client input goes to the server
/// in chunks of at most 1024 bytes, a resize is passed on, output goes to
/// the client, a lag is skipped, and either side closing ends the mode.
pub fn terminal_step(event: TerminalEvent) -> (r: TerminalAction)
    ensures
        match event {
            TerminalEvent::ClientInput(data) => r matches TerminalAction::WriteInput(chunks) && chunks@.len() * 1024 >= data@.len()
                && (chunks@.len() > 0 ==> (chunks@.len() - 1) * 1024 < data@.len())
                && forall|i: int| 0 <= i < chunks@.len() ==> (#[trigger] chunks@[i] matches crate::terminal::TerminalInput::Input { content } && content@ == data@.subrange(i * 1024, if (i + 1) * 1024 < data@.len() { (i + 1) * 1024 } else { data@.len() as int })),
            TerminalEvent::ClientResize { cols, rows } => r == (TerminalAction::Resize { cols, rows }),
            TerminalEvent::Output(chunk) => r == TerminalAction::SendOutput(chunk),
            TerminalEvent::Lagged => r is Continue,
            TerminalEvent::ClientClosed | TerminalEvent::OutputClosed => r is Close,
        },
{
    match event {
        TerminalEvent::ClientInput(data) => TerminalAction::WriteInput(crate::terminal::chunk_input(data.as_slice())),
        TerminalEvent::ClientResize { cols, rows } => TerminalAction::Resize { cols, rows },
        TerminalEvent::Output(chunk) => TerminalAction::SendOutput(chunk),
        TerminalEvent::Lagged => TerminalAction::Continue,
        TerminalEvent::ClientClosed | TerminalEvent::OutputClosed => TerminalAction::Close,
    }
}

} // verus!
