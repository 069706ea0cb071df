//! Mojang's version catalog as the daemon reads it: the version list, the
//! per-version manifest with its downloads and Java requirement, and the
//! choices the vanilla implementation makes from them.
use crate::manifest::JavaRuntime;
use vstd::prelude::*;

verus! {

/// The newest release and snapshot ids.
#[derive(Debug, Clone)]
pub struct Latest {
    pub release: String,
    pub snapshot: String,
}

/// The kind of a listed version.
#[derive(Debug, Clone, Copy, PartialEq, Eq, Structural)]
pub enum VersionType {
    Release,
    Snapshot,
    OldBeta,
    OldAlpha,
}

/// Launch arguments of the game and the JVM.
#[derive(Debug, Clone)]
pub struct Arguments {
    pub game: Vec<Argument>,
    pub jvm: Vec<Argument>,
}

/// One launch argument, possibly under rules.
#[derive(Debug, Clone)]
pub enum Argument {
    ArgumentWithRules(ArgumentWithRules),
    String(String),
}

/// An argument that applies where its rules allow it.
#[derive(Debug, Clone)]
pub struct ArgumentWithRules {
    pub rules: Vec<Rule>,
    pub value: ArgumentWithRulesValue,
}

/// The value of a ruled argument.
#[derive(Debug, Clone)]
pub enum ArgumentWithRulesValue {
    String(String),
    MultipleString(Vec<String>),
}

/// A rule: allow or disallow, depending on features and the OS.
#[derive(Debug, Clone)]
pub struct Rule {
    pub action: RuleAction,
    pub features: Option<Vec<(Feature, bool)>>,
    pub os: Option<Os>,
}

/// A launcher feature a rule can test.
#[derive(Debug, Clone, Copy, PartialEq, Eq, Structural)]
pub enum Feature {
    IsDemoUser,
    HasCustomResolution,
    HasQuickPlaysSupport,
    IsQuickPlaySingleplayer,
    IsQuickPlayMultiplayer,
    IsQuickPlayRealms,
}

/// What a rule does when it matches.
#[derive(Debug, Clone, Copy, PartialEq, Eq, Structural)]
pub enum RuleAction {
    Allow,
    Disallow,
}

/// The OS a rule matches.
#[derive(Debug, Clone)]
pub struct Os {
    pub name: Option<String>,
    pub arch: Option<String>,
}

/// The asset index of a version.
#[derive(Debug, Clone)]
pub struct AssetIndex {
    pub id: String,
    pub sha1: String,
    pub size: u64,
    pub total_size: u64,
    pub url: String,
}

/// The downloads of a version.
#[derive(Debug, Clone)]
pub struct Downloads {
    pub client: Download,
    pub client_mappings: Option<Download>,
    pub server: Option<Download>,
    pub server_mappings: Option<Download>,
}

/// One download with its advertised digest and size.
#[derive(Debug, Clone)]
pub struct Download {
    pub sha1: String,
    pub size: u64,
    pub url: String,
}

/// The Java runtime a version asks for.
#[derive(Debug, Clone)]
pub struct JavaVersion {
    pub component: String,
    pub major_version: i32,
}

/// A library of the client.
#[derive(Debug, Clone)]
pub struct Library {
    pub downloads: Option<LibraryDownloads>,
    pub name: String,
    pub rules: Option<Vec<Rule>>,
    pub natives: Option<Vec<(String, String)>>,
}

/// The downloads of a library.
#[derive(Debug, Clone)]
pub struct LibraryDownloads {
    pub artifact: Option<LibraryArtifact>,
    pub classifiers: Option<Vec<(String, LibraryArtifact)>>,
}

/// One library file.
#[derive(Debug, Clone)]
pub struct LibraryArtifact {
    pub path: String,
    pub sha1: String,
    pub size: u64,
    pub url: String,
}

/// The client's logging setup.
#[derive(Debug, Clone)]
pub struct Logging {
    pub client: LoggingClient,
}

/// The client's logging argument and file.
#[derive(Debug, Clone)]
pub struct LoggingClient {
    pub argument: String,
    pub file: LoggingClientFile,
    pub type_: String,
}

/// The client's logging configuration file.
#[derive(Debug, Clone)]
pub struct LoggingClientFile {
    pub id: String,
    pub sha1: String,
    pub size: u64,
    pub url: String,
}

/// Whether a listed version counts as stable: releases do.
pub fn version_is_stable(t: VersionType) -> (r: bool)
    ensures
        r == (t == VersionType::Release),
{
    t == VersionType::Release
}

/// The runtime a vanilla server runs on: the Mojang runtime its manifest
/// names; `None` where the manifest names none.
pub fn vanilla_java_runtime(java_version: &Option<JavaVersion>) -> (r: Option<JavaRuntime>)
    ensures
        match java_version {
            Some(j) => r matches Some(JavaRuntime::Mojang { name }) && name@ == j.component@,
            None => r is None,
        },
{
    match java_version {
        Some(j) => Some(JavaRuntime::Mojang { name: j.component.clone() }),
        None => None,
    }
}

/// The server download of a vanilla version, where it has one.
pub fn server_download(downloads: &Downloads) -> (r: Option<&Download>)
    ensures
        match downloads.server {
            Some(d) => r == Some(&d),
            None => r is None,
        },
{
    match &downloads.server {
        Some(d) => Some(d),
        None => None,
    }
}

} // verus!
