use minecraftd::catalog::{
    get_extension_providers, get_server_implementations, is_newer_version_available, latest_version_build, update_result,
    update_wants_stable, Build, UpdateServerResult, UpdateType, Version, VersionBuilds,
};
use minecraftd::control::{encode_control_frame, frame_length, next_step, split_control_frame, NextStep};
use minecraftd::extensions::{classify_link, extension_cache_path, extension_link_name, plan_links, LinkClass, ManagedLink};
use minecraftd::integrity::{check_digest, verify_sha1, verify_sha256, IntegrityError};
use minecraftd::lifecycle::{logout_wait_step, restart_notice_command, should_launch, LogoutWait};
use minecraftd::manifest::{proxy_hostname, Connection, ExtensionEntry, ExtensionType, JavaRuntime, ServerManifest};
use minecraftd::paths::join;
use minecraftd::piston::{vanilla_java_runtime, version_is_stable, JavaVersion, VersionType};
use minecraftd::properties::ServerProperties;
use minecraftd::rcon::{
    after_failed_stop_request, auth_accepted, auth_packet, command_accepted, command_packet, stop_commands, RconError, RconPacket,
    StopRetry,
};
use minecraftd::runtime::{choose_download, file_mode, Download, Downloads, ProvisionError};
use minecraftd::status::{should_restart_after_exit, ServerStatus};
use minecraftd::supervisor::{
    command_substitute_placeholders, prepare_server_properties, prepare_server_properties_with_new_password, replace_bytes,
};
use minecraftd::terminal::{chunk_input, TerminalInput};
use minecraftd::text::Color;

#[test]
fn rcon_packets_encode_and_decode() {
    let p = auth_packet("pw");
    assert_eq!((p.id, p.type_), (1, 3));
    let bytes = p.encode();
    assert_eq!(bytes, vec![12, 0, 0, 0, 1, 0, 0, 0, 3, 0, 0, 0, b'p', b'w', 0, 0]);
    let (back, n) = RconPacket::decode(&bytes).unwrap();
    assert_eq!(n, 16);
    assert_eq!((back.id, back.type_, back.body), (1, 3, b"pw".to_vec()));
    let c = command_packet("stop");
    assert_eq!((c.id, c.type_, c.body.clone()), (2, 2, b"stop".to_vec()));
    assert_eq!(RconPacket::decode(&bytes[..10]).unwrap_err(), RconError::Incomplete);
    assert_eq!(RconPacket::decode(&bytes[..15]).unwrap_err(), RconError::Incomplete);
    let mut bad = bytes.clone();
    bad[15] = 1;
    assert_eq!(RconPacket::decode(&bad).unwrap_err(), RconError::InvalidTermination);
    let short = [9, 0, 0, 0, 1, 0, 0, 0, 2, 0, 0, 0, 0];
    assert_eq!(RconPacket::decode(&short).unwrap_err(), RconError::InvalidLength);
}

#[test]
fn rcon_auth_and_command_checks() {
    let ok = RconPacket { id: 1, type_: 2, body: vec![] };
    let denied = RconPacket { id: -1, type_: 2, body: vec![] };
    let wrong = RconPacket { id: 1, type_: 0, body: vec![] };
    assert!(auth_accepted(&ok));
    assert!(!auth_accepted(&denied));
    assert!(!auth_accepted(&wrong));
    assert!(command_accepted(&wrong));
    assert!(!command_accepted(&ok));
}

#[test]
fn stop_request_retry_policy() {
    for r in 0..5 {
        assert_eq!(after_failed_stop_request(r), StopRetry::RetryAfter(10));
    }
    assert_eq!(after_failed_stop_request(5), StopRetry::Kill);
    assert_eq!(stop_commands(false), vec!["stop".to_string()]);
    let restart = stop_commands(true);
    assert_eq!(restart.len(), 2);
    assert!(restart[0].starts_with("kick @a The server is restarting"));
    assert_eq!(restart[1], "stop");
}

#[test]
fn placeholders_are_substituted_per_token() {
    let cmd = vec![b"${java}".to_vec(), b"-jar".to_vec(), b"${server_jar}".to_vec(), b"x${java}y${java}".to_vec()];
    let out = command_substitute_placeholders(&cmd, b"/opt/my java/bin/java", b"/c/server.jar");
    assert_eq!(out[0], b"/opt/my java/bin/java".to_vec());
    assert_eq!(out[1], b"-jar".to_vec());
    assert_eq!(out[2], b"/c/server.jar".to_vec());
    assert_eq!(out[3], b"x/opt/my java/bin/javay/opt/my java/bin/java".to_vec());
    assert_eq!(replace_bytes(b"aaa", b"aa", b"b"), b"ba".to_vec());
    assert_eq!(replace_bytes(b"abc", b"", b"x"), b"abc".to_vec());
    assert_eq!(replace_bytes(&[0xff, 1, 0xff], &[0xff], &[2]), vec![2, 1, 2]);
}

#[test]
fn properties_prepared_for_proxy_mode() {
    let mut p = ServerProperties::parse("server-port=25565\nenable-rcon=false\n").unwrap();
    let (port, pw) = prepare_server_properties(&mut p, Some(30001), 30002, "freshpassword123");
    assert_eq!(port, 30001);
    assert_eq!(pw, "freshpassword123");
    assert_eq!(p.to_text(), "server-port=30001\nenable-rcon=true\nrcon.port=30002\nrcon.password=freshpassword123\n");
}

#[test]
fn properties_prepared_for_direct_mode() {
    let mut p = ServerProperties::parse("server-port=25570\nrcon.password=keep\n").unwrap();
    let (port, pw) = prepare_server_properties(&mut p, None, 30002, "unused");
    assert_eq!(port, 25570);
    assert_eq!(pw, "keep");
    assert_eq!(p.to_text(), "server-port=25570\nrcon.password=keep\nenable-rcon=true\nrcon.port=30002\n");
    let mut q = ServerProperties::new();
    let (port, _) = prepare_server_properties(&mut q, None, 1, "x");
    assert_eq!(port, 25565);
    let mut r = ServerProperties::parse("server-port=notaport\nrcon.password=\n").unwrap();
    let (port, pw) = prepare_server_properties(&mut r, None, 1, "new");
    assert_eq!(port, 25565);
    assert_eq!(pw, "new");
    assert_eq!(r.get("rcon.password"), Some("new"));
    let mut s = ServerProperties::parse("server-port=+80\n").unwrap();
    assert_eq!(prepare_server_properties(&mut s, None, 1, "x").0, 80);
}

#[test]
fn generated_password_is_sixteen_alphanumerics() {
    let mut p = ServerProperties::new();
    let (_, pw) = prepare_server_properties_with_new_password(&mut p, None, 30002);
    assert_eq!(pw.len(), 16);
    assert!(pw.chars().all(|c| c.is_ascii_alphanumeric()));
    assert_eq!(p.get("rcon.password"), Some(pw.as_str()));
}

fn vb(name: &str, stable: bool, builds: &[(&str, bool)]) -> VersionBuilds {
    VersionBuilds {
        version: Version { name: name.to_string(), is_stable: stable },
        builds: builds.iter().map(|(n, s)| Build { name: n.to_string(), is_stable: *s }).collect(),
    }
}

#[test]
fn latest_version_build_choice() {
    let cat = vec![vb("1.21-pre", false, &[("5", false)]), vb("1.20.2", true, &[("10", false), ("9", true)]), vb("1.20.1", true, &[("3", true)])];
    assert_eq!(latest_version_build(&cat, false), Some((0, 0)));
    assert_eq!(latest_version_build(&cat, true), Some((1, 1)));
    let none = vec![vb("x", false, &[("1", true)])];
    assert_eq!(latest_version_build(&none, true), None);
    assert_eq!(latest_version_build(&vec![], false), None);
}

#[test]
fn newer_version_detection() {
    let cat = vec![vb("1.21-pre", false, &[("5", false)]), vb("1.20.2", true, &[("10", false), ("9", true)]), vb("1.20.1", true, &[("3", true)])];
    assert_eq!(is_newer_version_available(&cat, "1.20.1", "3", true), Some((1, 1)));
    assert_eq!(is_newer_version_available(&cat, "1.20.1", "3", false), Some((0, 0)));
    assert_eq!(is_newer_version_available(&cat, "1.20.2", "9", true), None);
    assert_eq!(is_newer_version_available(&cat, "1.21-pre", "5", true), None);
    assert_eq!(is_newer_version_available(&cat, "0.1", "1", true), Some((1, 1)));
    let only_unstable = vec![vb("2", false, &[("1", false)])];
    assert_eq!(is_newer_version_available(&only_unstable, "1", "1", true), None);
}

#[test]
fn update_results() {
    assert!(matches!(update_result("1", "2", "1", "2"), UpdateServerResult::NoUpdateNeeded));
    match update_result("1", "2", "1", "3") {
        UpdateServerResult::Updated { old_version, old_build, new_version, new_build } => {
            assert_eq!((old_version.as_str(), old_build.as_str(), new_version.as_str(), new_build.as_str()), ("1", "2", "1", "3"))
        }
        _ => panic!("expected an update"),
    }
    assert!(update_wants_stable(UpdateType::Stable));
    assert!(!update_wants_stable(UpdateType::Latest));
    assert_eq!(get_server_implementations(), vec!["vanilla".to_string(), "paper".to_string()]);
    assert_eq!(get_extension_providers(), vec!["modrinth".to_string()]);
}

fn entry(t: ExtensionType, id: &str, v: &str) -> ExtensionEntry {
    ExtensionEntry { name: "N".to_string(), type_: t, provider: "modrinth".to_string(), id: id.to_string(), version_id: v.to_string(), auto_update: false }
}

#[test]
fn extension_paths_and_links() {
    assert_eq!(
        extension_cache_path("/data", "modrinth", ExtensionType::Plugin, "abc", "v1"),
        "/data/minecraftd/extensions/modrinth/plugins/abc/v1/extension.jar"
    );
    assert_eq!(extension_link_name(&entry(ExtensionType::Mod, "abc", "v1")), "N-modrinth-abc-v1.jar");
    let comps = |v: &[&str]| v.iter().map(|s| s.to_string()).collect::<Vec<_>>();
    match classify_link(&comps(&["modrinth", "mods", "abc", "v1", "extension.jar"]), ExtensionType::Mod) {
        LinkClass::Managed(m) => assert_eq!((m.provider.as_str(), m.id.as_str(), m.version_id.as_str()), ("modrinth", "abc", "v1")),
        other => panic!("unexpected {:?}", other),
    }
    assert!(matches!(classify_link(&comps(&["modrinth", "mods", "abc", "v1", "extension.jar"]), ExtensionType::Plugin), LinkClass::Misplaced));
    assert!(matches!(classify_link(&comps(&["modrinth", "mods", "abc", "v1", "other.jar"]), ExtensionType::Mod), LinkClass::Unmanaged));
    assert!(matches!(classify_link(&comps(&["modrinth", "mods", "abc"]), ExtensionType::Mod), LinkClass::Unmanaged));
    assert!(matches!(classify_link(&comps(&["modrinth", "other", "abc", "v1", "extension.jar"]), ExtensionType::Mod), LinkClass::Unmanaged));
}

#[test]
fn extension_link_plan() {
    let links = vec![
        ManagedLink { type_: ExtensionType::Mod, provider: "modrinth".to_string(), id: "a".to_string(), version_id: "1".to_string() },
        ManagedLink { type_: ExtensionType::Mod, provider: "modrinth".to_string(), id: "b".to_string(), version_id: "1".to_string() },
    ];
    let entries = vec![entry(ExtensionType::Mod, "a", "1"), entry(ExtensionType::Mod, "b", "2"), entry(ExtensionType::Plugin, "a", "1")];
    let (remove, create) = plan_links(&links, &entries);
    assert_eq!(remove, vec![false, true]);
    assert_eq!(create, vec![false, true, true]);
}

#[test]
fn control_frames_and_dispatch() {
    let f = encode_control_frame(b"abc");
    assert_eq!(f, vec![0, 0, 0, 3, b'a', b'b', b'c']);
    assert_eq!(frame_length(&f), 3);
    assert_eq!(frame_length(&[1, 2, 3, 4]), 0x01020304);
    let mut two = f.clone();
    two.extend_from_slice(&[0, 0, 0, 0]);
    assert_eq!(split_control_frame(&two), Some((b"abc".to_vec(), 7)));
    assert_eq!(split_control_frame(&two[7..]), Some((vec![], 4)));
    assert_eq!(split_control_frame(&f[..6]), None);
    assert_eq!(split_control_frame(&[0, 0]), None);
    assert_eq!(next_step(false), NextStep::AwaitRequest);
    assert_eq!(next_step(true), NextStep::TerminalMode);
}

#[test]
fn download_integrity() {
    let abc_sha1 = "a9993e364706816aba3e25717850c26c9cd0d89d";
    assert_eq!(verify_sha1(b"abc", 3, abc_sha1), Ok(()));
    assert_eq!(verify_sha1(b"abc", 3, &abc_sha1.to_uppercase()), Ok(()));
    assert_eq!(verify_sha1(b"abc", 4, abc_sha1), Err(IntegrityError::SizeMismatch));
    assert_eq!(verify_sha1(b"abd", 3, abc_sha1), Err(IntegrityError::HashMismatch));
    assert_eq!(verify_sha1(b"abc", 3, "xyz"), Err(IntegrityError::InvalidDigest));
    let abc_sha256 = "ba7816bf8f01cfea414140de5dae2223b00361a396177a9cb410ff61f20015ad";
    assert_eq!(verify_sha256(b"abc", abc_sha256), Ok(()));
    assert_eq!(verify_sha256(b"abd", abc_sha256), Err(IntegrityError::HashMismatch));
    assert_eq!(check_digest(vec![0xab], "ab"), Ok(()));
    assert_eq!(check_digest(vec![0xab], "abab"), Err(IntegrityError::HashMismatch));
}

#[test]
fn runtime_download_choice() {
    let d = |s: &str| Download { sha1: s.to_string(), size: 1, url: "u".to_string() };
    let both = Downloads { lzma: Some(d("l")), raw: Some(d("r")) };
    let (compressed, chosen) = choose_download(&both).unwrap();
    assert!(compressed);
    assert_eq!(chosen.sha1, "l");
    let raw = Downloads { lzma: None, raw: Some(d("r")) };
    assert_eq!(choose_download(&raw).unwrap().1.sha1, "r");
    assert!(matches!(choose_download(&Downloads { lzma: None, raw: None }), Err(ProvisionError::Unavailable)));
    assert_eq!(file_mode(true), Some(0o755));
    assert_eq!(file_mode(false), None);
}

#[test]
fn terminal_input_chunks() {
    let data = vec![7u8; 2500];
    let chunks = chunk_input(&data);
    assert_eq!(chunks.len(), 3);
    let lens: Vec<usize> = chunks
        .iter()
        .map(|c| match c {
            TerminalInput::Input { content } => content.len(),
            TerminalInput::Resize { .. } => 0,
        })
        .collect();
    assert_eq!(lens, vec![1024, 1024, 452]);
    assert!(chunk_input(&[]).is_empty());
    assert_eq!(chunk_input(&[1u8; 1024]).len(), 1);
}

#[test]
fn lifecycle_decisions() {
    assert!(should_restart_after_exit(false, true, ServerStatus::Ready));
    assert!(!should_restart_after_exit(false, true, ServerStatus::Starting { restarting: false }));
    assert!(!should_restart_after_exit(true, true, ServerStatus::Ready));
    assert!(!should_restart_after_exit(false, false, ServerStatus::Ready));
    assert!(should_launch(true, true));
    assert!(should_launch(false, false));
    assert!(!should_launch(false, true));
    assert_eq!(logout_wait_step(true, Some(0), 0), LogoutWait::RestartNow);
    assert_eq!(logout_wait_step(true, Some(2), 0), LogoutWait::PollAfter(60));
    assert_eq!(logout_wait_step(true, None, 3599), LogoutWait::PollAfter(60));
    assert_eq!(logout_wait_step(true, Some(2), 3600), LogoutWait::NotifyThenRestart);
    assert_eq!(logout_wait_step(false, Some(0), 0), LogoutWait::Abort);
    assert_eq!(
        restart_notice_command(),
        "tellraw @a {\"text\":\"\",\"extra\":[{\"text\":\"=== SERVER RESTART ===\",\"color\":\"red\"},\"\\nServer will restart in 1 minute(s) to apply updates.\\nPlease log out to avoid interruption.\"]}"
    );
}

#[test]
fn manifest_defaults_and_paths() {
    let m = ServerManifest::default("vanilla", "1.20.1", "1.20.1", JavaRuntime::Mojang { name: "java-runtime-gamma".to_string() });
    assert_eq!(m.name, "");
    assert_eq!(m.command, vec![b"${java}".to_vec(), b"-Xmx4G".to_vec(), b"-jar".to_vec(), b"${server_jar}".to_vec(), b"nogui".to_vec()]);
    assert!(m.restart_on_failure && m.auto_start && !m.auto_update);
    assert!(matches!(m.connection, Connection::Direct));
    assert_eq!(ServerManifest::manifest_path("/srv/a"), "/srv/a/minecraftd.yaml");
    assert_eq!(ServerManifest::manifest_path("/srv/a/"), "/srv/a/minecraftd.yaml");
    assert_eq!(m.java_runtime.java_path("/data"), "/data/minecraftd/runtimes/java-runtime-gamma/bin/java");
    assert_eq!(JavaRuntime::Custom { java_home: "/usr/lib/jvm".to_string() }.java_path("/data"), "/usr/lib/jvm/bin/java");
    assert_eq!(join("", "x"), "x");
    assert_eq!(proxy_hostname(&Connection::Proxy { hostname: "a.example".to_string() }), Some("a.example".to_string()));
    assert_eq!(proxy_hostname(&Connection::Direct), None);
}

#[test]
fn colors_and_versions() {
    assert_eq!(Color::Red.to_rgb(), 0xFF5555);
    assert_eq!(Color::Gold.to_rgb(), 0xFFAA00);
    assert_eq!(Color::Hex(0x123456).to_rgb(), 0x123456);
    assert!(version_is_stable(VersionType::Release));
    assert!(!version_is_stable(VersionType::Snapshot));
    match vanilla_java_runtime(&Some(JavaVersion { component: "java-runtime-delta".to_string(), major_version: 21 })) {
        Some(JavaRuntime::Mojang { name }) => assert_eq!(name, "java-runtime-delta"),
        other => panic!("unexpected {:?}", other),
    }
    assert!(vanilla_java_runtime(&None).is_none());
}
