use minecraftd::catalog::{update_target, Build, UpdateType, Version, VersionBuilds};
use minecraftd::extensions::{add_extension_step, add_needed, ExntensionDependency, ExtensionVersionInfo, PendingExtension};
use minecraftd::manifest::{ExtensionEntry, ExtensionType};
use minecraftd::properties::ServerProperties;
use minecraftd::request::{check_request, request_error_message, terminal_step, Command, ConnectionType, ControlRequest, RequestError, TerminalAction, TerminalEvent};
use minecraftd::runtime::{install_plan, Download, Downloads, File, InstallStep, StepKind};

#[test]
fn request_checks() {
    assert!(matches!(check_request(None), Err(RequestError::NoPayload)));
    assert_eq!(request_error_message(RequestError::NoPayload), "Received request with no payload");
    assert!(matches!(
        check_request(Some(ControlRequest::StartServer { server_dir: "srv".to_string() })),
        Err(RequestError::RelativeServerDir)
    ));
    match check_request(Some(ControlRequest::StartServer { server_dir: "/srv".to_string() })) {
        Ok(Command::StartServer { server_dir }) => assert_eq!(server_dir, "/srv"),
        other => panic!("unexpected {:?}", other),
    }
    let create = |connection: i32, dir: &str| ControlRequest::CreateServer {
        name: "T".to_string(),
        server_dir: dir.to_string(),
        server_implementation: "vanilla".to_string(),
        version: "1.20.1".to_string(),
        build: "1.20.1".to_string(),
        connection,
        hostname: None,
    };
    assert!(matches!(check_request(Some(create(7, "/srv"))), Err(RequestError::InvalidConnectionType)));
    assert!(matches!(check_request(Some(create(7, "srv"))), Err(RequestError::RelativeServerDir)));
    assert!(matches!(
        check_request(Some(create(1, "/srv"))),
        Ok(Command::CreateServer { connection: ConnectionType::Proxy, .. })
    ));
    assert!(matches!(
        check_request(Some(ControlRequest::UpdateServer { server_dir: "/s".to_string(), update_type: 1 })),
        Ok(Command::UpdateServer { update_type: UpdateType::Latest, .. })
    ));
    assert!(matches!(
        check_request(Some(ControlRequest::UpdateServer { server_dir: "/s".to_string(), update_type: 2 })),
        Err(RequestError::InvalidUpdateType)
    ));
    assert!(matches!(
        check_request(Some(ControlRequest::GetExtensionIdByUrl { url: "u".to_string() })),
        Ok(Command::GetExtensionIdByUrl { .. })
    ));
    assert!(matches!(
        check_request(Some(ControlRequest::SearchExtension {
            provider: "modrinth".to_string(),
            type_: 5,
            server_version: "1".to_string(),
            query: "q".to_string(),
            include_incompatible_versions: false
        })),
        Err(RequestError::InvalidExtensionType)
    ));
}

#[test]
fn terminal_steps() {
    match terminal_step(TerminalEvent::ClientInput(vec![1u8; 1500])) {
        TerminalAction::WriteInput(chunks) => assert_eq!(chunks.len(), 2),
        other => panic!("unexpected {:?}", other),
    }
    assert!(matches!(terminal_step(TerminalEvent::ClientResize { cols: 80, rows: 24 }), TerminalAction::Resize { cols: 80, rows: 24 }));
    match terminal_step(TerminalEvent::Output(vec![9])) {
        TerminalAction::SendOutput(v) => assert_eq!(v, vec![9]),
        other => panic!("unexpected {:?}", other),
    }
    assert!(matches!(terminal_step(TerminalEvent::Lagged), TerminalAction::Continue));
    assert!(matches!(terminal_step(TerminalEvent::ClientClosed), TerminalAction::Close));
    assert!(matches!(terminal_step(TerminalEvent::OutputClosed), TerminalAction::Close));
}

fn vb(name: &str, stable: bool, builds: &[(&str, bool)]) -> VersionBuilds {
    VersionBuilds {
        version: Version { name: name.to_string(), is_stable: stable },
        builds: builds.iter().map(|(n, s)| Build { name: n.to_string(), is_stable: *s }).collect(),
    }
}

#[test]
fn update_targets() {
    let cat = vec![vb("1.21-pre", false, &[("5", false)]), vb("1.20.2", true, &[("10", false), ("9", true)]), vb("1.20.1", true, &[("3", true)])];
    assert_eq!(update_target(false, &cat, "1.20.1", "3"), None);
    assert_eq!(update_target(true, &cat, "1.20.1", "3"), Some((1, 1)));
    assert_eq!(update_target(true, &cat, "1.20.2", "9"), None);
}

fn entry(id: &str, v: &str) -> ExtensionEntry {
    ExtensionEntry { name: id.to_string(), type_: ExtensionType::Mod, provider: "modrinth".to_string(), id: id.to_string(), version_id: v.to_string(), auto_update: false }
}

#[test]
fn add_extension_steps() {
    let mut entries = vec![entry("a", "1"), entry("b", "1")];
    let pending = PendingExtension { id: "a".to_string(), version_id: Some("1".to_string()) };
    assert!(!add_needed(&entries, "modrinth", &pending));
    let pending = PendingExtension { id: "a".to_string(), version_id: Some("2".to_string()) };
    assert!(add_needed(&entries, "modrinth", &pending));
    let mut queue = Vec::new();
    let version = ExtensionVersionInfo {
        id: "2".to_string(),
        version: "2.0".to_string(),
        is_stable: true,
        dependencies: vec![
            ExntensionDependency { extension_id: "c".to_string(), extension_version_id: None },
            ExntensionDependency { extension_id: "d".to_string(), extension_version_id: Some("7".to_string()) },
        ],
    };
    add_extension_step(&mut entries, &mut queue, "modrinth", ExtensionType::Mod, "a", "A", &version);
    let keys: Vec<(&str, &str)> = entries.iter().map(|e| (e.id.as_str(), e.version_id.as_str())).collect();
    assert_eq!(keys, vec![("b", "1"), ("a", "2")]);
    assert_eq!(entries[1].name, "A");
    assert_eq!(queue.len(), 2);
    assert_eq!(queue[0].id, "c");
    assert_eq!(queue[0].version_id, None);
    assert_eq!(queue[1].version_id, Some("7".to_string()));
}

#[test]
fn install_plan_orders_entries() {
    let d = |s: &str| Download { sha1: s.to_string(), size: 1, url: "u".to_string() };
    let entries = vec![
        ("bin/java".to_string(), File::File { downloads: Downloads { lzma: Some(d("l")), raw: Some(d("r")) }, executable: true }),
        ("bin".to_string(), File::Directory),
        ("lib/link".to_string(), File::Link { target: "x".to_string() }),
        ("a.txt".to_string(), File::File { downloads: Downloads { lzma: None, raw: Some(d("r")) }, executable: false }),
        ("lib".to_string(), File::Directory),
        ("bin/none".to_string(), File::File { downloads: Downloads { lzma: None, raw: None }, executable: false }),
        ("a-link".to_string(), File::Link { target: "a.txt".to_string() }),
    ];
    let plan = install_plan(&entries);
    assert_eq!(
        plan,
        vec![
            InstallStep { index: 3, kind: StepKind::WriteFile { compressed: false, mode: None } },
            InstallStep { index: 1, kind: StepKind::CreateDir },
            InstallStep { index: 0, kind: StepKind::WriteFile { compressed: true, mode: Some(0o755) } },
            InstallStep { index: 5, kind: StepKind::Unavailable },
            InstallStep { index: 4, kind: StepKind::CreateDir },
            InstallStep { index: 6, kind: StepKind::CreateLink },
            InstallStep { index: 2, kind: StepKind::CreateLink },
        ]
    );
}

#[test]
fn get_after_several_later_sets() {
    let mut p = ServerProperties::parse("a=1\n").unwrap();
    p.set("k", "v");
    p.set("x", "1");
    p.set("a", "2");
    p.set("y", "3");
    assert_eq!(p.get("k"), Some("v"));
    p.set("k", "w");
    assert_eq!(p.get("k"), Some("w"));
}

#[test]
fn json_strings_match_serde_json() {
    for s in ["", "plain", "quote\" and \\ backslash", "tab\tnl\ncr\r", "\u{1}\u{8}\u{c}\u{1f}\u{7f}", "héllo ✓ 🎮"] {
        assert_eq!(minecraftd::proxy::json_string(s), serde_json::to_string(s).unwrap());
    }
}

#[test]
fn decimal_text_matches_std() {
    for n in [0u16, 7, 10, 255, 25565, 65535] {
        assert_eq!(minecraftd::supervisor::u16_to_string(n), n.to_string());
    }
    for s in ["0", "+80", "0080", "65535", "65536", "", "+", "-1", "1a", "99999999999", "++1", " 1"] {
        assert_eq!(minecraftd::supervisor::parse_u16(s), s.parse::<u16>().ok(), "input {s:?}");
    }
}
