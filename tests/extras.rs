use minecraftd::autostart::AutoStartSet;
use minecraftd::extensions::{is_already_added, pick_version, remove_extension_entries, ExtensionVersionInfo};
use minecraftd::info::{players_info, PlayersInfo};
use minecraftd::manifest::{ExtensionEntry, ExtensionType};
use minecraftd::paths::{auto_start_path, lock_path, socket_path};
use minecraftd::status::ServerStatus;
use minecraftd::text::{Color, TextComponent};

#[test]
fn auto_start_set_reports_changes() {
    let mut set = AutoStartSet::new();
    assert!(set.insert("/srv/a".to_string()));
    assert!(!set.insert("/srv/a".to_string()));
    assert!(set.insert("/srv/b".to_string()));
    assert!(set.contains(&"/srv/a".to_string()));
    assert_eq!(set.directories(), vec!["/srv/a".to_string(), "/srv/b".to_string()]);
    assert!(set.remove(&"/srv/a".to_string()));
    assert!(!set.remove(&"/srv/a".to_string()));
    assert_eq!(set.directories(), vec!["/srv/b".to_string()]);
}

#[test]
fn runtime_paths() {
    assert_eq!(socket_path("/run/user/1000"), "/run/user/1000/minecraftd.sock");
    assert_eq!(lock_path("/run/user/1000/"), "/run/user/1000/minecraftd.lock");
    assert_eq!(auto_start_path("/home/u/.local/share"), "/home/u/.local/share/minecraftd/auto_start.json");
}

#[test]
fn player_counts_only_for_ready_servers() {
    assert_eq!(players_info(ServerStatus::Ready, Some((2, 20))), Some(PlayersInfo { online: 2, max: 20 }));
    assert_eq!(players_info(ServerStatus::Ready, None), None);
    assert_eq!(players_info(ServerStatus::Starting { restarting: false }, Some((2, 20))), None);
}

fn entry(id: &str, v: &str) -> ExtensionEntry {
    ExtensionEntry { name: id.to_string(), type_: ExtensionType::Mod, provider: "modrinth".to_string(), id: id.to_string(), version_id: v.to_string(), auto_update: false }
}

#[test]
fn extension_entries_edit() {
    let mut entries = vec![entry("a", "1"), entry("b", "1"), entry("a", "2"), entry("c", "3")];
    assert!(is_already_added(&entries, "modrinth", "a", Some("2")));
    assert!(is_already_added(&entries, "modrinth", "a", None));
    assert!(!is_already_added(&entries, "modrinth", "a", Some("3")));
    assert!(!is_already_added(&entries, "other", "a", None));
    remove_extension_entries(&mut entries, "modrinth", "a");
    let ids: Vec<&str> = entries.iter().map(|e| e.id.as_str()).collect();
    assert_eq!(ids, vec!["b", "c"]);
}

fn version(id: &str, stable: bool) -> ExtensionVersionInfo {
    ExtensionVersionInfo { id: id.to_string(), version: id.to_string(), is_stable: stable, dependencies: vec![] }
}

#[test]
fn extension_version_pick() {
    assert_eq!(pick_version(&vec![]), None);
    assert_eq!(pick_version(&vec![version("3", false), version("2", true), version("1", true)]), Some(1));
    assert_eq!(pick_version(&vec![version("3", false), version("2", false)]), Some(0));
}

fn object(text: &str, color: Option<minecraftd::text::Color>, extra: Vec<minecraftd::text::TextComponent>) -> minecraftd::text::TextComponent {
    minecraftd::text::TextComponent::Object(minecraftd::text::Object {
        text: Some(text.to_string()),
        color,
        font: None,
        bold: None,
        italic: None,
        underlined: None,
        strikethrough: None,
        obfuscated: None,
        extra: Some(extra),
    })
}

#[test]
fn text_component_plain_and_formatted() {
    let c = object("a", None, vec![TextComponent::String("b".to_string()), object("c", None, vec![])]);
    assert_eq!(c.print(), "abc");
    let legacy = TextComponent::String("§cHi §lthere".to_string());
    assert_eq!(legacy.print(), "§cHi §lthere");
    assert_eq!(
        legacy.print_formatted(),
        "\x1b[38;2;255;85;85mHi \x1b[0m\x1b[38;2;255;85;85m\x1b[1mthere\x1b[0m"
    );
    let styled = object("x", Some(Color::Red), vec![TextComponent::String("y§r!".to_string())]);
    assert_eq!(
        styled.print_formatted(),
        "\x1b[38;2;255;85;85mx\x1b[0m\x1b[38;2;255;85;85my\x1b[0m!\x1b[0m"
    );
    assert_eq!(TextComponent::String("plain".to_string()).print_formatted(), "plain\x1b[0m");
    assert_eq!(TextComponent::String("end§".to_string()).print_formatted(), "end\x1b[0m");
}
