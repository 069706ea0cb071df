use minecraftd::config::{get_config, PortConfig};
use minecraftd::port::{init_port_pool, Port, PortError};
use minecraftd::properties::{PropertiesError, ServerProperties};
use minecraftd::registry::{RegistryError, RunningServers, ServerRecord};
use minecraftd::status::ServerStatus;

const SAMPLE: &str = "#Minecraft server properties\n#Mon Jan 01\nenable-rcon=false\nmotd=A Minecraft Server\nserver-port=25565\nlevel-seed=\nweird==x=y\n";

#[test]
fn properties_save_after_load_is_identical() {
    let p = ServerProperties::parse(SAMPLE).unwrap();
    assert_eq!(p.to_text(), SAMPLE);
    let empty = ServerProperties::parse("").unwrap();
    assert_eq!(empty.to_text(), "");
}

#[test]
fn properties_get_first_value() {
    let p = ServerProperties::parse("a=1\nb=2\na=3\n#a=4\n").unwrap();
    assert_eq!(p.get("a"), Some("1"));
    assert_eq!(p.get("b"), Some("2"));
    assert_eq!(p.get("#a"), None);
    assert_eq!(p.get("c"), None);
    let q = ServerProperties::parse(SAMPLE).unwrap();
    assert_eq!(q.get("level-seed"), Some(""));
    assert_eq!(q.get("weird"), Some("=x=y"));
    assert_eq!(q.get("motd"), Some("A Minecraft Server"));
}

#[test]
fn properties_set_overwrites_in_place_or_appends() {
    let mut p = ServerProperties::parse("a=1\n#c\nb=2\n").unwrap();
    p.set("a", "9");
    assert_eq!(p.get("a"), Some("9"));
    assert_eq!(p.to_text(), "a=9\n#c\nb=2\n");
    p.set("z", "last");
    assert_eq!(p.get("z"), Some("last"));
    assert_eq!(p.get("b"), Some("2"));
    assert_eq!(p.to_text(), "a=9\n#c\nb=2\nz=last\n");
    p.set("z", "again");
    assert_eq!(p.get("z"), Some("again"));
    assert_eq!(p.to_text(), "a=9\n#c\nb=2\nz=again\n");
}

#[test]
fn properties_reject_invalid_line() {
    match ServerProperties::parse("a=1\nnot a property\nb=2\n") {
        Err(PropertiesError::InvalidLine(l)) => assert_eq!(l, "not a property"),
        Ok(_) => panic!("accepted an invalid line"),
    }
    assert!(ServerProperties::parse("a=1\n\nb=2\n").is_err());
}

#[test]
fn properties_crlf_and_missing_final_newline() {
    let p = ServerProperties::parse("a=1\r\nb=2").unwrap();
    assert_eq!(p.get("a"), Some("1"));
    assert_eq!(p.get("b"), Some("2"));
    assert_eq!(p.to_text(), "a=1\nb=2\n");
}

#[test]
fn port_pool_hands_out_lowest_free_port() {
    let mut pool = init_port_pool(&PortConfig { min: 30001, max: 30003 });
    let a = Port::acquire(&mut pool).unwrap();
    let b = Port::acquire(&mut pool).unwrap();
    assert_eq!(a.port(), 30001);
    assert_eq!(b.port(), 30002);
    pool.release(a);
    assert!(!pool.is_used(30001));
    let c = Port::acquire(&mut pool).unwrap();
    assert_eq!(c.port(), 30001);
    let d = Port::acquire(&mut pool).unwrap();
    assert_eq!(d.port(), 30003);
}

#[test]
fn port_pool_exhausted_leaves_used_set_unchanged() {
    let mut pool = init_port_pool(&PortConfig { min: 65535, max: 65535 });
    let a = Port::acquire(&mut pool).unwrap();
    assert_eq!(a.port(), 65535);
    assert_eq!(Port::acquire(&mut pool).unwrap_err(), PortError::Exhausted);
    assert!(pool.is_used(65535));
    pool.release(a);
    assert_eq!(Port::acquire(&mut pool).unwrap().port(), 65535);
    let mut empty = init_port_pool(&PortConfig { min: 10, max: 9 });
    assert_eq!(Port::acquire(&mut empty).unwrap_err(), PortError::Exhausted);
    assert!(!empty.is_used(10));
}

#[test]
fn config_defaults() {
    let c = get_config(None, None, None);
    assert_eq!(c.port.min, 30001);
    assert_eq!(c.port.max, 30100);
    assert_eq!(c.proxy_server.bind_address, "0.0.0.0:25565");
    let c = get_config(Some(1), None, Some("127.0.0.1:1".to_string()));
    assert_eq!(c.port.min, 1);
    assert_eq!(c.port.max, 30100);
    assert_eq!(c.proxy_server.bind_address, "127.0.0.1:1");
    let d = PortConfig::default();
    assert_eq!((d.min, d.max), (30001, 30100));
}

fn record(id: u128, dir: &str, host: Option<&str>, port: u16) -> ServerRecord<()> {
    ServerRecord {
        id,
        server_dir: dir.to_string(),
        hostname: host.map(|h| h.to_string()),
        status: ServerStatus::Starting { restarting: false },
        server_port: port,
        data: (),
    }
}

#[test]
fn registry_indexes_follow_records() {
    let mut reg: RunningServers<()> = RunningServers::new();
    reg.insert(record(1, "/srv/a", Some("a.example"), 30001)).unwrap();
    reg.insert(record(2, "/srv/b", Some("b.example"), 30002)).unwrap();
    reg.insert(record(3, "/srv/c", None, 25565)).unwrap();
    assert_eq!(reg.len(), 3);
    assert_eq!(reg.get_id_by_hostname("a.example"), Some(1));
    assert_eq!(reg.get_id_by_hostname("b.example"), Some(2));
    assert_eq!(reg.get_id_by_hostname("c.example"), None);
    assert_eq!(reg.get_id_by_server_dir("/srv/c"), Some(3));
    assert_eq!(reg.ids(), vec![1, 2, 3]);

    let removed = reg.remove(1).unwrap();
    assert_eq!(removed.server_dir, "/srv/a");
    assert_eq!(reg.get_id_by_hostname("a.example"), None);
    assert_eq!(reg.get_id_by_server_dir("/srv/a"), None);
    assert!(!reg.contains(1));
    assert!(reg.remove(1).is_none());
    assert_eq!(reg.get_id_by_hostname("b.example"), Some(2));
    reg.insert(record(4, "/srv/a", Some("a.example"), 30001)).unwrap();
    assert_eq!(reg.get_id_by_hostname("a.example"), Some(4));
}

#[test]
fn registry_rejects_duplicates() {
    let mut reg: RunningServers<()> = RunningServers::new();
    reg.insert(record(1, "/srv/a", Some("a.example"), 30001)).unwrap();
    assert_eq!(reg.insert(record(2, "/srv/a", None, 1)), Err(RegistryError::AlreadyRunning));
    assert_eq!(reg.insert(record(1, "/srv/b", None, 1)), Err(RegistryError::DuplicateId));
    assert_eq!(reg.insert(record(2, "/srv/b", Some("a.example"), 1)), Err(RegistryError::HostnameTaken));
    assert_eq!(reg.len(), 1);
}

#[test]
fn registry_status_transitions() {
    let mut reg: RunningServers<()> = RunningServers::new();
    reg.insert(record(1, "/srv/a", Some("a.example"), 30001)).unwrap();
    assert_eq!(reg.route_target("a.example"), Some((ServerStatus::Starting { restarting: false }, 30001)));
    assert!(reg.set_ready(1));
    assert_eq!(reg.get(1).unwrap().status, ServerStatus::Ready);
    assert!(reg.set_stopping(1, true));
    assert_eq!(reg.get(1).unwrap().status, ServerStatus::Stopping { restarting: true });
    assert!(reg.set_ready(1));
    assert_eq!(reg.get(1).unwrap().status, ServerStatus::Stopping { restarting: true });
    assert!(reg.set_killed(1));
    assert_eq!(reg.get(1).unwrap().status, ServerStatus::Stopping { restarting: false });
    assert!(!reg.set_ready(9));
    assert_eq!(reg.route_target("b.example"), None);
}
