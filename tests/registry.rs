use site_registry::address::Address;
use site_registry::auth::{bind_reply, serve_auth_wrapper_key, AuthOutcome};
use site_registry::error::Error;
use site_registry::registry::{BootEntry, Schema, Site, SiteStorage, SitesController};
use site_registry::table::Table;

fn storage(w: &str, a: &str) -> SiteStorage {
    SiteStorage { wrapper_key: w.to_string(), ajax_key: a.to_string() }
}

fn registry_with(snapshot: Vec<(&str, SiteStorage)>, now: u64) -> SitesController {
    let mut t = Table::new();
    for (k, v) in snapshot {
        t.insert(k.to_string(), v);
    }
    SitesController::new("/data".to_string(), t, now)
}

fn addr(s: &str) -> Address {
    Address::parse(s).unwrap()
}

fn schema() -> Schema {
    Schema { db_name: "db".to_string(), db_file: "data/db.db".to_string() }
}

#[test]
fn activation_twice_yields_one_handle() {
    let mut reg = registry_with(vec![], 10);
    let a = addr("1Address111");
    let first = reg.get(&a, true, true, Some(schema()), 20).unwrap();
    let site = first.started.as_ref().unwrap();
    assert_eq!(site.root, "/data/1Address111");
    assert!(first.open_db);
    assert_eq!(reg.sites_changed, 20);
    let second = reg.get(&a, true, true, Some(schema()), 30).unwrap();
    assert_eq!(second.handle, first.handle);
    assert!(second.started.is_none());
    assert!(!second.open_db);
    assert_eq!(reg.sites_changed, 20);
    let other = reg.get(&addr("1Second"), true, true, None, 40).unwrap();
    assert_ne!(other.handle, first.handle);
    assert!(!other.open_db);
}

#[test]
fn activation_without_manifest_is_content_unavailable() {
    let mut reg = registry_with(vec![], 10);
    let a = addr("1Address111");
    assert!(matches!(reg.get(&a, false, true, None, 20), Err(Error::ContentUnavailable)));
    assert!(!reg.sites_addr.contains("1Address111"));
    reg.get(&a, true, true, None, 20).unwrap();
    assert!(matches!(reg.get(&a, false, true, None, 30), Err(Error::ContentUnavailable)));
}

#[test]
fn activation_with_unloadable_manifest() {
    let mut reg = registry_with(vec![], 10);
    let a = addr("1Address111");
    assert!(matches!(reg.get(&a, true, false, None, 20), Err(Error::ContentLoadFailed)));
    assert_eq!(reg.sites_changed, 10);
}

#[test]
fn activation_binds_wrapper_key_of_snapshot() {
    let mut reg = registry_with(
        vec![("1Address111", storage("wk1", "ak1")), ("1Empty", storage("", "ak2"))],
        10,
    );
    let act = reg.get(&addr("1Address111"), true, true, None, 20).unwrap();
    let (a, h) = reg.get_by_key("wk1").unwrap();
    assert_eq!(a.to_canonical(), "1Address111");
    assert_eq!(h, act.handle);
    reg.get(&addr("1Empty"), true, true, None, 20).unwrap();
    assert!(matches!(reg.get_by_key(""), Err(Error::UnknownNonce)));
}

#[test]
fn activation_uses_registered_site() {
    let mut reg = registry_with(vec![], 10);
    reg.add_site(
        Site { address: "1Address111".to_string(), root: "/elsewhere".to_string(), storage: storage("w", "a") },
        11,
    );
    let act = reg.get(&addr("1Address111"), true, true, None, 12).unwrap();
    let site = act.started.unwrap();
    assert_eq!(site.root, "/elsewhere");
    assert_eq!(site.storage.wrapper_key, "w");
}

#[test]
fn unknown_nonce_fails() {
    let mut reg = registry_with(vec![], 10);
    assert!(matches!(reg.get_by_key("nope"), Err(Error::UnknownNonce)));
    let a = addr("1Address111");
    reg.add_wrapper_key(&a, "n1".to_string());
    assert!(matches!(reg.get_by_key("n1"), Err(Error::UnknownNonce)));
    let act = reg.get(&a, true, true, None, 20).unwrap();
    let (_, h) = reg.get_by_key("n1").unwrap();
    assert_eq!(h, act.handle);
    let (_, h2) = reg.get_by_key("n1").unwrap();
    assert_eq!(h2, act.handle);
}

#[test]
fn add_then_remove_keeps_running_handle() {
    let mut reg = registry_with(vec![], 10);
    let a = addr("1Address111");
    let act = reg.get(&a, true, true, None, 20).unwrap();
    reg.add_wrapper_key(&a, "n1".to_string());
    reg.add_site(
        Site { address: "1Address111".to_string(), root: "/data/1Address111".to_string(), storage: storage("", "") },
        30,
    );
    assert!(reg.get_site("1Address111").is_some());
    reg.remove_site("1Address111", 40);
    assert!(reg.get_site("1Address111").is_none());
    assert_eq!(reg.sites_changed, 40);
    let (_, h) = reg.get_by_key("n1").unwrap();
    assert_eq!(h, act.handle);
}

#[test]
fn bootstrap_registers_only_present_roots() {
    let mut reg = registry_with(vec![], 100);
    let entries = vec![
        BootEntry { address: "1Present".to_string(), storage: storage("wk1", "ak1"), root_exists: true, content_loaded: true },
        BootEntry { address: "1Missing".to_string(), storage: storage("wk2", "ak2"), root_exists: false, content_loaded: false },
        BootEntry { address: "1Broken".to_string(), storage: storage("wk3", "ak3"), root_exists: true, content_loaded: false },
    ];
    reg.extend_sites_from_sitedata(entries, 50);
    assert!(reg.get_site("1Present").is_some());
    assert_eq!(reg.get_site("1Present").unwrap().root, "/data/1Present");
    assert!(reg.get_site("1Missing").is_none());
    assert!(reg.get_site("1Broken").is_none());
    assert_eq!(reg.nonce.get("wk1").unwrap(), "1Present");
    assert!(!reg.nonce.contains("wk2"));
    assert_eq!(reg.ajax_keys.get("ak1").unwrap(), "1Present");
    assert!(!reg.ajax_keys.contains("ak3"));
    assert!(reg.sites_changed >= 100);
    reg.extend_sites_from_sitedata(vec![], 200);
    assert_eq!(reg.sites_changed, 200);
}

#[test]
fn extend_sites_registers_all() {
    let mut reg = registry_with(vec![], 1);
    let sites = vec![
        Site { address: "1A".to_string(), root: "/r/a".to_string(), storage: storage("", "") },
        Site { address: "1B".to_string(), root: "/r/b".to_string(), storage: storage("", "") },
        Site { address: "1A".to_string(), root: "/r/a2".to_string(), storage: storage("", "") },
    ];
    reg.extend_sites(sites, 5);
    assert_eq!(reg.get_site("1A").unwrap().root, "/r/a2");
    assert_eq!(reg.get_site("1B").unwrap().root, "/r/b");
    assert_eq!(reg.sites_changed, 5);
}

#[test]
fn table_insert_get_remove() {
    let mut t: Table<u32> = Table::new();
    t.insert("a".to_string(), 1);
    t.insert("b".to_string(), 2);
    t.insert("a".to_string(), 3);
    assert_eq!(t.get("a"), Some(&3));
    t.remove("a");
    assert_eq!(t.get("a"), None);
    assert_eq!(t.get("b"), Some(&2));
}

#[test]
fn end_to_end_auth_then_resolve() {
    let mut reg = registry_with(vec![], 10);
    let direct = reg.get(&addr("1Address111"), true, true, None, 20).unwrap();
    let outcome = serve_auth_wrapper_key("1Address111", "secret123", "secret123");
    let (a, nonce) = match outcome {
        AuthOutcome::Bind(a, n) => (a, n),
        _ => panic!("expected a binding"),
    };
    reg.add_wrapper_key(&a, nonce.clone());
    let reply = bind_reply(&nonce, true);
    assert_eq!(reply.status, 200);
    let token = reply.body.strip_prefix("wrapper_key=").unwrap();
    assert_eq!(token, nonce);
    let (ra, h) = reg.get_by_key(token).unwrap();
    assert_eq!(ra.to_canonical(), "1Address111");
    assert_eq!(h, direct.handle);
}

#[test]
fn site_changed_in_place() {
    let mut reg = registry_with(vec![], 1);
    assert!(reg.get_site_mut("1Address111").is_none());
    reg.add_site(
        Site { address: "1Address111".to_string(), root: "/r".to_string(), storage: storage("", "") },
        2,
    );
    reg.get_site_mut("1Address111").unwrap().storage.ajax_key = "ak".to_string();
    assert_eq!(reg.get_site("1Address111").unwrap().storage.ajax_key, "ak");
}
