use prex::db::{
    add_mod_manager, get_active, list_mod_managers, remove_mod_manager, set_active,
    ModManagerEntry, ModManagerStore,
};
use prex::error::LaunchError;

fn entry(appid: &str, exe: &str, active: bool) -> ModManagerEntry {
    ModManagerEntry { appid: appid.to_string(), exe_path: exe.to_string(), is_active: active }
}

fn views(store: &ModManagerStore) -> Vec<(String, String, bool)> {
    list_mod_managers(store).into_iter().map(|e| (e.appid, e.exe_path, e.is_active)).collect()
}

#[test]
fn add_then_activate_leaves_one_active() {
    let mut s = ModManagerStore::new();
    add_mod_manager(&mut s, "10", "/p/a.exe");
    add_mod_manager(&mut s, "20", "/p/b.exe");
    assert!(get_active(&s).unwrap().is_none());
    set_active(&mut s, "10").unwrap();
    set_active(&mut s, "20").unwrap();
    let active = get_active(&s).unwrap().unwrap();
    assert_eq!(active.appid, "20");
    assert_eq!(views(&s).iter().filter(|e| e.2).count(), 1);
}

#[test]
fn set_active_on_unregistered_fails_and_keeps_active() {
    let mut s = ModManagerStore::new();
    add_mod_manager(&mut s, "10", "/p/a.exe");
    set_active(&mut s, "10").unwrap();
    let r = set_active(&mut s, "99");
    assert!(matches!(r, Err(LaunchError::NotRegistered(id)) if id == "99"));
    assert_eq!(get_active(&s).unwrap().unwrap().appid, "10");
}

#[test]
fn re_adding_keeps_place_and_flag() {
    let mut s = ModManagerStore::new();
    add_mod_manager(&mut s, "10", "/p/a.exe");
    add_mod_manager(&mut s, "20", "/p/b.exe");
    set_active(&mut s, "10").unwrap();
    add_mod_manager(&mut s, "10", "/p/c.exe");
    assert_eq!(
        views(&s),
        vec![
            ("10".to_string(), "/p/c.exe".to_string(), true),
            ("20".to_string(), "/p/b.exe".to_string(), false),
        ]
    );
}

#[test]
fn remove_registered_and_unregistered() {
    let mut s = ModManagerStore::new();
    add_mod_manager(&mut s, "10", "/p/a.exe");
    assert!(remove_mod_manager(&mut s, "10").is_ok());
    assert!(views(&s).is_empty());
    assert!(matches!(remove_mod_manager(&mut s, "10"), Err(LaunchError::NotRegistered(_))));
}

#[test]
fn two_active_rows_are_an_error() {
    let s = ModManagerStore::from_entries(vec![entry("1", "/a", true), entry("2", "/b", true)]);
    assert!(matches!(get_active(&s), Err(LaunchError::MultipleActive)));
}
