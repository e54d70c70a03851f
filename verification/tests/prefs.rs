use samokod::prefs::{load_prefs, read_prefs, record_open, MAX_RECENT};
use samokod::repo_state::StoredText;
use samokod::types::{Prefs, RecentRepo};

fn paths(prefs: &Prefs) -> Vec<String> {
    prefs.recent.iter().map(|r| r.path.clone()).collect()
}

#[test]
fn prefs_open_moves_to_front_and_caps() {
    let mut prefs = Prefs::new();
    for index in 0..12 {
        record_open(&mut prefs, &format!("/repo-{index}"));
    }
    assert_eq!(prefs.recent.len(), MAX_RECENT);
    assert_eq!(prefs.recent[0].path, "/repo-11");

    let mut desktop = samokod::desktop::Prefs::new();
    for index in 0..12 {
        samokod::desktop::record_open(&mut desktop, &format!("/repo-{index}"), "main");
    }
    assert_eq!(desktop.recent.len(), MAX_RECENT);
    assert_eq!(desktop.recent[0].path, "/repo-11");
    assert_eq!(desktop.last_repo.as_deref(), Some("/repo-11"));
}

#[test]
fn reopen_moves_to_front() {
    let mut prefs = Prefs::new();
    record_open(&mut prefs, "/a");
    record_open(&mut prefs, "/b");
    record_open(&mut prefs, "/a");
    assert_eq!(prefs.recent[0].path, "/a");
    assert_eq!(prefs.recent.len(), 2);
    assert_eq!(paths(&prefs), vec!["/a", "/b"]);
}

#[test]
fn reopen_updates_branch() {
    let mut prefs = samokod::desktop::Prefs::new();
    samokod::desktop::record_open(&mut prefs, "/a", "main");
    samokod::desktop::record_open(&mut prefs, "/b", "main");
    samokod::desktop::record_open(&mut prefs, "/a", "dev");
    assert_eq!(prefs.recent[0].path, "/a");
    assert_eq!(prefs.recent[0].branch, "dev");
    assert_eq!(prefs.recent.len(), 2);
}

#[test]
fn prefs_corrupt_file_yields_defaults() {
    let loaded = load_prefs(&StoredText::Text("{oops".to_string()), None, &StoredText::Missing, None);
    assert_eq!(loaded, Prefs::new());
}

#[test]
fn legacy_fallback_and_shed_old_keys() {
    let legacy = Prefs { recent: vec![RecentRepo { path: "/repo".to_string() }] };
    let from_legacy = load_prefs(
        &StoredText::Missing,
        None,
        &StoredText::Text("{\"recent\":[{\"path\":\"/repo\"}]}".to_string()),
        Some(legacy.clone()),
    );
    assert_eq!(from_legacy, legacy);
    let blank_state = load_prefs(
        &StoredText::Text("  \n".to_string()),
        None,
        &StoredText::Text("x".to_string()),
        Some(legacy.clone()),
    );
    assert_eq!(blank_state, Prefs::new());
    assert_eq!(read_prefs(&StoredText::Missing, None), None);
    assert_eq!(read_prefs(&StoredText::Unreadable, None), Some(Prefs::new()));
}

#[test]
fn models_are_remembered_per_repo() {
    let mut prefs = samokod::desktop::Prefs::new();
    samokod::desktop::record_model(&mut prefs, "/a", "m1");
    samokod::desktop::record_model(&mut prefs, "/b", "m2");
    samokod::desktop::record_model(&mut prefs, "/a", "m3");
    assert_eq!(samokod::desktop::stored_model(&prefs, "/a").as_deref(), Some("m3"));
    assert_eq!(samokod::desktop::stored_model(&prefs, "/b").as_deref(), Some("m2"));
    assert_eq!(samokod::desktop::stored_model(&prefs, "/c"), None);
}

#[test]
fn prefs_round_trips_through_disk() {
    let mut prefs = Prefs::new();
    record_open(&mut prefs, "/repo");
    let text = StoredText::Text("{\"recent\":[{\"path\":\"/repo\"}]}".to_string());
    let loaded = load_prefs(&text, Some(prefs.clone()), &StoredText::Missing, None);
    assert_eq!(loaded, prefs);
    assert_eq!(paths(&loaded), vec!["/repo".to_string()]);
}
