use verge_core::doc::{ConfigDoc, DocValue, Scalar};
use verge_core::error::OrchError;
use verge_core::profiles::{FetchOptions, ProfileItem, ProfileKind, ProfileSet};

fn doc_with_port(port: i64) -> ConfigDoc {
    ConfigDoc {
        entries: vec![("mixed-port".to_string(), DocValue::Leaf(Scalar::Int(port)))],
    }
}

fn item(id: &str, kind: ProfileKind) -> ProfileItem {
    ProfileItem {
        id: id.to_string(),
        kind,
        name: format!("profile {id}"),
        source_url: match kind {
            ProfileKind::Remote => Some(format!("http://example/{id}")),
            _ => None,
        },
        file_reference: format!("{id}.yaml"),
        body: doc_with_port(7890),
        fetch: FetchOptions { update_interval: None, user_agent: None, with_proxy: None },
        update_time: 0,
    }
}

#[test]
fn select_then_get_returns_id() {
    let mut set = ProfileSet::new();
    set.append(item("a", ProfileKind::Remote)).unwrap();
    set.append(item("b", ProfileKind::Local)).unwrap();
    set.select_current(&"a".to_string()).unwrap();
    assert_eq!(set.get_current(), Some("a".to_string()));
    set.select_current(&"b".to_string()).unwrap();
    assert_eq!(set.get_current(), Some("b".to_string()));
}

#[test]
fn select_unknown_leaves_current_unchanged() {
    let mut set = ProfileSet::new();
    set.append(item("a", ProfileKind::Remote)).unwrap();
    set.select_current(&"a".to_string()).unwrap();
    let r = set.select_current(&"ghost".to_string());
    assert_eq!(r, Err(OrchError::NotFound("ghost".to_string())));
    assert_eq!(set.get_current(), Some("a".to_string()));
}

#[test]
fn select_unselectable_kind_rejected() {
    let mut set = ProfileSet::new();
    set.append(item("s", ProfileKind::Script)).unwrap();
    let r = set.select_current(&"s".to_string());
    assert!(matches!(r, Err(OrchError::Validation(_))));
    assert_eq!(set.get_current(), None);
}

#[test]
fn delete_current_clears_selection() {
    let mut set = ProfileSet::new();
    set.append(item("a", ProfileKind::Remote)).unwrap();
    set.select_current(&"a".to_string()).unwrap();
    let changed = set.delete(&"a".to_string()).unwrap();
    assert!(changed);
    assert_eq!(set.get_current(), None);
    assert!(set.get_item(&"a".to_string()).is_none());
}

#[test]
fn delete_chain_member_removes_it_from_chain() {
    let mut set = ProfileSet::new();
    set.append(item("a", ProfileKind::Remote)).unwrap();
    set.append(item("m", ProfileKind::Merge)).unwrap();
    set.append(item("s", ProfileKind::Script)).unwrap();
    set.set_chain(vec!["m".to_string(), "s".to_string()]).unwrap();
    let changed = set.delete(&"m".to_string()).unwrap();
    assert!(!changed);
    assert_eq!(set.chain, vec!["s".to_string()]);
}

#[test]
fn delete_unrelated_touches_neither() {
    let mut set = ProfileSet::new();
    set.append(item("a", ProfileKind::Remote)).unwrap();
    set.append(item("b", ProfileKind::Local)).unwrap();
    set.append(item("m", ProfileKind::Merge)).unwrap();
    set.select_current(&"a".to_string()).unwrap();
    set.set_chain(vec!["m".to_string()]).unwrap();
    let changed = set.delete(&"b".to_string()).unwrap();
    assert!(!changed);
    assert_eq!(set.get_current(), Some("a".to_string()));
    assert_eq!(set.chain, vec!["m".to_string()]);
}

#[test]
fn delete_unknown_reports_not_found() {
    let mut set = ProfileSet::new();
    let r = set.delete(&"nope".to_string());
    assert_eq!(r, Err(OrchError::NotFound("nope".to_string())));
}

#[test]
fn append_duplicate_id_rejected() {
    let mut set = ProfileSet::new();
    set.append(item("a", ProfileKind::Remote)).unwrap();
    let r = set.append(item("a", ProfileKind::Local));
    assert!(matches!(r, Err(OrchError::Validation(_))));
    assert_eq!(set.items.len(), 1);
}

#[test]
fn append_remote_without_url_rejected() {
    let mut set = ProfileSet::new();
    let mut bad = item("r", ProfileKind::Remote);
    bad.source_url = None;
    let r = set.append(bad);
    assert!(matches!(r, Err(OrchError::Validation(_))));
    assert!(set.items.is_empty());
}

#[test]
fn append_local_with_url_rejected() {
    let mut set = ProfileSet::new();
    let mut bad = item("l", ProfileKind::Local);
    bad.source_url = Some("http://example/l".to_string());
    assert!(matches!(set.append(bad), Err(OrchError::Validation(_))));
}

#[test]
fn set_chain_validates_every_id() {
    let mut set = ProfileSet::new();
    set.append(item("a", ProfileKind::Remote)).unwrap();
    set.append(item("m", ProfileKind::Merge)).unwrap();
    let r = set.set_chain(vec!["m".to_string(), "ghost".to_string()]);
    assert_eq!(r, Err(OrchError::NotFound("ghost".to_string())));
    assert!(set.chain.is_empty());
    let r2 = set.set_chain(vec!["a".to_string()]);
    assert!(matches!(r2, Err(OrchError::Validation(_))));
    assert!(set.chain.is_empty());
    set.set_chain(vec!["m".to_string()]).unwrap();
    assert_eq!(set.chain, vec!["m".to_string()]);
    set.set_chain(vec![]).unwrap();
    assert!(set.chain.is_empty());
}

#[test]
fn update_cannot_change_kind_or_id() {
    let mut set = ProfileSet::new();
    set.append(item("a", ProfileKind::Remote)).unwrap();
    let r = set.update(&"a".to_string(), item("a", ProfileKind::Local));
    assert!(matches!(r, Err(OrchError::Validation(_))));
    let r2 = set.update(&"a".to_string(), item("b", ProfileKind::Remote));
    assert!(matches!(r2, Err(OrchError::Validation(_))));
    let r3 = set.update(&"ghost".to_string(), item("ghost", ProfileKind::Remote));
    assert_eq!(r3, Err(OrchError::NotFound("ghost".to_string())));
}

#[test]
fn update_replaces_fields() {
    let mut set = ProfileSet::new();
    set.append(item("a", ProfileKind::Remote)).unwrap();
    let mut newer = item("a", ProfileKind::Remote);
    newer.name = "renamed".to_string();
    newer.body = doc_with_port(9999);
    newer.update_time = 42;
    set.update(&"a".to_string(), newer).unwrap();
    let stored = set.get_item(&"a".to_string()).unwrap();
    assert_eq!(stored.name, "renamed");
    assert_eq!(stored.update_time, 42);
    assert_eq!(stored.body, doc_with_port(9999));
}

#[test]
fn prepare_remote_update_hands_out_url() {
    let mut set = ProfileSet::new();
    set.append(item("a", ProfileKind::Remote)).unwrap();
    set.append(item("l", ProfileKind::Local)).unwrap();
    let (url, _opts) = set.prepare_remote_update(&"a".to_string()).unwrap();
    assert_eq!(url, "http://example/a");
    assert!(matches!(
        set.prepare_remote_update(&"l".to_string()),
        Err(OrchError::Validation(_))
    ));
    assert_eq!(
        set.prepare_remote_update(&"ghost".to_string()),
        Err(OrchError::NotFound("ghost".to_string()))
    );
}

#[test]
fn needs_reactivation_exactly_for_current() {
    let mut set = ProfileSet::new();
    set.append(item("a", ProfileKind::Remote)).unwrap();
    set.append(item("b", ProfileKind::Local)).unwrap();
    set.select_current(&"a".to_string()).unwrap();
    assert!(set.needs_reactivation(&"a".to_string()));
    assert!(!set.needs_reactivation(&"b".to_string()));
}

#[test]
fn append_and_delete_on_disjoint_ids_commute() {
    // order one: append x, then delete a
    let mut one = ProfileSet::new();
    one.append(item("a", ProfileKind::Remote)).unwrap();
    one.append(item("m", ProfileKind::Merge)).unwrap();
    one.set_chain(vec!["m".to_string()]).unwrap();
    one.select_current(&"a".to_string()).unwrap();
    let mut two = one.clone();

    one.append(item("x", ProfileKind::Local)).unwrap();
    let c1 = one.delete(&"a".to_string()).unwrap();

    // order two: delete a, then append x
    let c2 = two.delete(&"a".to_string()).unwrap();
    two.append(item("x", ProfileKind::Local)).unwrap();

    assert_eq!(c1, c2);
    assert_eq!(one, two);
    assert!(one.get_item(&"x".to_string()).is_some());
    assert!(one.get_item(&"a".to_string()).is_none());
}

#[test]
fn sync_replaces_in_memory_state() {
    let mut set = ProfileSet::new();
    set.append(item("a", ProfileKind::Remote)).unwrap();
    let mut snapshot = ProfileSet::new();
    snapshot.append(item("b", ProfileKind::Local)).unwrap();
    snapshot.select_current(&"b".to_string()).unwrap();
    set.sync(snapshot.clone());
    assert_eq!(set, snapshot);
}

#[test]
fn fetch_options_merge_prefers_the_override() {
    let stored = FetchOptions {
        update_interval: Some(60),
        user_agent: Some("stored-agent".to_string()),
        with_proxy: None,
    };
    let over = FetchOptions {
        update_interval: Some(5),
        user_agent: None,
        with_proxy: Some(true),
    };
    let merged = FetchOptions::merge_over(Some(stored.clone()), Some(over)).unwrap();
    assert_eq!(merged.update_interval, Some(5));
    assert_eq!(merged.user_agent, Some("stored-agent".to_string()));
    assert_eq!(merged.with_proxy, Some(true));
    assert_eq!(FetchOptions::merge_over(None, None), None);
    assert_eq!(
        FetchOptions::merge_over(Some(stored.clone()), None),
        Some(stored)
    );
}

#[test]
fn snapshot_equals_the_store() {
    let mut set = ProfileSet::new();
    set.append(item("a", ProfileKind::Remote)).unwrap();
    set.append(item("m", ProfileKind::Merge)).unwrap();
    set.select_current(&"a".to_string()).unwrap();
    set.set_chain(vec!["m".to_string()]).unwrap();
    let copy = set.snapshot();
    assert_eq!(copy, set);
    // the copy is independent: mutating it leaves the store alone
    let mut copy2 = set.snapshot();
    copy2.delete(&"m".to_string()).unwrap();
    assert_eq!(set.chain, vec!["m".to_string()]);
}
