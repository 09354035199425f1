use verge_core::activation::{
    plan_activate, resolve_base, ActivationPlan, EnhanceSession, EnhanceStep, ScriptOutput,
};
use verge_core::doc::{ConfigDoc, DocValue, Scalar};
use verge_core::error::OrchError;
use verge_core::profiles::{FetchOptions, ProfileItem, ProfileKind, ProfileSet};
use verge_core::sidecar::Supervisor;

fn entry(key: &str, v: i64) -> (String, DocValue) {
    (key.to_string(), DocValue::Leaf(Scalar::Int(v)))
}

fn section(key: &str, pairs: &[(&str, i64)]) -> (String, DocValue) {
    (
        key.to_string(),
        DocValue::Section(
            pairs.iter().map(|(k, v)| (k.to_string(), Scalar::Int(*v))).collect(),
        ),
    )
}

fn item_with_body(id: &str, kind: ProfileKind, body: ConfigDoc) -> ProfileItem {
    ProfileItem {
        id: id.to_string(),
        kind,
        name: id.to_string(),
        source_url: match kind {
            ProfileKind::Remote => Some(format!("http://example/{id}")),
            _ => None,
        },
        file_reference: format!("{id}.yaml"),
        body,
        fetch: FetchOptions { update_interval: None, user_agent: None, with_proxy: None },
        update_time: 0,
    }
}

fn supervisor() -> Supervisor {
    Supervisor::new("127.0.0.1".to_string(), 9090)
}

#[test]
fn second_activation_is_a_no_op() {
    let mut set = ProfileSet::new();
    let body = ConfigDoc { entries: vec![entry("mixed-port", 7890)] };
    set.append(item_with_body("a", ProfileKind::Remote, body)).unwrap();
    set.select_current(&"a".to_string()).unwrap();
    let mut sup = supervisor();

    let first = plan_activate(&sup, &set, false);
    let doc = match first {
        ActivationPlan::Push(d) => d,
        ActivationPlan::Skip => panic!("the first activation must push"),
    };
    sup.commit_push(doc);
    // no intervening mutation: the second activation skips
    assert_eq!(plan_activate(&sup, &set, false), ActivationPlan::Skip);
    // a forced activation always pushes
    assert!(matches!(plan_activate(&sup, &set, true), ActivationPlan::Push(_)));
}

#[test]
fn activation_pushes_again_after_mutation() {
    let mut set = ProfileSet::new();
    set.append(item_with_body(
        "a",
        ProfileKind::Remote,
        ConfigDoc { entries: vec![entry("mixed-port", 7890)] },
    ))
    .unwrap();
    set.append(item_with_body(
        "b",
        ProfileKind::Local,
        ConfigDoc { entries: vec![entry("mixed-port", 7891)] },
    ))
    .unwrap();
    set.select_current(&"a".to_string()).unwrap();
    let mut sup = supervisor();
    match plan_activate(&sup, &set, false) {
        ActivationPlan::Push(d) => sup.commit_push(d),
        ActivationPlan::Skip => panic!("must push"),
    }
    set.select_current(&"b".to_string()).unwrap();
    assert!(matches!(plan_activate(&sup, &set, false), ActivationPlan::Push(_)));
}

#[test]
fn scenario_import_select_activate_delete() {
    // start with an empty store
    let mut set = ProfileSet::new();
    let fetched = ConfigDoc { entries: vec![entry("mixed-port", 7890), entry("socks-port", 7891)] };
    // append a remote item materialized from its URL
    set.append(item_with_body("item-a", ProfileKind::Remote, fetched.clone())).unwrap();
    set.select_current(&"item-a".to_string()).unwrap();
    let mut sup = supervisor();
    // a forced activation issues exactly one push, whose body is the fetched content
    match plan_activate(&sup, &set, true) {
        ActivationPlan::Push(d) => {
            assert!(d.same_content(&fetched));
            sup.commit_push(d);
        },
        ActivationPlan::Skip => panic!("a forced activation must push"),
    }
    // deleting the item clears the selection
    let changed = set.delete(&"item-a".to_string()).unwrap();
    assert!(changed);
    assert_eq!(set.get_current(), None);
}

#[test]
fn resolve_base_defaults_to_empty_mapping() {
    let set = ProfileSet::new();
    let base = resolve_base(&set);
    assert!(base.entries.is_empty());
}

#[test]
fn merge_is_deep_for_sections() {
    let base = ConfigDoc {
        entries: vec![entry("port", 7890), section("dns", &[("x", 1), ("y", 2)])],
    };
    let patch = ConfigDoc {
        entries: vec![section("dns", &[("y", 3), ("z", 4)]), entry("log", 1)],
    };
    let merged = base.merged(&patch);
    let expected = ConfigDoc {
        entries: vec![
            entry("port", 7890),
            section("dns", &[("x", 1), ("y", 3), ("z", 4)]),
            entry("log", 1),
        ],
    };
    assert!(merged.same_content(&expected));
    assert_eq!(merged, expected);
}

#[test]
fn merge_replaces_leaf_collisions() {
    let base = ConfigDoc { entries: vec![entry("port", 1), entry("keep", 5)] };
    let patch = ConfigDoc { entries: vec![entry("port", 2)] };
    let merged = base.merged(&patch);
    let expected = ConfigDoc { entries: vec![entry("port", 2), entry("keep", 5)] };
    assert!(merged.same_content(&expected));
}

#[test]
fn enhanced_chain_folds_merge_members() {
    let mut set = ProfileSet::new();
    set.append(item_with_body(
        "a",
        ProfileKind::Remote,
        ConfigDoc { entries: vec![entry("port", 7890)] },
    ))
    .unwrap();
    set.append(item_with_body(
        "m1",
        ProfileKind::Merge,
        ConfigDoc { entries: vec![entry("log", 1)] },
    ))
    .unwrap();
    set.select_current(&"a".to_string()).unwrap();
    set.set_chain(vec!["m1".to_string()]).unwrap();

    let mut session = EnhanceSession::start(&set);
    assert_eq!(session.advance(), EnhanceStep::Finished);
    let doc = session.finish();
    let expected = ConfigDoc { entries: vec![entry("port", 7890), entry("log", 1)] };
    assert!(doc.same_content(&expected));
}

#[test]
fn enhanced_chain_runs_scripts_between_merges() {
    let mut set = ProfileSet::new();
    set.append(item_with_body(
        "a",
        ProfileKind::Local,
        ConfigDoc { entries: vec![entry("port", 7890)] },
    ))
    .unwrap();
    set.append(item_with_body("s1", ProfileKind::Script, ConfigDoc { entries: vec![] })).unwrap();
    set.append(item_with_body(
        "m1",
        ProfileKind::Merge,
        ConfigDoc { entries: vec![entry("log", 1)] },
    ))
    .unwrap();
    set.select_current(&"a".to_string()).unwrap();
    set.set_chain(vec!["s1".to_string(), "m1".to_string()]).unwrap();

    let mut session = EnhanceSession::start(&set);
    match session.advance() {
        EnhanceStep::NeedScript(id) => assert_eq!(id, "s1"),
        EnhanceStep::Finished => panic!("the script member must be handed out"),
    }
    // the application ran the script against the current document
    let transformed = ConfigDoc { entries: vec![entry("port", 1234)] };
    session.supply_script(ScriptOutput::Doc(transformed)).unwrap();
    assert_eq!(session.advance(), EnhanceStep::Finished);
    let doc = session.finish();
    let expected = ConfigDoc { entries: vec![entry("port", 1234), entry("log", 1)] };
    assert!(doc.same_content(&expected));
}

#[test]
fn failing_chain_member_aborts_and_is_named() {
    let mut set = ProfileSet::new();
    set.append(item_with_body(
        "a",
        ProfileKind::Remote,
        ConfigDoc { entries: vec![entry("port", 7890)] },
    ))
    .unwrap();
    set.append(item_with_body("s1", ProfileKind::Script, ConfigDoc { entries: vec![] })).unwrap();
    set.select_current(&"a".to_string()).unwrap();
    set.set_chain(vec!["s1".to_string()]).unwrap();

    let mut sup = supervisor();
    match plan_activate(&sup, &set, true) {
        ActivationPlan::Push(d) => sup.commit_push(d),
        ActivationPlan::Skip => panic!("must push"),
    }
    let live_before = sup.last_pushed.clone();

    let mut session = EnhanceSession::start(&set);
    match session.advance() {
        EnhanceStep::NeedScript(id) => assert_eq!(id, "s1"),
        EnhanceStep::Finished => panic!("the script member must be handed out"),
    }
    let err = session
        .supply_script(ScriptOutput::Failed("boom".to_string()))
        .unwrap_err();
    match err {
        OrchError::Chain { member, reason } => {
            assert_eq!(member, "s1");
            assert_eq!(reason, "boom");
        },
        other => panic!("expected a chain error, got {other:?}"),
    }
    // the previously-live configuration is retained: nothing was committed
    assert_eq!(sup.last_pushed, live_before);
}

#[test]
fn non_mapping_script_output_is_a_chain_error() {
    let mut set = ProfileSet::new();
    set.append(item_with_body(
        "a",
        ProfileKind::Remote,
        ConfigDoc { entries: vec![entry("port", 7890)] },
    ))
    .unwrap();
    set.append(item_with_body("s1", ProfileKind::Script, ConfigDoc { entries: vec![] })).unwrap();
    set.select_current(&"a".to_string()).unwrap();
    set.set_chain(vec!["s1".to_string()]).unwrap();
    let mut session = EnhanceSession::start(&set);
    session.advance();
    let err = session.supply_script(ScriptOutput::NotMapping).unwrap_err();
    assert!(matches!(err, OrchError::Chain { .. }));
}

#[test]
fn runtime_patch_is_never_regressed() {
    let mut set = ProfileSet::new();
    set.append(item_with_body(
        "a",
        ProfileKind::Remote,
        ConfigDoc { entries: vec![entry("port", 7890)] },
    ))
    .unwrap();
    set.select_current(&"a".to_string()).unwrap();
    let mut sup = supervisor();
    match plan_activate(&sup, &set, false) {
        ActivationPlan::Push(d) => sup.commit_push(d),
        ActivationPlan::Skip => panic!("must push"),
    }
    // the sidecar accepted an ad-hoc patch of one field
    let partial = ConfigDoc { entries: vec![entry("mode", 1)] };
    sup.record_live_patch(&partial);
    // a later activation does not regress the patched field, and does not
    // push needlessly either: the recorded live view already includes it
    match plan_activate(&sup, &set, false) {
        ActivationPlan::Skip => {},
        ActivationPlan::Push(d) => {
            let expected =
                ConfigDoc { entries: vec![entry("port", 7890), entry("mode", 1)] };
            assert!(d.same_content(&expected));
        },
    }
}

#[test]
fn is_wf_rejects_duplicate_keys() {
    let dup = ConfigDoc { entries: vec![entry("port", 1), entry("port", 2)] };
    assert!(!dup.is_wf());
    let ok = ConfigDoc { entries: vec![entry("port", 1), entry("log", 2)] };
    assert!(ok.is_wf());
    let bad_section = ConfigDoc {
        entries: vec![section("dns", &[("x", 1), ("x", 2)])],
    };
    assert!(!bad_section.is_wf());
}

#[test]
fn malformed_script_document_is_rejected() {
    let mut set = ProfileSet::new();
    set.append(item_with_body(
        "a",
        ProfileKind::Remote,
        ConfigDoc { entries: vec![entry("port", 7890)] },
    ))
    .unwrap();
    set.append(item_with_body("s1", ProfileKind::Script, ConfigDoc { entries: vec![] })).unwrap();
    set.select_current(&"a".to_string()).unwrap();
    set.set_chain(vec!["s1".to_string()]).unwrap();
    let mut session = EnhanceSession::start(&set);
    session.advance();
    let dup = ConfigDoc { entries: vec![entry("port", 1), entry("port", 2)] };
    let err = session.supply_script(ScriptOutput::Doc(dup)).unwrap_err();
    assert!(matches!(err, OrchError::Chain { .. }));
}
