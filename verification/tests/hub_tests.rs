use cz_sequencer::alerts::{
    acknowledge_incident, find_incident, resolve_incident, Incident, IncidentStatus,
};
use cz_sequencer::auth::{
    append_audit, constant_time_eq, has_scope, revoke_key, sha256_hex, validate_token, ApiKey,
    AuditEntry, Scope,
};
use cz_sequencer::dashboards::{
    create_dashboard, delete_dashboard, find_dashboard, update_dashboard, Dashboard, GridItem,
    Widget,
};
use cz_sequencer::event::CausalEvent;
use cz_sequencer::query::evaluate_dsl;

fn incident(id: &str) -> Incident {
    Incident {
        id: id.to_string(),
        rule_id: "rule-1".to_string(),
        rule_name: "high latency".to_string(),
        severity: "critical".to_string(),
        status: IncidentStatus::Open,
        message: "p99 over threshold".to_string(),
        timeline: Vec::new(),
        created_at: "t0".to_string(),
        updated_at: "t0".to_string(),
        resolved_at: None,
        acknowledged_by: None,
    }
}

#[test]
fn acknowledge_updates_incident() {
    let mut incidents = vec![incident("inc-a"), incident("inc-b")];
    let idx = acknowledge_incident(&mut incidents, "inc-b", "alice", "t1").unwrap();
    assert_eq!(idx, 1);
    assert_eq!(incidents[1].status, IncidentStatus::Acknowledged);
    assert_eq!(incidents[1].acknowledged_by.as_deref(), Some("alice"));
    assert_eq!(incidents[1].updated_at, "t1");
    assert_eq!(incidents[1].timeline.len(), 1);
    assert_eq!(incidents[1].timeline[0].action, "acknowledged");
    assert_eq!(incidents[1].timeline[0].detail, "Acknowledged by alice");
    // The other incident is untouched.
    assert_eq!(incidents[0].status, IncidentStatus::Open);
}

#[test]
fn acknowledge_unknown_incident_fails() {
    let mut incidents = vec![incident("inc-a")];
    let err = acknowledge_incident(&mut incidents, "inc-x", "alice", "t1").unwrap_err();
    assert_eq!(err, "Incident 'inc-x' not found");
    assert_eq!(incidents[0].status, IncidentStatus::Open);
}

#[test]
fn resolve_moves_incident_to_history() {
    let mut incidents = vec![incident("inc-a"), incident("inc-b")];
    let mut history = Vec::new();
    resolve_incident(&mut incidents, &mut history, 10, "inc-a", "bob", "t2").unwrap();
    assert_eq!(incidents.len(), 1);
    assert_eq!(incidents[0].id, "inc-b");
    assert_eq!(history.len(), 1);
    let resolved = &history[0];
    assert_eq!(resolved.id, "inc-a");
    assert_eq!(resolved.status, IncidentStatus::Resolved);
    assert_eq!(resolved.resolved_at.as_deref(), Some("t2"));
    assert_eq!(resolved.timeline.last().unwrap().detail, "Resolved by bob");
}

#[test]
fn resolve_evicts_oldest_history_entry() {
    let mut incidents = vec![incident("inc-new")];
    let mut old = incident("inc-old");
    old.status = IncidentStatus::Resolved;
    let mut history = vec![old];
    resolve_incident(&mut incidents, &mut history, 1, "inc-new", "bob", "t3").unwrap();
    assert_eq!(history.len(), 1);
    assert_eq!(history[0].id, "inc-new");
}

#[test]
fn find_incident_first_match() {
    let incidents = vec![incident("x"), incident("y"), incident("x")];
    assert_eq!(find_incident(&incidents, "x"), Some(0));
    assert_eq!(find_incident(&incidents, "y"), Some(1));
    assert_eq!(find_incident(&incidents, "z"), None);
}

#[test]
fn dashboard_lifecycle() {
    let mut dashboards: Vec<Dashboard> = Vec::new();
    create_dashboard(
        &mut dashboards,
        "dash-1".to_string(),
        "Overview".to_string(),
        Some("main view".to_string()),
        "t0",
    );
    assert_eq!(dashboards.len(), 1);
    assert_eq!(dashboards[0].name, "Overview");
    assert!(dashboards[0].layout.is_empty());

    let layout = vec![GridItem { i: "w1".to_string(), x: 0, y: 0, w: 4, h: 2 }];
    let widgets = vec![Widget::Value {
        id: "w1".to_string(),
        title: "Events".to_string(),
        stream: "journal".to_string(),
        field: "events_processed".to_string(),
        unit: None,
    }];
    let idx = update_dashboard(&mut dashboards, "dash-1", layout, widgets, "t1").unwrap();
    assert_eq!(idx, 0);
    assert_eq!(dashboards[0].layout.len(), 1);
    assert_eq!(dashboards[0].widgets.len(), 1);
    assert_eq!(dashboards[0].updated_at, "t1");
    assert_eq!(dashboards[0].created_at, "t0");

    assert_eq!(find_dashboard(&dashboards, "dash-1"), Some(0));
    assert!(update_dashboard(&mut dashboards, "nope", Vec::new(), Vec::new(), "t2").is_err());
    delete_dashboard(&mut dashboards, "dash-1").unwrap();
    assert!(dashboards.is_empty());
    assert_eq!(
        delete_dashboard(&mut dashboards, "dash-1").unwrap_err(),
        "Dashboard not found"
    );
}

#[test]
fn sha256_hex_known_value() {
    assert_eq!(
        sha256_hex("abc"),
        "ba7816bf8f01cfea414140de5dae2223b00361a396177a9cb410ff61f20015ad"
    );
    assert_eq!(
        sha256_hex(""),
        "e3b0c44298fc1c149afbf4c8996fb92427ae41e4649b934ca495991b7852b855"
    );
}

#[test]
fn constant_time_eq_behaviour() {
    assert!(constant_time_eq("same-string", "same-string"));
    assert!(!constant_time_eq("same-string", "same-strinh"));
    assert!(!constant_time_eq("short", "longer-string"));
    assert!(constant_time_eq("", ""));
}

fn key(id: &str, token: &str, scopes: Vec<Scope>) -> ApiKey {
    ApiKey {
        id: id.to_string(),
        label: "label".to_string(),
        key: None,
        key_hash: sha256_hex(token),
        scopes,
        created_at: "t0".to_string(),
        last_used_at: None,
        revoked: false,
    }
}

#[test]
fn scopes_admin_grants_everything() {
    let admin = key("k1", "tok", vec![Scope::Admin]);
    assert!(has_scope(&admin, Scope::Read));
    assert!(has_scope(&admin, Scope::Write));
    let reader = key("k2", "tok", vec![Scope::Read]);
    assert!(has_scope(&reader, Scope::Read));
    assert!(!has_scope(&reader, Scope::Write));
}

#[test]
fn validate_token_finds_matching_key() {
    let mut keys = vec![
        key("k1", "token-one", vec![Scope::Read]),
        key("k2", "token-two", vec![Scope::Write]),
    ];
    assert_eq!(validate_token(&mut keys, "token-two", "t5"), Some(1));
    assert_eq!(keys[1].last_used_at.as_deref(), Some("t5"));
    assert_eq!(keys[0].last_used_at, None);
    assert_eq!(validate_token(&mut keys, "unknown", "t6"), None);
}

#[test]
fn revoked_key_no_longer_validates() {
    let mut keys = vec![key("k1", "token-one", vec![Scope::Read])];
    assert_eq!(validate_token(&mut keys, "token-one", "t1"), Some(0));
    revoke_key(&mut keys, "k1").unwrap();
    assert!(keys[0].revoked);
    assert_eq!(validate_token(&mut keys, "token-one", "t2"), None);
    assert_eq!(
        revoke_key(&mut keys, "k9").unwrap_err(),
        "Key 'k9' not found"
    );
}

#[test]
fn audit_log_respects_capacity() {
    fn entry(id: &str) -> AuditEntry {
        AuditEntry {
            id: id.to_string(),
            timestamp: "t".to_string(),
            actor: "system".to_string(),
            action: "create".to_string(),
            resource: "r".to_string(),
            detail: "d".to_string(),
            ip: None,
        }
    }
    let mut log = Vec::new();
    append_audit(&mut log, 2, entry("a"));
    append_audit(&mut log, 2, entry("b"));
    append_audit(&mut log, 2, entry("c"));
    assert_eq!(log.len(), 2);
    assert_eq!(log[0].id, "b");
    assert_eq!(log[1].id, "c");
}

#[test]
fn dsl_filters_events() {
    let e = CausalEvent::new(150, 7, 2, 0, 0);
    assert!(evaluate_dsl("node_id == 7", &e));
    assert!(!evaluate_dsl("node_id == 8", &e));
    assert!(evaluate_dsl("stream_id < 3", &e));
    assert!(!evaluate_dsl("stream_id > 3", &e));
    assert!(evaluate_dsl("ts > 100", &e));
    assert!(evaluate_dsl("lamport < 151", &e));
    // Fewer than three tokens, unknown fields, unknown operators and
    // unparsable values all match everything.
    assert!(evaluate_dsl("", &e));
    assert!(evaluate_dsl("node_id ==", &e));
    assert!(evaluate_dsl("other == 1", &e));
    assert!(evaluate_dsl("node_id >= 1", &e));
    assert!(evaluate_dsl("node_id == banana", &e));
}
