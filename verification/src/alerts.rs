//! Incident records for the alerting surface, and the pure lifecycle steps
//! over a list of incidents. Identifiers and wall-clock timestamps are
//! handed in by the caller: the logic itself is deterministic.

use vstd::prelude::*;
use vstd::string::StringExecFns;
use crate::util::{str_eq, not_found_message};
use std::collections::HashMap;

verus! {

/// Incident status lifecycle.
#[derive(Debug, Clone, Copy, PartialEq, Eq, Structural)]
pub enum IncidentStatus {
    Open,
    Acknowledged,
    Resolved,
}

/// A timeline entry attached to an incident.
#[derive(Debug, Clone)]
pub struct TimelineEntry {
    pub timestamp: String,
    pub action: String,
    pub detail: String,
    pub actor: Option<String>,
}

/// A single incident, triggered by an alert rule.
#[derive(Debug, Clone)]
pub struct Incident {
    pub id: String,
    pub rule_id: String,
    pub rule_name: String,
    pub severity: String,
    pub status: IncidentStatus,
    pub message: String,
    pub timeline: Vec<TimelineEntry>,
    pub created_at: String,
    pub updated_at: String,
    pub resolved_at: Option<String>,
    pub acknowledged_by: Option<String>,
}

/// Alert rule types.
#[derive(Debug, Clone, Copy, PartialEq, Eq, Structural)]
pub enum RuleType {
    /// Value exceeds a threshold for a duration.
    Threshold,
    /// Rate of change exceeds a percentage.
    RateOfChange,
    /// Deviation from a rolling average.
    Anomaly,
    /// Pattern match on stream events.
    Pattern,
}

/// Notification channel configuration.
#[derive(Debug, Clone)]
pub struct NotificationChannel {
    pub id: String,
    pub name: String,
    pub channel_type: String,
    pub config: HashMap<String, String>,
    pub enabled: bool,
}

/// A timeline entry records the given timestamp, action, detail and actor.
pub open spec fn spec_timeline_entry(
    t: TimelineEntry,
    ts: Seq<char>,
    action: Seq<char>,
    detail: Seq<char>,
    actor: Seq<char>,
) -> bool {
    &&& t.timestamp@ == ts
    &&& t.action@ == action
    &&& t.detail@ == detail
    &&& match t.actor {
        Some(a) => a@ == actor,
        None => false,
    }
}

/// The updated incident is the original, acknowledged: status set, actor
/// recorded, update time stamped, and one `acknowledged` timeline entry
/// appended; everything else untouched.
pub open spec fn spec_acknowledged(
    orig: Incident,
    u: Incident,
    actor: Seq<char>,
    now: Seq<char>,
) -> bool {
    &&& u.id == orig.id
    &&& u.rule_id == orig.rule_id
    &&& u.rule_name == orig.rule_name
    &&& u.severity == orig.severity
    &&& u.status == IncidentStatus::Acknowledged
    &&& u.message == orig.message
    &&& u.created_at == orig.created_at
    &&& u.updated_at@ == now
    &&& u.resolved_at == orig.resolved_at
    &&& match u.acknowledged_by {
        Some(a) => a@ == actor,
        None => false,
    }
    &&& u.timeline@.len() == orig.timeline@.len() + 1
    &&& forall|k: int| 0 <= k < orig.timeline@.len() ==> u.timeline@[k] == orig.timeline@[k]
    &&& spec_timeline_entry(
        u.timeline@.last(),
        now,
        "acknowledged"@,
        "Acknowledged by "@ + actor,
        actor,
    )
}

/// The updated incident is the original, resolved: status set, resolution
/// and update times stamped, and one `resolved` timeline entry appended;
/// everything else untouched.
pub open spec fn spec_resolved(orig: Incident, u: Incident, actor: Seq<char>, now: Seq<char>) -> bool {
    &&& u.id == orig.id
    &&& u.rule_id == orig.rule_id
    &&& u.rule_name == orig.rule_name
    &&& u.severity == orig.severity
    &&& u.status == IncidentStatus::Resolved
    &&& u.message == orig.message
    &&& u.created_at == orig.created_at
    &&& u.updated_at@ == now
    &&& match u.resolved_at {
        Some(t) => t@ == now,
        None => false,
    }
    &&& u.acknowledged_by == orig.acknowledged_by
    &&& u.timeline@.len() == orig.timeline@.len() + 1
    &&& forall|k: int| 0 <= k < orig.timeline@.len() ==> u.timeline@[k] == orig.timeline@[k]
    &&& spec_timeline_entry(u.timeline@.last(), now, "resolved"@, "Resolved by "@ + actor, actor)
}

/// Find the first incident with the given id. Returns its index, or `None`
/// iff no incident carries the id.
pub fn find_incident(incidents: &Vec<Incident>, incident_id: &str) -> (r: Option<usize>)
    ensures
        r matches Some(i) ==> 0 <= i < incidents@.len() && incidents@[i as int].id@
            == incident_id@ && (forall|k: int|
            0 <= k < i ==> incidents@[k].id@ != incident_id@),
        r is None <==> (forall|k: int|
            0 <= k < incidents@.len() ==> incidents@[k].id@ != incident_id@),
{
    let n = incidents.len();
    let mut i: usize = 0;
    while i < n
        invariant
            0 <= i <= n,
            n == incidents@.len(),
            forall|k: int| 0 <= k < i ==> incidents@[k].id@ != incident_id@,
        decreases n - i,
    {
        if str_eq(incidents.get(i).unwrap().id.as_str(), incident_id) {
            return Some(i);
        }
        i = i + 1;
    }
    None
}

/// Acknowledge an incident: set its status, record the actor, stamp the
/// update time, and append a timeline entry. Returns the index of the
/// updated incident, or an error iff no incident carries the id; on error
/// nothing changes.
pub fn acknowledge_incident(
    incidents: &mut Vec<Incident>,
    incident_id: &str,
    actor: &str,
    now: &str,
) -> (r: Result<usize, String>)
    ensures
        r is Err <==> (forall|k: int|
            0 <= k < old(incidents)@.len() ==> old(incidents)@[k].id@ != incident_id@),
        r matches Err(m) ==> final(incidents)@ == old(incidents)@ && m@ == "Incident"@ + " '"@
            + incident_id@ + "' not found"@,
        r matches Ok(i) ==> {
            &&& 0 <= i < old(incidents)@.len()
            &&& old(incidents)@[i as int].id@ == incident_id@
            &&& forall|k: int| 0 <= k < i ==> old(incidents)@[k].id@ != incident_id@
            &&& final(incidents)@.len() == old(incidents)@.len()
            &&& forall|k: int|
                0 <= k < old(incidents)@.len() && k != i ==> final(incidents)@[k] == old(
                    incidents,
                )@[k]
            &&& spec_acknowledged(old(incidents)@[i as int], final(incidents)@[i as int], actor@, now@)
        },
{
    match find_incident(incidents, incident_id) {
        None => Err(not_found_message("Incident", incident_id)),
        Some(i) => {
            let orig = incidents.remove(i);
            let entry = TimelineEntry {
                timestamp: now.to_owned(),
                action: "acknowledged".to_owned(),
                detail: "Acknowledged by ".to_owned().concat(actor),
                actor: Some(actor.to_owned()),
            };
            let mut timeline = orig.timeline;
            timeline.push(entry);
            let upd = Incident {
                id: orig.id,
                rule_id: orig.rule_id,
                rule_name: orig.rule_name,
                severity: orig.severity,
                status: IncidentStatus::Acknowledged,
                message: orig.message,
                timeline,
                created_at: orig.created_at,
                updated_at: now.to_owned(),
                resolved_at: orig.resolved_at,
                acknowledged_by: Some(actor.to_owned()),
            };
            incidents.insert(i, upd);
            proof {
                assert(final(incidents)@.len() == old(incidents)@.len());
            }
            Ok(i)
        },
    }
}

/// Resolve an incident: set its status, stamp the resolution and update
/// times, append a timeline entry, move it from the active list to the end
/// of the history, and drop the oldest history record if the history is at
/// capacity. Returns an error iff no incident carries the id; on error
/// nothing changes.
pub fn resolve_incident(
    incidents: &mut Vec<Incident>,
    history: &mut Vec<Incident>,
    history_capacity: usize,
    incident_id: &str,
    actor: &str,
    now: &str,
) -> (r: Result<(), String>)
    ensures
        r is Err <==> (forall|k: int|
            0 <= k < old(incidents)@.len() ==> old(incidents)@[k].id@ != incident_id@),
        r matches Err(m) ==> final(incidents)@ == old(incidents)@ && final(history)@ == old(
            history,
        )@ && m@ == "Incident"@ + " '"@ + incident_id@ + "' not found"@,
        r is Ok ==> exists|i: int|
            {
                &&& 0 <= i < old(incidents)@.len()
                &&& old(incidents)@[i].id@ == incident_id@
                &&& forall|k: int| 0 <= k < i ==> old(incidents)@[k].id@ != incident_id@
                &&& final(incidents)@ == old(incidents)@.remove(i)
                &&& final(history)@.len() > 0
                &&& spec_resolved(old(incidents)@[i], final(history)@.last(), actor@, now@)
                &&& final(history)@ == (if old(history)@.len() >= history_capacity && old(
                    history,
                )@.len() > 0 {
                    old(history)@.drop_first()
                } else {
                    old(history)@
                }).push(final(history)@.last())
            },
{
    match find_incident(incidents, incident_id) {
        None => Err(not_found_message("Incident", incident_id)),
        Some(i) => {
            let orig = incidents.remove(i);
            let entry = TimelineEntry {
                timestamp: now.to_owned(),
                action: "resolved".to_owned(),
                detail: "Resolved by ".to_owned().concat(actor),
                actor: Some(actor.to_owned()),
            };
            let mut timeline = orig.timeline;
            timeline.push(entry);
            let resolved = Incident {
                id: orig.id,
                rule_id: orig.rule_id,
                rule_name: orig.rule_name,
                severity: orig.severity,
                status: IncidentStatus::Resolved,
                message: orig.message,
                timeline,
                created_at: orig.created_at,
                updated_at: now.to_owned(),
                resolved_at: Some(now.to_owned()),
                acknowledged_by: orig.acknowledged_by,
            };
            if history.len() >= history_capacity && history.len() > 0 {
                let _evicted = history.remove(0);
                proof {
                    assert(history@ =~= old(history)@.drop_first());
                }
            }
            history.push(resolved);
            Ok(())
        },
    }
}

} // verus!
