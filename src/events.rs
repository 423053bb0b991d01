//! Events shown on the dashboard.

use vstd::prelude::*;
use crate::types::{Issue, Gate};
use crate::health::HealthStatus;
use crate::json::str_eq;

verus! {

#[derive(Clone, Copy, Debug, PartialEq, Eq, Structural)]
pub enum EventSource {
    /// The issue tracker.
    Bd,
}

#[derive(Debug)]
pub enum DashboardEvent {
    IssueUpdated { source: EventSource, issue: Issue },
    GateCreated { source: EventSource, gate: Gate },
    GateResolved { source: EventSource, gate: Gate },
    CacheRefreshed { source: EventSource, stats: String },
    ConnectionChanged { source: EventSource, connected: bool },
    HealthChanged { source: EventSource, health: HealthStatus },
}

pub open spec fn source_of(e: DashboardEvent) -> EventSource {
    match e {
        DashboardEvent::IssueUpdated { source, .. } => source,
        DashboardEvent::GateCreated { source, .. } => source,
        DashboardEvent::GateResolved { source, .. } => source,
        DashboardEvent::CacheRefreshed { source, .. } => source,
        DashboardEvent::ConnectionChanged { source, .. } => source,
        DashboardEvent::HealthChanged { source, .. } => source,
    }
}

pub open spec fn type_name_of(e: DashboardEvent) -> Seq<char> {
    match e {
        DashboardEvent::IssueUpdated { .. } => "issue_updated"@,
        DashboardEvent::GateCreated { .. } => "gate_created"@,
        DashboardEvent::GateResolved { .. } => "gate_resolved"@,
        DashboardEvent::CacheRefreshed { .. } => "cache_refreshed"@,
        DashboardEvent::ConnectionChanged { .. } => "connection_changed"@,
        DashboardEvent::HealthChanged { .. } => "health_changed"@,
    }
}

impl DashboardEvent {
    pub fn source(&self) -> (r: EventSource)
        ensures
            r == source_of(*self),
    {
        match self {
            DashboardEvent::IssueUpdated { source, .. } => *source,
            DashboardEvent::GateCreated { source, .. } => *source,
            DashboardEvent::GateResolved { source, .. } => *source,
            DashboardEvent::CacheRefreshed { source, .. } => *source,
            DashboardEvent::ConnectionChanged { source, .. } => *source,
            DashboardEvent::HealthChanged { source, .. } => *source,
        }
    }

    /// The event's kind, as a name.
    pub fn event_type_name(&self) -> (r: &'static str)
        ensures
            r@ == type_name_of(*self),
    {
        match self {
            DashboardEvent::IssueUpdated { .. } => "issue_updated",
            DashboardEvent::GateCreated { .. } => "gate_created",
            DashboardEvent::GateResolved { .. } => "gate_resolved",
            DashboardEvent::CacheRefreshed { .. } => "cache_refreshed",
            DashboardEvent::ConnectionChanged { .. } => "connection_changed",
            DashboardEvent::HealthChanged { .. } => "health_changed",
        }
    }

    /// Whether the event asks for a person's attention: a resolved gate whose
    /// status is still "pending".
    pub fn is_actionable(&self) -> (r: bool)
        ensures
            r == match *self {
                DashboardEvent::GateResolved { gate, .. } => gate.status@ == "pending"@,
                _ => false,
            },
    {
        match self {
            DashboardEvent::GateResolved { gate, .. } => str_eq(gate.status.as_str(), "pending"),
            _ => false,
        }
    }
}

} // verus!
