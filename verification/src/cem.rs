//! The collective-ethics review adapter: its settings, verdicts and the
//! metrics recorded for each reviewed alert.

use vstd::prelude::*;
use crate::text::string_of;

verus! {

/// The verdict on a meta-governance request.
#[derive(PartialEq, Eq, Structural, Clone, Copy, Debug)]
pub enum MetaGovernanceVerdict {
    Approved,
    Rejected,
    RequiresHuman,
    RequiresCemReview,
}

/// Settings of the review adapter.
pub struct CemConfig {
    pub cem_agent_id: String,
    pub project_key: String,
    pub review_timeout_secs: u64,
}

impl Default for CemConfig {
    fn default() -> (c: Self)
        ensures
            c.cem_agent_id@ == "cem-agent-1"@,
            c.project_key@ == "CEM"@,
            c.review_timeout_secs == 30,
    {
        CemConfig { cem_agent_id: string_of("cem-agent-1"), project_key: string_of("CEM"), review_timeout_secs: 30 }
    }
}

/// What is recorded for one reviewed alert; instants are Unix nanoseconds.
pub struct CemMetrics {
    pub alerts_processed: u64,
    pub escalated: u64,
    pub verdict: MetaGovernanceVerdict,
    pub timestamp_ns: i64,
    pub alert_id: String,
    pub received_at_ns: i64,
    pub verdict_at_ns: i64,
    pub convergence_time_ms: u64,
}

/// The whole milliseconds in a span of nanoseconds, rounded toward zero.
pub open spec fn whole_millis(span_ns: int) -> int {
    if span_ns >= 0 {
        span_ns / 1_000_000
    } else {
        -((-span_ns) / 1_000_000)
    }
}

/// The verdict the adapter gives every alert.
pub fn review_verdict() -> (v: MetaGovernanceVerdict)
    ensures
        v == MetaGovernanceVerdict::Approved,
{
    MetaGovernanceVerdict::Approved
}

/// How long the simulated review takes, from a random draw: between 50 and
/// 199 milliseconds.
pub fn review_delay_ms(draw: u64) -> (ms: u64)
    ensures
        ms == draw % 150 + 50,
        50 <= ms < 200,
{
    draw % 150 + 50
}

/// The metrics of one reviewed alert: one alert processed and escalated,
/// approved, with the whole milliseconds from receipt to verdict, rounded
/// toward zero (as an unsigned count, so a negative span wraps).
pub fn alert_metrics(alert_id: String, received_at_ns: i64, verdict_at_ns: i64, timestamp_ns: i64) -> (m: CemMetrics)
    ensures
        m.alerts_processed == 1,
        m.escalated == 1,
        m.verdict == MetaGovernanceVerdict::Approved,
        m.timestamp_ns == timestamp_ns,
        m.alert_id == alert_id,
        m.received_at_ns == received_at_ns,
        m.verdict_at_ns == verdict_at_ns,
        m.convergence_time_ms == whole_millis(verdict_at_ns - received_at_ns) as u64,
{
    let span: i128 = verdict_at_ns as i128 - received_at_ns as i128;
    let millis: i64 = if span >= 0 {
        (span / 1_000_000) as i64
    } else {
        -(((-span) / 1_000_000) as i64)
    };
    CemMetrics {
        alerts_processed: 1,
        escalated: 1,
        verdict: review_verdict(),
        timestamp_ns,
        alert_id,
        received_at_ns,
        verdict_at_ns,
        convergence_time_ms: millis as u64,
    }
}

} // verus!
