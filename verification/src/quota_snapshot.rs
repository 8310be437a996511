//! Samples of an account's quota, taken when accounts are switched.
use crate::clock::{utc_now, Timestamp};
use crate::usage::UsageDisplay;
use vstd::prelude::*;

verus! {

/// How much of its quota an account had used at some time. What is used is in
/// whole percent, and the resets tell which windows it was used in.
#[derive(Clone, Debug)]
pub struct QuotaSnapshot {
    pub ts: Timestamp,
    pub account_id: String,
    pub email: String,
    pub plan_type: String,
    pub five_hour_used_pct: i32,
    pub weekly_used_pct: i32,
    pub five_hour_reset_at: Option<i64>,
    pub weekly_reset_at: Option<i64>,
    /// What gave rise to the sample, such as a switch.
    pub trigger: String,
}

impl QuotaSnapshot {
    /// Whether this is a sample of a usage.
    pub open spec fn samples(
        self,
        account_id: Seq<char>,
        email: Seq<char>,
        usage: UsageDisplay,
        trigger: Seq<char>,
    ) -> bool {
        &&& self.account_id@ == account_id
        &&& self.email@ == email
        &&& self.plan_type@ == usage.plan_type@
        &&& self.five_hour_used_pct == usage.five_hour_used
        &&& self.weekly_used_pct == usage.weekly_used
        &&& self.five_hour_reset_at == usage.five_hour_reset_at
        &&& self.weekly_reset_at == usage.weekly_reset_at
        &&& self.trigger@ == trigger
    }

    /// A sample of a usage, taken at a given time.
    pub fn from_usage_at(
        account_id: &str,
        email: &str,
        usage: &UsageDisplay,
        trigger: &str,
        now: Timestamp,
    ) -> (r: QuotaSnapshot)
        ensures
            r.samples(account_id@, email@, *usage, trigger@),
            r.ts == now,
    {
        QuotaSnapshot {
            ts: now,
            account_id: account_id.to_owned(),
            email: email.to_owned(),
            plan_type: usage.plan_type.clone(),
            five_hour_used_pct: usage.five_hour_used,
            weekly_used_pct: usage.weekly_used,
            five_hour_reset_at: usage.five_hour_reset_at,
            weekly_reset_at: usage.weekly_reset_at,
            trigger: trigger.to_owned(),
        }
    }

    /// A sample of a usage, taken now.
    pub fn from_usage(account_id: &str, email: &str, usage: &UsageDisplay, trigger: &str) -> (r:
        QuotaSnapshot)
        ensures
            r.samples(account_id@, email@, *usage, trigger@),
            r.ts.valid(),
    {
        QuotaSnapshot::from_usage_at(account_id, email, usage, trigger, utc_now())
    }
}

/// A sample holds how much was used of each window, and when each is reset, each
/// in the place of that window, with whose quota it is and what gave rise to it.
pub proof fn sample_holds_what_was_used(
    s: QuotaSnapshot,
    account_id: Seq<char>,
    email: Seq<char>,
    usage: UsageDisplay,
    trigger: Seq<char>,
)
    requires
        s.samples(account_id, email, usage, trigger),
    ensures
        s.five_hour_used_pct == usage.five_hour_used,
        s.weekly_used_pct == usage.weekly_used,
        s.five_hour_reset_at == usage.five_hour_reset_at,
        s.weekly_reset_at == usage.weekly_reset_at,
        s.plan_type@ == usage.plan_type@,
        s.account_id@ == account_id,
        s.email@ == email,
        s.trigger@ == trigger,
{
}

} // verus!
