//! What the broker's `EnsureNamespace` method decides. Talking to the bus,
//! counting namespaces on disk and writing files stay with the caller.
use crate::broker::policy::{
    clamp_journal_options, clamped_options, ownership_problem, validate_namespace_ownership,
    JournalDropInConfig, MAX_NAMESPACES_PER_UID,
};
use crate::env_map::StringMap;
use crate::text::{concat2, concat3, decimal, u64_to_string};
use vstd::prelude::*;

verus! {

/// D-Bus well-known bus name for the journal broker.
pub const BUS_NAME: &'static str = "com.chopperproject.JournalBroker1";

/// D-Bus object path for the journal broker.
pub const OBJECT_PATH: &'static str = "/com/chopperproject/JournalBroker1";

/// The journal broker D-Bus object.
#[derive(Debug, Clone, Copy, PartialEq, Eq)]
pub struct JournalBroker;

/// Why `EnsureNamespace` refuses a request (the D-Bus error name and its
/// message).
#[derive(Debug, Clone, PartialEq, Eq)]
pub enum BrokerRefusal {
    AccessDenied(String),
    LimitsExceeded(String),
}

/// A caller at the limit may not start one more namespace; namespaces that
/// already run do not count as new.
pub fn should_enforce_namespace_limit(active_count: usize, namespace_is_active: bool) -> (r: bool)
    ensures
        r == (active_count >= MAX_NAMESPACES_PER_UID && !namespace_is_active),
{
    active_count >= MAX_NAMESPACES_PER_UID && !namespace_is_active
}

impl JournalBroker {
    /// The ownership check of `EnsureNamespace`: a namespace the caller does
    /// not own is refused with `AccessDenied`.
    pub fn check_ownership(&self, namespace: &str, caller_uid: u32) -> (r: Result<(), BrokerRefusal>)
        ensures
            r is Ok <==> ownership_problem(namespace@, caller_uid) is None,
            r is Err ==> r->Err_0 is AccessDenied,
            r matches Err(BrokerRefusal::AccessDenied(m)) ==> m@ == "namespace ownership check failed: "@
                + crate::broker::policy::ownership_message(namespace@, caller_uid),
    {
        match validate_namespace_ownership(namespace, caller_uid) {
            Ok(()) => Ok(()),
            Err(e) => {
                let m = e.message();
                Err(BrokerRefusal::AccessDenied(concat2("namespace ownership check failed: ", m.as_str())))
            },
        }
    }

    /// The limit check of `EnsureNamespace`: refused with `LimitsExceeded`
    /// when the caller already has the maximum of other namespaces running.
    pub fn check_limit(&self, caller_uid: u32, active_count: usize, namespace_is_active: bool) -> (r: Result<
        (),
        BrokerRefusal,
    >)
        ensures
            r is Ok <==> !(active_count >= MAX_NAMESPACES_PER_UID && !namespace_is_active),
            r matches Err(BrokerRefusal::LimitsExceeded(m)) ==> m@ == "UID "@ + decimal(
                caller_uid as nat,
            ) + " already has "@ + decimal(active_count as nat) + " active namespaces (limit: "@
                + decimal(MAX_NAMESPACES_PER_UID as nat) + ")"@,
            r is Err ==> r->Err_0 is LimitsExceeded,
    {
        if !should_enforce_namespace_limit(active_count, namespace_is_active) {
            return Ok(());
        }
        let uid = u64_to_string(caller_uid as u64);
        let count = u64_to_string(active_count as u64);
        let limit = u64_to_string(MAX_NAMESPACES_PER_UID as u64);
        let mut m = concat3("UID ", uid.as_str(), " already has ");
        m.append(count.as_str());
        m.append(" active namespaces (limit: ");
        m.append(limit.as_str());
        m.append(")");
        Err(BrokerRefusal::LimitsExceeded(m))
    }

    /// The drop-in configuration `EnsureNamespace` writes for the options.
    pub fn drop_in_config(&self, options: &StringMap) -> (r: JournalDropInConfig)
        ensures
            (r.system_max_use@, r.rate_limit_interval_usec, r.rate_limit_burst) == clamped_options(
                options@,
            ),
    {
        clamp_journal_options(options)
    }
}

} // verus!
