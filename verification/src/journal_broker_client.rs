//! The client side of the journal broker: the options it sends and how a
//! refusal is reported. The D-Bus call stays with the caller.
use crate::env_map::StringMap;
use crate::text::{concat3, contains_seq, decimal, str_contains, to_owned, u64_to_string};
use vstd::prelude::*;

verus! {

/// D-Bus well-known bus name for the journal broker.
pub const BUS_NAME: &'static str = "com.chopperproject.JournalBroker1";

/// D-Bus object path for the journal broker.
pub const OBJECT_PATH: &'static str = "/com/chopperproject/JournalBroker1";

/// D-Bus interface name for the journal broker.
pub const INTERFACE_NAME: &'static str = "com.chopperproject.JournalBroker1";

/// Journal policy options passed from client alias config to the broker.
#[derive(Debug, Clone, PartialEq, Eq)]
pub struct JournalPolicyOptions {
    pub max_use: Option<String>,
    pub rate_limit_interval_usec: Option<u64>,
    pub rate_limit_burst: Option<u32>,
}

impl Default for JournalPolicyOptions {
    fn default() -> (r: Self)
        ensures
            r.max_use is None,
            r.rate_limit_interval_usec is None,
            r.rate_limit_burst is None,
    {
        JournalPolicyOptions { max_use: None, rate_limit_interval_usec: None, rate_limit_burst: None }
    }
}

/// The options as sent: one entry per given option, numbers in decimal.
pub open spec fn dbus_options(o: JournalPolicyOptions) -> Map<Seq<char>, Seq<char>> {
    let m0 = Map::<Seq<char>, Seq<char>>::empty();
    let m1 = match o.max_use {
        Some(v) => m0.insert("max_use"@, v@),
        None => m0,
    };
    let m2 = match o.rate_limit_interval_usec {
        Some(n) => m1.insert("rate_limit_interval_usec"@, decimal(n as nat)),
        None => m1,
    };
    match o.rate_limit_burst {
        Some(n) => m2.insert("rate_limit_burst"@, decimal(n as nat)),
        None => m2,
    }
}

impl JournalPolicyOptions {
    /// Convert to a string map for D-Bus transport.
    pub fn to_dbus_options(&self) -> (r: StringMap)
        ensures
            r@ == dbus_options(*self),
    {
        let mut map = StringMap::new();
        if let Some(max_use) = &self.max_use {
            map.insert(to_owned("max_use"), max_use.clone());
        }
        if let Some(interval) = self.rate_limit_interval_usec {
            map.insert(to_owned("rate_limit_interval_usec"), u64_to_string(interval));
        }
        if let Some(burst) = self.rate_limit_burst {
            map.insert(to_owned("rate_limit_burst"), u64_to_string(burst as u64));
        }
        map
    }
}

/// How a refused broker call is reported, from the D-Bus error name and its
/// detail.
pub open spec fn broker_error_text(name: Seq<char>, detail: Option<Seq<char>>, namespace: Seq<char>) -> Seq<char> {
    let d = match detail {
        Some(d) => d,
        None => "(no detail)"@,
    };
    if contains_seq(name, "AccessDenied"@) {
        "journal namespace broker denied access for `"@ + namespace + "`: "@ + d
    } else if contains_seq(name, "LimitsExceeded"@) {
        "journal namespace broker: namespace limit exceeded for `"@ + namespace + "`: "@ + d
    } else {
        "journal namespace broker failed for `"@ + namespace + "`: ["@ + name + "] "@ + d
    }
}

pub fn broker_error_message(name: &str, detail: Option<&str>, namespace: &str) -> (r: String)
    ensures
        r@ == broker_error_text(name@, crate::journal_validation::opt_view(detail), namespace@),
{
    let d = match detail {
        Some(d) => to_owned(d),
        None => to_owned("(no detail)"),
    };
    let mut r = if str_contains(name, "AccessDenied") {
        concat3("journal namespace broker denied access for `", namespace, "`: ")
    } else if str_contains(name, "LimitsExceeded") {
        concat3("journal namespace broker: namespace limit exceeded for `", namespace, "`: ")
    } else {
        let mut r = concat3("journal namespace broker failed for `", namespace, "`: [");
        r.append(name);
        r.append("] ");
        r
    };
    r.append(d.as_str());
    r
}

} // verus!
