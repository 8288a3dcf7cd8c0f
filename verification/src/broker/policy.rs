//! Limits the broker enforces on journal namespaces and their settings.
use crate::env_map::StringMap;
use crate::journal_validation::{size_multiplier, size_number, split_size};
use crate::text::{
    ascii_upper, concat3, contains_char, decimal, parse_u32, parse_u64, parse_unsigned,
    str_starts_with, to_owned, trim, trim_str, u64_to_string, views,
};
use vstd::prelude::*;

verus! {

/// Hard limit: max number of namespaces any single UID may create.
pub const MAX_NAMESPACES_PER_UID: usize = 16;

/// Hard ceiling for SystemMaxUse (bytes).  512 MiB.
pub const MAX_SYSTEM_MAX_USE_BYTES: u64 = 536870912;

/// Default SystemMaxUse when the client does not specify one.
pub const DEFAULT_SYSTEM_MAX_USE: &'static str = "64M";

/// Hard ceiling for RateLimitBurst.
pub const MAX_RATE_LIMIT_BURST: u32 = 10000;

/// Default RateLimitBurst when the client does not specify one.
pub const DEFAULT_RATE_LIMIT_BURST: u32 = 1000;

/// Minimum RateLimitIntervalSec (microseconds).  1 ms.
pub const MIN_RATE_LIMIT_INTERVAL_USEC: u64 = 1000;

/// Default RateLimitIntervalSec in microseconds (30 s).
pub const DEFAULT_RATE_LIMIT_INTERVAL_USEC: u64 = 30000000;

/// Hard ceiling for RateLimitIntervalSec in microseconds (1 hour).
pub const MAX_RATE_LIMIT_INTERVAL_USEC: u64 = 3600000000;

/// Validated and clamped journal drop-in configuration.
#[derive(Debug, Clone, PartialEq, Eq)]
pub struct JournalDropInConfig {
    pub system_max_use: String,
    pub rate_limit_interval_usec: u64,
    pub rate_limit_burst: u32,
}

impl Default for JournalDropInConfig {
    fn default() -> (r: Self)
        ensures
            r.system_max_use@ == DEFAULT_SYSTEM_MAX_USE@,
            r.rate_limit_interval_usec == DEFAULT_RATE_LIMIT_INTERVAL_USEC,
            r.rate_limit_burst == DEFAULT_RATE_LIMIT_BURST,
    {
        JournalDropInConfig {
            system_max_use: to_owned(DEFAULT_SYSTEM_MAX_USE),
            rate_limit_interval_usec: DEFAULT_RATE_LIMIT_INTERVAL_USEC,
            rate_limit_burst: DEFAULT_RATE_LIMIT_BURST,
        }
    }
}

/// Why a namespace does not belong to its caller.
#[derive(Debug, Clone, PartialEq, Eq)]
pub enum OwnershipError {
    WrongPrefix { namespace: String, uid: u32 },
    NoLogicalName { namespace: String },
    ContainsNul,
}

/// `u<uid>-`
pub open spec fn owner_prefix(uid: u32) -> Seq<char> {
    "u"@ + decimal(uid as nat) + "-"@
}

impl OwnershipError {
    pub open spec fn spec_message(&self) -> Seq<char> {
        match self {
            OwnershipError::WrongPrefix { namespace, uid } => "namespace `"@ + namespace@
                + "` is not owned by UID "@ + decimal(*uid as nat) + "; expected prefix `"@
                + owner_prefix(*uid) + "`"@,
            OwnershipError::NoLogicalName { namespace } => "namespace `"@ + namespace@
                + "` has no logical name after the UID prefix"@,
            OwnershipError::ContainsNul => "namespace cannot contain NUL bytes"@,
        }
    }

    /// The text shown to the caller.
    pub fn message(&self) -> (r: String)
        ensures
            r@ == self.spec_message(),
    {
        match self {
            OwnershipError::WrongPrefix { namespace, uid } => {
                let n = u64_to_string(*uid as u64);
                let prefix = owner_prefix_text(*uid);
                let mut r = concat3("namespace `", namespace.as_str(), "` is not owned by UID ");
                r.append(n.as_str());
                r.append("; expected prefix `");
                r.append(prefix.as_str());
                r.append("`");
                r
            },
            OwnershipError::NoLogicalName { namespace } => concat3(
                "namespace `",
                namespace.as_str(),
                "` has no logical name after the UID prefix",
            ),
            OwnershipError::ContainsNul => to_owned("namespace cannot contain NUL bytes"),
        }
    }
}

fn owner_prefix_text(uid: u32) -> (r: String)
    ensures
        r@ == owner_prefix(uid),
{
    let n = u64_to_string(uid as u64);
    concat3("u", n.as_str(), "-")
}

/// A namespace belongs to UID `uid` when it is `u<uid>-` followed by a
/// logical name free of NUL.
pub open spec fn ownership_problem(namespace: Seq<char>, uid: u32) -> Option<u8> {
    let p = owner_prefix(uid);
    if !(p.len() <= namespace.len() && namespace.subrange(0, p.len() as int) == p) {
        Some(0)
    } else if namespace.len() <= p.len() {
        Some(1)
    } else if namespace.contains('\0') {
        Some(2)
    } else {
        None
    }
}

/// The message an ownership problem is reported with.
pub open spec fn ownership_message(namespace: Seq<char>, uid: u32) -> Seq<char> {
    match ownership_problem(namespace, uid) {
        Some(0) => "namespace `"@ + namespace + "` is not owned by UID "@ + decimal(uid as nat)
            + "; expected prefix `"@ + owner_prefix(uid) + "`"@,
        Some(1) => "namespace `"@ + namespace + "` has no logical name after the UID prefix"@,
        _ => "namespace cannot contain NUL bytes"@,
    }
}

/// Validate that `namespace` belongs to the caller identified by `caller_uid`.
///
/// The namespace must start with `u<caller_uid>-`.
pub fn validate_namespace_ownership(namespace: &str, caller_uid: u32) -> (r: Result<(), OwnershipError>)
    ensures
        match ownership_problem(namespace@, caller_uid) {
            None => r is Ok,
            Some(0) => (r matches Err(OwnershipError::WrongPrefix { namespace: n, uid: u }) && n@
                == namespace@ && u == caller_uid),
            Some(1) => (r matches Err(OwnershipError::NoLogicalName { namespace: n }) && n@
                == namespace@),
            Some(_) => r == Err::<(), OwnershipError>(OwnershipError::ContainsNul),
        },
{
    let prefix = owner_prefix_text(caller_uid);
    if !str_starts_with(namespace, prefix.as_str()) {
        return Err(OwnershipError::WrongPrefix { namespace: to_owned(namespace), uid: caller_uid });
    }
    if crate::text::chars_of(namespace).len() <= crate::text::chars_of(prefix.as_str()).len() {
        return Err(OwnershipError::NoLogicalName { namespace: to_owned(namespace) });
    }
    if contains_char(namespace, '\0') {
        return Err(OwnershipError::ContainsNul);
    }
    Ok(())
}

/// The number of runtime directory names that belong to UID `uid`'s
/// namespaces (`journal.u<uid>-...`).
pub open spec fn namespace_dir_count(names: Seq<Seq<char>>, uid: u32) -> nat
    decreases names.len(),
{
    if names.len() == 0 {
        0
    } else {
        namespace_dir_count(names.drop_last(), uid) + if crate::text::starts_with(
            names.last(),
            "journal."@ + owner_prefix(uid),
        ) {
            1nat
        } else {
            0nat
        }
    }
}

/// Counts the runtime directory names (as listed under `/run/systemd`) that
/// belong to UID `uid`'s namespaces.
pub fn count_namespace_dirs(names: &Vec<String>, uid: u32) -> (r: usize)
    ensures
        r == namespace_dir_count(views(names@), uid),
{
    let owner = owner_prefix_text(uid);
    let prefix = crate::text::concat2("journal.", owner.as_str());
    let ghost s = views(names@);
    let mut count: usize = 0;
    let mut i: usize = 0;
    assert(s.take(0) =~= Seq::<Seq<char>>::empty());
    while i < names.len()
        invariant
            0 <= i <= names.len(),
            s == views(names@),
            prefix@ == "journal."@ + owner_prefix(uid),
            count == namespace_dir_count(s.take(i as int), uid),
            count <= i,
        decreases names.len() - i,
    {
        assert(s.take(i + 1).drop_last() =~= s.take(i as int));
        assert(s.take(i + 1).last() == names@[i as int]@);
        if str_starts_with(names[i].as_str(), prefix.as_str()) {
            count = count + 1;
        }
        i = i + 1;
    }
    assert(s.take(names.len() as int) =~= s);
    count
}

/// A size re-expressed in the largest unit that divides it.
pub open spec fn render_size(c: nat) -> Seq<char> {
    if c % (1024 * 1024 * 1024) == 0 {
        decimal(c / (1024 * 1024 * 1024)) + "G"@
    } else if c % (1024 * 1024) == 0 {
        decimal(c / (1024 * 1024)) + "M"@
    } else if c % 1024 == 0 {
        decimal(c / 1024) + "K"@
    } else {
        decimal(c)
    }
}

/// A size such as `256M`, `1G` or `1048576` in bytes, capped at `max`, in
/// its largest unit; `None` when it does not parse, overflows or is zero.
pub open spec fn clamped_size(value: Seq<char>, max: nat) -> Option<Seq<char>> {
    if value.len() == 0 {
        None
    } else {
        match size_number(value) {
            None => None,
            Some(n) => {
                let bytes = n * size_multiplier(ascii_upper(value));
                if bytes > u64::MAX || bytes == 0 {
                    None
                } else {
                    Some(render_size(if bytes <= max { bytes } else { max }))
                }
            },
        }
    }
}

/// Parses a size, caps it at `max_bytes` and writes it back in its largest
/// unit.
pub fn parse_and_clamp_size(value: &str, max_bytes: u64) -> (r: Option<String>)
    ensures
        crate::journal_validation::opt_string_view(r) == clamped_size(value@, max_bytes as nat),
{
    if crate::text::chars_of(value).len() == 0 {
        return None;
    }
    let (number, multiplier) = split_size(value);
    let number = match number {
        Some(n) => n,
        None => {
            return None;
        },
    };
    let bytes = match number.checked_mul(multiplier) {
        Some(b) => b,
        None => {
            return None;
        },
    };
    if bytes == 0 {
        return None;
    }
    let clamped = if bytes <= max_bytes {
        bytes
    } else {
        max_bytes
    };
    let g: u64 = 1024 * 1024 * 1024;
    let m: u64 = 1024 * 1024;
    if clamped % g == 0 {
        let s = u64_to_string(clamped / g);
        Some(crate::text::concat2(s.as_str(), "G"))
    } else if clamped % m == 0 {
        let s = u64_to_string(clamped / m);
        Some(crate::text::concat2(s.as_str(), "M"))
    } else if clamped % 1024 == 0 {
        let s = u64_to_string(clamped / 1024);
        Some(crate::text::concat2(s.as_str(), "K"))
    } else {
        Some(u64_to_string(clamped))
    }
}

/// The drop-in settings a client's options give: each recognized option
/// that parses replaces its default, capped to the policy limits.
pub open spec fn clamped_options(opts: Map<Seq<char>, Seq<char>>) -> (Seq<char>, u64, u32) {
    let max_use = if opts.contains_key("max_use"@) {
        match clamped_size(trim(opts["max_use"@]), MAX_SYSTEM_MAX_USE_BYTES as nat) {
            Some(s) => s,
            None => DEFAULT_SYSTEM_MAX_USE@,
        }
    } else {
        DEFAULT_SYSTEM_MAX_USE@
    };
    let interval = if opts.contains_key("rate_limit_interval_usec"@) {
        match parse_unsigned(trim(opts["rate_limit_interval_usec"@]), u64::MAX as nat) {
            Some(n) => if n < MIN_RATE_LIMIT_INTERVAL_USEC {
                MIN_RATE_LIMIT_INTERVAL_USEC
            } else if n > MAX_RATE_LIMIT_INTERVAL_USEC {
                MAX_RATE_LIMIT_INTERVAL_USEC
            } else {
                n as u64
            },
            None => DEFAULT_RATE_LIMIT_INTERVAL_USEC,
        }
    } else {
        DEFAULT_RATE_LIMIT_INTERVAL_USEC
    };
    let burst = if opts.contains_key("rate_limit_burst"@) {
        match parse_unsigned(trim(opts["rate_limit_burst"@]), u32::MAX as nat) {
            Some(n) => if n == 0 {
                DEFAULT_RATE_LIMIT_BURST
            } else if n > MAX_RATE_LIMIT_BURST {
                MAX_RATE_LIMIT_BURST
            } else {
                n as u32
            },
            None => DEFAULT_RATE_LIMIT_BURST,
        }
    } else {
        DEFAULT_RATE_LIMIT_BURST
    };
    (max_use, interval, burst)
}

/// Parse and clamp client-supplied options into a safe [`JournalDropInConfig`].
pub fn clamp_journal_options(options: &StringMap) -> (r: JournalDropInConfig)
    ensures
        (r.system_max_use@, r.rate_limit_interval_usec, r.rate_limit_burst) == clamped_options(
            options@,
        ),
{
    let mut config = JournalDropInConfig::default();
    if let Some(max_use) = options.get("max_use") {
        let t = trim_str(max_use.as_str());
        if let Some(clamped) = parse_and_clamp_size(t.as_str(), MAX_SYSTEM_MAX_USE_BYTES) {
            config.system_max_use = clamped;
        }
    }
    if let Some(interval) = options.get("rate_limit_interval_usec") {
        let t = trim_str(interval.as_str());
        if let Some(value) = parse_u64(t.as_str()) {
            config.rate_limit_interval_usec = if value < MIN_RATE_LIMIT_INTERVAL_USEC {
                MIN_RATE_LIMIT_INTERVAL_USEC
            } else if value > MAX_RATE_LIMIT_INTERVAL_USEC {
                MAX_RATE_LIMIT_INTERVAL_USEC
            } else {
                value
            };
        }
    }
    if let Some(burst) = options.get("rate_limit_burst") {
        let t = trim_str(burst.as_str());
        if let Some(value) = parse_u32(t.as_str()) {
            if value > 0 {
                config.rate_limit_burst = if value > MAX_RATE_LIMIT_BURST {
                    MAX_RATE_LIMIT_BURST
                } else {
                    value
                };
            }
        }
    }
    config
}

} // verus!
