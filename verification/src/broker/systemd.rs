//! The journald configuration the broker writes and the units it starts.
use crate::broker::policy::JournalDropInConfig;
use crate::text::{concat2, concat3, decimal, u64_to_string};
use vstd::prelude::*;

verus! {

/// Base directory for journald namespace drop-in configs.
pub const JOURNALD_DROPIN_BASE: &'static str = "/run/systemd";

/// `RateLimitIntervalSec`: whole seconds as `<n>s`, otherwise `<n>us`.
pub open spec fn interval_text(usec: u64) -> Seq<char> {
    if usec % 1000000 == 0 {
        decimal((usec / 1000000) as nat) + "s"@
    } else {
        decimal(usec as nat) + "us"@
    }
}

/// The `[Journal]` drop-in for `c`.
pub open spec fn dropin_text(c: JournalDropInConfig) -> Seq<char> {
    "# Managed by chopper-journal-broker — do not edit\n[Journal]\nSystemMaxUse="@
        + c.system_max_use@ + "\nRateLimitIntervalSec="@ + interval_text(c.rate_limit_interval_usec)
        + "\nRateLimitBurst="@ + decimal(c.rate_limit_burst as nat) + "\n"@
}

/// Render the `[Journal]` drop-in content.
pub fn render_dropin_content(config: &JournalDropInConfig) -> (r: String)
    ensures
        r@ == dropin_text(*config),
{
    let usec = config.rate_limit_interval_usec;
    let interval = if usec % 1000000 == 0 {
        let s = u64_to_string(usec / 1000000);
        concat2(s.as_str(), "s")
    } else {
        let s = u64_to_string(usec);
        concat2(s.as_str(), "us")
    };
    let burst = u64_to_string(config.rate_limit_burst as u64);
    let mut r = concat3(
        "# Managed by chopper-journal-broker — do not edit\n[Journal]\nSystemMaxUse=",
        config.system_max_use.as_str(),
        "\nRateLimitIntervalSec=",
    );
    r.append(interval.as_str());
    r.append("\nRateLimitBurst=");
    r.append(burst.as_str());
    r.append("\n");
    r
}

/// `/run/systemd/journald@<namespace>.conf.d`
pub open spec fn dropin_dir(namespace: Seq<char>) -> Seq<char> {
    "/run/systemd/journald@"@ + namespace + ".conf.d"@
}

/// Return the path to the drop-in directory for a journal namespace.
pub fn dropin_dir_path(namespace: &str) -> (r: String)
    ensures
        r@ == dropin_dir(namespace@),
{
    concat3("/run/systemd/journald@", namespace, ".conf.d")
}

/// The drop-in file and the temporary file it is written through.
pub fn dropin_file_paths(namespace: &str) -> (r: (String, String))
    ensures
        r.0@ == dropin_dir(namespace@) + "/chopper.conf"@,
        r.1@ == dropin_dir(namespace@) + "/.chopper.conf.tmp"@,
{
    let dir = dropin_dir_path(namespace);
    (concat2(dir.as_str(), "/chopper.conf"), concat2(dir.as_str(), "/.chopper.conf.tmp"))
}

/// `/run/systemd/journal.<namespace>`: present while the namespace runs.
pub fn namespace_runtime_dir(namespace: &str) -> (r: String)
    ensures
        r@ == "/run/systemd/journal."@ + namespace@,
{
    concat2("/run/systemd/journal.", namespace)
}

/// The socket units that serve a namespace.
pub fn namespace_socket_units(namespace: &str) -> (r: (String, String))
    ensures
        r.0@ == "systemd-journald@"@ + namespace@ + ".socket"@,
        r.1@ == "systemd-journald-varlink@"@ + namespace@ + ".socket"@,
{
    (
        concat3("systemd-journald@", namespace, ".socket"),
        concat3("systemd-journald-varlink@", namespace, ".socket"),
    )
}

} // verus!
