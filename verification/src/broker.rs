//! The journal namespace broker: the policy it enforces, the journald
//! configuration it writes, what its D-Bus method decides, and its
//! command line.
pub mod dbus_interface;
pub mod options;
pub mod policy;
pub mod systemd;
