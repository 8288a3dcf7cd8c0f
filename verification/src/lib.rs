//! Library behind the `chopper` command alias launcher: alias configuration
//! model and validation, invocation assembly, PATH list editing, journal
//! namespace policy and the terminal UI state machine.
pub mod alias_admin;
pub mod alias_admin_validation;
pub mod alias_doc;
pub mod alias_paths;
pub mod alias_validation;
pub mod arg_validation;
pub mod broker;
pub mod cache;
pub mod cli;
pub mod completion;
pub mod config_diagnostics;
pub mod env_map;
pub mod env_util;
pub mod env_validation;
pub mod exe_runtime;
pub mod exec_resolution;
pub mod executor;
pub mod journal_broker_client;
pub mod journal_validation;
pub mod manifest;
pub mod parser;
pub mod path_mutation;
pub mod path_mutation_validation;
pub mod path_validation;
pub mod reconcile;
pub mod rhai_engine;
pub mod rhai_facade_validation;
pub mod rhai_wiring;
pub mod script_requests;
pub mod shell_text;
pub mod sorted_strings;
pub mod string_validation;
pub mod text;
pub mod tui_nvim;
pub mod tui_state;
pub mod wrapper_sync;

use vstd::prelude::*;

verus! {

/// The configuration directory: a non-blank `CHOPPER_CONFIG_DIR` (trimmed),
/// else the platform's configuration directory for the program, else
/// `.chopper`.
pub open spec fn config_root(override_value: Option<Seq<char>>, project_dir: Option<Seq<char>>) -> Seq<char> {
    match env_util::path_override(override_value) {
        Some(p) => p,
        None => match project_dir {
            Some(d) => d,
            None => ".chopper"@,
        },
    }
}

pub fn config_dir(override_value: Option<&str>, project_dir: Option<&str>) -> (r: String)
    ensures
        r@ == config_root(
            journal_validation::opt_view(override_value),
            journal_validation::opt_view(project_dir),
        ),
{
    match env_util::path_override_value(override_value) {
        Some(p) => p,
        None => match project_dir {
            Some(d) => text::to_owned(d),
            None => text::to_owned(".chopper"),
        },
    }
}

/// The configuration file of alias `name` under `config_root`: the first
/// of its candidate paths that `present` marks as an existing file.
pub fn find_config(config_root: &str, name: &str, present: &Vec<bool>) -> (r: Option<String>)
    requires
        present@.len() == 3,
    ensures
        match r {
            Some(p) => exists|i: int|
                0 <= i < 3 && #[trigger] present@[i] && p@ == alias_paths::candidates(config_root@, name@)[i]
                    && forall|j: int| 0 <= j < i ==> !#[trigger] present@[j],
            None => forall|i: int| 0 <= i < 3 ==> !#[trigger] present@[i],
        },
{
    alias_paths::find_exec_config(config_root, name, present)
}

} // verus!
