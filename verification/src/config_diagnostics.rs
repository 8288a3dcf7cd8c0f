//! Warnings about alias configurations: files with unexpected extensions,
//! targets that do not exist, and bash completion files that would shadow
//! the real completer. Looking at the file system stays with the caller,
//! which reports what it found.
use crate::alias_paths::{join_path, path_join};
use crate::manifest::Manifest;
use crate::parser::path_extension;
use crate::rhai_wiring::text_lines;
use crate::text::{
    ascii_lower, chars_of, concat2, concat3, contains_seq, split_on, split_str, starts_with,
    str_contains, str_eq, str_is_blank, str_starts_with, to_owned, trim, views,
};
use vstd::prelude::*;

verus! {

/// The number of components `Path::components` gives: the root, a leading
/// `.`, and every other segment that is neither empty nor `.`.
pub open spec fn normal_count(pieces: Seq<Seq<char>>) -> nat
    decreases pieces.len(),
{
    if pieces.len() == 0 {
        0
    } else {
        normal_count(pieces.drop_last()) + if pieces.last().len() > 0 && pieces.last() != "."@ {
            1nat
        } else {
            0nat
        }
    }
}

pub open spec fn component_count(path: Seq<char>) -> nat {
    let pieces = split_on(path, '/');
    normal_count(pieces) + if (path.len() > 0 && path[0] == '/') || pieces[0] == "."@ {
        1nat
    } else {
        0nat
    }
}

/// A path that names a place (absolute, or more than one component), as
/// opposed to a bare command name looked up on `PATH`.
pub open spec fn explicit_path(path: Seq<char>) -> bool {
    (path.len() > 0 && path[0] == '/') || component_count(path) > 1
}

pub fn path_is_explicit(path: &str) -> (r: bool)
    ensures
        r == explicit_path(path@),
{
    let v = chars_of(path);
    if v.len() > 0 && v[0] == '/' {
        return true;
    }
    let parts = split_str(path, '/');
    let ghost p = split_on(path@, '/');
    assert(views(parts@) =~= p);
    proof {
        crate::text::lemma_split_nonempty(path@, '/', '/');
    }
    let dot_start = str_eq(parts[0].as_str(), ".");
    let mut count: usize = 0;
    let mut i: usize = 0;
    assert(p.take(0) =~= Seq::<Seq<char>>::empty());
    while i < parts.len()
        invariant
            0 <= i <= parts.len(),
            views(parts@) == p,
            count == normal_count(p.take(i as int)),
            count <= i,
        decreases parts.len() - i,
    {
        assert(p.take(i + 1).drop_last() =~= p.take(i as int));
        assert(p.take(i + 1).last() == parts@[i as int]@);
        if chars_of(parts[i].as_str()).len() > 0 && !str_eq(parts[i].as_str(), ".") {
            count = count + 1;
        }
        i = i + 1;
    }
    assert(p.take(parts.len() as int) =~= p);
    count > 1 || (count == 1 && dot_start)
}

/// What the caller found out about the files a manifest names.
#[derive(Debug, Clone, PartialEq, Eq)]
pub struct TargetProbe {
    /// The command path exists.
    pub exec_exists: bool,
    /// The reconcile script exists.
    pub reconcile_script_exists: bool,
    /// The bash completion script exists.
    pub bashcomp_script_exists: bool,
    /// The completion Rhai script's methods, when it exists.
    pub rhai_script: RhaiScriptProbe,
}

#[derive(Debug, Clone, PartialEq, Eq)]
pub enum RhaiScriptProbe {
    /// The script does not exist.
    Missing,
    /// The script exists and declares these methods.
    Methods(Vec<String>),
    /// The script exists but could not be read; the reason.
    Unreadable(String),
}

/// The warnings about targets a manifest names that do not exist.
pub open spec fn missing_target_warnings(m: Manifest, p: TargetProbe) -> Seq<Seq<char>> {
    let w0 = if explicit_path(m.executable@) && !p.exec_exists {
        seq!["exec target does not exist: "@ + m.executable@]
    } else {
        Seq::empty()
    };
    let w1 = match m.reconcile {
        Some(r) => if !p.reconcile_script_exists {
            seq!["reconcile script does not exist: "@ + r.script@]
        } else {
            Seq::empty()
        },
        None => Seq::empty(),
    };
    let w2 = match m.bashcomp {
        Some(b) => (match b.script {
            Some(s) => if !p.bashcomp_script_exists {
                seq!["bash completion script does not exist: "@ + s@]
            } else {
                Seq::empty()
            },
            None => Seq::empty(),
        }) + (match b.rhai_script {
            Some(rs) => match p.rhai_script {
                RhaiScriptProbe::Missing => seq![
                    "bash completion Rhai script does not exist: "@ + rs@,
                ],
                RhaiScriptProbe::Methods(methods) => match b.rhai_function {
                    Some(f) => if views(methods@).contains(f@) {
                        Seq::empty()
                    } else {
                        seq![
                            "bash completion Rhai function `"@ + f@ + "` does not exist in "@
                                + rs@,
                        ]
                    },
                    None => Seq::empty(),
                },
                RhaiScriptProbe::Unreadable(e) => match b.rhai_function {
                    Some(_) => seq![
                        "bash completion Rhai script could not be inspected: "@ + rs@ + ": "@
                            + e@,
                    ],
                    None => Seq::empty(),
                },
            },
            None => Seq::empty(),
        }),
        None => Seq::empty(),
    };
    w0 + w1 + w2
}

fn strings_contain_slice(v: &Vec<String>, x: &str) -> (r: bool)
    ensures
        r == views(v@).contains(x@),
{
    crate::text::strings_contain(v, x)
}

/// Warnings for the files a manifest names that are missing; a bare command
/// name is not checked (it is looked up on `PATH`).
pub fn manifest_missing_target_warnings(manifest: &Manifest, probe: &TargetProbe) -> (r: Vec<String>)
    ensures
        views(r@) == missing_target_warnings(*manifest, *probe),
{
    let mut warnings: Vec<String> = Vec::new();
    if path_is_explicit(manifest.executable.as_str()) && !probe.exec_exists {
        warnings.push(concat2("exec target does not exist: ", manifest.executable.as_str()));
    }
    if let Some(reconcile) = &manifest.reconcile {
        if !probe.reconcile_script_exists {
            warnings.push(concat2("reconcile script does not exist: ", reconcile.script.as_str()));
        }
    }
    if let Some(bashcomp) = &manifest.bashcomp {
        if let Some(script) = &bashcomp.script {
            if !probe.bashcomp_script_exists {
                warnings.push(concat2("bash completion script does not exist: ", script.as_str()));
            }
        }
        if let Some(rhai_script) = &bashcomp.rhai_script {
            match &probe.rhai_script {
                RhaiScriptProbe::Missing => {
                    warnings.push(
                        concat2("bash completion Rhai script does not exist: ", rhai_script.as_str()),
                    );
                },
                RhaiScriptProbe::Methods(methods) => {
                    if let Some(function) = &bashcomp.rhai_function {
                        if !strings_contain_slice(methods, function.as_str()) {
                            let mut w = concat3(
                                "bash completion Rhai function `",
                                function.as_str(),
                                "` does not exist in ",
                            );
                            w.append(rhai_script.as_str());
                            warnings.push(w);
                        }
                    }
                },
                RhaiScriptProbe::Unreadable(e) => {
                    if bashcomp.rhai_function.is_some() {
                        let mut w = concat3(
                            "bash completion Rhai script could not be inspected: ",
                            rhai_script.as_str(),
                            ": ",
                        );
                        w.append(e.as_str());
                        warnings.push(w);
                    }
                },
            }
        }
    }
    assert(views(warnings@) =~= missing_target_warnings(*manifest, *probe));
    warnings
}

// ---------------------------------------------------------------------------
// Bash completion files
// ---------------------------------------------------------------------------

/// The files bash-completion would load for `alias` from `dir`.
pub open spec fn completion_candidates(dir: Seq<char>, alias: Seq<char>) -> Seq<Seq<char>> {
    seq![path_join(dir, alias), path_join(dir, alias + ".bash"@), path_join(dir, "_"@ + alias)]
}

pub fn bash_completion_candidates(dir: &str, alias: &str) -> (r: Vec<String>)
    ensures
        views(r@) == completion_candidates(dir@, alias@),
{
    let mut r: Vec<String> = Vec::new();
    r.push(join_path(dir, alias));
    let bash = concat2(alias, ".bash");
    r.push(join_path(dir, bash.as_str()));
    let underscore = concat2("_", alias);
    r.push(join_path(dir, underscore.as_str()));
    assert(views(r@) =~= completion_candidates(dir@, alias@));
    r
}

/// Where bash-completion looks for completers: the user directories (from
/// `BASH_COMPLETION_USER_DIR`, else `XDG_DATA_HOME`, else `HOME`), the
/// system data directories (`XDG_DATA_DIRS`), then the fixed system ones.
pub open spec fn completion_dirs(
    user_dirs: Option<Seq<Seq<char>>>,
    xdg_data_home: Option<Seq<char>>,
    home: Option<Seq<char>>,
    xdg_data_dirs: Option<Seq<Seq<char>>>,
) -> Seq<Seq<char>> {
    let user = match user_dirs {
        Some(ds) => ds.map_values(|d: Seq<char>| path_join(d, "completions"@)),
        None => match xdg_data_home {
            Some(x) => seq![path_join(x, "bash-completion/completions"@)],
            None => match home {
                Some(h) => seq![path_join(h, ".local/share/bash-completion/completions"@)],
                None => Seq::empty(),
            },
        },
    };
    let system = match xdg_data_dirs {
        Some(ds) => ds.map_values(|d: Seq<char>| path_join(d, "bash-completion/completions"@)),
        None => Seq::empty(),
    };
    user + system + seq![
        "/usr/local/share/bash-completion/completions"@,
        "/usr/share/bash-completion/completions"@,
        "/etc/bash_completion.d"@,
    ]
}

fn join_each(dirs: &Vec<String>, suffix: &str, out: &mut Vec<String>)
    ensures
        views(final(out)@) == views(old(out)@) + views(dirs@).map_values(
            |d: Seq<char>| path_join(d, suffix@),
        ),
{
    let ghost start = views(out@);
    let mut i: usize = 0;
    while i < dirs.len()
        invariant
            0 <= i <= dirs.len(),
            views(out@) == start + views(dirs@).take(i as int).map_values(
                |d: Seq<char>| path_join(d, suffix@),
            ),
        decreases dirs.len() - i,
    {
        let ghost before = views(out@);
        out.push(join_path(dirs[i].as_str(), suffix));
        assert(views(out@) =~= before.push(path_join(dirs@[i as int]@, suffix@)));
        assert(views(dirs@).take(i + 1).map_values(|d: Seq<char>| path_join(d, suffix@)) =~= views(
            dirs@,
        ).take(i as int).map_values(|d: Seq<char>| path_join(d, suffix@)).push(
            path_join(dirs@[i as int]@, suffix@),
        ));
        i = i + 1;
    }
    assert(views(dirs@).take(dirs.len() as int) =~= views(dirs@));
}

fn opt_strings_view(o: &Option<Vec<String>>) -> (r: bool)
    ensures
        r == o is Some,
{
    o.is_some()
}

pub fn bash_completion_dirs(
    user_dirs: &Option<Vec<String>>,
    xdg_data_home: Option<&str>,
    home: Option<&str>,
    xdg_data_dirs: &Option<Vec<String>>,
) -> (r: Vec<String>)
    ensures
        views(r@) == completion_dirs(
            match *user_dirs {
                Some(d) => Some(views(d@)),
                None => None,
            },
            crate::journal_validation::opt_view(xdg_data_home),
            crate::journal_validation::opt_view(home),
            match *xdg_data_dirs {
                Some(d) => Some(views(d@)),
                None => None,
            },
        ),
{
    let mut dirs: Vec<String> = Vec::new();
    assert(views(dirs@) =~= Seq::<Seq<char>>::empty());
    if let Some(ds) = user_dirs {
        join_each(ds, "completions", &mut dirs);
    } else if let Some(x) = xdg_data_home {
        dirs.push(join_path(x, "bash-completion/completions"));
    } else if let Some(h) = home {
        dirs.push(join_path(h, ".local/share/bash-completion/completions"));
    }
    let ghost user = views(dirs@);
    if let Some(ds) = xdg_data_dirs {
        join_each(ds, "bash-completion/completions", &mut dirs);
    }
    let ghost with_system = views(dirs@);
    dirs.push(to_owned("/usr/local/share/bash-completion/completions"));
    dirs.push(to_owned("/usr/share/bash-completion/completions"));
    dirs.push(to_owned("/etc/bash_completion.d"));
    assert(views(dirs@) =~= with_system + seq![
        "/usr/local/share/bash-completion/completions"@,
        "/usr/share/bash-completion/completions"@,
        "/etc/bash_completion.d"@,
    ]);
    dirs
}

/// The first line of a text, or nothing.
pub open spec fn first_line(content: Seq<char>) -> Seq<char> {
    if text_lines(content).len() > 0 {
        text_lines(content)[0]
    } else {
        Seq::empty()
    }
}

/// Why a completion file for `alias` at `path` (holding `content`) would
/// shadow the real completer, if it would.
pub open spec fn completion_file_problem(alias: Seq<char>, path: Seq<char>, content: Seq<char>) -> Option<
    Seq<char>,
> {
    if content.len() == 0 {
        Some(
            "bash completion file for alias `"@ + alias
                + "` is empty and may shadow the real completer: "@ + path,
        )
    } else if trim(content).len() == 0 {
        Some(
            "bash completion file for alias `"@ + alias
                + "` is whitespace-only and may shadow the real completer: "@ + path,
        )
    } else if starts_with(first_line(content), "# Auto-generated by chopper"@) {
        None
    } else if first_line(content) == "# Bash completion for chopper-managed aliases."@
        || contains_seq(content, "chopper --bashcomp"@) || contains_seq(
        content,
        "_chopper_complete"@,
    ) {
        Some(
            "bash completion file for alias `"@ + alias
                + "` appears to point back to chopper completion and may shadow the real completer: "@
                + path,
        )
    } else {
        None
    }
}

/// A warning for a completion file that would shadow the real completer:
/// empty, blank, or pointing back to chopper's own completion (files that
/// chopper generated itself are fine).
pub fn bash_completion_file_warning(alias: &str, path: &str, content: &str) -> (r: Option<String>)
    ensures
        crate::journal_validation::opt_string_view(r) == completion_file_problem(
            alias@,
            path@,
            content@,
        ),
{
    if chars_of(content).len() == 0 {
        let mut w = concat3(
            "bash completion file for alias `",
            alias,
            "` is empty and may shadow the real completer: ",
        );
        w.append(path);
        return Some(w);
    }
    if str_is_blank(content) {
        let mut w = concat3(
            "bash completion file for alias `",
            alias,
            "` is whitespace-only and may shadow the real completer: ",
        );
        w.append(path);
        return Some(w);
    }
    let lines = crate::rhai_wiring::source_lines(content);
    let first = if lines.len() > 0 {
        lines[0].clone()
    } else {
        String::new()
    };
    assert(first@ == first_line(content@));
    if str_starts_with(first.as_str(), "# Auto-generated by chopper") {
        return None;
    }
    if str_eq(first.as_str(), "# Bash completion for chopper-managed aliases.") || str_contains(
        content,
        "chopper --bashcomp",
    ) || str_contains(content, "_chopper_complete") {
        let mut w = concat3(
            "bash completion file for alias `",
            alias,
            "` appears to point back to chopper completion and may shadow the real completer: ",
        );
        w.append(path);
        return Some(w);
    }
    None
}

// ---------------------------------------------------------------------------
// File extensions
// ---------------------------------------------------------------------------

/// A configuration file is expected to be `.toml` or `.rhai` (any ASCII
/// case); files without an extension are not flagged.
pub open spec fn extension_problem(path: Seq<char>, file_name: Seq<char>) -> Option<Seq<char>> {
    match path_extension(file_name) {
        None => None,
        Some(e) => if ascii_lower(e) == "toml"@ || ascii_lower(e) == "rhai"@ {
            None
        } else {
            Some("suspicious config file extension (expected .toml/.rhai): "@ + path)
        },
    }
}

fn has_extension_ignoring_case(file_name: &str, ext: &str) -> (r: Option<bool>)
    ensures
        match path_extension(file_name@) {
            None => r is None,
            Some(e) => r == Some(ascii_lower(e) == ext@),
        },
{
    let f = crate::parser::file_extension(file_name);
    match f {
        None => None,
        Some(e) => {
            let lower = crate::text::string_from_chars(&crate::text::vec_ascii_lower(&chars_of(e.as_str())));
            Some(str_eq(lower.as_str(), ext))
        },
    }
}

/// The warning for a configuration file (at `path`, named `file_name`) with
/// an unexpected extension.
pub fn extension_warning(path: &str, file_name: &str) -> (r: Option<String>)
    ensures
        crate::journal_validation::opt_string_view(r) == extension_problem(path@, file_name@),
{
    match has_extension_ignoring_case(file_name, "toml") {
        None => None,
        Some(is_toml) => {
            let is_rhai = has_extension_ignoring_case(file_name, "rhai");
            if is_toml || is_rhai == Some(true) {
                None
            } else {
                Some(concat2("suspicious config file extension (expected .toml/.rhai): ", path))
            }
        },
    }
}

} // verus!
