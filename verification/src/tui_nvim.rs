//! What the editor is started with: the completion dictionary of Rhai API
//! names, the Neovim bootstrap script, and the command-line arguments for
//! Neovim or Vim. Writing the files and starting the editor stay with the
//! caller.
use crate::sorted_strings::{strictly_sorted, SortedStrings};
use crate::text::{concat3, str_is_blank, to_owned, trim, trim_str, views};
use vstd::prelude::*;

verus! {

/// Each entry followed by a newline.
pub open spec fn lines_text(entries: Seq<Seq<char>>) -> Seq<char>
    decreases entries.len(),
{
    if entries.len() == 0 {
        Seq::empty()
    } else {
        lines_text(entries.drop_last()) + entries.last() + "\n"@
    }
}

/// The trimmed names that are not blank.
pub open spec fn dictionary_words(names: Seq<Seq<char>>) -> Set<Seq<char>> {
    Set::new(|w: Seq<char>| exists|i: int| 0 <= i < names.len() && trim(#[trigger] names[i]) == w && w.len() > 0)
}

pub open spec fn str_views(v: Seq<&str>) -> Seq<Seq<char>> {
    v.map_values(|s: &str| s@)
}

/// The completion dictionary: every API name trimmed, blank ones dropped,
/// each once, in ascending order, one per line.
pub fn build_completion_dictionary(api_names: &[&str]) -> (r: String)
    ensures
        exists|entries: Seq<Seq<char>>|
            strictly_sorted(entries) && entries.to_set() == dictionary_words(str_views(api_names@))
                && r@ == lines_text(entries),
{
    let ghost names = str_views(api_names@);
    let mut set = SortedStrings::new();
    let mut i: usize = 0;
    assert(set@.to_set() =~= Set::<Seq<char>>::empty());
    while i < api_names.len()
        invariant
            0 <= i <= api_names.len(),
            names == str_views(api_names@),
            set@.to_set() == Set::new(
                |w: Seq<char>| exists|j: int| 0 <= j < i && trim(#[trigger] names[j]) == w && w.len() > 0,
            ),
        decreases api_names.len() - i,
    {
        let ghost before = set@.to_set();
        let api = api_names[i];
        assert(api@ == names[i as int]);
        if !str_is_blank(api) {
            let t = trim_str(api);
            let ghost tv = t@;
            set.insert(t);
            assert(set@.to_set() =~= Set::new(
                |w: Seq<char>| exists|j: int| 0 <= j < i + 1 && trim(#[trigger] names[j]) == w && w.len() > 0,
            )) by {
                assert(trim(names[i as int]) == tv);
            }
        } else {
            assert(set@.to_set() =~= Set::new(
                |w: Seq<char>| exists|j: int| 0 <= j < i + 1 && trim(#[trigger] names[j]) == w && w.len() > 0,
            )) by {
                assert(trim(names[i as int]).len() == 0);
            }
        }
        i = i + 1;
    }
    assert(set@.to_set() =~= dictionary_words(names));
    let entries = set.to_vec();
    let ghost e = views(entries@);
    let mut out = String::new();
    let mut k: usize = 0;
    assert(e.take(0) =~= Seq::<Seq<char>>::empty());
    while k < entries.len()
        invariant
            0 <= k <= entries.len(),
            e == views(entries@),
            out@ == lines_text(e.take(k as int)),
        decreases entries.len() - k,
    {
        out.append(entries[k].as_str());
        out.append("\n");
        assert(e.take(k + 1).drop_last() =~= e.take(k as int));
        assert(e.take(k + 1).last() == entries@[k as int]@);
        k = k + 1;
    }
    assert(e.take(entries.len() as int) =~= e);
    out
}

pub open spec fn bootstrap_head() -> Seq<char> {
    "\nset nocompatible\nsyntax on\nfiletype plugin on\nset complete+=k"@
}

pub open spec fn bootstrap_tail() -> Seq<char> {
    "\nset completeopt=menu,menuone,noselect\n\n\" Best-effort treesitter setup if plugin is available.\nlua << EOF\npcall(function()\n  require('nvim-treesitter.configs').setup({\n    highlight = { enable = true },\n  })\nend)\nEOF\n"@
}

/// The Neovim start-up script: completion from the dictionary file and, if
/// the plugin is there, Tree-sitter highlighting.
pub fn build_nvim_bootstrap(dictionary_path: &str) -> (r: String)
    ensures
        r@ == bootstrap_head() + dictionary_path@ + bootstrap_tail(),
{
    concat3(
        "\nset nocompatible\nsyntax on\nfiletype plugin on\nset complete+=k",
        dictionary_path,
        "\nset completeopt=menu,menuone,noselect\n\n\" Best-effort treesitter setup if plugin is available.\nlua << EOF\npcall(function()\n  require('nvim-treesitter.configs').setup({\n    highlight = { enable = true },\n  })\nend)\nEOF\n",
    )
}

/// The editor search that jumps to `fn <method>(ctx)`.
pub open spec fn search_for_method(method: Seq<char>) -> Seq<char> {
    "/^\\s*fn\\s\\+"@ + trim(method) + "\\s*(\\s*ctx\\s*)"@
}

pub fn method_search_command(method_name: &str) -> (r: String)
    ensures
        r@ == search_for_method(method_name@),
{
    let t = trim_str(method_name);
    concat3("/^\\s*fn\\s\\+", t.as_str(), "\\s*(\\s*ctx\\s*)")
}

pub open spec fn opt_seq_of(o: Option<&str>) -> Seq<Seq<char>> {
    match o {
        Some(s) => seq![s@],
        None => Seq::empty(),
    }
}

/// Neovim's arguments: `-u <init>` with a bootstrap script, `+<search>`
/// with a search, then the file.
pub open spec fn nvim_arg_list(init_path: Option<&str>, search: Option<&str>, path: &str) -> Seq<Seq<char>> {
    (match init_path {
        Some(p) => seq!["-u"@, p@],
        None => Seq::empty(),
    }) + (match search {
        Some(s) => seq!["+"@ + s@],
        None => Seq::empty(),
    }) + seq![path@]
}

/// Vim's arguments: `-c "syntax on" -c "set complete+=k<dict>"` with a
/// dictionary, `-c <search>` with a search, then the file.
pub open spec fn vim_arg_list(dict_path: Option<&str>, search: Option<&str>, path: &str) -> Seq<Seq<char>> {
    (match dict_path {
        Some(d) => seq!["-c"@, "syntax on"@, "-c"@, "set complete+=k"@ + d@],
        None => Seq::empty(),
    }) + (match search {
        Some(s) => seq!["-c"@, s@],
        None => Seq::empty(),
    }) + seq![path@]
}

pub fn nvim_args(init_path: Option<&str>, search: Option<&str>, path: &str) -> (r: Vec<String>)
    ensures
        views(r@) == nvim_arg_list(init_path, search, path),
{
    let mut args: Vec<String> = Vec::new();
    if let Some(p) = init_path {
        args.push(to_owned("-u"));
        args.push(to_owned(p));
    }
    if let Some(s) = search {
        args.push(crate::text::concat2("+", s));
    }
    args.push(to_owned(path));
    assert(views(args@) =~= nvim_arg_list(init_path, search, path));
    args
}

pub fn vim_args(dict_path: Option<&str>, search: Option<&str>, path: &str) -> (r: Vec<String>)
    ensures
        views(r@) == vim_arg_list(dict_path, search, path),
{
    let mut args: Vec<String> = Vec::new();
    if let Some(d) = dict_path {
        args.push(to_owned("-c"));
        args.push(to_owned("syntax on"));
        args.push(to_owned("-c"));
        args.push(crate::text::concat2("set complete+=k", d));
    }
    if let Some(s) = search {
        args.push(to_owned("-c"));
        args.push(to_owned(s));
    }
    args.push(to_owned(path));
    assert(views(args@) =~= vim_arg_list(dict_path, search, path));
    args
}

} // verus!
