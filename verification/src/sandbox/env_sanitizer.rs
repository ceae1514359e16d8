//! The environment of sandboxed child processes: only variables that are
//! known to be safe are passed on.

use vstd::prelude::*;
use crate::text;

verus! {

/// A variable and its value.
#[derive(Clone, Debug)]
pub struct EnvVar {
    pub key: String,
    pub value: String,
}

/// What the variables of a list hold.
pub open spec fn vars_view(v: Seq<EnvVar>) -> Seq<(Seq<char>, Seq<char>)> {
    v.map_values(|e: EnvVar| (e.key@, e.value@))
}

/// The variables that are safe to pass to a child process.
pub open spec fn safe_keys() -> Seq<Seq<char>> {
    seq![
        "PATH"@,
        "HOME"@,
        "USER"@,
        "USERNAME"@,
        "TEMP"@,
        "TMP"@,
        "TMPDIR"@,
        "SHELL"@,
        "LANG"@,
        "LC_ALL"@,
        "SYSTEMROOT"@,
        "SYSTEMDRIVE"@,
        "WINDIR"@,
        "COMSPEC"@,
        "PATHEXT"@,
        "PROGRAMFILES"@,
        "PROGRAMFILES(X86)"@,
        "PROGRAMDATA"@,
        "APPDATA"@,
        "LOCALAPPDATA"@,
        "USERPROFILE"@,
        "HOMEDRIVE"@,
        "HOMEPATH"@,
        "CARGO_HOME"@,
        "RUSTUP_HOME"@,
        "RUSTC_WRAPPER"@,
        "NPM_CONFIG_USERCONFIG"@,
        "NODE_PATH"@,
        "PYTHONPATH"@,
        "GOPATH"@,
        "JAVA_HOME"@,
        "TERM"@,
        "COLORTERM"@,
        "NO_COLOR"@,
        "CLICOLOR"@,
        "FORCE_COLOR"@,
        "CI"@,
        "GITHUB_ACTIONS"@,
        "PKG_CONFIG_PATH"@,
    ]
}

/// The names of the variables that are safe to pass to a child process.
pub fn safe_key_names() -> (r: Vec<&'static str>)
    ensures
        r@.map_values(|s: &'static str| s@) == safe_keys(),
{
    let r: Vec<&'static str> = vec![
        "PATH",
        "HOME",
        "USER",
        "USERNAME",
        "TEMP",
        "TMP",
        "TMPDIR",
        "SHELL",
        "LANG",
        "LC_ALL",
        "SYSTEMROOT",
        "SYSTEMDRIVE",
        "WINDIR",
        "COMSPEC",
        "PATHEXT",
        "PROGRAMFILES",
        "PROGRAMFILES(X86)",
        "PROGRAMDATA",
        "APPDATA",
        "LOCALAPPDATA",
        "USERPROFILE",
        "HOMEDRIVE",
        "HOMEPATH",
        "CARGO_HOME",
        "RUSTUP_HOME",
        "RUSTC_WRAPPER",
        "NPM_CONFIG_USERCONFIG",
        "NODE_PATH",
        "PYTHONPATH",
        "GOPATH",
        "JAVA_HOME",
        "TERM",
        "COLORTERM",
        "NO_COLOR",
        "CLICOLOR",
        "FORCE_COLOR",
        "CI",
        "GITHUB_ACTIONS",
        "PKG_CONFIG_PATH",
    ];
    assert(r@.map_values(|s: &'static str| s@) =~= safe_keys());
    r
}

/// Whether two names are those of one variable. On Windows the case of
/// letters does not count.
pub open spec fn same_name(a: Seq<char>, b: Seq<char>, windows: bool) -> bool {
    if windows {
        a.len() == b.len() && forall|i: int|
            0 <= i < a.len() ==> text::ascii_lower(#[trigger] a[i]) == text::ascii_lower(b[i])
    } else {
        a == b
    }
}

fn is_same_name(a: &str, b: &str, windows: bool) -> (r: bool)
    ensures
        r == same_name(a@, b@, windows),
{
    if !windows {
        return text::same_text(a, b);
    }
    let x = text::chars_of(a);
    let y = text::chars_of(b);
    if x.len() != y.len() {
        return false;
    }
    let mut i: usize = 0;
    while i < x.len()
        invariant
            i <= x@.len(),
            x@.len() == y@.len(),
            x@ == a@,
            y@ == b@,
            forall|k: int|
                0 <= k < i ==> text::ascii_lower(#[trigger] a@[k]) == text::ascii_lower(b@[k]),
        decreases x@.len() - i,
    {
        assert(x@[i as int] == a@[i as int]);
        if text::to_ascii_lower(x[i]) != text::to_ascii_lower(y[i]) {
            return false;
        }
        i = i + 1;
    }
    true
}

/// The first of `names` that is the variable `key`, or `None`.
pub open spec fn name_among(names: Seq<Seq<char>>, key: Seq<char>, windows: bool) -> Option<
    Seq<char>,
>
    decreases names.len(),
{
    if names.len() == 0 {
        None
    } else if same_name(names[0], key, windows) {
        Some(names[0])
    } else {
        name_among(names.skip(1), key, windows)
    }
}

/// The name under which the variable `key` is passed on; `None` where it is
/// not safe to.
pub open spec fn safe_name(key: Seq<char>, windows: bool) -> Option<Seq<char>> {
    name_among(safe_keys(), key, windows)
}

/// The name under which the variable `key` is passed on; `None` where it is
/// not safe to.
pub fn safe_name_of(key: &str, windows: bool) -> (r: Option<&'static str>)
    ensures
        match r {
            Some(name) => safe_name(key@, windows) == Some(name@),
            None => safe_name(key@, windows) is None,
        },
{
    let names = safe_key_names();
    let ghost all = names@.map_values(|s: &'static str| s@);
    let mut i: usize = 0;
    assert(all.skip(0) =~= all);
    while i < names.len()
        invariant
            i <= names@.len(),
            all == names@.map_values(|s: &'static str| s@),
            all == safe_keys(),
            name_among(all.skip(i as int), key@, windows) == safe_name(key@, windows),
        decreases names@.len() - i,
    {
        assert(all.skip(i as int)[0] == names@[i as int]@);
        assert(all.skip(i as int).skip(1) =~= all.skip(i + 1));
        if is_same_name(names[i], key, windows) {
            return Some(names[i]);
        }
        i = i + 1;
    }
    None
}

/// Whether the variable `key` is safe to pass on.
pub fn is_safe_key(key: &str, windows: bool) -> (r: bool)
    ensures
        r == (safe_name(key@, windows) is Some),
{
    safe_name_of(key, windows).is_some()
}

/// What separates the directories of `PATH`.
pub open spec fn separator(windows: bool) -> Seq<char> {
    if windows {
        ";"@
    } else {
        ":"@
    }
}

/// The safe variables of an environment, in order; of `PATH` the value is
/// put behind the workspace's own directory, where it has one.
pub open spec fn passed_on(
    vars: Seq<(Seq<char>, Seq<char>)>,
    bin: Option<Seq<char>>,
    windows: bool,
) -> Seq<(Seq<char>, Seq<char>)>
    decreases vars.len(),
{
    if vars.len() == 0 {
        Seq::empty()
    } else {
        let rest = passed_on(vars.drop_last(), bin, windows);
        let (key, value) = vars.last();
        match safe_name(key, windows) {
            Some(name) => if name == "PATH"@ && bin is Some {
                rest.push((name, bin->0 + separator(windows) + value))
            } else {
                rest.push((name, value))
            },
            None => rest,
        }
    }
}

/// Whether an environment has a `PATH`.
pub open spec fn has_path(vars: Seq<(Seq<char>, Seq<char>)>, windows: bool) -> bool {
    exists|i: int|
        0 <= i < vars.len() && safe_name((#[trigger] vars[i]).0, windows) == Some("PATH"@)
}

/// The environment of a child process: the safe variables, and a `PATH` with
/// the workspace's directory in front.
pub open spec fn child_env(
    vars: Seq<(Seq<char>, Seq<char>)>,
    bin: Option<Seq<char>>,
    windows: bool,
) -> Seq<(Seq<char>, Seq<char>)> {
    let kept = passed_on(vars, bin, windows);
    match bin {
        Some(b) => if has_path(vars, windows) {
            kept
        } else {
            kept.push(("PATH"@, b))
        },
        None => kept,
    }
}

fn push_var(v: &mut Vec<EnvVar>, key: String, value: String)
    ensures
        vars_view(final(v)@) == vars_view(old(v)@).push((key@, value@)),
{
    let ghost before = vars_view(v@);
    v.push(EnvVar { key, value });
    assert(vars_view(v@) =~= before.push((key@, value@)));
}

fn copy_vars(vars: &Vec<EnvVar>) -> (r: Vec<EnvVar>)
    ensures
        vars_view(r@) == vars_view(vars@),
{
    let ghost all = vars_view(vars@);
    let mut r: Vec<EnvVar> = Vec::new();
    let mut i: usize = 0;
    assert(vars_view(r@) =~= all.take(0));
    while i < vars.len()
        invariant
            i <= vars@.len(),
            all == vars_view(vars@),
            vars_view(r@) == all.take(i as int),
        decreases vars@.len() - i,
    {
        assert(all[i as int] == (vars@[i as int].key@, vars@[i as int].value@));
        push_var(&mut r, vars[i].key.clone(), vars[i].value.clone());
        i = i + 1;
        assert(vars_view(r@) =~= all.take(i as int));
    }
    assert(all.take(i as int) =~= all);
    r
}

/// The environment for a child process, out of the variables `vars` of this
/// one. `workspace_bin` is the workspace's `bin` directory where it is one,
/// and `windows` says whether this is Windows. Where it is not `enabled`, the
/// variables stay as they are.
pub fn sanitize(
    vars: &Vec<EnvVar>,
    workspace_bin: &Option<String>,
    windows: bool,
    enabled: bool,
) -> (r: Vec<EnvVar>)
    ensures
        vars_view(r@) == if enabled {
            child_env(vars_view(vars@), text::opt_text(*workspace_bin), windows)
        } else {
            vars_view(vars@)
        },
{
    if enabled {
        safe_env(vars, workspace_bin, windows)
    } else {
        copy_vars(vars)
    }
}

fn safe_env(vars: &Vec<EnvVar>, workspace_bin: &Option<String>, windows: bool) -> (r: Vec<EnvVar>)
    ensures
        vars_view(r@) == child_env(vars_view(vars@), text::opt_text(*workspace_bin), windows),
{
    let ghost all = vars_view(vars@);
    let ghost bin = text::opt_text(*workspace_bin);
    let between = if windows {
        ";"
    } else {
        ":"
    };
    let mut r: Vec<EnvVar> = Vec::new();
    let mut found = false;
    let mut i: usize = 0;
    assert(vars_view(r@) =~= passed_on(all.take(0), bin, windows));
    while i < vars.len()
        invariant
            i <= vars@.len(),
            all == vars_view(vars@),
            bin == text::opt_text(*workspace_bin),
            between@ == separator(windows),
            vars_view(r@) == passed_on(all.take(i as int), bin, windows),
            found == exists|k: int|
                0 <= k < i && safe_name((#[trigger] all[k]).0, windows) == Some("PATH"@),
        decreases vars@.len() - i,
    {
        assert(all.take(i + 1).drop_last() =~= all.take(i as int));
        assert(all.take(i + 1).last() == (vars@[i as int].key@, vars@[i as int].value@));
        assert(all[i as int] == (vars@[i as int].key@, vars@[i as int].value@));
        match safe_name_of(vars[i].key.as_str(), windows) {
            Some(name) => {
                let is_path = text::same_text(name, "PATH");
                if is_path {
                    found = true;
                }
                match workspace_bin {
                    Some(b) => {
                        if is_path {
                            let value = text::cat3(b.as_str(), between, vars[i].value.as_str());
                            push_var(&mut r, name.to_owned(), value);
                        } else {
                            push_var(&mut r, name.to_owned(), vars[i].value.clone());
                        }
                    },
                    None => {
                        push_var(&mut r, name.to_owned(), vars[i].value.clone());
                    },
                }
            },
            None => {},
        }
        i = i + 1;
    }
    assert(all.take(i as int) =~= all);
    match workspace_bin {
        Some(b) => {
            if !found {
                push_var(&mut r, "PATH".to_owned(), b.clone());
            }
        },
        None => {},
    }
    r
}

proof fn lemma_name_among(names: Seq<Seq<char>>, key: Seq<char>, windows: bool)
    ensures
        name_among(names, key, windows) matches Some(name) ==> names.contains(name) && same_name(
            name,
            key,
            windows,
        ),
    decreases names.len(),
{
    if names.len() > 0 {
        assert(names.contains(names[0]));
        let rest = names.skip(1);
        lemma_name_among(rest, key, windows);
        if name_among(rest, key, windows) is Some {
            let i = choose|i: int| 0 <= i < rest.len() && rest[i] == name_among(
                rest,
                key,
                windows,
            )->0;
            assert(names[i + 1] == rest[i]);
        }
    }
}

proof fn lemma_passed_on_safe(
    vars: Seq<(Seq<char>, Seq<char>)>,
    bin: Option<Seq<char>>,
    windows: bool,
    i: int,
)
    requires
        0 <= i < passed_on(vars, bin, windows).len(),
    ensures
        safe_keys().contains(passed_on(vars, bin, windows)[i].0),
    decreases vars.len(),
{
    let rest = passed_on(vars.drop_last(), bin, windows);
    if i < rest.len() {
        lemma_passed_on_safe(vars.drop_last(), bin, windows, i);
    } else {
        lemma_name_among(safe_keys(), vars.last().0, windows);
    }
}

/// A child process gets no variable that is not known to be safe.
pub proof fn law_only_safe_variables(
    vars: Seq<(Seq<char>, Seq<char>)>,
    bin: Option<Seq<char>>,
    windows: bool,
    i: int,
)
    requires
        0 <= i < child_env(vars, bin, windows).len(),
    ensures
        safe_keys().contains(child_env(vars, bin, windows)[i].0),
{
    let kept = passed_on(vars, bin, windows);
    if i < kept.len() {
        lemma_passed_on_safe(vars, bin, windows, i);
    } else {
        assert(safe_keys()[0] == "PATH"@);
    }
}

} // verus!
