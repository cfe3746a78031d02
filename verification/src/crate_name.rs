//! Crate name detection for generated code: which name a crate goes by in the
//! dependency tables of a manifest (renames, workspace dependencies, and the
//! crate itself), computed from the manifest's dependency entries.

use vstd::prelude::*;

verus! {

/// Errors of crate name detection; paths are given as text.
#[derive(Debug)]
pub enum Error {
    /// No `Cargo.toml` in the manifest directory.
    NotFound(String),
    /// `CARGO_MANIFEST_DIR` is not set.
    CargoManifestDirNotSet,
    /// The workspace manifest path could not be determined.
    FailedGettingWorkspaceManifestPath,
    /// A manifest could not be read.
    CouldNotRead { path: String, message: String },
    /// The crate is in no dependency table of the manifest.
    CrateNotFound { crate_name: String, path: String },
}

/// The message of an error.
pub open spec fn error_text(e: Error) -> Seq<char> {
    match e {
        Error::NotFound(path) => "Could not find `Cargo.toml` in manifest dir: `"@ + path@ + "`."@,
        Error::CargoManifestDirNotSet => "`CARGO_MANIFEST_DIR` env variable not set."@,
        Error::CouldNotRead { path, message } => "Could not read `"@ + path@ + "`: "@ + message@,
        Error::CrateNotFound { crate_name, path } => "Could not find `"@ + crate_name@
            + "` in `dependencies` or `dev-dependencies` in `"@ + path@ + "`!"@,
        Error::FailedGettingWorkspaceManifestPath =>
            "Failed to get the path of the workspace manifest path."@,
    }
}

impl Error {
    /// The error's message.
    pub fn to_string(&self) -> (r: String)
        ensures
            r@ == error_text(*self),
    {
        match self {
            Error::NotFound(path) => {
                let mut s = String::from_str("Could not find `Cargo.toml` in manifest dir: `");
                s.append(path.as_str());
                s.append("`.");
                s
            },
            Error::CargoManifestDirNotSet => String::from_str(
                "`CARGO_MANIFEST_DIR` env variable not set.",
            ),
            Error::CouldNotRead { path, message } => {
                let mut s = String::from_str("Could not read `");
                s.append(path.as_str());
                s.append("`: ");
                s.append(message.as_str());
                s
            },
            Error::CrateNotFound { crate_name, path } => {
                let mut s = String::from_str("Could not find `");
                s.append(crate_name.as_str());
                s.append("` in `dependencies` or `dev-dependencies` in `");
                s.append(path.as_str());
                s.append("`!");
                s
            },
            Error::FailedGettingWorkspaceManifestPath => String::from_str(
                "Failed to get the path of the workspace manifest path.",
            ),
        }
    }
}

/// How a crate is named where it is used.
#[derive(Clone, Debug, PartialEq, Eq)]
pub enum FoundCrate {
    /// The searched crate is the crate being compiled.
    Itself,
    /// The searched crate goes by this name.
    Name(String),
}

/// A found crate as text: `None` for the crate itself.
pub open spec fn found_view(f: FoundCrate) -> Option<Seq<char>> {
    match f {
        FoundCrate::Itself => None,
        FoundCrate::Name(n) => Some(n@),
    }
}

/// `s` with every `from` replaced by `to`.
pub open spec fn replaced(s: Seq<char>, from: char, to: Seq<char>) -> Seq<char>
    decreases s.len(),
{
    if s.len() == 0 {
        Seq::empty()
    } else {
        replaced(s.drop_last(), from, to) + (if s.last() == from {
            to
        } else {
            seq![s.last()]
        })
    }
}

/// The crate name as a Rust identifier: every `-` becomes `_`.
pub fn sanitize_crate_name(name: &str) -> (r: String)
    ensures
        r@ == replaced(name@, '-', "_"@),
{
    let n = name.unicode_len();
    let mut out = String::new();
    let mut i: usize = 0;
    while i < n
        invariant
            i <= n,
            n == name@.len(),
            out@ == replaced(name@.take(i as int), '-', "_"@),
        decreases n - i,
    {
        let c = name.get_char(i);
        if c == '-' {
            out.append("_");
        } else {
            let one = name.substring_char(i, i + 1);
            assert(one@ =~= seq![c]);
            out.append(one);
        }
        proof {
            let next = name@.take(i + 1);
            assert(next.drop_last() =~= name@.take(i as int));
            assert(next.last() == c);
        }
        i = i + 1;
    }
    assert(name@.take(n as int) =~= name@);
    out
}

/// A dependency entry of a manifest, as far as naming goes.
#[derive(Clone, Debug)]
pub enum Dependency {
    /// `name = "version"`.
    Version,
    /// `name = { workspace = true }`.
    Workspace,
    /// A detailed entry, with the package it renames, if any.
    Detailed { package: Option<String> },
}

/// The package a dependency entry names, when it renames one.
pub open spec fn package_of(d: Dependency) -> Option<Seq<char>> {
    match d {
        Dependency::Detailed { package: Some(p) } => Some(p@),
        _ => None,
    }
}

/// The package name that a dependency entry renames, if it renames one.
pub fn get_package_name(dep: &Dependency) -> (r: Option<&str>)
    ensures
        match r {
            Some(s) => package_of(*dep) == Some(s@),
            None => package_of(*dep) is None,
        },
{
    match dep {
        Dependency::Detailed { package: Some(p) } => Some(p.as_str()),
        _ => None,
    }
}

/// The package an entry named `name` stands for: the renamed package, or
/// its own name.
pub open spec fn package_or_name(name: Seq<char>, d: Dependency) -> Seq<char> {
    match package_of(d) {
        Some(p) => p,
        None => name,
    }
}

/// The entries of a dependency table as text pairs of entry name and package.
pub open spec fn workspace_pairs(deps: Seq<(String, Dependency)>) -> Seq<(Seq<char>, Seq<char>)> {
    deps.map_values(|e: (String, Dependency)| (e.0@, package_or_name(e.0@, e.1)))
}

/// The workspace dependency table as pairs of entry name and the package it
/// stands for.
pub fn extract_workspace_dependencies(deps: &Vec<(String, Dependency)>) -> (r: Vec<(String, String)>)
    ensures
        r@.map_values(|p: (String, String)| (p.0@, p.1@)) == workspace_pairs(deps@),
{
    let mut out: Vec<(String, String)> = Vec::new();
    let mut i: usize = 0;
    while i < deps.len()
        invariant
            i <= deps@.len(),
            out@.map_values(|p: (String, String)| (p.0@, p.1@)) == workspace_pairs(
                deps@.take(i as int),
            ),
        decreases deps@.len() - i,
    {
        let name = deps[i].0.clone();
        let pkg = match get_package_name(&deps[i].1) {
            Some(p) => String::from_str(p),
            None => deps[i].0.clone(),
        };
        let ghost before = out@;
        let ghost entry = (name@, pkg@);
        assert(entry == (deps@[i as int].0@, package_or_name(deps@[i as int].0@, deps@[i as int].1)));
        out.push((name, pkg));
        assert(out@.map_values(|p: (String, String)| (p.0@, p.1@)) =~= before.map_values(
            |p: (String, String)| (p.0@, p.1@),
        ).push(entry));
        assert(deps@.take(i + 1).drop_last() =~= deps@.take(i as int));
        assert(out@.map_values(|p: (String, String)| (p.0@, p.1@)) =~= workspace_pairs(
            deps@.take(i + 1),
        ));
        i = i + 1;
    }
    assert(deps@.take(deps@.len() as int) =~= deps@);
    out
}

/// The value of the last pair with key `k`, if any (what collecting the
/// pairs into a map keeps).
pub open spec fn last_value<V>(pairs: Seq<(Seq<char>, V)>, k: Seq<char>) -> Option<V>
    decreases pairs.len(),
{
    if pairs.len() == 0 {
        None
    } else if pairs.last().0 == k {
        Some(pairs.last().1)
    } else {
        last_value(pairs.drop_last(), k)
    }
}

/// The value of the last pair with key `k` in `pairs`.
fn find_last(pairs: &Vec<(String, String)>, k: &String) -> (r: Option<String>)
    ensures
        match r {
            Some(v) => last_value(pairs@.map_values(|p: (String, String)| (p.0@, p.1@)), k@)
                == Some(v@),
            None => last_value(pairs@.map_values(|p: (String, String)| (p.0@, p.1@)), k@) is None,
        },
{
    let ghost view = pairs@.map_values(|p: (String, String)| (p.0@, p.1@));
    let mut i: usize = pairs.len();
    assert(view.take(i as int) =~= view);
    while i > 0
        invariant
            i <= pairs@.len(),
            view == pairs@.map_values(|p: (String, String)| (p.0@, p.1@)),
            last_value(view, k@) == last_value(view.take(i as int), k@),
        decreases i,
    {
        assert(view.take(i as int).drop_last() =~= view.take(i - 1));
        if pairs[i - 1].0 == *k {
            return Some(pairs[i - 1].1.clone());
        }
        i = i - 1;
    }
    None
}

/// The crate names a manifest defines, as pairs of package name and how the
/// package is named (the last pair of a package counts): the package itself
/// (as itself, or under its identifier when compiling an integration test),
/// then every dependency entry other than the package itself, a workspace
/// entry resolved through the workspace table.
pub open spec fn crate_name_pairs(
    package_name: Option<Seq<char>>,
    integration_test: bool,
    deps: Seq<(String, Dependency)>,
    workspace: Seq<(Seq<char>, Seq<char>)>,
) -> Seq<(Seq<char>, Option<Seq<char>>)>
    decreases deps.len(),
{
    if deps.len() == 0 {
        match package_name {
            Some(name) => seq![
                (
                    name,
                    if integration_test {
                        Some(replaced(name, '-', "_"@))
                    } else {
                        None
                    },
                ),
            ],
            None => Seq::empty(),
        }
    } else {
        let prev = crate_name_pairs(package_name, integration_test, deps.drop_last(), workspace);
        let (name, dep) = deps.last();
        let pkg = package_or_name(name@, dep);
        if package_name == Some(pkg) {
            prev
        } else {
            let resolved = if dep is Workspace {
                match last_value(workspace, pkg) {
                    Some(p) => p,
                    None => pkg,
                }
            } else {
                pkg
            };
            prev.push((resolved, Some(replaced(name@, '-', "_"@))))
        }
    }
}

/// The crate names of a manifest from its package name and its dependency
/// entries (all tables, in order), resolving workspace entries through the
/// workspace table; see `crate_name_pairs`.
pub fn extract_crate_names(
    package_name: Option<&str>,
    integration_test: bool,
    deps: &Vec<(String, Dependency)>,
    workspace_dependencies: &Vec<(String, String)>,
) -> (r: Vec<(String, FoundCrate)>)
    ensures
        r@.map_values(|p: (String, FoundCrate)| (p.0@, found_view(p.1))) == crate_name_pairs(
            match package_name {
                Some(n) => Some(n@),
                None => None,
            },
            integration_test,
            deps@,
            workspace_dependencies@.map_values(|p: (String, String)| (p.0@, p.1@)),
        ),
{
    let ghost pkg_view = match package_name {
        Some(n) => Some(n@),
        None => None,
    };
    let ghost ws = workspace_dependencies@.map_values(|p: (String, String)| (p.0@, p.1@));
    let mut out: Vec<(String, FoundCrate)> = Vec::new();
    let package: Option<String> = match package_name {
        Some(name) => {
            let found = if integration_test {
                FoundCrate::Name(sanitize_crate_name(name))
            } else {
                FoundCrate::Itself
            };
            out.push((String::from_str(name), found));
            Some(String::from_str(name))
        },
        None => None,
    };
    assert(out@.map_values(|p: (String, FoundCrate)| (p.0@, found_view(p.1))) =~= crate_name_pairs(
        pkg_view,
        integration_test,
        deps@.take(0),
        ws,
    ));
    let mut i: usize = 0;
    while i < deps.len()
        invariant
            i <= deps@.len(),
            ws == workspace_dependencies@.map_values(|p: (String, String)| (p.0@, p.1@)),
            match package {
                Some(p) => pkg_view == Some(p@),
                None => pkg_view is None,
            },
            out@.map_values(|p: (String, FoundCrate)| (p.0@, found_view(p.1))) == crate_name_pairs(
                pkg_view,
                integration_test,
                deps@.take(i as int),
                ws,
            ),
        decreases deps@.len() - i,
    {
        assert(deps@.take(i + 1).drop_last() =~= deps@.take(i as int));
        assert(deps@.take(i + 1).last() == deps@[i as int]);
        let name = &deps[i].0;
        let dep = &deps[i].1;
        let pkg: String = match get_package_name(dep) {
            Some(p) => String::from_str(p),
            None => name.clone(),
        };
        let is_self = match &package {
            Some(p) => *p == pkg,
            None => false,
        };
        if !is_self {
            let resolved = match dep {
                Dependency::Workspace => match find_last(workspace_dependencies, &pkg) {
                    Some(p) => p,
                    None => pkg,
                },
                _ => pkg,
            };
            let found = FoundCrate::Name(sanitize_crate_name(name.as_str()));
            out.push((resolved, found));
            assert(out@.map_values(|p: (String, FoundCrate)| (p.0@, found_view(p.1)))
                =~= crate_name_pairs(pkg_view, integration_test, deps@.take(i + 1), ws));
        }
        i = i + 1;
    }
    assert(deps@.take(deps@.len() as int) =~= deps@);
    out
}

/// How the crate `orig_name` is named, by the crate names of the manifest at
/// `manifest_path`: the last pair for it, or `CrateNotFound`.
pub fn find_crate(names: &Vec<(String, FoundCrate)>, orig_name: &str, manifest_path: &str) -> (r:
    Result<FoundCrate, Error>)
    ensures
        match last_value(
            names@.map_values(|p: (String, FoundCrate)| (p.0@, found_view(p.1))),
            orig_name@,
        ) {
            Some(f) => r matches Ok(found) && found_view(found) == f,
            None => r matches Err(Error::CrateNotFound { crate_name, path }) && crate_name@
                == orig_name@ && path@ == manifest_path@,
        },
{
    let ghost view = names@.map_values(|p: (String, FoundCrate)| (p.0@, found_view(p.1)));
    let key = String::from_str(orig_name);
    let mut i: usize = names.len();
    assert(view.take(i as int) =~= view);
    while i > 0
        invariant
            i <= names@.len(),
            key@ == orig_name@,
            view == names@.map_values(|p: (String, FoundCrate)| (p.0@, found_view(p.1))),
            last_value(view, orig_name@) == last_value(view.take(i as int), orig_name@),
        decreases i,
    {
        assert(view.take(i as int).drop_last() =~= view.take(i - 1));
        if names[i - 1].0 == key {
            let found = match &names[i - 1].1 {
                FoundCrate::Itself => FoundCrate::Itself,
                FoundCrate::Name(n) => FoundCrate::Name(n.clone()),
            };
            return Ok(found);
        }
        i = i - 1;
    }
    Err(
        Error::CrateNotFound {
            crate_name: String::from_str(orig_name),
            path: String::from_str(manifest_path),
        },
    )
}

} // verus!
