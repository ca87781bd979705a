//! Where the embedded browser bundle is built, and what its build needs.
use vstd::prelude::*;

use crate::init::{join_path, joined_path};
use crate::paths::{is_absolute, path_is_absolute, path_parts, named_parts};
use crate::add::path_label_spec;
use crate::text::{join, join_seq, views};

verus! {

/// The parent of a path: its named parts but the last (`Path::parent`);
/// none for a path without names.
pub open spec fn parent_spec(path: Seq<char>) -> Option<Seq<char>> {
    let parts = path_parts(path);
    if parts.len() == 0 {
        None
    } else {
        Some((if is_absolute(path) { "/"@ } else { Seq::empty() }) + join_seq(parts.drop_last(), "/"@))
    }
}

pub fn parent_path(path: &str) -> (res: Option<String>)
    ensures
        match res {
            Some(p) => parent_spec(path@) == Some(p@),
            None => parent_spec(path@).is_none(),
        },
{
    let mut parts = named_parts(path);
    if parts.len() == 0 {
        return None;
    }
    let ghost all = views(parts@);
    parts.pop();
    assert(views(parts@) =~= all.drop_last());
    let joined = join(&parts, "/");
    if path_is_absolute(path) {
        let mut out = String::from_str("/");
        out.append(joined.as_str());
        Some(out)
    } else {
        proof { reveal_strlit(""); }
        let mut out = String::new();
        out.append(joined.as_str());
        Some(out)
    }
}

/// The target directory of the browser's wasm build: the configured one
/// (relative to the manifest when relative), else `target/app-wasm` beside
/// the git common directory, else under the manifest.
pub open spec fn wasm_target_spec(manifest: Seq<char>, common: Option<Seq<char>>, configured: Option<Seq<char>>) -> Seq<char> {
    match configured {
        Some(c) => if is_absolute(c) { c } else { joined_path(manifest, c) },
        None => match common {
            Some(g) => match parent_spec(g) {
                Some(root) => joined_path(joined_path(root, "target"@), "app-wasm"@),
                None => joined_path(joined_path(manifest, "target"@), "app-wasm"@),
            },
            None => joined_path(joined_path(manifest, "target"@), "app-wasm"@),
        },
    }
}

pub fn default_wasm_target_dir_from_common_dir(manifest_dir: &str, git_common_dir: Option<&str>, configured_target_dir: Option<&str>) -> (res: String)
    ensures
        res@ == wasm_target_spec(manifest_dir@, crate::log::opt_str(git_common_dir), crate::log::opt_str(configured_target_dir)),
{
    match configured_target_dir {
        Some(c) => {
            if path_is_absolute(c) {
                return String::from_str(c);
            }
            return join_path(manifest_dir, c);
        },
        None => {},
    }
    match git_common_dir {
        Some(g) => match parent_path(g) {
            Some(root) => {
                let t = join_path(root.as_str(), "target");
                return join_path(t.as_str(), "app-wasm");
            },
            None => {},
        },
        None => {},
    }
    let t = join_path(manifest_dir, "target");
    join_path(t.as_str(), "app-wasm")
}

/// The helper script that pins npm.
pub fn pinned_npm_script(manifest_dir: &str) -> (res: String)
    ensures
        res@ == joined_path(joined_path(joined_path(manifest_dir@, "scripts"@), "ci"@), "pinned-npm.sh"@),
{
    let a = join_path(manifest_dir, "scripts");
    let b = join_path(a.as_str(), "ci");
    join_path(b.as_str(), "pinned-npm.sh")
}

pub open spec fn missing_dependencies_spec(npm: Seq<char>) -> Seq<char> {
    "browser app dependencies are not ready.\n\nThis usually means you are in a fresh clone or fresh worktree that does not have `app/node_modules` yet.\nCargo intentionally does not run a networked npm install for you during embedded browser-app builds.\n\nFrom the repository root, run:\n  scripts/ci/pinned-npm.sh install app\n  npm --prefix app ci\n\nThen rerun the Cargo command. The pinned npm workflow expects npm "@
        + npm + "."@
}

/// What to do when the browser app's dependencies are missing.
pub fn missing_app_dependencies_message(required_npm: &str) -> (res: String)
    ensures
        res@ == missing_dependencies_spec(required_npm@),
{
    let mut out = String::from_str("browser app dependencies are not ready.\n\nThis usually means you are in a fresh clone or fresh worktree that does not have `app/node_modules` yet.\nCargo intentionally does not run a networked npm install for you during embedded browser-app builds.\n\nFrom the repository root, run:\n  scripts/ci/pinned-npm.sh install app\n  npm --prefix app ci\n\nThen rerun the Cargo command. The pinned npm workflow expects npm ");
    out.append(required_npm);
    out.append(".");
    out
}

} // verus!
