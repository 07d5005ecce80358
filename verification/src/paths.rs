//! Where the files live: under the user's configuration directory, in
//! `poke/`.

use vstd::prelude::*;
use std::path::PathBuf;
use etcetera::BaseStrategy;

verus! {

#[verifier::external_type_specification]
#[verifier::external_body]
pub struct ExPathBuf(PathBuf);

/// The components of a path, each given by its characters.
pub uninterp spec fn path_components(p: PathBuf) -> Seq<Seq<char>>;

/// A name that a path takes as one component of its own: not empty, without
/// a separator or a drive colon, and neither `.` nor `..`.
pub open spec fn is_plain_component(s: Seq<char>) -> bool {
    &&& s.len() > 0
    &&& !s.contains('/')
    &&& !s.contains('\\')
    &&& !s.contains(':')
    &&& !(s.len() == 1 && s[0] == '.')
    &&& !(s.len() == 2 && s[0] == '.' && s[1] == '.')
}

/// `etcetera::choose_base_strategy()` and then `BaseStrategy::config_dir()`:
/// the user's configuration directory (`$XDG_CONFIG_HOME`, else
/// `~/.config`), or `None` when no home directory is found. Nothing is
/// claimed of the path: it comes from the environment.
#[verifier::external_body]
fn user_config_dir() -> (r: Option<PathBuf>) {
    match etcetera::choose_base_strategy() {
        Ok(strategy) => Some(strategy.config_dir()),
        Err(_) => None,
    }
}

/// `PathBuf::push` with a single plain name. Claimed, as std documents
/// ("extends `self` with `path`"), that the name becomes one more component
/// at the end.
#[verifier::external_body]
fn push_component(path: &mut PathBuf, name: &str)
    requires
        is_plain_component(name@),
    ensures
        path_components(*final(path)) == path_components(*old(path)).push(name@),
{
    path.push(name)
}

/// `name` inside `dir`: `None` exactly when there is no `dir`, else `dir`
/// with `name` as one more component.
pub fn file_in(dir: Option<PathBuf>, name: &str) -> (r: Option<PathBuf>)
    requires
        is_plain_component(name@),
    ensures
        r is Some <==> dir is Some,
        r matches Some(p) ==> path_components(p) == path_components(dir->0).push(name@),
{
    match dir {
        Some(d) => {
            let mut path = d;
            push_component(&mut path, name);
            Some(path)
        },
        None => None,
    }
}

/// The `poke` directory inside `config_dir`: `None` exactly when there is no
/// configuration directory.
pub fn poke_dir_in(config_dir: Option<PathBuf>) -> (r: Option<PathBuf>)
    ensures
        r is Some <==> config_dir is Some,
        r matches Some(p) ==> path_components(p) == path_components(config_dir->0).push("poke"@),
{
    proof {
        reveal_strlit("poke");
    }
    file_in(config_dir, "poke")
}

/// The path of `name` inside the `poke` directory.
fn poke_file(name: &str) -> (r: Option<PathBuf>)
    requires
        is_plain_component(name@),
    ensures
        r matches Some(p) ==> exists|base: PathBuf|
            path_components(p) == #[trigger] path_components(base).push("poke"@).push(name@),
{
    let dir = poke_dir();
    let ghost d = dir;
    let r = file_in(dir, name);
    proof {
        if r is Some {
            let base = choose|base: PathBuf|
                path_components(d->0) == #[trigger] path_components(base).push("poke"@);
            assert(path_components(r->0) == path_components(base).push("poke"@).push(name@));
        }
    }
    r
}

/// The `poke` directory inside the user's configuration directory; `None`
/// when that directory cannot be found.
pub fn poke_dir() -> (r: Option<PathBuf>)
    ensures
        r matches Some(p) ==> exists|base: PathBuf|
            path_components(p) == #[trigger] path_components(base).push("poke"@),
{
    let config_dir = user_config_dir();
    let ghost base = config_dir;
    let r = poke_dir_in(config_dir);
    proof {
        if r is Some {
            assert(path_components(r->0) == path_components(base->0).push("poke"@));
        }
    }
    r
}

/// `poke/config.toml` in the user's configuration directory.
pub fn config_path() -> (r: Option<PathBuf>)
    ensures
        r matches Some(p) ==> exists|base: PathBuf|
            path_components(p) == #[trigger] path_components(base).push("poke"@).push(
                "config.toml"@,
            ),
{
    proof {
        reveal_strlit("config.toml");
    }
    poke_file("config.toml")
}

/// `poke/timers.toml` in the user's configuration directory.
pub fn timers_path() -> (r: Option<PathBuf>)
    ensures
        r matches Some(p) ==> exists|base: PathBuf|
            path_components(p) == #[trigger] path_components(base).push("poke"@).push(
                "timers.toml"@,
            ),
{
    proof {
        reveal_strlit("timers.toml");
    }
    poke_file("timers.toml")
}

/// `poke/daemon.lock` in the user's configuration directory.
pub fn lock_path() -> (r: Option<PathBuf>)
    ensures
        r matches Some(p) ==> exists|base: PathBuf|
            path_components(p) == #[trigger] path_components(base).push("poke"@).push(
                "daemon.lock"@,
            ),
{
    proof {
        reveal_strlit("daemon.lock");
    }
    poke_file("daemon.lock")
}

} // verus!
