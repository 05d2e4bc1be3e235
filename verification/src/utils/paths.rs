//! Where the launcher keeps its files. Paths are Unix path text.

use vstd::prelude::*;
use crate::text::{chars_of, push_str, push_char};

verus! {

/// `base` joined with `seg` as `Path::join` does on Unix: an absolute `seg` replaces
/// `base`, and a `/` is put between them unless `base` is empty or already ends in one.
pub open spec fn join_path(base: Seq<char>, seg: Seq<char>) -> Seq<char> {
    if seg.len() > 0 && seg[0] == '/' {
        seg
    } else if base.len() == 0 || base.last() == '/' {
        base + seg
    } else {
        base + seq!['/'] + seg
    }
}

/// `base` joined with `seg`.
pub fn join(base: &str, seg: &str) -> (r: String)
    ensures
        r@ == join_path(base@, seg@),
{
    let b = chars_of(base);
    let s = chars_of(seg);
    let mut out = String::new();
    if s.len() > 0 && s[0] == '/' {
        push_str(&mut out, seg);
        return out;
    }
    push_str(&mut out, base);
    if b.len() > 0 && b[b.len() - 1] != '/' {
        push_char(&mut out, '/');
    }
    push_str(&mut out, seg);
    out
}

/// The user's data directory: `dirs::data_dir()`, as text. It depends on the
/// environment, so nothing is stated of it; a path that is not UTF-8 is converted lossily.
#[verifier::external_body]
pub(crate) fn user_data_dir() -> (r: Option<String>) {
    dirs::data_dir().map(|p| p.to_string_lossy().to_string())
}

/// Whether something exists at path `p`: std's `Path::exists`. It depends on what is on
/// disk, so nothing is stated of it.
#[verifier::external_body]
pub(crate) fn path_exists(p: &str) -> (r: bool) {
    std::path::Path::new(p).exists()
}

/// The launcher's directory under a user data directory, or under `.` when there is none.
pub open spec fn launcher_dir_under(base: Option<Seq<char>>) -> Seq<char> {
    match base {
        Some(b) => join_path(b, "GLauncher"@),
        None => join_path("."@, "GLauncher"@),
    }
}

/// A user data directory given as text, or none.
pub open spec fn base_view(base: Option<&str>) -> Option<Seq<char>> {
    match base {
        Some(b) => Some(b@),
        None => None,
    }
}

/// `seg` inside some launcher directory: the value of a path function, whatever the
/// user's data directory is.
pub open spec fn in_launcher_dir(p: Seq<char>, seg: Seq<char>) -> bool {
    exists|base: Option<Seq<char>>| p == join_path(#[trigger] launcher_dir_under(base), seg)
}

/// The launcher's directory under the user data directory `base`: `GLauncher` inside it,
/// or inside `.` when there is none.
pub fn launcher_dir(base: Option<&str>) -> (r: String)
    ensures
        r@ == launcher_dir_under(base_view(base)),
{
    match base {
        Some(b) => join(b, "GLauncher"),
        None => join(".", "GLauncher"),
    }
}

/// `seg` inside the launcher's directory under the user data directory `base`.
pub fn launcher_path(base: Option<&str>, seg: &str) -> (r: String)
    ensures
        r@ == join_path(launcher_dir_under(base_view(base)), seg@),
{
    let d = launcher_dir(base);
    join(d.as_str(), seg)
}

/// The user data directory, read from the environment, as an optional slice.
pub(crate) fn user_base(dir: &Option<String>) -> (r: Option<&str>)
    ensures
        base_view(r) == match dir {
            Some(d) => Some(d@),
            None => None::<Seq<char>>,
        },
{
    match dir {
        Some(d) => Some(d.as_str()),
        None => None,
    }
}

/// The launcher's data directory under the user's data directory, read from the
/// environment; which directory that is, is not stated.
pub fn data_dir() -> (r: String)
    ensures
        exists|base: Option<Seq<char>>| r@ == #[trigger] launcher_dir_under(base),
{
    let dir = user_data_dir();
    let base = user_base(&dir);
    let r = launcher_dir(base);
    assert(r@ == launcher_dir_under(base_view(base)));
    r
}

fn data_dir_join(seg: &str) -> (r: String)
    ensures
        in_launcher_dir(r@, seg@),
{
    let dir = user_data_dir();
    let base = user_base(&dir);
    let r = launcher_path(base, seg);
    assert(r@ == join_path(launcher_dir_under(base_view(base)), seg@));
    r
}

/// Where instances live.
pub fn instances_dir() -> (r: String)
    ensures
        in_launcher_dir(r@, "instances"@),
{
    data_dir_join("instances")
}

/// Where downloaded Java runtimes live.
pub fn java_dir() -> (r: String)
    ensures
        in_launcher_dir(r@, "java"@),
{
    data_dir_join("java")
}

/// Where game assets live.
pub fn assets_dir() -> (r: String)
    ensures
        in_launcher_dir(r@, "assets"@),
{
    data_dir_join("assets")
}

/// Where game libraries live.
pub fn libraries_dir() -> (r: String)
    ensures
        in_launcher_dir(r@, "libraries"@),
{
    data_dir_join("libraries")
}

/// Where version metadata and client jars live.
pub fn versions_dir() -> (r: String)
    ensures
        in_launcher_dir(r@, "versions"@),
{
    data_dir_join("versions")
}

/// The launcher settings file.
pub fn config_file() -> (r: String)
    ensures
        in_launcher_dir(r@, "config.json"@),
{
    data_dir_join("config.json")
}

/// The saved accounts file.
pub fn accounts_file() -> (r: String)
    ensures
        in_launcher_dir(r@, "accounts.json"@),
{
    data_dir_join("accounts.json")
}

} // verus!
