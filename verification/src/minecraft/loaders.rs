//! Mod loaders: Maven coordinates, the loader versions each service lists, and the
//! libraries a loader profile needs.

use vstd::prelude::*;
use crate::json::{JsonValue, json_get, json_str};
use crate::minecraft::instances::ModLoader;
use crate::minecraft::launcher::{DownloadJob, job_view};
use crate::seqs::{first_index, lemma_first_index, lemma_first_index_props};
use crate::text::{
    concat,
    chars_of, contains, contains_exec, is_char, lines, lines_of, push_str, replace_char, replace_char_exec,
    starts_with, starts_with_exec, string_from_range, trim, trim_end_all, trim_end_matches, trim_exec,
    trim_start_all, trim_start_matches, str_eq,
};
use crate::utils::paths::{join, join_path};

verus! {

/// The Fabric metadata service.
pub const FABRIC_META_URL: &'static str = "https://meta.fabricmc.net/v2";

/// The Forge file service.
pub const FORGE_META_URL: &'static str = "https://files.minecraftforge.net/net/minecraftforge/forge";

/// The Forge Maven repository.
pub const FORGE_MAVEN: &'static str = "https://maven.minecraftforge.net/";

/// The Quilt metadata service.
pub const QUILT_META_URL: &'static str = "https://meta.quiltmc.org/v3";

/// The NeoForge version metadata.
pub const NEOFORGE_META_URL: &'static str = "https://maven.neoforged.net/releases/net/neoforged/neoforge";

/// The NeoForge Maven repository.
pub const NEOFORGE_MAVEN: &'static str = "https://maven.neoforged.net/releases/";

/// A Fabric (or Quilt) loader version.
#[derive(Debug, Clone)]
pub struct FabricLoaderVersion {
    pub version: String,
    pub stable: bool,
}

/// A Minecraft version as Fabric lists it.
#[derive(Debug, Clone)]
pub struct FabricGameVersion {
    pub version: String,
    pub stable: bool,
}

/// A promoted Forge version.
#[derive(Debug, Clone)]
pub struct ForgeVersion {
    pub version: String,
    pub mc_version: String,
    pub recommended: bool,
    pub latest: bool,
}

/// A NeoForge version.
#[derive(Debug, Clone)]
pub struct NeoForgeVersion {
    pub version: String,
    pub is_latest: bool,
}

/// The repository path of a Maven coordinate `group:artifact:version`:
/// `group/with/slashes/artifact/version/artifact-version.jar`. A name with fewer than three
/// parts becomes the name with `:` turned into `/`, plus `.jar`.
pub open spec fn maven_path(name: Seq<char>) -> Seq<char> {
    let k1 = first_index(name, is_char(':'));
    let rest = name.skip(k1 + 1);
    let k2 = first_index(rest, is_char(':'));
    if k1 >= name.len() || k2 >= rest.len() {
        replace_char(name, ':', '/') + ".jar"@
    } else {
        let group = replace_char(name.take(k1), '.', '/');
        let artifact = rest.take(k2);
        let version = rest.skip(k2 + 1);
        group + "/"@ + artifact + "/"@ + version + "/"@ + artifact + "-"@ + version + ".jar"@
    }
}

/// The index of the first `c` in `v` at or after `start`, or `v.len()`.
fn find_char_from(v: &Vec<char>, c: char, start: usize) -> (r: usize)
    requires
        start <= v@.len(),
    ensures
        r as int == start + first_index(v@.skip(start as int), is_char(c)),
        r <= v@.len(),
{
    let mut i = start;
    while i < v.len() && v[i] != c
        invariant
            start <= i <= v@.len(),
            forall|k: int| start <= k < i ==> v@[k] != c,
        decreases v.len() - i,
    {
        i = i + 1;
    }
    proof {
        let t = v@.skip(start as int);
        assert forall|j: int| 0 <= j < i - start implies !is_char(c)(#[trigger] t[j]) by {
            assert(t[j] == v@[start + j]);
        }
        if i < v.len() {
            assert(t[i - start] == v@[i as int]);
        }
        lemma_first_index(t, is_char(c), i - start);
    }
    i
}

/// The repository path of a Maven coordinate.
pub fn maven_name_to_path(name: &str) -> (r: String)
    ensures
        r@ == maven_path(name@),
{
    let v = chars_of(name);
    let k1 = find_char_from(&v, ':', 0);
    assert(v@.skip(0) =~= v@);
    proof { lemma_first_index_props(v@, is_char(':')); }
    if k1 >= v.len() {
        let mut r = replace_char_exec(name, ':', '/');
        push_str(&mut r, ".jar");
        return r;
    }
    let k2 = find_char_from(&v, ':', k1 + 1);
    let ghost rest = v@.skip(k1 + 1);
    proof { lemma_first_index_props(rest, is_char(':')); }
    if k2 >= v.len() {
        let mut r = replace_char_exec(name, ':', '/');
        push_str(&mut r, ".jar");
        return r;
    }
    let group_raw = string_from_range(&v, 0, k1);
    let group = replace_char_exec(group_raw.as_str(), '.', '/');
    let artifact = string_from_range(&v, k1 + 1, k2);
    let version = string_from_range(&v, k2 + 1, v.len());
    assert(group_raw@ =~= v@.take(k1 as int));
    assert(artifact@ =~= rest.take(k2 - k1 - 1));
    assert(version@ =~= rest.skip(k2 - k1));
    let mut r = group;
    push_str(&mut r, "/");
    push_str(&mut r, artifact.as_str());
    push_str(&mut r, "/");
    push_str(&mut r, version.as_str());
    push_str(&mut r, "/");
    push_str(&mut r, artifact.as_str());
    push_str(&mut r, "-");
    push_str(&mut r, version.as_str());
    push_str(&mut r, ".jar");
    r
}

/// What a loader version entry means: its version and whether it is stable.
pub open spec fn loader_view(v: FabricLoaderVersion) -> (Seq<char>, bool) {
    (v.version@, v.stable)
}

/// A Fabric listing entry: its `loader` object's `version` string and its `stable` flag
/// (`false` when not a boolean); no entry unless the loader, its version string and its
/// `stable` member are all there.
pub open spec fn fabric_entry(v: JsonValue) -> Option<(Seq<char>, bool)> {
    match json_get(v, "loader"@) {
        None => None,
        Some(l) => match json_str(json_get(l, "version"@)) {
            None => None,
            Some(ver) => match json_get(l, "stable"@) {
                None => None,
                Some(st) => Some((ver, match st {
                    JsonValue::Bool(b) => b,
                    _ => false,
                })),
            },
        },
    }
}

/// A Quilt listing entry: its `loader` object's `version` string, stable unless the
/// version mentions `beta`.
pub open spec fn quilt_entry(v: JsonValue) -> Option<(Seq<char>, bool)> {
    match json_get(v, "loader"@) {
        None => None,
        Some(l) => match json_str(json_get(l, "version"@)) {
            None => None,
            Some(ver) => Some((ver, !contains(ver, "beta"@))),
        },
    }
}

/// The entries of a Fabric (`quilt` false) or Quilt (`quilt` true) listing, in order.
pub open spec fn loader_entries(vs: Seq<JsonValue>, quilt: bool) -> Seq<(Seq<char>, bool)>
    decreases vs.len(),
{
    if vs.len() == 0 {
        seq![]
    } else {
        loader_entries(vs.drop_last(), quilt) + match if quilt { quilt_entry(vs.last()) } else { fabric_entry(vs.last()) } {
            Some(e) => seq![e],
            None => seq![],
        }
    }
}

/// A Fabric entry whose loader has a version string and a boolean `stable` member is
/// listed after the entries before it, with that version and exactly that `stable` flag:
/// an unstable build is never listed as stable, nor a stable one as unstable.
pub proof fn law_fabric_stable_flag_kept(vs: Seq<JsonValue>, v: JsonValue, l: JsonValue, ver: Seq<char>, stable: bool)
    requires
        json_get(v, "loader"@) == Some(l),
        json_str(json_get(l, "version"@)) == Some(ver),
        json_get(l, "stable"@) == Some(JsonValue::Bool(stable)),
    ensures
        loader_entries(vs.push(v), false) == loader_entries(vs, false).push((ver, stable)),
{
    assert(vs.push(v).drop_last() =~= vs);
    assert(vs.push(v).last() == v);
    assert(fabric_entry(v) == Some((ver, stable)));
    assert(loader_entries(vs, false) + seq![(ver, stable)] =~= loader_entries(vs, false).push((ver, stable)));
}

fn loader_entry_exec(v: &JsonValue, quilt: bool) -> (r: Option<FabricLoaderVersion>)
    ensures
        match r {
            Some(x) => (if quilt { quilt_entry(*v) } else { fabric_entry(*v) }) == Some(loader_view(x)),
            None => (if quilt { quilt_entry(*v) } else { fabric_entry(*v) }) is None,
        },
{
    let loader = match v.get("loader") {
        Some(l) => l,
        None => return None,
    };
    let version = match loader.get("version") {
        Some(x) => match x.as_str() {
            Some(t) => t,
            None => return None,
        },
        None => return None,
    };
    if quilt {
        let beta = contains_exec(version.as_str(), "beta");
        Some(FabricLoaderVersion { version: version.clone(), stable: !beta })
    } else {
        match loader.get("stable") {
            Some(st) => {
                let stable = match st.as_bool() {
                    Some(b) => b,
                    None => false,
                };
                Some(FabricLoaderVersion { version: version.clone(), stable })
            },
            None => None,
        }
    }
}

/// The loader versions in a Fabric (`quilt` false) or Quilt (`quilt` true) listing.
pub fn loader_versions_from(data: &Vec<JsonValue>, quilt: bool) -> (r: Vec<FabricLoaderVersion>)
    ensures
        r@.map_values(|x: FabricLoaderVersion| loader_view(x)) == loader_entries(data@, quilt),
{
    let mut out: Vec<FabricLoaderVersion> = Vec::new();
    let mut i: usize = 0;
    while i < data.len()
        invariant
            i <= data@.len(),
            out@.map_values(|x: FabricLoaderVersion| loader_view(x)) == loader_entries(data@.take(i as int), quilt),
        decreases data.len() - i,
    {
        let ghost before = out@.map_values(|x: FabricLoaderVersion| loader_view(x));
        assert(data@.take(i + 1).drop_last() =~= data@.take(i as int));
        assert(data@.take(i + 1).last() == data@[i as int]);
        match loader_entry_exec(&data[i], quilt) {
            Some(e) => {
                out.push(e);
                assert(out@.map_values(|x: FabricLoaderVersion| loader_view(x)) =~= before.push(loader_view(e)));
            },
            None => {},
        }
        assert(out@.map_values(|x: FabricLoaderVersion| loader_view(x)) =~= loader_entries(data@.take(i + 1), quilt));
        i = i + 1;
    }
    assert(data@.take(i as int) =~= data@);
    out
}

/// What a Forge version means: version, game version, recommended, latest.
pub open spec fn forge_view(v: ForgeVersion) -> (Seq<char>, Seq<char>, bool, bool) {
    (v.version@, v.mc_version@, v.recommended, v.latest)
}

/// The promoted Forge build under `key` in the promotions data.
pub open spec fn promo(data: JsonValue, key: Seq<char>) -> Option<Seq<char>> {
    match json_get(data, "promos"@) {
        Some(p) => json_str(json_get(p, key)),
        None => None,
    }
}

/// The promoted Forge versions for a game version: the recommended build, then the
/// latest build unless it is the same version.
pub open spec fn forge_promotions(data: JsonValue, mc: Seq<char>) -> Seq<(Seq<char>, Seq<char>, bool, bool)> {
    let first = match promo(data, mc + "-recommended"@) {
        Some(v) => seq![(mc + "-"@ + v, mc, true, false)],
        None => seq![],
    };
    match promo(data, mc + "-latest"@) {
        Some(v) => if first.len() > 0 && first[0].0 == mc + "-"@ + v {
            first
        } else {
            first.push((mc + "-"@ + v, mc, false, true))
        },
        None => first,
    }
}


fn promo_exec<'a>(data: &'a JsonValue, key: &str) -> (r: Option<&'a String>)
    ensures
        match r {
            Some(t) => promo(*data, key@) == Some(t@),
            None => promo(*data, key@) is None,
        },
{
    match data.get("promos") {
        Some(p) => match p.get(key) {
            Some(x) => x.as_str(),
            None => None,
        },
        None => None,
    }
}

/// The promoted Forge versions for game version `mc` in the promotions data.
pub fn forge_versions_from(data: &JsonValue, mc_version: &str) -> (r: Vec<ForgeVersion>)
    ensures
        r@.map_values(|x: ForgeVersion| forge_view(x)) == forge_promotions(*data, mc_version@),
{
    let mut versions: Vec<ForgeVersion> = Vec::new();
    let rec_key = concat(mc_version, "-recommended");
    let latest_key = concat(mc_version, "-latest");
    let prefix = concat(mc_version, "-");
    match promo_exec(data, rec_key.as_str()) {
        Some(v) => {
            versions.push(ForgeVersion {
                version: concat(prefix.as_str(), v.as_str()),
                mc_version: mc_version.to_string(),
                recommended: true,
                latest: false,
            });
        },
        None => {},
    }
    let ghost first = versions@.map_values(|x: ForgeVersion| forge_view(x));
    match promo_exec(data, latest_key.as_str()) {
        Some(v) => {
            let full = concat(prefix.as_str(), v.as_str());
            let dup = versions.len() > 0 && str_eq(versions[0].version.as_str(), full.as_str());
            if !dup {
                versions.push(ForgeVersion {
                    version: full,
                    mc_version: mc_version.to_string(),
                    recommended: false,
                    latest: true,
                });
            }
        },
        None => {},
    }
    assert(versions@.map_values(|x: ForgeVersion| forge_view(x)) =~= forge_promotions(*data, mc_version@));
    versions
}

/// The version a NeoForge metadata line names, when it names one for the game version:
/// the trimmed line without its `<version>` tags, kept when it starts with `prefix`.
pub open spec fn neoforge_line(l: Seq<char>, prefix: Seq<char>) -> Option<Seq<char>> {
    if contains(l, "<version>"@) {
        let s = trim_end_all(trim_start_all(trim(l), "<version>"@), "</version>"@);
        if starts_with(s, prefix) { Some(s) } else { None }
    } else {
        None
    }
}

/// The versions the NeoForge metadata lines name for a prefix, in line order.
pub open spec fn neoforge_candidates(ls: Seq<Seq<char>>, prefix: Seq<char>) -> Seq<Seq<char>>
    decreases ls.len(),
{
    if ls.len() == 0 {
        seq![]
    } else {
        neoforge_candidates(ls.drop_last(), prefix) + match neoforge_line(ls.last(), prefix) {
            Some(v) => seq![v],
            None => seq![],
        }
    }
}

/// The NeoForge versions for game version `mc`: the versions in the metadata whose text
/// starts with `mc` without its leading `1.`s, newest (last listed) first, at most 20, the
/// first marked latest.
pub open spec fn neoforge_list(text: Seq<char>, mc: Seq<char>) -> Seq<(Seq<char>, bool)> {
    let c = neoforge_candidates(lines(text), trim_start_all(mc, "1."@)).reverse();
    let n = if c.len() < 20 { c.len() } else { 20 };
    c.take(n as int).map(|i: int, v: Seq<char>| (v, i == 0))
}

/// What a NeoForge version means: its version and whether it is the latest.
pub open spec fn neoforge_view(v: NeoForgeVersion) -> (Seq<char>, bool) {
    (v.version@, v.is_latest)
}

/// The NeoForge versions for a game version from the Maven metadata text.
pub fn neoforge_versions_from(text: &str, mc_version: &str) -> (r: Vec<NeoForgeVersion>)
    ensures
        r@.map_values(|x: NeoForgeVersion| neoforge_view(x)) == neoforge_list(text@, mc_version@),
{
    let prefix = trim_start_matches(mc_version, "1.");
    let ls = lines_of(text);
    let mut cands: Vec<String> = Vec::new();
    let mut i: usize = 0;
    while i < ls.len()
        invariant
            i <= ls@.len(),
            ls.deep_view() == lines(text@),
            prefix@ == trim_start_all(mc_version@, "1."@),
            cands.deep_view() == neoforge_candidates(ls.deep_view().take(i as int), prefix@),
        decreases ls.len() - i,
    {
        let ghost before = cands.deep_view();
        assert(ls.deep_view().take(i + 1).drop_last() =~= ls.deep_view().take(i as int));
        assert(ls.deep_view().take(i + 1).last() == ls@[i as int]@);
        let l = ls[i].as_str();
        if contains_exec(l, "<version>") {
            let t = trim_exec(l);
            let t = trim_start_matches(t.as_str(), "<version>");
            let t = trim_end_matches(t.as_str(), "</version>");
            if starts_with_exec(t.as_str(), prefix.as_str()) {
                cands.push(t);
                assert(cands.deep_view() =~= before.push(t@));
            }
        }
        assert(cands.deep_view() =~= neoforge_candidates(ls.deep_view().take(i + 1), prefix@));
        i = i + 1;
    }
    assert(ls.deep_view().take(i as int) =~= ls.deep_view());
    let ghost c = cands.deep_view().reverse();
    let n: usize = if cands.len() < 20 { cands.len() } else { 20 };
    let mut out: Vec<NeoForgeVersion> = Vec::new();
    let mut j: usize = 0;
    while j < n
        invariant
            n <= cands@.len(),
            c == cands.deep_view().reverse(),
            j <= n,
            out@.map_values(|x: NeoForgeVersion| neoforge_view(x)) == c.take(j as int).map(|i: int, v: Seq<char>| (v, i == 0)),
        decreases n - j,
    {
        let ghost before = out@.map_values(|x: NeoForgeVersion| neoforge_view(x));
        let v = cands[cands.len() - 1 - j].clone();
        assert(c[j as int] == cands@[cands@.len() - 1 - j]@);
        let item = NeoForgeVersion { version: v, is_latest: j == 0 };
        out.push(item);
        assert(out@.map_values(|x: NeoForgeVersion| neoforge_view(x)) =~= before.push(neoforge_view(item)));
        assert(c.take(j + 1).map(|i: int, v: Seq<char>| (v, i == 0)) =~= c.take(j as int).map(|i: int, v: Seq<char>| (v, i == 0)).push((c[j as int], j == 0)));
        assert(out@.map_values(|x: NeoForgeVersion| neoforge_view(x)) =~= c.take(j + 1).map(|i: int, v: Seq<char>| (v, i == 0)));
        j = j + 1;
    }
    out
}

/// The download of a loader profile library that has a string `name` and `url`: the Maven
/// path of the name under `libs_dir`, fetched from the url followed by that path.
pub open spec fn profile_library_job(lib: JsonValue, libs_dir: Seq<char>) -> Seq<(Seq<char>, Seq<char>)> {
    match (json_str(json_get(lib, "name"@)), json_str(json_get(lib, "url"@))) {
        (Some(name), Some(url)) => seq![(url + maven_path(name), join_path(libs_dir, maven_path(name)))],
        _ => seq![],
    }
}

/// The downloads of a loader profile's libraries, in order.
pub open spec fn profile_library_jobs(libs: Seq<JsonValue>, libs_dir: Seq<char>) -> Seq<(Seq<char>, Seq<char>)>
    decreases libs.len(),
{
    if libs.len() == 0 {
        seq![]
    } else {
        profile_library_jobs(libs.drop_last(), libs_dir) + profile_library_job(libs.last(), libs_dir)
    }
}

/// The libraries a loader profile lists under `libraries` (none when it has no array).
pub open spec fn profile_libraries(profile: JsonValue) -> Seq<JsonValue> {
    match json_get(profile, "libraries"@) {
        Some(JsonValue::Array(items)) => items@,
        _ => seq![],
    }
}

/// The library downloads a Fabric or Quilt profile needs, with `libs_dir` as the root.
pub fn profile_library_downloads(profile: &JsonValue, libs_dir: &str) -> (r: Vec<DownloadJob>)
    ensures
        r@.map_values(|j: DownloadJob| job_view(j)) == profile_library_jobs(profile_libraries(*profile), libs_dir@),
{
    let mut jobs: Vec<DownloadJob> = Vec::new();
    match profile.get("libraries") {
        Some(JsonValue::Array(items)) => {
            let mut i: usize = 0;
            while i < items.len()
                invariant
                    items@ == profile_libraries(*profile),
                    i <= items@.len(),
                    jobs@.map_values(|j: DownloadJob| job_view(j)) == profile_library_jobs(items@.take(i as int), libs_dir@),
                decreases items.len() - i,
            {
                let ghost before = jobs@.map_values(|j: DownloadJob| job_view(j));
                assert(items@.take(i + 1).drop_last() =~= items@.take(i as int));
                assert(items@.take(i + 1).last() == items@[i as int]);
                let lib = &items[i];
                let name = match lib.get("name") { Some(x) => x.as_str(), None => None };
                let url = match lib.get("url") { Some(x) => x.as_str(), None => None };
                match (name, url) {
                    (Some(n), Some(u)) => {
                        let path = maven_name_to_path(n.as_str());
                        let dest = join(libs_dir, path.as_str());
                        let dl = concat(u.as_str(), path.as_str());
                        jobs.push(DownloadJob { url: dl, dest });
                    },
                    _ => {},
                }
                assert(jobs@.map_values(|j: DownloadJob| job_view(j)) =~= before + profile_library_job(items@[i as int], libs_dir@));
                i = i + 1;
            }
            assert(items@.take(i as int) =~= items@);
        },
        _ => {
            assert(jobs@.map_values(|j: DownloadJob| job_view(j)) =~= profile_library_jobs(profile_libraries(*profile), libs_dir@));
        },
    }
    jobs
}

/// The address listing a loader's versions for a game version.
pub fn loader_versions_url(meta_url: &str, mc_version: &str) -> (r: String)
    ensures
        r@ == meta_url@ + "/versions/loader/"@ + mc_version@,
{
    let mut u = concat(meta_url, "/versions/loader/");
    push_str(&mut u, mc_version);
    u
}

/// The address of a loader's launch profile.
pub fn loader_profile_url(meta_url: &str, mc_version: &str, loader_version: &str) -> (r: String)
    ensures
        r@ == meta_url@ + "/versions/loader/"@ + mc_version@ + "/"@ + loader_version@ + "/profile/json"@,
{
    let mut u = loader_versions_url(meta_url, mc_version);
    push_str(&mut u, "/");
    push_str(&mut u, loader_version);
    push_str(&mut u, "/profile/json");
    u
}

/// The file name of a Forge (`neoforge` false) or NeoForge installer.
pub fn installer_name(neoforge: bool, version: &str) -> (r: String)
    ensures
        r@ == (if neoforge { "neoforge-"@ } else { "forge-"@ }) + version@ + "-installer.jar"@,
{
    let mut n = if neoforge { "neoforge-".to_string() } else { "forge-".to_string() };
    push_str(&mut n, version);
    push_str(&mut n, "-installer.jar");
    n
}

/// The address of a Forge (`neoforge` false) or NeoForge installer.
pub fn installer_url(neoforge: bool, version: &str) -> (r: String)
    ensures
        r@ == (if neoforge { "https://maven.neoforged.net/releases/net/neoforged/neoforge/"@ } else {
            "https://maven.minecraftforge.net/net/minecraftforge/forge/"@
        }) + version@ + "/"@ + (if neoforge { "neoforge-"@ } else { "forge-"@ }) + version@ + "-installer.jar"@,
{
    let mut u = if neoforge {
        concat(NEOFORGE_MAVEN, "net/neoforged/neoforge/")
    } else {
        concat(FORGE_MAVEN, "net/minecraftforge/forge/")
    };
    proof {
        reveal_strlit("https://maven.neoforged.net/releases/");
        reveal_strlit("net/neoforged/neoforge/");
        reveal_strlit("https://maven.neoforged.net/releases/net/neoforged/neoforge/");
        reveal_strlit("https://maven.minecraftforge.net/");
        reveal_strlit("net/minecraftforge/forge/");
        reveal_strlit("https://maven.minecraftforge.net/net/minecraftforge/forge/");
    }
    push_str(&mut u, version);
    push_str(&mut u, "/");
    let name = installer_name(neoforge, version);
    push_str(&mut u, name.as_str());
    u
}

/// The address of Forge's promoted versions.
pub fn forge_promotions_url() -> (r: String)
    ensures
        r@ == "https://files.minecraftforge.net/net/minecraftforge/forge/promotions_slim.json"@,
{
    "https://files.minecraftforge.net/net/minecraftforge/forge/promotions_slim.json".to_string()
}

/// The address of NeoForge's version list.
pub fn neoforge_metadata_url() -> (r: String)
    ensures
        r@ == "https://maven.neoforged.net/releases/net/neoforged/neoforge/maven-metadata.xml"@,
{
    "https://maven.neoforged.net/releases/net/neoforged/neoforge/maven-metadata.xml".to_string()
}

/// The arguments after the Java program that run a Forge or NeoForge installer for the
/// client into an instance directory.
pub fn installer_args(installer_path: &str, instance_dir: &str) -> (r: Vec<String>)
    ensures
        r.deep_view() == seq!["-jar"@, installer_path@, "--installClient"@, instance_dir@],
{
    let mut r: Vec<String> = Vec::new();
    r.push("-jar".to_string());
    r.push(installer_path.to_string());
    r.push("--installClient".to_string());
    r.push(instance_dir.to_string());
    assert(r.deep_view() =~= seq!["-jar"@, installer_path@, "--installClient"@, instance_dir@]);
    r
}

/// The file in an instance directory where a loader's launch profile is kept; Vanilla
/// has none.
pub open spec fn profile_file_of(l: ModLoader) -> Option<Seq<char>> {
    match l {
        ModLoader::Vanilla => None,
        ModLoader::Fabric => Some("fabric-profile.json"@),
        ModLoader::Forge => Some("forge-profile.json"@),
        ModLoader::Quilt => Some("quilt-profile.json"@),
        ModLoader::NeoForge => Some("neoforge-profile.json"@),
    }
}

/// Where a loader's launch profile is kept in the instance directory `instance_dir`.
pub fn profile_path(instance_dir: &str, loader: ModLoader) -> (r: Option<String>)
    ensures
        match profile_file_of(loader) {
            Some(f) => r matches Some(p) && p@ == join_path(instance_dir@, f),
            None => r is None,
        },
{
    match loader {
        ModLoader::Vanilla => None,
        ModLoader::Fabric => Some(join(instance_dir, "fabric-profile.json")),
        ModLoader::Forge => Some(join(instance_dir, "forge-profile.json")),
        ModLoader::Quilt => Some(join(instance_dir, "quilt-profile.json")),
        ModLoader::NeoForge => Some(join(instance_dir, "neoforge-profile.json")),
    }
}

} // verus!
