//! Minecraft version metadata as published in Mojang's version manifest.

use vstd::prelude::*;
use crate::json::JsonValue;
use crate::text::concat;
use crate::utils::paths::{join, join_path};

verus! {

/// The address of Mojang's version manifest.
pub const VERSION_MANIFEST_URL: &'static str = "https://launchermeta.mojang.com/mc/game/version_manifest_v2.json";

/// The kind of a Minecraft version.
#[derive(Debug, Clone, Copy, PartialEq, Eq, Structural)]
pub enum VersionType {
    Release,
    Snapshot,
    OldBeta,
    OldAlpha,
}

/// The display name of a version type.
pub open spec fn version_type_name(t: VersionType) -> Seq<char> {
    match t {
        VersionType::Release => "Release"@,
        VersionType::Snapshot => "Snapshot"@,
        VersionType::OldBeta => "Beta"@,
        VersionType::OldAlpha => "Alpha"@,
    }
}

impl VersionType {
    /// The display name.
    pub fn to_string(&self) -> (r: String)
        ensures
            r@ == version_type_name(*self),
    {
        match self {
            VersionType::Release => "Release".to_string(),
            VersionType::Snapshot => "Snapshot".to_string(),
            VersionType::OldBeta => "Beta".to_string(),
            VersionType::OldAlpha => "Alpha".to_string(),
        }
    }
}

/// One version listed in the manifest.
#[derive(Debug, Clone)]
pub struct VersionEntry {
    pub id: String,
    pub version_type: VersionType,
    pub url: String,
    pub time: String,
    pub release_time: String,
    pub sha1: Option<String>,
}

/// The version manifest.
#[derive(Debug, Clone)]
pub struct VersionManifest {
    pub latest: LatestVersions,
    pub versions: Vec<VersionEntry>,
}

/// The newest release and snapshot.
#[derive(Debug, Clone)]
pub struct LatestVersions {
    pub release: String,
    pub snapshot: String,
}

/// The full metadata of one version.
#[derive(Debug)]
pub struct VersionMeta {
    pub id: String,
    pub version_type: VersionType,
    pub main_class: String,
    pub assets: Option<String>,
    pub asset_index: Option<AssetIndex>,
    pub downloads: Option<VersionDownloads>,
    pub libraries: Vec<Library>,
    pub arguments: Option<Arguments>,
    pub minecraft_arguments: Option<String>,
    pub java_version: Option<JavaVersion>,
    pub release_time: Option<String>,
}

/// Where the version's asset index is.
#[derive(Debug, Clone)]
pub struct AssetIndex {
    pub id: String,
    pub url: String,
    pub sha1: Option<String>,
    pub size: Option<u64>,
    pub total_size: Option<u64>,
}

/// The version's client and server jars.
#[derive(Debug, Clone)]
pub struct VersionDownloads {
    pub client: Option<Download>,
    pub server: Option<Download>,
    pub client_mappings: Option<Download>,
}

/// A downloadable file.
#[derive(Debug, Clone)]
pub struct Download {
    pub url: String,
    pub sha1: Option<String>,
    pub size: Option<u64>,
}

/// A library the game needs. `natives` maps an OS name to a classifier; its pairs are
/// the entries of a JSON object, so no OS name occurs twice and the first pair with a
/// name is the map's value for it.
#[derive(Debug, Clone)]
pub struct Library {
    pub name: String,
    pub downloads: Option<LibraryDownloads>,
    pub rules: Option<Vec<Rule>>,
    pub natives: Option<Vec<(String, String)>>,
    pub extract: Option<ExtractConfig>,
    pub url: Option<String>,
}

/// A library's main artifact and its classified (native) artifacts. `classifiers` holds
/// the entries of a JSON object: no classifier occurs twice, so the first pair with a
/// name is the map's value for it.
#[derive(Debug, Clone)]
pub struct LibraryDownloads {
    pub artifact: Option<Artifact>,
    pub classifiers: Option<Vec<(String, Artifact)>>,
}

/// A library file.
#[derive(Debug, Clone)]
pub struct Artifact {
    pub path: Option<String>,
    pub url: String,
    pub sha1: Option<String>,
    pub size: Option<u64>,
}

/// A rule that allows or disallows a library. `features` holds the entries of a JSON
/// object: no feature occurs twice, so the first pair with a name is the map's value.
#[derive(Debug, Clone)]
pub struct Rule {
    pub action: String,
    pub os: Option<OsRule>,
    pub features: Option<Vec<(String, bool)>>,
}

/// The operating system a rule speaks of.
#[derive(Debug, Clone)]
pub struct OsRule {
    pub name: Option<String>,
    pub arch: Option<String>,
    pub version: Option<String>,
}

/// Which entries of a native jar to leave out when extracting it.
#[derive(Debug, Clone)]
pub struct ExtractConfig {
    pub exclude: Option<Vec<String>>,
}

/// The version's launch arguments (the newer format).
#[derive(Debug)]
pub struct Arguments {
    pub game: Option<Vec<JsonValue>>,
    pub jvm: Option<Vec<JsonValue>>,
}

/// The Java version the game needs.
#[derive(Debug, Clone)]
pub struct JavaVersion {
    pub component: String,
    pub major_version: u32,
}

/// How long a saved copy of the version manifest is used, in seconds.
pub const MANIFEST_CACHE_SECS: u64 = 600;

/// Whether a saved manifest `age` seconds old is still used instead of fetching anew.
pub fn manifest_cache_fresh(age: u64) -> (r: bool)
    ensures
        r == (age < 600),
{
    age < MANIFEST_CACHE_SECS
}

/// Where the version manifest is saved: `<versions_dir>/version_manifest_v2.json`.
pub fn manifest_cache_path(versions_dir: &str) -> (r: String)
    ensures
        r@ == join_path(versions_dir@, "version_manifest_v2.json"@),
{
    join(versions_dir, "version_manifest_v2.json")
}

/// Where a version's metadata is saved: `<versions_dir>/<id>/<id>.json`.
pub fn version_meta_cache_path(versions_dir: &str, id: &str) -> (r: String)
    ensures
        r@ == join_path(join_path(versions_dir@, id@), id@ + ".json"@),
{
    let d = join(versions_dir, id);
    join(d.as_str(), concat(id, ".json").as_str())
}

/// Fetches version metadata over an HTTP client.
pub struct VersionManager {
    client: reqwest::Client,
}

impl VersionManager {
    /// The HTTP client requests go through.
    pub closed spec fn http_client(self) -> reqwest::Client {
        self.client
    }

    /// A version manager over `client`.
    pub fn new(client: reqwest::Client) -> (r: Self)
        ensures
            r.http_client() == client,
    {
        VersionManager { client }
    }

    /// The HTTP client requests go through.
    pub fn http(&self) -> (r: &reqwest::Client)
        ensures
            *r == self.http_client(),
    {
        &self.client
    }
}

} // verus!
