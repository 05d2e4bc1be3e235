use glauncher::json::JsonValue;
use glauncher::minecraft::instances::ModLoader;
use glauncher::minecraft::loaders::{
    forge_promotions_url, forge_versions_from, installer_args, installer_name, installer_url, loader_profile_url,
    loader_versions_from, loader_versions_url, maven_name_to_path, neoforge_metadata_url, neoforge_versions_from,
    profile_library_downloads, profile_path, FABRIC_META_URL, QUILT_META_URL,
};

fn s(x: &str) -> JsonValue {
    JsonValue::Str(x.to_string())
}

fn obj(members: Vec<(&str, JsonValue)>) -> JsonValue {
    JsonValue::Object(members.into_iter().map(|(k, v)| (k.to_string(), v)).collect())
}

#[test]
fn maven_coordinates_to_paths() {
    assert_eq!(
        maven_name_to_path("net.fabricmc:fabric-loader:0.15.7"),
        "net/fabricmc/fabric-loader/0.15.7/fabric-loader-0.15.7.jar"
    );
    assert_eq!(maven_name_to_path("a.b:c:1:extra"), "a/b/c/1:extra/c-1:extra.jar");
    assert_eq!(maven_name_to_path("a.b:c"), "a.b/c.jar");
    assert_eq!(maven_name_to_path("plain"), "plain.jar");
}

#[test]
fn fabric_loader_listing() {
    let data = vec![
        obj(vec![("loader", obj(vec![("version", s("0.15.7")), ("stable", JsonValue::Bool(true))]))]),
        obj(vec![("loader", obj(vec![("version", s("0.16.0-beta")), ("stable", s("no"))]))]),
        obj(vec![("loader", obj(vec![("version", s("0.1"))]))]),
        obj(vec![("intermediary", obj(vec![]))]),
    ];
    let v = loader_versions_from(&data, false);
    let got: Vec<(String, bool)> = v.iter().map(|x| (x.version.clone(), x.stable)).collect();
    assert_eq!(got, vec![("0.15.7".to_string(), true), ("0.16.0-beta".to_string(), false)]);
}

#[test]
fn quilt_loader_listing() {
    let data = vec![
        obj(vec![("loader", obj(vec![("version", s("0.26.0-beta.1"))]))]),
        obj(vec![("loader", obj(vec![("version", s("0.25.0"))]))]),
        obj(vec![("loader", obj(vec![("version", JsonValue::Bool(true))]))]),
    ];
    let v = loader_versions_from(&data, true);
    let got: Vec<(String, bool)> = v.iter().map(|x| (x.version.clone(), x.stable)).collect();
    assert_eq!(got, vec![("0.26.0-beta.1".to_string(), false), ("0.25.0".to_string(), true)]);
}

#[test]
fn forge_promotions() {
    let data = obj(vec![(
        "promos",
        obj(vec![("1.20.1-recommended", s("47.2.0")), ("1.20.1-latest", s("47.3.0")), ("1.19-latest", s("41.0.1"))]),
    )]);
    let v = forge_versions_from(&data, "1.20.1");
    let got: Vec<(String, String, bool, bool)> =
        v.iter().map(|x| (x.version.clone(), x.mc_version.clone(), x.recommended, x.latest)).collect();
    assert_eq!(
        got,
        vec![
            ("1.20.1-47.2.0".to_string(), "1.20.1".to_string(), true, false),
            ("1.20.1-47.3.0".to_string(), "1.20.1".to_string(), false, true),
        ]
    );
    let latest_only = forge_versions_from(&data, "1.19");
    assert_eq!(latest_only.len(), 1);
    assert!(latest_only[0].latest);
    assert!(forge_versions_from(&data, "1.8").is_empty());
}

#[test]
fn forge_same_recommended_and_latest() {
    let data = obj(vec![("promos", obj(vec![("1.20.1-recommended", s("47.2.0")), ("1.20.1-latest", s("47.2.0"))]))]);
    let v = forge_versions_from(&data, "1.20.1");
    assert_eq!(v.len(), 1);
    assert!(v[0].recommended);
}

#[test]
fn neoforge_versions_newest_first() {
    let text = "<metadata>\n  <versioning>\n    <versions>\n      <version>20.4.1</version>\n      <version>20.2.3-beta</version>\n      <version>20.4.2</version>\n      <version>21.0.1</version>\n    </versions>\n  </versioning>\n</metadata>\n";
    let v = neoforge_versions_from(text, "1.20.4");
    let got: Vec<(String, bool)> = v.iter().map(|x| (x.version.clone(), x.is_latest)).collect();
    assert_eq!(got, vec![("20.4.2".to_string(), true), ("20.4.1".to_string(), false)]);
}

#[test]
fn neoforge_keeps_at_most_twenty() {
    let mut text = String::new();
    for k in 0..25 {
        text.push_str(&format!("<version>21.1.{k}</version>\n"));
    }
    let v = neoforge_versions_from(&text, "1.21.1");
    assert_eq!(v.len(), 20);
    assert_eq!(v[0].version, "21.1.24");
    assert!(v[0].is_latest);
    assert_eq!(v[19].version, "21.1.5");
    assert!(!v[19].is_latest);
}

#[test]
fn profile_libraries_to_download() {
    let profile = obj(vec![(
        "libraries",
        JsonValue::Array(vec![
            obj(vec![("name", s("net.fabricmc:fabric-loader:0.15.7")), ("url", s("https://maven.fabricmc.net/"))]),
            obj(vec![("name", s("no:url:1"))]),
        ]),
    )]);
    let jobs = profile_library_downloads(&profile, "/libs");
    assert_eq!(jobs.len(), 1);
    assert_eq!(
        jobs[0].url,
        "https://maven.fabricmc.net/net/fabricmc/fabric-loader/0.15.7/fabric-loader-0.15.7.jar"
    );
    assert_eq!(jobs[0].dest, "/libs/net/fabricmc/fabric-loader/0.15.7/fabric-loader-0.15.7.jar");
    assert!(profile_library_downloads(&obj(vec![]), "/libs").is_empty());
}

#[test]
fn loader_addresses() {
    assert_eq!(loader_versions_url(FABRIC_META_URL, "1.20.1"), "https://meta.fabricmc.net/v2/versions/loader/1.20.1");
    assert_eq!(
        loader_profile_url(QUILT_META_URL, "1.20.1", "0.25.0"),
        "https://meta.quiltmc.org/v3/versions/loader/1.20.1/0.25.0/profile/json"
    );
    assert_eq!(installer_name(false, "1.20.1-47.2.0"), "forge-1.20.1-47.2.0-installer.jar");
    assert_eq!(
        installer_url(false, "1.20.1-47.2.0"),
        "https://maven.minecraftforge.net/net/minecraftforge/forge/1.20.1-47.2.0/forge-1.20.1-47.2.0-installer.jar"
    );
    assert_eq!(
        installer_url(true, "20.4.2"),
        "https://maven.neoforged.net/releases/net/neoforged/neoforge/20.4.2/neoforge-20.4.2-installer.jar"
    );
    assert_eq!(forge_promotions_url(), "https://files.minecraftforge.net/net/minecraftforge/forge/promotions_slim.json");
    assert_eq!(neoforge_metadata_url(), "https://maven.neoforged.net/releases/net/neoforged/neoforge/maven-metadata.xml");
}

#[test]
fn installer_command_and_profiles() {
    assert_eq!(installer_args("/i/f.jar", "/i"), vec!["-jar", "/i/f.jar", "--installClient", "/i"]);
    assert_eq!(profile_path("/i", ModLoader::Fabric), Some("/i/fabric-profile.json".to_string()));
    assert_eq!(profile_path("/i/", ModLoader::NeoForge), Some("/i/neoforge-profile.json".to_string()));
    assert_eq!(profile_path("/i", ModLoader::Vanilla), None);
}
