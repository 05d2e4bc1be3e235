use glauncher::auth::accounts::{Account, AccountType};
use glauncher::json::JsonValue;
use glauncher::minecraft::instances::{Instance, ModLoader};
use glauncher::minecraft::launcher::{
    asset_downloads, asset_hashes_cuttable, build_game_args, build_jvm_args, check_rules, classpath_entries,
    client_download_url, client_jar, exit_message, find_version, join_classpath, launch_args, library_downloads,
    native_jars, running_message, should_extract_entry, should_include_library, stderr_log_line, version_not_found,
    LaunchStage,
};
use glauncher::minecraft::versions::{
    Arguments, Artifact, AssetIndex, Download, ExtractConfig, LatestVersions, Library, LibraryDownloads, OsRule, Rule,
    VersionDownloads, VersionEntry, VersionManifest, VersionMeta, VersionType,
};

fn s(x: &str) -> JsonValue {
    JsonValue::Str(x.to_string())
}

fn obj(members: Vec<(&str, JsonValue)>) -> JsonValue {
    JsonValue::Object(members.into_iter().map(|(k, v)| (k.to_string(), v)).collect())
}

fn strings(v: &[&str]) -> Vec<String> {
    v.iter().map(|s| s.to_string()).collect()
}

fn rule(action: &str, os: Option<&str>) -> Rule {
    Rule {
        action: action.to_string(),
        os: os.map(|n| OsRule { name: Some(n.to_string()), arch: None, version: None }),
        features: None,
    }
}

fn artifact(path: &str) -> Artifact {
    Artifact { path: Some(path.to_string()), url: format!("https://libs/{path}"), sha1: None, size: None }
}

fn library(name: &str, path: Option<&str>, rules: Option<Vec<Rule>>) -> Library {
    Library {
        name: name.to_string(),
        downloads: Some(LibraryDownloads { artifact: path.map(artifact), classifiers: None }),
        rules,
        natives: None,
        extract: None,
        url: None,
    }
}

fn meta(libraries: Vec<Library>, arguments: Option<Arguments>, minecraft_arguments: Option<&str>) -> VersionMeta {
    VersionMeta {
        id: "1.20.1".to_string(),
        version_type: VersionType::Release,
        main_class: "net.minecraft.client.main.Main".to_string(),
        assets: Some("5".to_string()),
        asset_index: Some(AssetIndex { id: "5".to_string(), url: "https://idx".to_string(), sha1: None, size: None, total_size: None }),
        downloads: Some(VersionDownloads {
            client: Some(Download { url: "https://client.jar".to_string(), sha1: None, size: None }),
            server: None,
            client_mappings: None,
        }),
        libraries,
        arguments,
        minecraft_arguments: minecraft_arguments.map(|m| m.to_string()),
        java_version: None,
        release_time: None,
    }
}

fn offline_account() -> Account {
    Account {
        id: "acc".to_string(),
        username: "Steve".to_string(),
        uuid: "uuid-1".to_string(),
        account_type: AccountType::Offline,
        access_token: Some("0".to_string()),
        refresh_token: None,
        token_expiry: None,
        xuid: None,
        profile_icon: None,
    }
}

fn instance() -> Instance {
    Instance::new_with("inst".to_string(), "now".to_string(), "I", "1.20.1", ModLoader::Vanilla)
}

#[test]
fn libraries_without_rules_are_included() {
    assert!(should_include_library(&library("a", Some("a.jar"), None)));
    assert!(should_include_library(&library("a", Some("a.jar"), Some(vec![]))));
}

#[test]
fn first_linux_rule_decides() {
    assert!(!should_include_library(&library("a", None, Some(vec![rule("disallow", Some("linux")), rule("allow", None)]))));
    assert!(should_include_library(&library("a", None, Some(vec![rule("disallow", Some("osx")), rule("allow", None)]))));
    assert!(should_include_library(&library("a", None, Some(vec![rule("allow", Some("windows"))]))));
    assert!(!should_include_library(&library("a", None, Some(vec![rule("disallow", None)]))));
}

#[test]
fn argument_rules() {
    assert!(check_rules(None));
    assert!(check_rules(Some(&s("x"))));
    let allow_linux = JsonValue::Array(vec![obj(vec![("action", s("allow")), ("os", obj(vec![("name", s("linux"))]))])]);
    assert!(check_rules(Some(&allow_linux)));
    let only_osx = JsonValue::Array(vec![obj(vec![("action", s("allow")), ("os", obj(vec![("name", s("osx"))]))])]);
    assert!(check_rules(Some(&only_osx)));
    let disallow = JsonValue::Array(vec![obj(vec![("action", s("disallow"))])]);
    assert!(!check_rules(Some(&disallow)));
    let no_action = JsonValue::Array(vec![obj(vec![("features", obj(vec![]))])]);
    assert!(check_rules(Some(&no_action)));
}

#[test]
fn legacy_game_arguments_are_filled_in() {
    let m = meta(vec![], None, Some("--username ${auth_player_name} --version ${version_name}  --gameDir ${game_directory} --assetsDir ${assets_root} --assetIndex ${assets_index_name} --uuid ${auth_uuid} --accessToken ${auth_access_token} --userType ${user_type} --versionType ${version_type}"));
    let args = build_game_args(&m, &instance(), &offline_account(), "/g", "/a");
    assert_eq!(
        args,
        strings(&[
            "--username", "Steve", "--version", "1.20.1", "--gameDir", "/g", "--assetsDir", "/a", "--assetIndex", "5",
            "--uuid", "uuid-1", "--accessToken", "0", "--userType", "legacy", "--versionType", "GLauncher",
        ])
    );
}

#[test]
fn modern_game_arguments_take_values_and_window_size() {
    let game = vec![
        s("--clientId"),
        s("${clientid}"),
        obj(vec![("rules", JsonValue::Array(vec![])), ("value", JsonValue::Array(vec![s("--demo"), JsonValue::Null, s("--xuid=${auth_xuid}")]))]),
        obj(vec![("value", s("--props=${user_properties}"))]),
        JsonValue::Bool(true),
    ];
    let m = meta(vec![], Some(Arguments { game: Some(game), jvm: None }), None);
    let mut i = instance();
    i.game_resolution_auto = false;
    i.window_width = Some(1280);
    i.window_height = Some(720);
    let mut acc = offline_account();
    acc.account_type = AccountType::Microsoft;
    acc.xuid = Some("42".to_string());
    let args = build_game_args(&m, &i, &acc, "/g", "/a");
    assert_eq!(
        args,
        strings(&["--clientId", "GLauncher", "--demo", "--xuid=42", "--props={}", "--width", "1280", "--height", "720"])
    );
}

#[test]
fn fullscreen_has_no_window_size() {
    let m = meta(vec![], None, Some("--a ${user_type}"));
    let mut i = instance();
    i.fullscreen = true;
    i.game_resolution_auto = false;
    i.window_width = Some(1);
    i.window_height = Some(2);
    let mut acc = offline_account();
    acc.access_token = None;
    assert_eq!(build_game_args(&m, &i, &acc, "/g", "/a"), strings(&["--a", "legacy"]));
}

#[test]
fn legacy_jvm_arguments() {
    let m = meta(vec![], None, Some(""));
    let mut i = instance();
    i.jvm_settings.use_g1gc = false;
    let args = build_jvm_args(&m, &i, "/n", "/cp");
    assert_eq!(
        args,
        strings(&[
            "-Xms512m",
            "-Xmx2048m",
            "-XX:+UseStringDeduplication",
            "-Dfile.encoding=UTF-8",
            "-Dfml.ignoreInvalidMinecraftCertificates=true",
            "-Dfml.ignorePatchDiscrepancies=true",
            "-Djava.library.path=/n",
            "-Dminecraft.launcher.brand=GLauncher",
            "-Dminecraft.launcher.version=1.0.0",
            "-Djava.library.path=/n",
            "-cp",
            "/cp",
        ])
    );
}

#[test]
fn modern_jvm_arguments_add_classpath_when_missing() {
    let jvm = vec![
        s("-Dlib=${natives_directory}"),
        obj(vec![
            ("rules", JsonValue::Array(vec![obj(vec![("action", s("allow")), ("os", obj(vec![("name", s("osx"))]))])])),
            ("value", s("-XstartOnFirstThread")),
        ]),
        obj(vec![
            ("rules", JsonValue::Array(vec![obj(vec![("action", s("disallow")), ("os", obj(vec![("name", s("linux"))]))])])),
            ("value", s("-Dnope")),
        ]),
        s("-Dname=${launcher_name}-${launcher_version}"),
    ];
    let m = meta(vec![], Some(Arguments { game: None, jvm: Some(jvm) }), None);
    let mut i = instance();
    i.jvm_settings.use_g1gc = false;
    let args = build_jvm_args(&m, &i, "/n", "/cp");
    assert_eq!(
        &args[9..],
        &strings(&["-Dlib=/n", "-XstartOnFirstThread", "-Dname=GLauncher-1.0.0", "-cp", "/cp"])[..]
    );
}

#[test]
fn modern_jvm_arguments_keep_their_classpath() {
    let jvm = vec![s("-cp"), s("${classpath}")];
    let m = meta(vec![], Some(Arguments { game: None, jvm: Some(jvm) }), None);
    let mut i = instance();
    i.jvm_settings.use_g1gc = false;
    let args = build_jvm_args(&m, &i, "/n", "/cp");
    assert_eq!(&args[9..], &strings(&["-cp", "/cp"])[..]);
}

#[test]
fn library_downloads_include_natives() {
    let mut native = library("lwjgl", Some("lwjgl.jar"), None);
    native.natives = Some(vec![("linux".to_string(), "natives-linux".to_string())]);
    native.downloads.as_mut().unwrap().classifiers = Some(vec![
        ("natives-windows".to_string(), artifact("lwjgl-win.jar")),
        ("natives-linux".to_string(), artifact("lwjgl-linux.jar")),
    ]);
    native.extract = Some(ExtractConfig { exclude: Some(strings(&["META-INF/"])) });
    let skipped = library("mac", Some("mac.jar"), Some(vec![rule("allow", Some("osx")), rule("disallow", Some("linux"))]));
    let m = meta(vec![library("a", Some("a/a.jar"), None), native, skipped, library("b", None, None)], None, None);
    let jobs = library_downloads(&m, "/libs");
    let got: Vec<(String, String)> = jobs.iter().map(|j| (j.url.clone(), j.dest.clone())).collect();
    assert_eq!(
        got,
        vec![
            ("https://libs/a/a.jar".to_string(), "/libs/a/a.jar".to_string()),
            ("https://libs/lwjgl.jar".to_string(), "/libs/lwjgl.jar".to_string()),
            ("https://libs/lwjgl-linux.jar".to_string(), "/libs/lwjgl-linux.jar".to_string()),
        ]
    );
    let natives = native_jars(&m, "/libs");
    assert_eq!(natives.len(), 1);
    assert_eq!(natives[0].path, "/libs/lwjgl-linux.jar");
    assert_eq!(natives[0].exclude, strings(&["META-INF/"]));
    assert_eq!(classpath_entries(&m, "/libs"), strings(&["/libs/a/a.jar", "/libs/lwjgl.jar"]));
}

#[test]
fn natives_fall_back_to_linux_x86_64() {
    let mut native = library("n", None, None);
    native.natives = Some(vec![("linux-x86_64".to_string(), "nat".to_string())]);
    native.downloads.as_mut().unwrap().classifiers = Some(vec![("nat".to_string(), artifact("nat.jar"))]);
    let m = meta(vec![native], None, None);
    let natives = native_jars(&m, "/libs");
    assert_eq!(natives.len(), 1);
    assert!(natives[0].exclude.is_empty());
}

#[test]
fn extract_entries() {
    let exclude = strings(&["META-INF/"]);
    assert!(should_extract_entry("liblwjgl.so", &exclude));
    assert!(!should_extract_entry("META-INF/MANIFEST.MF", &exclude));
    assert!(!should_extract_entry("dir/", &exclude));
}

#[test]
fn classpath_joins_present_entries_and_client() {
    let entries = strings(&["/a.jar", "/b.jar", "/c.jar"]);
    assert_eq!(join_classpath(&entries, &vec![true, false, true], "/client.jar"), "/a.jar:/c.jar:/client.jar");
    assert_eq!(join_classpath(&vec![], &vec![], "/client.jar"), "/client.jar");
}

#[test]
fn version_lookup_and_client_jar() {
    let entry = |id: &str| VersionEntry {
        id: id.to_string(),
        version_type: VersionType::Release,
        url: format!("https://meta/{id}.json"),
        time: String::new(),
        release_time: String::new(),
        sha1: None,
    };
    let manifest = VersionManifest {
        latest: LatestVersions { release: "1.20.1".to_string(), snapshot: "23w31a".to_string() },
        versions: vec![entry("1.20.1"), entry("1.19.4")],
    };
    assert_eq!(find_version(&manifest, "1.19.4").unwrap().url, "https://meta/1.19.4.json");
    assert!(find_version(&manifest, "1.0").is_none());
    assert_eq!(client_jar("/v", "1.20.1"), "/v/1.20.1/1.20.1.jar");
    let m = meta(vec![], None, None);
    assert_eq!(client_download_url(&m).map(|u| u.as_str()), Some("https://client.jar"));
    let mut none = meta(vec![], None, None);
    none.downloads = None;
    assert!(client_download_url(&none).is_none());
}

#[test]
fn asset_downloads_from_index() {
    let index = obj(vec![(
        "objects",
        obj(vec![
            ("icons/a.png", obj(vec![("hash", s("abcdef")), ("size", JsonValue::Number("3".to_string()))])),
            ("x", obj(vec![("hash", s("a"))])),
            ("y", obj(vec![])),
            ("z", obj(vec![("hash", s("ébc"))])),
        ]),
    )]);
    assert!(asset_hashes_cuttable(&index));
    let jobs = asset_downloads(&index, "/objects");
    let got: Vec<(String, String)> = jobs.iter().map(|j| (j.url.clone(), j.dest.clone())).collect();
    assert_eq!(
        got,
        vec![
            ("https://resources.download.minecraft.net/ab/abcdef".to_string(), "/objects/ab/abcdef".to_string()),
            ("https://resources.download.minecraft.net/é/ébc".to_string(), "/objects/é/ébc".to_string()),
        ]
    );
    assert!(asset_downloads(&obj(vec![]), "/o").is_empty());
}

#[test]
fn asset_hash_that_cannot_be_cut() {
    let index = obj(vec![("objects", obj(vec![("a", obj(vec![("hash", s("aé"))]))]))]);
    assert!(!asset_hashes_cuttable(&index));
    let index = obj(vec![("objects", obj(vec![("a", obj(vec![("hash", s("€x"))]))]))]);
    assert!(!asset_hashes_cuttable(&index));
}

#[test]
fn launch_stages_in_order() {
    let mut stage = LaunchStage::FetchingMetadata;
    let mut messages = vec![stage.message().to_string()];
    while let Some(next) = stage.next() {
        stage = next;
        messages.push(stage.message().to_string());
    }
    assert_eq!(
        messages,
        strings(&[
            "Fetching version metadata...",
            "Downloading client jar...",
            "Downloading libraries...",
            "Downloading assets...",
            "Extracting natives...",
            "Launching game...",
            "Game running!",
        ])
    );
}

#[test]
fn game_command_line() {
    let args = launch_args(&strings(&["-Xmx1m", "-cp", "x"]), "Main", &strings(&["--demo"]));
    assert_eq!(args, strings(&["-Xmx1m", "-cp", "x", "Main", "--demo"]));
}

#[test]
fn launch_messages() {
    assert_eq!(exit_message(0, 12), "Game exited normally after 12s");
    assert_eq!(exit_message(1, 0), "Game exited with code 1 after 0s");
    assert_eq!(exit_message(-1, 5), "Game exited with code -1 after 5s");
    assert_eq!(exit_message(i32::MIN, 5), "Game exited with code -2147483648 after 5s");
    assert_eq!(running_message(4242), "Game running (PID 4242)");
    assert_eq!(stderr_log_line("boom"), "[ERR] boom");
    assert_eq!(version_not_found("9.9"), "Version 9.9 not found");
}
