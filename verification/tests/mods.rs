use glauncher::json::JsonValue;
use glauncher::mods::curseforge::{CurseForgeClient, CurseForgeFile};
use glauncher::mods::installed::{scanned_mod, InstalledMod, ModManager, ModSource};
use glauncher::mods::modrinth::{
    download_file_index, facets_param, project_url, project_versions_url, quoted_list_of, search_facet_list,
    search_params, search_url, version_params, ModrinthFile, ModrinthProject, ModrinthVersion, SearchQuery, SortBy,
};

fn pairs(v: &[(&str, &str)]) -> Vec<(String, String)> {
    v.iter().map(|(a, b)| (a.to_string(), b.to_string())).collect()
}

fn manager() -> ModManager {
    ModManager { mods: Vec::new(), mods_dir: "/inst/minecraft/mods".to_string(), meta_file: "/inst/minecraft/mods_meta.json".to_string() }
}

fn manual(id: &str, filename: &str) -> InstalledMod {
    InstalledMod::new_manual_with(filename, id.to_string(), "t".to_string())
}

#[test]
fn manual_mod_from_a_jar() {
    let m = manual("1", "sodium-0.5.jar");
    assert_eq!(m.name, "sodium-0.5");
    assert_eq!(m.filename, "sodium-0.5.jar");
    assert_eq!(m.version, "unknown");
    assert!(matches!(m.source, ModSource::Manual));
    assert!(m.enabled);
    let fresh = InstalledMod::new_manual("x.jar");
    assert_eq!(fresh.id.len(), 36);
    assert_eq!(fresh.name, "x");
}

#[test]
fn scanning_the_mods_directory() {
    let on = scanned_mod("lithium.jar", "a".to_string(), "t".to_string()).unwrap();
    assert!(on.enabled);
    assert_eq!(on.filename, "lithium.jar");
    let off = scanned_mod("lithium.jar.disabled", "b".to_string(), "t".to_string()).unwrap();
    assert!(!off.enabled);
    assert_eq!(off.filename, "lithium.jar");
    assert_eq!(off.name, "lithium");
    assert!(scanned_mod("readme.txt", "c".to_string(), "t".to_string()).is_none());
}

#[test]
fn adding_replaces_the_same_file() {
    let mut m = manager();
    m.add(manual("1", "a.jar"));
    m.add(manual("2", "b.jar"));
    m.add(manual("3", "a.jar"));
    let ids: Vec<&str> = m.mods.iter().map(|x| x.id.as_str()).collect();
    assert_eq!(ids, vec!["2", "3"]);
}

#[test]
fn removing_and_its_files() {
    let mut m = manager();
    m.add(manual("1", "a.jar"));
    m.add(manual("2", "b.jar"));
    assert_eq!(
        m.remove_paths("1"),
        Some(("/inst/minecraft/mods/a.jar".to_string(), "/inst/minecraft/mods/a.jar.disabled".to_string()))
    );
    assert_eq!(m.remove_paths("9"), None);
    m.remove("1");
    assert_eq!(m.mods.len(), 1);
    assert_eq!(m.mods[0].id, "2");
}

#[test]
fn toggling_twice_restores() {
    let mut m = manager();
    m.add(manual("1", "a.jar"));
    assert_eq!(
        m.toggle_rename("1"),
        Some(("/inst/minecraft/mods/a.jar".to_string(), "/inst/minecraft/mods/a.jar.disabled".to_string()))
    );
    m.toggle("1");
    assert!(!m.mods[0].enabled);
    assert_eq!(
        m.toggle_rename("1"),
        Some(("/inst/minecraft/mods/a.jar.disabled".to_string(), "/inst/minecraft/mods/a.jar".to_string()))
    );
    m.toggle("1");
    assert!(m.mods[0].enabled);
    m.toggle("missing");
    assert!(m.toggle_rename("missing").is_none());
}

#[test]
fn default_search_query() {
    let q = SearchQuery::default();
    assert_eq!(q.query, "");
    assert_eq!(q.limit, 20);
    assert_eq!(q.offset, 0);
    assert_eq!(q.project_type.as_deref(), Some("mod"));
    assert_eq!(q.sort_by, SortBy::Relevance);
    assert!(q.categories.is_empty());
}

#[test]
fn search_parameters_with_facets() {
    let mut q = SearchQuery::for_instance("sodium".to_string(), Some("1.20.1".to_string()), Some("Fabric".to_string()));
    q.categories = vec!["optimization".to_string()];
    q.sort_by = SortBy::Downloads;
    assert_eq!(
        search_facet_list(&q),
        vec!["project_type:mod", "versions:1.20.1", "categories:fabric", "categories:optimization"]
    );
    assert_eq!(
        search_params(&q),
        pairs(&[
            ("query", "sodium"),
            ("limit", "20"),
            ("offset", "0"),
            ("index", "downloads"),
            (
                "facets",
                "[[\"project_type:mod\"],[\"versions:1.20.1\"],[\"categories:fabric\"],[\"categories:optimization\"]]",
            ),
        ])
    );
}

#[test]
fn search_parameters_without_facets() {
    let mut q = SearchQuery::default();
    q.project_type = None;
    q.limit = 5;
    q.offset = 40;
    q.sort_by = SortBy::Updated;
    assert_eq!(search_params(&q), pairs(&[("query", ""), ("limit", "5"), ("offset", "40"), ("index", "updated")]));
    assert_eq!(facets_param(&Vec::new()), "");
}

#[test]
fn sort_index_names() {
    assert_eq!(SortBy::Relevance.index_name(), "relevance");
    assert_eq!(SortBy::Follows.index_name(), "follows");
    assert_eq!(SortBy::Newest.index_name(), "newest");
}

#[test]
fn modrinth_addresses() {
    assert_eq!(search_url(), "https://api.modrinth.com/v2/search");
    assert_eq!(project_versions_url("AANobbMI"), "https://api.modrinth.com/v2/project/AANobbMI/version");
    assert_eq!(project_url("sodium"), "https://api.modrinth.com/v2/project/sodium");
    assert_eq!(quoted_list_of("x"), "[\"x\"]");
}

#[test]
fn version_filters() {
    assert_eq!(
        version_params(Some("1.20.1"), Some("NeoForge")),
        pairs(&[("game_versions", "[\"1.20.1\"]"), ("loaders", "[\"neoforge\"]")])
    );
    assert_eq!(version_params(None, Some("QUILT")), pairs(&[("loaders", "[\"quilt\"]")]));
    assert_eq!(version_params(None, None), Vec::<(String, String)>::new());
}

fn file(name: &str, primary: bool) -> ModrinthFile {
    ModrinthFile {
        hashes: vec![("sha1".to_string(), "00".to_string())],
        url: format!("https://cdn/{name}"),
        filename: name.to_string(),
        primary,
        size: 1,
    }
}

fn version(files: Vec<ModrinthFile>) -> ModrinthVersion {
    ModrinthVersion {
        id: "v1".to_string(),
        project_id: "p".to_string(),
        name: "n".to_string(),
        version_number: "1".to_string(),
        changelog: None,
        dependencies: vec![],
        game_versions: vec![],
        version_type: "release".to_string(),
        loaders: vec![],
        featured: false,
        files,
        date_published: String::new(),
        downloads: 0,
    }
}

#[test]
fn download_takes_the_primary_file() {
    let v = version(vec![file("a.jar", false), file("b.jar", true), file("c.jar", true)]);
    assert_eq!(download_file_index(&v.files), Some(1));
    assert_eq!(v.download_target("/mods"), Ok(("https://cdn/b.jar".to_string(), "/mods/b.jar".to_string())));
}

#[test]
fn download_falls_back_to_the_first_file() {
    let v = version(vec![file("a.jar", false), file("b.jar", false)]);
    assert_eq!(v.download_target("/mods/"), Ok(("https://cdn/a.jar".to_string(), "/mods/a.jar".to_string())));
}

#[test]
fn version_without_files() {
    let v = version(vec![]);
    assert_eq!(download_file_index(&v.files), None);
    assert_eq!(v.download_target("/mods"), Err("No files found for version v1".to_string()));
}

#[test]
fn search_hit_labels() {
    let mut p = ModrinthProject {
        project_id: "id".to_string(),
        slug: "sodium".to_string(),
        title: "Sodium".to_string(),
        description: String::new(),
        categories: vec!["optimization".to_string(), "fabric".to_string()],
        downloads: 1,
        followers: 1,
        icon_url: None,
        project_type: "mod".to_string(),
        versions: vec![],
        date_created: None,
        date_modified: None,
        license: None,
        client_side: None,
        server_side: None,
        display_categories: None,
    };
    assert_eq!(p.shown_category(), "optimization");
    assert_eq!(p.page_url(), "https://modrinth.com/mod/id");
    p.categories.clear();
    assert_eq!(p.shown_category(), "mod");
}

fn cf_file(id: u64, url: Option<&str>) -> CurseForgeFile {
    CurseForgeFile {
        id,
        display_name: "d".to_string(),
        file_name: "jei.jar".to_string(),
        download_url: url.map(|u| u.to_string()),
        file_length: 1,
        hashes: vec![],
        game_versions: vec![],
        dependencies: vec![],
        release_type: 1,
    }
}

#[test]
fn curseforge_download_address() {
    assert_eq!(CurseForgeClient::get_download_url(&cf_file(4567890, Some("https://given")), 1), "https://given");
    assert_eq!(CurseForgeClient::get_download_url(&cf_file(4567890, None), 1), "https://edge.forgecdn.net/files/4567/890/jei.jar");
    assert_eq!(CurseForgeClient::get_download_url(&cf_file(123, None), 1), "https://edge.forgecdn.net/files/123//jei.jar");
    assert_eq!(CurseForgeClient::get_download_url(&cf_file(1234, None), 1), "https://edge.forgecdn.net/files/1234//jei.jar");
}

#[test]
fn curseforge_parameters() {
    assert_eq!(CurseForgeClient::search_url(), "https://api.curseforge.com/v1/mods/search");
    assert_eq!(CurseForgeClient::mod_files_url(238222), "https://api.curseforge.com/v1/mods/238222/files");
    assert_eq!(CurseForgeClient::mod_files_params(Some("1.20.1")), pairs(&[("pageSize", "20"), ("gameVersion", "1.20.1")]));
    assert_eq!(CurseForgeClient::mod_files_params(None), pairs(&[("pageSize", "20")]));
}

#[test]
fn curseforge_search_needs_a_key() {
    let http = reqwest::Client::new();
    let no_key = CurseForgeClient::new(http.clone(), None);
    assert_eq!(
        no_key.search_params("jei", None, None, 0),
        Err("CurseForge API key is required. Please add your API key in Settings.".to_string())
    );
    assert!(no_key.headers().is_empty());
    let client = CurseForgeClient::new(http, Some("KEY".to_string()));
    assert_eq!(client.headers(), pairs(&[("x-api-key", "KEY")]));
    assert_eq!(
        client.search_params("jei", Some("1.20.1"), Some(1), 2),
        Ok(pairs(&[
            ("gameId", "432"),
            ("classId", "6"),
            ("searchFilter", "jei"),
            ("index", "40"),
            ("pageSize", "20"),
            ("sortField", "2"),
            ("sortOrder", "desc"),
            ("gameVersion", "1.20.1"),
            ("modLoaderType", "1"),
        ]))
    );
}

#[test]
fn response_data_field() {
    let v = JsonValue::Object(vec![
        ("data".to_string(), JsonValue::Array(vec![JsonValue::Null])),
        ("pagination".to_string(), JsonValue::Null),
    ]);
    assert!(matches!(v.take_field("data"), JsonValue::Array(items) if items.len() == 1));
    let missing = JsonValue::Object(vec![]);
    assert!(matches!(missing.take_field("data"), JsonValue::Null));
    assert!(matches!(JsonValue::Bool(true).take_field("data"), JsonValue::Null));
}
