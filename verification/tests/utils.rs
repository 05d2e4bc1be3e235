use glauncher::minecraft::versions::{
    manifest_cache_fresh, manifest_cache_path, version_meta_cache_path, VersionEntry, VersionType,
};
use glauncher::utils::config::{color_scheme_for, version_label, AppConfig, ColorScheme};
use glauncher::utils::download::{progress_file_name, DownloadProgress, USER_AGENT};
use glauncher::utils::paths::{
    accounts_file, assets_dir, config_file, data_dir, instances_dir, java_dir, join, launcher_dir, launcher_path,
    libraries_dir, versions_dir,
};

fn entry(id: &str, t: VersionType) -> VersionEntry {
    VersionEntry {
        id: id.to_string(),
        version_type: t,
        url: String::new(),
        time: String::new(),
        release_time: String::new(),
        sha1: None,
    }
}

#[test]
fn unix_path_join() {
    assert_eq!(join("/a", "b"), "/a/b");
    assert_eq!(join("/a/", "b"), "/a/b");
    assert_eq!(join("", "b"), "b");
    assert_eq!(join("/a", "/etc"), "/etc");
    assert_eq!(join("/a", ""), "/a/");
}

#[test]
fn launcher_directories() {
    let d = data_dir();
    assert!(d.ends_with("GLauncher"));
    assert_eq!(instances_dir(), format!("{d}/instances"));
    assert_eq!(java_dir(), format!("{d}/java"));
    assert_eq!(assets_dir(), format!("{d}/assets"));
    assert_eq!(libraries_dir(), format!("{d}/libraries"));
    assert_eq!(versions_dir(), format!("{d}/versions"));
    assert_eq!(config_file(), format!("{d}/config.json"));
    assert_eq!(accounts_file(), format!("{d}/accounts.json"));
    if let Some(base) = dirs::data_dir() {
        assert_eq!(d, base.join("GLauncher").to_string_lossy());
    }
}

#[test]
fn launcher_directory_under_a_given_data_directory() {
    assert_eq!(launcher_dir(Some("/home/u/.local/share")), "/home/u/.local/share/GLauncher");
    assert_eq!(launcher_dir(Some("/data/")), "/data/GLauncher");
    assert_eq!(launcher_dir(None), "./GLauncher");
    assert_eq!(launcher_path(Some("/home/u/.local/share"), "instances"), "/home/u/.local/share/GLauncher/instances");
    assert_eq!(launcher_path(Some("/home/u/.local/share"), "accounts.json"), "/home/u/.local/share/GLauncher/accounts.json");
    assert_eq!(launcher_path(None, "config.json"), "./GLauncher/config.json");
}

#[test]
fn default_config() {
    let c = AppConfig::default();
    assert_eq!(c.theme, "system");
    assert_eq!(c.language, "en");
    assert!(!c.close_on_launch && !c.show_snapshots && !c.show_beta && !c.show_alpha && !c.analytics_opt_in);
    assert_eq!(c.concurrent_downloads, 4);
    assert_eq!(c.default_memory_min, 512);
    assert_eq!(c.default_memory_max, 2048);
}

#[test]
fn versions_offered_by_settings() {
    let versions = vec![
        entry("1.20.1", VersionType::Release),
        entry("23w31a", VersionType::Snapshot),
        entry("b1.7.3", VersionType::OldBeta),
        entry("a1.2.6", VersionType::OldAlpha),
        entry("1.19", VersionType::Release),
    ];
    let mut c = AppConfig::default();
    let shown: Vec<String> = c.visible_versions(versions.clone()).into_iter().map(|v| v.id).collect();
    assert_eq!(shown, vec!["1.20.1", "1.19"]);
    c.show_beta = true;
    c.show_snapshots = true;
    let shown: Vec<String> = c.visible_versions(versions).into_iter().map(|v| v.id).collect();
    assert_eq!(shown, vec!["1.20.1", "23w31a", "b1.7.3", "1.19"]);
    assert!(c.shows(VersionType::Release));
    assert!(!c.shows(VersionType::OldAlpha));
}

#[test]
fn version_labels() {
    assert_eq!(version_label(&entry("1.20.1", VersionType::Release)), "1.20.1 (Release)");
    assert_eq!(version_label(&entry("b1.7.3", VersionType::OldBeta)), "b1.7.3 (Beta)");
    assert_eq!(VersionType::OldAlpha.to_string(), "Alpha");
    assert_eq!(VersionType::Snapshot.to_string(), "Snapshot");
}

#[test]
fn theme_color_schemes() {
    assert_eq!(color_scheme_for("light"), ColorScheme::ForceLight);
    assert_eq!(color_scheme_for("dark"), ColorScheme::ForceDark);
    assert_eq!(color_scheme_for("system"), ColorScheme::Default);
    assert_eq!(color_scheme_for("Dark"), ColorScheme::Default);
}

#[test]
fn progress_names_like_path_file_name() {
    for dest in ["/a/b/c.jar", "/a/b/", "c.jar", "/", "", "a/..", "a/.", "./", ".", "/x//y//", "a/b/../c"] {
        let expected = std::path::Path::new(dest)
            .file_name()
            .and_then(|n| n.to_str())
            .unwrap_or("unknown")
            .to_string();
        assert_eq!(progress_file_name(dest), expected, "{dest}");
    }
}

#[test]
fn download_progress_counts_chunks() {
    let mut p = DownloadProgress::start(100, "a.jar".to_string());
    p.record_chunk(30);
    p.record_chunk(70);
    assert_eq!(p.downloaded, 100);
    assert_eq!(p.total, 100);
    assert_eq!(p.filename, "a.jar");
}

#[test]
fn version_caches() {
    assert!(manifest_cache_fresh(0));
    assert!(manifest_cache_fresh(599));
    assert!(!manifest_cache_fresh(600));
    assert_eq!(manifest_cache_path("/v"), "/v/version_manifest_v2.json");
    assert_eq!(version_meta_cache_path("/v", "1.20.1"), "/v/1.20.1/1.20.1.json");
    assert!(USER_AGENT.starts_with("GLauncher/1.0.0"));
}
