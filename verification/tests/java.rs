use glauncher::java::{
    adoptium_arch, adoptium_release_url, archive_kind, dedup_installs, java_install_dir, parse_java_version_string,
    parse_u32_exec, pick_java_among, pick_java_for_mc, sort_installs_by_major, tidy_detected, ArchiveKind, JavaInstall,
    SUPPORTED_JAVA_VERSIONS, SYSTEM_JAVA_DIRS,
};

fn install(major: u32, path: &str) -> JavaInstall {
    JavaInstall {
        major_version: major,
        version: format!("{major}.0.1"),
        path: path.to_string(),
        arch: "x86_64".to_string(),
        is_bundled: false,
    }
}

#[test]
fn java_binary_under_the_root() {
    assert_eq!(install(17, "/usr/lib/jvm/java-17").java_bin(), "/usr/lib/jvm/java-17/bin/java");
    assert_eq!(install(17, "/opt/jdk/").java_bin(), "/opt/jdk/bin/java");
}

#[test]
fn missing_runtime_is_not_available() {
    assert!(!install(17, "/nonexistent/glauncher-test-jdk").is_available());
    assert!(pick_java_for_mc(Some(17), &[install(17, "/nonexistent/glauncher-test-jdk")]).is_none());
}

#[test]
fn modern_version_output() {
    let out = "openjdk version \"17.0.9\" 2023-10-17\nOpenJDK Runtime Environment (build 17.0.9+9)\n";
    assert_eq!(parse_java_version_string(out), Some((17, "17.0.9".to_string())));
}

#[test]
fn legacy_version_output() {
    let out = "java version \"1.8.0_392\"\nJava(TM) SE Runtime Environment\n";
    assert_eq!(parse_java_version_string(out), Some((8, "1.8.0_392".to_string())));
}

#[test]
fn unreadable_version_output() {
    assert_eq!(parse_java_version_string("no such thing"), None);
    assert_eq!(parse_java_version_string("version without quotes"), None);
    assert_eq!(parse_java_version_string("version \"abc\""), None);
    assert_eq!(parse_java_version_string("version \"21\""), Some((21, "21".to_string())));
    assert_eq!(parse_java_version_string("openjdk version \"99999999999.0\""), None);
}

#[test]
fn parse_u32_like_std() {
    for text in ["0", "17", "+5", "4294967295", "4294967296", "", "+", "-1", "1a", "007"] {
        assert_eq!(parse_u32_exec(text), text.parse::<u32>().ok(), "{text}");
    }
}

#[test]
fn pick_nearest_newer_runtime() {
    let installs = vec![install(8, "a"), install(21, "b"), install(17, "c"), install(17, "d")];
    assert_eq!(pick_java_among(Some(17), &installs, &[true, true, true, true]), Some(2));
    assert_eq!(pick_java_among(Some(17), &installs, &[true, true, false, true]), Some(3));
    assert_eq!(pick_java_among(None, &installs, &[true, true, true, true]), Some(0));
    assert_eq!(pick_java_among(Some(11), &installs, &[true, true, true, true]), Some(2));
}

#[test]
fn pick_older_runtime_only_when_nothing_newer() {
    let installs = vec![install(8, "a"), install(11, "b")];
    assert_eq!(pick_java_among(Some(17), &installs, &[true, true]), Some(0));
    assert_eq!(pick_java_among(Some(17), &installs, &[false, false]), None);
}

#[test]
fn detected_runtimes_sorted_and_deduplicated() {
    let v = vec![install(21, "x"), install(8, "y"), install(17, "x"), install(8, "y"), install(17, "z")];
    let sorted = sort_installs_by_major(v.clone());
    let majors: Vec<(u32, &str)> = sorted.iter().map(|j| (j.major_version, j.path.as_str())).collect();
    assert_eq!(majors, vec![(8, "y"), (8, "y"), (17, "x"), (17, "z"), (21, "x")]);
    let tidy = tidy_detected(v);
    let got: Vec<(u32, &str)> = tidy.iter().map(|j| (j.major_version, j.path.as_str())).collect();
    assert_eq!(got, vec![(8, "y"), (17, "x"), (17, "z"), (21, "x")]);
}

#[test]
fn dedup_only_removes_neighbours() {
    let v = vec![install(8, "a"), install(9, "b"), install(10, "a"), install(11, "a")];
    let got: Vec<u32> = dedup_installs(v).iter().map(|j| j.major_version).collect();
    assert_eq!(got, vec![8, 9, 10]);
}

#[test]
fn adoptium_requests() {
    assert_eq!(adoptium_arch("x86_64"), Some("x64"));
    assert_eq!(adoptium_arch("aarch64"), Some("aarch64"));
    assert_eq!(adoptium_arch("riscv64"), None);
    assert_eq!(
        adoptium_release_url(21, "x64"),
        "https://api.adoptium.net/v3/assets/latest/21/hotspot?architecture=x64&image_type=jre&os=linux&vendor=eclipse"
    );
    assert_eq!(java_install_dir("/data/java", 17), "/data/java/java-17");
}

#[test]
fn archive_kinds() {
    assert_eq!(archive_kind("OpenJDK17.tar.gz"), ArchiveKind::TarGz);
    assert_eq!(archive_kind("jre.tgz"), ArchiveKind::TarGz);
    assert_eq!(archive_kind("jre.zip"), ArchiveKind::Zip);
    assert_eq!(archive_kind("jre.7z"), ArchiveKind::Unknown);
}

#[test]
fn constants() {
    assert_eq!(SUPPORTED_JAVA_VERSIONS, [8, 11, 17, 21, 22, 23, 24]);
    assert_eq!(SYSTEM_JAVA_DIRS, ["/usr/lib/jvm", "/usr/lib64/jvm", "/opt/java", "/opt/jdk"]);
}
