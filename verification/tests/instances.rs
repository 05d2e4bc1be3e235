use glauncher::minecraft::instances::{
    default_memory_min, extra_args_text, new_instance_from_form, parse_extra_jvm_args, sort_by_last_played, Instance,
    InstanceManager, InstanceSettingsForm, JvmSettings, ModLoader,
};

fn strings(v: &[&str]) -> Vec<String> {
    v.iter().map(|s| s.to_string()).collect()
}

fn instance(id: &str) -> Instance {
    Instance::new_with(id.to_string(), "2024-01-01T00:00:00+00:00".to_string(), "Test", "1.20.1", ModLoader::Fabric)
}

const COMMON: [&str; 4] = [
    "-XX:+UseStringDeduplication",
    "-Dfile.encoding=UTF-8",
    "-Dfml.ignoreInvalidMinecraftCertificates=true",
    "-Dfml.ignorePatchDiscrepancies=true",
];

#[test]
fn default_jvm_settings_flags() {
    let s = JvmSettings::default();
    let mut expected = strings(&[
        "-Xms512m",
        "-Xmx2048m",
        "-XX:+UseG1GC",
        "-XX:+UnlockExperimentalVMOptions",
        "-XX:G1NewSizePercent=20",
        "-XX:G1ReservePercent=20",
        "-XX:MaxGCPauseMillis=50",
        "-XX:G1HeapRegionSize=32M",
    ]);
    expected.extend(strings(&COMMON));
    assert_eq!(s.build_flags(), expected);
}

#[test]
fn zgc_flags_with_extra_arguments() {
    let mut s = JvmSettings::default();
    s.use_zgc = true;
    s.memory_min_mb = 1024;
    s.memory_max_mb = 4096;
    s.extra_jvm_args = strings(&["-Dfoo=bar"]);
    let mut expected = strings(&["-Xms1024m", "-Xmx4096m", "-XX:+UseZGC", "-XX:+UnlockExperimentalVMOptions"]);
    expected.extend(strings(&COMMON));
    expected.push("-Dfoo=bar".to_string());
    assert_eq!(s.build_flags(), expected);
}

#[test]
fn aikar_flags_win_over_other_presets() {
    let mut s = JvmSettings::default();
    s.use_aikar_flags = true;
    s.use_zgc = true;
    let flags = s.build_flags();
    assert_eq!(flags.len(), 2 + 20 + 4);
    assert_eq!(flags[2], "-XX:+UseG1GC");
    assert_eq!(flags[3], "-XX:+ParallelRefProcEnabled");
    assert_eq!(flags[21], "-Daikars.new.flags=true");
}

#[test]
fn shenandoah_and_no_preset() {
    let mut s = JvmSettings::default();
    s.use_g1gc = false;
    s.use_shenandoah = true;
    assert_eq!(&s.build_flags()[2..4], &strings(&["-XX:+UseShenandoahGC", "-XX:ShenandoahGCMode=iu"])[..]);
    s.use_shenandoah = false;
    let mut expected = strings(&["-Xms512m", "-Xmx2048m"]);
    expected.extend(strings(&COMMON));
    assert_eq!(s.build_flags(), expected);
}

#[test]
fn gc_preset_round_trip() {
    for preset in 0..5u32 {
        let mut s = JvmSettings::default();
        s.apply_gc_preset(preset);
        assert_eq!(s.gc_preset(), preset);
    }
    let mut s = JvmSettings::default();
    s.apply_gc_preset(9);
    assert_eq!(s.gc_preset(), 4);
    assert!(!s.use_g1gc && !s.use_aikar_flags && !s.use_zgc && !s.use_shenandoah);
}

#[test]
fn gc_preset_shown_for_settings() {
    let mut s = JvmSettings::default();
    assert_eq!(s.gc_preset(), 0);
    s.use_shenandoah = true;
    assert_eq!(s.gc_preset(), 3);
    s.use_zgc = true;
    assert_eq!(s.gc_preset(), 2);
    s.use_aikar_flags = true;
    assert_eq!(s.gc_preset(), 1);
}

#[test]
fn extra_args_are_trimmed_lines() {
    assert_eq!(parse_extra_jvm_args("  -Dfoo=bar \n\n\t-Xss2m\r\n   \n-Dx"), strings(&["-Dfoo=bar", "-Xss2m", "-Dx"]));
    assert_eq!(parse_extra_jvm_args(""), Vec::<String>::new());
}

#[test]
fn extra_args_round_trip() {
    let args = strings(&["-Dfoo=bar", "-Xss2m", "-Da b"]);
    let text = extra_args_text(&args);
    assert_eq!(text, "-Dfoo=bar\n-Xss2m\n-Da b");
    assert_eq!(parse_extra_jvm_args(&text), args);
    assert_eq!(extra_args_text(&Vec::new()), "");
}

#[test]
fn memory_min_is_a_quarter_but_at_least_256() {
    assert_eq!(default_memory_min(4096), 1024);
    assert_eq!(default_memory_min(1024), 256);
    assert_eq!(default_memory_min(1028), 257);
    assert_eq!(default_memory_min(0), 256);
}

#[test]
fn loaders_by_list_position() {
    assert_eq!(ModLoader::from_index(0), ModLoader::Vanilla);
    assert_eq!(ModLoader::from_index(1), ModLoader::Fabric);
    assert_eq!(ModLoader::from_index(2), ModLoader::Forge);
    assert_eq!(ModLoader::from_index(3), ModLoader::Quilt);
    assert_eq!(ModLoader::from_index(4), ModLoader::NeoForge);
    assert_eq!(ModLoader::from_index(7), ModLoader::Vanilla);
}

#[test]
fn loader_names() {
    assert_eq!(ModLoader::NeoForge.to_string(), "NeoForge");
    assert_eq!(ModLoader::Vanilla.modrinth_slug(), None);
    assert_eq!(ModLoader::Quilt.modrinth_slug(), Some("quilt"));
    assert_eq!(ModLoader::NeoForge.modrinth_slug(), Some("neoforge"));
}

#[test]
fn new_instance_defaults() {
    let i = Instance::new("My World", "1.20.4", ModLoader::Forge);
    assert_eq!(i.id.len(), 36);
    assert_eq!(i.name, "My World");
    assert_eq!(i.minecraft_version, "1.20.4");
    assert_eq!(i.mod_loader, ModLoader::Forge);
    assert_eq!(i.jvm_settings.memory_min_mb, 512);
    assert_eq!(i.jvm_settings.memory_max_mb, 2048);
    assert!(i.jvm_settings.use_g1gc);
    assert_eq!(i.play_time_seconds, 0);
    assert!(i.last_played.is_none());
    assert!(i.game_resolution_auto);
    assert!(!i.fullscreen);
    assert!(!i.created_at.is_empty());
}

#[test]
fn instance_paths_are_under_the_launcher_directory() {
    let i = instance("abc");
    assert!(i.dir().ends_with("GLauncher/instances/abc"));
    assert_eq!(i.minecraft_dir(), format!("{}/minecraft", i.dir()));
    assert_eq!(i.mods_dir(), format!("{}/minecraft/mods", i.dir()));
    assert_eq!(i.saves_dir(), format!("{}/minecraft/saves", i.dir()));
    assert_eq!(i.screenshots_dir(), format!("{}/minecraft/screenshots", i.dir()));
    assert_eq!(i.config_file(), format!("{}/instance.json", i.dir()));
}

#[test]
fn instance_paths_under_a_given_data_directory() {
    let i = instance("abc");
    let base = Some("/home/u/.local/share");
    assert_eq!(i.dir_under(base), "/home/u/.local/share/GLauncher/instances/abc");
    assert_eq!(i.path_under(base, "minecraft"), "/home/u/.local/share/GLauncher/instances/abc/minecraft");
    assert_eq!(i.path_under(base, "instance.json"), "/home/u/.local/share/GLauncher/instances/abc/instance.json");
    assert_eq!(i.game_path_under(base, "mods"), "/home/u/.local/share/GLauncher/instances/abc/minecraft/mods");
    assert_eq!(i.dir_under(None), "./GLauncher/instances/abc");
    assert_eq!(i.game_path_under(None, "saves"), "./GLauncher/instances/abc/minecraft/saves");
}

#[test]
fn loader_display_with_and_without_version() {
    let mut i = instance("a");
    assert_eq!(i.loader_display(), "Fabric");
    i.loader_version = Some("0.15.7".to_string());
    assert_eq!(i.loader_display(), "Fabric 0.15.7");
}

#[test]
fn manager_add_get_update_remove() {
    let mut m = InstanceManager::default();
    m.add(instance("a"));
    m.add(instance("b"));
    assert_eq!(m.get("b").unwrap().id, "b");
    assert!(m.get("c").is_none());
    let mut changed = instance("a");
    changed.name = "Changed".to_string();
    m.update(changed);
    assert_eq!(m.get("a").unwrap().name, "Changed");
    m.update(instance("zzz"));
    assert_eq!(m.instances.len(), 2);
    m.get_mut("b").unwrap().notes = "hi".to_string();
    assert_eq!(m.get("b").unwrap().notes, "hi");
    assert!(m.get_mut("nope").is_none());
    m.remove("a");
    assert!(m.get("a").is_none());
    assert_eq!(m.instances.len(), 1);
}

#[test]
fn settings_form_is_applied() {
    let mut i = instance("a");
    i.jvm_settings.java_major_version = Some(17);
    let form = InstanceSettingsForm {
        name: "New".to_string(),
        notes: "notes".to_string(),
        memory_min_mb: 1024,
        memory_max_mb: 8192,
        fullscreen: true,
        game_resolution_auto: false,
        window_width: 1920,
        window_height: 1080,
        gc_preset: 2,
        extra_args_text: " -Da \n\n-Db".to_string(),
        java_path_text: String::new(),
    };
    i.apply_settings_form(form);
    assert_eq!(i.name, "New");
    assert_eq!(i.notes, "notes");
    assert_eq!(i.jvm_settings.memory_min_mb, 1024);
    assert_eq!(i.jvm_settings.memory_max_mb, 8192);
    assert!(i.fullscreen);
    assert!(!i.game_resolution_auto);
    assert_eq!(i.window_width, Some(1920));
    assert_eq!(i.window_height, Some(1080));
    assert!(i.jvm_settings.use_zgc && !i.jvm_settings.use_g1gc);
    assert_eq!(i.jvm_settings.extra_jvm_args, strings(&["-Da", "-Db"]));
    assert!(i.jvm_settings.java_path.is_none());
    assert_eq!(i.jvm_settings.java_major_version, Some(17));
    assert_eq!(i.id, "a");
}

#[test]
fn settings_form_java_path() {
    let mut i = instance("a");
    let form = InstanceSettingsForm {
        name: "n".to_string(),
        notes: String::new(),
        memory_min_mb: 512,
        memory_max_mb: 2048,
        fullscreen: false,
        game_resolution_auto: true,
        window_width: 854,
        window_height: 480,
        gc_preset: 4,
        extra_args_text: String::new(),
        java_path_text: "/usr/bin/java".to_string(),
    };
    i.apply_settings_form(form);
    assert_eq!(i.jvm_settings.java_path.as_deref(), Some("/usr/bin/java"));
    assert_eq!(i.jvm_settings.gc_preset(), 4);
}

#[test]
fn session_adds_play_time() {
    let mut i = instance("a");
    i.record_session_at(90, "2024-05-01T10:00:00+00:00".to_string());
    i.record_session_at(10, "2024-05-02T10:00:00+00:00".to_string());
    assert_eq!(i.play_time_seconds, 100);
    assert_eq!(i.last_played.as_deref(), Some("2024-05-02T10:00:00+00:00"));
    i.record_session(5);
    assert_eq!(i.play_time_seconds, 105);
    assert!(i.last_played.is_some());
}

#[test]
fn new_instance_form_checks() {
    assert!(new_instance_from_form("   ", Some("1.20.1"), 0, 2048).is_none());
    assert!(new_instance_from_form("World", Some("loading"), 0, 2048).is_none());
    assert!(new_instance_from_form("World", Some("error"), 0, 2048).is_none());
    let i = new_instance_from_form("  World ", None, 1, 4096).unwrap();
    assert_eq!(i.name, "World");
    assert_eq!(i.minecraft_version, "1.21.4");
    assert_eq!(i.mod_loader, ModLoader::Fabric);
    assert_eq!(i.jvm_settings.memory_max_mb, 4096);
    assert_eq!(i.jvm_settings.memory_min_mb, 1024);
    let j = new_instance_from_form("W", Some("1.8.9"), 9, 512).unwrap();
    assert_eq!(j.minecraft_version, "1.8.9");
    assert_eq!(j.mod_loader, ModLoader::Vanilla);
    assert_eq!(j.jvm_settings.memory_min_mb, 256);
}

#[test]
fn instances_sorted_most_recent_first() {
    let mut a = instance("a");
    a.last_played = Some("2024-01-02".to_string());
    let b = instance("b");
    let mut c = instance("c");
    c.last_played = Some("2024-03-01".to_string());
    let mut d = instance("d");
    d.last_played = Some("2024-01-02".to_string());
    let e = instance("e");
    let sorted = sort_by_last_played(vec![a, b, c, d, e]);
    let ids: Vec<&str> = sorted.iter().map(|i| i.id.as_str()).collect();
    assert_eq!(ids, vec!["c", "a", "d", "b", "e"]);
}

#[test]
fn sort_matches_std_sort_by() {
    let times = [Some("b"), None, Some("a"), Some("ab"), Some("b"), None, Some("é"), Some("z")];
    let list: Vec<Instance> = times
        .iter()
        .enumerate()
        .map(|(k, t)| {
            let mut i = instance(&k.to_string());
            i.last_played = t.map(|x| x.to_string());
            i
        })
        .collect();
    let mut expected = list.clone();
    expected.sort_by(|a, b| b.last_played.cmp(&a.last_played));
    let got = sort_by_last_played(list);
    let got_ids: Vec<String> = got.iter().map(|i| i.id.clone()).collect();
    let expected_ids: Vec<String> = expected.iter().map(|i| i.id.clone()).collect();
    assert_eq!(got_ids, expected_ids);
}
