//! Game instances: their mod loader, JVM settings and directories, and the list of them.

use vstd::prelude::*;
use crate::seqs::{any, find_first, first_index, lemma_first_index, lemma_first_index_props};
use crate::text::{
    ascii_lower, chars_of,
    decimal, join_exec, lemma_split_on_concat, lemma_split_on_single, lemma_trimmed_last, lines, lines_of,
    push_decimal, push_str, split_on, str_eq, strip_cr, trim, trim_exec,
};
use crate::utils::paths::{base_view, join, join_path, launcher_dir_under, launcher_path, user_base, user_data_dir};
use crate::utils::{clock, ids};

verus! {

/// The mod loader an instance runs with.
#[derive(Debug, Clone, Copy, PartialEq, Eq, Structural)]
pub enum ModLoader {
    Vanilla,
    Fabric,
    Forge,
    Quilt,
    NeoForge,
}

/// The display name of a mod loader.
pub open spec fn loader_name(l: ModLoader) -> Seq<char> {
    match l {
        ModLoader::Vanilla => "Vanilla"@,
        ModLoader::Fabric => "Fabric"@,
        ModLoader::Forge => "Forge"@,
        ModLoader::Quilt => "Quilt"@,
        ModLoader::NeoForge => "NeoForge"@,
    }
}

impl ModLoader {
    /// The display name.
    pub fn to_string(&self) -> (r: String)
        ensures
            r@ == loader_name(*self),
    {
        match self {
            ModLoader::Vanilla => "Vanilla".to_string(),
            ModLoader::Fabric => "Fabric".to_string(),
            ModLoader::Forge => "Forge".to_string(),
            ModLoader::Quilt => "Quilt".to_string(),
            ModLoader::NeoForge => "NeoForge".to_string(),
        }
    }
}

/// Memory, garbage collector preset and extra arguments for the game's JVM.
#[derive(Debug, Clone)]
pub struct JvmSettings {
    pub memory_min_mb: u32,
    pub memory_max_mb: u32,
    pub extra_jvm_args: Vec<String>,
    pub java_path: Option<String>,
    pub java_major_version: Option<u32>,
    pub use_g1gc: bool,
    pub use_aikar_flags: bool,
    pub use_zgc: bool,
    pub use_shenandoah: bool,
}

impl Default for JvmSettings {
    fn default() -> (r: Self)
        ensures
            r.memory_min_mb == 512,
            r.memory_max_mb == 2048,
            r.extra_jvm_args@.len() == 0,
            r.java_path is None,
            r.java_major_version is None,
            r.use_g1gc,
            !r.use_aikar_flags,
            !r.use_zgc,
            !r.use_shenandoah,
    {
        JvmSettings {
            memory_min_mb: 512,
            memory_max_mb: 2048,
            extra_jvm_args: Vec::new(),
            java_path: None,
            java_major_version: None,
            use_g1gc: true,
            use_aikar_flags: false,
            use_zgc: false,
            use_shenandoah: false,
        }
    }
}

/// Aikar's G1 tuning flags.
pub open spec fn aikar_flags() -> Seq<Seq<char>> {
    seq![
        "-XX:+UseG1GC"@,
        "-XX:+ParallelRefProcEnabled"@,
        "-XX:MaxGCPauseMillis=200"@,
        "-XX:+UnlockExperimentalVMOptions"@,
        "-XX:+DisableExplicitGC"@,
        "-XX:+AlwaysPreTouch"@,
        "-XX:G1NewSizePercent=30"@,
        "-XX:G1MaxNewSizePercent=40"@,
        "-XX:G1HeapRegionSize=8M"@,
        "-XX:G1ReservePercent=20"@,
        "-XX:G1HeapWastePercent=5"@,
        "-XX:G1MixedGCCountTarget=4"@,
        "-XX:InitiatingHeapOccupancyPercent=15"@,
        "-XX:G1MixedGCLiveThresholdPercent=90"@,
        "-XX:G1RSetUpdatingPauseTimePercent=5"@,
        "-XX:SurvivorRatio=32"@,
        "-XX:+PerfDisableSharedMem"@,
        "-XX:MaxTenuringThreshold=1"@,
        "-Dusing.aikars.flags=https://mcflags.emc.gs"@,
        "-Daikars.new.flags=true"@,
    ]
}

/// The ZGC preset.
pub open spec fn zgc_flags() -> Seq<Seq<char>> {
    seq!["-XX:+UseZGC"@, "-XX:+UnlockExperimentalVMOptions"@]
}

/// The Shenandoah preset.
pub open spec fn shenandoah_flags() -> Seq<Seq<char>> {
    seq!["-XX:+UseShenandoahGC"@, "-XX:ShenandoahGCMode=iu"@]
}

/// The plain G1 preset.
pub open spec fn g1_flags() -> Seq<Seq<char>> {
    seq![
        "-XX:+UseG1GC"@,
        "-XX:+UnlockExperimentalVMOptions"@,
        "-XX:G1NewSizePercent=20"@,
        "-XX:G1ReservePercent=20"@,
        "-XX:MaxGCPauseMillis=50"@,
        "-XX:G1HeapRegionSize=32M"@,
    ]
}

/// Flags added whatever the preset.
pub open spec fn common_flags() -> Seq<Seq<char>> {
    seq![
        "-XX:+UseStringDeduplication"@,
        "-Dfile.encoding=UTF-8"@,
        "-Dfml.ignoreInvalidMinecraftCertificates=true"@,
        "-Dfml.ignorePatchDiscrepancies=true"@,
    ]
}

/// The preset's flags: Aikar's flags win over ZGC, ZGC over Shenandoah, Shenandoah
/// over plain G1.
pub open spec fn preset_flags(s: JvmSettings) -> Seq<Seq<char>> {
    if s.use_aikar_flags {
        aikar_flags()
    } else if s.use_zgc {
        zgc_flags()
    } else if s.use_shenandoah {
        shenandoah_flags()
    } else if s.use_g1gc {
        g1_flags()
    } else {
        seq![]
    }
}

/// The JVM flags for these settings: heap sizes, the preset, the common flags and the
/// extra arguments, in that order.
pub open spec fn jvm_flags(s: JvmSettings) -> Seq<Seq<char>> {
    seq!["-Xms"@ + decimal(s.memory_min_mb as nat) + "m"@, "-Xmx"@ + decimal(s.memory_max_mb as nat) + "m"@]
        + preset_flags(s) + common_flags() + s.extra_jvm_args.deep_view()
}

fn push_all(flags: &mut Vec<String>, items: &[&str])
    ensures
        final(flags).deep_view() == old(flags).deep_view() + items@.map_values(|t: &str| t@),
{
    let mut i: usize = 0;
    while i < items.len()
        invariant
            i <= items@.len(),
            flags.deep_view() == old(flags).deep_view() + items@.take(i as int).map_values(|t: &str| t@),
        decreases items.len() - i,
    {
        let ghost before = flags.deep_view();
        flags.push(items[i].to_string());
        assert(flags.deep_view() =~= before.push(items@[i as int]@));
        assert(items@.take(i + 1).map_values(|t: &str| t@) =~= items@.take(i as int).map_values(|t: &str| t@).push(items@[i as int]@));
        i = i + 1;
    }
    assert(items@.take(i as int) =~= items@);
}

impl JvmSettings {
    /// The JVM flags for these settings.
    pub fn build_flags(&self) -> (r: Vec<String>)
        ensures
            r.deep_view() == jvm_flags(*self),
    {
        let mut xms = String::new();
        push_str(&mut xms, "-Xms");
        push_decimal(&mut xms, self.memory_min_mb as u64);
        push_str(&mut xms, "m");
        let mut xmx = String::new();
        push_str(&mut xmx, "-Xmx");
        push_decimal(&mut xmx, self.memory_max_mb as u64);
        push_str(&mut xmx, "m");
        let mut flags: Vec<String> = Vec::new();
        flags.push(xms);
        flags.push(xmx);
        let ghost head = flags.deep_view();
        if self.use_aikar_flags {
            let items: [&str; 20] = [
                "-XX:+UseG1GC",
                "-XX:+ParallelRefProcEnabled",
                "-XX:MaxGCPauseMillis=200",
                "-XX:+UnlockExperimentalVMOptions",
                "-XX:+DisableExplicitGC",
                "-XX:+AlwaysPreTouch",
                "-XX:G1NewSizePercent=30",
                "-XX:G1MaxNewSizePercent=40",
                "-XX:G1HeapRegionSize=8M",
                "-XX:G1ReservePercent=20",
                "-XX:G1HeapWastePercent=5",
                "-XX:G1MixedGCCountTarget=4",
                "-XX:InitiatingHeapOccupancyPercent=15",
                "-XX:G1MixedGCLiveThresholdPercent=90",
                "-XX:G1RSetUpdatingPauseTimePercent=5",
                "-XX:SurvivorRatio=32",
                "-XX:+PerfDisableSharedMem",
                "-XX:MaxTenuringThreshold=1",
                "-Dusing.aikars.flags=https://mcflags.emc.gs",
                "-Daikars.new.flags=true",
            ];
            push_all(&mut flags, &items);
            assert(items@.map_values(|t: &str| t@) =~= aikar_flags());
        } else if self.use_zgc {
            let items: [&str; 2] = ["-XX:+UseZGC", "-XX:+UnlockExperimentalVMOptions"];
            push_all(&mut flags, &items);
            assert(items@.map_values(|t: &str| t@) =~= zgc_flags());
        } else if self.use_shenandoah {
            let items: [&str; 2] = ["-XX:+UseShenandoahGC", "-XX:ShenandoahGCMode=iu"];
            push_all(&mut flags, &items);
            assert(items@.map_values(|t: &str| t@) =~= shenandoah_flags());
        } else if self.use_g1gc {
            let items: [&str; 6] = [
                "-XX:+UseG1GC",
                "-XX:+UnlockExperimentalVMOptions",
                "-XX:G1NewSizePercent=20",
                "-XX:G1ReservePercent=20",
                "-XX:MaxGCPauseMillis=50",
                "-XX:G1HeapRegionSize=32M",
            ];
            push_all(&mut flags, &items);
            assert(items@.map_values(|t: &str| t@) =~= g1_flags());
        }
        assert(flags.deep_view() =~= head + preset_flags(*self));
        let ghost with_preset = flags.deep_view();
        let items: [&str; 4] = [
            "-XX:+UseStringDeduplication",
            "-Dfile.encoding=UTF-8",
            "-Dfml.ignoreInvalidMinecraftCertificates=true",
            "-Dfml.ignorePatchDiscrepancies=true",
        ];
        push_all(&mut flags, &items);
        assert(items@.map_values(|t: &str| t@) =~= common_flags());
        let mut i: usize = 0;
        let ghost with_common = flags.deep_view();
        while i < self.extra_jvm_args.len()
            invariant
                i <= self.extra_jvm_args@.len(),
                flags.deep_view() == with_common + self.extra_jvm_args.deep_view().take(i as int),
            decreases self.extra_jvm_args.len() - i,
        {
            let ghost before = flags.deep_view();
            flags.push(self.extra_jvm_args[i].clone());
            assert(flags.deep_view() =~= before.push(self.extra_jvm_args@[i as int]@));
            assert(self.extra_jvm_args.deep_view().take(i + 1) =~= self.extra_jvm_args.deep_view().take(i as int).push(self.extra_jvm_args@[i as int]@));
            i = i + 1;
        }
        assert(self.extra_jvm_args.deep_view().take(i as int) =~= self.extra_jvm_args.deep_view());
        assert(flags.deep_view() =~= jvm_flags(*self));
        flags
    }
}

/// The mod loader of the new-instance dialog's list position: Vanilla, Fabric, Forge,
/// Quilt, NeoForge; any other position is Vanilla.
pub open spec fn loader_at(index: u32) -> ModLoader {
    if index == 1 {
        ModLoader::Fabric
    } else if index == 2 {
        ModLoader::Forge
    } else if index == 3 {
        ModLoader::Quilt
    } else if index == 4 {
        ModLoader::NeoForge
    } else {
        ModLoader::Vanilla
    }
}

/// The name Modrinth files a loader under; none for Vanilla.
pub open spec fn modrinth_slug_of(l: ModLoader) -> Option<Seq<char>> {
    match l {
        ModLoader::Vanilla => None,
        ModLoader::Fabric => Some("fabric"@),
        ModLoader::Forge => Some("forge"@),
        ModLoader::Quilt => Some("quilt"@),
        ModLoader::NeoForge => Some("neoforge"@),
    }
}

/// A loader's Modrinth slug is its own display name in ASCII lower case (`Fabric` gives
/// `fabric`, `NeoForge` gives `neoforge`), and vanilla has none.
pub proof fn law_modrinth_slug_is_lowercase_name(l: ModLoader)
    ensures
        l == ModLoader::Vanilla ==> modrinth_slug_of(l) is None,
        l != ModLoader::Vanilla ==> modrinth_slug_of(l) == Some(loader_name(l).map_values(|c: char| ascii_lower(c))),
{
    match l {
        ModLoader::Vanilla => {},
        ModLoader::Fabric => {
            reveal_strlit("Fabric");
            reveal_strlit("fabric");
            assert("fabric"@ =~= "Fabric"@.map_values(|c: char| ascii_lower(c)));
        },
        ModLoader::Forge => {
            reveal_strlit("Forge");
            reveal_strlit("forge");
            assert("forge"@ =~= "Forge"@.map_values(|c: char| ascii_lower(c)));
        },
        ModLoader::Quilt => {
            reveal_strlit("Quilt");
            reveal_strlit("quilt");
            assert("quilt"@ =~= "Quilt"@.map_values(|c: char| ascii_lower(c)));
        },
        ModLoader::NeoForge => {
            reveal_strlit("NeoForge");
            reveal_strlit("neoforge");
            assert("neoforge"@ =~= "NeoForge"@.map_values(|c: char| ascii_lower(c)));
        },
    }
}

impl ModLoader {
    /// The mod loader at a position of the new-instance dialog's list.
    pub fn from_index(index: u32) -> (r: ModLoader)
        ensures
            r == loader_at(index),
    {
        if index == 1 {
            ModLoader::Fabric
        } else if index == 2 {
            ModLoader::Forge
        } else if index == 3 {
            ModLoader::Quilt
        } else if index == 4 {
            ModLoader::NeoForge
        } else {
            ModLoader::Vanilla
        }
    }

    /// The name Modrinth files this loader under; none for Vanilla.
    pub fn modrinth_slug(&self) -> (r: Option<&'static str>)
        ensures
            match r {
                Some(t) => modrinth_slug_of(*self) == Some(t@),
                None => modrinth_slug_of(*self) is None,
            },
    {
        match self {
            ModLoader::Vanilla => None,
            ModLoader::Fabric => Some("fabric"),
            ModLoader::Forge => Some("forge"),
            ModLoader::Quilt => Some("quilt"),
            ModLoader::NeoForge => Some("neoforge"),
        }
    }
}

/// The preset the settings dialog shows for some JVM settings: 1 for Aikar's flags,
/// 2 for ZGC, 3 for Shenandoah, 0 for G1, 4 for none; the first that is set wins.
pub open spec fn gc_preset_of(s: JvmSettings) -> u32 {
    if s.use_aikar_flags {
        1
    } else if s.use_zgc {
        2
    } else if s.use_shenandoah {
        3
    } else if s.use_g1gc {
        0
    } else {
        4
    }
}

/// The settings with the collector flags of preset `preset` (0 G1, 1 Aikar, 2 ZGC,
/// 3 Shenandoah; any other number sets none).
pub open spec fn with_gc_preset(s: JvmSettings, preset: u32) -> JvmSettings {
    JvmSettings {
        use_aikar_flags: preset == 1,
        use_zgc: preset == 2,
        use_shenandoah: preset == 3,
        use_g1gc: preset == 0,
        ..s
    }
}

/// The test "is not empty".
pub open spec fn nonempty_text() -> spec_fn(Seq<char>) -> bool {
    |x: Seq<char>| x.len() > 0
}

/// The extra JVM arguments written one a line: each line trimmed, empty ones dropped.
pub open spec fn extra_args_of(text: Seq<char>) -> Seq<Seq<char>> {
    lines(text).map_values(|l: Seq<char>| trim(l)).filter(nonempty_text())
}

/// The smaller heap the new-instance dialog sets for a larger one: a quarter of it,
/// and at least 256 MB.
pub open spec fn memory_min_for(memory_max: u32) -> u32 {
    if memory_max / 4 > 256 { memory_max / 4 } else { 256 }
}

/// The smaller heap for the larger heap `memory_max`.
pub fn default_memory_min(memory_max: u32) -> (r: u32)
    ensures
        r == memory_min_for(memory_max),
{
    let q = memory_max / 4;
    if q > 256 { q } else { 256 }
}

impl JvmSettings {
    /// The collector preset these settings show.
    pub fn gc_preset(&self) -> (r: u32)
        ensures
            r == gc_preset_of(*self),
    {
        if self.use_aikar_flags {
            1
        } else if self.use_zgc {
            2
        } else if self.use_shenandoah {
            3
        } else if self.use_g1gc {
            0
        } else {
            4
        }
    }

    /// Sets the collector flags of a preset.
    pub fn apply_gc_preset(&mut self, preset: u32)
        ensures
            *final(self) == with_gc_preset(*old(self), preset),
    {
        self.use_aikar_flags = preset == 1;
        self.use_zgc = preset == 2;
        self.use_shenandoah = preset == 3;
        self.use_g1gc = preset == 0;
    }
}

/// The extra JVM arguments in a text written one a line.
pub fn parse_extra_jvm_args(text: &str) -> (r: Vec<String>)
    ensures
        r.deep_view() == extra_args_of(text@),
{
    let ls = lines_of(text);
    let ghost trimmed = lines(text@).map_values(|l: Seq<char>| trim(l));
    let mut out: Vec<String> = Vec::new();
    let mut i: usize = 0;
    while i < ls.len()
        invariant
            i <= ls@.len(),
            ls.deep_view() == lines(text@),
            trimmed == lines(text@).map_values(|l: Seq<char>| trim(l)),
            out.deep_view() == trimmed.take(i as int).filter(nonempty_text()),
        decreases ls.len() - i,
    {
        let t = trim_exec(ls[i].as_str());
        assert(ls.deep_view()[i as int] == ls@[i as int]@);
        assert(trimmed.take(i + 1) =~= trimmed.take(i as int).push(t@));
        proof { trimmed.take(i as int).lemma_filter_push(t@, nonempty_text()); }
        if t.as_str().unicode_len() > 0 {
            let ghost before = out.deep_view();
            out.push(t);
            assert(out.deep_view() =~= before.push(t@));
        }
        i = i + 1;
    }
    assert(trimmed.take(i as int) =~= trimmed);
    out
}

/// The text the settings dialog shows for extra JVM arguments: one a line.
pub fn extra_args_text(args: &Vec<String>) -> (r: String)
    ensures
        r@ == crate::text::join(args.deep_view(), "\n"@),
{
    join_exec(args, "\n")
}

/// An argument that survives being written on a line and read back: not empty, without
/// surrounding whitespace, and without a line break.
pub open spec fn is_clean_arg(a: Seq<char>) -> bool {
    &&& a.len() > 0
    &&& trim(a) == a
    &&& !a.contains('\n')
}

proof fn lemma_split_joined_lines(args: Seq<Seq<char>>)
    requires
        args.len() > 0,
        forall|i: int| 0 <= i < args.len() ==> is_clean_arg(#[trigger] args[i]),
    ensures
        split_on(crate::text::join(args, "\n"@), '\n') == args,
    decreases args.len(),
{
    reveal_strlit("\n");
    if args.len() == 1 {
        assert(is_clean_arg(args[0]));
        lemma_split_on_single(args[0], '\n');
    } else {
        let init = args.drop_last();
        assert forall|i: int| 0 <= i < init.len() implies is_clean_arg(#[trigger] init[i]) by {
            assert(init[i] == args[i]);
        }
        lemma_split_joined_lines(init);
        assert(is_clean_arg(args.last()));
        lemma_split_on_single(args.last(), '\n');
        lemma_split_on_concat(crate::text::join(init, "\n"@), args.last(), '\n');
        assert(crate::text::join(args, "\n"@) == crate::text::join(init, "\n"@) + seq!['\n'] + args.last());
        assert(init + seq![args.last()] =~= args);
    }
}

proof fn lemma_filter_keeps_all<A>(s: Seq<A>, p: spec_fn(A) -> bool)
    requires
        forall|i: int| 0 <= i < s.len() ==> p(#[trigger] s[i]),
    ensures
        s.filter(p) == s,
    decreases s.len(),
{
    reveal_with_fuel(Seq::filter, 1);
    if s.len() > 0 {
        let init = s.drop_last();
        assert forall|i: int| 0 <= i < init.len() implies p(#[trigger] init[i]) by {
            assert(init[i] == s[i]);
        }
        lemma_filter_keeps_all(init, p);
        assert(p(s[s.len() - 1]));
        assert(init.push(s.last()) =~= s);
    }
}

/// Extra JVM arguments written one a line by the settings dialog read back as the same
/// arguments, when each is clean (not empty, trimmed, on one line).
pub proof fn law_extra_args_round_trip(args: Seq<Seq<char>>)
    requires
        forall|i: int| 0 <= i < args.len() ==> is_clean_arg(#[trigger] args[i]),
    ensures
        extra_args_of(crate::text::join(args, "\n"@)) == args,
{
    reveal_strlit("\n");
    let text = crate::text::join(args, "\n"@);
    if args.len() == 0 {
        assert(lines(text) =~= Seq::<Seq<char>>::empty());
        assert(lines(text).map_values(|l: Seq<char>| trim(l)) =~= Seq::<Seq<char>>::empty());
        lemma_filter_keeps_all(Seq::<Seq<char>>::empty(), nonempty_text());
    } else {
        lemma_split_joined_lines(args);
        let last = args.last();
        assert(is_clean_arg(last));
        assert(text.len() > 0 && text.last() == last.last()) by {
            if args.len() > 1 {
                assert(text == crate::text::join(args.drop_last(), "\n"@) + "\n"@ + last);
            }
        }
        assert(last.last() != '\n') by {
            assert(last.contains(last.last()));
        }
        assert forall|i: int| 0 <= i < args.len() implies strip_cr(#[trigger] args[i]) == args[i] by {
            assert(is_clean_arg(args[i]));
            lemma_trimmed_last(args[i]);
        }
        let ls = lines(text);
        assert(ls =~= args) by {
            assert forall|i: int| 0 <= i < args.len() - 1 implies ls[i] == args[i] by {
                assert(strip_cr(args[i]) == args[i]);
            }
        }
        let tr = ls.map_values(|l: Seq<char>| trim(l));
        assert forall|i: int| 0 <= i < tr.len() implies tr[i] == args[i] by {
            assert(is_clean_arg(args[i]));
        }
        assert(tr =~= args);
        assert forall|i: int| 0 <= i < tr.len() implies nonempty_text()(#[trigger] tr[i]) by {
            assert(is_clean_arg(args[i]));
        }
        lemma_filter_keeps_all(tr, nonempty_text());
    }
}

/// Every collector preset the settings dialog offers (0 to 4) reads back after it is set;
/// a number beyond them reads back as "none" (4).
pub proof fn law_gc_preset_round_trip(s: JvmSettings, preset: u32)
    ensures
        gc_preset_of(with_gc_preset(s, preset)) == (if preset < 4 { preset } else { 4 }),
{
}

/// A game instance: a Minecraft version with its loader, settings and files.
#[derive(Debug, Clone)]
pub struct Instance {
    pub id: String,
    pub name: String,
    pub minecraft_version: String,
    pub mod_loader: ModLoader,
    pub loader_version: Option<String>,
    pub jvm_settings: JvmSettings,
    pub icon: Option<String>,
    pub created_at: String,
    pub last_played: Option<String>,
    pub play_time_seconds: u64,
    pub notes: String,
    pub window_width: Option<u32>,
    pub window_height: Option<u32>,
    pub fullscreen: bool,
    pub game_resolution_auto: bool,
}

/// An instance's directory inside a launcher directory.
pub open spec fn instance_dir_in(data: Seq<char>, id: Seq<char>) -> Seq<char> {
    join_path(join_path(data, "instances"@), id)
}

/// The game directory of an instance inside a launcher directory.
pub open spec fn minecraft_dir_in(data: Seq<char>, id: Seq<char>) -> Seq<char> {
    join_path(instance_dir_in(data, id), "minecraft"@)
}

/// `p` is the path `rel` of instance `id` below its directory, in some launcher directory.
pub open spec fn instance_path(p: Seq<char>, id: Seq<char>, rel: Seq<char>) -> bool {
    exists|base: Option<Seq<char>>| p == join_path(#[trigger] instance_dir_in(launcher_dir_under(base), id), rel)
}

/// `p` is the path `rel` of instance `id` below its game directory, in some launcher directory.
pub open spec fn game_path(p: Seq<char>, id: Seq<char>, rel: Seq<char>) -> bool {
    exists|base: Option<Seq<char>>| p == join_path(#[trigger] minecraft_dir_in(launcher_dir_under(base), id), rel)
}

/// The loader label: the loader's name, followed by its version when one is set.
pub open spec fn loader_label(i: Instance) -> Seq<char> {
    match i.loader_version {
        Some(v) => loader_name(i.mod_loader) + " "@ + v@,
        None => loader_name(i.mod_loader),
    }
}

/// A newly made instance of `name`, `version` and `loader`: no loader version, the
/// default collector (G1) and no extra arguments, Java path or Java version, no icon,
/// never played, no notes, the game window's size left to the game.
pub open spec fn fresh_instance(r: Instance, name: Seq<char>, version: Seq<char>, loader: ModLoader) -> bool {
    &&& r.name@ == name
    &&& r.minecraft_version@ == version
    &&& r.mod_loader == loader
    &&& r.loader_version is None
    &&& r.jvm_settings.extra_jvm_args@.len() == 0
    &&& r.jvm_settings.java_path is None
    &&& r.jvm_settings.java_major_version is None
    &&& r.jvm_settings.use_g1gc
    &&& !r.jvm_settings.use_aikar_flags
    &&& !r.jvm_settings.use_zgc
    &&& !r.jvm_settings.use_shenandoah
    &&& r.icon is None
    &&& r.last_played is None
    &&& r.play_time_seconds == 0
    &&& r.notes@.len() == 0
    &&& r.window_width is None
    &&& r.window_height is None
    &&& !r.fullscreen
    &&& r.game_resolution_auto
}

impl Instance {
    /// A new instance with the given id and creation time and default settings.
    pub fn new_with(id: String, created_at: String, name: &str, minecraft_version: &str, mod_loader: ModLoader) -> (r: Self)
        ensures
            r.id == id,
            r.created_at == created_at,
            fresh_instance(r, name@, minecraft_version@, mod_loader),
            r.jvm_settings.memory_min_mb == 512,
            r.jvm_settings.memory_max_mb == 2048,
    {
        Instance {
            id,
            name: name.to_string(),
            minecraft_version: minecraft_version.to_string(),
            mod_loader,
            loader_version: None,
            jvm_settings: JvmSettings::default(),
            icon: None,
            created_at,
            last_played: None,
            play_time_seconds: 0,
            notes: String::new(),
            window_width: None,
            window_height: None,
            fullscreen: false,
            game_resolution_auto: true,
        }
    }

    /// A new instance with a fresh random id, created now, with default settings.
    pub fn new(name: &str, minecraft_version: &str, mod_loader: ModLoader) -> (r: Self)
        ensures
            ids::is_hyphenated_uuid(r.id@),
            fresh_instance(r, name@, minecraft_version@, mod_loader),
            r.jvm_settings.memory_min_mb == 512,
            r.jvm_settings.memory_max_mb == 2048,
    {
        let id = ids::new_uuid_string();
        let created_at = clock::now_rfc3339();
        Self::new_with(id, created_at, name, minecraft_version, mod_loader)
    }

    /// The instance's directory under the user data directory `base`: its id inside the
    /// launcher's `instances` directory.
    pub fn dir_under(&self, base: Option<&str>) -> (r: String)
        ensures
            r@ == instance_dir_in(launcher_dir_under(base_view(base)), self.id@),
    {
        let d = launcher_path(base, "instances");
        join(d.as_str(), self.id.as_str())
    }

    /// The path `rel` below the instance's directory under the user data directory `base`.
    pub fn path_under(&self, base: Option<&str>, rel: &str) -> (r: String)
        ensures
            r@ == join_path(instance_dir_in(launcher_dir_under(base_view(base)), self.id@), rel@),
    {
        let d = self.dir_under(base);
        join(d.as_str(), rel)
    }

    /// The path `rel` below the instance's game directory under the user data directory
    /// `base`.
    pub fn game_path_under(&self, base: Option<&str>, rel: &str) -> (r: String)
        ensures
            r@ == join_path(minecraft_dir_in(launcher_dir_under(base_view(base)), self.id@), rel@),
    {
        let d = self.path_under(base, "minecraft");
        join(d.as_str(), rel)
    }

    /// The instance's directory under the user's data directory, read from the
    /// environment.
    pub fn dir(&self) -> (r: String)
        ensures
            exists|base: Option<Seq<char>>| r@ == #[trigger] instance_dir_in(launcher_dir_under(base), self.id@),
    {
        let dir = user_data_dir();
        let base = user_base(&dir);
        let r = self.dir_under(base);
        assert(r@ == instance_dir_in(launcher_dir_under(base_view(base)), self.id@));
        r
    }

    fn instance_subpath(&self, rel: &str) -> (r: String)
        ensures
            instance_path(r@, self.id@, rel@),
    {
        let dir = user_data_dir();
        let base = user_base(&dir);
        let r = self.path_under(base, rel);
        assert(r@ == join_path(instance_dir_in(launcher_dir_under(base_view(base)), self.id@), rel@));
        r
    }

    fn game_subdir(&self, sub: &str) -> (r: String)
        ensures
            game_path(r@, self.id@, sub@),
    {
        let dir = user_data_dir();
        let base = user_base(&dir);
        let r = self.game_path_under(base, sub);
        assert(r@ == join_path(minecraft_dir_in(launcher_dir_under(base_view(base)), self.id@), sub@));
        r
    }

    /// The directory the game runs in.
    pub fn minecraft_dir(&self) -> (r: String)
        ensures
            instance_path(r@, self.id@, "minecraft"@),
    {
        self.instance_subpath("minecraft")
    }

    /// The mods directory.
    pub fn mods_dir(&self) -> (r: String)
        ensures
            game_path(r@, self.id@, "mods"@),
    {
        self.game_subdir("mods")
    }

    /// The saves directory.
    pub fn saves_dir(&self) -> (r: String)
        ensures
            game_path(r@, self.id@, "saves"@),
    {
        self.game_subdir("saves")
    }

    /// The screenshots directory.
    pub fn screenshots_dir(&self) -> (r: String)
        ensures
            game_path(r@, self.id@, "screenshots"@),
    {
        self.game_subdir("screenshots")
    }

    /// The instance's settings file.
    pub fn config_file(&self) -> (r: String)
        ensures
            instance_path(r@, self.id@, "instance.json"@),
    {
        self.instance_subpath("instance.json")
    }

    /// The loader label, such as `Fabric 0.15.7` or `Vanilla`.
    pub fn loader_display(&self) -> (r: String)
        ensures
            r@ == loader_label(*self),
    {
        let mut r = self.mod_loader.to_string();
        match &self.loader_version {
            Some(v) => {
                push_str(&mut r, " ");
                push_str(&mut r, v.as_str());
            },
            None => {},
        }
        r
    }
}

/// What the settings dialog hands back for an instance.
pub struct InstanceSettingsForm {
    pub name: String,
    pub notes: String,
    pub memory_min_mb: u32,
    pub memory_max_mb: u32,
    pub fullscreen: bool,
    pub game_resolution_auto: bool,
    pub window_width: u32,
    pub window_height: u32,
    /// The collector preset's position: 0 G1, 1 Aikar, 2 ZGC, 3 Shenandoah, 4 none.
    pub gc_preset: u32,
    /// The extra JVM arguments, one a line.
    pub extra_args_text: String,
    /// The Java path; empty for automatic.
    pub java_path_text: String,
}

/// `new` is `old` with the settings dialog's values: name, notes, heap sizes, window
/// options, the collector preset, the extra arguments read from their lines, and the
/// Java path (none when left empty).
pub open spec fn settings_applied(old: Instance, form: InstanceSettingsForm, new: Instance) -> bool {
    &&& new.name == form.name
    &&& new.notes == form.notes
    &&& new.fullscreen == form.fullscreen
    &&& new.game_resolution_auto == form.game_resolution_auto
    &&& new.window_width == Some(form.window_width)
    &&& new.window_height == Some(form.window_height)
    &&& new.jvm_settings.memory_min_mb == form.memory_min_mb
    &&& new.jvm_settings.memory_max_mb == form.memory_max_mb
    &&& gc_preset_of(new.jvm_settings) == gc_preset_of(with_gc_preset(old.jvm_settings, form.gc_preset))
    &&& new.jvm_settings.use_g1gc == (form.gc_preset == 0)
    &&& new.jvm_settings.use_aikar_flags == (form.gc_preset == 1)
    &&& new.jvm_settings.use_zgc == (form.gc_preset == 2)
    &&& new.jvm_settings.use_shenandoah == (form.gc_preset == 3)
    &&& new.jvm_settings.extra_jvm_args.deep_view() == extra_args_of(form.extra_args_text@)
    &&& new.jvm_settings.java_path == (if form.java_path_text@.len() == 0 { None } else { Some(form.java_path_text) })
    &&& new.jvm_settings.java_major_version == old.jvm_settings.java_major_version
    &&& new.id == old.id
    &&& new.minecraft_version == old.minecraft_version
    &&& new.mod_loader == old.mod_loader
    &&& new.loader_version == old.loader_version
    &&& new.icon == old.icon
    &&& new.created_at == old.created_at
    &&& new.last_played == old.last_played
    &&& new.play_time_seconds == old.play_time_seconds
}

/// The placeholder entries of the new-instance dialog's version list.
pub open spec fn is_placeholder_version(v: Seq<char>) -> bool {
    v == "loading"@ || v == "error"@
}

/// The version the new-instance dialog takes: the chosen one, else 1.21.4.
pub open spec fn chosen_version(v: Option<Seq<char>>) -> Seq<char> {
    match v {
        Some(x) => x,
        None => "1.21.4"@,
    }
}

impl Instance {
    /// Takes the settings dialog's values.
    pub fn apply_settings_form(&mut self, form: InstanceSettingsForm)
        ensures
            settings_applied(*old(self), form, *final(self)),
    {
        let ghost form0 = form;
        let extra = parse_extra_jvm_args(form.extra_args_text.as_str());
        let java_path = if form.java_path_text.as_str().unicode_len() == 0 {
            None
        } else {
            Some(form.java_path_text)
        };
        self.name = form.name;
        self.notes = form.notes;
        self.jvm_settings.memory_min_mb = form.memory_min_mb;
        self.jvm_settings.memory_max_mb = form.memory_max_mb;
        self.fullscreen = form.fullscreen;
        self.game_resolution_auto = form.game_resolution_auto;
        self.window_width = Some(form.window_width);
        self.window_height = Some(form.window_height);
        self.jvm_settings.apply_gc_preset(form.gc_preset);
        self.jvm_settings.extra_jvm_args = extra;
        self.jvm_settings.java_path = java_path;
        assert(settings_applied(*old(self), form0, *self));
    }

    /// Counts a finished session of `elapsed` seconds that ended at `now`.
    pub fn record_session_at(&mut self, elapsed: u64, now: String)
        requires
            old(self).play_time_seconds + elapsed <= u64::MAX,
        ensures
            *final(self) == (Instance {
                play_time_seconds: (old(self).play_time_seconds + elapsed) as u64,
                last_played: Some(now),
                ..*old(self)
            }),
    {
        self.play_time_seconds = self.play_time_seconds + elapsed;
        self.last_played = Some(now);
    }

    /// Counts a finished session of `elapsed` seconds that ended now, by the clock.
    pub fn record_session(&mut self, elapsed: u64)
        requires
            old(self).play_time_seconds + elapsed <= u64::MAX,
        ensures
            final(self).last_played is Some,
            *final(self) == (Instance {
                play_time_seconds: (old(self).play_time_seconds + elapsed) as u64,
                last_played: final(self).last_played,
                ..*old(self)
            }),
    {
        let now = clock::now_rfc3339();
        self.record_session_at(elapsed, now);
    }
}

/// The new-instance dialog's instance: refused when the name is blank after trimming or
/// the chosen version is a placeholder; otherwise a fresh instance of the trimmed name,
/// the version and the loader at `loader_index`, with the heap of `memory_max` MB and a
/// quarter of it (at least 256 MB) as the smaller heap.
pub fn new_instance_from_form(name_text: &str, mc_version: Option<&str>, loader_index: u32, memory_max: u32) -> (r: Option<Instance>)
    ensures
        r is None <==> (trim(name_text@).len() == 0 || is_placeholder_version(chosen_version(opt_view(mc_version)))),
        r matches Some(i) ==> {
            &&& ids::is_hyphenated_uuid(i.id@)
            &&& fresh_instance(i, trim(name_text@), chosen_version(opt_view(mc_version)), loader_at(loader_index))
            &&& i.jvm_settings.memory_max_mb == memory_max
            &&& i.jvm_settings.memory_min_mb == memory_min_for(memory_max)
        },
{
    let name = trim_exec(name_text);
    if name.as_str().unicode_len() == 0 {
        return None;
    }
    let version = match mc_version {
        Some(v) => v.to_string(),
        None => "1.21.4".to_string(),
    };
    if str_eq(version.as_str(), "loading") || str_eq(version.as_str(), "error") {
        return None;
    }
    let mut instance = Instance::new(name.as_str(), version.as_str(), ModLoader::from_index(loader_index));
    instance.jvm_settings.memory_max_mb = memory_max;
    instance.jvm_settings.memory_min_mb = default_memory_min(memory_max);
    Some(instance)
}

/// The view of an optional string slice.
pub open spec fn opt_view(o: Option<&str>) -> Option<Seq<char>> {
    match o {
        Some(s) => Some(s@),
        None => None,
    }
}

/// `a` comes no later than `b` in the character order of texts: a prefix first, else
/// the first differing character decides. (UTF-8 keeps this order, so it is also std's
/// byte order of `String`.)
pub open spec fn text_le(a: Seq<char>, b: Seq<char>) -> bool
    decreases a.len(),
{
    if a.len() == 0 {
        true
    } else if b.len() == 0 {
        false
    } else if a[0] != b[0] {
        a[0] < b[0]
    } else {
        text_le(a.skip(1), b.skip(1))
    }
}

/// std's order of optional texts: nothing first, then the texts in order.
pub open spec fn opt_text_le(a: Option<Seq<char>>, b: Option<Seq<char>>) -> bool {
    match (a, b) {
        (None, _) => true,
        (Some(_), None) => false,
        (Some(x), Some(y)) => text_le(x, y),
    }
}

/// Two texts are always ordered one way or the other.
pub proof fn lemma_text_le_total(a: Seq<char>, b: Seq<char>)
    ensures
        text_le(a, b) || text_le(b, a),
    decreases a.len(),
{
    if a.len() > 0 && b.len() > 0 && a[0] == b[0] {
        lemma_text_le_total(a.skip(1), b.skip(1));
    }
}

/// The order of texts is transitive.
pub proof fn lemma_text_le_trans(a: Seq<char>, b: Seq<char>, c: Seq<char>)
    requires
        text_le(a, b),
        text_le(b, c),
    ensures
        text_le(a, c),
    decreases a.len(),
{
    if a.len() > 0 && b.len() > 0 && c.len() > 0 && a[0] == b[0] && b[0] == c[0] {
        lemma_text_le_trans(a.skip(1), b.skip(1), c.skip(1));
    }
}

proof fn lemma_opt_text_le_total(a: Option<Seq<char>>, b: Option<Seq<char>>)
    ensures
        opt_text_le(a, b) || opt_text_le(b, a),
{
    if let (Some(x), Some(y)) = (a, b) {
        lemma_text_le_total(x, y);
    }
}

proof fn lemma_opt_text_le_trans(a: Option<Seq<char>>, b: Option<Seq<char>>, c: Option<Seq<char>>)
    requires
        opt_text_le(a, b),
        opt_text_le(b, c),
    ensures
        opt_text_le(a, c),
{
    if let (Some(x), Some(y), Some(z)) = (a, b, c) {
        lemma_text_le_trans(x, y, z);
    }
}

/// When an instance was last played, as text.
pub open spec fn played_key(i: Instance) -> Option<Seq<char>> {
    match i.last_played {
        Some(t) => Some(t@),
        None => None,
    }
}

fn text_le_exec(a: &str, b: &str) -> (r: bool)
    ensures
        r == text_le(a@, b@),
{
    let x = chars_of(a);
    let y = chars_of(b);
    let mut i: usize = 0;
    assert(x@.skip(0) =~= x@);
    assert(y@.skip(0) =~= y@);
    while i < x.len() && i < y.len() && x[i] == y[i]
        invariant
            i <= x@.len(),
            i <= y@.len(),
            text_le(x@.skip(i as int), y@.skip(i as int)) == text_le(a@, b@),
            x@ == a@,
            y@ == b@,
        decreases x.len() - i,
    {
        assert(x@.skip(i as int).skip(1) =~= x@.skip(i + 1));
        assert(y@.skip(i as int).skip(1) =~= y@.skip(i + 1));
        i = i + 1;
    }
    if i == x.len() {
        true
    } else if i == y.len() {
        false
    } else {
        x[i] < y[i]
    }
}

fn played_le(a: &Option<String>, b: &Option<String>) -> (r: bool)
    ensures
        r == opt_text_le(
            match a { Some(t) => Some(t@), None => None },
            match b { Some(t) => Some(t@), None => None },
        ),
{
    match (a, b) {
        (None, _) => true,
        (Some(_), None) => false,
        (Some(x), Some(y)) => text_le_exec(x.as_str(), y.as_str()),
    }
}

/// `r` is `s` ordered by when each was last played, most recent first (never played
/// last), instances played at the same time keeping their order: std's stable
/// `sort_by` with `b.last_played.cmp(&a.last_played)`.
pub open spec fn is_sorted_by_last_played(s: Seq<Instance>, r: Seq<Instance>) -> bool {
    exists|perm: Seq<int>| {
        &&& perm.len() == s.len()
        &&& r.len() == s.len()
        &&& forall|a: int| 0 <= a < perm.len() ==> 0 <= #[trigger] perm[a] < s.len()
        &&& forall|a: int, b: int| 0 <= a < b < perm.len() ==> #[trigger] perm[a] != #[trigger] perm[b]
        &&& forall|a: int| 0 <= a < r.len() ==> #[trigger] r[a] == s[perm[a]]
        &&& forall|a: int, b: int| 0 <= a < b < r.len() ==> opt_text_le(played_key(#[trigger] r[b]), played_key(#[trigger] r[a]))
        &&& forall|a: int, b: int| 0 <= a < b < r.len() && played_key(#[trigger] r[a]) == played_key(#[trigger] r[b])
            ==> perm[a] < perm[b]
    }
}

/// The instances ordered by when each was last played, most recent first; the order
/// the launcher lists them in.
pub fn sort_by_last_played(instances: Vec<Instance>) -> (r: Vec<Instance>)
    ensures
        is_sorted_by_last_played(instances@, r@),
{
    let ghost orig = instances@;
    let mut rest = instances;
    let mut out: Vec<Instance> = Vec::new();
    let ghost mut perm: Seq<int> = Seq::empty();
    let ghost mut k: int = 0;
    while rest.len() > 0
        invariant
            0 <= k <= orig.len(),
            rest@ == orig.skip(k),
            out@.len() == k,
            perm.len() == k,
            forall|a: int| 0 <= a < perm.len() ==> 0 <= #[trigger] perm[a] < k,
            forall|a: int, b: int| 0 <= a < b < perm.len() ==> #[trigger] perm[a] != #[trigger] perm[b],
            forall|a: int| 0 <= a < out@.len() ==> #[trigger] out@[a] == orig[perm[a]],
            forall|a: int, b: int| 0 <= a < b < out@.len() ==> opt_text_le(played_key(#[trigger] out@[b]), played_key(#[trigger] out@[a])),
            forall|a: int, b: int| 0 <= a < b < out@.len() && played_key(#[trigger] out@[a]) == played_key(#[trigger] out@[b])
                ==> perm[a] < perm[b],
        decreases rest.len(),
    {
        let x = rest.remove(0);
        assert(x == orig[k]);
        let mut pos: usize = 0;
        while pos < out.len() && played_le(&x.last_played, &out[pos].last_played)
            invariant
                pos <= out@.len(),
                forall|a: int| 0 <= a < pos ==> opt_text_le(played_key(x), played_key(#[trigger] out@[a])),
            decreases out.len() - pos,
        {
            pos = pos + 1;
        }
        let ghost old_out = out@;
        let ghost old_perm = perm;
        proof {
            if pos < old_out.len() {
                lemma_opt_text_le_total(played_key(x), played_key(old_out[pos as int]));
            }
        }
        out.insert(pos, x);
        proof {
            perm = old_perm.insert(pos as int, k);
            assert forall|a: int| 0 <= a < out@.len() implies #[trigger] out@[a] == orig[perm[a]] by {
                if a < pos {
                    assert(out@[a] == old_out[a]);
                } else if a > pos {
                    assert(out@[a] == old_out[a - 1]);
                }
            }
            assert forall|a: int, b: int| 0 <= a < b < out@.len()
                implies opt_text_le(played_key(#[trigger] out@[b]), played_key(#[trigger] out@[a])) by {
                if b < pos {
                    assert(out@[a] == old_out[a] && out@[b] == old_out[b]);
                } else if b == pos {
                    assert(out@[a] == old_out[a]);
                } else if a > pos {
                    assert(out@[a] == old_out[a - 1] && out@[b] == old_out[b - 1]);
                } else if a == pos {
                    assert(out@[b] == old_out[b - 1]);
                    if b - 1 > pos {
                        lemma_opt_text_le_trans(played_key(old_out[b - 1]), played_key(old_out[pos as int]), played_key(x));
                    }
                } else {
                    assert(out@[a] == old_out[a] && out@[b] == old_out[b - 1]);
                }
            }
            assert forall|a: int| 0 <= a < perm.len() implies 0 <= #[trigger] perm[a] < k + 1 by {
                if a < pos {
                    assert(perm[a] == old_perm[a]);
                } else if a > pos {
                    assert(perm[a] == old_perm[a - 1]);
                }
            }
            assert forall|a: int, b: int| 0 <= a < b < perm.len() implies #[trigger] perm[a] != #[trigger] perm[b] by {
                if a < pos && b < pos {
                    assert(perm[a] == old_perm[a] && perm[b] == old_perm[b]);
                } else if a < pos && b > pos {
                    assert(perm[a] == old_perm[a] && perm[b] == old_perm[b - 1]);
                } else if a > pos && b > pos {
                    assert(perm[a] == old_perm[a - 1] && perm[b] == old_perm[b - 1]);
                } else if a == pos {
                    assert(perm[b] == old_perm[b - 1]);
                } else {
                    assert(perm[a] == old_perm[a]);
                }
            }
            assert forall|a: int, b: int| 0 <= a < b < out@.len() && played_key(#[trigger] out@[a]) == played_key(#[trigger] out@[b])
                implies perm[a] < perm[b] by {
                if a < pos && b < pos {
                    assert(perm[a] == old_perm[a] && perm[b] == old_perm[b]);
                    assert(out@[a] == old_out[a] && out@[b] == old_out[b]);
                } else if a < pos && b > pos {
                    assert(perm[a] == old_perm[a] && perm[b] == old_perm[b - 1]);
                    assert(out@[a] == old_out[a] && out@[b] == old_out[b - 1]);
                } else if a > pos && b > pos {
                    assert(perm[a] == old_perm[a - 1] && perm[b] == old_perm[b - 1]);
                    assert(out@[a] == old_out[a - 1] && out@[b] == old_out[b - 1]);
                } else if a == pos {
                    assert(out@[b] == old_out[b - 1]);
                    if b - 1 > pos {
                        assert(opt_text_le(played_key(old_out[b - 1]), played_key(old_out[pos as int])));
                    }
                } else {
                    assert(perm[a] == old_perm[a]);
                }
            }
            k = k + 1;
            assert(rest@ =~= orig.skip(k));
        }
    }
    assert(is_sorted_by_last_played(orig, out@)) by {
        assert(orig.len() == k);
    }
    out
}

/// The known instances.
#[derive(Debug, Default)]
pub struct InstanceManager {
    pub instances: Vec<Instance>,
}

/// The test "this instance has id `id`".
pub open spec fn instance_has_id(id: Seq<char>) -> spec_fn(Instance) -> bool {
    |i: Instance| i.id@ == id
}

/// The test "this instance does not have id `id`".
pub open spec fn instance_other_id(id: Seq<char>) -> spec_fn(Instance) -> bool {
    |i: Instance| i.id@ != id
}

fn instance_position(instances: &Vec<Instance>, id: &str) -> (r: Option<usize>)
    ensures
        r matches Some(i) ==> find_first(instances@, instance_has_id(id@)) == Some(i as int),
        r is None ==> find_first(instances@, instance_has_id(id@)) is None,
{
    let mut i: usize = 0;
    while i < instances.len()
        invariant
            i <= instances@.len(),
            forall|j: int| 0 <= j < i ==> !instance_has_id(id@)(#[trigger] instances@[j]),
        decreases instances.len() - i,
    {
        if str_eq(instances[i].id.as_str(), id) {
            proof { lemma_first_index(instances@, instance_has_id(id@), i as int); }
            return Some(i);
        }
        i = i + 1;
    }
    proof { lemma_first_index(instances@, instance_has_id(id@), i as int); }
    None
}

impl InstanceManager {
    /// Appends an instance (its settings file is written by the caller first).
    pub fn add(&mut self, instance: Instance)
        ensures
            final(self).instances@ == old(self).instances@.push(instance),
    {
        self.instances.push(instance);
    }

    /// Removes the instances with id `id` (their directory is deleted by the caller first).
    pub fn remove(&mut self, id: &str)
        ensures
            final(self).instances@ == old(self).instances@.filter(instance_other_id(id@)),
    {
        let ghost orig = self.instances@;
        let ghost p = instance_other_id(id@);
        let mut kept: Vec<Instance> = Vec::new();
        let ghost mut k: int = 0;
        while self.instances.len() > 0
            invariant
                p == instance_other_id(id@),
                0 <= k <= orig.len(),
                self.instances@ == orig.skip(k),
                kept@ == orig.take(k).filter(p),
            decreases self.instances.len(),
        {
            let inst = self.instances.remove(0);
            proof {
                assert(orig.take(k + 1) == orig.take(k).push(inst));
                orig.take(k).lemma_filter_push(inst, p);
            }
            if !str_eq(inst.id.as_str(), id) {
                kept.push(inst);
            }
            proof {
                k = k + 1;
                assert(self.instances@ == orig.skip(k));
            }
        }
        assert(orig.take(k) == orig);
        self.instances = kept;
    }

    /// Replaces the first instance whose id is `instance.id` (its settings file is written
    /// by the caller first); nothing changes when there is none.
    pub fn update(&mut self, instance: Instance)
        ensures
            final(self).instances@ == (match find_first(old(self).instances@, instance_has_id(instance.id@)) {
                Some(i) => old(self).instances@.update(i, instance),
                None => old(self).instances@,
            }),
    {
        match instance_position(&self.instances, instance.id.as_str()) {
            Some(i) => {
                self.instances.set(i, instance);
            },
            None => {},
        }
    }

    /// The first instance with id `id`.
    pub fn get(&self, id: &str) -> (r: Option<&Instance>)
        ensures
            deref_instance(r) == (match find_first(self.instances@, instance_has_id(id@)) {
                Some(i) => Some(self.instances@[i]),
                None => None,
            }),
    {
        match instance_position(&self.instances, id) {
            Some(i) => Some(&self.instances[i]),
            None => None,
        }
    }

    /// The first instance with id `id`, for changing it in place.
    pub fn get_mut(&mut self, id: &str) -> (r: Option<&mut Instance>)
        ensures
            match find_first(old(self).instances@, instance_has_id(id@)) {
                Some(i) => r matches Some(e) && *e == old(self).instances@[i]
                    && final(self).instances@ == old(self).instances@.update(i, *final(e)),
                None => r is None && final(self).instances@ == old(self).instances@,
            },
    {
        match instance_position(&self.instances, id) {
            Some(i) => Some(&mut self.instances[i]),
            None => None,
        }
    }
}

/// The instance behind an optional reference.
pub open spec fn deref_instance(r: Option<&Instance>) -> Option<Instance> {
    match r {
        Some(x) => Some(*x),
        None => None,
    }
}

/// The instance a lookup by id finds.
pub open spec fn lookup_instance(instances: Seq<Instance>, id: Seq<char>) -> Option<Instance> {
    match find_first(instances, instance_has_id(id)) {
        Some(i) => Some(instances[i]),
        None => None,
    }
}

/// An instance added under a new id is found by that id.
pub proof fn law_get_after_add(instances: Seq<Instance>, instance: Instance)
    requires
        !any(instances, instance_has_id(instance.id@)),
    ensures
        lookup_instance(instances.push(instance), instance.id@) == Some(instance),
{
    let s = instances.push(instance);
    assert forall|j: int| 0 <= j < instances.len() implies !instance_has_id(instance.id@)(#[trigger] s[j]) by {
        assert(s[j] == instances[j]);
    }
    lemma_first_index(s, instance_has_id(instance.id@), instances.len() as int);
}

/// After updating an instance that is listed, a lookup by its id finds the new value.
pub proof fn law_get_after_update(instances: Seq<Instance>, instance: Instance)
    requires
        any(instances, instance_has_id(instance.id@)),
    ensures
        lookup_instance(
            match find_first(instances, instance_has_id(instance.id@)) {
                Some(i) => instances.update(i, instance),
                None => instances,
            },
            instance.id@,
        ) == Some(instance),
{
    lemma_first_index_props(instances, instance_has_id(instance.id@));
    let i = first_index(instances, instance_has_id(instance.id@));
    let s = instances.update(i, instance);
    assert forall|j: int| 0 <= j < i implies !instance_has_id(instance.id@)(#[trigger] s[j]) by {
        assert(s[j] == instances[j]);
    }
    lemma_first_index(s, instance_has_id(instance.id@), i);
}

/// After removing the instances with an id, a lookup by it finds nothing.
pub proof fn law_get_after_remove(instances: Seq<Instance>, id: Seq<char>)
    ensures
        lookup_instance(instances.filter(instance_other_id(id)), id) is None,
{
    let s = instances.filter(instance_other_id(id));
    assert forall|j: int| 0 <= j < s.len() implies !instance_has_id(id)(#[trigger] s[j]) by {
        instances.lemma_filter_pred(instance_other_id(id), j);
    }
    lemma_first_index(s, instance_has_id(id), s.len() as int);
}

} // verus!
