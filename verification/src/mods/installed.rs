//! The mods installed in an instance and how enabling, disabling and removing them
//! touches the mods directory.

use vstd::prelude::*;
use crate::seqs::{find_first, lemma_first_index, lemma_first_index_props};
use crate::text::{ends_with, ends_with_exec, push_str, str_eq, trim_end_all, trim_end_matches};
use crate::utils::paths::{join, join_path};
use crate::utils::{clock, ids};

verus! {

/// Where an installed mod came from.
#[derive(Debug, Clone)]
pub enum ModSource {
    Modrinth { project_id: String, version_id: String },
    CurseForge { mod_id: u64, file_id: u64 },
    Manual,
}

/// A mod installed in an instance.
#[derive(Debug, Clone)]
pub struct InstalledMod {
    pub id: String,
    pub name: String,
    pub filename: String,
    pub version: String,
    pub source: ModSource,
    pub enabled: bool,
    pub icon_url: Option<String>,
    pub description: Option<String>,
    pub installed_at: String,
}

/// A mod's name from its jar file name: the name without its `.jar` endings.
pub open spec fn mod_name_of(filename: Seq<char>) -> Seq<char> {
    trim_end_all(filename, ".jar"@)
}

/// `m` is a manually added, enabled mod for `filename` with the given id and time.
pub open spec fn is_manual_mod(m: InstalledMod, filename: Seq<char>, enabled: bool, id: String, installed_at: String) -> bool {
    &&& m.id == id
    &&& m.name@ == mod_name_of(filename)
    &&& m.filename@ == filename
    &&& m.version@ == "unknown"@
    &&& m.source is Manual
    &&& m.enabled == enabled
    &&& m.icon_url is None
    &&& m.description is None
    &&& m.installed_at == installed_at
}

impl InstalledMod {
    /// A manually added, enabled mod for a jar file, with the given id and time.
    pub fn new_manual_with(filename: &str, id: String, installed_at: String) -> (r: Self)
        ensures
            is_manual_mod(r, filename@, true, id, installed_at),
    {
        InstalledMod {
            id,
            name: trim_end_matches(filename, ".jar"),
            filename: filename.to_string(),
            version: "unknown".to_string(),
            source: ModSource::Manual,
            enabled: true,
            icon_url: None,
            description: None,
            installed_at,
        }
    }

    /// A manually added, enabled mod for a jar file, with a fresh random id, added now.
    pub fn new_manual(filename: &str) -> (r: Self)
        ensures
            ids::is_hyphenated_uuid(r.id@),
            is_manual_mod(r, filename@, true, r.id, r.installed_at),
    {
        let id = ids::new_uuid_string();
        let at = clock::now_rfc3339();
        Self::new_manual_with(filename, id, at)
    }
}

/// The mod a file in the mods directory stands for: a `.jar` file is an enabled mod, a
/// `.jar.disabled` file a disabled one; other files are not mods.
pub open spec fn scanned_mod_of(file_name: Seq<char>) -> Option<(Seq<char>, bool)> {
    if ends_with(file_name, ".jar"@) || ends_with(file_name, ".jar.disabled"@) {
        Some((trim_end_all(file_name, ".disabled"@), !ends_with(file_name, ".disabled"@)))
    } else {
        None
    }
}

/// The mod a file in the mods directory stands for, with the given id and time.
pub fn scanned_mod(file_name: &str, id: String, installed_at: String) -> (r: Option<InstalledMod>)
    ensures
        match scanned_mod_of(file_name@) {
            Some((filename, enabled)) => r matches Some(m) && is_manual_mod(m, filename, enabled, id, installed_at),
            None => r is None,
        },
{
    if ends_with_exec(file_name, ".jar") || ends_with_exec(file_name, ".jar.disabled") {
        let enabled = !ends_with_exec(file_name, ".disabled");
        let filename = trim_end_matches(file_name, ".disabled");
        let mut m = InstalledMod::new_manual_with(filename.as_str(), id, installed_at);
        m.enabled = enabled;
        Some(m)
    } else {
        None
    }
}

/// The mods of one instance, with where its jars and its mod list are kept.
pub struct ModManager {
    pub mods: Vec<InstalledMod>,
    pub mods_dir: String,
    pub meta_file: String,
}

/// The test "this mod's jar is not `filename`".
pub open spec fn other_file(filename: Seq<char>) -> spec_fn(InstalledMod) -> bool {
    |m: InstalledMod| m.filename@ != filename
}

/// The test "this mod does not have id `id`".
pub open spec fn other_mod_id(id: Seq<char>) -> spec_fn(InstalledMod) -> bool {
    |m: InstalledMod| m.id@ != id
}

/// The test "this mod has id `id`".
pub open spec fn mod_has_id(id: Seq<char>) -> spec_fn(InstalledMod) -> bool {
    |m: InstalledMod| m.id@ == id
}

fn retain_mods(v: &mut Vec<InstalledMod>, Ghost(p): Ghost<spec_fn(InstalledMod) -> bool>, by_file: bool, key: &str)
    requires
        by_file ==> p == other_file(key@),
        !by_file ==> p == other_mod_id(key@),
    ensures
        final(v)@ == old(v)@.filter(p),
{
    let ghost orig = v@;
    let mut kept: Vec<InstalledMod> = Vec::new();
    let ghost mut k: int = 0;
    while v.len() > 0
        invariant
            by_file ==> p == other_file(key@),
            !by_file ==> p == other_mod_id(key@),
            0 <= k <= orig.len(),
            v@ == orig.skip(k),
            kept@ == orig.take(k).filter(p),
        decreases v.len(),
    {
        let m = v.remove(0);
        proof {
            assert(orig.take(k + 1) == orig.take(k).push(m));
            orig.take(k).lemma_filter_push(m, p);
        }
        let keep = if by_file { !str_eq(m.filename.as_str(), key) } else { !str_eq(m.id.as_str(), key) };
        if keep {
            kept.push(m);
        }
        proof {
            k = k + 1;
            assert(v@ == orig.skip(k));
        }
    }
    assert(orig.take(k) == orig);
    *v = kept;
}

fn mod_position(mods: &Vec<InstalledMod>, id: &str) -> (r: Option<usize>)
    ensures
        r matches Some(i) ==> find_first(mods@, mod_has_id(id@)) == Some(i as int),
        r is None ==> find_first(mods@, mod_has_id(id@)) is None,
{
    let mut i: usize = 0;
    while i < mods.len()
        invariant
            i <= mods@.len(),
            forall|j: int| 0 <= j < i ==> !mod_has_id(id@)(#[trigger] mods@[j]),
        decreases mods.len() - i,
    {
        if str_eq(mods[i].id.as_str(), id) {
            proof { lemma_first_index(mods@, mod_has_id(id@), i as int); }
            return Some(i);
        }
        i = i + 1;
    }
    proof { lemma_first_index(mods@, mod_has_id(id@), i as int); }
    None
}

/// The file of a mod in the mods directory, and the same name with `.disabled`.
pub open spec fn mod_files(mods_dir: Seq<char>, filename: Seq<char>) -> (Seq<char>, Seq<char>) {
    (join_path(mods_dir, filename), join_path(mods_dir, filename + ".disabled"@))
}

/// `mods` with the enabled flag of mod `i` flipped.
pub open spec fn toggled(mods: Seq<InstalledMod>, i: int) -> Seq<InstalledMod> {
    mods.update(i, InstalledMod { enabled: !mods[i].enabled, ..mods[i] })
}

impl ModManager {
    /// Adds a mod, replacing any mod with the same jar file name.
    pub fn add(&mut self, mod_entry: InstalledMod)
        ensures
            final(self).mods@ == old(self).mods@.filter(other_file(mod_entry.filename@)).push(mod_entry),
            final(self).mods_dir == old(self).mods_dir,
            final(self).meta_file == old(self).meta_file,
    {
        retain_mods(&mut self.mods, Ghost(other_file(mod_entry.filename@)), true, mod_entry.filename.as_str());
        self.mods.push(mod_entry);
    }

    /// The files to delete when removing mod `id`: its jar and its disabled jar.
    pub fn remove_paths(&self, id: &str) -> (r: Option<(String, String)>)
        ensures
            match find_first(self.mods@, mod_has_id(id@)) {
                Some(i) => r matches Some((a, b)) && (a@, b@) == mod_files(self.mods_dir@, self.mods@[i].filename@),
                None => r is None,
            },
    {
        match mod_position(&self.mods, id) {
            Some(i) => {
                let f = &self.mods[i].filename;
                let jar = join(self.mods_dir.as_str(), f.as_str());
                let mut d = f.clone();
                push_str(&mut d, ".disabled");
                let disabled = join(self.mods_dir.as_str(), d.as_str());
                Some((jar, disabled))
            },
            None => None,
        }
    }

    /// Removes the mods with id `id` from the list (their files are deleted by the caller first).
    pub fn remove(&mut self, id: &str)
        ensures
            final(self).mods@ == old(self).mods@.filter(other_mod_id(id@)),
            final(self).mods_dir == old(self).mods_dir,
            final(self).meta_file == old(self).meta_file,
    {
        retain_mods(&mut self.mods, Ghost(other_mod_id(id@)), false, id);
    }

    /// The rename that toggling mod `id` needs: an enabled mod's jar gets `.disabled`
    /// appended, a disabled mod's loses it.
    pub fn toggle_rename(&self, id: &str) -> (r: Option<(String, String)>)
        ensures
            match find_first(self.mods@, mod_has_id(id@)) {
                Some(i) => r matches Some((from, to)) && {
                    let (jar, disabled) = mod_files(self.mods_dir@, self.mods@[i].filename@);
                    if self.mods@[i].enabled { from@ == jar && to@ == disabled } else { from@ == disabled && to@ == jar }
                },
                None => r is None,
            },
    {
        match mod_position(&self.mods, id) {
            Some(i) => {
                let f = &self.mods[i].filename;
                let jar = join(self.mods_dir.as_str(), f.as_str());
                let mut d = f.clone();
                push_str(&mut d, ".disabled");
                let disabled = join(self.mods_dir.as_str(), d.as_str());
                if self.mods[i].enabled { Some((jar, disabled)) } else { Some((disabled, jar)) }
            },
            None => None,
        }
    }

    /// Flips whether mod `id` is enabled (its file is renamed by the caller first).
    pub fn toggle(&mut self, id: &str)
        ensures
            final(self).mods@ == (match find_first(old(self).mods@, mod_has_id(id@)) {
                Some(i) => toggled(old(self).mods@, i),
                None => old(self).mods@,
            }),
            final(self).mods_dir == old(self).mods_dir,
            final(self).meta_file == old(self).meta_file,
    {
        match mod_position(&self.mods, id) {
            Some(i) => {
                let e = self.mods[i].enabled;
                self.mods[i].enabled = !e;
            },
            None => {},
        }
    }
}

/// No two mods share a jar file name.
pub open spec fn distinct_files(mods: Seq<InstalledMod>) -> bool {
    forall|a: int, b: int| 0 <= a < b < mods.len() ==> (#[trigger] mods[a]).filename@ != (#[trigger] mods[b]).filename@
}

/// What toggling does to a mod list, by id.
pub open spec fn toggle_result(mods: Seq<InstalledMod>, id: Seq<char>) -> Seq<InstalledMod> {
    match find_first(mods, mod_has_id(id)) {
        Some(i) => toggled(mods, i),
        None => mods,
    }
}

/// Toggling a mod twice gives back the list it started from.
pub proof fn law_toggle_twice_restores(mods: Seq<InstalledMod>, id: Seq<char>)
    ensures
        toggle_result(toggle_result(mods, id), id) == mods,
{
    lemma_first_index_props(mods, mod_has_id(id));
    match find_first(mods, mod_has_id(id)) {
        Some(i) => {
            let once = toggled(mods, i);
            assert forall|j: int| 0 <= j < i implies !mod_has_id(id)(#[trigger] once[j]) by {
                assert(once[j] == mods[j]);
            }
            assert(mod_has_id(id)(once[i]));
            lemma_first_index(once, mod_has_id(id), i);
            assert(toggled(once, i) =~= mods);
        },
        None => {},
    }
}

/// Adding a mod to a list whose jar file names are distinct keeps them distinct, and the
/// added mod is the one listed for its file name.
pub proof fn law_add_keeps_files_distinct(mods: Seq<InstalledMod>, m: InstalledMod)
    requires
        distinct_files(mods),
    ensures
        distinct_files(mods.filter(other_file(m.filename@)).push(m)),
        mods.filter(other_file(m.filename@)).push(m).last() == m,
{
    let kept = mods.filter(other_file(m.filename@));
    let s = kept.push(m);
    assert forall|a: int, b: int| 0 <= a < b < s.len() implies (#[trigger] s[a]).filename@ != (#[trigger] s[b]).filename@ by {
        mods.lemma_filter_pred(other_file(m.filename@), a);
        if b == s.len() - 1 {
            assert(s[a] == kept[a]);
        } else {
            assert(s[a] == kept[a] && s[b] == kept[b]);
            assert(kept.contains(kept[a]) && kept.contains(kept[b]));
            mods.lemma_filter_contains_rev(other_file(m.filename@), kept[a]);
            mods.lemma_filter_contains_rev(other_file(m.filename@), kept[b]);
            if kept[a].filename@ == kept[b].filename@ {
                let x = choose|x: int| 0 <= x < mods.len() && mods[x] == kept[a];
                let y = choose|y: int| 0 <= y < mods.len() && mods[y] == kept[b];
                lemma_filter_order(mods, other_file(m.filename@), a, b);
                assert(false);
            }
        }
    }
}

/// Filtering keeps the original order: two kept elements at positions `a < b` come from
/// positions `x < y` of the original list.
pub proof fn lemma_filter_order<T>(s: Seq<T>, p: spec_fn(T) -> bool, a: int, b: int)
    requires
        0 <= a < b < s.filter(p).len(),
    ensures
        exists|x: int, y: int| 0 <= x < y < s.len() && s[x] == s.filter(p)[a] && s[y] == s.filter(p)[b],
    decreases s.len(),
{
    reveal(Seq::filter);
    let f = s.filter(p);
    let d = s.drop_last();
    let fd = d.filter(p);
    if p(s.last()) {
        assert(f == fd.push(s.last()));
        if b == f.len() - 1 {
            assert(fd.contains(fd[a]));
            d.lemma_filter_contains_rev(p, fd[a]);
            let x = choose|x: int| 0 <= x < d.len() && d[x] == fd[a];
            assert(s[x] == f[a] && s[s.len() - 1] == f[b]);
        } else {
            lemma_filter_order(d, p, a, b);
            let (x, y) = choose|x: int, y: int| 0 <= x < y < d.len() && d[x] == fd[a] && d[y] == fd[b];
            assert(s[x] == f[a] && s[y] == f[b]);
        }
    } else {
        assert(f == fd);
        lemma_filter_order(d, p, a, b);
        let (x, y) = choose|x: int, y: int| 0 <= x < y < d.len() && d[x] == fd[a] && d[y] == fd[b];
        assert(s[x] == f[a] && s[y] == f[b]);
    }
}

} // verus!
