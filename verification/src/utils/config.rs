//! The launcher's settings and the rules that read them.

use vstd::prelude::*;
use crate::minecraft::versions::{VersionEntry, VersionType, version_type_name};
use crate::text::{concat, push_str, str_eq};

verus! {

/// The launcher's settings.
#[derive(Debug, Clone)]
pub struct AppConfig {
    pub theme: String,
    pub language: String,
    pub close_on_launch: bool,
    pub show_snapshots: bool,
    pub show_beta: bool,
    pub show_alpha: bool,
    pub concurrent_downloads: u32,
    pub default_memory_min: u32,
    pub default_memory_max: u32,
    pub analytics_opt_in: bool,
}

impl Default for AppConfig {
    /// The system theme in English, four parallel downloads, 512 to 2048 MB, and only
    /// release versions shown.
    fn default() -> (r: Self)
        ensures
            r.theme@ == "system"@,
            r.language@ == "en"@,
            !r.close_on_launch,
            !r.show_snapshots,
            !r.show_beta,
            !r.show_alpha,
            r.concurrent_downloads == 4,
            r.default_memory_min == 512,
            r.default_memory_max == 2048,
            !r.analytics_opt_in,
    {
        AppConfig {
            theme: "system".to_string(),
            language: "en".to_string(),
            close_on_launch: false,
            show_snapshots: false,
            show_beta: false,
            show_alpha: false,
            concurrent_downloads: 4,
            default_memory_min: 512,
            default_memory_max: 2048,
            analytics_opt_in: false,
        }
    }
}

/// Whether versions of type `t` are offered: releases always, the others as set.
pub open spec fn shows_type(c: AppConfig, t: VersionType) -> bool {
    match t {
        VersionType::Release => true,
        VersionType::Snapshot => c.show_snapshots,
        VersionType::OldBeta => c.show_beta,
        VersionType::OldAlpha => c.show_alpha,
    }
}

/// The test "the settings offer this version".
pub open spec fn offered(c: AppConfig) -> spec_fn(VersionEntry) -> bool {
    |v: VersionEntry| shows_type(c, v.version_type)
}

/// The label of a version in the version list: `<id> (<type>)`.
pub open spec fn version_label_of(v: VersionEntry) -> Seq<char> {
    v.id@ + " ("@ + version_type_name(v.version_type) + ")"@
}

/// The colour scheme a theme asks for.
#[derive(Debug, Clone, Copy, PartialEq, Eq, Structural)]
pub enum ColorScheme {
    ForceLight,
    ForceDark,
    Default,
}

/// The colour scheme of a theme name: `light` and `dark` force theirs, anything else
/// follows the system.
pub open spec fn scheme_of(theme: Seq<char>) -> ColorScheme {
    if theme == "light"@ {
        ColorScheme::ForceLight
    } else if theme == "dark"@ {
        ColorScheme::ForceDark
    } else {
        ColorScheme::Default
    }
}

/// The colour scheme of a theme name.
pub fn color_scheme_for(theme: &str) -> (r: ColorScheme)
    ensures
        r == scheme_of(theme@),
{
    if str_eq(theme, "light") {
        ColorScheme::ForceLight
    } else if str_eq(theme, "dark") {
        ColorScheme::ForceDark
    } else {
        ColorScheme::Default
    }
}

impl AppConfig {
    /// Whether versions of type `t` are offered.
    pub fn shows(&self, t: VersionType) -> (r: bool)
        ensures
            r == shows_type(*self, t),
    {
        match t {
            VersionType::Release => true,
            VersionType::Snapshot => self.show_snapshots,
            VersionType::OldBeta => self.show_beta,
            VersionType::OldAlpha => self.show_alpha,
        }
    }

    /// The versions these settings offer, in their order.
    pub fn visible_versions(&self, versions: Vec<VersionEntry>) -> (r: Vec<VersionEntry>)
        ensures
            r@ == versions@.filter(offered(*self)),
    {
        let ghost orig = versions@;
        let mut rest = versions;
        let mut kept: Vec<VersionEntry> = Vec::new();
        let ghost mut k: int = 0;
        while rest.len() > 0
            invariant
                0 <= k <= orig.len(),
                rest@ == orig.skip(k),
                kept@ == orig.take(k).filter(offered(*self)),
            decreases rest.len(),
        {
            let v = rest.remove(0);
            proof {
                assert(orig.take(k + 1) == orig.take(k).push(v));
                orig.take(k).lemma_filter_push(v, offered(*self));
            }
            if self.shows(v.version_type) {
                kept.push(v);
            }
            proof {
                k = k + 1;
                assert(rest@ == orig.skip(k));
            }
        }
        assert(orig.take(k) == orig);
        kept
    }
}

/// The label of a version in the version list.
pub fn version_label(v: &VersionEntry) -> (r: String)
    ensures
        r@ == version_label_of(*v),
{
    let mut r = concat(v.id.as_str(), " (");
    push_str(&mut r, v.version_type.to_string().as_str());
    push_str(&mut r, ")");
    r
}

/// Which versions the settings offer: every release, and a snapshot, old beta or old
/// alpha exactly when its own setting is on, whatever the other settings are.
pub proof fn law_offered_versions(c: AppConfig, vs: Seq<VersionEntry>, i: int)
    requires
        0 <= i < vs.len(),
    ensures
        vs[i].version_type == VersionType::Release ==> vs.filter(offered(c)).contains(vs[i]),
        vs[i].version_type == VersionType::Snapshot ==> (vs.filter(offered(c)).contains(vs[i]) <==> c.show_snapshots),
        vs[i].version_type == VersionType::OldBeta ==> (vs.filter(offered(c)).contains(vs[i]) <==> c.show_beta),
        vs[i].version_type == VersionType::OldAlpha ==> (vs.filter(offered(c)).contains(vs[i]) <==> c.show_alpha),
{
    let f = vs.filter(offered(c));
    #[allow(deprecated)]
    vs.filter_lemma(offered(c));
    if f.contains(vs[i]) {
        let j = choose|j: int| 0 <= j < f.len() && f[j] == vs[i];
        assert(offered(c)(f[j]));
    }
}

} // verus!
