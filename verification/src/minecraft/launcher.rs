//! The launch rules: which libraries a version needs on Linux, and the JVM and game
//! arguments built from version metadata, an instance and an account.

use vstd::prelude::*;
use crate::auth::accounts::{Account, AccountType};
use crate::json::{JsonValue, json_get, json_str, deref_opt};
use crate::minecraft::instances::{Instance, jvm_flags};
use crate::minecraft::versions::{Artifact, Library, Rule, VersionEntry, VersionManifest, VersionMeta};
use crate::utils::paths::{join, join_path, path_exists};
use crate::text::{chars_of, string_from_range, starts_with, starts_with_exec, ends_with, ends_with_exec, join as join_seq, join_exec};
use crate::seqs::{find_first, lemma_first_index};
use crate::text::{concat, decimal, push_decimal, push_str, replace_all, replace_str, str_eq, words, words_of};
use crate::text::{lemma_not_starts_with, lemma_replace_all_absent, lemma_replace_all_head_only, lemma_replace_all_whole};

verus! {

/// A library rule speaks of Linux: it names no OS, or an OS without a name, or `linux`.
pub open spec fn rule_applies_to_linux(r: Rule) -> bool {
    match r.os {
        None => true,
        Some(os) => match os.name {
            None => true,
            Some(n) => n@ == "linux"@,
        },
    }
}

/// The test form of `rule_applies_to_linux`.
pub open spec fn applies_to_linux() -> spec_fn(Rule) -> bool {
    |r: Rule| rule_applies_to_linux(r)
}

/// A library is used on Linux when it has no rules, when no rule speaks of Linux, or
/// when the first rule that does is an `allow` rule.
pub open spec fn library_included(lib: Library) -> bool {
    match lib.rules {
        None => true,
        Some(rules) => match find_first(rules@, applies_to_linux()) {
            Some(i) => rules@[i].action@ == "allow"@,
            None => true,
        },
    }
}

/// Whether the library is used on Linux.
pub fn should_include_library(lib: &Library) -> (r: bool)
    ensures
        r == library_included(*lib),
{
    match &lib.rules {
        None => true,
        Some(rules) => {
            let mut i: usize = 0;
            while i < rules.len()
                invariant
                    lib.rules == Some(*rules),
                    i <= rules@.len(),
                    forall|j: int| 0 <= j < i ==> !applies_to_linux()(#[trigger] rules@[j]),
                decreases rules.len() - i,
            {
                let rule = &rules[i];
                let applies = match &rule.os {
                    None => true,
                    Some(os) => match &os.name {
                        None => true,
                        Some(n) => str_eq(n.as_str(), "linux"),
                    },
                };
                if applies {
                    proof { lemma_first_index(rules@, applies_to_linux(), i as int); }
                    return str_eq(rule.action.as_str(), "allow");
                }
                i = i + 1;
            }
            proof { lemma_first_index(rules@, applies_to_linux(), i as int); }
            true
        },
    }
}

/// A JSON argument rule decides when it names no OS, an OS without a string name, or `linux`.
pub open spec fn json_rule_decides(r: JsonValue) -> bool {
    match json_get(r, "os"@) {
        None => true,
        Some(os) => match json_str(json_get(os, "name"@)) {
            None => true,
            Some(n) => n == "linux"@,
        },
    }
}

/// The test form of `json_rule_decides`.
pub open spec fn decides() -> spec_fn(JsonValue) -> bool {
    |r: JsonValue| json_rule_decides(r)
}

/// A JSON rule's action; `allow` when it has none.
pub open spec fn json_rule_action(r: JsonValue) -> Seq<char> {
    match json_str(json_get(r, "action"@)) {
        Some(a) => a,
        None => "allow"@,
    }
}

/// Whether argument rules allow an argument on Linux: absent rules, or rules that are not
/// an array, allow it; otherwise the first deciding rule's action must be `allow`, and
/// with no deciding rule it is allowed.
pub open spec fn rules_allow(rules: Option<JsonValue>) -> bool {
    match rules {
        Some(JsonValue::Array(items)) => match find_first(items@, decides()) {
            Some(i) => json_rule_action(items@[i]) == "allow"@,
            None => true,
        },
        _ => true,
    }
}

/// Whether argument rules allow an argument on Linux.
pub fn check_rules(rules: Option<&JsonValue>) -> (r: bool)
    ensures
        r == rules_allow(deref_opt(rules)),
{
    match rules {
        Some(JsonValue::Array(items)) => {
            let mut i: usize = 0;
            while i < items.len()
                invariant
                    deref_opt(rules) == Some(JsonValue::Array(*items)),
                    i <= items@.len(),
                    forall|j: int| 0 <= j < i ==> !decides()(#[trigger] items@[j]),
                decreases items.len() - i,
            {
                let rule = &items[i];
                let is_allow = match rule.get("action") {
                    Some(a) => match a.as_str() {
                        Some(s) => str_eq(s.as_str(), "allow"),
                        None => true,
                    },
                    None => true,
                };
                let deciding = match rule.get("os") {
                    Some(os) => match os.get("name") {
                        Some(n) => match n.as_str() {
                            Some(s) => str_eq(s.as_str(), "linux"),
                            None => true,
                        },
                        None => true,
                    },
                    None => true,
                };
                if deciding {
                    proof { lemma_first_index(items@, decides(), i as int); }
                    return is_allow;
                }
                i = i + 1;
            }
            proof { lemma_first_index(items@, decides(), i as int); }
            true
        },
        _ => true,
    }
}

/// The string items of a JSON array, in order.
pub open spec fn string_items(vs: Seq<JsonValue>) -> Seq<Seq<char>>
    decreases vs.len(),
{
    if vs.len() == 0 {
        seq![]
    } else {
        string_items(vs.drop_last()) + match vs.last() {
            JsonValue::Str(s) => seq![s@],
            _ => seq![],
        }
    }
}

/// The texts an argument's `value` holds: a string, or the strings of an array.
pub open spec fn value_texts(v: Option<JsonValue>) -> Seq<Seq<char>> {
    match v {
        Some(JsonValue::Str(s)) => seq![s@],
        Some(JsonValue::Array(items)) => string_items(items@),
        _ => seq![],
    }
}

/// The texts of one game argument: a plain string, or an object's `value` (its rules
/// are not consulted).
pub open spec fn game_arg_texts(v: JsonValue) -> Seq<Seq<char>> {
    match v {
        JsonValue::Str(s) => seq![s@],
        JsonValue::Object(_) => value_texts(json_get(v, "value"@)),
        _ => seq![],
    }
}

/// The texts of one JVM argument: a plain string, or an object's `value` when its rules
/// allow it.
pub open spec fn jvm_arg_texts(v: JsonValue) -> Seq<Seq<char>> {
    match v {
        JsonValue::Str(s) => seq![s@],
        JsonValue::Object(_) => if rules_allow(json_get(v, "rules"@)) {
            value_texts(json_get(v, "value"@))
        } else {
            seq![]
        },
        _ => seq![],
    }
}

/// The texts of a list of game arguments, in order.
pub open spec fn all_game_arg_texts(vs: Seq<JsonValue>) -> Seq<Seq<char>>
    decreases vs.len(),
{
    if vs.len() == 0 {
        seq![]
    } else {
        all_game_arg_texts(vs.drop_last()) + game_arg_texts(vs.last())
    }
}

/// The texts of a list of JVM arguments, in order.
pub open spec fn all_jvm_arg_texts(vs: Seq<JsonValue>) -> Seq<Seq<char>>
    decreases vs.len(),
{
    if vs.len() == 0 {
        seq![]
    } else {
        all_jvm_arg_texts(vs.drop_last()) + jvm_arg_texts(vs.last())
    }
}

fn push_value_texts(out: &mut Vec<String>, v: Option<&JsonValue>)
    ensures
        final(out).deep_view() == old(out).deep_view() + value_texts(deref_opt(v)),
{
    match v {
        Some(JsonValue::Str(s)) => {
            let ghost before = out.deep_view();
            out.push(s.clone());
            assert(out.deep_view() =~= before + seq![s@]);
        },
        Some(JsonValue::Array(items)) => {
            let ghost start = out.deep_view();
            let mut i: usize = 0;
            while i < items.len()
                invariant
                    i <= items@.len(),
                    out.deep_view() == start + string_items(items@.take(i as int)),
                decreases items.len() - i,
            {
                let ghost before = out.deep_view();
                assert(items@.take(i + 1).drop_last() =~= items@.take(i as int));
                match &items[i] {
                    JsonValue::Str(s) => {
                        out.push(s.clone());
                        assert(out.deep_view() =~= before.push(s@));
                    },
                    _ => {},
                }
                assert(out.deep_view() =~= start + string_items(items@.take(i + 1)));
                i = i + 1;
            }
            assert(items@.take(i as int) =~= items@);
        },
        _ => {
            assert(out.deep_view() =~= old(out).deep_view() + value_texts(deref_opt(v)));
        },
    }
}

/// The texts of a list of game (`jvm` false) or JVM (`jvm` true) arguments.
fn collect_arg_texts(vs: &Vec<JsonValue>, jvm: bool) -> (r: Vec<String>)
    ensures
        r.deep_view() == if jvm { all_jvm_arg_texts(vs@) } else { all_game_arg_texts(vs@) },
{
    let mut out: Vec<String> = Vec::new();
    let mut i: usize = 0;
    while i < vs.len()
        invariant
            i <= vs@.len(),
            out.deep_view() == if jvm { all_jvm_arg_texts(vs@.take(i as int)) } else { all_game_arg_texts(vs@.take(i as int)) },
        decreases vs.len() - i,
    {
        let ghost before = out.deep_view();
        assert(vs@.take(i + 1).drop_last() =~= vs@.take(i as int));
        assert(vs@.take(i + 1).last() == vs@[i as int]);
        let v = &vs[i];
        match v {
            JsonValue::Str(s) => {
                out.push(s.clone());
                assert(out.deep_view() =~= before + seq![s@]);
            },
            JsonValue::Object(_) => {
                let allowed = if jvm { check_rules(v.get("rules")) } else { true };
                if allowed {
                    push_value_texts(&mut out, v.get("value"));
                } else {
                    assert(out.deep_view() =~= before + seq![]);
                }
            },
            _ => {
                assert(out.deep_view() =~= before + seq![]);
            },
        }
        i = i + 1;
    }
    assert(vs@.take(i as int) =~= vs@);
    out
}

/// The values put into game argument placeholders.
pub struct GameVars {
    pub username: Seq<char>,
    pub version_name: Seq<char>,
    pub game_directory: Seq<char>,
    pub assets_root: Seq<char>,
    pub assets_index_name: Seq<char>,
    pub uuid: Seq<char>,
    pub access_token: Seq<char>,
    pub user_type: Seq<char>,
    pub xuid: Seq<char>,
}

/// A game argument with its placeholders filled in, one placeholder after the other in
/// this order (so a value that itself holds a later placeholder is filled in too).
pub open spec fn game_subst(s: Seq<char>, v: GameVars) -> Seq<char> {
    let s = replace_all(s, "${auth_player_name}"@, v.username);
    let s = replace_all(s, "${version_name}"@, v.version_name);
    let s = replace_all(s, "${game_directory}"@, v.game_directory);
    let s = replace_all(s, "${assets_root}"@, v.assets_root);
    let s = replace_all(s, "${assets_index_name}"@, v.assets_index_name);
    let s = replace_all(s, "${auth_uuid}"@, v.uuid);
    let s = replace_all(s, "${auth_access_token}"@, v.access_token);
    let s = replace_all(s, "${user_type}"@, v.user_type);
    let s = replace_all(s, "${version_type}"@, "GLauncher"@);
    let s = replace_all(s, "${user_properties}"@, "{}"@);
    let s = replace_all(s, "${clientid}"@, "GLauncher"@);
    replace_all(s, "${auth_xuid}"@, v.xuid)
}

/// The placeholder values for launching `instance` as `account`: the asset index id
/// (`legacy` without one), the access token (`0` without one), `msa` or `legacy` as the
/// user type, and the Xbox user id (empty without one).
pub open spec fn game_vars(meta: VersionMeta, instance: Instance, account: Account, game_dir: Seq<char>, assets_dir: Seq<char>) -> GameVars {
    GameVars {
        username: account.username@,
        version_name: instance.minecraft_version@,
        game_directory: game_dir,
        assets_root: assets_dir,
        assets_index_name: match meta.asset_index {
            Some(ai) => ai.id@,
            None => "legacy"@,
        },
        uuid: account.uuid@,
        access_token: match account.access_token {
            Some(t) => t@,
            None => "0"@,
        },
        user_type: if account.account_type == AccountType::Microsoft { "msa"@ } else { "legacy"@ },
        xuid: match account.xuid {
            Some(x) => x@,
            None => ""@,
        },
    }
}

/// The game arguments before substitution: those of the newer `arguments.game` list
/// when the version has `arguments`, else the words of the older `minecraftArguments`.
pub open spec fn raw_game_args(meta: VersionMeta) -> Seq<Seq<char>> {
    match meta.arguments {
        Some(a) => match a.game {
            Some(g) => all_game_arg_texts(g@),
            None => seq![],
        },
        None => match meta.minecraft_arguments {
            Some(m) => words(m@),
            None => seq![],
        },
    }
}

/// The window size arguments: only for a windowed instance with a fixed resolution and
/// both sizes set.
pub open spec fn window_args(instance: Instance) -> Seq<Seq<char>> {
    if !instance.fullscreen && !instance.game_resolution_auto && instance.window_width is Some
        && instance.window_height is Some {
        seq![
            "--width"@,
            decimal(instance.window_width->0 as nat),
            "--height"@,
            decimal(instance.window_height->0 as nat),
        ]
    } else {
        seq![]
    }
}

/// The game's command-line arguments.
pub open spec fn game_args(meta: VersionMeta, instance: Instance, account: Account, game_dir: Seq<char>, assets_dir: Seq<char>) -> Seq<Seq<char>> {
    let v = game_vars(meta, instance, account, game_dir, assets_dir);
    raw_game_args(meta).map_values(|t: Seq<char>| game_subst(t, v)) + window_args(instance)
}

/// Text without a `$`, so without any placeholder.
pub open spec fn free_of_placeholders(t: Seq<char>) -> bool {
    forall|i: int| 0 <= i < t.len() ==> #[trigger] t[i] != '$'
}

proof fn lemma_username_placeholder_filled(v: GameVars)
    requires
        free_of_placeholders(v.username),
    ensures
        game_subst("${auth_player_name}"@, v) == v.username,
{
    let s0 = "${auth_player_name}"@;
    reveal_strlit("${auth_player_name}");
    reveal_strlit("${version_name}");
    reveal_strlit("${game_directory}");
    reveal_strlit("${assets_root}");
    reveal_strlit("${assets_index_name}");
    reveal_strlit("${auth_uuid}");
    reveal_strlit("${auth_access_token}");
    reveal_strlit("${user_type}");
    reveal_strlit("${version_type}");
    reveal_strlit("${user_properties}");
    reveal_strlit("${clientid}");
    reveal_strlit("${auth_xuid}");
    assert forall|i: int| 1 <= i < s0.len() implies #[trigger] s0[i] != '$' by {}
    lemma_replace_all_whole(s0, v.username);
    lemma_replace_all_absent(v.username, "${version_name}"@, v.version_name);
    lemma_replace_all_absent(v.username, "${game_directory}"@, v.game_directory);
    lemma_replace_all_absent(v.username, "${assets_root}"@, v.assets_root);
    lemma_replace_all_absent(v.username, "${assets_index_name}"@, v.assets_index_name);
    lemma_replace_all_absent(v.username, "${auth_uuid}"@, v.uuid);
    lemma_replace_all_absent(v.username, "${auth_access_token}"@, v.access_token);
    lemma_replace_all_absent(v.username, "${user_type}"@, v.user_type);
    lemma_replace_all_absent(v.username, "${version_type}"@, "GLauncher"@);
    lemma_replace_all_absent(v.username, "${user_properties}"@, "{}"@);
    lemma_replace_all_absent(v.username, "${clientid}"@, "GLauncher"@);
    lemma_replace_all_absent(v.username, "${auth_xuid}"@, v.xuid);
}

proof fn lemma_uuid_placeholder_filled(v: GameVars)
    requires
        free_of_placeholders(v.uuid),
    ensures
        game_subst("${auth_uuid}"@, v) == v.uuid,
{
    let s0 = "${auth_uuid}"@;
    reveal_strlit("${auth_player_name}");
    reveal_strlit("${version_name}");
    reveal_strlit("${game_directory}");
    reveal_strlit("${assets_root}");
    reveal_strlit("${assets_index_name}");
    reveal_strlit("${auth_uuid}");
    reveal_strlit("${auth_access_token}");
    reveal_strlit("${user_type}");
    reveal_strlit("${version_type}");
    reveal_strlit("${user_properties}");
    reveal_strlit("${clientid}");
    reveal_strlit("${auth_xuid}");
    assert forall|i: int| 1 <= i < s0.len() implies #[trigger] s0[i] != '$' by {}
    lemma_not_starts_with(s0, "${auth_player_name}"@, 7);
    lemma_replace_all_head_only(s0, "${auth_player_name}"@, v.username);
    lemma_not_starts_with(s0, "${version_name}"@, 2);
    lemma_replace_all_head_only(s0, "${version_name}"@, v.version_name);
    lemma_not_starts_with(s0, "${game_directory}"@, 2);
    lemma_replace_all_head_only(s0, "${game_directory}"@, v.game_directory);
    lemma_not_starts_with(s0, "${assets_root}"@, 3);
    lemma_replace_all_head_only(s0, "${assets_root}"@, v.assets_root);
    lemma_not_starts_with(s0, "${assets_index_name}"@, 3);
    lemma_replace_all_head_only(s0, "${assets_index_name}"@, v.assets_index_name);
    lemma_replace_all_whole(s0, v.uuid);
    lemma_replace_all_absent(v.uuid, "${auth_access_token}"@, v.access_token);
    lemma_replace_all_absent(v.uuid, "${user_type}"@, v.user_type);
    lemma_replace_all_absent(v.uuid, "${version_type}"@, "GLauncher"@);
    lemma_replace_all_absent(v.uuid, "${user_properties}"@, "{}"@);
    lemma_replace_all_absent(v.uuid, "${clientid}"@, "GLauncher"@);
    lemma_replace_all_absent(v.uuid, "${auth_xuid}"@, v.xuid);
}

proof fn lemma_token_placeholder_filled(v: GameVars)
    requires
        free_of_placeholders(v.access_token),
    ensures
        game_subst("${auth_access_token}"@, v) == v.access_token,
{
    let s0 = "${auth_access_token}"@;
    reveal_strlit("${auth_player_name}");
    reveal_strlit("${version_name}");
    reveal_strlit("${game_directory}");
    reveal_strlit("${assets_root}");
    reveal_strlit("${assets_index_name}");
    reveal_strlit("${auth_uuid}");
    reveal_strlit("${auth_access_token}");
    reveal_strlit("${user_type}");
    reveal_strlit("${version_type}");
    reveal_strlit("${user_properties}");
    reveal_strlit("${clientid}");
    reveal_strlit("${auth_xuid}");
    assert forall|i: int| 1 <= i < s0.len() implies #[trigger] s0[i] != '$' by {}
    lemma_not_starts_with(s0, "${auth_player_name}"@, 7);
    lemma_replace_all_head_only(s0, "${auth_player_name}"@, v.username);
    lemma_not_starts_with(s0, "${version_name}"@, 2);
    lemma_replace_all_head_only(s0, "${version_name}"@, v.version_name);
    lemma_not_starts_with(s0, "${game_directory}"@, 2);
    lemma_replace_all_head_only(s0, "${game_directory}"@, v.game_directory);
    lemma_not_starts_with(s0, "${assets_root}"@, 3);
    lemma_replace_all_head_only(s0, "${assets_root}"@, v.assets_root);
    lemma_not_starts_with(s0, "${assets_index_name}"@, 3);
    lemma_replace_all_head_only(s0, "${assets_index_name}"@, v.assets_index_name);
    lemma_not_starts_with(s0, "${auth_uuid}"@, 7);
    lemma_replace_all_head_only(s0, "${auth_uuid}"@, v.uuid);
    lemma_replace_all_whole(s0, v.access_token);
    lemma_replace_all_absent(v.access_token, "${user_type}"@, v.user_type);
    lemma_replace_all_absent(v.access_token, "${version_type}"@, "GLauncher"@);
    lemma_replace_all_absent(v.access_token, "${user_properties}"@, "{}"@);
    lemma_replace_all_absent(v.access_token, "${clientid}"@, "GLauncher"@);
    lemma_replace_all_absent(v.access_token, "${auth_xuid}"@, v.xuid);
}

proof fn lemma_user_type_placeholder_filled(v: GameVars)
    requires
        free_of_placeholders(v.user_type),
    ensures
        game_subst("${user_type}"@, v) == v.user_type,
{
    let s0 = "${user_type}"@;
    reveal_strlit("${auth_player_name}");
    reveal_strlit("${version_name}");
    reveal_strlit("${game_directory}");
    reveal_strlit("${assets_root}");
    reveal_strlit("${assets_index_name}");
    reveal_strlit("${auth_uuid}");
    reveal_strlit("${auth_access_token}");
    reveal_strlit("${user_type}");
    reveal_strlit("${version_type}");
    reveal_strlit("${user_properties}");
    reveal_strlit("${clientid}");
    reveal_strlit("${auth_xuid}");
    assert forall|i: int| 1 <= i < s0.len() implies #[trigger] s0[i] != '$' by {}
    lemma_not_starts_with(s0, "${auth_player_name}"@, 2);
    lemma_replace_all_head_only(s0, "${auth_player_name}"@, v.username);
    lemma_not_starts_with(s0, "${version_name}"@, 2);
    lemma_replace_all_head_only(s0, "${version_name}"@, v.version_name);
    lemma_not_starts_with(s0, "${game_directory}"@, 2);
    lemma_replace_all_head_only(s0, "${game_directory}"@, v.game_directory);
    lemma_not_starts_with(s0, "${assets_root}"@, 2);
    lemma_replace_all_head_only(s0, "${assets_root}"@, v.assets_root);
    lemma_not_starts_with(s0, "${assets_index_name}"@, 2);
    lemma_replace_all_head_only(s0, "${assets_index_name}"@, v.assets_index_name);
    lemma_not_starts_with(s0, "${auth_uuid}"@, 2);
    lemma_replace_all_head_only(s0, "${auth_uuid}"@, v.uuid);
    lemma_not_starts_with(s0, "${auth_access_token}"@, 2);
    lemma_replace_all_head_only(s0, "${auth_access_token}"@, v.access_token);
    lemma_replace_all_whole(s0, v.user_type);
    lemma_replace_all_absent(v.user_type, "${version_type}"@, "GLauncher"@);
    lemma_replace_all_absent(v.user_type, "${user_properties}"@, "{}"@);
    lemma_replace_all_absent(v.user_type, "${clientid}"@, "GLauncher"@);
    lemma_replace_all_absent(v.user_type, "${auth_xuid}"@, v.xuid);
}

proof fn lemma_xuid_placeholder_filled(v: GameVars)
    requires
        free_of_placeholders(v.xuid),
    ensures
        game_subst("${auth_xuid}"@, v) == v.xuid,
{
    let s0 = "${auth_xuid}"@;
    reveal_strlit("${auth_player_name}");
    reveal_strlit("${version_name}");
    reveal_strlit("${game_directory}");
    reveal_strlit("${assets_root}");
    reveal_strlit("${assets_index_name}");
    reveal_strlit("${auth_uuid}");
    reveal_strlit("${auth_access_token}");
    reveal_strlit("${user_type}");
    reveal_strlit("${version_type}");
    reveal_strlit("${user_properties}");
    reveal_strlit("${clientid}");
    reveal_strlit("${auth_xuid}");
    assert forall|i: int| 1 <= i < s0.len() implies #[trigger] s0[i] != '$' by {}
    lemma_not_starts_with(s0, "${auth_player_name}"@, 7);
    lemma_replace_all_head_only(s0, "${auth_player_name}"@, v.username);
    lemma_not_starts_with(s0, "${version_name}"@, 2);
    lemma_replace_all_head_only(s0, "${version_name}"@, v.version_name);
    lemma_not_starts_with(s0, "${game_directory}"@, 2);
    lemma_replace_all_head_only(s0, "${game_directory}"@, v.game_directory);
    lemma_not_starts_with(s0, "${assets_root}"@, 3);
    lemma_replace_all_head_only(s0, "${assets_root}"@, v.assets_root);
    lemma_not_starts_with(s0, "${assets_index_name}"@, 3);
    lemma_replace_all_head_only(s0, "${assets_index_name}"@, v.assets_index_name);
    lemma_not_starts_with(s0, "${auth_uuid}"@, 7);
    lemma_replace_all_head_only(s0, "${auth_uuid}"@, v.uuid);
    lemma_not_starts_with(s0, "${auth_access_token}"@, 7);
    lemma_replace_all_head_only(s0, "${auth_access_token}"@, v.access_token);
    lemma_not_starts_with(s0, "${user_type}"@, 2);
    lemma_replace_all_head_only(s0, "${user_type}"@, v.user_type);
    lemma_not_starts_with(s0, "${version_type}"@, 2);
    lemma_replace_all_head_only(s0, "${version_type}"@, "GLauncher"@);
    lemma_not_starts_with(s0, "${user_properties}"@, 2);
    lemma_replace_all_head_only(s0, "${user_properties}"@, "{}"@);
    lemma_not_starts_with(s0, "${clientid}"@, 2);
    lemma_replace_all_head_only(s0, "${clientid}"@, "GLauncher"@);
    lemma_replace_all_whole(s0, v.xuid);
}

/// A game argument that is the access-token placeholder becomes the account's own access
/// token (a real token holds no `$`), and `0` only for an account without one: a
/// Microsoft account launches with its Minecraft token.
pub proof fn law_access_token_argument(meta: VersionMeta, instance: Instance, account: Account,
    game_dir: Seq<char>, assets_dir: Seq<char>, i: int)
    requires
        0 <= i < raw_game_args(meta).len(),
        raw_game_args(meta)[i] == "${auth_access_token}"@,
        account.access_token matches Some(t) ==> free_of_placeholders(t@),
    ensures
        game_args(meta, instance, account, game_dir, assets_dir)[i] == match account.access_token {
            Some(t) => t@,
            None => "0"@,
        },
{
    let v = game_vars(meta, instance, account, game_dir, assets_dir);
    reveal_strlit("0");
    assert(free_of_placeholders(v.access_token));
    lemma_token_placeholder_filled(v);
    let mapped = raw_game_args(meta).map_values(|t: Seq<char>| game_subst(t, v));
    assert(game_args(meta, instance, account, game_dir, assets_dir)[i] == mapped[i]);
}

/// The account's placeholders in a game argument become the account's own values: the
/// player name, the UUID, `msa` for a Microsoft account and `legacy` otherwise, and the
/// Xbox user id (empty without one). Values that hold a `$` are left out, since a later
/// placeholder inside them would be filled in too.
pub proof fn law_account_arguments(meta: VersionMeta, instance: Instance, account: Account,
    game_dir: Seq<char>, assets_dir: Seq<char>, i: int)
    requires
        0 <= i < raw_game_args(meta).len(),
        free_of_placeholders(account.username@),
        free_of_placeholders(account.uuid@),
        account.xuid matches Some(x) ==> free_of_placeholders(x@),
    ensures
        raw_game_args(meta)[i] == "${auth_player_name}"@
            ==> game_args(meta, instance, account, game_dir, assets_dir)[i] == account.username@,
        raw_game_args(meta)[i] == "${auth_uuid}"@
            ==> game_args(meta, instance, account, game_dir, assets_dir)[i] == account.uuid@,
        raw_game_args(meta)[i] == "${user_type}"@
            ==> game_args(meta, instance, account, game_dir, assets_dir)[i]
                == if account.account_type == AccountType::Microsoft { "msa"@ } else { "legacy"@ },
        raw_game_args(meta)[i] == "${auth_xuid}"@
            ==> game_args(meta, instance, account, game_dir, assets_dir)[i] == match account.xuid {
                Some(x) => x@,
                None => ""@,
            },
{
    let v = game_vars(meta, instance, account, game_dir, assets_dir);
    reveal_strlit("msa");
    reveal_strlit("legacy");
    reveal_strlit("");
    assert(free_of_placeholders(v.user_type));
    assert(free_of_placeholders(v.xuid));
    lemma_username_placeholder_filled(v);
    lemma_uuid_placeholder_filled(v);
    lemma_user_type_placeholder_filled(v);
    lemma_xuid_placeholder_filled(v);
    let mapped = raw_game_args(meta).map_values(|t: Seq<char>| game_subst(t, v));
    assert(game_args(meta, instance, account, game_dir, assets_dir)[i] == mapped[i]);
}

fn fill_game_placeholders(t: &str, meta: &VersionMeta, instance: &Instance, account: &Account, game_dir: &str, assets_dir: &str) -> (r: String)
    ensures
        r@ == game_subst(t@, game_vars(*meta, *instance, *account, game_dir@, assets_dir@)),
{
    proof {
        reveal_strlit("${auth_player_name}");
        reveal_strlit("${version_name}");
        reveal_strlit("${game_directory}");
        reveal_strlit("${assets_root}");
        reveal_strlit("${assets_index_name}");
        reveal_strlit("${auth_uuid}");
        reveal_strlit("${auth_access_token}");
        reveal_strlit("${user_type}");
        reveal_strlit("${version_type}");
        reveal_strlit("${user_properties}");
        reveal_strlit("${clientid}");
        reveal_strlit("${auth_xuid}");
    }
    let index_name: &str = match &meta.asset_index {
        Some(ai) => ai.id.as_str(),
        None => "legacy",
    };
    let token: &str = match &account.access_token {
        Some(t) => t.as_str(),
        None => "0",
    };
    let user_type: &str = if account.account_type == AccountType::Microsoft { "msa" } else { "legacy" };
    let xuid: &str = match &account.xuid {
        Some(x) => x.as_str(),
        None => "",
    };
    let s = replace_str(t, "${auth_player_name}", account.username.as_str());
    let s = replace_str(s.as_str(), "${version_name}", instance.minecraft_version.as_str());
    let s = replace_str(s.as_str(), "${game_directory}", game_dir);
    let s = replace_str(s.as_str(), "${assets_root}", assets_dir);
    let s = replace_str(s.as_str(), "${assets_index_name}", index_name);
    let s = replace_str(s.as_str(), "${auth_uuid}", account.uuid.as_str());
    let s = replace_str(s.as_str(), "${auth_access_token}", token);
    let s = replace_str(s.as_str(), "${user_type}", user_type);
    let s = replace_str(s.as_str(), "${version_type}", "GLauncher");
    let s = replace_str(s.as_str(), "${user_properties}", "{}");
    let s = replace_str(s.as_str(), "${clientid}", "GLauncher");
    replace_str(s.as_str(), "${auth_xuid}", xuid)
}

/// The game's command-line arguments for launching `instance` as `account`, with the
/// game running in `game_dir` and assets under `assets_dir`.
pub fn build_game_args(meta: &VersionMeta, instance: &Instance, account: &Account, game_dir: &str, assets_dir: &str) -> (r: Vec<String>)
    ensures
        r.deep_view() == game_args(*meta, *instance, *account, game_dir@, assets_dir@),
{
    let raw: Vec<String> = match &meta.arguments {
        Some(a) => match &a.game {
            Some(g) => collect_arg_texts(g, false),
            None => Vec::new(),
        },
        None => match &meta.minecraft_arguments {
            Some(m) => words_of(m.as_str()),
            None => Vec::new(),
        },
    };
    assert(raw.deep_view() =~= raw_game_args(*meta));
    let ghost vars = game_vars(*meta, *instance, *account, game_dir@, assets_dir@);
    let mut args: Vec<String> = Vec::new();
    let mut i: usize = 0;
    while i < raw.len()
        invariant
            i <= raw@.len(),
            vars == game_vars(*meta, *instance, *account, game_dir@, assets_dir@),
            args.deep_view() == raw.deep_view().take(i as int).map_values(|t: Seq<char>| game_subst(t, vars)),
        decreases raw.len() - i,
    {
        let a = fill_game_placeholders(raw[i].as_str(), meta, instance, account, game_dir, assets_dir);
        let ghost before = args.deep_view();
        args.push(a);
        assert(args.deep_view() =~= before.push(a@));
        assert(raw.deep_view().take(i + 1) =~= raw.deep_view().take(i as int).push(raw@[i as int]@));
        assert(args.deep_view() =~= raw.deep_view().take(i + 1).map_values(|t: Seq<char>| game_subst(t, vars)));
        i = i + 1;
    }
    assert(raw.deep_view().take(i as int) =~= raw.deep_view());
    if !instance.fullscreen && !instance.game_resolution_auto {
        match (instance.window_width, instance.window_height) {
            (Some(w), Some(h)) => {
                let ghost before = args.deep_view();
                let mut ws = String::new();
                push_decimal(&mut ws, w as u64);
                let mut hs = String::new();
                push_decimal(&mut hs, h as u64);
                args.push("--width".to_string());
                args.push(ws);
                args.push("--height".to_string());
                args.push(hs);
                assert(args.deep_view() =~= before + window_args(*instance));
            },
            _ => {},
        }
    }
    assert(args.deep_view() =~= game_args(*meta, *instance, *account, game_dir@, assets_dir@));
    args
}

/// A JVM argument with its placeholders filled in, in this order.
pub open spec fn jvm_subst(s: Seq<char>, natives: Seq<char>, classpath: Seq<char>) -> Seq<char> {
    let s = replace_all(s, "${natives_directory}"@, natives);
    let s = replace_all(s, "${launcher_name}"@, "GLauncher"@);
    let s = replace_all(s, "${launcher_version}"@, "1.0.0"@);
    replace_all(s, "${classpath}"@, classpath)
}

/// The JVM's arguments before the classpath check: the instance's flags, the natives path
/// and launcher brand, then the version's own JVM arguments (or, for versions without
/// `arguments`, the natives path again and the classpath).
pub open spec fn jvm_args_before_classpath(meta: VersionMeta, instance: Instance, natives: Seq<char>, classpath: Seq<char>) -> Seq<Seq<char>> {
    jvm_flags(instance.jvm_settings) + seq![
        "-Djava.library.path="@ + natives,
        "-Dminecraft.launcher.brand=GLauncher"@,
        "-Dminecraft.launcher.version=1.0.0"@,
    ] + match meta.arguments {
        Some(a) => match a.jvm {
            Some(j) => all_jvm_arg_texts(j@).map_values(|t: Seq<char>| jvm_subst(t, natives, classpath)),
            None => seq![],
        },
        None => seq!["-Djava.library.path="@ + natives, "-cp"@, classpath],
    }
}

/// The JVM's arguments: a `-cp` and the classpath are appended unless `-cp` or
/// `--class-path` is already among them.
pub open spec fn jvm_args(meta: VersionMeta, instance: Instance, natives: Seq<char>, classpath: Seq<char>) -> Seq<Seq<char>> {
    let args = jvm_args_before_classpath(meta, instance, natives, classpath);
    if args.contains("-cp"@) || args.contains("--class-path"@) {
        args
    } else {
        args + seq!["-cp"@, classpath]
    }
}

fn fill_jvm_placeholders(t: &str, natives: &str, classpath: &str) -> (r: String)
    ensures
        r@ == jvm_subst(t@, natives@, classpath@),
{
    proof {
        reveal_strlit("${natives_directory}");
        reveal_strlit("${launcher_name}");
        reveal_strlit("${launcher_version}");
        reveal_strlit("${classpath}");
    }
    let s = replace_str(t, "${natives_directory}", natives);
    let s = replace_str(s.as_str(), "${launcher_name}", "GLauncher");
    let s = replace_str(s.as_str(), "${launcher_version}", "1.0.0");
    replace_str(s.as_str(), "${classpath}", classpath)
}


fn has_classpath_flag(args: &Vec<String>) -> (r: bool)
    ensures
        r == (args.deep_view().contains("-cp"@) || args.deep_view().contains("--class-path"@)),
{
    let mut i: usize = 0;
    while i < args.len()
        invariant
            i <= args@.len(),
            forall|j: int| 0 <= j < i ==> args.deep_view()[j] != "-cp"@ && args.deep_view()[j] != "--class-path"@,
        decreases args.len() - i,
    {
        if str_eq(args[i].as_str(), "-cp") || str_eq(args[i].as_str(), "--class-path") {
            assert(args.deep_view()[i as int] == args@[i as int]@);
            return true;
        }
        i = i + 1;
    }
    false
}

/// The JVM's arguments for launching `instance` with natives in `natives_dir` and the
/// given classpath.
pub fn build_jvm_args(meta: &VersionMeta, instance: &Instance, natives_dir: &str, classpath: &str) -> (r: Vec<String>)
    ensures
        r.deep_view() == jvm_args(*meta, *instance, natives_dir@, classpath@),
{
    let mut args = instance.jvm_settings.build_flags();
    let ghost flags = args.deep_view();
    args.push(concat("-Djava.library.path=", natives_dir));
    args.push("-Dminecraft.launcher.brand=GLauncher".to_string());
    args.push("-Dminecraft.launcher.version=1.0.0".to_string());
    let ghost head = args.deep_view();
    assert(head =~= flags + seq![
        "-Djava.library.path="@ + natives_dir@,
        "-Dminecraft.launcher.brand=GLauncher"@,
        "-Dminecraft.launcher.version=1.0.0"@,
    ]);
    match &meta.arguments {
        Some(a) => match &a.jvm {
            Some(j) => {
                let texts = collect_arg_texts(j, true);
                let mut i: usize = 0;
                while i < texts.len()
                    invariant
                        i <= texts@.len(),
                        args.deep_view() == head + texts.deep_view().take(i as int).map_values(|t: Seq<char>| jvm_subst(t, natives_dir@, classpath@)),
                    decreases texts.len() - i,
                {
                    let a = fill_jvm_placeholders(texts[i].as_str(), natives_dir, classpath);
                    let ghost before = args.deep_view();
                    args.push(a);
                    assert(args.deep_view() =~= before.push(a@));
                    assert(texts.deep_view().take(i + 1) =~= texts.deep_view().take(i as int).push(texts@[i as int]@));
                    assert(args.deep_view() =~= head + texts.deep_view().take(i + 1).map_values(|t: Seq<char>| jvm_subst(t, natives_dir@, classpath@)));
                    i = i + 1;
                }
                assert(texts.deep_view().take(i as int) =~= texts.deep_view());
            },
            None => {
                assert(args.deep_view() =~= head + seq![]);
            },
        },
        None => {
            args.push(concat("-Djava.library.path=", natives_dir));
            args.push("-cp".to_string());
            args.push(classpath.to_string());
            assert(args.deep_view() =~= head + seq!["-Djava.library.path="@ + natives_dir@, "-cp"@, classpath@]);
        },
    }
    assert(args.deep_view() =~= jvm_args_before_classpath(*meta, *instance, natives_dir@, classpath@));
    if !has_classpath_flag(&args) {
        let ghost before = args.deep_view();
        args.push("-cp".to_string());
        args.push(classpath.to_string());
        assert(args.deep_view() =~= before + seq!["-cp"@, classpath@]);
    }
    args
}

/// The first value stored under key `k`.
pub open spec fn lookup<V>(pairs: Seq<(String, V)>, k: Seq<char>) -> Option<V> {
    match find_first(pairs, |p: (String, V)| p.0@ == k) {
        Some(i) => Some(pairs[i].1),
        None => None,
    }
}

fn lookup_exec<'a, V>(pairs: &'a Vec<(String, V)>, k: &str) -> (r: Option<&'a V>)
    ensures
        match r {
            Some(v) => lookup(pairs@, k@) == Some(*v),
            None => lookup(pairs@, k@) is None,
        },
{
    let mut i: usize = 0;
    while i < pairs.len()
        invariant
            i <= pairs@.len(),
            forall|j: int| 0 <= j < i ==> (|p: (String, V)| p.0@ == k@)(#[trigger] pairs@[j]) == false,
        decreases pairs.len() - i,
    {
        if str_eq(pairs[i].0.as_str(), k) {
            proof { lemma_first_index(pairs@, |p: (String, V)| p.0@ == k@, i as int); }
            return Some(&pairs[i].1);
        }
        i = i + 1;
    }
    proof { lemma_first_index(pairs@, |p: (String, V)| p.0@ == k@, i as int); }
    None
}

/// The classifier of a library's Linux natives: the `linux` entry, else `linux-x86_64`.
pub open spec fn native_classifier(lib: Library) -> Option<String> {
    match lib.natives {
        None => None,
        Some(n) => match lookup(n@, "linux"@) {
            Some(c) => Some(c),
            None => lookup(n@, "linux-x86_64"@),
        },
    }
}

/// A library's Linux native artifact, when it has downloads, a Linux classifier and a
/// classified artifact for it.
pub open spec fn native_artifact(lib: Library) -> Option<Artifact> {
    match lib.downloads {
        None => None,
        Some(d) => match native_classifier(lib) {
            None => None,
            Some(c) => match d.classifiers {
                None => None,
                Some(cl) => lookup(cl@, c@),
            },
        },
    }
}

fn native_artifact_exec(lib: &Library) -> (r: Option<&Artifact>)
    ensures
        match r {
            Some(a) => native_artifact(*lib) == Some(*a),
            None => native_artifact(*lib) is None,
        },
{
    match &lib.downloads {
        None => None,
        Some(d) => {
            let classifier: Option<&String> = match &lib.natives {
                None => None,
                Some(n) => match lookup_exec(n, "linux") {
                    Some(c) => Some(c),
                    None => lookup_exec(n, "linux-x86_64"),
                },
            };
            match classifier {
                None => None,
                Some(c) => match &d.classifiers {
                    None => None,
                    Some(cl) => lookup_exec(cl, c.as_str()),
                },
            }
        },
    }
}

/// A file to fetch: where from and where to.
pub struct DownloadJob {
    pub url: String,
    pub dest: String,
}

/// What a download job means: its address and destination.
pub open spec fn job_view(j: DownloadJob) -> (Seq<char>, Seq<char>) {
    (j.url@, j.dest@)
}

/// The download for an artifact that has a path, under `libs_dir`.
pub open spec fn artifact_jobs(a: Option<Artifact>, libs_dir: Seq<char>) -> Seq<(Seq<char>, Seq<char>)> {
    match a {
        Some(art) => match art.path {
            Some(p) => seq![(art.url@, join_path(libs_dir, p@))],
            None => seq![],
        },
        None => seq![],
    }
}

/// The downloads a library needs on Linux: its artifact, then its native artifact.
pub open spec fn library_jobs(lib: Library, libs_dir: Seq<char>) -> Seq<(Seq<char>, Seq<char>)> {
    if !library_included(lib) {
        seq![]
    } else {
        match lib.downloads {
            None => seq![],
            Some(d) => artifact_jobs(d.artifact, libs_dir) + artifact_jobs(native_artifact(lib), libs_dir),
        }
    }
}

/// The downloads all libraries need, in library order.
pub open spec fn all_library_jobs(libs: Seq<Library>, libs_dir: Seq<char>) -> Seq<(Seq<char>, Seq<char>)>
    decreases libs.len(),
{
    if libs.len() == 0 {
        seq![]
    } else {
        all_library_jobs(libs.drop_last(), libs_dir) + library_jobs(libs.last(), libs_dir)
    }
}

fn push_artifact_job(jobs: &mut Vec<DownloadJob>, a: Option<&Artifact>, libs_dir: &str)
    ensures
        final(jobs)@.map_values(|j: DownloadJob| job_view(j))
            == old(jobs)@.map_values(|j: DownloadJob| job_view(j)) + artifact_jobs(deref_opt(a), libs_dir@),
{
    match a {
        Some(art) => match &art.path {
            Some(p) => {
                let job = DownloadJob { url: art.url.clone(), dest: join(libs_dir, p.as_str()) };
                jobs.push(job);
                assert(jobs@.map_values(|j: DownloadJob| job_view(j)) =~= old(jobs)@.map_values(|j: DownloadJob| job_view(j)) + artifact_jobs(deref_opt(a), libs_dir@));
            },
            None => {
                assert(jobs@.map_values(|j: DownloadJob| job_view(j)) =~= old(jobs)@.map_values(|j: DownloadJob| job_view(j)) + artifact_jobs(deref_opt(a), libs_dir@));
            },
        },
        None => {
            assert(jobs@.map_values(|j: DownloadJob| job_view(j)) =~= old(jobs)@.map_values(|j: DownloadJob| job_view(j)) + artifact_jobs(deref_opt(a), libs_dir@));
        },
    }
}

/// The library files to download for a version, with `libs_dir` as the library root.
pub fn library_downloads(meta: &VersionMeta, libs_dir: &str) -> (r: Vec<DownloadJob>)
    ensures
        r@.map_values(|j: DownloadJob| job_view(j)) == all_library_jobs(meta.libraries@, libs_dir@),
{
    let mut jobs: Vec<DownloadJob> = Vec::new();
    let mut i: usize = 0;
    while i < meta.libraries.len()
        invariant
            i <= meta.libraries@.len(),
            jobs@.map_values(|j: DownloadJob| job_view(j)) == all_library_jobs(meta.libraries@.take(i as int), libs_dir@),
        decreases meta.libraries.len() - i,
    {
        let lib = &meta.libraries[i];
        let ghost before = jobs@.map_values(|j: DownloadJob| job_view(j));
        assert(meta.libraries@.take(i + 1).drop_last() =~= meta.libraries@.take(i as int));
        if should_include_library(lib) {
            match &lib.downloads {
                Some(d) => {
                    push_artifact_job(&mut jobs, d.artifact.as_ref(), libs_dir);
                    push_artifact_job(&mut jobs, native_artifact_exec(lib), libs_dir);
                },
                None => {},
            }
        }
        assert(jobs@.map_values(|j: DownloadJob| job_view(j)) =~= before + library_jobs(*lib, libs_dir@));
        i = i + 1;
    }
    assert(meta.libraries@.take(i as int) =~= meta.libraries@);
    jobs
}

/// A native jar to unpack and the entry prefixes to leave out.
pub struct NativeJar {
    pub path: String,
    pub exclude: Vec<String>,
}

/// The entry prefixes a library's extract settings leave out (none without settings).
pub open spec fn exclude_list(lib: Library) -> Seq<Seq<char>> {
    match lib.extract {
        Some(e) => match e.exclude {
            Some(x) => x.deep_view(),
            None => seq![],
        },
        None => seq![],
    }
}

/// The native jar of one library: for a library used on Linux, with downloads and a
/// native artifact that has a path.
pub open spec fn library_native_jar(lib: Library, libs_dir: Seq<char>) -> Seq<(Seq<char>, Seq<Seq<char>>)> {
    if library_included(lib) && lib.downloads is Some {
        match native_artifact(lib) {
            Some(a) => match a.path {
                Some(p) => seq![(join_path(libs_dir, p@), exclude_list(lib))],
                None => seq![],
            },
            None => seq![],
        }
    } else {
        seq![]
    }
}

/// The native jars of all libraries, in library order.
pub open spec fn all_native_jars(libs: Seq<Library>, libs_dir: Seq<char>) -> Seq<(Seq<char>, Seq<Seq<char>>)>
    decreases libs.len(),
{
    if libs.len() == 0 {
        seq![]
    } else {
        all_native_jars(libs.drop_last(), libs_dir) + library_native_jar(libs.last(), libs_dir)
    }
}

/// What a native jar entry means: its path and excluded prefixes.
pub open spec fn native_jar_view(j: NativeJar) -> (Seq<char>, Seq<Seq<char>>) {
    (j.path@, j.exclude.deep_view())
}

fn copy_strings(v: &Vec<String>) -> (r: Vec<String>)
    ensures
        r.deep_view() == v.deep_view(),
{
    let mut out: Vec<String> = Vec::new();
    let mut i: usize = 0;
    while i < v.len()
        invariant
            i <= v@.len(),
            out.deep_view() == v.deep_view().take(i as int),
        decreases v.len() - i,
    {
        let ghost before = out.deep_view();
        let c = v[i].clone();
        out.push(c);
        assert(out.deep_view() =~= before.push(c@));
        assert(v.deep_view().take(i + 1) =~= v.deep_view().take(i as int).push(v@[i as int]@));
        assert(out.deep_view() =~= v.deep_view().take(i + 1));
        i = i + 1;
    }
    assert(v.deep_view().take(i as int) =~= v.deep_view());
    out
}

/// The native jars to unpack for a version, with `libs_dir` as the library root.
pub fn native_jars(meta: &VersionMeta, libs_dir: &str) -> (r: Vec<NativeJar>)
    ensures
        r@.map_values(|j: NativeJar| native_jar_view(j)) == all_native_jars(meta.libraries@, libs_dir@),
{
    let mut out: Vec<NativeJar> = Vec::new();
    let mut i: usize = 0;
    while i < meta.libraries.len()
        invariant
            i <= meta.libraries@.len(),
            out@.map_values(|j: NativeJar| native_jar_view(j)) == all_native_jars(meta.libraries@.take(i as int), libs_dir@),
        decreases meta.libraries.len() - i,
    {
        let lib = &meta.libraries[i];
        let ghost before = out@.map_values(|j: NativeJar| native_jar_view(j));
        assert(meta.libraries@.take(i + 1).drop_last() =~= meta.libraries@.take(i as int));
        if should_include_library(lib) && lib.downloads.is_some() {
            match native_artifact_exec(lib) {
                Some(a) => match &a.path {
                    Some(p) => {
                        let exclude = match &lib.extract {
                            Some(e) => match &e.exclude {
                                Some(x) => copy_strings(x),
                                None => Vec::new(),
                            },
                            None => Vec::new(),
                        };
                        assert(exclude.deep_view() =~= exclude_list(*lib));
                        out.push(NativeJar { path: join(libs_dir, p.as_str()), exclude });
                    },
                    None => {},
                },
                None => {},
            }
        }
        assert(out@.map_values(|j: NativeJar| native_jar_view(j)) =~= before + library_native_jar(*lib, libs_dir@));
        i = i + 1;
    }
    assert(meta.libraries@.take(i as int) =~= meta.libraries@);
    out
}

/// Whether a native jar entry is unpacked: not a directory, and not under an excluded prefix.
pub open spec fn entry_extracted(name: Seq<char>, exclude: Seq<Seq<char>>) -> bool {
    !(exists|i: int| 0 <= i < exclude.len() && starts_with(name, #[trigger] exclude[i]))
        && !ends_with(name, "/"@)
}

/// Whether the jar entry `name` is unpacked.
pub fn should_extract_entry(name: &str, exclude: &Vec<String>) -> (r: bool)
    ensures
        r == entry_extracted(name@, exclude.deep_view()),
{
    let mut i: usize = 0;
    while i < exclude.len()
        invariant
            i <= exclude@.len(),
            forall|j: int| 0 <= j < i ==> !starts_with(name@, #[trigger] exclude.deep_view()[j]),
        decreases exclude.len() - i,
    {
        if starts_with_exec(name, exclude[i].as_str()) {
            assert(exclude.deep_view()[i as int] == exclude@[i as int]@);
            return false;
        }
        i = i + 1;
    }
    !ends_with_exec(name, "/")
}

/// The classpath entry of one library: the path of its artifact, when it is used on
/// Linux and has one.
pub open spec fn library_classpath_entry(lib: Library, libs_dir: Seq<char>) -> Seq<Seq<char>> {
    if library_included(lib) {
        match lib.downloads {
            Some(d) => match d.artifact {
                Some(a) => match a.path {
                    Some(p) => seq![join_path(libs_dir, p@)],
                    None => seq![],
                },
                None => seq![],
            },
            None => seq![],
        }
    } else {
        seq![]
    }
}

/// The classpath entries of all libraries, in library order.
pub open spec fn all_classpath_entries(libs: Seq<Library>, libs_dir: Seq<char>) -> Seq<Seq<char>>
    decreases libs.len(),
{
    if libs.len() == 0 {
        seq![]
    } else {
        all_classpath_entries(libs.drop_last(), libs_dir) + library_classpath_entry(libs.last(), libs_dir)
    }
}

/// The library paths that may go on the classpath, before checking which exist.
pub fn classpath_entries(meta: &VersionMeta, libs_dir: &str) -> (r: Vec<String>)
    ensures
        r.deep_view() == all_classpath_entries(meta.libraries@, libs_dir@),
{
    let mut out: Vec<String> = Vec::new();
    let mut i: usize = 0;
    while i < meta.libraries.len()
        invariant
            i <= meta.libraries@.len(),
            out.deep_view() == all_classpath_entries(meta.libraries@.take(i as int), libs_dir@),
        decreases meta.libraries.len() - i,
    {
        let lib = &meta.libraries[i];
        let ghost before = out.deep_view();
        assert(meta.libraries@.take(i + 1).drop_last() =~= meta.libraries@.take(i as int));
        if should_include_library(lib) {
            match &lib.downloads {
                Some(d) => match &d.artifact {
                    Some(a) => match &a.path {
                        Some(p) => {
                            out.push(join(libs_dir, p.as_str()));
                        },
                        None => {},
                    },
                    None => {},
                },
                None => {},
            }
        }
        assert(out.deep_view() =~= before + library_classpath_entry(*lib, libs_dir@));
        i = i + 1;
    }
    assert(meta.libraries@.take(i as int) =~= meta.libraries@);
    out
}

/// The entries whose flag in `present` is set, in order.
pub open spec fn kept_entries(entries: Seq<Seq<char>>, present: Seq<bool>) -> Seq<Seq<char>>
    decreases entries.len(),
{
    if entries.len() == 0 || present.len() == 0 {
        seq![]
    } else {
        kept_entries(entries.drop_last(), present.drop_last())
            + if present.last() { seq![entries.last()] } else { seq![] }
    }
}

/// The classpath: the entries that are present, then the client jar, separated by `:`.
pub open spec fn classpath_of(entries: Seq<Seq<char>>, present: Seq<bool>, client_jar: Seq<char>) -> Seq<char> {
    join_seq(kept_entries(entries, present).push(client_jar), ":"@)
}

/// The classpath from candidate entries and which of them are present.
pub fn join_classpath(entries: &Vec<String>, present: &Vec<bool>, client_jar: &str) -> (r: String)
    requires
        entries@.len() == present@.len(),
    ensures
        r@ == classpath_of(entries.deep_view(), present@, client_jar@),
{
    let mut kept: Vec<String> = Vec::new();
    let mut i: usize = 0;
    while i < entries.len()
        invariant
            entries@.len() == present@.len(),
            i <= entries@.len(),
            kept.deep_view() == kept_entries(entries.deep_view().take(i as int), present@.take(i as int)),
        decreases entries.len() - i,
    {
        assert(entries.deep_view().take(i + 1).drop_last() =~= entries.deep_view().take(i as int));
        assert(present@.take(i + 1).drop_last() =~= present@.take(i as int));
        if present[i] {
            kept.push(entries[i].clone());
        }
        assert(kept.deep_view() =~= kept_entries(entries.deep_view().take(i + 1), present@.take(i + 1)));
        i = i + 1;
    }
    assert(entries.deep_view().take(i as int) =~= entries.deep_view());
    assert(present@.take(i as int) =~= present@);
    let ghost before = kept.deep_view();
    kept.push(client_jar.to_string());
    assert(kept.deep_view() =~= before.push(client_jar@));
    join_exec(&kept, ":")
}

/// The classpath for a version: its library jars under `libs_dir` that exist on disk,
/// then the client jar. Which jars exist is read from disk at the call.
pub fn build_classpath(meta: &VersionMeta, libs_dir: &str, client_jar: &str) -> (r: String)
    ensures
        exists|present: Seq<bool>| present.len() == all_classpath_entries(meta.libraries@, libs_dir@).len()
            && r@ == #[trigger] classpath_of(all_classpath_entries(meta.libraries@, libs_dir@), present, client_jar@),
{
    let entries = classpath_entries(meta, libs_dir);
    let mut present: Vec<bool> = Vec::new();
    let mut i: usize = 0;
    while i < entries.len()
        invariant
            i <= entries@.len(),
            present@.len() == i,
        decreases entries.len() - i,
    {
        present.push(path_exists(entries[i].as_str()));
        i = i + 1;
    }
    join_classpath(&entries, &present, client_jar)
}

/// The first manifest entry for version `id`.
pub open spec fn manifest_entry(m: VersionManifest, id: Seq<char>) -> Option<VersionEntry> {
    match find_first(m.versions@, |e: VersionEntry| e.id@ == id) {
        Some(i) => Some(m.versions@[i]),
        None => None,
    }
}

/// The manifest entry for version `id`, if listed.
pub fn find_version<'a>(manifest: &'a VersionManifest, id: &str) -> (r: Option<&'a VersionEntry>)
    ensures
        match r {
            Some(e) => manifest_entry(*manifest, id@) == Some(*e),
            None => manifest_entry(*manifest, id@) is None,
        },
{
    let mut i: usize = 0;
    while i < manifest.versions.len()
        invariant
            i <= manifest.versions@.len(),
            forall|j: int| 0 <= j < i ==> (|e: VersionEntry| e.id@ == id@)(#[trigger] manifest.versions@[j]) == false,
        decreases manifest.versions.len() - i,
    {
        if str_eq(manifest.versions[i].id.as_str(), id) {
            proof { lemma_first_index(manifest.versions@, |e: VersionEntry| e.id@ == id@, i as int); }
            return Some(&manifest.versions[i]);
        }
        i = i + 1;
    }
    proof { lemma_first_index(manifest.versions@, |e: VersionEntry| e.id@ == id@, i as int); }
    None
}

/// Where a version's client jar goes: `<versions_dir>/<id>/<id>.jar`.
pub open spec fn client_jar_path(versions_dir: Seq<char>, id: Seq<char>) -> Seq<char> {
    join_path(join_path(versions_dir, id), id + ".jar"@)
}

/// Where a version's client jar goes.
pub fn client_jar(versions_dir: &str, version_id: &str) -> (r: String)
    ensures
        r@ == client_jar_path(versions_dir@, version_id@),
{
    let d = join(versions_dir, version_id);
    join(d.as_str(), concat(version_id, ".jar").as_str())
}

/// The address of a version's client jar, when its metadata has one.
pub fn client_download_url(meta: &VersionMeta) -> (r: Option<&String>)
    ensures
        match r {
            Some(u) => meta.downloads matches Some(d) && d.client matches Some(c) && c.url == *u,
            None => !(meta.downloads matches Some(d) && d.client is Some),
        },
{
    match &meta.downloads {
        Some(d) => match &d.client {
            Some(c) => Some(&c.url),
            None => None,
        },
        None => None,
    }
}

/// The number of UTF-8 bytes of `c`.
pub open spec fn utf8_len(c: char) -> nat {
    if (c as u32) < 0x80 {
        1
    } else if (c as u32) < 0x800 {
        2
    } else if (c as u32) < 0x10000 {
        3
    } else {
        4
    }
}

/// An asset hash whose first two bytes can be cut off as text: it is shorter than two
/// bytes, or begins with two one-byte characters or one two-byte character.
pub open spec fn asset_hash_ok(h: Seq<char>) -> bool {
    ||| h.len() == 0
    ||| (utf8_len(h[0]) == 1 && (h.len() == 1 || utf8_len(h[1]) == 1))
    ||| utf8_len(h[0]) == 2
}

/// The directory prefix of an asset: its hash's first two bytes; none when the hash is
/// shorter than two bytes.
pub open spec fn asset_prefix(h: Seq<char>) -> Option<Seq<char>> {
    if h.len() == 0 {
        None
    } else if utf8_len(h[0]) == 1 {
        if h.len() == 1 { None } else { Some(h.take(2)) }
    } else {
        Some(h.take(1))
    }
}

/// An asset object's hash text (empty when it has none).
pub open spec fn object_hash(obj: JsonValue) -> Seq<char> {
    match json_str(json_get(obj, "hash"@)) {
        Some(h) => h,
        None => ""@,
    }
}

/// The members of an asset index's `objects` object (none when it is missing).
pub open spec fn asset_objects(index: JsonValue) -> Seq<(String, JsonValue)> {
    match json_get(index, "objects"@) {
        Some(JsonValue::Object(members)) => members@,
        _ => seq![],
    }
}

/// The download of one asset object, under `objects_dir/<prefix>/<hash>`.
pub open spec fn asset_job(obj: JsonValue, objects_dir: Seq<char>) -> Seq<(Seq<char>, Seq<char>)> {
    let h = object_hash(obj);
    match asset_prefix(h) {
        None => seq![],
        Some(p) => seq![(
            "https://resources.download.minecraft.net/"@ + p + "/"@ + h,
            join_path(join_path(objects_dir, p), h),
        )],
    }
}

/// The downloads of asset objects, in member order.
pub open spec fn all_asset_jobs(members: Seq<(String, JsonValue)>, objects_dir: Seq<char>) -> Seq<(Seq<char>, Seq<char>)>
    decreases members.len(),
{
    if members.len() == 0 {
        seq![]
    } else {
        all_asset_jobs(members.drop_last(), objects_dir) + asset_job(members.last().1, objects_dir)
    }
}

fn utf8_len_exec(c: char) -> (r: u32)
    ensures
        r == utf8_len(c),
{
    let v = c as u32;
    if v < 0x80 {
        1
    } else if v < 0x800 {
        2
    } else if v < 0x10000 {
        3
    } else {
        4
    }
}

/// How many asset downloads run at once before the launcher waits for them.
pub const ASSET_DOWNLOAD_BATCH: usize = 16;

/// Whether every asset object's hash can be cut after its second byte as text, as
/// `asset_downloads` needs.
pub fn asset_hashes_cuttable(index: &JsonValue) -> (r: bool)
    ensures
        r == forall|i: int| 0 <= i < asset_objects(*index).len()
            ==> asset_hash_ok(object_hash(#[trigger] asset_objects(*index)[i].1)),
{
    match index.get("objects") {
        Some(JsonValue::Object(members)) => {
            let mut i: usize = 0;
            while i < members.len()
                invariant
                    members@ == asset_objects(*index),
                    i <= members@.len(),
                    forall|k: int| 0 <= k < i ==> asset_hash_ok(object_hash(#[trigger] members@[k].1)),
                decreases members.len() - i,
            {
                let obj = &members[i].1;
                let hash: String = match obj.get("hash") {
                    Some(h) => match h.as_str() {
                        Some(t) => t.clone(),
                        None => String::new(),
                    },
                    None => String::new(),
                };
                proof { reveal_strlit(""); }
                assert(hash@ == object_hash(members@[i as int].1));
                let hv = chars_of(hash.as_str());
                let ok = hv.len() == 0 || (utf8_len_exec(hv[0]) == 1 && (hv.len() == 1 || utf8_len_exec(hv[1]) == 1))
                    || utf8_len_exec(hv[0]) == 2;
                if !ok {
                    return false;
                }
                i = i + 1;
            }
            true
        },
        _ => true,
    }
}

/// The asset files an asset index lists, with `objects_dir` as the object root.
pub fn asset_downloads(index: &JsonValue, objects_dir: &str) -> (r: Vec<DownloadJob>)
    requires
        forall|i: int| 0 <= i < asset_objects(*index).len()
            ==> asset_hash_ok(object_hash(#[trigger] asset_objects(*index)[i].1)),
    ensures
        r@.map_values(|j: DownloadJob| job_view(j)) == all_asset_jobs(asset_objects(*index), objects_dir@),
{
    let mut jobs: Vec<DownloadJob> = Vec::new();
    match index.get("objects") {
        Some(JsonValue::Object(members)) => {
            assert(members@ == asset_objects(*index));
            assert forall|k: int| 0 <= k < members@.len() implies asset_hash_ok(object_hash(#[trigger] members@[k].1)) by {
                assert(asset_objects(*index)[k] == members@[k]);
            }
            let mut i: usize = 0;
            while i < members.len()
                invariant
                    members@ == asset_objects(*index),
                    forall|k: int| 0 <= k < members@.len() ==> asset_hash_ok(object_hash(#[trigger] members@[k].1)),
                    i <= members@.len(),
                    jobs@.map_values(|j: DownloadJob| job_view(j)) == all_asset_jobs(members@.take(i as int), objects_dir@),
                decreases members.len() - i,
            {
                let obj = &members[i].1;
                let ghost before = jobs@.map_values(|j: DownloadJob| job_view(j));
                assert(members@.take(i + 1).drop_last() =~= members@.take(i as int));
                assert(members@.take(i + 1).last() == members@[i as int]);
                let hash: String = match obj.get("hash") {
                    Some(h) => match h.as_str() {
                        Some(t) => t.clone(),
                        None => String::new(),
                    },
                    None => String::new(),
                };
                proof { reveal_strlit(""); }
                assert(hash@ == object_hash(*obj));
                let hv = chars_of(hash.as_str());
                let prefix_len: usize = if hv.len() == 0 {
                    0
                } else if utf8_len_exec(hv[0]) == 1 {
                    if hv.len() == 1 { 0 } else { 2 }
                } else {
                    1
                };
                if prefix_len > 0 {
                    let prefix = string_from_range(&hv, 0, prefix_len);
                    let mut url = String::new();
                    push_str(&mut url, "https://resources.download.minecraft.net/");
                    push_str(&mut url, prefix.as_str());
                    push_str(&mut url, "/");
                    push_str(&mut url, hash.as_str());
                    let dir = join(objects_dir, prefix.as_str());
                    let dest = join(dir.as_str(), hash.as_str());
                    assert(prefix@ =~= asset_prefix(hash@)->0);
                    jobs.push(DownloadJob { url, dest });
                }
                assert(jobs@.map_values(|j: DownloadJob| job_view(j)) =~= before + asset_job(*obj, objects_dir@));
                i = i + 1;
            }
            assert(members@.take(i as int) =~= members@);
        },
        _ => {
            assert(jobs@.map_values(|j: DownloadJob| job_view(j)) =~= all_asset_jobs(asset_objects(*index), objects_dir@));
        },
    }
    jobs
}

/// The steps of installing and launching a game, in order.
#[derive(Debug, Clone, Copy, PartialEq, Eq, Structural)]
pub enum LaunchStage {
    FetchingMetadata,
    DownloadingClient,
    DownloadingLibraries,
    DownloadingAssets,
    ExtractingNatives,
    Launching,
    Running,
}

/// The progress message of a launch step.
pub open spec fn stage_message(s: LaunchStage) -> Seq<char> {
    match s {
        LaunchStage::FetchingMetadata => "Fetching version metadata..."@,
        LaunchStage::DownloadingClient => "Downloading client jar..."@,
        LaunchStage::DownloadingLibraries => "Downloading libraries..."@,
        LaunchStage::DownloadingAssets => "Downloading assets..."@,
        LaunchStage::ExtractingNatives => "Extracting natives..."@,
        LaunchStage::Launching => "Launching game..."@,
        LaunchStage::Running => "Game running!"@,
    }
}

/// The launch step after `s`; none after the game runs.
pub open spec fn stage_after(s: LaunchStage) -> Option<LaunchStage> {
    match s {
        LaunchStage::FetchingMetadata => Some(LaunchStage::DownloadingClient),
        LaunchStage::DownloadingClient => Some(LaunchStage::DownloadingLibraries),
        LaunchStage::DownloadingLibraries => Some(LaunchStage::DownloadingAssets),
        LaunchStage::DownloadingAssets => Some(LaunchStage::ExtractingNatives),
        LaunchStage::ExtractingNatives => Some(LaunchStage::Launching),
        LaunchStage::Launching => Some(LaunchStage::Running),
        LaunchStage::Running => None,
    }
}

impl LaunchStage {
    /// The progress message of this step.
    pub fn message(&self) -> (r: &'static str)
        ensures
            r@ == stage_message(*self),
    {
        match self {
            LaunchStage::FetchingMetadata => "Fetching version metadata...",
            LaunchStage::DownloadingClient => "Downloading client jar...",
            LaunchStage::DownloadingLibraries => "Downloading libraries...",
            LaunchStage::DownloadingAssets => "Downloading assets...",
            LaunchStage::ExtractingNatives => "Extracting natives...",
            LaunchStage::Launching => "Launching game...",
            LaunchStage::Running => "Game running!",
        }
    }

    /// The step after this one.
    pub fn next(&self) -> (r: Option<LaunchStage>)
        ensures
            r == stage_after(*self),
    {
        match self {
            LaunchStage::FetchingMetadata => Some(LaunchStage::DownloadingClient),
            LaunchStage::DownloadingClient => Some(LaunchStage::DownloadingLibraries),
            LaunchStage::DownloadingLibraries => Some(LaunchStage::DownloadingAssets),
            LaunchStage::DownloadingAssets => Some(LaunchStage::ExtractingNatives),
            LaunchStage::ExtractingNatives => Some(LaunchStage::Launching),
            LaunchStage::Launching => Some(LaunchStage::Running),
            LaunchStage::Running => None,
        }
    }
}

/// The game's command line after the Java program: the JVM arguments, the main class,
/// then the game arguments.
pub fn launch_args(jvm_args: &Vec<String>, main_class: &str, game_args: &Vec<String>) -> (r: Vec<String>)
    ensures
        r.deep_view() == jvm_args.deep_view().push(main_class@) + game_args.deep_view(),
{
    let mut out = copy_strings(jvm_args);
    let ghost before = out.deep_view();
    out.push(main_class.to_string());
    assert(out.deep_view() =~= before.push(main_class@));
    let ghost head = out.deep_view();
    let mut i: usize = 0;
    while i < game_args.len()
        invariant
            i <= game_args@.len(),
            out.deep_view() == head + game_args.deep_view().take(i as int),
        decreases game_args.len() - i,
    {
        let ghost b = out.deep_view();
        let c = game_args[i].clone();
        out.push(c);
        assert(out.deep_view() =~= b.push(c@));
        assert(game_args.deep_view().take(i + 1) =~= game_args.deep_view().take(i as int).push(game_args@[i as int]@));
        i = i + 1;
    }
    assert(game_args.deep_view().take(i as int) =~= game_args.deep_view());
    out
}

/// An integer's decimal text, with `-` before a negative one.
pub open spec fn signed_decimal(n: int) -> Seq<char> {
    if n < 0 {
        "-"@ + decimal((-n) as nat)
    } else {
        decimal(n as nat)
    }
}

/// The status shown when the game exits with `code` after `elapsed` seconds.
pub open spec fn exit_message_of(code: i32, elapsed: u64) -> Seq<char> {
    if code == 0 {
        "Game exited normally after "@ + decimal(elapsed as nat) + "s"@
    } else {
        "Game exited with code "@ + signed_decimal(code as int) + " after "@ + decimal(elapsed as nat) + "s"@
    }
}

/// The status shown when the game exits with `code` after `elapsed` seconds.
pub fn exit_message(code: i32, elapsed: u64) -> (r: String)
    ensures
        r@ == exit_message_of(code, elapsed),
{
    if code == 0 {
        let mut r = "Game exited normally after ".to_string();
        push_decimal(&mut r, elapsed);
        push_str(&mut r, "s");
        r
    } else {
        let mut r = "Game exited with code ".to_string();
        if code < 0 {
            push_str(&mut r, "-");
            let m: i64 = -(code as i64);
            push_decimal(&mut r, m as u64);
        } else {
            push_decimal(&mut r, code as u64);
        }
        push_str(&mut r, " after ");
        push_decimal(&mut r, elapsed);
        push_str(&mut r, "s");
        r
    }
}

/// The status shown while the game runs as process `pid`.
pub fn running_message(pid: u32) -> (r: String)
    ensures
        r@ == "Game running (PID "@ + decimal(pid as nat) + ")"@,
{
    let mut r = "Game running (PID ".to_string();
    push_decimal(&mut r, pid as u64);
    push_str(&mut r, ")");
    r
}

/// A line of the game's error output as the launch log shows it.
pub fn stderr_log_line(line: &str) -> (r: String)
    ensures
        r@ == "[ERR] "@ + line@,
{
    concat("[ERR] ", line)
}

/// The refusal when the instance's version is not in the manifest.
pub fn version_not_found(version: &str) -> (r: String)
    ensures
        r@ == "Version "@ + version@ + " not found"@,
{
    let mut r = concat("Version ", version);
    push_str(&mut r, " not found");
    r
}

/// Installs and starts games over an HTTP client.
pub struct GameLauncher {
    client: reqwest::Client,
}

impl GameLauncher {
    /// The HTTP client downloads go through.
    pub closed spec fn http_client(self) -> reqwest::Client {
        self.client
    }

    /// A launcher over `client`.
    pub fn new(client: reqwest::Client) -> (r: Self)
        ensures
            r.http_client() == client,
    {
        GameLauncher { client }
    }

    /// The HTTP client downloads go through.
    pub fn http(&self) -> (r: &reqwest::Client)
        ensures
            *r == self.http_client(),
    {
        &self.client
    }
}

} // verus!
