//! CurseForge: the request parameters, the API-key header and the fallback download
//! address.

use vstd::prelude::*;
use crate::mods::modrinth::{opt_str_view, param, params_view};
use crate::text::{chars_of, decimal, decimal_string, push_char, push_str};

verus! {

/// The CurseForge API's base address.
pub const CURSEFORGE_API: &'static str = "https://api.curseforge.com/v1";

/// CurseForge's game id of Minecraft.
pub const CURSEFORGE_GAME_ID: u32 = 432;

/// CurseForge's class id of mods.
pub const CURSEFORGE_MODS_CLASS_ID: u32 = 6;

/// A project on CurseForge.
#[derive(Debug, Clone)]
pub struct CurseForgeProject {
    pub id: u64,
    pub name: String,
    pub slug: String,
    pub summary: String,
    pub download_count: u64,
    pub logo: Option<CurseForgeLogo>,
    pub categories: Vec<CurseForgeCategory>,
    pub links: Option<CurseForgeLinks>,
    pub date_created: Option<String>,
    pub date_modified: Option<String>,
    pub latest_files_indexes: Vec<CurseForgeFileIndex>,
}

/// A project's logo.
#[derive(Debug, Clone)]
pub struct CurseForgeLogo {
    pub url: String,
    pub thumbnail_url: Option<String>,
}

/// A project category.
#[derive(Debug, Clone)]
pub struct CurseForgeCategory {
    pub id: u64,
    pub name: String,
    pub slug: String,
}

/// A project's links.
#[derive(Debug, Clone)]
pub struct CurseForgeLinks {
    pub website_url: Option<String>,
}

/// The latest file of a project for one game version.
#[derive(Debug, Clone)]
pub struct CurseForgeFileIndex {
    pub game_version: String,
    pub file_id: u64,
    pub filename: String,
    pub release_type: u32,
    pub mod_loader: Option<u32>,
}

/// A file of a project.
#[derive(Debug, Clone)]
pub struct CurseForgeFile {
    pub id: u64,
    pub display_name: String,
    pub file_name: String,
    pub download_url: Option<String>,
    pub file_length: u64,
    pub hashes: Vec<CurseForgeHash>,
    pub game_versions: Vec<String>,
    pub dependencies: Vec<CurseForgeDependency>,
    pub release_type: u32,
}

/// A digest of a file.
#[derive(Debug, Clone)]
pub struct CurseForgeHash {
    pub value: String,
    pub algo: u32,
}

/// A dependency of a file.
#[derive(Debug, Clone)]
pub struct CurseForgeDependency {
    pub mod_id: u64,
    pub relation_type: u32,
}

/// A client of CurseForge's API over an HTTP client, with the user's API key if any.
pub struct CurseForgeClient {
    client: reqwest::Client,
    api_key: Option<String>,
}

/// The headers of every request: the API key as `x-api-key`, when there is one.
pub open spec fn key_headers(api_key: Option<String>) -> Seq<(Seq<char>, Seq<char>)> {
    match api_key {
        Some(k) => seq![("x-api-key"@, k@)],
        None => seq![],
    }
}

/// The message of a search without an API key.
pub open spec fn missing_key_message() -> Seq<char> {
    "CurseForge API key is required. Please add your API key in Settings."@
}

/// The parameters of a search: game and class, the query, the first hit of page `page`
/// (20 hits a page), 20 hits, by downloads, descending; then the game version and the
/// loader type when given.
pub open spec fn search_params_of(query: Seq<char>, mc_version: Option<Seq<char>>, loader_id: Option<u32>, page: u32) -> Seq<(Seq<char>, Seq<char>)> {
    seq![
        ("gameId"@, "432"@),
        ("classId"@, "6"@),
        ("searchFilter"@, query),
        ("index"@, decimal((page * 20) as nat)),
        ("pageSize"@, "20"@),
        ("sortField"@, "2"@),
        ("sortOrder"@, "desc"@),
    ] + (match mc_version {
        Some(mc) => seq![("gameVersion"@, mc)],
        None => seq![],
    }) + (match loader_id {
        Some(l) => seq![("modLoaderType"@, decimal(l as nat))],
        None => seq![],
    })
}

/// The parameters of a project's file list: 20 files, for the game version when given.
pub open spec fn mod_files_params_of(mc_version: Option<Seq<char>>) -> Seq<(Seq<char>, Seq<char>)> {
    seq![("pageSize"@, "20"@)] + (match mc_version {
        Some(mc) => seq![("gameVersion"@, mc)],
        None => seq![],
    })
}

/// Where a file downloads from: its own address, or else the CDN address built from
/// its id's decimal digits cut after the fourth (`files/<first four>/<rest>/<name>`).
pub open spec fn download_url_of(file: CurseForgeFile) -> Seq<char> {
    match file.download_url {
        Some(u) => u@,
        None => {
            let d = decimal(file.id as nat);
            let k = if d.len() < 4 { d.len() as int } else { 4 };
            "https://edge.forgecdn.net/files/"@ + d.take(k) + "/"@ + d.skip(k) + "/"@ + file.file_name@
        },
    }
}

fn push_opt_param(r: &mut Vec<(String, String)>, key: &str, value: Option<&str>)
    ensures
        params_view(final(r)@) == params_view(old(r)@) + match value {
            Some(v) => seq![(key@, v@)],
            None => seq![],
        },
{
    let ghost before = r@;
    match value {
        Some(v) => {
            r.push(param(key, v.to_string()));
        },
        None => {},
    }
    assert(params_view(r@) =~= params_view(before) + match value {
        Some(v) => seq![(key@, v@)],
        None => seq![],
    });
}

impl CurseForgeClient {
    /// The HTTP client requests go through.
    pub closed spec fn http_client(self) -> reqwest::Client {
        self.client
    }

    /// The user's API key.
    pub closed spec fn key(self) -> Option<String> {
        self.api_key
    }

    /// A CurseForge client over `client` with the API key `api_key`.
    pub fn new(client: reqwest::Client, api_key: Option<String>) -> (r: Self)
        ensures
            r.http_client() == client,
            r.key() == api_key,
    {
        CurseForgeClient { client, api_key }
    }

    /// The HTTP client requests go through.
    pub fn http(&self) -> (r: &reqwest::Client)
        ensures
            *r == self.http_client(),
    {
        &self.client
    }

    /// The headers every request carries.
    pub fn headers(&self) -> (r: Vec<(String, String)>)
        ensures
            params_view(r@) == key_headers(self.key()),
    {
        let mut r: Vec<(String, String)> = Vec::new();
        match &self.api_key {
            Some(k) => {
                r.push(param("x-api-key", k.clone()));
            },
            None => {},
        }
        assert(params_view(r@) =~= key_headers(self.key()));
        r
    }

    /// Whether an API key is set.
    pub fn has_key(&self) -> (r: bool)
        ensures
            r == self.key() is Some,
    {
        self.api_key.is_some()
    }

    /// The parameters of a search for `query` on page `page`; refused without an API key,
    /// on any page.
    pub fn search_params(&self, query: &str, mc_version: Option<&str>, loader_id: Option<u32>, page: u32) -> (r: Result<Vec<(String, String)>, String>)
        requires
            self.key() is Some ==> page * 20 <= u32::MAX,
        ensures
            self.key() is None ==> (r matches Err(e) && e@ == missing_key_message()),
            self.key() is Some ==> (r matches Ok(p)
                && params_view(p@) == search_params_of(query@, opt_str_view(mc_version), loader_id, page)),
    {
        if self.api_key.is_none() {
            return Err("CurseForge API key is required. Please add your API key in Settings.".to_string());
        }
        let mut r: Vec<(String, String)> = Vec::new();
        r.push(param("gameId", decimal_string(CURSEFORGE_GAME_ID as u64)));
        r.push(param("classId", decimal_string(CURSEFORGE_MODS_CLASS_ID as u64)));
        r.push(param("searchFilter", query.to_string()));
        r.push(param("index", decimal_string((page * 20) as u64)));
        r.push(param("pageSize", "20".to_string()));
        r.push(param("sortField", "2".to_string()));
        r.push(param("sortOrder", "desc".to_string()));
        proof {
            reveal_with_fuel(decimal, 3);
            assert(decimal(432) =~= "432"@) by {
                reveal_strlit("432");
            }
            assert(decimal(6) =~= "6"@) by {
                reveal_strlit("6");
            }
        }
        let ghost base = params_view(r@);
        assert(base[0] == ("gameId"@, "432"@));
        assert(base[1] == ("classId"@, "6"@));
        assert(base[2] == ("searchFilter"@, query@));
        assert(base[3] == ("index"@, decimal((page * 20) as nat)));
        assert(base[4] == ("pageSize"@, "20"@));
        assert(base[6] == ("sortOrder"@, "desc"@));
        assert(base =~= seq![
            ("gameId"@, "432"@),
            ("classId"@, "6"@),
            ("searchFilter"@, query@),
            ("index"@, decimal((page * 20) as nat)),
            ("pageSize"@, "20"@),
            ("sortField"@, "2"@),
            ("sortOrder"@, "desc"@),
        ]);
        push_opt_param(&mut r, "gameVersion", mc_version);
        let ghost mid = r@;
        match loader_id {
            Some(l) => {
                r.push(param("modLoaderType", decimal_string(l as u64)));
            },
            None => {},
        }
        assert(params_view(r@) =~= params_view(mid) + match loader_id {
            Some(l) => seq![("modLoaderType"@, decimal(l as nat))],
            None => seq![],
        });
        assert(params_view(r@) =~= search_params_of(query@, opt_str_view(mc_version), loader_id, page));
        Ok(r)
    }

    /// The parameters of a project's file list.
    pub fn mod_files_params(mc_version: Option<&str>) -> (r: Vec<(String, String)>)
        ensures
            params_view(r@) == mod_files_params_of(opt_str_view(mc_version)),
    {
        let mut r: Vec<(String, String)> = Vec::new();
        r.push(param("pageSize", "20".to_string()));
        push_opt_param(&mut r, "gameVersion", mc_version);
        assert(params_view(r@) =~= mod_files_params_of(opt_str_view(mc_version)));
        r
    }

    /// The address of CurseForge's mod search.
    pub fn search_url() -> (r: String)
        ensures
            r@ == "https://api.curseforge.com/v1/mods/search"@,
    {
        "https://api.curseforge.com/v1/mods/search".to_string()
    }

    /// The address of a project's file list.
    pub fn mod_files_url(mod_id: u64) -> (r: String)
        ensures
            r@ == "https://api.curseforge.com/v1/mods/"@ + decimal(mod_id as nat) + "/files"@,
    {
        let mut r = "https://api.curseforge.com/v1/mods/".to_string();
        push_str(&mut r, decimal_string(mod_id).as_str());
        push_str(&mut r, "/files");
        r
    }

    /// Where `file` downloads from; CurseForge sometimes withholds the address, and then
    /// it is built from the file's id and name.
    pub fn get_download_url(file: &CurseForgeFile, _mod_id: u64) -> (r: String)
        ensures
            r@ == download_url_of(*file),
    {
        match &file.download_url {
            Some(url) => {
                return url.clone();
            },
            None => {},
        }
        let digits = chars_of(decimal_string(file.id).as_str());
        let k: usize = if digits.len() < 4 { digits.len() } else { 4 };
        let mut r = "https://edge.forgecdn.net/files/".to_string();
        let mut i: usize = 0;
        while i < k
            invariant
                k <= digits@.len(),
                i <= k,
                r@ == "https://edge.forgecdn.net/files/"@ + digits@.take(i as int),
            decreases k - i,
        {
            push_char(&mut r, digits[i]);
            assert(digits@.take(i + 1) =~= digits@.take(i as int).push(digits@[i as int]));
            i = i + 1;
        }
        push_str(&mut r, "/");
        let ghost head = r@;
        while i < digits.len()
            invariant
                k <= i <= digits@.len(),
                r@ == head + digits@.subrange(k as int, i as int),
            decreases digits.len() - i,
        {
            push_char(&mut r, digits[i]);
            assert(digits@.subrange(k as int, i + 1) =~= digits@.subrange(k as int, i as int).push(digits@[i as int]));
            i = i + 1;
        }
        push_str(&mut r, "/");
        push_str(&mut r, file.file_name.as_str());
        assert(digits@.subrange(k as int, digits@.len() as int) =~= digits@.skip(k as int));
        r
    }
}

} // verus!
