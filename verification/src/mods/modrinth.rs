//! Modrinth: the search request's parameters, the version filters and the file a
//! download takes.

use vstd::prelude::*;
use crate::seqs::{find_first, lemma_first_index};
use crate::text::{concat, decimal, decimal_string, join, join_exec, lowercase_of, push_str, to_lowercase};
use crate::utils::paths::{join as join_path_exec, join_path};

verus! {

/// The Modrinth API's base address.
pub const MODRINTH_API: &'static str = "https://api.modrinth.com/v2";

/// One page of search hits.
#[derive(Debug, Clone)]
pub struct ModrinthSearchResult {
    pub hits: Vec<ModrinthProject>,
    pub total_hits: u64,
    pub limit: u32,
    pub offset: u32,
}

/// A project on Modrinth.
#[derive(Debug, Clone)]
pub struct ModrinthProject {
    pub project_id: String,
    pub slug: String,
    pub title: String,
    pub description: String,
    pub categories: Vec<String>,
    pub downloads: u64,
    pub followers: u64,
    pub icon_url: Option<String>,
    pub project_type: String,
    pub versions: Vec<String>,
    pub date_created: Option<String>,
    pub date_modified: Option<String>,
    pub license: Option<String>,
    pub client_side: Option<String>,
    pub server_side: Option<String>,
    pub display_categories: Option<Vec<String>>,
}

/// One released version of a project.
#[derive(Debug, Clone)]
pub struct ModrinthVersion {
    pub id: String,
    pub project_id: String,
    pub name: String,
    pub version_number: String,
    pub changelog: Option<String>,
    pub dependencies: Vec<ModrinthDependency>,
    pub game_versions: Vec<String>,
    /// `release`, `beta` or `alpha`.
    pub version_type: String,
    pub loaders: Vec<String>,
    pub featured: bool,
    pub files: Vec<ModrinthFile>,
    pub date_published: String,
    pub downloads: u64,
}

/// A dependency of a version.
#[derive(Debug, Clone)]
pub struct ModrinthDependency {
    pub version_id: Option<String>,
    pub project_id: Option<String>,
    pub file_name: Option<String>,
    pub dependency_type: String,
}

/// A file of a version; `hashes` maps an algorithm's name to the digest. The pairs are
/// the entries of a JSON object, one per algorithm, so the first pair with a name is the
/// map's value for it.
#[derive(Debug, Clone)]
pub struct ModrinthFile {
    pub hashes: Vec<(String, String)>,
    pub url: String,
    pub filename: String,
    pub primary: bool,
    pub size: u64,
}

/// How search hits are ordered.
#[derive(Debug, Clone, Copy, PartialEq, Eq, Structural)]
pub enum SortBy {
    Relevance,
    Downloads,
    Follows,
    Newest,
    Updated,
}

/// A search request.
#[derive(Debug, Clone)]
pub struct SearchQuery {
    pub query: String,
    pub limit: u32,
    pub offset: u32,
    pub mc_version: Option<String>,
    pub loader: Option<String>,
    /// `mod`, `modpack`, `resourcepack` or `shader`.
    pub project_type: Option<String>,
    pub categories: Vec<String>,
    pub sort_by: SortBy,
}

impl Default for SearchQuery {
    /// An empty query for mods: 20 hits from the first, by relevance.
    fn default() -> (r: Self)
        ensures
            r.query@ == ""@,
            r.limit == 20,
            r.offset == 0,
            r.mc_version is None,
            r.loader is None,
            r.project_type matches Some(t) && t@ == "mod"@,
            r.categories@.len() == 0,
            r.sort_by == SortBy::Relevance,
    {
        proof {
            reveal_strlit("");
        }
        SearchQuery {
            query: String::new(),
            limit: 20,
            offset: 0,
            mc_version: None,
            loader: None,
            project_type: Some("mod".to_string()),
            categories: Vec::new(),
            sort_by: SortBy::Relevance,
        }
    }
}

/// The name of a sort order in Modrinth's `index` parameter.
pub open spec fn sort_index(s: SortBy) -> Seq<char> {
    match s {
        SortBy::Relevance => "relevance"@,
        SortBy::Downloads => "downloads"@,
        SortBy::Follows => "follows"@,
        SortBy::Newest => "newest"@,
        SortBy::Updated => "updated"@,
    }
}

impl SortBy {
    /// The name of this order in Modrinth's `index` parameter.
    pub fn index_name(&self) -> (r: &'static str)
        ensures
            r@ == sort_index(*self),
    {
        match self {
            SortBy::Relevance => "relevance",
            SortBy::Downloads => "downloads",
            SortBy::Follows => "follows",
            SortBy::Newest => "newest",
            SortBy::Updated => "updated",
        }
    }
}

/// Request parameters as text.
pub open spec fn params_view(p: Seq<(String, String)>) -> Seq<(Seq<char>, Seq<char>)> {
    p.map_values(|kv: (String, String)| (kv.0@, kv.1@))
}

/// The facet for an optional value: none, or `prefix` and the value.
pub open spec fn opt_facet(prefix: Seq<char>, v: Option<String>) -> Seq<Seq<char>> {
    match v {
        Some(x) => seq![prefix + x@],
        None => seq![],
    }
}

/// The category facet of each category.
pub open spec fn category_facets(cats: Seq<String>) -> Seq<Seq<char>> {
    cats.map_values(|c: String| "categories:"@ + c@)
}

/// The search facets, in order: the project type, the game version, the loader in
/// lower case, then each category.
pub open spec fn search_facets(q: SearchQuery) -> Seq<Seq<char>> {
    opt_facet("project_type:"@, q.project_type) + opt_facet("versions:"@, q.mc_version)
        + (match q.loader {
            Some(l) => seq!["categories:"@ + lowercase_of(l@)],
            None => seq![],
        }) + category_facets(q.categories@)
}

/// A one-item JSON list of a string: `["` + `s` + `"]`.
pub open spec fn quoted_list(s: Seq<char>) -> Seq<char> {
    "[\""@ + s + "\"]"@
}

/// The `facets` parameter: a JSON list of one-item lists, empty when there are none.
pub open spec fn facets_text(fs: Seq<Seq<char>>) -> Seq<char> {
    if fs.len() == 0 {
        ""@
    } else {
        "["@ + join(fs.map_values(|f: Seq<char>| quoted_list(f)), ","@) + "]"@
    }
}

/// The parameters of a search: the query, limit, offset and sort order, then the facets
/// when there are any.
pub open spec fn search_params_of(q: SearchQuery) -> Seq<(Seq<char>, Seq<char>)> {
    let base = seq![
        ("query"@, q.query@),
        ("limit"@, decimal(q.limit as nat)),
        ("offset"@, decimal(q.offset as nat)),
        ("index"@, sort_index(q.sort_by)),
    ];
    if search_facets(q).len() == 0 {
        base
    } else {
        base.push(("facets"@, facets_text(search_facets(q))))
    }
}

/// `["s"]`.
pub fn quoted_list_of(s: &str) -> (r: String)
    ensures
        r@ == quoted_list(s@),
{
    let mut r = concat("[\"", s);
    push_str(&mut r, "\"]");
    r
}

fn push_facet(f: &mut Vec<String>, prefix: &str, v: &Option<String>)
    ensures
        final(f).deep_view() == old(f).deep_view() + opt_facet(prefix@, *v),
{
    match v {
        Some(x) => {
            f.push(concat(prefix, x.as_str()));
        },
        None => {},
    }
}

/// The search facets of `query`.
pub fn search_facet_list(query: &SearchQuery) -> (r: Vec<String>)
    ensures
        r.deep_view() == search_facets(*query),
{
    let mut f: Vec<String> = Vec::new();
    push_facet(&mut f, "project_type:", &query.project_type);
    push_facet(&mut f, "versions:", &query.mc_version);
    match &query.loader {
        Some(l) => {
            let lower = to_lowercase(l.as_str());
            f.push(concat("categories:", lower.as_str()));
        },
        None => {},
    }
    let ghost head = f.deep_view();
    let cats = &query.categories;
    let mut i: usize = 0;
    while i < cats.len()
        invariant
            i <= cats@.len(),
            f.deep_view() == head + category_facets(cats@.take(i as int)),
        decreases cats.len() - i,
    {
        let ghost before = f.deep_view();
        let item = concat("categories:", cats[i].as_str());
        f.push(item);
        assert(f.deep_view() =~= before.push(item@));
        assert(category_facets(cats@.take(i + 1)) =~= category_facets(cats@.take(i as int)).push(
            "categories:"@ + cats@[i as int]@));
        i = i + 1;
    }
    assert(cats@.take(i as int) =~= cats@);
    f
}

/// The `facets` parameter for a list of facets.
pub fn facets_param(facets: &Vec<String>) -> (r: String)
    ensures
        r@ == facets_text(facets.deep_view()),
{
    if facets.len() == 0 {
        proof { reveal_strlit(""); }
        return String::new();
    }
    let mut items: Vec<String> = Vec::new();
    let mut i: usize = 0;
    while i < facets.len()
        invariant
            i <= facets@.len(),
            items.deep_view() == facets.deep_view().take(i as int).map_values(|f: Seq<char>| quoted_list(f)),
        decreases facets.len() - i,
    {
        items.push(quoted_list_of(facets[i].as_str()));
        assert(facets.deep_view().take(i + 1).map_values(|f: Seq<char>| quoted_list(f)) =~= facets.deep_view().take(
            i as int,
        ).map_values(|f: Seq<char>| quoted_list(f)).push(quoted_list(facets.deep_view()[i as int])));
        i = i + 1;
    }
    assert(facets.deep_view().take(i as int) =~= facets.deep_view());
    let mut r = String::new();
    push_str(&mut r, "[");
    push_str(&mut r, join_exec(&items, ",").as_str());
    push_str(&mut r, "]");
    r
}

pub(crate) fn param(key: &str, value: String) -> (r: (String, String))
    ensures
        r.0@ == key@,
        r.1@ == value@,
{
    (key.to_string(), value)
}

/// The address of Modrinth's search.
pub fn search_url() -> (r: String)
    ensures
        r@ == "https://api.modrinth.com/v2/search"@,
{
    proof {
        reveal_strlit("https://api.modrinth.com/v2/search");
        reveal_strlit("https://api.modrinth.com/v2");
        reveal_strlit("/search");
    }
    concat(MODRINTH_API, "/search")
}

/// The address of a project's version list.
pub fn project_versions_url(project_id: &str) -> (r: String)
    ensures
        r@ == "https://api.modrinth.com/v2/project/"@ + project_id@ + "/version"@,
{
    let mut r = concat("https://api.modrinth.com/v2/project/", project_id);
    push_str(&mut r, "/version");
    r
}

/// The address of a project, by id or slug.
pub fn project_url(id_or_slug: &str) -> (r: String)
    ensures
        r@ == "https://api.modrinth.com/v2/project/"@ + id_or_slug@,
{
    concat("https://api.modrinth.com/v2/project/", id_or_slug)
}

/// The filters of a version list: the game version and the loader in lower case, each
/// as a one-item JSON list, when given.
pub open spec fn version_params_of(mc_version: Option<Seq<char>>, loader: Option<Seq<char>>) -> Seq<(Seq<char>, Seq<char>)> {
    (match mc_version {
        Some(mc) => seq![("game_versions"@, quoted_list(mc))],
        None => seq![],
    }) + (match loader {
        Some(l) => seq![("loaders"@, quoted_list(lowercase_of(l)))],
        None => seq![],
    })
}

/// The view of an optional string slice.
pub open spec fn opt_str_view(o: Option<&str>) -> Option<Seq<char>> {
    match o {
        Some(s) => Some(s@),
        None => None,
    }
}

/// The filter parameters of a project's version list.
pub fn version_params(mc_version: Option<&str>, loader: Option<&str>) -> (r: Vec<(String, String)>)
    ensures
        params_view(r@) == version_params_of(opt_str_view(mc_version), opt_str_view(loader)),
{
    let mut r: Vec<(String, String)> = Vec::new();
    match mc_version {
        Some(mc) => {
            r.push(param("game_versions", quoted_list_of(mc)));
        },
        None => {},
    }
    let ghost mid = r@;
    match loader {
        Some(l) => {
            let lower = to_lowercase(l);
            r.push(param("loaders", quoted_list_of(lower.as_str())));
        },
        None => {},
    }
    assert(params_view(r@) =~= version_params_of(opt_str_view(mc_version), opt_str_view(loader)));
    r
}

/// `f` is the primary file.
pub open spec fn is_primary() -> spec_fn(ModrinthFile) -> bool {
    |f: ModrinthFile| f.primary
}

/// The file a download takes: the first primary file, else the first file.
pub open spec fn download_choice(files: Seq<ModrinthFile>) -> Option<int> {
    match find_first(files, is_primary()) {
        Some(i) => Some(i),
        None => if files.len() > 0 { Some(0) } else { None },
    }
}

/// The index of the file a download takes, if the version has files.
pub fn download_file_index(files: &Vec<ModrinthFile>) -> (r: Option<usize>)
    ensures
        match r {
            Some(i) => download_choice(files@) == Some(i as int),
            None => download_choice(files@) is None,
        },
{
    let mut i: usize = 0;
    while i < files.len()
        invariant
            i <= files@.len(),
            forall|j: int| 0 <= j < i ==> !is_primary()(#[trigger] files@[j]),
        decreases files.len() - i,
    {
        if files[i].primary {
            proof { lemma_first_index(files@, is_primary(), i as int); }
            return Some(i);
        }
        i = i + 1;
    }
    proof { lemma_first_index(files@, is_primary(), i as int); }
    if files.len() > 0 { Some(0) } else { None }
}

impl ModrinthVersion {
    /// Where to fetch this version's download from and where to save it in `dest_dir`:
    /// the chosen file's address and `dest_dir` joined with its name. A version without
    /// files is refused with `No files found for version <id>`.
    pub fn download_target(&self, dest_dir: &str) -> (r: Result<(String, String), String>)
        ensures
            match download_choice(self.files@) {
                Some(i) => r matches Ok(t) && t.0@ == self.files@[i].url@
                    && t.1@ == join_path(dest_dir@, self.files@[i].filename@),
                None => r matches Err(e) && e@ == "No files found for version "@ + self.id@,
            },
    {
        match download_file_index(&self.files) {
            Some(i) => {
                let f = &self.files[i];
                Ok((f.url.clone(), join_path_exec(dest_dir, f.filename.as_str())))
            },
            None => Err(concat("No files found for version ", self.id.as_str())),
        }
    }
}

/// The parameters of a search request.
pub fn search_params(query: &SearchQuery) -> (r: Vec<(String, String)>)
    ensures
        params_view(r@) == search_params_of(*query),
{
    let mut r: Vec<(String, String)> = Vec::new();
    r.push(param("query", query.query.clone()));
    r.push(param("limit", decimal_string(query.limit as u64)));
    r.push(param("offset", decimal_string(query.offset as u64)));
    r.push(param("index", query.sort_by.index_name().to_string()));
    let facets = search_facet_list(query);
    if facets.len() > 0 {
        r.push(param("facets", facets_param(&facets)));
    }
    assert(params_view(r@) =~= search_params_of(*query));
    r
}

impl SearchQuery {
    /// The mods page's search: `query`, for the selected instance's game version and
    /// loader when there is one, otherwise as the default query.
    pub fn for_instance(query: String, mc_version: Option<String>, loader: Option<String>) -> (r: SearchQuery)
        ensures
            r.query == query,
            r.mc_version == mc_version,
            r.loader == loader,
            r.limit == 20,
            r.offset == 0,
            r.project_type matches Some(t) && t@ == "mod"@,
            r.categories@.len() == 0,
            r.sort_by == SortBy::Relevance,
    {
        let d = SearchQuery::default();
        SearchQuery { query, mc_version, loader, ..d }
    }
}

/// The category a search hit is shown under: its first category, else `mod`.
pub open spec fn shown_category(p: ModrinthProject) -> Seq<char> {
    if p.categories@.len() > 0 {
        p.categories@[0]@
    } else {
        "mod"@
    }
}

impl ModrinthProject {
    /// The category this hit is shown under.
    pub fn shown_category(&self) -> (r: &str)
        ensures
            r@ == shown_category(*self),
    {
        if self.categories.len() > 0 {
            self.categories[0].as_str()
        } else {
            "mod"
        }
    }

    /// The project's page on the Modrinth site, addressed by the project id.
    pub fn page_url(&self) -> (r: String)
        ensures
            r@ == "https://modrinth.com/mod/"@ + self.project_id@,
    {
        concat("https://modrinth.com/mod/", self.project_id.as_str())
    }
}

/// A client of Modrinth's API over an HTTP client.
pub struct ModrinthClient {
    client: reqwest::Client,
}

impl ModrinthClient {
    /// The HTTP client requests go through.
    pub closed spec fn http_client(self) -> reqwest::Client {
        self.client
    }

    /// A Modrinth client over `client`.
    pub fn new(client: reqwest::Client) -> (r: Self)
        ensures
            r.http_client() == client,
    {
        ModrinthClient { client }
    }

    /// The HTTP client requests go through.
    pub fn http(&self) -> (r: &reqwest::Client)
        ensures
            *r == self.http_client(),
    {
        &self.client
    }
}

} // verus!
