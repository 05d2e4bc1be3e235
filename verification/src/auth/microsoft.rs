//! Microsoft sign-in: the PKCE login address, the values read from Xbox replies, and
//! the account built from a completed sign-in.

use vstd::prelude::*;
use vstd::string::StringSliceAdditionalSpecFns;
use vstd::utf8::{
    decode_utf8, encode_utf8, encode_utf8_decode_utf8, encode_utf8_valid_utf8, is_char_boundary,
    is_char_boundary_iff_not_is_continuation_byte,
};
use crate::auth::accounts::{Account, AccountType};
use crate::utils::clock::now_timestamp;
use crate::utils::ids;
use crate::json::{JsonValue, json_get, json_str};
use crate::seqs::{find_first, lemma_first_index};
use crate::text::{
    concat,
    contains_exec, has_char, lemma_split_on_two, push_str, split_char, split_on, starts_with, starts_with_exec,
    trim_start_all, trim_start_matches,
};

verus! {

/// The public Xbox Live / Minecraft OAuth client id.
pub const CLIENT_ID: &'static str = "00000000402b5328";

/// Where the Microsoft login redirects to.
pub const REDIRECT_URI: &'static str = "https://login.live.com/oauth20_desktop.srf";

/// The OAuth scopes asked for.
pub const SCOPE: &'static str = "XboxLive.signin offline_access";

/// Microsoft's token reply.
#[derive(Debug)]
pub struct MsTokenResponse {
    pub access_token: String,
    pub refresh_token: Option<String>,
    pub expires_in: Option<i64>,
    pub token_type: Option<String>,
}

/// Xbox Live's sign-in reply.
#[derive(Debug)]
pub struct XboxLiveResponse {
    pub token: String,
    pub display_claims: JsonValue,
}

/// The XSTS authorisation reply.
#[derive(Debug)]
pub struct XstsResponse {
    pub token: String,
    pub display_claims: JsonValue,
}

/// Minecraft's sign-in reply.
#[derive(Debug)]
pub struct MinecraftAuthResponse {
    pub access_token: String,
    pub expires_in: Option<i64>,
    pub username: Option<String>,
    pub token_type: Option<String>,
}

/// The Minecraft profile of a signed-in player.
#[derive(Debug)]
pub struct MinecraftProfile {
    pub id: String,
    pub name: String,
    pub skins: Option<Vec<JsonValue>>,
}

/// An ASCII letter or digit.
pub open spec fn is_alphanumeric_ascii(c: char) -> bool {
    ('A' <= c && c <= 'Z') || ('a' <= c && c <= 'z') || ('0' <= c && c <= '9')
}

/// `n` random ASCII letters and digits: rand's thread generator sampling `Alphanumeric`
/// `n` times. Which characters come out is random and is not stated.
#[verifier::external_body]
fn random_alphanumeric(n: usize) -> (r: String)
    ensures
        r@.len() == n,
        forall|i: int| 0 <= i < n ==> is_alphanumeric_ascii(#[trigger] r@[i]),
{
    rand::Rng::sample_iter(rand::thread_rng(), &rand::distributions::Alphanumeric).take(n).map(char::from).collect()
}

/// The SHA-256 digest of some bytes.
pub uninterp spec fn sha256_of(data: Seq<u8>) -> Seq<u8>;

/// The SHA-256 digest of `data`: sha2's `Sha256` fed `data` once and finalized. The
/// digest is named, with its length of 32 bytes.
#[verifier::external_body]
fn sha256_digest(data: &[u8]) -> (r: Vec<u8>)
    ensures
        r@ == sha256_of(data@),
        r@.len() == 32,
{
    let mut hasher = <sha2::Sha256 as sha2::Digest>::new();
    sha2::Digest::update(&mut hasher, data);
    sha2::Digest::finalize(hasher).to_vec()
}

/// The URL-safe base64 alphabet.
pub open spec fn b64_char(v: int) -> char {
    if v < 26 {
        (65 + v) as char
    } else if v < 52 {
        (97 + v - 26) as char
    } else if v < 62 {
        (48 + v - 52) as char
    } else if v == 62 {
        '-'
    } else {
        '_'
    }
}

/// URL-safe base64 without padding: each 3 bytes become 4 characters, and a final 1 or 2
/// bytes become 2 or 3.
pub open spec fn base64_url_no_pad(b: Seq<u8>) -> Seq<char>
    decreases b.len(),
{
    if b.len() == 0 {
        seq![]
    } else if b.len() == 1 {
        seq![b64_char((b[0] / 4) as int), b64_char((b[0] % 4) * 16)]
    } else if b.len() == 2 {
        seq![b64_char((b[0] / 4) as int), b64_char((b[0] % 4) * 16 + b[1] / 16), b64_char((b[1] % 16) * 4)]
    } else {
        seq![
            b64_char((b[0] / 4) as int),
            b64_char((b[0] % 4) * 16 + b[1] / 16),
            b64_char((b[1] % 16) * 4 + b[2] / 64),
            b64_char((b[2] % 64) as int),
        ] + base64_url_no_pad(b.skip(3))
    }
}

/// base64's `URL_SAFE_NO_PAD` engine encoding `data`.
#[verifier::external_body]
fn base64_url_encode(data: &[u8]) -> (r: String)
    requires
        data@.len() <= usize::MAX / 4,
    ensures
        r@ == base64_url_no_pad(data@),
{
    base64::Engine::encode(&base64::engine::general_purpose::URL_SAFE_NO_PAD, data)
}

/// The upper-case hexadecimal digit for `d < 16`.
pub open spec fn upper_hex_char(d: int) -> char {
    if d < 10 { (48 + d) as char } else { (65 + d - 10) as char }
}

/// A byte that URL encoding leaves as it is: ASCII letters and digits and `-._~`.
pub open spec fn url_safe_byte(b: u8) -> bool {
    (48 <= b <= 57) || (65 <= b <= 90) || (97 <= b <= 122) || b == 45 || b == 46 || b == 95 || b == 126
}

/// Percent-encoding of bytes: safe bytes stay, every other byte becomes `%XX`.
pub open spec fn percent_encode(b: Seq<u8>) -> Seq<char>
    decreases b.len(),
{
    if b.len() == 0 {
        seq![]
    } else {
        percent_encode(b.drop_last()) + if url_safe_byte(b.last()) {
            seq![(b.last() as int) as char]
        } else {
            seq!['%', upper_hex_char((b.last() / 16) as int), upper_hex_char((b.last() % 16) as int)]
        }
    }
}

/// urlencoding's `encode`: percent-encodes the UTF-8 bytes of `s`.
#[verifier::external_body]
fn url_encode(s: &str) -> (r: String)
    ensures
        r@ == percent_encode(s.spec_bytes()),
{
    urlencoding::encode(s).into_owned()
}

/// The Microsoft login address for a PKCE challenge and a state value.
pub open spec fn auth_url_of(challenge: Seq<char>, state: Seq<char>) -> Seq<char> {
    "https://login.live.com/oauth20_authorize.srf?client_id="@ + "00000000402b5328"@
        + "&response_type=code&redirect_uri="@ + percent_encode(encode_utf8("https://login.live.com/oauth20_desktop.srf"@))
        + "&scope="@ + percent_encode(encode_utf8("XboxLive.signin offline_access"@))
        + "&code_challenge="@ + challenge + "&code_challenge_method=S256&state="@ + state
}

/// The Microsoft login address for a PKCE challenge and a state value.
pub fn auth_url_for(challenge: &str, state: &str) -> (r: String)
    ensures
        r@ == auth_url_of(challenge@, state@),
{
    let mut u = String::new();
    push_str(&mut u, "https://login.live.com/oauth20_authorize.srf?client_id=");
    push_str(&mut u, CLIENT_ID);
    push_str(&mut u, "&response_type=code&redirect_uri=");
    push_str(&mut u, url_encode(REDIRECT_URI).as_str());
    push_str(&mut u, "&scope=");
    push_str(&mut u, url_encode(SCOPE).as_str());
    push_str(&mut u, "&code_challenge=");
    push_str(&mut u, challenge);
    push_str(&mut u, "&code_challenge_method=S256&state=");
    push_str(&mut u, state);
    u
}

/// A PKCE verifier and its S256 challenge.
pub open spec fn is_pkce_pair(verifier: Seq<char>, challenge: Seq<char>) -> bool {
    &&& verifier.len() == 128
    &&& forall|i: int| 0 <= i < 128 ==> is_alphanumeric_ascii(#[trigger] verifier[i])
    &&& challenge == base64_url_no_pad(sha256_of(encode_utf8(verifier)))
}

/// A fresh PKCE verifier (128 random letters and digits) and its challenge: the
/// URL-safe base64 of the verifier's SHA-256 digest.
fn generate_pkce() -> (r: (String, String))
    ensures
        is_pkce_pair(r.0@, r.1@),
{
    let verifier = random_alphanumeric(128);
    let digest = sha256_digest(verifier.as_str().as_bytes());
    let challenge = base64_url_encode(digest.as_slice());
    (verifier, challenge)
}

/// `url` is the login address for `verifier`'s challenge and a state of 16 ASCII letters
/// and digits.
pub open spec fn login_start(url: Seq<char>, verifier: Seq<char>, challenge: Seq<char>, state: Seq<char>) -> bool {
    &&& is_pkce_pair(verifier, challenge)
    &&& state.len() == 16
    &&& forall|i: int| 0 <= i < 16 ==> is_alphanumeric_ascii(#[trigger] state[i])
    &&& url == auth_url_of(challenge, state)
}

/// The Microsoft login address to open, and the PKCE verifier to send with the code:
/// a fresh verifier, a fresh state of 16 random letters and digits, and the address built
/// from them.
pub fn get_auth_url() -> (r: (String, String))
    ensures
        exists|challenge: Seq<char>, state: Seq<char>| #[trigger] login_start(r.0@, r.1@, challenge, state),
{
    let (verifier, challenge) = generate_pkce();
    let state = random_alphanumeric(16);
    let url = auth_url_for(challenge.as_str(), state.as_str());
    let r = (url, verifier);
    assert(login_start(r.0@, r.1@, challenge@, state@));
    r
}

/// A value from the first entry of the `xui` claims.
pub open spec fn xui_claim(claims: JsonValue, key: Seq<char>) -> Option<Seq<char>> {
    match json_get(claims, "xui"@) {
        Some(JsonValue::Array(items)) => if items@.len() > 0 {
            json_str(json_get(items@[0], key))
        } else {
            None
        },
        _ => None,
    }
}

fn xui_claim_exec(claims: &JsonValue, key: &str) -> (r: Option<String>)
    ensures
        match r {
            Some(s) => xui_claim(*claims, key@) == Some(s@),
            None => xui_claim(*claims, key@) is None,
        },
{
    let xui = match claims.get("xui") {
        Some(x) => x,
        None => return None,
    };
    let items = match xui.as_array() {
        Some(items) => items,
        None => return None,
    };
    if items.len() == 0 {
        return None;
    }
    match items[0].get(key) {
        Some(v) => match v.as_str() {
            Some(s) => Some(s.clone()),
            None => None,
        },
        None => None,
    }
}

/// The user hash (`uhs`) in an Xbox Live reply, if present.
pub fn extract_uhs(xbl: &XboxLiveResponse) -> (r: Option<String>)
    ensures
        match r {
            Some(s) => xui_claim(xbl.display_claims, "uhs"@) == Some(s@),
            None => xui_claim(xbl.display_claims, "uhs"@) is None,
        },
{
    xui_claim_exec(&xbl.display_claims, "uhs")
}

/// The Xbox user id (`xid`) in an XSTS reply; empty when absent.
pub fn extract_xuid_from_xsts(xsts: &XstsResponse) -> (r: String)
    ensures
        r@ == match xui_claim(xsts.display_claims, "xid"@) {
            Some(s) => s,
            None => ""@,
        },
{
    proof { reveal_strlit(""); }
    match xui_claim_exec(&xsts.display_claims, "xid") {
        Some(s) => s,
        None => String::new(),
    }
}

/// A profile id in dashed UUID form: a 32-byte id is cut at bytes 8, 12, 16 and 20 with
/// dashes between the parts; any other id is kept.
pub open spec fn dashed_profile_id(id: Seq<char>) -> Seq<char> {
    let b = encode_utf8(id);
    if b.len() == 32 {
        decode_utf8(b.subrange(0, 8)) + "-"@ + decode_utf8(b.subrange(8, 12)) + "-"@
            + decode_utf8(b.subrange(12, 16)) + "-"@ + decode_utf8(b.subrange(16, 20)) + "-"@
            + decode_utf8(b.subrange(20, 32))
    } else {
        id
    }
}

/// The cuts of a 32-byte id fall between characters.
pub open spec fn profile_id_cuttable(id: Seq<char>) -> bool {
    let b = encode_utf8(id);
    b.len() == 32 ==> {
        &&& is_char_boundary(b, 8)
        &&& is_char_boundary(b, 12)
        &&& is_char_boundary(b, 16)
        &&& is_char_boundary(b, 20)
    }
}

proof fn lemma_prefix_boundary(whole: Seq<u8>, head: Seq<u8>, k: int)
    requires
        encode_utf8(decode_utf8(whole)) == whole,
        head.len() <= whole.len(),
        head == whole.subrange(0, head.len() as int),
        vstd::utf8::valid_utf8(whole),
        vstd::utf8::valid_utf8(head),
        0 <= k < head.len(),
        is_char_boundary(whole, k),
    ensures
        is_char_boundary(head, k),
{
    is_char_boundary_iff_not_is_continuation_byte(whole, k);
    is_char_boundary_iff_not_is_continuation_byte(head, k);
    assert(head[k] == whole[k]);
}

/// A profile id in dashed UUID form: a 32-byte id gets dashes after bytes 8, 12, 16 and 20.
pub fn format_uuid(id: &str) -> (r: String)
    requires
        profile_id_cuttable(id@),
    ensures
        r@ == dashed_profile_id(id@),
{
    proof {
        encode_utf8_valid_utf8(id@);
        encode_utf8_decode_utf8(id@);
    }
    if id.as_bytes().len() != 32 {
        return id.to_string();
    }
    let ghost w = id.spec_bytes();
    let (h20, e) = id.split_at(20);
    proof {
        encode_utf8_valid_utf8(h20@);
        lemma_prefix_boundary(w, h20.spec_bytes(), 16);
    }
    let (h16, d) = h20.split_at(16);
    proof {
        encode_utf8_valid_utf8(h16@);
        assert(h16.spec_bytes() =~= w.subrange(0, 16));
        lemma_prefix_boundary(w, h16.spec_bytes(), 12);
    }
    let (h12, c) = h16.split_at(12);
    proof {
        encode_utf8_valid_utf8(h12@);
        assert(h12.spec_bytes() =~= w.subrange(0, 12));
        lemma_prefix_boundary(w, h12.spec_bytes(), 8);
    }
    let (a, b) = h12.split_at(8);
    proof {
        assert(a.spec_bytes() =~= w.subrange(0, 8));
        assert(b.spec_bytes() =~= w.subrange(8, 12));
        assert(c.spec_bytes() =~= w.subrange(12, 16));
        assert(d.spec_bytes() =~= w.subrange(16, 20));
        assert(e.spec_bytes() =~= w.subrange(20, 32));
        encode_utf8_decode_utf8(a@);
        encode_utf8_decode_utf8(b@);
        encode_utf8_decode_utf8(c@);
        encode_utf8_decode_utf8(d@);
        encode_utf8_decode_utf8(e@);
    }
    let mut r = String::new();
    push_str(&mut r, a);
    push_str(&mut r, "-");
    push_str(&mut r, b);
    push_str(&mut r, "-");
    push_str(&mut r, c);
    push_str(&mut r, "-");
    push_str(&mut r, d);
    push_str(&mut r, "-");
    push_str(&mut r, e);
    r
}

/// The account a completed sign-in gives: the Minecraft profile's name and dashed id,
/// the Minecraft access token, Microsoft's refresh token, an expiry `now` plus the
/// Microsoft token's lifetime (an hour when not given), and the Xbox user id.
pub open spec fn signed_in_account(a: Account, id: String, profile: MinecraftProfile, mc_access_token: String,
    ms_tokens: MsTokenResponse, now: i64, xuid: String) -> bool {
    &&& a.id == id
    &&& a.username == profile.name
    &&& a.uuid@ == dashed_profile_id(profile.id@)
    &&& a.account_type == AccountType::Microsoft
    &&& a.access_token == Some(mc_access_token)
    &&& a.refresh_token == ms_tokens.refresh_token
    &&& a.token_expiry == Some((now + match ms_tokens.expires_in { Some(e) => e as int, None => 3600 }) as i64)
    &&& a.xuid == Some(xuid)
    &&& a.profile_icon is None
}

/// The account a completed sign-in gives, with account id `id`, signed in at `now`.
pub fn authenticated_account(id: String, profile: MinecraftProfile, mc_access_token: String,
    ms_tokens: &MsTokenResponse, now: i64, xuid: String) -> (r: Account)
    requires
        profile_id_cuttable(profile.id@),
        i64::MIN <= now + match ms_tokens.expires_in { Some(e) => e as int, None => 3600 } <= i64::MAX,
    ensures
        signed_in_account(r, id, profile, mc_access_token, *ms_tokens, now, xuid),
{
    let lifetime: i64 = match ms_tokens.expires_in {
        Some(e) => e,
        None => 3600,
    };
    let uuid = format_uuid(profile.id.as_str());
    let refresh_token = match &ms_tokens.refresh_token {
        Some(t) => Some(t.clone()),
        None => None,
    };
    Account {
        id,
        username: profile.name,
        uuid,
        account_type: AccountType::Microsoft,
        access_token: Some(mc_access_token),
        refresh_token,
        token_expiry: Some(now + lifetime),
        xuid: Some(xuid),
        profile_icon: None,
    }
}

/// The lifetime in seconds a sign-in's tokens get: the one Microsoft gave, else an hour.
pub open spec fn token_lifetime(ms_tokens: MsTokenResponse) -> int {
    match ms_tokens.expires_in {
        Some(e) => e as int,
        None => 3600,
    }
}

/// A sign-in at `now` whose expiry would not fit in an `i64`.
pub open spec fn expiry_overflows(now: i64, ms_tokens: MsTokenResponse) -> bool {
    now + token_lifetime(ms_tokens) > i64::MAX || now + token_lifetime(ms_tokens) < i64::MIN
}

/// The account a completed sign-in at `now` gives, with account id `id`. There is none
/// when the profile id would be cut inside a character or the expiry would not fit in an
/// `i64`.
pub fn sign_in_at(profile: MinecraftProfile, mc_access_token: String, ms_tokens: &MsTokenResponse,
    xuid: String, id: String, now: i64) -> (r: Option<Account>)
    ensures
        r is None <==> (!profile_id_cuttable(profile.id@) || expiry_overflows(now, *ms_tokens)),
        r matches Some(a) ==> signed_in_account(a, id, profile, mc_access_token, *ms_tokens, now, xuid),
{
    let id_str = profile.id.as_str();
    let cuttable = id_str.as_bytes().len() != 32 || (id_str.is_char_boundary(8) && id_str.is_char_boundary(12)
        && id_str.is_char_boundary(16) && id_str.is_char_boundary(20));
    proof {
        assert(id_str@ == profile.id@);
        assert(id_str.spec_bytes() == encode_utf8(profile.id@));
        assert(cuttable == profile_id_cuttable(profile.id@));
    }
    if !cuttable {
        return None;
    }
    let lifetime: i64 = match ms_tokens.expires_in {
        Some(e) => e,
        None => 3600,
    };
    let fits = if lifetime >= 0 { now <= i64::MAX - lifetime } else { now >= i64::MIN - lifetime };
    if !fits {
        return None;
    }
    Some(authenticated_account(id, profile, mc_access_token, ms_tokens, now, xuid))
}

/// The account a completed sign-in gives, with a fresh random account id, signed in now
/// by the clock. There is none when the profile id would be cut inside a character or
/// the expiry would not fit in an `i64` at the time read; a profile id that can be cut
/// and a token lifetime of zero always give one.
pub fn sign_in_account(profile: MinecraftProfile, mc_access_token: String, ms_tokens: &MsTokenResponse, xuid: String) -> (r: Option<Account>)
    ensures
        r matches Some(a) ==> ids::is_hyphenated_uuid(a.id@)
            && exists|now: i64| #[trigger] signed_in_account(a, a.id, profile, mc_access_token, *ms_tokens, now, xuid),
        !profile_id_cuttable(profile.id@) ==> r is None,
        profile_id_cuttable(profile.id@) && token_lifetime(*ms_tokens) == 0 ==> r is Some,
        r is None ==> !profile_id_cuttable(profile.id@)
            || exists|now: i64| #[trigger] expiry_overflows(now, *ms_tokens),
{
    let now = now_timestamp();
    let id = ids::new_uuid_string();
    let ghost p = profile;
    let ghost t = mc_access_token;
    let ghost x = xuid;
    let ghost i = id;
    let r = sign_in_at(profile, mc_access_token, ms_tokens, xuid, id, now);
    proof {
        if r is None && profile_id_cuttable(p.id@) {
            assert(expiry_overflows(now, *ms_tokens));
        }
        if r is Some {
            assert(signed_in_account(r->0, i, p, t, *ms_tokens, now, x));
        }
    }
    r
}

/// The refresh token a token refresh for `account` sends; refused with `No refresh token
/// available` when the account has none.
pub fn refresh_request(account: &Account) -> (r: Result<String, String>)
    ensures
        match account.refresh_token {
            Some(t) => r == Ok::<String, String>(t),
            None => r matches Err(e) && e@ == "No refresh token available"@,
        },
{
    match &account.refresh_token {
        Some(t) => Ok(t.clone()),
        None => Err("No refresh token available".to_string()),
    }
}

impl Account {
    /// Takes the access token, refresh token and expiry of a refreshed sign-in.
    pub fn take_refreshed_tokens(&mut self, refreshed: Account)
        ensures
            *final(self) == (Account {
                access_token: refreshed.access_token,
                refresh_token: refreshed.refresh_token,
                token_expiry: refreshed.token_expiry,
                ..*old(self)
            }),
    {
        self.access_token = refreshed.access_token;
        self.refresh_token = refreshed.refresh_token;
        self.token_expiry = refreshed.token_expiry;
    }
}


/// The Xbox Live sign-in ticket for a Microsoft access token: `d=` and the token.
pub fn rps_ticket(ms_access_token: &str) -> (r: String)
    ensures
        r@ == "d="@ + ms_access_token@,
{
    concat("d=", ms_access_token)
}

/// The identity token Minecraft's Xbox sign-in takes: `XBL3.0 x=<uhs>;<xsts token>`.
pub fn xbox_identity_token(uhs: &str, xsts_token: &str) -> (r: String)
    ensures
        r@ == "XBL3.0 x="@ + uhs@ + ";"@ + xsts_token@,
{
    let mut s = concat("XBL3.0 x=", uhs);
    push_str(&mut s, ";");
    push_str(&mut s, xsts_token);
    s
}

/// The message for a refused XSTS authorisation: error 2148916238 means the account has
/// no Xbox profile; otherwise the status and the reply are given.
pub open spec fn xsts_error_text(status: Seq<char>, body: Seq<char>) -> Seq<char> {
    if crate::text::contains(body, "2148916238"@) {
        "This Microsoft account has no Xbox Live profile. Please create one first at xbox.com"@
    } else {
        "XSTS auth failed ("@ + status + "): "@ + body
    }
}

/// The message for a refused XSTS authorisation.
pub fn xsts_error_message(status: &str, body: &str) -> (r: String)
    ensures
        r@ == xsts_error_text(status@, body@),
{
    if contains_exec(body, "2148916238") {
        "This Microsoft account has no Xbox Live profile. Please create one first at xbox.com".to_string()
    } else {
        let mut s = concat("XSTS auth failed (", status);
        push_str(&mut s, "): ");
        push_str(&mut s, body);
        s
    }
}

/// The test "starts with `code=`".
pub open spec fn is_code_param() -> spec_fn(Seq<char>) -> bool {
    |p: Seq<char>| starts_with(p, "code="@)
}

/// The sign-in code in what the user pasted after signing in: a pasted address's first
/// `code=` query parameter (with every leading `code=` removed), if not empty; text
/// without `?` counts as the bare code when it is longer than 10 bytes and has no space.
pub open spec fn redirect_code(url: Seq<char>) -> Option<Seq<char>> {
    if !url.contains('?') {
        if encode_utf8(url).len() > 10 && !url.contains(' ') {
            Some(url)
        } else {
            None
        }
    } else {
        let params = split_on(split_on(url, '?')[1], '&');
        match find_first(params, is_code_param()) {
            Some(i) => {
                let code = trim_start_all(params[i], "code="@);
                if code.len() > 0 {
                    Some(code)
                } else {
                    None
                }
            },
            None => None,
        }
    }
}

/// The sign-in code in what the user pasted after signing in.
pub fn extract_code_from_redirect(url: &str) -> (r: Option<String>)
    ensures
        match r {
            Some(c) => redirect_code(url@) == Some(c@),
            None => redirect_code(url@) is None,
        },
{
    if !has_char(url, '?') {
        if url.as_bytes().len() > 10 && !has_char(url, ' ') {
            return Some(url.to_string());
        }
        return None;
    }
    proof { lemma_split_on_two(url@, '?'); }
    let parts = split_char(url, '?');
    assert(parts.deep_view()[1] == parts@[1]@);
    let params = split_char(parts[1].as_str(), '&');
    let mut i: usize = 0;
    while i < params.len()
        invariant
            i <= params@.len(),
            url@.contains('?'),
            split_on(url@, '?').len() >= 2,
            params.deep_view() == split_on(split_on(url@, '?')[1], '&'),
            forall|j: int| 0 <= j < i ==> !is_code_param()(#[trigger] params.deep_view()[j]),
        decreases params.len() - i,
    {
        assert(params.deep_view()[i as int] == params@[i as int]@);
        if starts_with_exec(params[i].as_str(), "code=") {
            proof { lemma_first_index(params.deep_view(), is_code_param(), i as int); }
            let code = trim_start_matches(params[i].as_str(), "code=");
            if code.as_str().unicode_len() > 0 {
                return Some(code);
            }
            return None;
        }
        i = i + 1;
    }
    proof { lemma_first_index(params.deep_view(), is_code_param(), i as int); }
    None
}

} // verus!
