use base64::Engine;
use sha2::Digest;
use glauncher::auth::accounts::{Account, AccountType};
use glauncher::auth::microsoft::{
    auth_url_for, authenticated_account, extract_code_from_redirect, extract_uhs, extract_xuid_from_xsts, format_uuid,
    get_auth_url, refresh_request, rps_ticket, sign_in_account, sign_in_at, xbox_identity_token, xsts_error_message, MinecraftProfile, MsTokenResponse,
    XboxLiveResponse, XstsResponse,
};
use glauncher::json::JsonValue;

fn s(x: &str) -> JsonValue {
    JsonValue::Str(x.to_string())
}

fn obj(members: Vec<(&str, JsonValue)>) -> JsonValue {
    JsonValue::Object(members.into_iter().map(|(k, v)| (k.to_string(), v)).collect())
}

fn claims(key: &str, value: &str) -> JsonValue {
    obj(vec![("xui", JsonValue::Array(vec![obj(vec![(key, s(value))])]))])
}

#[test]
fn format_uuid_dashes_a_32_character_id() {
    assert_eq!(format_uuid("069a79f444e94726a5befca90e38aaf5"), "069a79f4-44e9-4726-a5be-fca90e38aaf5");
}

#[test]
fn format_uuid_keeps_other_ids() {
    assert_eq!(format_uuid("abc"), "abc");
    assert_eq!(format_uuid("069a79f4-44e9-4726-a5be-fca90e38aaf5"), "069a79f4-44e9-4726-a5be-fca90e38aaf5");
    assert_eq!(format_uuid(""), "");
}

#[test]
fn auth_url_for_builds_the_login_address() {
    assert_eq!(
        auth_url_for("CH", "ST"),
        "https://login.live.com/oauth20_authorize.srf?client_id=00000000402b5328&response_type=code\
         &redirect_uri=https%3A%2F%2Flogin.live.com%2Foauth20_desktop.srf&scope=XboxLive.signin%20offline_access\
         &code_challenge=CH&code_challenge_method=S256&state=ST"
    );
}

#[test]
fn get_auth_url_uses_a_pkce_challenge() {
    let (url, verifier) = get_auth_url();
    assert_eq!(verifier.len(), 128);
    assert!(verifier.chars().all(|c| c.is_ascii_alphanumeric()));
    let digest = sha2::Sha256::digest(verifier.as_bytes());
    let challenge = base64::engine::general_purpose::URL_SAFE_NO_PAD.encode(digest);
    let prefix = format!(
        "https://login.live.com/oauth20_authorize.srf?client_id=00000000402b5328&response_type=code\
         &redirect_uri=https%3A%2F%2Flogin.live.com%2Foauth20_desktop.srf&scope=XboxLive.signin%20offline_access\
         &code_challenge={challenge}&code_challenge_method=S256&state="
    );
    assert!(url.starts_with(&prefix));
    let state = &url[prefix.len()..];
    assert_eq!(state.len(), 16);
    assert!(state.chars().all(|c| c.is_ascii_alphanumeric()));
}

#[test]
fn extract_uhs_reads_the_first_xui_claim() {
    let xbl = XboxLiveResponse { token: "t".to_string(), display_claims: claims("uhs", "1234") };
    assert_eq!(extract_uhs(&xbl), Some("1234".to_string()));
}

#[test]
fn extract_uhs_is_none_without_claims() {
    let xbl = XboxLiveResponse { token: "t".to_string(), display_claims: obj(vec![]) };
    assert_eq!(extract_uhs(&xbl), None);
    let empty = XboxLiveResponse { token: "t".to_string(), display_claims: obj(vec![("xui", JsonValue::Array(vec![]))]) };
    assert_eq!(extract_uhs(&empty), None);
    let wrong = XboxLiveResponse { token: "t".to_string(), display_claims: claims("uhs2", "1") };
    assert_eq!(extract_uhs(&wrong), None);
}

#[test]
fn extract_xuid_defaults_to_empty() {
    let xsts = XstsResponse { token: "t".to_string(), display_claims: claims("xid", "2535") };
    assert_eq!(extract_xuid_from_xsts(&xsts), "2535");
    let none = XstsResponse { token: "t".to_string(), display_claims: JsonValue::Null };
    assert_eq!(extract_xuid_from_xsts(&none), "");
}

#[test]
fn xbox_request_texts() {
    assert_eq!(rps_ticket("abc"), "d=abc");
    assert_eq!(xbox_identity_token("uhs1", "tok"), "XBL3.0 x=uhs1;tok");
}

#[test]
fn xsts_error_for_missing_xbox_profile() {
    assert_eq!(
        xsts_error_message("401 Unauthorized", "{\"XErr\":2148916238}"),
        "This Microsoft account has no Xbox Live profile. Please create one first at xbox.com"
    );
}

#[test]
fn xsts_error_otherwise_reports_status_and_body() {
    assert_eq!(xsts_error_message("400 Bad Request", "oops"), "XSTS auth failed (400 Bad Request): oops");
}

fn ms_tokens(expires_in: Option<i64>) -> MsTokenResponse {
    MsTokenResponse {
        access_token: "ms-access".to_string(),
        refresh_token: Some("ms-refresh".to_string()),
        expires_in,
        token_type: None,
    }
}

#[test]
fn authenticated_account_from_a_sign_in() {
    let profile = MinecraftProfile {
        id: "069a79f444e94726a5befca90e38aaf5".to_string(),
        name: "Notch".to_string(),
        skins: None,
    };
    let a = authenticated_account("acc".to_string(), profile, "mc-token".to_string(), &ms_tokens(Some(86400)), 1000, "xuid".to_string());
    assert_eq!(a.id, "acc");
    assert_eq!(a.username, "Notch");
    assert_eq!(a.uuid, "069a79f4-44e9-4726-a5be-fca90e38aaf5");
    assert_eq!(a.account_type, AccountType::Microsoft);
    assert_eq!(a.access_token.as_deref(), Some("mc-token"));
    assert_eq!(a.refresh_token.as_deref(), Some("ms-refresh"));
    assert_eq!(a.token_expiry, Some(87400));
    assert_eq!(a.xuid.as_deref(), Some("xuid"));
    assert!(a.profile_icon.is_none());
}

#[test]
fn sign_in_at_gives_the_signed_in_account() {
    let profile = MinecraftProfile {
        id: "069a79f444e94726a5befca90e38aaf5".to_string(),
        name: "Notch".to_string(),
        skins: None,
    };
    let a = sign_in_at(profile, "mc-token".to_string(), &ms_tokens(Some(86400)), "xuid".to_string(), "acc".to_string(), 1000)
        .unwrap();
    assert_eq!(a.id, "acc");
    assert_eq!(a.username, "Notch");
    assert_eq!(a.uuid, "069a79f4-44e9-4726-a5be-fca90e38aaf5");
    assert_eq!(a.account_type, AccountType::Microsoft);
    assert_eq!(a.access_token.as_deref(), Some("mc-token"));
    assert_eq!(a.refresh_token.as_deref(), Some("ms-refresh"));
    assert_eq!(a.token_expiry, Some(87400));
    assert_eq!(a.xuid.as_deref(), Some("xuid"));
}

#[test]
fn sign_in_at_refuses_an_expiry_that_overflows() {
    let profile = MinecraftProfile { id: "abc".to_string(), name: "A".to_string(), skins: None };
    let r = sign_in_at(profile, "t".to_string(), &ms_tokens(Some(1)), "x".to_string(), "acc".to_string(), i64::MAX);
    assert!(r.is_none());
    let profile = MinecraftProfile { id: "abc".to_string(), name: "A".to_string(), skins: None };
    let r = sign_in_at(profile, "t".to_string(), &ms_tokens(Some(-1)), "x".to_string(), "acc".to_string(), i64::MIN);
    assert!(r.is_none());
    let profile = MinecraftProfile { id: "abc".to_string(), name: "A".to_string(), skins: None };
    let r = sign_in_at(profile, "t".to_string(), &ms_tokens(Some(0)), "x".to_string(), "acc".to_string(), i64::MAX);
    assert_eq!(r.unwrap().token_expiry, Some(i64::MAX));
}

#[test]
fn sign_in_at_refuses_an_id_cut_inside_a_character() {
    let id = "é".repeat(16);
    assert_eq!(id.len(), 32);
    let profile = MinecraftProfile { id: format!("a{}", &id[..30]), name: "A".to_string(), skins: None };
    assert_eq!(profile.id.len(), 31);
    let odd = format!("a{}", "é".repeat(15)) + "b";
    assert_eq!(odd.len(), 32);
    let profile2 = MinecraftProfile { id: odd, name: "A".to_string(), skins: None };
    let r = sign_in_at(profile2, "t".to_string(), &ms_tokens(None), "x".to_string(), "acc".to_string(), 0);
    assert!(r.is_none());
    let r = sign_in_at(profile, "t".to_string(), &ms_tokens(None), "x".to_string(), "acc".to_string(), 0);
    assert!(r.is_some());
}

#[test]
fn sign_in_account_with_zero_lifetime_signs_in() {
    let profile = MinecraftProfile {
        id: "069a79f444e94726a5befca90e38aaf5".to_string(),
        name: "Notch".to_string(),
        skins: None,
    };
    let a = sign_in_account(profile, "t".to_string(), &ms_tokens(Some(0)), "x".to_string()).unwrap();
    assert_eq!(a.id.len(), 36);
    assert_eq!(a.uuid, "069a79f4-44e9-4726-a5be-fca90e38aaf5");
    assert!(a.token_expiry.is_some());
}

#[test]
fn refresh_request_needs_a_refresh_token() {
    let profile = MinecraftProfile { id: "abc".to_string(), name: "A".to_string(), skins: None };
    let mut a = authenticated_account("acc".to_string(), profile, "t".to_string(), &ms_tokens(None), 0, "x".to_string());
    assert_eq!(refresh_request(&a), Ok("ms-refresh".to_string()));
    a.refresh_token = None;
    assert_eq!(refresh_request(&a), Err("No refresh token available".to_string()));
}

#[test]
fn authenticated_account_defaults_to_an_hour() {
    let profile = MinecraftProfile { id: "short".to_string(), name: "A".to_string(), skins: None };
    let a = authenticated_account("acc".to_string(), profile, "t".to_string(), &ms_tokens(None), 50, "x".to_string());
    assert_eq!(a.token_expiry, Some(3650));
    assert_eq!(a.uuid, "short");
}

#[test]
fn refreshed_tokens_replace_only_the_tokens() {
    let mut a = Account {
        id: "a".to_string(),
        username: "Old".to_string(),
        uuid: "u".to_string(),
        account_type: AccountType::Microsoft,
        access_token: Some("old".to_string()),
        refresh_token: Some("old-r".to_string()),
        token_expiry: Some(1),
        xuid: Some("x".to_string()),
        profile_icon: None,
    };
    let mut fresh = a.clone();
    fresh.id = "other".to_string();
    fresh.username = "New".to_string();
    fresh.access_token = Some("new".to_string());
    fresh.refresh_token = None;
    fresh.token_expiry = Some(99);
    a.take_refreshed_tokens(fresh);
    assert_eq!(a.id, "a");
    assert_eq!(a.username, "Old");
    assert_eq!(a.access_token.as_deref(), Some("new"));
    assert!(a.refresh_token.is_none());
    assert_eq!(a.token_expiry, Some(99));
}

#[test]
fn code_from_a_redirect_address() {
    assert_eq!(
        extract_code_from_redirect("https://login.live.com/oauth20_desktop.srf?code=M.C507_abc&lc=1033"),
        Some("M.C507_abc".to_string())
    );
    assert_eq!(extract_code_from_redirect("https://x/?lc=1&code=zz"), Some("zz".to_string()));
    assert_eq!(extract_code_from_redirect("https://x/?code=code=zz"), Some("zz".to_string()));
}

#[test]
fn redirect_without_code_gives_none() {
    assert_eq!(extract_code_from_redirect("https://x/?lc=1033&state=1"), None);
    assert_eq!(extract_code_from_redirect("https://x/?code=&lc=1"), None);
    assert_eq!(extract_code_from_redirect("https://x/?a=1?code=9"), None);
}

#[test]
fn pasted_bare_code() {
    assert_eq!(extract_code_from_redirect("M.C507_abcdef"), Some("M.C507_abcdef".to_string()));
    assert_eq!(extract_code_from_redirect("short"), None);
    assert_eq!(extract_code_from_redirect("has a space in it"), None);
    assert_eq!(extract_code_from_redirect("éééééé"), Some("éééééé".to_string()));
}
