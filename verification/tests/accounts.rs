use std::hash::{Hash, Hasher};
use glauncher::auth::accounts::{md5_hex, offline_username, Account, AccountManager, AccountType};

fn account(id: &str, uuid: &str, account_type: AccountType) -> Account {
    Account {
        id: id.to_string(),
        username: format!("user-{id}"),
        uuid: uuid.to_string(),
        account_type,
        access_token: Some("token".to_string()),
        refresh_token: None,
        token_expiry: None,
        xuid: None,
        profile_icon: None,
    }
}

fn std_hash(s: &str) -> u64 {
    let mut h = std::collections::hash_map::DefaultHasher::new();
    s.to_string().hash(&mut h);
    h.finish()
}

#[test]
fn display_type_labels() {
    assert_eq!(account("a", "u", AccountType::Microsoft).display_type(), "Microsoft");
    assert_eq!(account("a", "u", AccountType::Offline).display_type(), "Offline");
}

#[test]
fn offline_accounts_never_expire() {
    let a = account("a", "u", AccountType::Offline);
    assert!(!a.is_expired_at(i64::MAX));
    assert!(!a.is_expired());
}

#[test]
fn microsoft_account_without_expiry_is_expired() {
    let a = account("a", "u", AccountType::Microsoft);
    assert!(a.is_expired_at(0));
    assert!(a.is_expired());
}

#[test]
fn expiry_has_a_five_minute_margin() {
    let mut a = account("a", "u", AccountType::Microsoft);
    a.token_expiry = Some(1000);
    assert!(!a.is_expired_at(699));
    assert!(a.is_expired_at(700));
    assert!(a.is_expired_at(5000));
    a.token_expiry = Some(i64::MIN);
    assert!(a.is_expired_at(i64::MIN));
}

#[test]
fn md5_hex_repeats_the_hash_in_both_halves() {
    let input = "OfflinePlayer:Steve".to_string();
    let h = std_hash(&input);
    let k = md5_hex(input);
    assert_eq!(k, (h as u128) | ((h as u128) << 64));
    assert_eq!((k >> 64) as u64, k as u64);
}

#[test]
fn offline_account_with_given_key() {
    let a = Account::new_offline_with("Steve", "id-1".to_string(), 0x0123_4567_89ab_cdef_0123_4567_89ab_cdef);
    assert_eq!(a.uuid, "01234567-89ab-cdef-0123-456789abcdef");
    assert_eq!(a.username, "Steve");
    assert_eq!(a.id, "id-1");
    assert_eq!(a.account_type, AccountType::Offline);
    assert_eq!(a.access_token.as_deref(), Some("0"));
    assert!(a.refresh_token.is_none());
    assert!(a.token_expiry.is_none());
    assert!(a.xuid.is_none());
    assert!(a.profile_icon.is_none());
}

#[test]
fn offline_account_with_full_width_key() {
    let a = Account::new_offline_with("Alex", "x".to_string(), 0xfedc_ba98_7654_3210_fedc_ba98_7654_3210);
    assert_eq!(a.uuid, "fedcba98-7654-3210-fedc-ba9876543210");
}

#[test]
fn offline_account_with_small_key_is_zero_padded() {
    let a = Account::new_offline_with("Tiny", "t".to_string(), 0xabc);
    assert_eq!(a.uuid, "00000000-0000-0000-0000-000000000abc");
    let z = Account::new_offline_with("Zero", "z".to_string(), 0);
    assert_eq!(z.uuid, "00000000-0000-0000-0000-000000000000");
}

#[test]
fn new_offline_uuid_comes_from_the_name() {
    let a = Account::new_offline("Steve");
    let b = Account::new_offline("Steve");
    assert_eq!(a.uuid, b.uuid);
    assert_ne!(a.id, b.id);
    assert_eq!(a.id.len(), 36);
    let h = std_hash("OfflinePlayer:Steve");
    let hex = format!("{:032x}", (h as u128) | ((h as u128) << 64));
    let expected = format!("{}-{}-{}-{}-{}", &hex[..8], &hex[8..12], &hex[12..16], &hex[16..20], &hex[20..]);
    assert_eq!(a.uuid, expected);
    assert_eq!(a.uuid.len(), 36);
    assert_eq!(a.account_type, AccountType::Offline);
}

#[test]
fn offline_uuid_groups_after_8_12_16_20() {
    let a = Account::new_offline("Notch");
    assert_eq!(a.uuid.len(), 36);
    let u: Vec<char> = a.uuid.chars().collect();
    assert_eq!(u[8], '-');
    assert_eq!(u[13], '-');
    assert_eq!(u[18], '-');
    assert_eq!(u[23], '-');
}

#[test]
fn offline_username_is_trimmed() {
    assert_eq!(offline_username("  Steve \n"), Ok("Steve".to_string()));
    assert_eq!(offline_username("abc"), Ok("abc".to_string()));
}

#[test]
fn offline_username_needs_three_bytes() {
    assert_eq!(offline_username("  ab  "), Err("Username must be at least 3 characters.".to_string()));
    assert_eq!(offline_username(""), Err("Username must be at least 3 characters.".to_string()));
    assert_eq!(offline_username("é"), Err("Username must be at least 3 characters.".to_string()));
    assert_eq!(offline_username("éa"), Ok("éa".to_string()));
}

#[test]
fn added_account_becomes_active_and_replaces_same_uuid() {
    let mut m = AccountManager::default();
    m.add_account(account("a", "u1", AccountType::Offline));
    m.add_account(account("b", "u2", AccountType::Offline));
    assert_eq!(m.active_account_id.as_deref(), Some("b"));
    m.add_account(account("c", "u1", AccountType::Microsoft));
    let ids: Vec<&str> = m.accounts.iter().map(|a| a.id.as_str()).collect();
    assert_eq!(ids, vec!["b", "c"]);
    assert_eq!(m.active_account().unwrap().id, "c");
}

#[test]
fn removing_the_active_account_selects_the_first() {
    let mut m = AccountManager::default();
    m.add_account(account("a", "u1", AccountType::Offline));
    m.add_account(account("b", "u2", AccountType::Offline));
    m.remove_account("b");
    assert_eq!(m.active_account_id.as_deref(), Some("a"));
    assert!(m.accounts.iter().all(|a| a.id != "b"));
    m.remove_account("a");
    assert!(m.active_account_id.is_none());
    assert!(m.active_account().is_none());
}

#[test]
fn removing_another_account_keeps_the_selection() {
    let mut m = AccountManager::default();
    m.add_account(account("a", "u1", AccountType::Offline));
    m.add_account(account("b", "u2", AccountType::Offline));
    m.remove_account("a");
    assert_eq!(m.active_account_id.as_deref(), Some("b"));
    m.remove_account("zzz");
    assert_eq!(m.accounts.len(), 1);
}

#[test]
fn set_active_only_selects_saved_accounts() {
    let mut m = AccountManager::default();
    m.add_account(account("a", "u1", AccountType::Offline));
    m.add_account(account("b", "u2", AccountType::Offline));
    m.set_active("a");
    assert_eq!(m.active_account().unwrap().id, "a");
    m.set_active("missing");
    assert_eq!(m.active_account_id.as_deref(), Some("a"));
}

#[test]
fn active_account_with_unknown_id_is_none() {
    let mut m = AccountManager::default();
    m.add_account(account("a", "u1", AccountType::Offline));
    m.active_account_id = Some("gone".to_string());
    assert!(m.active_account().is_none());
}

#[test]
fn update_account_replaces_by_id() {
    let mut m = AccountManager::default();
    m.add_account(account("a", "u1", AccountType::Offline));
    m.add_account(account("b", "u2", AccountType::Offline));
    let mut changed = account("a", "u9", AccountType::Microsoft);
    changed.username = "renamed".to_string();
    m.update_account(changed);
    assert_eq!(m.accounts[0].username, "renamed");
    assert_eq!(m.accounts[0].uuid, "u9");
    assert_eq!(m.active_account_id.as_deref(), Some("b"));
    m.update_account(account("zzz", "u3", AccountType::Offline));
    assert_eq!(m.accounts.len(), 2);
}
