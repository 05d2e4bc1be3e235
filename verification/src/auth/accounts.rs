//! Saved accounts and the account list with its active selection.

use vstd::prelude::*;
use crate::seqs::{any, find_first, lemma_first_index, lemma_first_index_props};
use vstd::utf8::encode_utf8;
use crate::text::{chars_of, hex_char, hex_digits, push_char, push_hex_digits, push_str, str_eq, trim, trim_exec};
use crate::utils::clock::now_timestamp;
use crate::utils::ids::{is_hyphenated_uuid, is_lower_hex_digit, new_uuid_string};

verus! {

/// How an account signs in.
#[derive(Debug, Clone, Copy, PartialEq, Eq, Structural)]
pub enum AccountType {
    Microsoft,
    Offline,
}

/// A Minecraft account known to the launcher.
#[derive(Debug, Clone)]
pub struct Account {
    pub id: String,
    pub username: String,
    pub uuid: String,
    pub account_type: AccountType,
    pub access_token: Option<String>,
    pub refresh_token: Option<String>,
    pub token_expiry: Option<i64>,
    pub xuid: Option<String>,
    pub profile_icon: Option<String>,
}

/// The label shown for an account type.
pub open spec fn account_type_label(t: AccountType) -> Seq<char> {
    match t {
        AccountType::Microsoft => "Microsoft"@,
        AccountType::Offline => "Offline"@,
    }
}

/// Whether a token is treated as expired at `now`: offline accounts never expire,
/// an account without an expiry always is, and otherwise the token counts as expired
/// from five minutes before its expiry.
pub open spec fn expired_at(account_type: AccountType, expiry: Option<i64>, now: int) -> bool {
    if account_type == AccountType::Offline {
        false
    } else {
        match expiry {
            Some(e) => now >= e - 300,
            None => true,
        }
    }
}

impl Account {
    /// The label of this account's type.
    pub fn display_type(&self) -> (r: &'static str)
        ensures
            r@ == account_type_label(self.account_type),
    {
        match self.account_type {
            AccountType::Microsoft => "Microsoft",
            AccountType::Offline => "Offline",
        }
    }

    /// Whether the account's token counts as expired at the Unix time `now`.
    pub fn is_expired_at(&self, now: i64) -> (r: bool)
        ensures
            r == expired_at(self.account_type, self.token_expiry, now as int),
    {
        if self.account_type == AccountType::Offline {
            return false;
        }
        match self.token_expiry {
            Some(expiry) => (now as i128) >= (expiry as i128) - 300,
            None => true,
        }
    }
}

/// The value std's `DefaultHasher` (as made by `new`) finishes with after hashing a string.
pub uninterp spec fn default_hash_of(s: Seq<char>) -> u64;

/// Hashes `s` with a `std::collections::hash_map::DefaultHasher` made by `new` and returns
/// `finish`. std documents that every hasher made by `new` is the same, so the value
/// depends on `s` alone; the hashing algorithm itself is unspecified, so only a name for
/// the value is stated.
#[verifier::external_body]
fn default_hash(s: &str) -> (r: u64)
    ensures
        r == default_hash_of(s@),
{
    let mut h = std::collections::hash_map::DefaultHasher::new();
    std::hash::Hash::hash(s, &mut h);
    std::hash::Hasher::finish(&h)
}

/// The 128-bit offline-player key of a string: its hash repeated in both 64-bit halves.
pub open spec fn doubled_hash(h: u64) -> nat {
    (h as nat) * 0x1_0000_0000_0000_0001
}

/// The deterministic 128-bit key of a string: its hash in both 64-bit halves.
pub fn md5_hex(input: String) -> (r: u128)
    ensures
        r == doubled_hash(default_hash_of(input@)),
{
    let h: u64 = default_hash(input.as_str());
    let w: u128 = h as u128;
    assert(w * 0x1_0000_0000_0000_0001 <= 0xffff_ffff_ffff_ffff_ffff_ffff_ffff_ffff) by (nonlinear_arith)
        requires
            w <= 0xffff_ffff_ffff_ffff,
    ;
    w * 0x1_0000_0000_0000_0001
}

/// The key of an offline player: the doubled hash of `OfflinePlayer:` and the name.
pub open spec fn offline_key(username: Seq<char>) -> nat {
    doubled_hash(default_hash_of("OfflinePlayer:"@ + username))
}

/// Hexadecimal text cut into UUID groups after characters 8, 12, 16 and 20.
pub open spec fn hex_groups(hex: Seq<char>) -> Seq<char> {
    hex.subrange(0, 8) + "-"@ + hex.subrange(8, 12) + "-"@ + hex.subrange(12, 16) + "-"@
        + hex.subrange(16, 20) + "-"@ + hex.subrange(20, hex.len() as int)
}

/// The UUID text of a 128-bit key: its 32 hexadecimal digits, zero-padded, in the
/// 8-4-4-4-12 groups of a UUID.
pub open spec fn key_uuid(key: nat) -> Seq<char> {
    hex_groups(hex_digits(key, 32))
}

/// The offline account of `username` with account id `id` and key `key`: its UUID is the
/// key's UUID text, its access token `0`, and it has no refresh token, expiry, Xbox id or
/// icon.
pub open spec fn is_offline_account(a: Account, username: Seq<char>, id: Seq<char>, key: nat) -> bool {
    &&& a.id@ == id
    &&& a.username@ == username
    &&& a.uuid@ == key_uuid(key)
    &&& a.account_type == AccountType::Offline
    &&& a.access_token matches Some(t) && t@ == "0"@
    &&& a.refresh_token is None
    &&& a.token_expiry is None
    &&& a.xuid is None
    &&& a.profile_icon is None
}

proof fn lemma_hex_digits(n: nat, w: nat)
    ensures
        hex_digits(n, w).len() == w,
        forall|i: int| 0 <= i < w ==> is_lower_hex_digit(#[trigger] hex_digits(n, w)[i]),
    decreases w,
{
    if w > 0 {
        lemma_hex_digits(n / 16, (w - 1) as nat);
        let d = n % 16;
        assert(is_lower_hex_digit(hex_char(d)));
        assert forall|i: int| 0 <= i < w implies is_lower_hex_digit(#[trigger] hex_digits(n, w)[i]) by {
            if i < w - 1 {
                assert(hex_digits(n, w)[i] == hex_digits(n / 16, (w - 1) as nat)[i]);
            }
        }
    }
}

/// The UUID text of every key is a hyphenated UUID.
proof fn lemma_key_uuid(key: nat)
    ensures
        hex_digits(key, 32).len() == 32,
        key_uuid(key).len() == 36,
        is_hyphenated_uuid(key_uuid(key)),
{
    reveal_strlit("-");
    let h = hex_digits(key, 32);
    lemma_hex_digits(key, 32);
    let u = key_uuid(key);
    assert forall|i: int| 0 <= i < 36 implies (if i == 8 || i == 13 || i == 18 || i == 23 {
        #[trigger] u[i] == '-'
    } else {
        is_lower_hex_digit(u[i])
    }) by {
        if i < 8 {
            assert(u[i] == h[i]);
        } else if 8 < i < 13 {
            assert(u[i] == h[i - 1]);
        } else if 13 < i < 18 {
            assert(u[i] == h[i - 2]);
        } else if 18 < i < 23 {
            assert(u[i] == h[i - 3]);
        } else if 23 < i {
            assert(u[i] == h[i - 4]);
        }
    }
}

/// Appends `v[from..to]` to `s`.
fn push_range(s: &mut String, v: &Vec<char>, from: usize, to: usize)
    requires
        from <= to <= v@.len(),
    ensures
        final(s)@ == old(s)@ + v@.subrange(from as int, to as int),
{
    let mut i = from;
    while i < to
        invariant
            from <= i <= to <= v@.len(),
            s@ == old(s)@ + v@.subrange(from as int, i as int),
        decreases to - i,
    {
        push_char(s, v[i]);
        assert(v@.subrange(from as int, i + 1) == v@.subrange(from as int, i as int).push(v@[i as int]));
        i = i + 1;
    }
}

impl Account {
    /// The offline account of `username` with account id `id`, given the key of its name.
    pub fn new_offline_with(username: &str, id: String, key: u128) -> (r: Account)
        ensures
            is_offline_account(r, username@, id@, key as nat),
            r.uuid@.len() == 36,
            is_hyphenated_uuid(r.uuid@),
    {
        let mut hex = String::new();
        push_hex_digits(&mut hex, key, 32);
        proof {
            lemma_key_uuid(key as nat);
        }
        let cs = chars_of(hex.as_str());
        let mut uuid = String::new();
        push_range(&mut uuid, &cs, 0, 8);
        push_char(&mut uuid, '-');
        push_range(&mut uuid, &cs, 8, 12);
        push_char(&mut uuid, '-');
        push_range(&mut uuid, &cs, 12, 16);
        push_char(&mut uuid, '-');
        push_range(&mut uuid, &cs, 16, 20);
        push_char(&mut uuid, '-');
        push_range(&mut uuid, &cs, 20, 32);
        proof {
            reveal_strlit("-");
            reveal_strlit("0");
            assert(uuid@ =~= key_uuid(key as nat));
        }
        Account {
            id,
            username: username.to_string(),
            uuid,
            account_type: AccountType::Offline,
            access_token: Some("0".to_string()),
            refresh_token: None,
            token_expiry: None,
            xuid: None,
            profile_icon: None,
        }
    }

    /// A new offline account for `username`, with a fresh random account id and a UUID
    /// derived from the name, in the 8-4-4-4-12 form of vanilla offline UUIDs.
    pub fn new_offline(username: &str) -> (r: Account)
        ensures
            is_offline_account(r, username@, r.id@, offline_key(username@)),
            is_hyphenated_uuid(r.id@),
            r.uuid@.len() == 36,
            is_hyphenated_uuid(r.uuid@),
    {
        let mut input = String::new();
        push_str(&mut input, "OfflinePlayer:");
        push_str(&mut input, username);
        let key = md5_hex(input);
        let id = new_uuid_string();
        Account::new_offline_with(username, id, key)
    }

    /// Whether the account's token counts as expired now, by the system clock.
    pub fn is_expired(&self) -> (r: bool)
        ensures
            exists|now: i64| r == #[trigger] expired_at(self.account_type, self.token_expiry, now as int),
    {
        let now = now_timestamp();
        let r = self.is_expired_at(now);
        assert(r == expired_at(self.account_type, self.token_expiry, now as int));
        r
    }
}

/// The user name an offline account is added under: the entered text trimmed, refused
/// with `Username must be at least 3 characters.` when that is under 3 bytes.
pub open spec fn offline_username_of(text: Seq<char>) -> Result<Seq<char>, Seq<char>> {
    if encode_utf8(trim(text)).len() < 3 {
        Err("Username must be at least 3 characters."@)
    } else {
        Ok(trim(text))
    }
}

/// The user name an offline account is added under, from the entered text.
pub fn offline_username(text: &str) -> (r: Result<String, String>)
    ensures
        match r {
            Ok(n) => offline_username_of(text@) == Ok::<Seq<char>, Seq<char>>(n@),
            Err(e) => offline_username_of(text@) == Err::<Seq<char>, Seq<char>>(e@),
        },
{
    let name = trim_exec(text);
    if name.as_str().as_bytes().len() < 3 {
        Err("Username must be at least 3 characters.".to_string())
    } else {
        Ok(name)
    }
}

/// The saved accounts and the id of the active one.
#[derive(Debug, Default)]
pub struct AccountManager {
    pub accounts: Vec<Account>,
    pub active_account_id: Option<String>,
}

/// `a` does not share its Minecraft UUID with `uuid`.
pub open spec fn other_uuid(uuid: Seq<char>) -> spec_fn(Account) -> bool {
    |a: Account| a.uuid@ != uuid
}

/// `a` does not carry the account id `id`.
pub open spec fn other_id(id: Seq<char>) -> spec_fn(Account) -> bool {
    |a: Account| a.id@ != id
}

/// `a` carries the account id `id`.
pub open spec fn has_id(id: Seq<char>) -> spec_fn(Account) -> bool {
    |a: Account| a.id@ == id
}

/// The account that a selection refers to: the first one whose id matches.
pub open spec fn selected(accounts: Seq<Account>, active: Option<String>) -> Option<Account> {
    match active {
        None => None,
        Some(id) => match find_first(accounts, has_id(id@)) {
            Some(i) => Some(accounts[i]),
            None => None,
        },
    }
}

/// Keeps the accounts for which `p` holds, in order.
fn retain_accounts(v: &mut Vec<Account>, Ghost(p): Ghost<spec_fn(Account) -> bool>, uuid: Option<&str>, id: Option<&str>)
    requires
        uuid is Some ==> p == other_uuid(uuid->0@),
        uuid is None ==> id is Some && p == other_id(id->0@),
    ensures
        final(v)@ == old(v)@.filter(p),
{
    let ghost orig = v@;
    let mut kept: Vec<Account> = Vec::new();
    let ghost mut k: int = 0;
    while v.len() > 0
        invariant
            uuid is Some ==> p == other_uuid(uuid->0@),
            uuid is None ==> id is Some && p == other_id(id->0@),
            0 <= k <= orig.len(),
            v@ == orig.skip(k),
            kept@ == orig.take(k).filter(p),
        decreases v.len(),
    {
        let a = v.remove(0);
        proof {
            assert(orig.take(k + 1) == orig.take(k).push(a));
            orig.take(k).lemma_filter_push(a, p);
        }
        let keep = match uuid {
            Some(u) => !str_eq(a.uuid.as_str(), u),
            None => !str_eq(a.id.as_str(), id.unwrap()),
        };
        if keep {
            kept.push(a);
        }
        proof {
            k = k + 1;
            assert(v@ == orig.skip(k));
        }
    }
    assert(orig.take(k) == orig);
    *v = kept;
}

/// The index of the first account whose id is `id`.
fn position_of_id(accounts: &Vec<Account>, id: &str) -> (r: Option<usize>)
    ensures
        r matches Some(i) ==> find_first(accounts@, has_id(id@)) == Some(i as int),
        r is None ==> find_first(accounts@, has_id(id@)) is None,
{
    let mut i: usize = 0;
    while i < accounts.len()
        invariant
            i <= accounts@.len(),
            forall|j: int| 0 <= j < i ==> !has_id(id@)(#[trigger] accounts@[j]),
        decreases accounts.len() - i,
    {
        if str_eq(accounts[i].id.as_str(), id) {
            proof { lemma_first_index(accounts@, has_id(id@), i as int); }
            return Some(i);
        }
        i = i + 1;
    }
    proof { lemma_first_index(accounts@, has_id(id@), i as int); }
    None
}

impl AccountManager {
    /// Adds `account`, replacing any saved account with the same Minecraft UUID, and
    /// makes it the active one.
    pub fn add_account(&mut self, account: Account)
        ensures
            final(self).accounts@ == old(self).accounts@.filter(other_uuid(account.uuid@)).push(account),
            final(self).active_account_id == Some(account.id),
    {
        let id = account.id.clone();
        retain_accounts(&mut self.accounts, Ghost(other_uuid(account.uuid@)), Some(account.uuid.as_str()), None);
        self.accounts.push(account);
        self.active_account_id = Some(id);
    }

    /// Removes the accounts with id `id`; when the active one goes, the first remaining
    /// account becomes active (none if the list is empty).
    pub fn remove_account(&mut self, id: &str)
        ensures
            final(self).accounts@ == old(self).accounts@.filter(other_id(id@)),
            final(self).active_account_id == (match old(self).active_account_id {
                Some(a) => if a@ == id@ {
                    if final(self).accounts@.len() > 0 { Some(final(self).accounts@[0].id) } else { None }
                } else {
                    Some(a)
                },
                None => None,
            }),
    {
        retain_accounts(&mut self.accounts, Ghost(other_id(id@)), None, Some(id));
        let was_active = match &self.active_account_id {
            Some(a) => str_eq(a.as_str(), id),
            None => false,
        };
        if was_active {
            if self.accounts.len() > 0 {
                self.active_account_id = Some(self.accounts[0].id.clone());
            } else {
                self.active_account_id = None;
            }
        }
    }

    /// The active account: the first saved account whose id is the active id.
    pub fn active_account(&self) -> (r: Option<&Account>)
        ensures
            r == (match selected(self.accounts@, self.active_account_id) {
                Some(a) => Some(&a),
                None => None::<&Account>,
            }),
    {
        match &self.active_account_id {
            None => None,
            Some(id) => match position_of_id(&self.accounts, id.as_str()) {
                Some(i) => Some(&self.accounts[i]),
                None => None,
            },
        }
    }

    /// Makes the account with id `id` active, if one is saved; otherwise nothing changes.
    pub fn set_active(&mut self, id: &str)
        ensures
            final(self).accounts@ == old(self).accounts@,
            any(old(self).accounts@, has_id(id@)) ==> (final(self).active_account_id matches Some(a) && a@ == id@),
            !any(old(self).accounts@, has_id(id@)) ==> final(self).active_account_id == old(self).active_account_id,
    {
        let pos = position_of_id(&self.accounts, id);
        proof { lemma_first_index_props(self.accounts@, has_id(id@)); }
        if pos.is_some() {
            self.active_account_id = Some(id.to_string());
        }
    }

    /// Replaces the first saved account whose id is `account.id`; nothing changes when
    /// none is saved.
    pub fn update_account(&mut self, account: Account)
        ensures
            final(self).active_account_id == old(self).active_account_id,
            final(self).accounts@ == (match find_first(old(self).accounts@, has_id(account.id@)) {
                Some(i) => old(self).accounts@.update(i, account),
                None => old(self).accounts@,
            }),
    {
        match position_of_id(&self.accounts, account.id.as_str()) {
            Some(i) => {
                self.accounts.set(i, account);
            }
            None => {}
        }
    }
}

/// Whether a selection names a saved account (or nothing).
pub open spec fn valid_selection(accounts: Seq<Account>, active: Option<String>) -> bool {
    match active {
        None => true,
        Some(id) => any(accounts, has_id(id@)),
    }
}

/// The account just added is the active account, when no other saved account
/// (one with a different Minecraft UUID) carries its id.
pub proof fn law_added_account_is_active(accounts: Seq<Account>, account: Account)
    requires
        forall|i: int| 0 <= i < accounts.len() && accounts[i].uuid@ != account.uuid@
            ==> #[trigger] accounts[i].id@ != account.id@,
    ensures
        selected(accounts.filter(other_uuid(account.uuid@)).push(account), Some(account.id))
            == Some(account),
{
    let kept = accounts.filter(other_uuid(account.uuid@));
    let s = kept.push(account);
    assert forall|j: int| 0 <= j < kept.len() implies !has_id(account.id@)(#[trigger] s[j]) by {
        accounts.lemma_filter_pred(other_uuid(account.uuid@), j);
        assert(s[j] == kept[j]);
        assert(kept.contains(kept[j]));
        accounts.lemma_filter_contains_rev(other_uuid(account.uuid@), kept[j]);
        let k = choose|k: int| 0 <= k < accounts.len() && accounts[k] == kept[j];
        assert(accounts[k].uuid@ != account.uuid@);
    }
    lemma_first_index(s, has_id(account.id@), kept.len() as int);
}

/// After removing the accounts with id `id`, none is left with that id.
pub proof fn law_removed_account_is_gone(accounts: Seq<Account>, id: Seq<char>)
    ensures
        !any(accounts.filter(other_id(id)), has_id(id)),
{
    let kept = accounts.filter(other_id(id));
    if any(kept, has_id(id)) {
        let j = choose|j: int| 0 <= j < kept.len() && #[trigger] has_id(id)(kept[j]);
        accounts.lemma_filter_pred(other_id(id), j);
    }
}

/// Adding an account leaves a valid selection.
pub proof fn law_add_keeps_selection_valid(accounts: Seq<Account>, account: Account)
    ensures
        valid_selection(accounts.filter(other_uuid(account.uuid@)).push(account), Some(account.id)),
{
    let s = accounts.filter(other_uuid(account.uuid@)).push(account);
    assert(has_id(account.id@)(s[s.len() - 1]));
}

/// Removing accounts keeps a valid selection valid.
pub proof fn law_remove_keeps_selection_valid(
    accounts: Seq<Account>,
    active: Option<String>,
    id: Seq<char>,
    new_active: Option<String>,
)
    requires
        valid_selection(accounts, active),
        new_active == (match active {
            Some(a) => if a@ == id {
                if accounts.filter(other_id(id)).len() > 0 {
                    Some(accounts.filter(other_id(id))[0].id)
                } else {
                    None
                }
            } else {
                Some(a)
            },
            None => None,
        }),
    ensures
        valid_selection(accounts.filter(other_id(id)), new_active),
{
    let kept = accounts.filter(other_id(id));
    match active {
        Some(a) => {
            if a@ == id {
                if kept.len() > 0 {
                    assert(has_id(kept[0].id@)(kept[0]));
                }
            } else {
                let k = choose|k: int| 0 <= k < accounts.len() && #[trigger] has_id(a@)(accounts[k]);
                accounts.lemma_filter_contains(other_id(id), k);
                let j = choose|j: int| 0 <= j < kept.len() && kept[j] == accounts[k];
                assert(has_id(a@)(kept[j]));
            }
        },
        None => {},
    }
}

/// Selecting a saved account by id makes it the active account.
pub proof fn law_set_active_selects(accounts: Seq<Account>, active: String)
    requires
        any(accounts, has_id(active@)),
    ensures
        selected(accounts, Some(active)) matches Some(a) && a.id@ == active@,
{
    lemma_first_index_props(accounts, has_id(active@));
}

/// Replacing an account by id keeps a valid selection valid.
pub proof fn law_update_keeps_selection_valid(accounts: Seq<Account>, active: Option<String>, account: Account)
    requires
        valid_selection(accounts, active),
    ensures
        valid_selection(
            match find_first(accounts, has_id(account.id@)) {
                Some(i) => accounts.update(i, account),
                None => accounts,
            },
            active,
        ),
{
    lemma_first_index_props(accounts, has_id(account.id@));
    match find_first(accounts, has_id(account.id@)) {
        Some(i) => {
            let s = accounts.update(i, account);
            match active {
                Some(a) => {
                    let k = choose|k: int| 0 <= k < accounts.len() && #[trigger] has_id(a@)(accounts[k]);
                    if k == i {
                        assert(has_id(a@)(s[i]));
                    } else {
                        assert(has_id(a@)(s[k]));
                    }
                },
                None => {},
            }
        },
        None => {},
    }
}

/// An offline account's UUID depends on the user name alone: two offline accounts made
/// for the same name, under any account ids, carry the same UUID.
pub proof fn law_offline_uuid_deterministic(a: Account, b: Account, username: Seq<char>)
    requires
        is_offline_account(a, username, a.id@, offline_key(username)),
        is_offline_account(b, username, b.id@, offline_key(username)),
    ensures
        a.uuid@ == b.uuid@,
{
}

/// An offline account's UUID is a canonical hyphenated UUID, 36 characters in 8-4-4-4-12
/// groups, whose 32 digits are its key in hexadecimal, zero-padded, most significant first.
pub proof fn law_offline_uuid_groups(a: Account, username: Seq<char>, id: Seq<char>, key: nat)
    requires
        is_offline_account(a, username, id, key),
    ensures
        a.uuid@.len() == 36,
        is_hyphenated_uuid(a.uuid@),
        a.uuid@.subrange(0, 8) + a.uuid@.subrange(9, 13) + a.uuid@.subrange(14, 18)
            + a.uuid@.subrange(19, 23) + a.uuid@.subrange(24, 36) == hex_digits(key, 32),
{
    reveal_strlit("-");
    lemma_key_uuid(key);
    let h = hex_digits(key, 32);
    let u = a.uuid@;
    assert(u.subrange(0, 8) =~= h.subrange(0, 8));
    assert(u.subrange(9, 13) =~= h.subrange(8, 12));
    assert(u.subrange(14, 18) =~= h.subrange(12, 16));
    assert(u.subrange(19, 23) =~= h.subrange(16, 20));
    assert(u.subrange(24, 36) =~= h.subrange(20, 32));
    assert(h =~= h.subrange(0, 8) + h.subrange(8, 12) + h.subrange(12, 16) + h.subrange(16, 20)
        + h.subrange(20, 32));
}

} // verus!
