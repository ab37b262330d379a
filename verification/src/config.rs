//! The account store: the cache of saved accounts, which one is active,
//! and the rules for reading account records back from storage.
//!
//! Accounts are persisted in the OS keychain, or in JSON files when the
//! keychain is unusable; the persisting happens around these calls.
use vstd::prelude::*;
use crate::clock::now;
use crate::error::AppError;
use crate::ids::{is_uuid_v4_text, new_uuid};
use crate::keyed::{
    keyed_map, keys_unique, lemma_keyed_dom, lemma_keyed_index, lemma_keyed_map_values, lemma_keyed_push,
    lemma_keyed_remove, lemma_keyed_update, lemma_unique_same_keys,
};
use crate::models::{Account, AccountInput, Timestamp};
use crate::text::{chars_eq, chars_of, concat_chars, string_of};

verus! {

pub open spec fn account_key() -> spec_fn(Account) -> Seq<char> {
    |a: Account| a.id@
}

pub open spec fn account_val() -> spec_fn(Account) -> Account {
    |a: Account| a
}

/// `a` marked inactive.
pub open spec fn deactivated(a: Account) -> Account {
    Account { is_active: false, ..a }
}

pub open spec fn deactivate_fn() -> spec_fn(Account) -> Account {
    |a: Account| deactivated(a)
}

/// The error for an unknown account id.
pub open spec fn is_account_not_found(e: AppError, id: Seq<char>) -> bool {
    e matches AppError::AccountNotFound(m) && m@ == id
}

/// A field-by-field copy of an account.
pub fn copy_account(a: &Account) -> (r: Account)
    ensures
        r == *a,
{
    Account {
        id: a.id.clone(),
        name: a.name.clone(),
        endpoint: a.endpoint.clone(),
        access_key_id: a.access_key_id.clone(),
        created_at: a.created_at,
        is_active: a.is_active,
    }
}

/// The cache of saved accounts and how they are persisted.
pub struct ConfigManager {
    accounts_cache: Vec<Account>,
    storage_path: String,
    use_file_storage: bool,
}

impl ConfigManager {
    /// The cached accounts by id.
    pub closed spec fn accounts_view(&self) -> Map<Seq<char>, Account> {
        keyed_map(self.accounts_cache@, account_key(), account_val())
    }

    /// Where the account files live.
    pub closed spec fn storage_view(&self) -> Seq<char> {
        self.storage_path@
    }

    /// Whether accounts are kept in files rather than the keychain.
    pub closed spec fn file_storage(&self) -> bool {
        self.use_file_storage
    }

    /// No two cached accounts share an id.
    #[verifier::type_invariant]
    pub closed spec fn wf(&self) -> bool {
        keys_unique(self.accounts_cache@, account_key())
    }

    /// An empty cache over `storage_path`.
    pub fn new(storage_path: String, use_file_storage: bool) -> (r: ConfigManager)
        ensures
            r.accounts_view() == Map::<Seq<char>, Account>::empty(),
            r.storage_view() == storage_path@,
            r.file_storage() == use_file_storage,
    {
        let r = ConfigManager { accounts_cache: Vec::new(), storage_path, use_file_storage };
        assert(r.accounts_view() =~= Map::<Seq<char>, Account>::empty());
        r
    }

    /// Where the account files live.
    pub fn storage_path(&self) -> (r: String)
        ensures
            r@ == self.storage_view(),
    {
        self.storage_path.clone()
    }

    /// Whether accounts are kept in files rather than the keychain.
    pub fn use_file_storage(&self) -> (r: bool)
        ensures
            r == self.file_storage(),
    {
        self.use_file_storage
    }

    /// Switches to file storage after the keychain failed.
    pub fn fall_back_to_files(&mut self)
        ensures
            final(self).file_storage(),
            final(self).accounts_view() == old(self).accounts_view(),
            final(self).storage_view() == old(self).storage_view(),
    {
        proof {
            use_type_invariant(&*self);
        }
        self.use_file_storage = true;
    }

    fn position(&self, id: &str) -> (r: Option<usize>)
        requires
            self.wf(),
        ensures
            match r {
                Some(i) => i < self.accounts_cache.len() && self.accounts_cache@[i as int].id@ == id@,
                None => !self.accounts_view().dom().contains(id@),
            },
    {
        let ids = chars_of(id);
        let mut i: usize = 0;
        while i < self.accounts_cache.len()
            invariant
                i <= self.accounts_cache.len(),
                ids@ == id@,
                forall|j: int| 0 <= j < i ==> self.accounts_cache@[j].id@ != id@,
            decreases self.accounts_cache.len() - i,
        {
            if chars_eq(&chars_of(self.accounts_cache[i].id.as_str()), &ids) {
                return Some(i);
            }
            i = i + 1;
        }
        proof {
            lemma_keyed_dom(self.accounts_cache@, account_key(), account_val(), id@);
        }
        None
    }

    /// Puts `a` into the cache under its id.
    pub fn insert_account(&mut self, a: Account)
        ensures
            final(self).accounts_view() == old(self).accounts_view().insert(a.id@, a),
            final(self).storage_view() == old(self).storage_view(),
            final(self).file_storage() == old(self).file_storage(),
    {
        proof {
            use_type_invariant(&*self);
        }
        let found = self.position(a.id.as_str());
        let mut cache: Vec<Account> = Vec::new();
        std::mem::swap(&mut cache, &mut self.accounts_cache);
        match found {
            Some(i) => {
                proof {
                    lemma_keyed_update(cache@, account_key(), account_val(), i as int, a);
                }
                cache.set(i, a);
            },
            None => {
                proof {
                    lemma_keyed_push(cache@, account_key(), account_val(), a);
                }
                cache.push(a);
            },
        }
        self.accounts_cache = cache;
    }

    /// Drops account `id` from the cache.
    pub fn remove_account(&mut self, id: &str)
        ensures
            final(self).accounts_view() == old(self).accounts_view().remove(id@),
            final(self).storage_view() == old(self).storage_view(),
            final(self).file_storage() == old(self).file_storage(),
    {
        proof {
            use_type_invariant(&*self);
        }
        match self.position(id) {
            Some(i) => {
                let mut cache: Vec<Account> = Vec::new();
                std::mem::swap(&mut cache, &mut self.accounts_cache);
                proof {
                    lemma_keyed_remove(cache@, account_key(), account_val(), i as int);
                }
                cache.remove(i);
                self.accounts_cache = cache;
            },
            None => {
                assert(self.accounts_view() =~= self.accounts_view().remove(id@));
            },
        }
    }

    /// Every cached account, each once.
    pub fn list_accounts(&self) -> (r: Vec<Account>)
        ensures
            keys_unique(r@, account_key()),
            keyed_map(r@, account_key(), account_val()) == self.accounts_view(),
    {
        proof {
            use_type_invariant(&*self);
        }
        let mut r: Vec<Account> = Vec::new();
        let mut i: usize = 0;
        while i < self.accounts_cache.len()
            invariant
                i <= self.accounts_cache.len(),
                r@ == self.accounts_cache@.subrange(0, i as int),
            decreases self.accounts_cache.len() - i,
        {
            r.push(copy_account(&self.accounts_cache[i]));
            i = i + 1;
        }
        assert(self.accounts_cache@.subrange(0, self.accounts_cache.len() as int) == self.accounts_cache@);
        r
    }

    /// The cached account `id`, or `AccountNotFound(id)`.
    pub fn get_account(&self, id: &str) -> (r: Result<Account, AppError>)
        ensures
            self.accounts_view().dom().contains(id@) ==> r == Ok::<Account, AppError>(self.accounts_view()[id@]),
            !self.accounts_view().dom().contains(id@) ==> (r matches Err(e) && is_account_not_found(e, id@)),
    {
        proof {
            use_type_invariant(&*self);
        }
        match self.position(id) {
            Some(i) => {
                proof {
                    lemma_keyed_index(self.accounts_cache@, account_key(), account_val(), i as int);
                }
                Ok(copy_account(&self.accounts_cache[i]))
            },
            None => Err(AppError::AccountNotFound(id.to_owned())),
        }
    }

    /// An active account, if one is marked.
    pub fn get_active_account(&self) -> (r: Option<Account>)
        ensures
            r matches Some(a) ==> a.is_active && self.accounts_view().dom().contains(a.id@) && self.accounts_view()[a.id@] == a,
            r is None ==> forall|k: Seq<char>| #[trigger] self.accounts_view().dom().contains(k) ==> !self.accounts_view()[k].is_active,
    {
        proof {
            use_type_invariant(&*self);
        }
        let mut i: usize = 0;
        while i < self.accounts_cache.len()
            invariant
                self.wf(),
                i <= self.accounts_cache.len(),
                forall|j: int| 0 <= j < i ==> !self.accounts_cache@[j].is_active,
            decreases self.accounts_cache.len() - i,
        {
            if self.accounts_cache[i].is_active {
                proof {
                    lemma_keyed_index(self.accounts_cache@, account_key(), account_val(), i as int);
                }
                return Some(copy_account(&self.accounts_cache[i]));
            }
            i = i + 1;
        }
        proof {
            assert forall|k: Seq<char>| #[trigger] self.accounts_view().dom().contains(k) implies !self.accounts_view()[k].is_active by {
                lemma_keyed_dom(self.accounts_cache@, account_key(), account_val(), k);
                let j = choose|j: int| 0 <= j < self.accounts_cache@.len() && self.accounts_cache@[j].id@ == k;
                lemma_keyed_index(self.accounts_cache@, account_key(), account_val(), j);
            }
        }
        None
    }

    /// The id of an active account, if one is marked.
    pub fn active_account_id(&self) -> (r: Option<String>)
        ensures
            r matches Some(id) ==> self.accounts_view().dom().contains(id@) && self.accounts_view()[id@].is_active,
            r is None ==> forall|k: Seq<char>| #[trigger] self.accounts_view().dom().contains(k) ==> !self.accounts_view()[k].is_active,
    {
        proof {
            use_type_invariant(&*self);
        }
        match self.get_active_account() {
            Some(a) => Some(a.id),
            None => None,
        }
    }

    /// Marks account `id` as the only active one, or, given none, clears the
    /// mark. Every account is unmarked first, so an unknown id leaves none
    /// active and is reported as `AccountNotFound(id)`.
    pub fn set_active_account(&mut self, id: Option<&str>) -> (r: Result<(), AppError>)
        ensures
            final(self).storage_view() == old(self).storage_view(),
            final(self).file_storage() == old(self).file_storage(),
            match id {
                None => r is Ok && final(self).accounts_view() == old(self).accounts_view().map_values(deactivate_fn()),
                Some(x) => if old(self).accounts_view().dom().contains(x@) {
                    r is Ok && final(self).accounts_view() == old(self).accounts_view().map_values(deactivate_fn()).insert(
                        x@,
                        Account { is_active: true, ..old(self).accounts_view()[x@] },
                    )
                } else {
                    (r matches Err(e) && is_account_not_found(e, x@)) && final(self).accounts_view()
                        == old(self).accounts_view().map_values(deactivate_fn())
                },
            },
    {
        proof {
            use_type_invariant(&*self);
        }
        let ghost before = self.accounts_cache@;
        let mut cache: Vec<Account> = Vec::new();
        std::mem::swap(&mut cache, &mut self.accounts_cache);
        let mut i: usize = 0;
        while i < cache.len()
            invariant
                i <= cache.len(),
                cache.len() == before.len(),
                forall|j: int| 0 <= j < i ==> #[trigger] cache@[j] == deactivated(before[j]),
                forall|j: int| i <= j < cache.len() ==> #[trigger] cache@[j] == before[j],
            decreases cache.len() - i,
        {
            let mut a = copy_account(&cache[i]);
            a.is_active = false;
            cache.set(i, a);
            i = i + 1;
        }
        proof {
            assert forall|j: int| 0 <= j < before.len() implies account_key()(#[trigger] cache@[j]) == account_key()(before[j])
                && account_val()(cache@[j]) == deactivate_fn()(account_val()(before[j])) by {
                assert(cache@[j] == deactivated(before[j]));
            }
            lemma_keyed_map_values(before, cache@, account_key(), account_val(), deactivate_fn());
            lemma_unique_same_keys(before, cache@, account_key());
        }
        self.accounts_cache = cache;
        match id {
            None => Ok(()),
            Some(x) => match self.position(x) {
                Some(k) => {
                    let mut a = copy_account(&self.accounts_cache[k]);
                    a.is_active = true;
                    let mut cache: Vec<Account> = Vec::new();
                    std::mem::swap(&mut cache, &mut self.accounts_cache);
                    proof {
                        lemma_keyed_index(before, account_key(), account_val(), k as int);
                        lemma_keyed_update(cache@, account_key(), account_val(), k as int, a);
                        assert(a == Account { is_active: true, ..keyed_map(before, account_key(), account_val())[x@] });
                    }
                    cache.set(k, a);
                    self.accounts_cache = cache;
                    Ok(())
                },
                None => Err(AppError::AccountNotFound(x.to_owned())),
            },
        }
    }

    /// The cached account `id` as an edit with `input` makes it: new name,
    /// endpoint and key id, the same creation time and active mark; or
    /// `AccountNotFound(id)`.
    pub fn updated_account(&self, id: &str, input: &AccountInput) -> (r: Result<Account, AppError>)
        ensures
            self.accounts_view().dom().contains(id@) ==> r == Ok::<Account, AppError>(
                Account {
                    id: r->Ok_0.id,
                    name: input.name,
                    endpoint: input.endpoint,
                    access_key_id: input.access_key_id,
                    created_at: self.accounts_view()[id@].created_at,
                    is_active: self.accounts_view()[id@].is_active,
                },
            ) && r->Ok_0.id@ == id@,
            !self.accounts_view().dom().contains(id@) ==> (r matches Err(e) && is_account_not_found(e, id@)),
    {
        proof {
            use_type_invariant(&*self);
        }
        match self.position(id) {
            Some(i) => {
                proof {
                    lemma_keyed_index(self.accounts_cache@, account_key(), account_val(), i as int);
                }
                let old_account = &self.accounts_cache[i];
                Ok(Account {
                    id: id.to_owned(),
                    name: input.name.clone(),
                    endpoint: input.endpoint.clone(),
                    access_key_id: input.access_key_id.clone(),
                    created_at: old_account.created_at,
                    is_active: old_account.is_active,
                })
            },
            None => Err(AppError::AccountNotFound(id.to_owned())),
        }
    }
}

/// A new, inactive account for `input`, with a fresh id and the current time.
pub fn new_account(input: &AccountInput) -> (r: Account)
    ensures
        is_uuid_v4_text(r.id@),
        r.name == input.name,
        r.endpoint == input.endpoint,
        r.access_key_id == input.access_key_id,
        !r.is_active,
{
    Account {
        id: new_uuid(),
        name: input.name.clone(),
        endpoint: input.endpoint.clone(),
        access_key_id: input.access_key_id.clone(),
        created_at: now(),
        is_active: false,
    }
}

/// The secret to store when an account is edited: the new one when given,
/// else the one stored before (if any).
pub fn kept_secret(input_secret: &str, existing: Option<String>) -> (r: Option<String>)
    ensures
        input_secret@.len() > 0 ==> (r matches Some(s) && s@ == input_secret@),
        input_secret@.len() == 0 ==> r == existing,
{
    if input_secret.unicode_len() > 0 {
        Some(input_secret.to_owned())
    } else {
        existing
    }
}

/// The fields of an account as read from storage; any may be missing.
#[derive(Clone, Debug)]
pub struct AccountRecord {
    pub id: Option<String>,
    pub name: Option<String>,
    pub endpoint: Option<String>,
    pub access_key_id: Option<String>,
}

/// Whether `id` is the saved active id.
fn is_active_id(id: &str, active_id: Option<&str>) -> (r: bool)
    ensures
        r == (active_id matches Some(a) && a@ == id@),
{
    match active_id {
        Some(a) => chars_eq(&chars_of(a), &chars_of(id)),
        None => false,
    }
}

/// The error for a keychain record of account `id` that lacks `field`.
pub open spec fn missing_field_message(id: Seq<char>, field: Seq<char>) -> Seq<char> {
    "Account "@ + id + " missing "@ + field + " field"@
}

fn missing_field(id: &str, field: &str) -> (r: AppError)
    ensures
        r matches AppError::Config(m) && m@ == missing_field_message(id@, field@),
{
    let a = concat_chars(&chars_of("Account "), &chars_of(id));
    let b = concat_chars(&a, &chars_of(" missing "));
    let c = concat_chars(&b, &chars_of(field));
    AppError::Config(string_of(&concat_chars(&c, &chars_of(" field"))))
}

/// The account stored in the keychain under `id`, read back at time
/// `created_at`: name, endpoint and access key id must all be there (the
/// first missing one is reported as a `Config` error); it is active when
/// `id` is the saved active id.
pub fn account_from_keychain_record(
    id: &str,
    name: Option<String>,
    endpoint: Option<String>,
    access_key_id: Option<String>,
    active_id: Option<&str>,
    created_at: Timestamp,
) -> (r: Result<Account, AppError>)
    ensures
        match (name, endpoint, access_key_id) {
            (Some(n), Some(e), Some(k)) => r matches Ok(a) && a.id@ == id@ && a.name == n && a.endpoint == e
                && a.access_key_id == k && a.created_at == created_at && a.is_active == (active_id matches Some(x)
                && x@ == id@),
            (None, _, _) => r matches Err(AppError::Config(m)) && m@ == missing_field_message(id@, "name"@),
            (Some(_), None, _) => r matches Err(AppError::Config(m)) && m@ == missing_field_message(id@, "endpoint"@),
            (Some(_), Some(_), None) => r matches Err(AppError::Config(m)) && m@ == missing_field_message(
                id@,
                "access_key_id"@,
            ),
        },
{
    let name = match name {
        Some(n) => n,
        None => return Err(missing_field(id, "name")),
    };
    let endpoint = match endpoint {
        Some(e) => e,
        None => return Err(missing_field(id, "endpoint")),
    };
    let access_key_id = match access_key_id {
        Some(k) => k,
        None => return Err(missing_field(id, "access_key_id")),
    };
    Ok(Account {
        id: id.to_owned(),
        name,
        endpoint,
        access_key_id,
        created_at,
        is_active: is_active_id(id, active_id),
    })
}

/// A record of the accounts file holds all four fields.
pub open spec fn record_complete(r: AccountRecord) -> bool {
    r.id is Some && r.name is Some && r.endpoint is Some && r.access_key_id is Some
}

/// The account a complete record of the accounts file stands for, read
/// back at time `created_at`.
pub open spec fn record_account(r: AccountRecord, active_id: Option<Seq<char>>, created_at: Timestamp) -> Account {
    Account {
        id: r.id.unwrap(),
        name: r.name.unwrap(),
        endpoint: r.endpoint.unwrap(),
        access_key_id: r.access_key_id.unwrap(),
        created_at,
        is_active: active_id matches Some(x) && x == r.id.unwrap()@,
    }
}

/// The cache `m` after the complete records of `records` are put into it,
/// in order.
pub open spec fn records_applied(
    m: Map<Seq<char>, Account>,
    records: Seq<AccountRecord>,
    active_id: Option<Seq<char>>,
    created_at: Timestamp,
) -> Map<Seq<char>, Account>
    decreases records.len(),
{
    if records.len() == 0 {
        m
    } else {
        let prev = records_applied(m, records.drop_last(), active_id, created_at);
        let r = records.last();
        if record_complete(r) {
            prev.insert(r.id.unwrap()@, record_account(r, active_id, created_at))
        } else {
            prev
        }
    }
}

/// The text of an optional string slice.
pub open spec fn opt_text(o: Option<&str>) -> Option<Seq<char>> {
    match o {
        Some(s) => Some(s@),
        None => None,
    }
}

/// Loads the accounts file into the cache: complete records become
/// accounts created at `created_at`, active when their id is `active_id`;
/// incomplete records are skipped; a later record replaces an earlier one
/// with the same id.
pub fn load_records(cache: &mut ConfigManager, records: &Vec<AccountRecord>, active_id: Option<&str>, created_at: Timestamp)
    ensures
        final(cache).storage_view() == old(cache).storage_view(),
        final(cache).file_storage() == old(cache).file_storage(),
        final(cache).accounts_view() == records_applied(old(cache).accounts_view(), records@, opt_text(active_id), created_at),
{
    let mut i: usize = 0;
    while i < records.len()
        invariant
            i <= records.len(),
            cache.storage_view() == old(cache).storage_view(),
            cache.file_storage() == old(cache).file_storage(),
            cache.accounts_view() == records_applied(
                old(cache).accounts_view(),
                records@.subrange(0, i as int),
                opt_text(active_id),
                created_at,
            ),
        decreases records.len() - i,
    {
        assert(records@.subrange(0, i + 1).drop_last() == records@.subrange(0, i as int));
        let rec = &records[i];
        match (&rec.id, &rec.name, &rec.endpoint, &rec.access_key_id) {
            (Some(id), Some(name), Some(endpoint), Some(access_key_id)) => {
                let a = Account {
                    id: id.clone(),
                    name: name.clone(),
                    endpoint: endpoint.clone(),
                    access_key_id: access_key_id.clone(),
                    created_at,
                    is_active: is_active_id(id.as_str(), active_id),
                };
                cache.insert_account(a);
            },
            _ => {},
        }
        i = i + 1;
    }
    assert(records@.subrange(0, records.len() as int) == records@);
}

/// After an account is made active it is the only active account, and
/// every account keeps its other fields.
pub proof fn lemma_single_active(accounts: Map<Seq<char>, Account>, id: Seq<char>)
    requires
        accounts.dom().contains(id),
    ensures
        ({
            let after = accounts.map_values(deactivate_fn()).insert(id, Account { is_active: true, ..accounts[id] });
            &&& after.dom() == accounts.dom()
            &&& forall|k: Seq<char>| #[trigger] after.dom().contains(k) ==> (after[k].is_active <==> k == id)
            &&& forall|k: Seq<char>| #[trigger] after.dom().contains(k) ==> after[k] == Account {
                is_active: after[k].is_active,
                ..accounts[k]
            }
        }),
{
    let after = accounts.map_values(deactivate_fn()).insert(id, Account { is_active: true, ..accounts[id] });
    assert(after.dom() =~= accounts.dom());
}

} // verus!
