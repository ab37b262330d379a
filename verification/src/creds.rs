//! Connection profiles and the rules for their keychain secrets.
//!
//! Profiles (without secrets) live in a JSON store; the S3 secret key and
//! the optional Cloudflare API token live in the OS keychain under
//! `s3:<profile id>` and `cf:<profile id>`.
use vstd::prelude::*;
use crate::error::AppError;
use crate::text::{chars_eq, chars_of, concat_chars, contains_chars, contains_seq, string_of};
use crate::transfer::copy_opt_string;

verus! {

/// The keychain service under which secrets are stored.
pub fn service() -> (r: &'static str)
    ensures
        r@ == "io.r2nova.app"@,
{
    "io.r2nova.app"
}

/// Which R2 jurisdiction (and so which S3 host) a profile uses.
#[derive(Clone, Copy, Debug, PartialEq, Eq, Structural)]
pub enum Jurisdiction {
    Default,
    Eu,
    Fedramp,
}

/// The S3 endpoint of an R2 account in a jurisdiction.
pub open spec fn spec_profile_endpoint(account_id: Seq<char>, jurisdiction: Jurisdiction) -> Seq<char> {
    let region = match jurisdiction {
        Jurisdiction::Default => ""@,
        Jurisdiction::Eu => ".eu"@,
        Jurisdiction::Fedramp => ".fedramp"@,
    };
    "https://"@ + account_id + region + ".r2.cloudflarestorage.com"@
}

/// The S3 endpoint a profile talks to: the account's host, under `eu.` or
/// `fedramp.` for those jurisdictions.
pub fn profile_endpoint(account_id: &str, jurisdiction: Jurisdiction) -> (r: String)
    ensures
        r@ == spec_profile_endpoint(account_id@, jurisdiction),
{
    let region = match jurisdiction {
        Jurisdiction::Default => "",
        Jurisdiction::Eu => ".eu",
        Jurisdiction::Fedramp => ".fedramp",
    };
    let host = concat_chars(&concat_chars(&chars_of("https://"), &chars_of(account_id)), &chars_of(region));
    string_of(&concat_chars(&host, &chars_of(".r2.cloudflarestorage.com")))
}

/// What a profile's tokens were found to allow.
#[derive(Clone, Copy, Debug, PartialEq, Eq, Structural)]
pub enum TokenCapability {
    Unknown,
    Admin,
    ObjectOnly,
}

/// A saved connection profile.
#[derive(Clone, Debug)]
pub struct Profile {
    pub id: String,
    pub name: String,
    pub account_id: String,
    pub access_key_id: String,
    pub jurisdiction: Jurisdiction,
    pub has_cf_token: bool,
    pub capability: TokenCapability,
    pub last_error: Option<String>,
}

impl Profile {
    /// A field-by-field copy.
    pub fn copy(&self) -> (r: Profile)
        ensures
            r == *self,
    {
        Profile {
            id: self.id.clone(),
            name: self.name.clone(),
            account_id: self.account_id.clone(),
            access_key_id: self.access_key_id.clone(),
            jurisdiction: self.jurisdiction,
            has_cf_token: self.has_cf_token,
            capability: self.capability,
            last_error: copy_opt_string(&self.last_error),
        }
    }
}

/// A new profile with the given fields, not yet probed.
pub fn build_profile(
    id: String,
    name: String,
    account_id: String,
    access_key_id: String,
    jurisdiction: Jurisdiction,
    has_cf_token: bool,
) -> (r: Profile)
    ensures
        r == (Profile {
            id,
            name,
            account_id,
            access_key_id,
            jurisdiction,
            has_cf_token,
            capability: TokenCapability::Unknown,
            last_error: None,
        }),
{
    Profile {
        id,
        name,
        account_id,
        access_key_id,
        jurisdiction,
        has_cf_token,
        capability: TokenCapability::Unknown,
        last_error: None,
    }
}

/// The position of the first profile with id `id`.
pub open spec fn first_with_id(s: Seq<Profile>, id: Seq<char>) -> Option<int> {
    if exists|i: int| 0 <= i < s.len() && s[i].id@ == id {
        Some(choose|i: int| 0 <= i < s.len() && s[i].id@ == id && forall|j: int| 0 <= j < i ==> s[j].id@ != id)
    } else {
        None
    }
}

/// A profile with id `id` at `k` means there is a first one.
proof fn lemma_first_exists(s: Seq<Profile>, id: Seq<char>, k: int)
    requires
        0 <= k < s.len(),
        s[k].id@ == id,
    ensures
        exists|i: int| 0 <= i < s.len() && s[i].id@ == id && forall|j: int| 0 <= j < i ==> s[j].id@ != id,
    decreases k,
{
    if exists|j: int| 0 <= j < k && s[j].id@ == id {
        let j = choose|j: int| 0 <= j < k && s[j].id@ == id;
        lemma_first_exists(s, id, j);
    }
}

/// What `first_with_id` gives: the first position holding `id`, or none
/// when no profile has it.
pub proof fn lemma_first_with_id(s: Seq<Profile>, id: Seq<char>)
    ensures
        match first_with_id(s, id) {
            Some(i) => 0 <= i < s.len() && s[i].id@ == id && forall|j: int| 0 <= j < i ==> s[j].id@ != id,
            None => forall|j: int| 0 <= j < s.len() ==> s[j].id@ != id,
        },
{
    if exists|i: int| 0 <= i < s.len() && s[i].id@ == id {
        let k = choose|i: int| 0 <= i < s.len() && s[i].id@ == id;
        lemma_first_exists(s, id, k);
    }
}

/// The profiles after saving `p`: it replaces the first profile with its
/// id, or is appended when there is none.
pub open spec fn spec_upsert(s: Seq<Profile>, p: Profile) -> Seq<Profile> {
    match first_with_id(s, p.id@) {
        Some(i) => s.update(i, p),
        None => s.push(p),
    }
}

/// The profile `get` finds for `id`.
pub open spec fn spec_find(s: Seq<Profile>, id: Seq<char>) -> Option<Profile> {
    match first_with_id(s, id) {
        Some(i) => Some(s[i]),
        None => None,
    }
}

/// The error for an unknown profile id.
pub open spec fn is_missing_profile(e: AppError, id: Seq<char>) -> bool {
    e matches AppError::NotFound(m) && m@ == "profile "@ + id
}

/// The saved profiles, in the order they were added.
pub struct ProfileStore {
    profiles: Vec<Profile>,
}

impl ProfileStore {
    /// The profiles of the store.
    pub closed spec fn view(&self) -> Seq<Profile> {
        self.profiles@
    }

    /// A store holding `profiles`, as read from disk.
    pub fn from_profiles(profiles: Vec<Profile>) -> (r: ProfileStore)
        ensures
            r@ == profiles@,
    {
        ProfileStore { profiles }
    }

    /// An empty store.
    pub fn empty() -> (r: ProfileStore)
        ensures
            r@ == Seq::<Profile>::empty(),
    {
        ProfileStore { profiles: Vec::new() }
    }

    /// The position of the first profile with id `id`.
    fn position(&self, id: &str) -> (r: Option<usize>)
        ensures
            match r {
                Some(i) => first_with_id(self@, id@) == Some(i as int) && i < self@.len(),
                None => first_with_id(self@, id@) is None,
            },
    {
        proof {
            lemma_first_with_id(self@, id@);
        }
        let ids = chars_of(id);
        let mut i: usize = 0;
        while i < self.profiles.len()
            invariant
                i <= self.profiles.len(),
                ids@ == id@,
                forall|j: int| 0 <= j < i ==> self.profiles@[j].id@ != id@,
            decreases self.profiles.len() - i,
        {
            if chars_eq(&chars_of(self.profiles[i].id.as_str()), &ids) {
                proof {
                    let s = self.profiles@;
                    assert(s[i as int].id@ == id@);
                    let w = choose|k: int| 0 <= k < s.len() && s[k].id@ == id@ && forall|j: int| 0 <= j < k ==> s[j].id@ != id@;
                    assert(0 <= w < s.len() && s[w].id@ == id@ && forall|j: int| 0 <= j < w ==> s[j].id@ != id@);
                    if w < i {
                        assert(s[w].id@ != id@);
                    }
                    if i < w {
                        assert(s[i as int].id@ != id@);
                    }
                }
                return Some(i);
            }
            i = i + 1;
        }
        proof {
            if first_with_id(self.profiles@, id@) is Some {
                let k = first_with_id(self.profiles@, id@).unwrap();
                assert(self.profiles@[k].id@ == id@);
            }
        }
        None
    }

    /// Every profile, in order.
    pub fn list(&self) -> (r: Vec<Profile>)
        ensures
            r@ == self@,
    {
        let mut r: Vec<Profile> = Vec::new();
        let mut i: usize = 0;
        while i < self.profiles.len()
            invariant
                i <= self.profiles.len(),
                r@ == self.profiles@.subrange(0, i as int),
            decreases self.profiles.len() - i,
        {
            r.push(self.profiles[i].copy());
            i = i + 1;
        }
        assert(self.profiles@.subrange(0, self.profiles.len() as int) == self.profiles@);
        r
    }

    /// The first profile with id `id`, or `NotFound("profile <id>")`.
    pub fn get(&self, id: &str) -> (r: Result<Profile, AppError>)
        ensures
            match spec_find(self@, id@) {
                Some(p) => r == Ok::<Profile, AppError>(p),
                None => r matches Err(e) && is_missing_profile(e, id@),
            },
    {
        match self.position(id) {
            Some(i) => Ok(self.profiles[i].copy()),
            None => Err(AppError::NotFound(string_of(&concat_chars(&chars_of("profile "), &chars_of(id))))),
        }
    }

    /// Saves `profile`, replacing the first profile with its id.
    pub fn upsert(&mut self, profile: Profile)
        ensures
            final(self)@ == spec_upsert(old(self)@, profile),
    {
        match self.position(profile.id.as_str()) {
            Some(i) => {
                self.profiles.set(i, profile);
            },
            None => {
                self.profiles.push(profile);
            },
        }
    }

    /// Removes and returns the first profile with id `id`, or
    /// `NotFound("profile <id>")` with nothing changed.
    pub fn remove(&mut self, id: &str) -> (r: Result<Profile, AppError>)
        ensures
            match first_with_id(old(self)@, id@) {
                Some(i) => 0 <= i < old(self)@.len() && r == Ok::<Profile, AppError>(old(self)@[i]) && final(self)@ == old(self)@.remove(i),
                None => (r matches Err(e) && is_missing_profile(e, id@)) && final(self)@ == old(self)@,
            },
    {
        match self.position(id) {
            Some(i) => Ok(self.profiles.remove(i)),
            None => Err(AppError::NotFound(string_of(&concat_chars(&chars_of("profile "), &chars_of(id))))),
        }
    }
}

impl Default for ProfileStore {
    /// An empty store.
    fn default() -> (r: ProfileStore)
        ensures
            r@ == Seq::<Profile>::empty(),
    {
        ProfileStore { profiles: Vec::new() }
    }
}

/// After saving a profile, looking up its id finds it.
pub proof fn lemma_get_after_upsert(s: Seq<Profile>, p: Profile)
    ensures
        spec_find(spec_upsert(s, p), p.id@) == Some(p),
{
    lemma_first_with_id(s, p.id@);
    let u = spec_upsert(s, p);
    lemma_first_with_id(u, p.id@);
    match first_with_id(s, p.id@) {
        Some(i) => {
            assert(u[i] == p);
            assert(forall|j: int| 0 <= j < i ==> u[j] == s[j]);
            let w = choose|k: int| 0 <= k < u.len() && u[k].id@ == p.id@ && forall|j: int| 0 <= j < k ==> u[j].id@ != p.id@;
            assert(exists|k: int| 0 <= k < u.len() && u[k].id@ == p.id@);
            if w < i {
                assert(s[w].id@ != p.id@);
            }
            if i < w {
                assert(u[i].id@ == p.id@);
            }
        },
        None => {
            let n = s.len() as int;
            assert(u[n] == p);
            assert(forall|j: int| 0 <= j < n ==> u[j] == s[j]);
            assert(exists|k: int| 0 <= k < u.len() && u[k].id@ == p.id@);
            let w = choose|k: int| 0 <= k < u.len() && u[k].id@ == p.id@ && forall|j: int| 0 <= j < k ==> u[j].id@ != p.id@;
            if w < n {
                assert(s[w].id@ == p.id@);
            }
        },
    }
}

/// Which secrets saving a profile writes, and whether it then has a
/// Cloudflare token.
#[derive(Clone, Copy, Debug, PartialEq, Eq, Structural)]
pub struct SecretPlan {
    /// Write the S3 secret key.
    pub store_s3: bool,
    /// Write the Cloudflare API token.
    pub store_cf: bool,
    /// The profile has a Cloudflare token afterwards.
    pub has_cf_token: bool,
}

/// What saving the secrets of a profile does. A new profile needs an S3
/// secret; an update with an empty one keeps the keychain entry. A
/// non-empty Cloudflare token is written; without one an update keeps its
/// old state and a new profile has none.
pub open spec fn spec_secret_plan(existing: Option<Profile>, secret_access_key: Seq<char>, cf_api_token: Option<Seq<char>>) -> Result<SecretPlan, ()> {
    let updating = existing is Some;
    if secret_access_key.len() == 0 && !updating {
        Err(())
    } else {
        let store_s3 = secret_access_key.len() > 0;
        match cf_api_token {
            Some(t) if t.len() > 0 => Ok(SecretPlan { store_s3, store_cf: true, has_cf_token: true }),
            _ => Ok(SecretPlan { store_s3, store_cf: false, has_cf_token: updating && existing.unwrap().has_cf_token }),
        }
    }
}

/// Saving a profile writes every secret it is given and keeps the ones it
/// is not: a non-empty S3 secret is always stored, for new and existing
/// profiles alike; an empty one is refused for a new profile and leaves
/// the stored one of an existing profile alone; a non-empty Cloudflare
/// token is stored, and without one the profile keeps the token it had.
pub proof fn lemma_secret_plan_stores_given(
    existing: Option<Profile>,
    secret_access_key: Seq<char>,
    cf_api_token: Option<Seq<char>>,
)
    ensures
        ({
            let r = spec_secret_plan(existing, secret_access_key, cf_api_token);
            let given_cf = cf_api_token is Some && cf_api_token->Some_0.len() > 0;
            &&& secret_access_key.len() > 0 ==> r is Ok && r->Ok_0.store_s3
            &&& secret_access_key.len() == 0 ==> (r is Ok <==> existing is Some) && (r is Ok ==> !r->Ok_0.store_s3)
            &&& r is Ok ==> (r->Ok_0.store_cf <==> given_cf)
            &&& r is Ok && given_cf ==> r->Ok_0.has_cf_token
            &&& r is Ok && !given_cf ==> (r->Ok_0.has_cf_token <==> (existing is Some && existing->Some_0.has_cf_token))
        }),
{
}

/// Decides which secrets saving a profile writes (see `spec_secret_plan`).
/// A new profile without S3 secret is refused with `InvalidCredentials`.
pub fn secret_plan(existing: Option<&Profile>, secret_access_key: &str, cf_api_token: Option<&str>) -> (r: Result<SecretPlan, AppError>)
    ensures
        ({
            let ex = match existing {
                Some(p) => Some(*p),
                None => None,
            };
            let cf = match cf_api_token {
                Some(t) => Some(t@),
                None => None,
            };
            match spec_secret_plan(ex, secret_access_key@, cf) {
                Ok(plan) => r == Ok::<SecretPlan, AppError>(plan),
                Err(_) => r matches Err(AppError::InvalidCredentials(m)) && m@ == "Secret Access Key is required for a new account"@,
            }
        }),
        secret_access_key@.len() > 0 ==> r is Ok && r->Ok_0.store_s3,
{
    let updating = existing.is_some();
    let empty_secret = secret_access_key.unicode_len() == 0;
    if empty_secret && !updating {
        return Err(AppError::InvalidCredentials("Secret Access Key is required for a new account".to_owned()));
    }
    let store_s3 = !empty_secret;
    match cf_api_token {
        Some(t) => if t.unicode_len() > 0 {
            return Ok(SecretPlan { store_s3, store_cf: true, has_cf_token: true });
        },
        None => {},
    }
    let has_cf_token = match existing {
        Some(p) => p.has_cf_token,
        None => false,
    };
    Ok(SecretPlan { store_s3, store_cf: false, has_cf_token })
}

/// The keychain account name of a secret of kind `kind` (`s3` or `cf`).
pub fn secret_account(kind: &str, profile_id: &str) -> (r: String)
    ensures
        r@ == kind@ + ":"@ + profile_id@,
{
    string_of(&concat_chars(&concat_chars(&chars_of(kind), &chars_of(":")), &chars_of(profile_id)))
}

/// What `str::to_lowercase` gives for `s`.
pub uninterp spec fn spec_to_lowercase(s: Seq<char>) -> Seq<char>;

/// `s` in lower case.
///
/// Trusted: calls `str::to_lowercase`. The contract names the result as a
/// function of `s`; the Unicode case mapping is not restated.
#[verifier::external_body]
pub(crate) fn to_lowercase(s: &str) -> (r: String)
    ensures
        r@ == spec_to_lowercase(s@),
{
    s.to_lowercase()
}

/// A lower-cased keychain message says the entry was not there: it
/// mentions `not found` or `no matching`.
pub open spec fn spec_says_absent(lower: Seq<char>) -> bool {
    contains_seq(lower, "not found"@) || contains_seq(lower, "no matching"@)
}

/// A failed keychain delete counts as done when the entry was not there:
/// its message, lower-cased, mentions `not found` or `no matching`.
pub open spec fn spec_delete_is_absent(message: Seq<char>) -> bool {
    spec_says_absent(spec_to_lowercase(message))
}

/// Whether a lower-cased keychain message says the entry was not there.
pub fn says_absent(lower: &str) -> (r: bool)
    ensures
        r == spec_says_absent(lower@),
{
    let l = chars_of(lower);
    contains_chars(&l, &chars_of("not found")) || contains_chars(&l, &chars_of("no matching"))
}

/// The result of deleting a keychain secret, given the keychain's error
/// message when the delete failed.
pub fn delete_secret_result(failure: Option<String>) -> (r: Result<(), AppError>)
    ensures
        match failure {
            None => r is Ok,
            Some(m) => if spec_delete_is_absent(m@) {
                r is Ok
            } else {
                r matches Err(AppError::Keyring(k)) && k@ == m@
            },
        },
{
    match failure {
        None => Ok(()),
        Some(m) => {
            let lower = to_lowercase(m.as_str());
            if says_absent(lower.as_str()) {
                Ok(())
            } else {
                Err(AppError::Keyring(m))
            }
        },
    }
}

} // verus!
