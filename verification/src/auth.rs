//! The authentication flow: registration with salted password hashing,
//! credential verification, and bearer-token issuance.
//!
//! Password hashing and verification come from the bcrypt crate, token
//! signing from the jsonwebtoken crate, and the clock from chrono; each is
//! called through one trusted item whose contract names what the call
//! returns. Everything decided about those results is verified.

use vstd::prelude::*;
use crate::errors::{ApiError, ApiErrorModel};
use crate::store::{Store, StoreModel, distinct_ints, user_models};
use crate::user::{Claims, LoginResponse, User, UserModel, UserResponse, UserResponseModel};

verus! {

/// What bcrypt's verification returns for a password and a hash text: it
/// is deterministic, since the salt and cost are read back out of the hash
/// text itself.
pub uninterp spec fn bcrypt_verifies(password: Seq<char>, hash: Seq<char>) -> bool;

/// Whether bcrypt's verification accepts a hash text at all: sixty ASCII
/// characters with a known prefix, an in-range cost and valid base64. It
/// depends on the hash text alone, never on the password checked.
pub uninterp spec fn hash_parses(hash: Seq<char>) -> bool;

/// What jsonwebtoken's encoding returns for the claim fields and the
/// signing secret: deterministic, since the payload is a fixed shape over
/// the fields and the HMAC signature is a function of payload and secret.
pub uninterp spec fn token_of(sub: int, username: Seq<char>, exp: int, secret: Seq<char>) -> Seq<
    char,
>;

/// Relies on bcrypt::hash at the crate's default cost. The salt is drawn
/// from the operating system, so nothing is assumed of the hash text
/// beyond what the source shows of every outcome: the text it formats is
/// exactly what verification parses back (sixty ASCII characters, cost
/// twelve), and verification recomputes the hash from the salt and cost
/// embedded in that text, so a hash that comes back verifies the password
/// it was made from.
#[verifier::external_body]
fn bcrypt_hash(password: &String) -> (r: Option<String>)
    ensures
        r matches Option::Some(h) ==> bcrypt_verifies(password@, h@) && hash_parses(h@)
            && h@.len() == 60,
{
    bcrypt::hash(password.as_str(), bcrypt::DEFAULT_COST).ok()
}

/// Relies on bcrypt::verify: whether the password matches the hash text,
/// a deterministic function of the two. The call fails exactly where the
/// hash text itself is rejected (wrong length or prefix, out-of-range
/// cost, bad base64); every failure path reads the hash text alone, never
/// the password.
#[verifier::external_body]
fn bcrypt_check(password: &String, hash: &String) -> (r: Option<bool>)
    ensures
        (r is Some) == hash_parses(hash@),
        r matches Option::Some(b) ==> b == bcrypt_verifies(password@, hash@),
{
    bcrypt::verify(password.as_str(), hash.as_str()).ok()
}

/// Relies on jsonwebtoken::encode with the default header (HS256): the
/// claims go out as an object with the fields sub, username and exp, and
/// the result is a deterministic function of those fields and the secret.
/// For this header and a plain secret key the call cannot fail: HMAC
/// takes keys of any length, and serializing the fixed payload shape
/// cannot error, so the encoding always comes back.
#[verifier::external_body]
fn encode_token(claims: &Claims, secret: &String) -> (r: Option<String>)
    ensures
        r is Some,
        r matches Option::Some(t) ==> t@ == token_of(
            claims.sub as int,
            claims.username@,
            claims.exp as int,
            secret@,
        ),
{
    let mut payload = serde_json::Map::new();
    payload.insert("sub".to_string(), serde_json::Value::from(claims.sub));
    payload.insert("username".to_string(), serde_json::Value::from(claims.username.as_str()));
    payload.insert("exp".to_string(), serde_json::Value::from(claims.exp));
    jsonwebtoken::encode(
        &jsonwebtoken::Header::default(),
        &serde_json::Value::Object(payload),
        &jsonwebtoken::EncodingKey::from_secret(secret.as_bytes()),
    )
    .ok()
}

/// Relies on chrono::Utc::now: the current UTC instant as seconds since
/// the epoch. Nothing is assumed of the value.
#[verifier::external_body]
fn current_timestamp() -> (r: i64) {
    chrono::Utc::now().timestamp()
}

/// The model of the one failure reported for any bad credential pair.
pub open spec fn spec_auth_failure() -> ApiErrorModel {
    ApiErrorModel::Auth("Invalid username or password"@)
}

/// The failure reported for any bad credential pair: one fixed value,
/// whether the username was unknown or the password wrong, so the two
/// cases cannot be told apart.
pub fn auth_failure() -> (r: ApiError)
    ensures
        r@ == spec_auth_failure(),
{
    ApiError::AuthError(String::from_str("Invalid username or password"))
}

/// Builds the claims a token carries for an account: the account's id and
/// username as the subject, expiring a full lifetime after `now`.
pub fn make_claims(user: &User, now: i64, ttl: i64) -> (r: Claims)
    requires
        0 < ttl,
        now + ttl <= i64::MAX,
    ensures
        r@.sub == user@.id,
        r@.username == user@.username,
        r@.exp == now + ttl,
        r@.exp > now,
{
    Claims { sub: user.id, username: user.username.clone(), exp: now + ttl }
}

/// Issues the signed bearer token for an account: claims built by
/// [`make_claims`], signed with the configured secret. Fails only where
/// the signer does.
pub fn issue(user: &User, now: i64, ttl: i64, secret: &String) -> (r: Result<String, ApiError>)
    requires
        0 < ttl,
        now + ttl <= i64::MAX,
    ensures
        r is Ok,
        r matches Result::Ok(t) ==> t@ == token_of(user@.id, user@.username, now + ttl, secret@),
{
    let claims = make_claims(user, now, ttl);
    match encode_token(&claims, secret) {
        Option::Some(t) => Result::Ok(t),
        Option::None => Result::Err(
            ApiError::InternalError(String::from_str("Failed to generate token")),
        ),
    }
}

/// Checks a password against one account and, where it matches, issues the
/// token and the account's public identity. Any credential mismatch yields
/// the one fixed authentication failure.
pub fn login_user(user: &User, password: &String, now: i64, ttl: i64, secret: &String) -> (r:
    Result<LoginResponse, ApiError>)
    requires
        0 < ttl,
        now + ttl <= i64::MAX,
    ensures
        hash_parses(user@.password_hash) && bcrypt_verifies(password@, user@.password_hash)
            ==> r is Ok,
        !bcrypt_verifies(password@, user@.password_hash) ==> (r matches Result::Err(e)
            && e@ == spec_auth_failure()),
        r matches Result::Ok(resp) ==> bcrypt_verifies(password@, user@.password_hash)
            && resp@.token == token_of(user@.id, user@.username, now + ttl, secret@)
            && resp@.user == (UserResponseModel {
            id: user@.id,
            username: user@.username,
            email: user@.email,
        }),
        r matches Result::Err(e) ==> e@ == spec_auth_failure(),
{
    let ok = match bcrypt_check(password, &user.password_hash) {
        Option::Some(b) => b,
        Option::None => false,
    };
    if !ok {
        return Result::Err(auth_failure());
    }
    let token = match issue(user, now, ttl, secret) {
        Result::Ok(t) => t,
        Result::Err(e) => {
            return Result::Err(e);
        },
    };
    Result::Ok(
        LoginResponse {
            token,
            user: UserResponse {
                id: user.id,
                username: user.username.clone(),
                email: user.email.clone(),
            },
        },
    )
}

/// Hashes a password for storage: a salted, one-way hash that verifies
/// the password it was made from and that later verification accepts.
/// Fails only where the hasher does (the salt comes from the operating
/// system's entropy).
pub fn hash_for_storage(password: &String) -> (r: Result<String, ApiError>)
    ensures
        r matches Result::Ok(h) ==> bcrypt_verifies(password@, h@) && hash_parses(h@)
            && h@.len() == 60,
        r matches Result::Err(e) ==> e@ == ApiErrorModel::Internal(
            "Failed to hash password"@,
        ),
{
    match bcrypt_hash(password) {
        Option::Some(h) => Result::Ok(h),
        Option::None => Result::Err(
            ApiError::InternalError(String::from_str("Failed to hash password")),
        ),
    }
}

impl StoreModel {
    /// Whether some account holds this username.
    pub open spec fn has_username(self, username: Seq<char>) -> bool {
        exists|i: int|
            0 <= i < self.users.len() && (#[trigger] self.users[i]).username == username
    }

    /// The account holding this username, where one exists.
    pub open spec fn spec_user_by_name(self, username: Seq<char>) -> UserModel {
        self.users[choose|i: int|
            0 <= i < self.users.len() && (#[trigger] self.users[i]).username == username]
    }

    /// Whether some account already holds this username or this email
    /// (case-sensitive exact match).
    pub open spec fn has_conflict(self, username: Seq<char>, email: Seq<char>) -> bool {
        exists|i: int|
            0 <= i < self.users.len() && ((#[trigger] self.users[i]).username == username
                || self.users[i].email == email)
    }

    /// The greatest account id, or zero where there is no account.
    pub open spec fn spec_max_user_id(self) -> int {
        spec_max_id(self.users)
    }
}

/// The greatest id among the rows, or zero where there are none.
pub open spec fn spec_max_id(users: Seq<UserModel>) -> int
    decreases users.len(),
{
    if users.len() == 0 {
        0
    } else {
        let m = spec_max_id(users.drop_last());
        if users.last().id > m {
            users.last().id
        } else {
            m
        }
    }
}

/// Every row's id is at most the table's greatest id, which is at least
/// zero.
pub proof fn lemma_max_id_ge(users: Seq<UserModel>, i: int)
    requires
        0 <= i < users.len(),
    ensures
        users[i].id <= spec_max_id(users),
        spec_max_id(users) >= 0,
    decreases users.len(),
{
    if i + 1 < users.len() {
        lemma_max_id_ge(users.drop_last(), i);
    } else if users.len() > 1 {
        lemma_max_id_ge(users.drop_last(), 0);
    }
}

impl Store {
    /// The index of the account holding this username, where one exists.
    fn find_user_index(&self, username: &String) -> (r: Option<usize>)
        ensures
            match r {
                Option::Some(ix) => ix < self.users@.len() && self@.users[ix as int].username
                    == username@,
                Option::None => !self@.has_username(username@),
            },
    {
        let mut i: usize = 0;
        while i < self.users.len()
            invariant
                0 <= i <= self.users.len(),
                forall|j: int|
                    0 <= j < i ==> (#[trigger] self@.users[j]).username != username@,
            decreases self.users.len() - i,
        {
            if self.users[i].username == *username {
                return Option::Some(i);
            }
            i += 1;
        }
        Option::None
    }

    /// The greatest account id, or zero where there is no account.
    fn max_user_id(&self) -> (r: i32)
        ensures
            r as int == self@.spec_max_user_id(),
    {
        let mut mx: i32 = 0;
        let mut i: usize = 0;
        while i < self.users.len()
            invariant
                0 <= i <= self.users.len(),
                mx as int == spec_max_id(self@.users.take(i as int)),
            decreases self.users.len() - i,
        {
            proof {
                assert(self@.users.take(i + 1).drop_last() =~= self@.users.take(i as int));
                assert(self@.users.take(i + 1).last() == self@.users[i as int]);
            }
            if self.users[i].id > mx {
                mx = self.users[i].id;
            }
            i += 1;
        }
        proof {
            assert(self@.users.take(self.users@.len() as int) =~= self@.users);
        }
        mx
    }

    /// Whether some account already holds this username or this email.
    fn conflict_exists(&self, username: &String, email: &String) -> (r: bool)
        ensures
            r == self@.has_conflict(username@, email@),
    {
        let mut i: usize = 0;
        while i < self.users.len()
            invariant
                0 <= i <= self.users.len(),
                forall|j: int|
                    0 <= j < i ==> !((#[trigger] self@.users[j]).username == username@
                        || self@.users[j].email == email@),
            decreases self.users.len() - i,
        {
            if self.users[i].username == *username || self.users[i].email == *email {
                proof {
                    let ii = i as int;
                    assert(self@.users[ii].username == username@ || self@.users[ii].email
                        == email@);
                }
                return true;
            }
            i += 1;
        }
        false
    }

    /// Inserts a new account with an already-computed password hash. The
    /// store itself is the source of truth for uniqueness: the insert is
    /// refused exactly where the username or email is already taken, and
    /// otherwise succeeds whenever an id is free, with the fresh id one
    /// above the greatest in use.
    pub fn insert_user(
        &mut self,
        username: String,
        email: String,
        password_hash: String,
        now: i64,
    ) -> (r: Result<UserResponse, ApiError>)
        requires
            old(self)@.wf(),
        ensures
            final(self)@.wf(),
            final(self)@.scenarios == old(self)@.scenarios,
            final(self)@.publishers == old(self)@.publishers,
            final(self)@.regions == old(self)@.regions,
            final(self)@.stakeholders == old(self)@.stakeholders,
            final(self)@.sectors == old(self)@.sectors,
            final(self)@.scenario_regions == old(self)@.scenario_regions,
            final(self)@.scenario_stakeholders == old(self)@.scenario_stakeholders,
            final(self)@.scenario_sectors == old(self)@.scenario_sectors,
            (r is Ok) == (!old(self)@.has_conflict(username@, email@) && old(
                self,
            )@.spec_max_user_id() < i32::MAX),
            r matches Result::Ok(u) ==> u@.username == username@ && u@.email == email@ && u@.id
                == old(self)@.spec_max_user_id() + 1 && final(self)@.users == old(
                self,
            )@.users.push(
                UserModel {
                    id: u@.id,
                    username: username@,
                    email: email@,
                    password_hash: password_hash@,
                    created_at: now as int,
                    updated_at: now as int,
                },
            ),
            r matches Result::Err(_) ==> final(self)@.users == old(self)@.users,
            old(self)@.has_conflict(username@, email@) <==> (r matches Result::Err(e)
                && e@ == ApiErrorModel::BadRequest("Username or email already exists"@)),
            r matches Result::Err(e) ==> e@ == ApiErrorModel::BadRequest(
                "Username or email already exists"@,
            ) || e@ == ApiErrorModel::Db("User id space exhausted"@),
    {
        if self.conflict_exists(&username, &email) {
            return Result::Err(
                ApiError::BadRequestError(String::from_str("Username or email already exists")),
            );
        }
        proof {
            assert forall|j: int| 0 <= j < self@.users.len() implies !((
            #[trigger] self@.users[j]).username == username@ || self@.users[j].email == email@) by {
                if self@.users[j].username == username@ || self@.users[j].email == email@ {
                    assert(self@.has_conflict(username@, email@));
                }
            }
        }
        let mx = self.max_user_id();
        if mx == i32::MAX {
            return Result::Err(ApiError::DbError(String::from_str("User id space exhausted")));
        }
        proof {
            if self.users@.len() > 0 {
                lemma_max_id_ge(self@.users, 0);
            }
        }
        let user = User {
            id: mx + 1,
            username,
            email,
            password_hash,
            created_at: now,
            updated_at: now,
        };
        let ghost um = user@;
        let response = UserResponse {
            id: user.id,
            username: user.username.clone(),
            email: user.email.clone(),
        };
        let ghost before = self@;
        self.users.push(user);
        proof {
            assert(user_models(self.users@) =~= before.users.push(um));
            assert forall|a: int| 0 <= a < before.users.len() implies (#[trigger] before.users[a]).id
                <= before.spec_max_user_id() by {
                lemma_max_id_ge(before.users, a);
            }
            assert(distinct_ints(self@.user_ids())) by {
                assert forall|a: int, b: int|
                    0 <= a < b < self@.user_ids().len() implies #[trigger] self@.user_ids()[a]
                    != #[trigger] self@.user_ids()[b] by {
                    if b < before.users.len() {
                        assert(before.user_ids()[a] == self@.user_ids()[a]);
                        assert(before.user_ids()[b] == self@.user_ids()[b]);
                    } else {
                        assert(self@.user_ids()[b] == um.id);
                        assert(before.users[a].id <= before.spec_max_user_id());
                        assert(self@.user_ids()[a] == before.users[a].id);
                    }
                }
            }
        }
        Result::Ok(response)
    }

    /// Registration: refused with the duplicate error where the username or
    /// email is already taken; otherwise the password is hashed (salted,
    /// one-way) and a new account is stored, and the caller gets back the
    /// public identity — never the password nor the hash.
    pub fn register(&mut self, username: String, email: String, password: &String, now: i64) -> (r:
        Result<UserResponse, ApiError>)
        requires
            old(self)@.wf(),
        ensures
            final(self)@.wf(),
            final(self)@.scenarios == old(self)@.scenarios,
            final(self)@.publishers == old(self)@.publishers,
            final(self)@.regions == old(self)@.regions,
            final(self)@.stakeholders == old(self)@.stakeholders,
            final(self)@.sectors == old(self)@.sectors,
            final(self)@.scenario_regions == old(self)@.scenario_regions,
            final(self)@.scenario_stakeholders == old(self)@.scenario_stakeholders,
            final(self)@.scenario_sectors == old(self)@.scenario_sectors,
            old(self)@.has_conflict(username@, email@) <==> (r matches Result::Err(e)
                && e@ == ApiErrorModel::BadRequest("Username or email already exists"@)),
            r matches Result::Err(_) ==> final(self)@.users == old(self)@.users,
            r matches Result::Ok(u) ==> !old(self)@.has_conflict(username@, email@)
                && u@.username == username@ && u@.email == email@ && u@.id == old(
                self,
            )@.spec_max_user_id() + 1 && final(self)@.users.len() == old(self)@.users.len() + 1
                && final(self)@.users.last() == (UserModel {
                id: u@.id,
                username: username@,
                email: email@,
                password_hash: final(self)@.users.last().password_hash,
                created_at: now as int,
                updated_at: now as int,
            }) && bcrypt_verifies(password@, final(self)@.users.last().password_hash)
                && hash_parses(final(self)@.users.last().password_hash)
                && final(self)@.users.last().password_hash.len() == 60,
            r matches Result::Err(e) ==> e@ == ApiErrorModel::BadRequest(
                "Username or email already exists"@,
            ) || e@ == ApiErrorModel::Internal("Failed to hash password"@) || e@
                == ApiErrorModel::Db("User id space exhausted"@),
    {
        if self.conflict_exists(&username, &email) {
            return Result::Err(
                ApiError::BadRequestError(String::from_str("Username or email already exists")),
            );
        }
        let hash = match hash_for_storage(password) {
            Result::Ok(h) => h,
            Result::Err(e) => {
                return Result::Err(e);
            },
        };
        self.insert_user(username, email, hash, now)
    }

    /// Credential verification: finds the account by username and checks
    /// the password against its stored hash. An unknown username and a
    /// wrong password yield the very same failure value, so the two
    /// cannot be told apart.
    pub fn verify(&self, username: &String, password: &String) -> (r: Result<User, ApiError>)
        requires
            self@.wf(),
        ensures
            self@.has_username(username@) && hash_parses(
                self@.spec_user_by_name(username@).password_hash,
            ) && bcrypt_verifies(
                password@,
                self@.spec_user_by_name(username@).password_hash,
            ) ==> r is Ok,
            !self@.has_username(username@) ==> (r matches Result::Err(e) && e@
                == spec_auth_failure()),
            self@.has_username(username@) && !bcrypt_verifies(
                password@,
                self@.spec_user_by_name(username@).password_hash,
            ) ==> (r matches Result::Err(e) && e@ == spec_auth_failure()),
            r matches Result::Ok(u) ==> self@.has_username(username@) && u@
                == self@.spec_user_by_name(username@) && bcrypt_verifies(
                password@,
                u@.password_hash,
            ),
            r matches Result::Err(e) ==> e@ == spec_auth_failure(),
    {
        let ix = match self.find_user_index(username) {
            Option::Some(ix) => ix,
            Option::None => {
                return Result::Err(auth_failure());
            },
        };
        let user = &self.users[ix];
        proof {
            assert(self@.users[ix as int].username == username@);
            assert(self@.has_username(username@));
            let w = choose|k: int|
                0 <= k < self@.users.len() && (#[trigger] self@.users[k]).username == username@;
            if w < ix as int {
                assert(self@.users[w].username != self@.users[ix as int].username);
            }
            if (ix as int) < w {
                assert(self@.users[ix as int].username != self@.users[w].username);
            }
            assert(self@.spec_user_by_name(username@) == self@.users[ix as int]);
        }
        let ok = match bcrypt_check(password, &user.password_hash) {
            Option::Some(b) => b,
            Option::None => false,
        };
        if ok {
            Result::Ok(user.clone())
        } else {
            Result::Err(auth_failure())
        }
    }

    /// Login: finds the account by username, checks the password against
    /// its stored hash, and issues a token expiring a full lifetime after
    /// `now`. An unknown username and a wrong password yield the very same
    /// failure value, so the two cannot be told apart.
    pub fn login(&self, username: &String, password: &String, now: i64, ttl: i64, secret: &String)
        -> (r: Result<LoginResponse, ApiError>)
        requires
            self@.wf(),
            0 < ttl,
            now + ttl <= i64::MAX,
        ensures
            self@.has_username(username@) && hash_parses(
                self@.spec_user_by_name(username@).password_hash,
            ) && bcrypt_verifies(
                password@,
                self@.spec_user_by_name(username@).password_hash,
            ) ==> r is Ok,
            !self@.has_username(username@) ==> (r matches Result::Err(e) && e@
                == spec_auth_failure()),
            self@.has_username(username@) && !bcrypt_verifies(
                password@,
                self@.spec_user_by_name(username@).password_hash,
            ) ==> (r matches Result::Err(e) && e@ == spec_auth_failure()),
            r matches Result::Ok(resp) ==> self@.has_username(username@) && bcrypt_verifies(
                password@,
                self@.spec_user_by_name(username@).password_hash,
            ) && resp@.token == token_of(
                self@.spec_user_by_name(username@).id,
                username@,
                now + ttl,
                secret@,
            ) && resp@.user == (UserResponseModel {
                id: self@.spec_user_by_name(username@).id,
                username: username@,
                email: self@.spec_user_by_name(username@).email,
            }),
            r matches Result::Err(e) ==> e@ == spec_auth_failure(),
    {
        let ix = match self.find_user_index(username) {
            Option::Some(ix) => ix,
            Option::None => {
                return Result::Err(auth_failure());
            },
        };
        let user = &self.users[ix];
        proof {
            assert(self@.users[ix as int].username == username@);
            assert(self@.has_username(username@));
            let w = choose|k: int|
                0 <= k < self@.users.len() && (#[trigger] self@.users[k]).username == username@;
            if w < ix as int {
                assert(self@.users[w].username != self@.users[ix as int].username);
            }
            if (ix as int) < w {
                assert(self@.users[ix as int].username != self@.users[w].username);
            }
            assert(self@.spec_user_by_name(username@) == self@.users[ix as int]);
        }
        login_user(user, password, now, ttl, secret)
    }

    /// Login at the clock's current time: the one entry point the route
    /// layer needs. The token expires a full lifetime after the instant
    /// the clock reads; should that instant not be representable, signing
    /// is reported failed rather than attempted.
    pub fn login_now(&self, username: &String, password: &String, ttl: i64, secret: &String) -> (r:
        Result<LoginResponse, ApiError>)
        requires
            self@.wf(),
            0 < ttl,
        ensures
            self@.has_username(username@) && hash_parses(
                self@.spec_user_by_name(username@).password_hash,
            ) && bcrypt_verifies(
                password@,
                self@.spec_user_by_name(username@).password_hash,
            ) ==> (r is Ok || (r matches Result::Err(e) && e@ == ApiErrorModel::Internal(
                "Failed to generate token"@,
            ))),
            r matches Result::Ok(resp) ==> self@.has_username(username@) && bcrypt_verifies(
                password@,
                self@.spec_user_by_name(username@).password_hash,
            ) && resp@.user == (UserResponseModel {
                id: self@.spec_user_by_name(username@).id,
                username: username@,
                email: self@.spec_user_by_name(username@).email,
            }),
            r matches Result::Err(e) ==> e@ == spec_auth_failure() || e@
                == ApiErrorModel::Internal("Failed to generate token"@),
    {
        let now = current_timestamp();
        if now <= i64::MAX - ttl {
            self.login(username, password, now, ttl, secret)
        } else {
            Result::Err(ApiError::InternalError(String::from_str("Failed to generate token")))
        }
    }

}

/// LAW: once a store holds an account, a registration naming its username
/// (with any email) or its email (with any username) is a conflict, and
/// [`Store::register`] refuses exactly the conflicting requests: the first
/// of two same-username or same-email registrations succeeds, the second
/// is refused with the duplicate error and changes nothing.
pub proof fn lemma_duplicate_registration_conflicts(
    m: StoreModel,
    i: int,
    username: Seq<char>,
    email: Seq<char>,
)
    requires
        0 <= i < m.users.len(),
        m.users[i].username == username || m.users[i].email == email,
    ensures
        m.has_conflict(username, email),
{
}

} // verus!
