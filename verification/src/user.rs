//! Users: roles and permissions, the checks made when an account is created,
//! changed or signs in, and the claims of a session token.
use vstd::prelude::*;
use vstd::string::*;
use vstd::utf8::encode_utf8;

use crate::text::{matches_word, same_word, texts};
use crate::time::Timestamp;

verus! {

/// Hours for which a session token stays valid.
pub const TOKEN_LIFETIME_HOURS: i64 = 24;

/// Shortest accepted password, in bytes.
pub const MIN_PASSWORD_BYTES: usize = 8;

// ----------------------------------------------------------------------------
// Trusted items
// ----------------------------------------------------------------------------

#[verifier::external_type_specification]
#[verifier::external_body]
pub struct ExBcryptError(bcrypt::BcryptError);

/// What `bcrypt::verify` says of `password` against the stored `hash`: whether they
/// match, or `None` where it rejects the hash.
pub uninterp spec fn bcrypt_verdict(password: Seq<char>, hash: Seq<char>) -> Option<bool>;

/// Calls `bcrypt::hash` with `bcrypt::DEFAULT_COST`. The salt is random, so the hash is
/// not named; what is claimed is the crate's documented use, that `bcrypt::verify`
/// accepts the password against the hash it produced.
#[verifier::external_body]
fn bcrypt_hash(password: &str) -> (r: Result<String, bcrypt::BcryptError>)
    ensures
        r matches Ok(h) ==> bcrypt_verdict(password@, h@) == Some(true),
{
    bcrypt::hash(password, bcrypt::DEFAULT_COST)
}

/// Calls `bcrypt::verify`. Claims that the result is the named verdict, `None` standing
/// for the crate's error.
#[verifier::external_body]
fn bcrypt_verify(password: &str, hash: &str) -> (r: Option<bool>)
    ensures
        r == bcrypt_verdict(password@, hash@),
{
    bcrypt::verify(password, hash).ok()
}

/// Renders a `bcrypt::BcryptError` with its `Display` impl. Nothing is claimed of the
/// text.
#[verifier::external_body]
fn bcrypt_error_text(e: &bcrypt::BcryptError) -> String {
    e.to_string()
}

/// The token that `jsonwebtoken::encode` writes with an HS256 header for the claims
/// `sub`, `exp` and `role` (a JSON object with those keys in that order) signed with the
/// key `secret`.
pub uninterp spec fn hs256_token(sub: Seq<char>, exp: u64, role: Seq<char>, secret: Seq<char>) -> Seq<
    char,
>;

/// The claims `sub`, `exp` and `role` that `jsonwebtoken::decode` with
/// `Validation::new(Algorithm::HS256)` and the key `secret` gives for `token` at an instant
/// before its expiry (with the minute's leeway): `None` where it refuses the token for a
/// reason other than expiry (malformed, another algorithm, a wrong signature, no `exp`,
/// an audience, or claims that are not a string, an unsigned integer and a string).
pub uninterp spec fn hs256_claims(token: Seq<char>, secret: Seq<char>) -> Option<
    (Seq<char>, u64, Seq<char>),
>;

/// Calls `jsonwebtoken::encode` with `Header::new(Algorithm::HS256)`, the claims as a
/// `serde_json::Map` of `sub`, `exp` and `role` (kept in that order), and
/// `EncodingKey::from_secret` of the secret's bytes. Claims that the token is the named
/// one, that encoding succeeds (the key's family matches the header's, serialising the
/// header and a map of strings cannot fail, and HMAC signing returns no error), and that
/// decoding the token with the same secret gives the claims back, which is what the
/// crate's `encode` and `decode` are made for.
#[verifier::external_body]
fn jwt_encode(sub: &str, exp: u64, role: &str, secret: &str) -> (t: String)
    ensures
        t@ == hs256_token(sub@, exp, role@, secret@),
        hs256_claims(t@, secret@) == Some((sub@, exp, role@)),
{
    let mut claims = serde_json::Map::new();
    claims.insert("sub".to_owned(), serde_json::Value::from(sub));
    claims.insert("exp".to_owned(), serde_json::Value::from(exp));
    claims.insert("role".to_owned(), serde_json::Value::from(role));
    let key = jsonwebtoken::EncodingKey::from_secret(secret.as_bytes());
    let header = jsonwebtoken::Header::new(jsonwebtoken::Algorithm::HS256);
    jsonwebtoken::encode(&header, &claims, &key).unwrap_or_default()
}

/// Calls `jsonwebtoken::decode` with `Validation::new(Algorithm::HS256)` (signature,
/// algorithm, and expiry against the current time with a minute's leeway) and
/// `DecodingKey::from_secret` of the secret's bytes, then takes the claims `sub`, `exp`
/// and `role` when they are a string, an unsigned integer and a string. Claims that what
/// it gives is the named claims of the token; whether an accepted token has expired
/// depends on the clock, so a token with named claims may still be refused.
#[verifier::external_body]
fn jwt_claims(token: &str, secret: &str) -> (r: Option<(String, u64, String)>)
    ensures
        r matches Some(c) ==> hs256_claims(token@, secret@) == Some((c.0@, c.1, c.2@)),
        hs256_claims(token@, secret@) is None ==> r is None,
{
    let key = jsonwebtoken::DecodingKey::from_secret(secret.as_bytes());
    let validation = jsonwebtoken::Validation::new(jsonwebtoken::Algorithm::HS256);
    let data = jsonwebtoken::decode::<serde_json::Map<String, serde_json::Value>>(token, &key, &validation);
    let mut claims = data.ok()?.claims;
    match (claims.remove("sub")?, claims.remove("exp")?, claims.remove("role")?) {
        (serde_json::Value::String(sub), serde_json::Value::Number(exp), serde_json::Value::String(role)) => {
            Some((sub, exp.as_u64()?, role))
        },
        _ => None,
    }
}

// ----------------------------------------------------------------------------
// Errors, roles and permissions
// ----------------------------------------------------------------------------

/// Why a user operation failed.
#[derive(Debug, PartialEq, Eq)]
pub enum UserError {
    NotFound,
    UsernameExists,
    EmailExists,
    InvalidCredentials,
    InvalidRole,
    PasswordTooShort,
    UserNotActive,
    Unauthorized,
    DatabaseError(String),
    JwtError(String),
    BcryptError(String),
}

/// The message shown for an error.
pub open spec fn user_error_message(e: UserError) -> Seq<char> {
    match e {
        UserError::NotFound => "User not found"@,
        UserError::UsernameExists => "Username already exists"@,
        UserError::EmailExists => "Email already exists"@,
        UserError::InvalidCredentials => "Invalid username or password"@,
        UserError::InvalidRole => "Invalid role"@,
        UserError::PasswordTooShort => "Password must be at least 8 characters"@,
        UserError::UserNotActive => "User is not active"@,
        UserError::Unauthorized => "Unauthorized"@,
        UserError::DatabaseError(s) => "Database error: "@ + s@,
        UserError::JwtError(s) => "JWT error: "@ + s@,
        UserError::BcryptError(s) => "BCrypt error: "@ + s@,
    }
}

fn prefixed(prefix: &str, detail: &String) -> (r: String)
    ensures
        r@ == prefix@ + detail@,
{
    let mut r = prefix.to_owned();
    r.append(detail.as_str());
    r
}

impl UserError {
    /// The message shown for the error.
    pub fn message(&self) -> (m: String)
        ensures
            m@ == user_error_message(*self),
    {
        match self {
            UserError::NotFound => "User not found".to_owned(),
            UserError::UsernameExists => "Username already exists".to_owned(),
            UserError::EmailExists => "Email already exists".to_owned(),
            UserError::InvalidCredentials => "Invalid username or password".to_owned(),
            UserError::InvalidRole => "Invalid role".to_owned(),
            UserError::PasswordTooShort => "Password must be at least 8 characters".to_owned(),
            UserError::UserNotActive => "User is not active".to_owned(),
            UserError::Unauthorized => "Unauthorized".to_owned(),
            UserError::DatabaseError(s) => prefixed("Database error: ", s),
            UserError::JwtError(s) => prefixed("JWT error: ", s),
            UserError::BcryptError(s) => prefixed("BCrypt error: ", s),
        }
    }
}

/// What a user may do, from least to most trusted.
#[derive(Debug, Clone, Copy, PartialEq, Eq, Structural)]
pub enum UserRole {
    Admin,
    Operator,
    Viewer,
}

/// Things a user may be allowed to do.
#[derive(Debug, Clone, Copy, PartialEq, Eq, Structural)]
pub enum Permission {
    View,
    ManageUsers,
    ManageDevices,
    Connect,
}

/// The stored name of a role.
pub open spec fn role_name(r: UserRole) -> Seq<char> {
    match r {
        UserRole::Admin => "admin"@,
        UserRole::Operator => "operator"@,
        UserRole::Viewer => "viewer"@,
    }
}

/// Whether the role grants the permission: everyone may view; an administrator may do
/// everything; an operator may also manage users (create and modify them), manage
/// devices and connect; a viewer may only view.
pub open spec fn grants(r: UserRole, p: Permission) -> bool {
    match (r, p) {
        (_, Permission::View) => true,
        (UserRole::Admin, _) => true,
        (UserRole::Operator, Permission::ManageDevices) => true,
        (UserRole::Operator, Permission::Connect) => true,
        (UserRole::Operator, Permission::ManageUsers) => true,
        (UserRole::Viewer, _) => false,
    }
}

/// The role a name denotes, letters compared without regard to case.
pub open spec fn named_role(s: Seq<char>) -> Option<UserRole> {
    if same_word(s, "admin"@) {
        Some(UserRole::Admin)
    } else if same_word(s, "operator"@) {
        Some(UserRole::Operator)
    } else if same_word(s, "viewer"@) {
        Some(UserRole::Viewer)
    } else {
        None
    }
}

impl UserRole {
    /// Reads a role from its name, letters compared without regard to case.
    pub fn parse(s: &str) -> (r: Result<UserRole, ()>)
        ensures
            match named_role(s@) {
                Some(role) => r == Ok::<UserRole, ()>(role),
                None => r == Err::<UserRole, ()>(()),
            },
    {
        if matches_word(s, "admin") {
            Ok(UserRole::Admin)
        } else if matches_word(s, "operator") {
            Ok(UserRole::Operator)
        } else if matches_word(s, "viewer") {
            Ok(UserRole::Viewer)
        } else {
            Err(())
        }
    }

    /// The stored name of the role.
    pub fn to_str(&self) -> (s: &'static str)
        ensures
            s@ == role_name(*self),
    {
        match self {
            UserRole::Admin => "admin",
            UserRole::Operator => "operator",
            UserRole::Viewer => "viewer",
        }
    }

    /// Whether the role grants the permission.
    pub fn has_permission(&self, permission: Permission) -> (b: bool)
        ensures
            b == grants(*self, permission),
    {
        match (self, permission) {
            (_, Permission::View) => true,
            (UserRole::Admin, _) => true,
            (UserRole::Operator, Permission::ManageDevices) => true,
            (UserRole::Operator, Permission::Connect) => true,
            (UserRole::Operator, Permission::ManageUsers) => true,
            (UserRole::Viewer, _) => false,
        }
    }
}

impl std::str::FromStr for UserRole {
    type Err = ();

    fn from_str(s: &str) -> (r: Result<UserRole, ()>)
        ensures
            match named_role(s@) {
                Some(role) => r == Ok::<UserRole, ()>(role),
                None => r == Err::<UserRole, ()>(()),
            },
    {
        UserRole::parse(s)
    }
}

/// Every role reads back from its own name.
pub proof fn lemma_role_names_read_back(r: UserRole)
    ensures
        named_role(role_name(r)) == Some(r),
{
    reveal_strlit("admin");
    reveal_strlit("operator");
    reveal_strlit("viewer");
    match r {
        UserRole::Admin => {
            assert(same_word(role_name(r), "admin"@));
        },
        UserRole::Operator => {
            assert(!same_word(role_name(r), "admin"@));
            assert(same_word(role_name(r), "operator"@));
        },
        UserRole::Viewer => {
            assert(!same_word(role_name(r), "admin"@));
            assert(!same_word(role_name(r), "operator"@));
            assert(same_word(role_name(r), "viewer"@));
        },
    }
}

/// Permissions grow with trust: what a viewer may do an operator may do, and what an
/// operator may do an administrator may do; every role may view; an operator may manage
/// users.
pub proof fn lemma_permissions_nest(p: Permission)
    ensures
        grants(UserRole::Viewer, p) ==> grants(UserRole::Operator, p),
        grants(UserRole::Operator, p) ==> grants(UserRole::Admin, p),
        grants(UserRole::Admin, p),
        grants(UserRole::Viewer, Permission::View),
        grants(UserRole::Viewer, p) <==> p == Permission::View,
        grants(UserRole::Operator, Permission::ManageUsers),
{
}

// ----------------------------------------------------------------------------
// Records and requests
// ----------------------------------------------------------------------------

/// A stored account.
#[derive(Debug)]
pub struct User {
    pub id: String,
    pub username: String,
    pub email: String,
    pub password_hash: String,
    pub role: UserRole,
    pub organization_id: Option<String>,
    pub created_at: Timestamp,
    pub last_login: Option<Timestamp>,
    pub is_active: bool,
}

/// What is shown of an account.
#[derive(Debug)]
pub struct UserInfo {
    pub id: String,
    pub username: String,
    pub email: String,
    pub role: String,
    pub organization_id: Option<String>,
}

impl Clone for UserInfo {
    fn clone(&self) -> (r: Self)
        ensures
            r == *self,
    {
        UserInfo {
            id: self.id.clone(),
            username: self.username.clone(),
            email: self.email.clone(),
            role: self.role.clone(),
            organization_id: match &self.organization_id {
                Some(o) => Some(o.clone()),
                None => None,
            },
        }
    }
}

impl UserInfo {
    /// What is shown of a stored account.
    pub fn from_user(user: User) -> (info: UserInfo)
        ensures
            info.id == user.id,
            info.username == user.username,
            info.email == user.email,
            info.role@ == role_name(user.role),
            info.organization_id == user.organization_id,
    {
        UserInfo {
            id: user.id,
            username: user.username,
            email: user.email,
            role: user.role.to_str().to_owned(),
            organization_id: user.organization_id,
        }
    }

    /// Whether the account holds the administrator role, as stored (case matters).
    pub fn is_admin(&self) -> (b: bool)
        ensures
            b == (self.role@ == "admin"@),
    {
        self.role == "admin".to_owned()
    }
}

/// A request to create an account.
#[derive(Debug)]
pub struct UserCreateRequest {
    pub username: String,
    pub email: String,
    pub password: String,
    pub role: String,
    pub organization_id: Option<String>,
}

/// A request to change an account; absent fields keep their value, except the active
/// flag, which an absent value sets.
#[derive(Debug)]
pub struct UserUpdateRequest {
    pub email: Option<String>,
    pub role: Option<String>,
    pub organization_id: Option<String>,
    pub is_active: Option<bool>,
}

/// A request to sign in.
#[derive(Debug)]
pub struct UserLoginRequest {
    pub username: String,
    pub password: String,
}

/// The answer to a successful sign-in.
#[derive(Debug)]
pub struct UserLoginResponse {
    pub token: String,
    pub user: UserInfo,
}

/// The values an update writes to an account.
#[derive(Debug)]
pub struct UserChanges {
    pub email: String,
    pub role: String,
    pub organization_id: Option<String>,
    pub is_active: bool,
}

/// The verdict on a creation request: too short a password (in bytes) comes first, then
/// an unknown role; otherwise the role it asks for.
pub open spec fn create_verdict(password: Seq<char>, role: Seq<char>) -> Result<UserRole, UserError> {
    if encode_utf8(password).len() < MIN_PASSWORD_BYTES {
        Err(UserError::PasswordTooShort)
    } else {
        match named_role(role) {
            Some(r) => Ok(r),
            None => Err(UserError::InvalidRole),
        }
    }
}

/// The verdict on an account that already uses the name or address asked for:
/// a clash of names comes first, then a clash of addresses.
pub open spec fn clash_verdict(
    username: Seq<char>,
    email: Seq<char>,
    existing: Option<(Seq<char>, Seq<char>)>,
) -> Result<(), UserError> {
    match existing {
        None => Ok(()),
        Some((u, e)) => if u == username {
            Err(UserError::UsernameExists)
        } else if e == email {
            Err(UserError::EmailExists)
        } else {
            Ok(())
        },
    }
}

impl UserCreateRequest {
    /// Checks the password length and the role, and returns the role.
    pub fn validate(&self) -> (r: Result<UserRole, UserError>)
        ensures
            r == create_verdict(self.password@, self.role@),
    {
        if self.password.as_str().as_bytes().len() < MIN_PASSWORD_BYTES {
            return Err(UserError::PasswordTooShort);
        }
        match UserRole::parse(self.role.as_str()) {
            Ok(role) => Ok(role),
            Err(()) => Err(UserError::InvalidRole),
        }
    }

    /// Checks the account found under the requested name or address, if any (its name
    /// and address as stored).
    pub fn check_clash(&self, existing: Option<(String, String)>) -> (r: Result<(), UserError>)
        ensures
            r == clash_verdict(
                self.username@,
                self.email@,
                match existing {
                    Some(p) => Some((p.0@, p.1@)),
                    None => None,
                },
            ),
    {
        match existing {
            None => Ok(()),
            Some((username, email)) => {
                if username == self.username {
                    Err(UserError::UsernameExists)
                } else if email == self.email {
                    Err(UserError::EmailExists)
                } else {
                    Ok(())
                }
            },
        }
    }

    /// What is shown of the account this request creates under `id` with `role`.
    pub fn into_info(self, id: String, role: UserRole) -> (info: UserInfo)
        ensures
            info.id == id,
            info.username == self.username,
            info.email == self.email,
            info.role@ == role_name(role),
            info.organization_id == self.organization_id,
    {
        UserInfo {
            id,
            username: self.username,
            email: self.email,
            role: role.to_str().to_owned(),
            organization_id: self.organization_id,
        }
    }
}

/// Hashes a password for storage. A failure of the hashing is reported as a database
/// error, as the account store reports it.
pub fn hash_password(password: &str) -> (r: Result<String, UserError>)
    ensures
        r matches Ok(h) ==> bcrypt_verdict(password@, h@) == Some(true),
        r matches Err(e) ==> e matches UserError::DatabaseError(_),
{
    match bcrypt_hash(password) {
        Ok(h) => Ok(h),
        Err(e) => Err(UserError::DatabaseError(bcrypt_error_text(&e))),
    }
}

impl UserUpdateRequest {
    /// The values an update writes over the account `current`: each given field, else the
    /// current one; the active flag as given, else set. A role that names no role is
    /// refused.
    pub fn merge(self, current: UserInfo) -> (r: Result<UserChanges, UserError>)
        ensures
            ({
                let role = match self.role {
                    Some(x) => x,
                    None => current.role,
                };
                &&& named_role(role@) is None ==> r == Err::<UserChanges, UserError>(
                    UserError::InvalidRole,
                )
                &&& named_role(role@) is Some ==> (r matches Ok(c) && c.email == (match self.email {
                    Some(x) => x,
                    None => current.email,
                }) && c.role == role && c.organization_id == (match self.organization_id {
                    Some(x) => Some(x),
                    None => current.organization_id,
                }) && c.is_active == (match self.is_active {
                    Some(b) => b,
                    None => true,
                }))
            }),
    {
        let email = match self.email {
            Some(x) => x,
            None => current.email,
        };
        let role = match self.role {
            Some(x) => x,
            None => current.role,
        };
        let organization_id = match self.organization_id {
            Some(x) => Some(x),
            None => current.organization_id,
        };
        let is_active = match self.is_active {
            Some(b) => b,
            None => true,
        };
        if UserRole::parse(role.as_str()).is_err() {
            return Err(UserError::InvalidRole);
        }
        Ok(UserChanges { email, role, organization_id, is_active })
    }
}

// ----------------------------------------------------------------------------
// Signing in and tokens
// ----------------------------------------------------------------------------

/// The verdict on a sign-in, given the password check and the stored active flag: a
/// failed or impossible check refuses the credentials, before an inactive account is
/// refused.
pub open spec fn login_verdict(check: Option<bool>, is_active: i32) -> Result<(), UserError> {
    match check {
        None => Err(UserError::InvalidCredentials),
        Some(false) => Err(UserError::InvalidCredentials),
        Some(true) => if is_active == 0 {
            Err(UserError::UserNotActive)
        } else {
            Ok(())
        },
    }
}

/// Checks a sign-in attempt: `password` against the stored `password_hash`, then the
/// stored active flag.
pub fn check_login(password: &str, password_hash: &str, is_active: i32) -> (r: Result<
    (),
    UserError,
>)
    ensures
        r == login_verdict(bcrypt_verdict(password@, password_hash@), is_active),
{
    match bcrypt_verify(password, password_hash) {
        None => Err(UserError::InvalidCredentials),
        Some(false) => Err(UserError::InvalidCredentials),
        Some(true) => if is_active == 0 {
            Err(UserError::UserNotActive)
        } else {
            Ok(())
        },
    }
}

/// A password that was hashed for an active account signs in with that hash.
pub proof fn lemma_stored_password_signs_in(password: Seq<char>, hash: Seq<char>, is_active: i32)
    requires
        bcrypt_verdict(password, hash) == Some(true),
        is_active != 0,
    ensures
        login_verdict(bcrypt_verdict(password, hash), is_active) is Ok,
{
}

/// What a session token states: whose it is, until when (seconds since the Unix epoch),
/// and with which role.
#[derive(Debug)]
pub struct TokenClaims {
    pub sub: String,
    pub exp: i64,
    pub role: String,
}

impl TokenClaims {
    /// The claims of a token issued to `user` at `now` (seconds since the Unix epoch),
    /// valid for the token lifetime.
    pub fn for_user(user: &UserInfo, now: i64) -> (c: TokenClaims)
        requires
            now <= i64::MAX - TOKEN_LIFETIME_HOURS * 3600,
        ensures
            c.sub == user.id,
            c.role == user.role,
            c.exp == now + TOKEN_LIFETIME_HOURS * 3600,
    {
        TokenClaims {
            sub: user.id.clone(),
            exp: now + TOKEN_LIFETIME_HOURS * 3600,
            role: user.role.clone(),
        }
    }
}

/// The token text of an `Authorization` value: what follows `Bearer `, or the whole value
/// when it does not start so.
pub open spec fn bearer_token(value: Seq<char>) -> Seq<char> {
    if value.len() >= 7 && value.subrange(0, 7) == "Bearer "@ {
        value.subrange(7, value.len() as int)
    } else {
        value
    }
}

/// Takes the token out of an `Authorization` value.
pub fn strip_bearer(value: &str) -> (t: &str)
    ensures
        t@ == bearer_token(value@),
{
    let n = value.unicode_len();
    if n >= 7 {
        let head = value.substring_char(0, 7).to_owned();
        if head == "Bearer ".to_owned() {
            return value.substring_char(7, n);
        }
    }
    value
}

/// A token given with the `Bearer ` prefix comes out as given.
pub proof fn lemma_bearer_prefix_removed(token: Seq<char>)
    ensures
        bearer_token("Bearer "@ + token) == token,
{
    reveal_strlit("Bearer ");
    let v = "Bearer "@ + token;
    assert(v.subrange(0, 7) =~= "Bearer "@);
    assert(v.subrange(7, v.len() as int) =~= token);
}

/// The secret that signs and checks session tokens.
pub const JWT_SECRET: &'static str = "rustdesk-pro-jwt-secret-key-change-in-production";

impl TokenClaims {
    /// The signed token that carries these claims: HS256 with the server's secret, the
    /// expiry written as an unsigned number of seconds.
    pub fn sign(&self) -> (t: String)
        ensures
            t@ == hs256_token(self.sub@, self.exp as u64, self.role@, JWT_SECRET@),
            hs256_claims(t@, JWT_SECRET@) == Some((self.sub@, self.exp as u64, self.role@)),
    {
        jwt_encode(self.sub.as_str(), self.exp as u64, self.role.as_str(), JWT_SECRET)
    }
}

/// The session token issued to `user` at `now` (seconds since the Unix epoch): the signed
/// claims of the user's id and role, expiring after the token lifetime.
pub fn issue_token(user: &UserInfo, now: i64) -> (t: String)
    requires
        now <= i64::MAX - TOKEN_LIFETIME_HOURS * 3600,
    ensures
        t@ == hs256_token(
            user.id@,
            (now + TOKEN_LIFETIME_HOURS * 3600) as u64,
            user.role@,
            JWT_SECRET@,
        ),
        hs256_claims(t@, JWT_SECRET@) == Some(
            (user.id@, (now + TOKEN_LIFETIME_HOURS * 3600) as u64, user.role@),
        ),
{
    let claims = TokenClaims::for_user(user, now);
    claims.sign()
}

/// The account a token's claims name: its subject, or a refusal as invalid credentials
/// when the token was not accepted.
pub fn subject_of(claims: Option<(String, u64, String)>) -> (r: Result<String, UserError>)
    ensures
        r == match claims {
            Some(c) => Ok::<String, UserError>(c.0),
            None => Err::<String, UserError>(UserError::InvalidCredentials),
        },
{
    match claims {
        Some(c) => Ok(c.0),
        None => Err(UserError::InvalidCredentials),
    }
}

/// The account that an `Authorization` value names: the token after any `Bearer ` prefix
/// is checked with the server's secret (signature and expiry) and its subject returned.
/// A token whose claims cannot be read is refused; one that can is accepted while it has
/// not expired, which depends on the clock. A refusal is always invalid credentials.
pub fn token_subject(value: &str) -> (r: Result<String, UserError>)
    ensures
        r matches Ok(s) ==> (hs256_claims(bearer_token(value@), JWT_SECRET@) matches Some(c)
            && c.0 == s@),
        hs256_claims(bearer_token(value@), JWT_SECRET@) is None ==> r == Err::<
            String,
            UserError,
        >(UserError::InvalidCredentials),
        r is Err ==> r == Err::<String, UserError>(UserError::InvalidCredentials),
{
    let token = strip_bearer(value);
    subject_of(jwt_claims(token, JWT_SECRET))
}

/// A token issued to a user names that user when it comes back, bare or after `Bearer `:
/// whenever it is accepted, the subject is the user's id.
pub proof fn lemma_issued_token_names_user(token: Seq<char>, id: Seq<char>, exp: u64, role: Seq<char>)
    requires
        hs256_claims(token, JWT_SECRET@) == Some((id, exp, role)),
    ensures
        hs256_claims(bearer_token("Bearer "@ + token), JWT_SECRET@) == Some((id, exp, role)),
        !(token.len() >= 7 && token.subrange(0, 7) == "Bearer "@) ==> hs256_claims(
            bearer_token(token),
            JWT_SECRET@,
        ) == Some((id, exp, role)),
{
    lemma_bearer_prefix_removed(token);
}

/// The outcome of a statement that should have touched one account.
pub fn require_affected(rows_affected: u64) -> (r: Result<(), UserError>)
    ensures
        rows_affected == 0 <==> r == Err::<(), UserError>(UserError::NotFound),
        rows_affected != 0 <==> r is Ok,
{
    if rows_affected == 0 {
        Err(UserError::NotFound)
    } else {
        Ok(())
    }
}

/// The query that lists accounts, all of them or those of one organisation, and the
/// values it binds.
pub fn list_users_query(organization_id: Option<&str>) -> (r: (&'static str, Vec<String>))
    ensures
        match organization_id {
            Some(o) => r.0@ == "SELECT id, username, email, role, organization_id FROM users WHERE organization_id = ?"@
                && texts(r.1@) == seq![o@],
            None => r.0@ == "SELECT id, username, email, role, organization_id FROM users"@
                && r.1@.len() == 0,
        },
{
    match organization_id {
        Some(o) => {
            let mut params: Vec<String> = Vec::new();
            params.push(o.to_owned());
            assert(texts(params@) =~= seq![o@]);
            (
                "SELECT id, username, email, role, organization_id FROM users WHERE organization_id = ?",
                params,
            )
        },
        None => ("SELECT id, username, email, role, organization_id FROM users", Vec::new()),
    }
}

} // verus!
