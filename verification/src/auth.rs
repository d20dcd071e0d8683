//! Claims, their refresh from the source of truth, and the check that every
//! request passes.
//!
//! The check never talks to storage. It says whether a session passes, must
//! be refreshed or is rejected; the caller performs the lookups that a
//! refresh needs and hands their answers back.

use crate::assoc::map_of;
use crate::canvas_permissions::{pair_views, CanvasPermissions};
use crate::json::{quote, quoted};
use crate::permission_refresh_list::PermissionRefreshList;
use vstd::prelude::*;
use vstd::string::StringExecFns;

verus! {

/// Lifetime of a session, from login to hard expiry.
pub const EXPIRED_AFTER_SECONDS: usize = 60 * 60 * 24 * 7;

/// The reissue window: how long cached claims are served before they are
/// refreshed as a matter of course.
pub const REISSUE_AFTER_SECONDS: usize = 5 * 60;

/// Identity, expiry and authorization snapshot of an authenticated session.
/// A value is never changed in place; a refresh replaces it.
#[derive(Debug)]
pub struct Claims {
    pub user_id: i64,
    pub email: String,
    pub display_name: String,
    /// Hard expiry, in seconds since the epoch.
    pub exp: usize,
    /// Soft expiry, in seconds since the epoch.
    pub reissue_time: usize,
    pub canvas_permissions: CanvasPermissions,
}

/// What a `Claims` value says.
pub struct ClaimsView {
    pub user_id: i64,
    pub email: Seq<char>,
    pub display_name: Seq<char>,
    pub exp: usize,
    pub reissue_time: usize,
    pub canvas_permissions: Map<Seq<char>, Seq<char>>,
}

impl View for Claims {
    type V = ClaimsView;

    open spec fn view(&self) -> ClaimsView {
        ClaimsView {
            user_id: self.user_id,
            email: self.email@,
            display_name: self.display_name@,
            exp: self.exp,
            reissue_time: self.reissue_time,
            canvas_permissions: self.canvas_permissions@,
        }
    }
}

impl Clone for Claims {
    fn clone(&self) -> (copy: Self)
        ensures
            copy@ == self@,
            copy.canvas_permissions.pairs() == self.canvas_permissions.pairs(),
    {
        Claims {
            user_id: self.user_id,
            email: self.email.clone(),
            display_name: self.display_name.clone(),
            exp: self.exp,
            reissue_time: self.reissue_time,
            canvas_permissions: self.canvas_permissions.clone(),
        }
    }
}

impl ClaimsView {
    /// The permission code held on a canvas; empty where none is held.
    pub open spec fn permission_on(self, canvas_id: Seq<char>) -> Seq<char> {
        if self.canvas_permissions.contains_key(canvas_id) {
            self.canvas_permissions[canvas_id]
        } else {
            Seq::empty()
        }
    }

    /// The soft expiry does not lie beyond the hard one.
    pub open spec fn expiries_ordered(self) -> bool {
        self.reissue_time <= self.exp
    }
}

impl Claims {
    /// The permission code held on `canvas_id`, or the empty string.
    pub fn permission_on(&self, canvas_id: &str) -> (code: String)
        ensures
            code@ == self@.permission_on(canvas_id@),
    {
        match self.canvas_permissions.get(canvas_id) {
            Some(code) => code.clone(),
            None => String::new(),
        }
    }
}

/// Why a session or a credential is turned away.
#[derive(Clone, Copy, Debug, PartialEq, Eq, Structural)]
pub enum AuthError {
    WrongCredentials,
    MissingCredentials,
    UserExists,
    TokenCreation,
    PasswordHashingFailed,
    DbError,
    UserInfoNotFound,
}

impl AuthError {
    /// The HTTP status that reports this error.
    pub open spec fn status(self) -> u16 {
        match self {
            AuthError::WrongCredentials => 401,
            AuthError::MissingCredentials => 401,
            AuthError::UserExists => 409,
            AuthError::TokenCreation => 500,
            AuthError::PasswordHashingFailed => 500,
            AuthError::DbError => 500,
            AuthError::UserInfoNotFound => 404,
        }
    }

    /// The sentence that reports this error.
    pub open spec fn sentence(self) -> Seq<char> {
        match self {
            AuthError::WrongCredentials => "Wrong credentials"@,
            AuthError::MissingCredentials => "Missing credentials"@,
            AuthError::UserExists => "User already exists"@,
            AuthError::TokenCreation => "Token creation error"@,
            AuthError::PasswordHashingFailed => "Password hashing failed"@,
            AuthError::DbError => "Database error"@,
            AuthError::UserInfoNotFound => "User information not found"@,
        }
    }

    pub fn status_code(&self) -> (code: u16)
        ensures
            code == self.status(),
    {
        match self {
            AuthError::WrongCredentials => 401,
            AuthError::MissingCredentials => 401,
            AuthError::UserExists => 409,
            AuthError::TokenCreation => 500,
            AuthError::PasswordHashingFailed => 500,
            AuthError::DbError => 500,
            AuthError::UserInfoNotFound => 404,
        }
    }

    pub fn message(&self) -> (text: &'static str)
        ensures
            text@ == self.sentence(),
    {
        match self {
            AuthError::WrongCredentials => "Wrong credentials",
            AuthError::MissingCredentials => "Missing credentials",
            AuthError::UserExists => "User already exists",
            AuthError::TokenCreation => "Token creation error",
            AuthError::PasswordHashingFailed => "Password hashing failed",
            AuthError::DbError => "Database error",
            AuthError::UserInfoNotFound => "User information not found",
        }
    }

    /// Status and JSON body of the response that reports this error:
    /// `{"error":<sentence>}`.
    pub fn into_response(self) -> (response: (u16, String))
        ensures
            response.0 == self.status(),
            response.1@ == "{\"error\":"@ + quoted(self.sentence()) + "}"@,
    {
        let mut body = String::from_str("{\"error\":");
        let literal = quote(self.message());
        body.append(literal.as_str());
        body.append("}");
        (self.status_code(), body)
    }
}

/// The cookie that carries a session token to the client: the token under
/// the name `auth_token`, for the whole site, out of reach of scripts, for
/// a session lifetime.
pub open spec fn auth_cookie_text(token: Seq<char>) -> Seq<char> {
    "auth_token="@ + token + "; HttpOnly; Path=/; Max-Age=604800; SameSite=Strict"@
}

/// Frames the cookie that hands `token` to the client.
pub fn auth_cookie(token: &str) -> (cookie: String)
    ensures
        cookie@ == auth_cookie_text(token@),
{
    let mut cookie = String::from_str("auth_token=");
    cookie.append(token);
    cookie.append("; HttpOnly; Path=/; Max-Age=604800; SameSite=Strict");
    cookie
}

/// The cookie that ends a session at the client: an empty token that has
/// expired already.
pub fn logout_cookie() -> (cookie: &'static str)
    ensures
        cookie@ == "auth_token=; HttpOnly; Path=/; Max-Age=0; SameSite=Strict"@,
{
    "auth_token=; HttpOnly; Path=/; Max-Age=0; SameSite=Strict"
}

/// Claims in the making: what is known of a session before the source of
/// truth has been asked for the rest.
#[derive(Debug)]
pub struct PartialClaims {
    pub email: String,
    pub user_id: Option<i64>,
    pub display_name: Option<String>,
    pub canvas_permissions: Option<CanvasPermissions>,
    /// Hard expiry of the claims to be.
    pub exp: usize,
}

/// A row of the user table.
#[derive(Debug)]
pub struct UserRecord {
    pub user_id: Option<i64>,
    pub display_name: String,
}

/// The answer of the user table to a lookup by email.
#[derive(Debug)]
pub enum UserLookup {
    Found(UserRecord),
    NotFound,
    StorageError,
}

/// The answer of the permission table to a lookup by user: rows of canvas
/// id and permission code.
#[derive(Debug)]
pub enum PermissionLookup {
    Found(Vec<(String, String)>),
    StorageError,
}

impl PartialClaims {
    /// Nothing known but the hard expiry, a full session lifetime from
    /// `now`.
    pub fn default_at(now: usize) -> (claims_data: Self)
        requires
            now + EXPIRED_AFTER_SECONDS <= usize::MAX,
        ensures
            claims_data.email@ == Seq::<char>::empty(),
            claims_data.user_id is None,
            claims_data.display_name is None,
            claims_data.canvas_permissions is None,
            claims_data.exp == now + EXPIRED_AFTER_SECONDS,
    {
        PartialClaims {
            email: String::new(),
            user_id: None,
            display_name: None,
            canvas_permissions: None,
            exp: now + EXPIRED_AFTER_SECONDS,
        }
    }

    /// Whether the user table has to be asked: the id or the display name
    /// is missing.
    pub fn needs_user_lookup(&self) -> (needed: bool)
        ensures
            needed == (self.user_id is None || self.display_name is None),
    {
        self.user_id.is_none() || self.display_name.is_none()
    }

    /// Whether the permission table has to be asked.
    pub fn needs_permission_lookup(&self) -> (needed: bool)
        ensures
            needed == (self.canvas_permissions is None),
    {
        self.canvas_permissions.is_none()
    }

    /// The user id, once it is known.
    pub fn known_user_id(&self) -> (id: Result<i64, AuthError>)
        ensures
            id == match self.user_id {
                Some(user_id) => Ok::<i64, AuthError>(user_id),
                None => Err(AuthError::UserInfoNotFound),
            },
    {
        match self.user_id {
            Some(user_id) => Ok(user_id),
            None => Err(AuthError::UserInfoNotFound),
        }
    }

    /// Fills in what the user table answered. What was known already is
    /// kept; a failed lookup is `DbError`, an unknown email
    /// `UserInfoNotFound`.
    pub fn with_user_lookup(self, lookup: UserLookup) -> (filled: Result<PartialClaims, AuthError>)
        ensures
            match lookup {
                UserLookup::StorageError => filled == Err::<PartialClaims, AuthError>(
                    AuthError::DbError,
                ),
                UserLookup::NotFound => filled == Err::<PartialClaims, AuthError>(
                    AuthError::UserInfoNotFound,
                ),
                UserLookup::Found(record) => {
                    &&& filled matches Ok(data)
                    &&& data.email == self.email
                    &&& data.exp == self.exp
                    &&& data.canvas_permissions == self.canvas_permissions
                    &&& data.user_id == (if self.user_id is Some {
                        self.user_id
                    } else {
                        record.user_id
                    })
                    &&& data.display_name == (if self.display_name is Some {
                        self.display_name
                    } else {
                        Some(record.display_name)
                    })
                },
            },
    {
        match lookup {
            UserLookup::StorageError => Err(AuthError::DbError),
            UserLookup::NotFound => Err(AuthError::UserInfoNotFound),
            UserLookup::Found(record) => {
                let user_id = if self.user_id.is_some() {
                    self.user_id
                } else {
                    record.user_id
                };
                let display_name = if self.display_name.is_some() {
                    self.display_name
                } else {
                    Some(record.display_name)
                };
                Ok(
                    PartialClaims {
                        email: self.email,
                        user_id,
                        display_name,
                        canvas_permissions: self.canvas_permissions,
                        exp: self.exp,
                    },
                )
            },
        }
    }

    /// Fills in what the permission table answered: the table that the rows
    /// stand for, the last row of a canvas counting. A failed lookup is
    /// `DbError`.
    pub fn with_permission_lookup(self, lookup: PermissionLookup) -> (filled: Result<
        PartialClaims,
        AuthError,
    >)
        ensures
            match lookup {
                PermissionLookup::StorageError => filled == Err::<PartialClaims, AuthError>(
                    AuthError::DbError,
                ),
                PermissionLookup::Found(rows) => {
                    &&& filled matches Ok(data)
                    &&& data.email == self.email
                    &&& data.exp == self.exp
                    &&& data.user_id == self.user_id
                    &&& data.display_name == self.display_name
                    &&& data.canvas_permissions matches Some(table)
                    &&& table@ == map_of(pair_views(rows@))
                },
            },
    {
        match lookup {
            PermissionLookup::StorageError => Err(AuthError::DbError),
            PermissionLookup::Found(rows) => {
                let table = CanvasPermissions::from_rows(&rows);
                Ok(
                    PartialClaims {
                        email: self.email,
                        user_id: self.user_id,
                        display_name: self.display_name,
                        canvas_permissions: Some(table),
                        exp: self.exp,
                    },
                )
            },
        }
    }

    /// Whether nothing is missing any more.
    pub open spec fn is_complete(&self) -> bool {
        self.user_id is Some && self.display_name is Some && self.canvas_permissions is Some
    }
}

/// The claims that complete data give when issued at `now`: the hard expiry
/// as it stands, the soft expiry one reissue window from `now`.
pub open spec fn issued(claims_data: PartialClaims, now: usize) -> ClaimsView
    recommends
        claims_data.is_complete(),
{
    ClaimsView {
        user_id: claims_data.user_id->0,
        email: claims_data.email@,
        display_name: claims_data.display_name->0@,
        exp: claims_data.exp,
        reissue_time: (now + REISSUE_AFTER_SECONDS) as usize,
        canvas_permissions: claims_data.canvas_permissions->0@,
    }
}

/// Issues claims from data that the lookups have completed. Data with a
/// gap gives `UserInfoNotFound`.
pub fn get_claims(claims_data: PartialClaims, now: usize) -> (claims: Result<Claims, AuthError>)
    requires
        now + REISSUE_AFTER_SECONDS <= usize::MAX,
    ensures
        claims_data.is_complete() ==> ({
            &&& claims matches Ok(issued_claims)
            &&& issued_claims@ == issued(claims_data, now)
            &&& issued_claims.canvas_permissions.pairs()
                == claims_data.canvas_permissions->0.pairs()
        }),
        !claims_data.is_complete() ==> claims == Err::<Claims, AuthError>(
            AuthError::UserInfoNotFound,
        ),
{
    let user_id = match claims_data.user_id {
        Some(user_id) => user_id,
        None => {
            return Err(AuthError::UserInfoNotFound);
        },
    };
    let display_name = match claims_data.display_name {
        Some(display_name) => display_name,
        None => {
            return Err(AuthError::UserInfoNotFound);
        },
    };
    let canvas_permissions = match claims_data.canvas_permissions {
        Some(canvas_permissions) => canvas_permissions,
        None => {
            return Err(AuthError::UserInfoNotFound);
        },
    };
    Ok(
        Claims {
            user_id,
            email: claims_data.email,
            display_name,
            exp: claims_data.exp,
            reissue_time: now + REISSUE_AFTER_SECONDS,
            canvas_permissions,
        },
    )
}

/// What the session check decided.
#[derive(Debug)]
pub enum SessionCheck {
    /// The cached claims stand.
    Pass,
    /// The claims must be derived anew from the data given, which asks for
    /// a permission lookup.
    Refresh(PartialClaims),
    /// The session is over; the user authenticates from scratch.
    Reject(AuthError),
}

/// Past the hard expiry.
pub open spec fn hard_expired(claims: ClaimsView, now: usize) -> bool {
    now >= claims.exp
}

/// Past the soft expiry.
pub open spec fn soft_expired(claims: ClaimsView, now: usize) -> bool {
    now >= claims.reissue_time
}

/// The data from which claims are refreshed: identity and hard expiry of
/// the session, and no permissions.
pub open spec fn is_refresh_request(claims: ClaimsView, request: PartialClaims) -> bool {
    &&& request.email@ == claims.email
    &&& request.user_id == Some(claims.user_id)
    &&& request.display_name matches Some(name) && name@ == claims.display_name
    &&& request.canvas_permissions is None
    &&& request.exp == claims.exp
}

/// What the session check answers when the session has not hard-expired and
/// `marked` says whether the ledger held the user.
pub open spec fn session_answer(
    claims: ClaimsView,
    now: usize,
    marked: bool,
    check: SessionCheck,
) -> bool {
    if hard_expired(claims, now) {
        check == SessionCheck::Reject(AuthError::MissingCredentials)
    } else if soft_expired(claims, now) || marked {
        check matches SessionCheck::Refresh(request) && is_refresh_request(claims, request)
    } else {
        check is Pass
    }
}

impl Claims {
    /// The data from which these claims are refreshed.
    pub fn refresh_request(&self) -> (request: PartialClaims)
        ensures
            is_refresh_request(self@, request),
    {
        PartialClaims {
            email: self.email.clone(),
            user_id: Some(self.user_id),
            display_name: Some(self.display_name.clone()),
            canvas_permissions: None,
            exp: self.exp,
        }
    }
}

/// The session check of a request. A hard-expired session is rejected and
/// the ledger left alone. Otherwise the user's mark is consumed, and the
/// session is refreshed if it was marked or has reached its soft expiry.
pub fn auth_middleware(
    claims: &Claims,
    now: usize,
    refresh_list: &mut PermissionRefreshList,
) -> (check: SessionCheck)
    ensures
        session_answer(claims@, now, old(refresh_list)@.contains_key(claims.user_id), check),
        hard_expired(claims@, now) ==> final(refresh_list)@ == old(refresh_list)@,
        !hard_expired(claims@, now) ==> final(refresh_list)@ == old(refresh_list)@.remove(
            claims.user_id,
        ),
{
    if claims.exp <= now {
        return SessionCheck::Reject(AuthError::MissingCredentials);
    }
    let soft_expired = claims.reissue_time <= now;
    let marked = refresh_list.should_refresh(claims.user_id);
    if soft_expired || marked {
        SessionCheck::Refresh(claims.refresh_request())
    } else {
        SessionCheck::Pass
    }
}

/// Claims issued at least one reissue window before their hard expiry have
/// their soft expiry no later than the hard one; so have the claims of a
/// login, whose hard expiry lies a session lifetime ahead.
pub proof fn lemma_issued_expiries_ordered(claims_data: PartialClaims, now: usize)
    requires
        now + REISSUE_AFTER_SECONDS <= usize::MAX,
    ensures
        now + REISSUE_AFTER_SECONDS <= claims_data.exp ==> issued(claims_data, now).expiries_ordered(),
        claims_data.exp == now + EXPIRED_AFTER_SECONDS ==> issued(claims_data, now).expiries_ordered(),
{
}

/// One mark makes for one refresh: the session check that finds the mark
/// asks for a refresh and takes the mark away, and the next check of the
/// same claims, still short of their soft expiry, passes.
pub proof fn lemma_mark_triggers_one_refresh(
    claims: ClaimsView,
    now: usize,
    later: usize,
    pending: Map<i64, usize>,
    first: SessionCheck,
    second: SessionCheck,
)
    requires
        pending.contains_key(claims.user_id),
        !hard_expired(claims, now),
        !hard_expired(claims, later),
        !soft_expired(claims, later),
        session_answer(claims, now, pending.contains_key(claims.user_id), first),
        session_answer(
            claims,
            later,
            pending.remove(claims.user_id).contains_key(claims.user_id),
            second,
        ),
    ensures
        first is Refresh,
        second is Pass,
{
}

} // verus!
