//! The rules behind the HTTP-style requests: what a request body must hold,
//! who may change whose permission, and what follows from a change.

use crate::auth::{AuthError, Claims, ClaimsView, PartialClaims};
use crate::canvas_manager::{is_not_user, unsubscribed, CanvasManager};
use crate::permission::PermissionLevel;
use crate::permission_refresh_list::PermissionRefreshList;
use vstd::prelude::*;
use vstd::string::{StrSliceExecFns, StringExecFns};

verus! {

/// One canvas in the list of canvases that a user can reach.
#[derive(Debug)]
pub struct CanvasListResponseItem {
    pub canvas_id: String,
    pub name: String,
    pub permission_level: String,
}

/// The body of a request to create a canvas.
#[derive(Debug)]
pub struct CreateCanvasPayload {
    pub name: String,
}

/// The body of a request to change a user's permission on a canvas. An
/// empty permission asks for the removal of the user's access.
#[derive(Debug)]
pub struct UpdatePermissionRequest {
    pub user_id: i64,
    pub permission: String,
}

/// A user as listed among the users of a canvas.
#[derive(Debug)]
pub struct CanvasUser {
    pub user_id: i64,
    pub display_name: String,
}

/// The body of a request to update a profile.
#[derive(Debug)]
pub struct UpdateUserPayload {
    pub email: Option<String>,
    pub display_name: Option<String>,
}

/// The body of a login request.
#[derive(Debug)]
pub struct LoginPayload {
    pub email: String,
    pub password: String,
}

/// The body of a registration request.
#[derive(Debug)]
pub struct RegisterPayload {
    pub email: String,
    pub password: String,
    pub display_name: String,
}

/// The text without the white space at its ends, as `str::trim` returns
/// it.
pub uninterp spec fn trimmed(text: Seq<char>) -> Seq<char>;

/// Calls `str::trim` and copies the result. Trusted: the result depends on
/// the text alone, so it is the named `trimmed(text)`.
#[verifier::external_body]
fn trim(text: &str) -> (result: String)
    ensures
        result@ == trimmed(text@),
{
    text.trim().to_owned()
}

impl CreateCanvasPayload {
    /// The name under which the canvas is created: the requested name
    /// without white space at its ends. `None` if nothing is left of it.
    pub fn canvas_name(&self) -> (name: Option<String>)
        ensures
            match name {
                Some(name) => name@ == trimmed(self.name@) && name@.len() > 0,
                None => trimmed(self.name@).len() == 0,
            },
    {
        let name = trim(self.name.as_str());
        if name.as_str().is_empty() {
            None
        } else {
            Some(name)
        }
    }
}

impl LoginPayload {
    /// A login needs an email and a password.
    pub fn validate(&self) -> (checked: Result<(), AuthError>)
        ensures
            checked is Ok <==> self.email@.len() > 0 && self.password@.len() > 0,
            checked matches Err(e) ==> e == AuthError::MissingCredentials,
    {
        if self.email.as_str().is_empty() || self.password.as_str().is_empty() {
            Err(AuthError::MissingCredentials)
        } else {
            Ok(())
        }
    }
}

impl RegisterPayload {
    /// A registration needs an email, a password and a display name.
    pub fn validate(&self) -> (checked: Result<(), AuthError>)
        ensures
            checked is Ok <==> self.email@.len() > 0 && self.password@.len() > 0
                && self.display_name@.len() > 0,
            checked matches Err(e) ==> e == AuthError::MissingCredentials,
    {
        if self.email.as_str().is_empty() || self.password.as_str().is_empty()
            || self.display_name.as_str().is_empty() {
            Err(AuthError::MissingCredentials)
        } else {
            Ok(())
        }
    }
}

/// What is wrong with a profile update, if anything.
#[derive(Clone, Copy, Debug, PartialEq, Eq, Structural)]
pub enum ProfileUpdateCheck {
    /// Neither field is given; there is nothing to do.
    NothingToUpdate,
    /// The email is given and empty.
    EmptyEmail,
    /// The display name is given and empty.
    EmptyDisplayName,
    /// The update can go ahead.
    Valid,
}

impl UpdateUserPayload {
    /// Checks a profile update. An empty email is reported before an empty
    /// display name.
    pub fn validate(&self) -> (check: ProfileUpdateCheck)
        ensures
            check == if self.email is None && self.display_name is None {
                ProfileUpdateCheck::NothingToUpdate
            } else if self.email matches Some(email) && email@.len() == 0 {
                ProfileUpdateCheck::EmptyEmail
            } else if self.display_name matches Some(name) && name@.len() == 0 {
                ProfileUpdateCheck::EmptyDisplayName
            } else {
                ProfileUpdateCheck::Valid
            },
    {
        if self.email.is_none() && self.display_name.is_none() {
            return ProfileUpdateCheck::NothingToUpdate;
        }
        match &self.email {
            Some(email) => {
                if email.as_str().is_empty() {
                    return ProfileUpdateCheck::EmptyEmail;
                }
            },
            None => {},
        }
        match &self.display_name {
            Some(name) => {
                if name.as_str().is_empty() {
                    return ProfileUpdateCheck::EmptyDisplayName;
                }
            },
            None => {},
        }
        ProfileUpdateCheck::Valid
    }

    /// The data from which the claims are issued anew once the update is
    /// stored: the given fields replace those of `claims`, permissions and
    /// hard expiry stay.
    pub fn updated_claims(&self, claims: &Claims) -> (claims_data: PartialClaims)
        ensures
            claims_data.user_id == Some(claims.user_id),
            claims_data.exp == claims.exp,
            claims_data.email@ == (match self.email {
                Some(email) => email@,
                None => claims.email@,
            }),
            claims_data.display_name matches Some(name) && name@ == (match self.display_name {
                Some(name) => name@,
                None => claims.display_name@,
            }),
            claims_data.canvas_permissions matches Some(table) && table@
                == claims.canvas_permissions@,
    {
        let email = match &self.email {
            Some(email) => email.clone(),
            None => claims.email.clone(),
        };
        let display_name = match &self.display_name {
            Some(name) => name.clone(),
            None => claims.display_name.clone(),
        };
        PartialClaims {
            email,
            user_id: Some(claims.user_id),
            display_name: Some(display_name),
            canvas_permissions: Some(claims.canvas_permissions.clone()),
            exp: claims.exp,
        }
    }
}

/// Where the event log of a canvas is kept.
pub open spec fn event_file_path_of(canvas_id: Seq<char>) -> Seq<char> {
    "data/canvases/"@ + canvas_id + ".jsonl"@
}

/// The place of the event log of a new canvas.
pub fn event_file_path(canvas_id: &str) -> (path: String)
    ensures
        path@ == event_file_path_of(canvas_id@),
{
    let mut path = String::from_str("data/canvases/");
    path.append(canvas_id);
    path.append(".jsonl");
    path
}

/// The data from which the creator's claims are issued anew once a canvas
/// is stored: the claims as they are, with the owner permission on the new
/// canvas.
pub fn create_canvas(claims: &Claims, canvas_id: &str) -> (claims_data: PartialClaims)
    ensures
        claims_data.user_id == Some(claims.user_id),
        claims_data.exp == claims.exp,
        claims_data.email@ == claims.email@,
        claims_data.display_name matches Some(name) && name@ == claims.display_name@,
        claims_data.canvas_permissions matches Some(table) && table@
            == claims.canvas_permissions@.insert(canvas_id@, seq![PermissionLevel::Owner.tag()]),
{
    let mut table = claims.canvas_permissions.clone();
    table.insert(canvas_id.to_owned(), PermissionLevel::Owner.code().to_owned());
    PartialClaims {
        email: claims.email.clone(),
        user_id: Some(claims.user_id),
        display_name: Some(claims.display_name.clone()),
        canvas_permissions: Some(table),
        exp: claims.exp,
    }
}

/// The list entries for the canvases that the store knows, each with the
/// code that `claims` hold on it. `rows` are the canvas id and name of each
/// canvas by its row in the store, which was asked for the canvases of
/// `claims` and so answers with no other.
pub fn get_canvas_list(claims: &Claims, rows: &Vec<(String, String)>) -> (list: Vec<
    CanvasListResponseItem,
>)
    requires
        forall|i: int|
            0 <= i < rows@.len() ==> claims@.canvas_permissions.contains_key(
                (#[trigger] rows@[i]).0@,
            ),
    ensures
        list@.len() == rows@.len(),
        forall|i: int|
            0 <= i < rows@.len() ==> (#[trigger] list@[i]).canvas_id@ == rows@[i].0@
                && list@[i].name@ == rows@[i].1@ && list@[i].permission_level@
                == claims@.canvas_permissions[rows@[i].0@],
{
    let mut list: Vec<CanvasListResponseItem> = Vec::new();
    let mut i: usize = 0;
    while i < rows.len()
        invariant
            i <= rows.len(),
            list@.len() == i,
            forall|j: int|
                0 <= j < rows@.len() ==> claims@.canvas_permissions.contains_key(
                    (#[trigger] rows@[j]).0@,
                ),
            forall|j: int|
                0 <= j < i ==> (#[trigger] list@[j]).canvas_id@ == rows@[j].0@ && list@[j].name@
                    == rows@[j].1@ && list@[j].permission_level@
                    == claims@.canvas_permissions[rows@[j].0@],
        decreases rows.len() - i,
    {
        assert(claims@.canvas_permissions.contains_key(rows@[i as int].0@));
        list.push(
            CanvasListResponseItem {
                canvas_id: rows[i].0.clone(),
                name: rows[i].1.clone(),
                permission_level: claims.permission_on(rows[i].0.as_str()),
            },
        );
        i = i + 1;
    }
    list
}

/// Why a permission change is refused.
#[derive(Clone, Copy, Debug, PartialEq, Eq, Structural)]
pub enum PermissionChangeError {
    /// Nobody changes their own permission.
    OwnPermissions,
    /// The owner's permission is not changed.
    OwnerPermissions,
    /// The acting user is neither moderator nor owner nor creator.
    InsufficientPermissions,
    /// A moderator reached for a moderator, owner or creator, or tried to
    /// make one.
    InsufficientForAction,
}

/// What a permitted change does.
#[derive(Clone, Copy, Debug, PartialEq, Eq, Structural)]
pub enum PermissionChange {
    /// The user's access to the canvas is removed.
    Remove,
    /// The user's permission is set to the requested code.
    Assign,
}

/// Whether a code is the one-character code `tag`.
pub open spec fn is_code(code: Seq<char>, tag: char) -> bool {
    code.len() == 1 && code[0] == tag
}

/// Whether a code that may be absent is the one-character code `tag`.
pub open spec fn holds_code(code: Option<Seq<char>>, tag: char) -> bool {
    code matches Some(code) && is_code(code, tag)
}

/// Decides a permission change.
///
/// `acting` is the code of the acting user on the canvas and `target` the
/// code that the target user holds so far, each if there is one;
/// `requested` is the code asked for. Creator and owner may make any change
/// that is not refused outright. A moderator may neither hand out
/// moderator or creator nor touch a moderator, owner or creator.
pub open spec fn permission_change_verdict(
    acting_user: i64,
    target_user: i64,
    acting: Option<Seq<char>>,
    target: Option<Seq<char>>,
    requested: Seq<char>,
) -> Result<PermissionChange, PermissionChangeError> {
    if acting_user == target_user {
        Err(PermissionChangeError::OwnPermissions)
    } else if holds_code(target, 'O') {
        Err(PermissionChangeError::OwnerPermissions)
    } else if !(holds_code(acting, 'C') || holds_code(acting, 'O') || holds_code(acting, 'M')) {
        Err(PermissionChangeError::InsufficientPermissions)
    } else if holds_code(acting, 'M') && (is_code(requested, 'C') || is_code(requested, 'M')
        || holds_code(target, 'C') || holds_code(target, 'O') || holds_code(target, 'M')) {
        Err(PermissionChangeError::InsufficientForAction)
    } else if requested.len() == 0 {
        Ok(PermissionChange::Remove)
    } else {
        Ok(PermissionChange::Assign)
    }
}

/// Whether `code` is the one-character code `tag`.
fn code_is(code: &str, tag: char) -> (yes: bool)
    ensures
        yes == is_code(code@, tag),
{
    if code.unicode_len() != 1 {
        return false;
    }
    code.get_char(0) == tag
}

/// Whether a code that may be absent is the one-character code `tag`.
fn code_held(code: &Option<String>, tag: char) -> (yes: bool)
    ensures
        yes == holds_code(text_of(*code), tag),
{
    match code {
        Some(code) => code_is(code.as_str(), tag),
        None => false,
    }
}

/// The text of a string that may be absent.
pub open spec fn text_of(text: Option<String>) -> Option<Seq<char>> {
    match text {
        Some(text) => Some(text@),
        None => None,
    }
}

/// The code that claims hold on a canvas, if the canvas is listed.
pub open spec fn held_on(claims: ClaimsView, canvas_id: Seq<char>) -> Option<Seq<char>> {
    if claims.canvas_permissions.contains_key(canvas_id) {
        Some(claims.canvas_permissions[canvas_id])
    } else {
        None
    }
}

/// Decides whether the user of `claims` may make the requested change on
/// `canvas_id`, where `target_user_permission` is what the target user
/// holds on it so far.
pub fn update_canvas_permissions(
    claims: &Claims,
    canvas_id: &str,
    payload: &UpdatePermissionRequest,
    target_user_permission: &Option<String>,
) -> (decision: Result<PermissionChange, PermissionChangeError>)
    ensures
        decision == permission_change_verdict(
            claims.user_id,
            payload.user_id,
            held_on(claims@, canvas_id@),
            text_of(*target_user_permission),
            payload.permission@,
        ),
{
    if claims.user_id == payload.user_id {
        return Err(PermissionChangeError::OwnPermissions);
    }
    if code_held(target_user_permission, 'O') {
        return Err(PermissionChangeError::OwnerPermissions);
    }
    let acting = match claims.canvas_permissions.get(canvas_id) {
        Some(code) => Some(code.clone()),
        None => None,
    };
    let full = code_held(&acting, 'C') || code_held(&acting, 'O');
    let moderator = code_held(&acting, 'M');
    if !full && !moderator {
        return Err(PermissionChangeError::InsufficientPermissions);
    }
    if !full {
        let out_of_reach = code_is(payload.permission.as_str(), 'C') || code_is(
            payload.permission.as_str(),
            'M',
        ) || code_held(target_user_permission, 'C') || code_held(target_user_permission, 'O')
            || code_held(target_user_permission, 'M');
        if out_of_reach {
            return Err(PermissionChangeError::InsufficientForAction);
        }
    }
    if payload.permission.as_str().is_empty() {
        Ok(PermissionChange::Remove)
    } else {
        Ok(PermissionChange::Assign)
    }
}

impl PermissionChangeError {
    /// The sentence that reports the refusal.
    pub fn message(&self) -> (text: &'static str)
        ensures
            text@ == match self {
                PermissionChangeError::OwnPermissions => "Cannot change your own permissions."@,
                PermissionChangeError::OwnerPermissions => "Cannot change the owner's permissions."@,
                PermissionChangeError::InsufficientPermissions => "Insufficient permissions."@,
                PermissionChangeError::InsufficientForAction => "Insufficient permissions for this action."@,
            },
    {
        match self {
            PermissionChangeError::OwnPermissions => "Cannot change your own permissions.",
            PermissionChangeError::OwnerPermissions => "Cannot change the owner's permissions.",
            PermissionChangeError::InsufficientPermissions => "Insufficient permissions.",
            PermissionChangeError::InsufficientForAction => "Insufficient permissions for this action.",
        }
    }
}

/// What follows a stored permission change inside the server: the target
/// user is marked for refresh at `now`, and if the change was a removal
/// every subscription of the user to the canvas ends.
pub fn after_permission_change(
    refresh_list: &mut PermissionRefreshList,
    canvas_manager: &mut CanvasManager,
    canvas_id: &str,
    user_id: i64,
    change: PermissionChange,
    now: usize,
)
    ensures
        final(refresh_list)@ == old(refresh_list)@.insert(user_id, now),
        final(canvas_manager)@ == if change == PermissionChange::Remove {
            unsubscribed(old(canvas_manager)@, canvas_id@, is_not_user(user_id))
        } else {
            old(canvas_manager)@
        },
{
    refresh_list.mark_user_for_refresh_at(user_id, now);
    match change {
        PermissionChange::Remove => {
            canvas_manager.unregister_user(canvas_id, user_id);
        },
        PermissionChange::Assign => {},
    }
}

} // verus!
