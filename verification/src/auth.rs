//! Role-based access decisions: which role a session carries, which roles
//! a gate admits, and which role a login attempt earns. Token signing and
//! cookie handling live with the calling layer.

use crate::strutil::str_eq;
use vstd::prelude::*;

verus! {

pub const COOKIE_SESSION_TOKEN: &'static str = "session_token";

/// The role a decoded session carries.
#[derive(Clone, Copy, Debug, PartialEq, Eq, Structural)]
pub enum Role {
    Admin,
    Editor,
    Default,
}

/// A request's authenticated role.
pub struct User(pub Role);

/// Witness that a request carried the admin role.
#[derive(Clone, Copy)]
pub struct AdminUser;

/// Witness that a request carried a role allowed to edit.
#[derive(Clone, Copy)]
pub struct EditorUser;

/// What the client sends when they log in.
pub struct LoginInfo<'a> {
    pub username: &'a str,
    pub password: &'a str,
}

/// The name a role reports to the client.
pub open spec fn role_name_spec(r: Role) -> Seq<char> {
    match r {
        Role::Admin => "Admin"@,
        Role::Editor => "Editor"@,
        Role::Default => "Default"@,
    }
}

/// The role a login attempt earns: admin credentials make an admin, editor
/// credentials an editor, anything else fails.
pub open spec fn login_role_spec(
    username: Seq<char>,
    password: Seq<char>,
    admin_username: Seq<char>,
    admin_password: Seq<char>,
    editor_username: Seq<char>,
    editor_password: Seq<char>,
) -> Option<Role> {
    if username == admin_username && password == admin_password {
        Some(Role::Admin)
    } else if username == editor_username && password == editor_password {
        Some(Role::Editor)
    } else {
        None
    }
}

impl Role {
    /// Whether the admin gate admits this role.
    pub fn is_admin(&self) -> (r: bool)
        ensures
            r == (*self == Role::Admin),
    {
        matches!(self, Role::Admin)
    }

    /// Whether the editor gate admits this role: admins may edit too.
    pub fn can_edit(&self) -> (r: bool)
        ensures
            r == (*self == Role::Admin || *self == Role::Editor),
    {
        matches!(self, Role::Admin | Role::Editor)
    }

    /// The name this role reports to the client.
    pub fn name(&self) -> (r: &'static str)
        ensures
            r@ == role_name_spec(*self),
    {
        match self {
            Role::Admin => "Admin",
            Role::Editor => "Editor",
            Role::Default => "Default",
        }
    }
}

/// Decides which role a login attempt earns, comparing the submitted
/// credentials against the configured admin and editor credentials.
pub fn role_for_login(
    info: &LoginInfo<'_>,
    admin_username: &str,
    admin_password: &str,
    editor_username: &str,
    editor_password: &str,
) -> (r: Option<Role>)
    ensures
        r == login_role_spec(
            info.username@,
            info.password@,
            admin_username@,
            admin_password@,
            editor_username@,
            editor_password@,
        ),
{
    if str_eq(info.username, admin_username) && str_eq(info.password, admin_password) {
        Some(Role::Admin)
    } else if str_eq(info.username, editor_username) && str_eq(info.password, editor_password) {
        Some(Role::Editor)
    } else {
        None
    }
}

} // verus!
