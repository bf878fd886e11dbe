//! Data carried by the user-facing REST surface. The persistence layer and
//! its queries live outside this library; these are the plain values that
//! cross its boundary. Identifiers are carried as their textual form and
//! timestamps as pre-rendered text.

use vstd::prelude::*;

verus! {

/// The columns needed to check and change a stored password.
#[derive(Debug, Clone, PartialEq, Eq)]
pub struct PasswordUser {
    pub id: i32,
    pub uuid: String,
    pub password: String,
}

/// A user row as it is inserted: the password is stored only in hashed
/// form, which the surrounding storage layer computes.
#[derive(Debug, Clone, PartialEq, Eq)]
pub struct NewUser {
    pub uuid: String,
    pub username: String,
    pub email: String,
    pub password: String,
}

/// The fields a caller may edit on an existing user.
#[derive(Debug, Clone, PartialEq, Eq)]
pub struct EditItem {
    pub uuid: String,
    pub username: String,
    pub email: String,
    pub salutation: String,
    pub first_name: String,
    pub last_name: String,
}

/// The fields a caller may edit on an existing user.
#[derive(Debug, Clone, PartialEq, Eq)]
pub struct EditUserItem {
    pub uuid: String,
    pub username: String,
    pub email: String,
    pub salutation: String,
    pub first_name: String,
    pub last_name: String,
}

/// The fields needed to create a user.
#[derive(Debug, Clone, PartialEq, Eq)]
pub struct NewItem {
    pub username: String,
    pub email: String,
    pub password: String,
}

/// The fields needed to create a user.
#[derive(Debug, Clone, PartialEq, Eq)]
pub struct NewUserItem {
    pub username: String,
    pub email: String,
    pub password: String,
}

/// A password-change request.
#[derive(Debug, Clone, PartialEq, Eq)]
pub struct PasswordItem {
    pub uuid: String,
    pub old_password: String,
    pub new_password: String,
}

impl PasswordItem {
    /// Seeds a change request from the stored credentials: both password
    /// fields start out as the stored one.
    pub fn _new(input_item: PasswordUser) -> (r: Self)
        ensures
            r.uuid@ == input_item.uuid@,
            r.old_password@ == input_item.password@,
            r.new_password@ == input_item.password@,
    {
        PasswordItem {
            uuid: input_item.uuid,
            old_password: input_item.password.clone(),
            new_password: input_item.password,
        }
    }
}

/// A password-change request.
#[derive(Debug, Clone, PartialEq, Eq)]
pub struct PasswordUserItem {
    pub uuid: String,
    pub old_password: String,
    pub new_password: String,
}

impl PasswordUserItem {
    /// Seeds a change request from the stored credentials: both password
    /// fields start out as the stored one.
    pub fn new(input_item: PasswordUser) -> (r: Self)
        ensures
            r.uuid@ == input_item.uuid@,
            r.old_password@ == input_item.password@,
            r.new_password@ == input_item.password@,
    {
        PasswordUserItem {
            uuid: input_item.uuid,
            old_password: input_item.password.clone(),
            new_password: input_item.password,
        }
    }
}

/// One user as the REST surface presents it, every field already rendered.
#[derive(Debug, Clone, PartialEq, Eq)]
pub struct UserItem {
    pub uuid: String,
    pub username: String,
    pub salutation: String,
    pub first_name: String,
    pub last_name: String,
    pub email: String,
    pub creation_date: String,
    pub modification_date: Option<String>,
    pub deletion_date: Option<String>,
}

/// A listing of users with its length.
#[derive(Debug, Clone, PartialEq, Eq)]
pub struct UserItems {
    pub user_items: Vec<UserItem>,
    pub user_items_count: i8,
}

} // verus!
