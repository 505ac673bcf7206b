//! Identity records and the database rows they are read from.

use crate::strmap::StrMap;
use vstd::prelude::*;
use vstd::std_specs::convert::FromSpecImpl;

verus! {

/// One column of a database row, as far as identity records read it.
#[derive(Debug)]
pub enum ColumnValue {
    Null,
    Integer(i64),
    Real,
    Text(String),
    Blob(Vec<u8>),
}

/// A row of the `users` table.
#[derive(Debug)]
pub struct UserRow {
    pub username: String,
    pub lp_id: ColumnValue,
    pub is_master: ColumnValue,
    pub is_virtual: ColumnValue,
    pub is_deleted: ColumnValue,
}

/// A known user, with the addresses under which each channel knows them.
#[derive(Debug)]
pub struct User {
    pub username: String,
    pub lp_id: Option<String>,
    pub is_master: bool,
    pub is_virtual: bool,
    pub is_deleted: bool,
    pub identities: StrMap<String>,
}

/// What a `User` stands for: its text as character sequences, its identities
/// as a map from channel name to address.
pub ghost struct UserView {
    pub username: Seq<char>,
    pub lp_id: Option<Seq<char>>,
    pub is_master: bool,
    pub is_virtual: bool,
    pub is_deleted: bool,
    pub identities: Map<Seq<char>, Seq<char>>,
}

/// A user without the identities.
#[derive(Debug)]
pub struct MinimalUser {
    pub username: String,
    pub lp_id: Option<String>,
    pub is_master: bool,
    pub is_virtual: bool,
    pub is_deleted: bool,
}

/// What a `MinimalUser` stands for.
pub ghost struct MinimalUserView {
    pub username: Seq<char>,
    pub lp_id: Option<Seq<char>>,
    pub is_master: bool,
    pub is_virtual: bool,
    pub is_deleted: bool,
}

/// The text of an optional string.
pub open spec fn opt_text(s: Option<String>) -> Option<Seq<char>> {
    match s {
        Some(t) => Some(t@),
        None => None,
    }
}

/// How a flag column reads: a non-zero integer is true, anything else false.
pub open spec fn column_flag(v: ColumnValue) -> bool {
    match v {
        ColumnValue::Integer(n) => n != 0,
        _ => false,
    }
}

/// How an optional text column reads: text is itself, anything else nothing.
pub open spec fn column_text(v: ColumnValue) -> Option<Seq<char>> {
    match v {
        ColumnValue::Text(s) => Some(s@),
        _ => None,
    }
}

/// The user that a row of the `users` table describes: no identities yet.
pub open spec fn row_user(row: UserRow) -> UserView {
    UserView {
        username: row.username@,
        lp_id: column_text(row.lp_id),
        is_master: column_flag(row.is_master),
        is_virtual: column_flag(row.is_virtual),
        is_deleted: column_flag(row.is_deleted),
        identities: Map::empty(),
    }
}

/// Copies an optional string.
pub fn copy_opt_string(s: &Option<String>) -> (r: Option<String>)
    ensures
        r == *s,
{
    match s {
        Some(t) => Some(t.clone()),
        None => None,
    }
}

impl ColumnValue {
    /// Reads the column as a flag.
    pub fn as_flag(&self) -> (b: bool)
        ensures
            b == column_flag(*self),
    {
        match self {
            ColumnValue::Integer(n) => *n != 0,
            _ => false,
        }
    }

    /// Reads the column as optional text.
    pub fn as_text(&self) -> (t: Option<String>)
        ensures
            opt_text(t) == column_text(*self),
    {
        match self {
            ColumnValue::Text(s) => Some(s.clone()),
            _ => None,
        }
    }
}

impl View for User {
    type V = UserView;

    open spec fn view(&self) -> UserView {
        UserView {
            username: self.username@,
            lp_id: opt_text(self.lp_id),
            is_master: self.is_master,
            is_virtual: self.is_virtual,
            is_deleted: self.is_deleted,
            identities: self.identities@.map_values(|s: String| s@),
        }
    }
}

impl View for MinimalUser {
    type V = MinimalUserView;

    open spec fn view(&self) -> MinimalUserView {
        MinimalUserView {
            username: self.username@,
            lp_id: opt_text(self.lp_id),
            is_master: self.is_master,
            is_virtual: self.is_virtual,
            is_deleted: self.is_deleted,
        }
    }
}

impl User {
    /// The identities are a well-formed map.
    pub open spec fn wf(&self) -> bool {
        self.identities.wf()
    }

    /// Records that the channel `name` knows this user as `value`, in place of
    /// any address recorded for that channel before.
    pub fn add_identity(&mut self, name: String, value: String)
        requires
            old(self).wf(),
        ensures
            final(self).wf(),
            final(self)@ == (UserView {
                identities: old(self)@.identities.insert(name@, value@),
                ..old(self)@
            }),
    {
        self.identities.insert(name, value);
        assert(self.identities@.map_values(|s: String| s@) =~= old(self).identities@.map_values(
            |s: String| s@,
        ).insert(name@, value@));
    }

    /// The user that a row of the `users` table describes, with no identities
    /// yet.
    pub fn from_row(row: &UserRow) -> (u: User)
        ensures
            u.wf(),
            u@ == row_user(*row),
    {
        let u = User {
            username: row.username.clone(),
            lp_id: row.lp_id.as_text(),
            is_master: row.is_master.as_flag(),
            is_virtual: row.is_virtual.as_flag(),
            is_deleted: row.is_deleted.as_flag(),
            identities: StrMap::new(),
        };
        assert(u.identities@.map_values(|s: String| s@) =~= Map::<Seq<char>, Seq<char>>::empty());
        u
    }
}

impl Clone for User {
    fn clone(&self) -> (u: User)
        ensures
            self.wf() ==> u.wf() && u@ == self@,
    {
        User {
            username: self.username.clone(),
            lp_id: copy_opt_string(&self.lp_id),
            is_master: self.is_master,
            is_virtual: self.is_virtual,
            is_deleted: self.is_deleted,
            identities: self.identities.clone(),
        }
    }
}

impl Clone for MinimalUser {
    fn clone(&self) -> (u: MinimalUser)
        ensures
            u == *self,
    {
        MinimalUser {
            username: self.username.clone(),
            lp_id: copy_opt_string(&self.lp_id),
            is_master: self.is_master,
            is_virtual: self.is_virtual,
            is_deleted: self.is_deleted,
        }
    }
}

impl<'a> From<&'a User> for MinimalUser {
    fn from(user: &'a User) -> (m: MinimalUser) {
        MinimalUser {
            username: user.username.clone(),
            lp_id: copy_opt_string(&user.lp_id),
            is_master: user.is_master,
            is_virtual: user.is_virtual,
            is_deleted: user.is_deleted,
        }
    }
}

impl<'a> FromSpecImpl<&'a User> for MinimalUser {
    open spec fn obeys_from_spec() -> bool {
        true
    }

    open spec fn from_spec(user: &'a User) -> MinimalUser {
        MinimalUser {
            username: user.username,
            lp_id: user.lp_id,
            is_master: user.is_master,
            is_virtual: user.is_virtual,
            is_deleted: user.is_deleted,
        }
    }
}

} // verus!
