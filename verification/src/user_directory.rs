//! The directory of known users: who they are, and under which address each
//! channel knows them.

use crate::message::Event;
use crate::strmap::StrMap;
use crate::user::{row_user, User, UserRow, UserView};
use vstd::prelude::*;
use vstd::string::StringExecFns;

verus! {

/// A row of the `user_identities` table: the channel `identity_name` knows
/// `username` as `identity_value`.
#[derive(Debug)]
pub struct IdentityRow {
    pub username: String,
    pub identity_name: String,
    pub identity_value: String,
}

/// For each channel, the user name behind each address.
pub type AddressBook = Map<Seq<char>, Map<Seq<char>, Seq<char>>>;

/// The users by name, and for each channel the user name behind each address.
#[derive(Debug)]
pub struct Directory {
    users: StrMap<User>,
    identities: StrMap<StrMap<String>>,
}

/// The name under which the directory files a channel.
pub open spec fn channel_key(channel_name: Seq<char>) -> Seq<char> {
    "channel/"@ + channel_name
}

/// The addresses filed under a channel; none where the channel is not filed.
pub open spec fn book_page(book: AddressBook, key: Seq<char>) -> Map<Seq<char>, Seq<char>> {
    if book.contains_key(key) {
        book[key]
    } else {
        Map::empty()
    }
}

/// The address book after one more row: the row's address, under the row's
/// channel, now leads to the row's user.
pub open spec fn book_with(book: AddressBook, row: IdentityRow) -> AddressBook {
    let key = channel_key(row.identity_name@);
    book.insert(key, book_page(book, key).insert(row.identity_value@, row.username@))
}

/// The address book after a run of rows, taken in order.
pub open spec fn book_after(book: AddressBook, rows: Seq<IdentityRow>) -> AddressBook
    decreases rows.len(),
{
    if rows.len() == 0 {
        book
    } else {
        book_with(book_after(book, rows.drop_last()), rows.last())
    }
}

/// The users after a run of rows, taken in order: a later row replaces an
/// earlier one of the same name.
pub open spec fn users_after(users: Map<Seq<char>, UserView>, rows: Seq<UserRow>) -> Map<
    Seq<char>,
    UserView,
>
    decreases rows.len(),
{
    if rows.len() == 0 {
        users
    } else {
        users_after(users, rows.drop_last()).insert(rows.last().username@, row_user(rows.last()))
    }
}

/// Whom an address of a channel leads to: the user filed under the name that
/// the address book gives, where it gives one.
pub open spec fn resolved(
    users: Map<Seq<char>, UserView>,
    book: AddressBook,
    origin: Seq<char>,
    address: Seq<char>,
) -> Option<UserView> {
    if book.contains_key(origin) && book[origin].contains_key(address) {
        Some(users[book[origin][address]])
    } else {
        None
    }
}

impl Directory {
    /// The maps are well-formed, and so is every user.
    pub closed spec fn wf(&self) -> bool {
        &&& self.users.wf()
        &&& self.identities.wf()
        &&& forall|k: Seq<char>| #[trigger]
            self.users@.contains_key(k) ==> self.users@[k].wf()
        &&& forall|k: Seq<char>| #[trigger]
            self.identities@.contains_key(k) ==> self.identities@[k].wf()
    }

    /// The known users by name.
    pub closed spec fn users(&self) -> Map<Seq<char>, UserView> {
        self.users@.map_values(|u: User| u@)
    }

    /// For each channel, the user name behind each address.
    pub closed spec fn book(&self) -> AddressBook {
        self.identities@.map_values(|m: StrMap<String>| m@.map_values(|s: String| s@))
    }

    /// A directory that knows nobody.
    pub fn new() -> (d: Directory)
        ensures
            d.wf(),
            d.users() == Map::<Seq<char>, UserView>::empty(),
            d.book() == Map::<Seq<char>, Map<Seq<char>, Seq<char>>>::empty(),
    {
        let d = Directory { users: StrMap::new(), identities: StrMap::new() };
        assert(d.users() =~= Map::<Seq<char>, UserView>::empty());
        assert(d.book() =~= Map::<Seq<char>, Map<Seq<char>, Seq<char>>>::empty());
        d
    }

    /// Files a user under its name, in place of any user of that name.
    pub fn insert_user(&mut self, user: User)
        requires
            old(self).wf(),
            user.wf(),
        ensures
            final(self).wf(),
            final(self).users() == old(self).users().insert(user.username@, user@),
            final(self).book() == old(self).book(),
    {
        let name = user.username.clone();
        self.users.insert(name, user);
        assert(self.users() =~= old(self).users().insert(user.username@, user@));
    }

    /// Files one identity: the channel named in the row knows the row's user
    /// under the row's address.
    pub fn insert_identity(&mut self, row: &IdentityRow)
        requires
            old(self).wf(),
        ensures
            final(self).wf(),
            final(self).users() == old(self).users(),
            final(self).book() == book_with(old(self).book(), *row),
    {
        let key = String::from_str("channel/").concat(row.identity_name.as_str());
        let ghost old_book = self.book();
        let mut page = match self.identities.remove(key.as_str()) {
            Some(p) => p,
            None => StrMap::new(),
        };
        assert(page@.map_values(|s: String| s@) =~= book_page(old_book, key@));
        page.insert(row.identity_value.clone(), row.username.clone());
        assert(page@.map_values(|s: String| s@) =~= book_page(old_book, key@).insert(
            row.identity_value@,
            row.username@,
        ));
        self.identities.insert(key, page);
        assert(self.book() =~= book_with(old_book, *row));
    }

    /// Fills the directory from the rows of the two tables: the users first,
    /// then the identities, each run in order.
    pub fn load_users(&mut self, users: &Vec<UserRow>, identities: &Vec<IdentityRow>)
        requires
            old(self).wf(),
        ensures
            final(self).wf(),
            final(self).users() == users_after(old(self).users(), users@),
            final(self).book() == book_after(old(self).book(), identities@),
    {
        let ghost book0 = self.book();
        let ghost users0 = self.users();
        let mut i: usize = 0;
        while i < users.len()
            invariant
                self.wf(),
                i <= users.len(),
                self.book() == book0,
                self.users() == users_after(users0, users@.take(i as int)),
            decreases users.len() - i,
        {
            let user = User::from_row(&users[i]);
            proof {
                assert(users@.take(i + 1).drop_last() =~= users@.take(i as int));
                assert(users@.take(i + 1).last() == users@[i as int]);
            }
            self.insert_user(user);
            i += 1;
        }
        assert(users@.take(users.len() as int) =~= users@);
        self.load_identities(identities);
    }

    /// Files a run of identity rows, in order.
    pub fn load_identities(&mut self, rows: &Vec<IdentityRow>)
        requires
            old(self).wf(),
        ensures
            final(self).wf(),
            final(self).users() == old(self).users(),
            final(self).book() == book_after(old(self).book(), rows@),
    {
        let ghost book0 = self.book();
        let mut i: usize = 0;
        while i < rows.len()
            invariant
                self.wf(),
                i <= rows.len(),
                self.users() == old(self).users(),
                self.book() == book_after(book0, rows@.take(i as int)),
            decreases rows.len() - i,
        {
            proof {
                assert(rows@.take(i + 1).drop_last() =~= rows@.take(i as int));
                assert(rows@.take(i + 1).last() == rows@[i as int]);
            }
            self.insert_identity(&rows[i]);
            i += 1;
        }
        assert(rows@.take(rows.len() as int) =~= rows@);
    }

    /// The name that the address book gives for an address of a channel.
    pub fn lookup_name(&self, origin: &str, address: &str) -> (name: Option<&String>)
        requires
            self.wf(),
        ensures
            match name {
                Some(n) => self.book().contains_key(origin@) && self.book()[origin@].contains_key(
                    address@,
                ) && self.book()[origin@][address@] == n@,
                None => !(self.book().contains_key(origin@) && self.book()[origin@].contains_key(
                    address@,
                )),
            },
    {
        match self.identities.get(origin) {
            Some(page) => page.get(address),
            None => None,
        }
    }

    /// Whether this event can be resolved: its address leads nowhere, or to a
    /// known user.
    pub open spec fn can_resolve(&self, origin: Seq<char>, address: Seq<char>) -> bool {
        self.book().contains_key(origin) && self.book()[origin].contains_key(address)
            ==> self.users().contains_key(self.book()[origin][address])
    }

    /// Tests whether the event's address leads nowhere or to a known user.
    pub fn resolves(&self, event: &Event) -> (ok: bool)
        requires
            self.wf(),
        ensures
            ok == self.can_resolve(event@.origin, event@.from_address),
    {
        match self.lookup_name(event.origin.as_str(), event.from_address.as_str()) {
            Some(name) => self.users.contains_key(name.as_str()),
            None => true,
        }
    }

    /// The user who sent the event: the one filed under the name that the
    /// address book gives for the event's channel and sender address.
    pub fn resolve_user(&self, event: &Event) -> (user: Option<User>)
        requires
            self.wf(),
            self.can_resolve(event@.origin, event@.from_address),
        ensures
            crate::message::opt_user_view(user) == resolved(
                self.users(),
                self.book(),
                event@.origin,
                event@.from_address,
            ),
            user.is_some() ==> user.unwrap().wf(),
    {
        match self.lookup_name(event.origin.as_str(), event.from_address.as_str()) {
            Some(name) => {
                match self.users.get(name.as_str()) {
                    Some(u) => Some(u.clone()),
                    None => None,
                }
            },
            None => None,
        }
    }
}

} // verus!
