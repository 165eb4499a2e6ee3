//! Registered users and which of them are logged in.

use std::sync::Arc;
use vstd::prelude::*;
use crate::assoc::{
    assoc, has_key, keys_distinct, lemma_assoc_at, lemma_assoc_dom, lemma_assoc_empty,
    lemma_assoc_push, lemma_assoc_remove, lemma_assoc_update,
};
use crate::protocol::share;

verus! {

/// Whether `c` is a lowercase hexadecimal digit.
pub open spec fn is_lower_hex(c: char) -> bool {
    ('0' <= c <= '9') || ('a' <= c <= 'f')
}

/// Whether `s` is a UUID in lowercase hyphenated form: 36 characters, with
/// hyphens at positions 8, 13, 18 and 23 and lowercase hex digits elsewhere.
pub open spec fn is_hyphenated_uuid(s: Seq<char>) -> bool {
    &&& s.len() == 36
    &&& forall|i: int|
        0 <= i < 36 ==> if i == 8 || i == 13 || i == 18 || i == 23 {
            s[i] == '-'
        } else {
            is_lower_hex(#[trigger] s[i])
        }
}

/// Whether `s` is a version-4 UUID in lowercase hyphenated form: the version
/// digit (position 14) is `4` and the variant digit (position 19) is one of
/// `8`, `9`, `a`, `b`.
pub open spec fn is_uuid_v4(s: Seq<char>) -> bool {
    &&& is_hyphenated_uuid(s)
    &&& s[14] == '4'
    &&& (s[19] == '8' || s[19] == '9' || s[19] == 'a' || s[19] == 'b')
}

/// A fresh random UUID in its hyphenated lowercase text form
/// (`uuid::Uuid::new_v4`, written out by its `Display` impl). The value is
/// random; only its shape is claimed: `new_v4` sets the version nibble to 4
/// and the two variant bits to `10`.
#[verifier::external_body]
pub(crate) fn new_uuid_string() -> (s: String)
    ensures
        is_uuid_v4(s@),
{
    uuid::Uuid::new_v4().to_string()
}

/// A registered user.
#[derive(Debug, Clone, PartialEq)]
pub struct User {
    pub username: Arc<String>,
    pub id: Arc<String>,
}

/// Why a user operation was refused.
#[derive(Debug, Clone, Copy, PartialEq, Eq, Structural)]
pub enum UserError {
    /// A user of that name is already registered.
    UsernameTaken,
    /// No such user (registered, or logged in).
    UserNotFound,
}

impl UserError {
    /// The text of the error.
    pub fn message(&self) -> (s: String)
        ensures
            s@ == match self {
                UserError::UsernameTaken => "Username already exists"@,
                UserError::UserNotFound => "User not found"@,
            },
    {
        match self {
            UserError::UsernameTaken => String::from_str("Username already exists"),
            UserError::UserNotFound => String::from_str("User not found"),
        }
    }
}

/// The users as (name, id) pairs.
pub open spec fn pairs(v: Seq<User>) -> Seq<(Seq<char>, Seq<char>)> {
    v.map_values(|u: User| (u.username@, u.id@))
}

/// Registered users and logged-in users, each as a map from name to id.
pub struct Accounts {
    pub registered: Map<Seq<char>, Seq<char>>,
    pub active: Map<Seq<char>, Seq<char>>,
}

/// The accounts after registering `name` under the fresh id `id`: refused,
/// and unchanged, if the name is taken.
pub open spec fn register_spec(a: Accounts, name: Seq<char>, id: Seq<char>) -> (Accounts, Result<
    Seq<char>,
    UserError,
>) {
    if a.registered.contains_key(name) {
        (a, Err(UserError::UsernameTaken))
    } else {
        (Accounts { registered: a.registered.insert(name, id), active: a.active }, Ok(id))
    }
}

/// The accounts after `name` logs in, and the id that the login gives back:
/// refused, and unchanged, if the name is not registered.
pub open spec fn login_spec(a: Accounts, name: Seq<char>) -> (Accounts, Result<Seq<char>, UserError>) {
    if a.registered.contains_key(name) {
        (
            Accounts {
                registered: a.registered,
                active: a.active.insert(name, a.registered[name]),
            },
            Ok(a.registered[name]),
        )
    } else {
        (a, Err(UserError::UserNotFound))
    }
}

/// The accounts after `name` logs out: refused, and unchanged, if the user is
/// not logged in.
pub open spec fn logout_spec(a: Accounts, name: Seq<char>) -> (Accounts, Result<(), UserError>) {
    if a.active.contains_key(name) {
        (Accounts { registered: a.registered, active: a.active.remove(name) }, Ok(()))
    } else {
        (a, Err(UserError::UserNotFound))
    }
}

/// A user result as the user's id.
pub open spec fn user_result_id(r: Result<User, UserError>) -> Result<Seq<char>, UserError> {
    match r {
        Ok(u) => Ok(u.id@),
        Err(e) => Err(e),
    }
}

/// Keeps track of registered users and of those logged in.
pub struct UserManager {
    users: Vec<User>,
    active_users: Vec<User>,
}

impl View for UserManager {
    type V = Accounts;

    closed spec fn view(&self) -> Accounts {
        Accounts { registered: assoc(pairs(self.users@)), active: assoc(pairs(self.active_users@)) }
    }
}

fn copy_user(u: &User) -> (c: User)
    ensures
        c.username@ == u.username@,
        c.id@ == u.id@,
{
    User { username: share(&*u.username), id: share(&*u.id) }
}

fn position(v: &Vec<User>, name: &String) -> (r: Option<usize>)
    ensures
        match r {
            Some(i) => i < v.len() && v@[i as int].username@ == name@ && has_key(pairs(v@), name@),
            None => !has_key(pairs(v@), name@),
        },
{
    let mut i: usize = 0;
    while i < v.len()
        invariant
            0 <= i <= v.len(),
            forall|j: int| 0 <= j < i ==> pairs(v@)[j].0 != name@,
        decreases v.len() - i,
    {
        if *v[i].username == *name {
            assert(pairs(v@)[i as int].0 == name@);
            return Some(i);
        }
        i = i + 1;
    }
    None
}

impl UserManager {
    #[verifier::type_invariant]
    spec fn names_distinct(&self) -> bool {
        keys_distinct(pairs(self.users@)) && keys_distinct(pairs(self.active_users@))
    }

    /// Creates a manager with no users.
    pub fn new() -> (m: UserManager)
        ensures
            m@.registered == Map::<Seq<char>, Seq<char>>::empty(),
            m@.active == Map::<Seq<char>, Seq<char>>::empty(),
    {
        let m = UserManager { users: Vec::new(), active_users: Vec::new() };
        proof {
            lemma_assoc_empty(pairs(m.users@));
            lemma_assoc_empty(pairs(m.active_users@));
        }
        m
    }

    fn append(v: &mut Vec<User>, u: User)
        requires
            keys_distinct(pairs(old(v)@)),
            !has_key(pairs(old(v)@), u.username@),
        ensures
            keys_distinct(pairs(final(v)@)),
            assoc(pairs(final(v)@)) == assoc(pairs(old(v)@)).insert(u.username@, u.id@),
    {
        let ghost p = (u.username@, u.id@);
        proof {
            lemma_assoc_push(pairs(old(v)@), p);
        }
        v.push(u);
        assert(pairs(v@) =~= pairs(old(v)@).push(p));
    }

    /// Registers a new user under a fresh random id.
    ///
    /// Fails with `UsernameTaken`, changing nothing, if the name is already
    /// registered.
    pub fn register(&mut self, username: Arc<String>) -> (r: Result<User, UserError>)
        ensures
            r matches Ok(u) ==> u.username@ == username@ && is_uuid_v4(u.id@),
            ({
                let id = match r {
                    Ok(u) => u.id@,
                    Err(_) => Seq::<char>::empty(),
                };
                (final(self)@, user_result_id(r)) == register_spec(old(self)@, username@, id)
            }),
    {
        proof {
            use_type_invariant(&*self);
            lemma_assoc_dom(pairs(self.users@), username@);
        }
        if position(&self.users, &*username).is_some() {
            return Err(UserError::UsernameTaken);
        }
        let id = Arc::new(new_uuid_string());
        let user = User { username, id };
        let reply = copy_user(&user);
        let mut users: Vec<User> = Vec::new();
        proof {
            lemma_assoc_empty(pairs(users@));
        }
        std::mem::swap(&mut users, &mut self.users);
        Self::append(&mut users, user);
        self.users = users;
        Ok(reply)
    }

    /// Logs a registered user in, recording the user's id among the active
    /// users, and returns the user.
    ///
    /// Fails with `UserNotFound`, changing nothing, if no user of that name is
    /// registered.
    pub fn login(&mut self, username: Arc<String>) -> (r: Result<User, UserError>)
        ensures
            r matches Ok(u) ==> u.username@ == username@,
            (final(self)@, user_result_id(r)) == login_spec(old(self)@, username@),
    {
        proof {
            use_type_invariant(&*self);
            lemma_assoc_dom(pairs(self.users@), username@);
        }
        let i = match position(&self.users, &*username) {
            Some(i) => i,
            None => {
                return Err(UserError::UserNotFound);
            },
        };
        proof {
            lemma_assoc_at(pairs(self.users@), i as int);
        }
        let found = copy_user(&self.users[i]);
        let reply = copy_user(&found);
        let mut active: Vec<User> = Vec::new();
        proof {
            lemma_assoc_empty(pairs(active@));
        }
        std::mem::swap(&mut active, &mut self.active_users);
        match position(&active, &*username) {
            Some(j) => {
                let ghost before = pairs(active@);
                proof {
                    lemma_assoc_update(before, j as int, found.id@);
                }
                active.set(j, found);
                assert(pairs(active@) =~= before.update(j as int, (before[j as int].0, reply.id@)));
            },
            None => {
                Self::append(&mut active, found);
            },
        }
        self.active_users = active;
        Ok(reply)
    }

    /// Logs a user out.
    ///
    /// Fails with `UserNotFound`, changing nothing, if the user is not logged in.
    pub fn logout(&mut self, username: Arc<String>) -> (r: Result<(), UserError>)
        ensures
            (final(self)@, r) == logout_spec(old(self)@, username@),
    {
        proof {
            use_type_invariant(&*self);
            lemma_assoc_dom(pairs(self.active_users@), username@);
        }
        let j = match position(&self.active_users, &*username) {
            Some(j) => j,
            None => {
                return Err(UserError::UserNotFound);
            },
        };
        let mut active: Vec<User> = Vec::new();
        proof {
            lemma_assoc_empty(pairs(active@));
        }
        std::mem::swap(&mut active, &mut self.active_users);
        let ghost before = pairs(active@);
        proof {
            lemma_assoc_remove(before, j as int);
        }
        active.remove(j);
        assert(pairs(active@) =~= before.remove(j as int));
        self.active_users = active;
        Ok(())
    }

    /// Whether the user is logged in.
    pub fn is_active(&self, username: &Arc<String>) -> (b: bool)
        ensures
            b == self@.active.contains_key(username@),
    {
        proof {
            use_type_invariant(self);
            lemma_assoc_dom(pairs(self.active_users@), username@);
        }
        position(&self.active_users, &**username).is_some()
    }
}

/// Every logged-in user is registered.
pub open spec fn active_registered(a: Accounts) -> bool {
    forall|n: Seq<char>| #[trigger] a.active.contains_key(n) ==> a.registered.contains_key(n)
}

/// A name that was free can log in right after it is registered, and gets
/// the id it was registered under; the user is then logged in.
pub proof fn law_login_after_register(a: Accounts, name: Seq<char>, id: Seq<char>)
    requires
        !a.registered.contains_key(name),
    ensures
        register_spec(a, name, id).1 == Ok::<Seq<char>, UserError>(id),
        login_spec(register_spec(a, name, id).0, name).1 == Ok::<Seq<char>, UserError>(id),
        login_spec(register_spec(a, name, id).0, name).0.active.contains_key(name),
{
}

/// A name can be registered only once: a second registration is refused and
/// changes nothing.
pub proof fn law_register_once(a: Accounts, name: Seq<char>, id1: Seq<char>, id2: Seq<char>)
    ensures
        ({
            let a1 = register_spec(a, name, id1).0;
            register_spec(a1, name, id2) == (a1, Err::<Seq<char>, UserError>(UserError::UsernameTaken))
        }),
{
}

/// Logging out undoes logging in, for a registered user who was not logged in.
pub proof fn law_logout_undoes_login(a: Accounts, name: Seq<char>)
    requires
        a.registered.contains_key(name),
        !a.active.contains_key(name),
    ensures
        logout_spec(login_spec(a, name).0, name).1 == Ok::<(), UserError>(()),
        logout_spec(login_spec(a, name).0, name).0 == a,
{
    assert(a.active.insert(name, a.registered[name]).remove(name) =~= a.active);
}

/// Only a logged-in user can log out; for anyone else logging out is refused
/// and changes nothing.
pub proof fn law_logout_needs_login(a: Accounts, name: Seq<char>)
    requires
        !a.active.contains_key(name),
    ensures
        logout_spec(a, name) == (a, Err::<(), UserError>(UserError::UserNotFound)),
{
}

/// Registering, logging in and logging out keep every logged-in user registered.
pub proof fn law_active_users_are_registered(a: Accounts, name: Seq<char>, id: Seq<char>)
    requires
        active_registered(a),
    ensures
        active_registered(register_spec(a, name, id).0),
        active_registered(login_spec(a, name).0),
        active_registered(logout_spec(a, name).0),
{
}

} // verus!
